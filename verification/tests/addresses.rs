use netscanner::net::{parse_ipv4, Ipv4, MacAddr};
use netscanner::text::str_to_chars;
use netscanner::types::InterfaceInfo;

fn ip(a: u8, b: u8, c: u8, d: u8) -> Ipv4 {
    Ipv4::new(a, b, c, d)
}

fn iface(addr: Ipv4, mask: Ipv4) -> InterfaceInfo {
    InterfaceInfo { name: "eth0".to_string(), ip: addr, netmask: mask, mac: MacAddr(0, 1, 2, 3, 4, 5) }
}

#[test]
fn octets_and_value_agree() {
    let a = ip(192, 168, 1, 10);
    assert_eq!(a.addr, 0xc0a8010a);
    assert_eq!(a.octets(), [192, 168, 1, 10]);
}

#[test]
fn address_text_is_dotted_decimal() {
    assert_eq!(ip(10, 0, 0, 1).to_string(), "10.0.0.1");
    assert_eq!(ip(255, 255, 255, 0).to_string(), "255.255.255.0");
    assert_eq!(ip(0, 0, 0, 0).to_string(), "0.0.0.0");
}

#[test]
fn dotted_quads_parse() {
    let cases: [(&str, Option<u32>); 12] = [
        ("192.168.1.10", Some(0xc0a8010a)),
        ("0.0.0.0", Some(0)),
        ("255.255.255.255", Some(0xffffffff)),
        ("10.0.0.1", Some(0x0a000001)),
        ("01.2.3.4", None),
        ("256.1.1.1", None),
        ("1.2.3", None),
        ("1.2.3.4.5", None),
        ("", None),
        ("1..2.3", None),
        ("+1.2.3.4", None),
        ("1.2.3.1000", None),
    ];
    for (c, want) in cases.iter() {
        assert_eq!(parse_ipv4(&str_to_chars(c)).map(|a| a.addr), *want, "input {:?}", c);
    }
}

#[test]
fn text_parses_back() {
    for a in [0u32, 1, 0x7f000001, 0xc0a8010a, 0xffffffff, 0x0a000064].iter() {
        let t = Ipv4 { addr: *a }.to_string();
        assert_eq!(parse_ipv4(&str_to_chars(&t)).map(|x| x.addr), Some(*a));
    }
}

#[test]
fn loopback_and_link_local() {
    assert!(ip(127, 0, 0, 1).is_loopback());
    assert!(!ip(128, 0, 0, 1).is_loopback());
    assert!(ip(169, 254, 3, 4).is_link_local());
    assert!(!ip(169, 253, 3, 4).is_link_local());
}

#[test]
fn mac_text_is_lower_hex_with_colons() {
    assert_eq!(MacAddr(0x00, 0x1a, 0x2b, 0x3c, 0x4d, 0x5e).to_string(), "00:1a:2b:3c:4d:5e");
    assert_eq!(MacAddr::broadcast().to_string(), "ff:ff:ff:ff:ff:ff");
    assert_eq!(MacAddr::zero().octets(), [0; 6]);
}

#[test]
fn network_address_and_gateway() {
    let i = iface(ip(192, 168, 2, 105), ip(255, 255, 255, 0));
    assert_eq!(i.network_address(), ip(192, 168, 2, 0));
    assert_eq!(i.gateway_guess(), ip(192, 168, 2, 1));
    let j = iface(ip(10, 20, 30, 40), ip(255, 255, 0, 0));
    assert_eq!(j.network_address(), ip(10, 20, 0, 0));
    assert_eq!(j.gateway_guess(), ip(10, 20, 0, 1));
}

#[test]
fn usable_hosts_exclude_network_and_broadcast() {
    let i = iface(ip(192, 168, 2, 105), ip(255, 255, 255, 252));
    assert_eq!(i.usable_hosts(), vec![ip(192, 168, 2, 105), ip(192, 168, 2, 106)]);
    let j = iface(ip(192, 168, 2, 105), ip(255, 255, 255, 0));
    let hosts = j.usable_hosts();
    assert_eq!(hosts.len(), 254);
    assert_eq!(hosts[0], ip(192, 168, 2, 1));
    assert_eq!(hosts[253], ip(192, 168, 2, 254));
    for h in hosts.iter() {
        assert_eq!(h.addr & j.netmask.addr, j.network_address().addr);
    }
    let k = iface(ip(10, 0, 0, 7), ip(255, 255, 255, 255));
    assert!(k.usable_hosts().is_empty());
}
