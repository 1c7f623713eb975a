use netscanner::net::Ipv4;
use netscanner::probes::dns::{build_ptr_query, parse_ptr_response};
use netscanner::probes::mdns_unicast::{mdns_workstation_query, parse_mdns_response};
use netscanner::probes::netbios::{netbios_status_query, parse_netbios_response};

#[test]
fn ptr_query_names_the_reversed_address() {
    let q = build_ptr_query(Ipv4::new(192, 168, 1, 10));
    let mut expected = vec![0x13, 0x37, 0x01, 0x00, 0x00, 0x01, 0, 0, 0, 0, 0, 0];
    expected.extend_from_slice(&[2, b'1', b'0', 1, b'1', 3, b'1', b'6', b'8', 3, b'1', b'9', b'2']);
    expected.extend_from_slice(&[7, b'i', b'n', b'-', b'a', b'd', b'd', b'r', 4, b'a', b'r', b'p', b'a', 0]);
    expected.extend_from_slice(&[0x00, 0x0c, 0x00, 0x01]);
    assert_eq!(q, expected);
}

fn ptr_reply(name_labels: &[&str], trailing_zero: bool) -> Vec<u8> {
    let mut r = build_ptr_query(Ipv4::new(192, 168, 1, 10));
    r[2] = 0x81;
    r[3] = 0x80;
    r[7] = 1;
    let mut rdata = Vec::new();
    for l in name_labels {
        rdata.push(l.len() as u8);
        rdata.extend_from_slice(l.as_bytes());
    }
    if trailing_zero {
        rdata.push(0);
    }
    r.extend_from_slice(&[0xc0, 0x0c, 0x00, 0x0c, 0x00, 0x01, 0x00, 0x00, 0x0e, 0x10]);
    r.push((rdata.len() >> 8) as u8);
    r.push(rdata.len() as u8);
    r.extend_from_slice(&rdata);
    r
}

#[test]
fn ptr_answer_gives_the_host_name() {
    let reply = ptr_reply(&["printer", "lan"], true);
    assert_eq!(parse_ptr_response(&reply), Some("DNS-PTR: printer.lan".to_string()));
    let reply = ptr_reply(&["nas"], false);
    assert_eq!(parse_ptr_response(&reply), Some("DNS-PTR: nas".to_string()));
}

#[test]
fn ptr_without_answer_gives_nothing() {
    let mut reply = ptr_reply(&["printer"], true);
    reply[7] = 0;
    assert_eq!(parse_ptr_response(&reply), None);
    assert_eq!(parse_ptr_response(&[0u8; 12]), None);
    let reply = ptr_reply(&[], true);
    assert_eq!(parse_ptr_response(&reply), None);
    let full = ptr_reply(&["printer"], true);
    assert_eq!(parse_ptr_response(&full[..full.len() - 3]), None);
}

#[test]
fn ptr_name_trailing_dots_are_removed() {
    let reply = ptr_reply(&["a.", "b.."], true);
    assert_eq!(parse_ptr_response(&reply), Some("DNS-PTR: a..b".to_string()));
}

#[test]
fn netbios_query_bytes() {
    let q = netbios_status_query();
    assert_eq!(q.len(), 48);
    assert_eq!(&q[..13], &[0x80, 0x01, 0, 0, 0, 1, 0, 0, 0, 0, 0, 0, 0x20]);
    assert_eq!(&q[13..15], b"CK");
    assert!(q[15..43].iter().all(|b| *b == b'A'));
    assert_eq!(&q[43..], &[0, 0, 0x21, 0, 1]);
}

fn netbios_reply(entries: &[(&str, u8, u16)]) -> Vec<u8> {
    let mut r = vec![0u8; 56];
    r.push(entries.len() as u8);
    for (name, kind, flags) in entries {
        let mut n = name.as_bytes().to_vec();
        n.resize(15, b' ');
        r.extend_from_slice(&n);
        r.push(*kind);
        r.push((*flags >> 8) as u8);
        r.push(*flags as u8);
    }
    r
}

#[test]
fn netbios_reports_the_first_unique_workstation_name() {
    let reply = netbios_reply(&[("WORKGROUP", 0x00, 0x8400), ("DESKTOP-42", 0x00, 0x0400), ("DESKTOP-42", 0x20, 0x0400)]);
    assert_eq!(parse_netbios_response(&reply), Some("NetBIOS: DESKTOP-42".to_string()));
    let reply = netbios_reply(&[("FILES", 0x20, 0x0400)]);
    assert_eq!(parse_netbios_response(&reply), None);
    let reply = netbios_reply(&[("   ", 0x00, 0x0400), ("PC", 0x00, 0x0000)]);
    assert_eq!(parse_netbios_response(&reply), Some("NetBIOS: PC".to_string()));
    assert_eq!(parse_netbios_response(&[0u8; 56]), None);
}

#[test]
fn mdns_query_asks_for_workstations() {
    let q = mdns_workstation_query();
    assert_eq!(q.len(), 41);
    assert_eq!(&q[13..25], b"_workstation");
    assert_eq!(&q[q.len() - 4..], &[0x00, 0x0c, 0x00, 0x01]);
}

#[test]
fn mdns_reply_gives_a_name() {
    let mut reply = vec![0u8; 12];
    reply.extend_from_slice(b"\x0c_workstation\x04_tcp\x05local\x00");
    reply.extend_from_slice(b"\x1dmacbook [aa:bb:cc:dd:ee:ff]._workstation._tcp.local\x00");
    assert_eq!(parse_mdns_response(&reply), Some("mDNS: macbook [aa:bb:cc:dd:ee:ff]".to_string()));
    let mut reply = vec![0u8; 12];
    reply.extend_from_slice(b"\x02ab._tcp.local\x00");
    assert_eq!(parse_mdns_response(&reply), None);
    assert_eq!(parse_mdns_response(&[0u8; 12]), None);
}
