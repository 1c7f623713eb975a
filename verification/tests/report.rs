use netscanner::net::{Ipv4, MacAddr};
use netscanner::report::{host_display_name, host_sort_key, open_ports_display};
use netscanner::scanner::audit::{assemble_host_audit, next_name_probe, NameProbe};
use netscanner::scanner::tcp::open_port_result;
use netscanner::types::PortResult;

#[test]
fn assembled_audit_has_text_addresses() {
    let h = assemble_host_audit(
        Ipv4::new(192, 168, 1, 9),
        MacAddr(0xaa, 0xbb, 0xcc, 0x01, 0x02, 0x03),
        "Vendor".to_string(),
        120,
        None,
        vec![],
    );
    assert_eq!(h.ip, "192.168.1.9");
    assert_eq!(h.mac, "aa:bb:cc:01:02:03");
    assert_eq!(h.os_guess, "Windows");
    assert_eq!(h.vendor, "Vendor");
    assert_eq!(host_sort_key(&h), Ipv4::new(192, 168, 1, 9).addr);
}

#[test]
fn name_probes_run_in_order() {
    assert_eq!(next_name_probe(false, None), Some(NameProbe::ReverseDns));
    assert_eq!(next_name_probe(false, Some(NameProbe::ReverseDns)), Some(NameProbe::MdnsUnicast));
    assert_eq!(next_name_probe(false, Some(NameProbe::MdnsUnicast)), Some(NameProbe::Netbios));
    assert_eq!(next_name_probe(false, Some(NameProbe::Netbios)), None);
    assert_eq!(next_name_probe(true, None), None);
}

#[test]
fn table_cells() {
    let mut h = assemble_host_audit(Ipv4::new(10, 0, 0, 5), MacAddr::zero(), String::new(), 64, Some("DNS-PTR: nas".to_string()), vec![]);
    assert_eq!(host_display_name(&h), "10.0.0.5\n(DNS-PTR: nas)");
    h.hostname = None;
    assert_eq!(host_display_name(&h), "10.0.0.5");
    assert_eq!(open_ports_display(&h.open_ports), "Sem portas abertas");
    let ports: Vec<PortResult> = vec![open_port_result(22, Some("SSH-2.0-OpenSSH".to_string())), open_port_result(8081, None)];
    assert_eq!(open_ports_display(&ports), "22/TCP - SSH [SSH-2.0-OpenSSH]\n8081/TCP - Unknown");
}

#[test]
fn unparsable_addresses_sort_first() {
    let mut h = assemble_host_audit(Ipv4::new(10, 0, 0, 5), MacAddr::zero(), String::new(), 64, None, vec![]);
    h.ip = "not-an-ip".to_string();
    assert_eq!(host_sort_key(&h), 0);
}
