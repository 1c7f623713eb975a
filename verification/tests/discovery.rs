use netscanner::net::{Ipv4, MacAddr};
use netscanner::probes::udp::{mdns_services_query, record_udp_reply, ssdp_search_message};
use netscanner::scanner::arp::{build_arp_request_packet, classify_frame, record_captured_frame, DiscoveredHostInfo, FrameEvent};
use std::collections::HashMap;

#[test]
fn discovery_messages() {
    assert_eq!(
        ssdp_search_message(),
        "M-SEARCH * HTTP/1.1\r\nHOST: 239.255.255.250:1900\r\nMAN: \"ssdp:discover\"\r\nMX: 1\r\nST: ssdp:all\r\n\r\n"
    );
    let q = mdns_services_query();
    assert_eq!(q.len(), 46);
    assert_eq!(&q[13..22], b"_services");
}

#[test]
fn udp_replies_record_the_last_announced_value() {
    let local = Ipv4::new(192, 168, 1, 20);
    let tv = Ipv4::new(192, 168, 1, 50);
    let mut names: HashMap<u32, String> = HashMap::new();
    let reply = b"HTTP/1.1 200 OK\r\nSERVER: Linux/4.4 UPnP/1.0\r\nLOCATION: http://192.168.1.50:8008/desc.xml\r\n\r\n";
    record_udp_reply(&mut names, local, tv, reply);
    assert_eq!(names.get(&tv.addr), Some(&"http://192.168.1.50:8008/desc.xml".to_string()));
    record_udp_reply(&mut names, local, tv, b"Server:   \r\n");
    assert_eq!(names.get(&tv.addr), Some(&"http://192.168.1.50:8008/desc.xml".to_string()));
    record_udp_reply(&mut names, local, local, b"server: me\r\n");
    assert!(!names.contains_key(&local.addr));
    let other = Ipv4::new(192, 168, 1, 51);
    record_udp_reply(&mut names, local, other, b"\x00\x01binary");
    assert!(!names.contains_key(&other.addr));
    assert_eq!(names.len(), 1);
}

#[test]
fn arp_request_layout() {
    let p = build_arp_request_packet(MacAddr(0, 0x1a, 2, 3, 4, 5), Ipv4::new(192, 168, 1, 20), Ipv4::new(192, 168, 1, 1));
    let expected: [u8; 42] = [
        0xff, 0xff, 0xff, 0xff, 0xff, 0xff, 0, 0x1a, 2, 3, 4, 5, 0x08, 0x06,
        0x00, 0x01, 0x08, 0x00, 6, 4, 0x00, 0x01,
        0, 0x1a, 2, 3, 4, 5, 192, 168, 1, 20,
        0, 0, 0, 0, 0, 0, 192, 168, 1, 1,
    ];
    assert_eq!(p, expected);
    assert_eq!(classify_frame(&p), FrameEvent::Ignored);
}

fn arp_reply(mac: [u8; 6], ip: [u8; 4]) -> Vec<u8> {
    let mut f = vec![0u8; 42];
    f[12] = 0x08;
    f[13] = 0x06;
    f[21] = 2;
    f[22..28].copy_from_slice(&mac);
    f[28..32].copy_from_slice(&ip);
    f
}

fn ipv4_packet(src: [u8; 4], ttl: u8) -> Vec<u8> {
    let mut f = vec![0u8; 60];
    f[12] = 0x08;
    f[13] = 0x00;
    f[22] = ttl;
    f[26..30].copy_from_slice(&src);
    f
}

#[test]
fn captured_frames_fill_the_table() {
    let mut disc: HashMap<u32, DiscoveredHostInfo> = HashMap::new();
    let host = Ipv4::new(192, 168, 1, 9).addr;
    record_captured_frame(&mut disc, &ipv4_packet([192, 168, 1, 9], 128));
    assert!(disc.is_empty());
    record_captured_frame(&mut disc, &arp_reply([1, 2, 3, 4, 5, 6], [192, 168, 1, 9]));
    assert_eq!(disc.get(&host), Some(&DiscoveredHostInfo { mac: MacAddr(1, 2, 3, 4, 5, 6), ttl: 64 }));
    record_captured_frame(&mut disc, &arp_reply([9, 9, 9, 9, 9, 9], [192, 168, 1, 9]));
    assert_eq!(disc.get(&host).map(|i| i.mac), Some(MacAddr(1, 2, 3, 4, 5, 6)));
    record_captured_frame(&mut disc, &ipv4_packet([192, 168, 1, 9], 128));
    assert_eq!(disc.get(&host), Some(&DiscoveredHostInfo { mac: MacAddr(1, 2, 3, 4, 5, 6), ttl: 128 }));
    record_captured_frame(&mut disc, &arp_reply([1, 1, 1, 1, 1, 1], [10, 0, 0, 1])[..41]);
    assert_eq!(disc.len(), 1);
}
