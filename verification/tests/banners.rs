use netscanner::net::Ipv4;
use netscanner::probes::banner::{banner_probe_for_port, parse_passive_banner, BannerProbe};
use netscanner::probes::http::{http_head_request, parse_http_banner};

#[test]
fn probe_choice_by_port() {
    assert_eq!(banner_probe_for_port(443), BannerProbe::Tls);
    assert_eq!(banner_probe_for_port(8443), BannerProbe::Tls);
    assert_eq!(banner_probe_for_port(80), BannerProbe::Http);
    assert_eq!(banner_probe_for_port(8000), BannerProbe::Http);
    assert_eq!(banner_probe_for_port(8080), BannerProbe::Http);
    assert_eq!(banner_probe_for_port(22), BannerProbe::Passive);
}

#[test]
fn head_request_names_the_host() {
    assert_eq!(
        http_head_request(Ipv4::new(192, 168, 0, 1)),
        "HEAD / HTTP/1.1\r\nHost: 192.168.0.1\r\nUser-Agent: NetScanner/1.0\r\nConnection: close\r\n\r\n"
    );
}

#[test]
fn http_banner_prefers_the_server_header() {
    let reply = b"HTTP/1.1 200 OK\r\nDate: x\r\nSERVER:  nginx/1.25 \r\n\r\n";
    assert_eq!(parse_http_banner(reply), Some("SERVER:  nginx/1.25".to_string()));
    let reply = b"HTTP/1.1 404 Not Found\r\nContent-Length: 0\r\n\r\n";
    assert_eq!(parse_http_banner(reply), Some("HTTP/1.1 404 Not Found".to_string()));
    assert_eq!(parse_http_banner(b""), None);
    assert_eq!(parse_http_banner(b"\r\n\r\n"), None);
}

#[test]
fn passive_banner_is_the_trimmed_first_line() {
    assert_eq!(parse_passive_banner(b"SSH-2.0-OpenSSH_9.6\r\n"), Some("SSH-2.0-OpenSSH_9.6".to_string()));
    assert_eq!(parse_passive_banner(b"  220 ftp ready  \nmore"), Some("220 ftp ready".to_string()));
    let long = [b'x'; 100];
    assert_eq!(parse_passive_banner(&long), Some("x".repeat(60)));
    assert_eq!(parse_passive_banner(b""), None);
    assert_eq!(parse_passive_banner(b"   \r\nsecond"), None);
    assert_eq!(parse_passive_banner(b"caf\xc3\xa9 \xff!"), Some("caf\u{e9} \u{fffd}!".to_string()));
}
