pub mod banner;
pub mod dns;
pub mod http;
pub mod mdns_unicast;
pub mod netbios;
pub mod os;
pub mod tls;
pub mod udp;
