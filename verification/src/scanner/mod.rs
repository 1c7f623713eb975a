pub mod arp;
pub mod audit;
pub mod iface;
pub mod tcp;
