//! Putting together what was learned about one host.
use crate::net::{ipv4_text, mac_text, Ipv4, MacAddr};
use crate::probes::os::{guess_os_by_ttl, os_guess_text};
use crate::text::literal;
use crate::types::{HostAudit, PortResult};
use vstd::prelude::*;

verus! {

/// The ways of learning a host name that follow a name already announced
/// by multicast, in the order they are tried.
#[derive(Clone, Copy, Debug, PartialEq, Eq, Structural)]
pub enum NameProbe {
    ReverseDns,
    MdnsUnicast,
    Netbios,
}

/// The probe to try next: none once a name is known; otherwise reverse DNS
/// first, then unicast mDNS, then NetBIOS, then none.
pub open spec fn next_name_probe_spec(found: bool, last: Option<NameProbe>) -> Option<NameProbe> {
    if found {
        None
    } else {
        match last {
            None => Some(NameProbe::ReverseDns),
            Some(NameProbe::ReverseDns) => Some(NameProbe::MdnsUnicast),
            Some(NameProbe::MdnsUnicast) => Some(NameProbe::Netbios),
            Some(NameProbe::Netbios) => None,
        }
    }
}

/// Decides which name probe runs next, given whether a name is known and
/// which probe ran last.
pub fn next_name_probe(found: bool, last: Option<NameProbe>) -> (r: Option<NameProbe>)
    ensures
        r == next_name_probe_spec(found, last),
{
    if found {
        return None;
    }
    match last {
        None => Some(NameProbe::ReverseDns),
        Some(NameProbe::ReverseDns) => Some(NameProbe::MdnsUnicast),
        Some(NameProbe::MdnsUnicast) => Some(NameProbe::Netbios),
        Some(NameProbe::Netbios) => None,
    }
}

/// The audit record of a host: its addresses as text, the vendor of its
/// Ethernet address, the system its TTL suggests, its name and open ports.
pub fn assemble_host_audit(
    ip: Ipv4,
    mac: MacAddr,
    vendor: String,
    ttl: u8,
    hostname: Option<String>,
    open_ports: Vec<PortResult>,
) -> (r: HostAudit)
    ensures
        r.ip@ == ipv4_text(ip.addr),
        r.mac@ == mac_text(mac),
        r.vendor == vendor,
        r.os_guess@ == os_guess_text(ttl),
        r.hostname == hostname,
        r.open_ports == open_ports,
{
    HostAudit {
        ip: ip.to_string(),
        mac: mac.to_string(),
        vendor,
        os_guess: literal(guess_os_by_ttl(ttl)),
        hostname,
        open_ports,
    }
}

} // verus!
