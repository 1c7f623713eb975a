//! ARP discovery: the request frame sent to each target, and the reading of
//! captured frames into the table of discovered hosts.
use crate::net::{ipv4_from_octets, ipv4_octets, mac_octets, Ipv4, MacAddr};
use std::collections::HashMap;
use vstd::prelude::*;

verus! {

broadcast use vstd::std_specs::hash::group_hash_axioms;

/// What is known of a host that answered: its Ethernet address and the TTL
/// of its packets.
#[derive(Clone, Copy, Debug, PartialEq, Eq, Structural)]
pub struct DiscoveredHostInfo {
    pub mac: MacAddr,
    pub ttl: u8,
}

/// The Ethernet frame of an ARP request from `src_mac`/`src_ip` asking for
/// `target_ip`: broadcast destination, ethertype ARP (0x0806); hardware
/// Ethernet (1), protocol IPv4 (0x0800), address lengths 6 and 4,
/// operation request (1), the sender's addresses, a zero target hardware
/// address, and the target address.
pub open spec fn arp_request_frame(src_mac: MacAddr, src_ip: u32, target_ip: u32) -> Seq<u8> {
    seq![0xffu8, 0xff, 0xff, 0xff, 0xff, 0xff] + mac_octets(src_mac) + seq![0x08u8, 0x06]
        + seq![0x00u8, 0x01, 0x08, 0x00, 0x06, 0x04, 0x00, 0x01] + mac_octets(src_mac)
        + ipv4_octets(src_ip) + seq![0x00u8, 0x00, 0x00, 0x00, 0x00, 0x00] + ipv4_octets(
        target_ip,
    )
}

/// Builds the ARP request for `target_ip`.
pub fn build_arp_request_packet(source_mac: MacAddr, source_ip: Ipv4, target_ip: Ipv4) -> (r: [u8; 42])
    ensures
        r@ == arp_request_frame(source_mac, source_ip.addr, target_ip.addr),
{
    let broadcast = MacAddr::broadcast().octets();
    let src = source_mac.octets();
    let zero = MacAddr::zero().octets();
    let sip = source_ip.octets();
    let tip = target_ip.octets();
    let r: [u8; 42] = [
        broadcast[0], broadcast[1], broadcast[2], broadcast[3], broadcast[4], broadcast[5],
        src[0], src[1], src[2], src[3], src[4], src[5],
        0x08, 0x06,
        0x00, 0x01, 0x08, 0x00, 0x06, 0x04, 0x00, 0x01,
        src[0], src[1], src[2], src[3], src[4], src[5],
        sip[0], sip[1], sip[2], sip[3],
        zero[0], zero[1], zero[2], zero[3], zero[4], zero[5],
        tip[0], tip[1], tip[2], tip[3],
    ];
    assert(r@ =~= arp_request_frame(source_mac, source_ip.addr, target_ip.addr));
    r
}

/// What a captured frame tells the discovery.
#[derive(Clone, Copy, Debug, PartialEq, Eq, Structural)]
pub enum FrameEvent {
    /// An ARP reply: `ip` is at `mac`.
    ArpReply { ip: u32, mac: MacAddr },
    /// An IPv4 packet from `src` with time-to-live `ttl`.
    Ipv4Packet { src: u32, ttl: u8 },
    /// Anything else.
    Ignored,
}

/// The big-endian 16-bit value at `i`.
pub open spec fn frame_be16(b: Seq<u8>, i: int) -> int {
    b[i] as int * 256 + b[i + 1] as int
}

/// The address in the four bytes at `i`.
pub open spec fn frame_ipv4(b: Seq<u8>, i: int) -> u32 {
    (b[i] * 0x1000000 + b[i + 1] * 0x10000 + b[i + 2] * 0x100 + b[i + 3]) as u32
}

/// How a frame of at least 42 bytes is read: ethertype 0x0806 with
/// operation 2 is an ARP reply whose sender addresses start at bytes 22 and
/// 28; ethertype 0x0800 is an IPv4 packet whose TTL is byte 22 and whose
/// source address starts at byte 26. Shorter frames are ignored.
pub open spec fn frame_event(b: Seq<u8>) -> FrameEvent {
    if b.len() >= 42 {
        let ethertype = frame_be16(b, 12);
        if ethertype == 0x0806 {
            if frame_be16(b, 20) == 2 {
                FrameEvent::ArpReply {
                    ip: frame_ipv4(b, 28),
                    mac: MacAddr(b[22], b[23], b[24], b[25], b[26], b[27]),
                }
            } else {
                FrameEvent::Ignored
            }
        } else if ethertype == 0x0800 && b.len() >= 34 {
            FrameEvent::Ipv4Packet { src: frame_ipv4(b, 26), ttl: b[22] }
        } else {
            FrameEvent::Ignored
        }
    } else {
        FrameEvent::Ignored
    }
}

/// Reads a captured frame.
pub fn classify_frame(data: &[u8]) -> (e: FrameEvent)
    ensures
        e == frame_event(data@),
{
    if data.len() >= 42 {
        let ethertype: u16 = (data[12] as u16) * 256 + data[13] as u16;
        if ethertype == 0x0806 {
            let opcode: u16 = (data[20] as u16) * 256 + data[21] as u16;
            if opcode == 2 {
                let sender_mac = MacAddr(data[22], data[23], data[24], data[25], data[26], data[27]);
                let sender_ip = Ipv4::new(data[28], data[29], data[30], data[31]);
                return FrameEvent::ArpReply { ip: sender_ip.addr, mac: sender_mac };
            }
        } else if ethertype == 0x0800 && data.len() >= 34 {
            let src_ip = Ipv4::new(data[26], data[27], data[28], data[29]);
            let ttl = data[22];
            return FrameEvent::Ipv4Packet { src: src_ip.addr, ttl };
        }
    }
    FrameEvent::Ignored
}

/// The table after an event: a reply from a new address adds it with TTL
/// 64 (the first reply's Ethernet address is kept); a packet from a known
/// address sets its TTL; nothing else changes the table.
pub open spec fn discovered_after(
    before: Map<u32, DiscoveredHostInfo>,
    e: FrameEvent,
) -> Map<u32, DiscoveredHostInfo> {
    match e {
        FrameEvent::ArpReply { ip, mac } => if before.contains_key(ip) {
            before
        } else {
            before.insert(ip, DiscoveredHostInfo { mac, ttl: 64 })
        },
        FrameEvent::Ipv4Packet { src, ttl } => if before.contains_key(src) {
            before.insert(src, DiscoveredHostInfo { mac: before[src].mac, ttl })
        } else {
            before
        },
        FrameEvent::Ignored => before,
    }
}

/// Applies what a frame tells to the table of discovered hosts.
pub fn apply_frame_event(discovered: &mut HashMap<u32, DiscoveredHostInfo>, e: FrameEvent)
    ensures
        final(discovered)@ == discovered_after(old(discovered)@, e),
{
    match e {
        FrameEvent::ArpReply { ip, mac } => {
            if !discovered.contains_key(&ip) {
                discovered.insert(ip, DiscoveredHostInfo { mac, ttl: 64 });
            }
        },
        FrameEvent::Ipv4Packet { src, ttl } => {
            let known = match discovered.get(&src) {
                Some(info) => Some(info.mac),
                None => None,
            };
            match known {
                Some(mac) => {
                    discovered.insert(src, DiscoveredHostInfo { mac, ttl });
                },
                None => {},
            }
        },
        FrameEvent::Ignored => {},
    }
}

/// Reads a captured frame into the table of discovered hosts.
pub fn record_captured_frame(discovered: &mut HashMap<u32, DiscoveredHostInfo>, data: &[u8])
    ensures
        final(discovered)@ == discovered_after(old(discovered)@, frame_event(data@)),
{
    let e = classify_frame(data);
    apply_frame_event(discovered, e);
}

/// Law: the scanner's own ARP requests, when captured, change nothing: a
/// request frame is not read as a reply.
pub proof fn law_own_request_ignored(src_mac: MacAddr, src_ip: u32, target_ip: u32)
    ensures
        frame_event(arp_request_frame(src_mac, src_ip, target_ip)) == FrameEvent::Ignored,
{
    let f = arp_request_frame(src_mac, src_ip, target_ip);
    assert(f.len() == 42);
    assert(f[12] == 0x08u8 && f[13] == 0x06u8);
    assert(f[20] == 0x00u8 && f[21] == 0x01u8);
}

/// Law: captured frames never drop a discovered host nor change the
/// Ethernet address recorded for it; only an ARP reply adds a host.
pub proof fn law_discovered_hosts_persist(before: Map<u32, DiscoveredHostInfo>, e: FrameEvent)
    ensures
        forall|k: u32| #[trigger] before.contains_key(k) ==> discovered_after(before, e).contains_key(k)
            && discovered_after(before, e)[k].mac == before[k].mac,
        forall|k: u32| #[trigger] discovered_after(before, e).contains_key(k) ==> before.contains_key(k)
            || (e matches FrameEvent::ArpReply { ip, mac } && k == ip),
{
}

/// Law: what each kind of captured frame does to the table. An ARP reply
/// from an address already in the table leaves the whole table as it was
/// (Ethernet address and TTL); a reply from a new address adds it with its
/// Ethernet address and TTL 64. An IPv4 packet changes at most the TTL of its
/// sender, to the packet's TTL, and only when the sender is known. So the
/// TTL recorded for a known host changes only on an IPv4 packet from it.
pub proof fn law_frame_effects(before: Map<u32, DiscoveredHostInfo>, e: FrameEvent)
    ensures
        e matches FrameEvent::ArpReply { ip, mac } ==> {
            &&& before.contains_key(ip) ==> discovered_after(before, e) == before
            &&& !before.contains_key(ip) ==> discovered_after(before, e).dom() == before.dom().insert(ip)
            &&& !before.contains_key(ip) ==> discovered_after(before, e)[ip].mac == mac
            &&& !before.contains_key(ip) ==> discovered_after(before, e)[ip].ttl == 64
        },
        forall|k: u32| #[trigger] before.contains_key(k) ==> {
            &&& discovered_after(before, e).contains_key(k)
            &&& discovered_after(before, e)[k].mac == before[k].mac
            &&& (discovered_after(before, e)[k].ttl != before[k].ttl ==> (e matches FrameEvent::Ipv4Packet { src, ttl } && src == k
                && discovered_after(before, e)[k].ttl == ttl))
        },
        e matches FrameEvent::Ipv4Packet { src, ttl } ==> {
            &&& discovered_after(before, e).dom() == before.dom()
            &&& before.contains_key(src) ==> discovered_after(before, e)[src].ttl == ttl
            &&& forall|k: u32| k != src && #[trigger] before.contains_key(k) ==> discovered_after(before, e)[k] == before[k]
        },
        e is Ignored ==> discovered_after(before, e) == before,
{
    match e {
        FrameEvent::ArpReply { ip, mac } => {
            if !before.contains_key(ip) {
                assert(discovered_after(before, e).dom() =~= before.dom().insert(ip));
            }
        },
        FrameEvent::Ipv4Packet { src, ttl } => {
            assert(discovered_after(before, e).dom() =~= before.dom());
        },
        FrameEvent::Ignored => {},
    }
}

/// Law: how a captured frame is read, in terms of its bytes. Frames under
/// 42 bytes tell nothing. A frame with ethertype 0x0806 (bytes 12-13) and
/// operation 2 (bytes 20-21) is a reply from the address in bytes 28-31 at
/// the Ethernet address in bytes 22-27; a frame with ethertype 0x0800 is a
/// packet from the address in bytes 26-29 with the TTL in byte 22; every
/// other frame tells nothing.
pub proof fn law_frame_reading(b: Seq<u8>)
    ensures
        b.len() < 42 ==> frame_event(b) is Ignored,
        b.len() >= 42 && b[12] == 0x08 && b[13] == 0x06 && b[20] == 0 && b[21] == 2 ==> frame_event(b)
            == (FrameEvent::ArpReply {
            ip: ipv4_from_octets(b[28], b[29], b[30], b[31]),
            mac: MacAddr(b[22], b[23], b[24], b[25], b[26], b[27]),
        }),
        b.len() >= 42 && b[12] == 0x08 && b[13] == 0x00 ==> frame_event(b) == (FrameEvent::Ipv4Packet {
            src: ipv4_from_octets(b[26], b[27], b[28], b[29]),
            ttl: b[22],
        }),
        !(b.len() >= 42 && b[12] == 0x08 && b[13] == 0x06 && b[20] == 0 && b[21] == 2) && !(b.len()
            >= 42 && b[12] == 0x08 && b[13] == 0x00) ==> frame_event(b) is Ignored,
{
}

} // verus!
