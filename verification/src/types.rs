//! The records a scan produces and the interface it runs on.
use crate::net::{ipv4_octets, lemma_octets_injective, Ipv4, MacAddr};
use vstd::prelude::*;

verus! {

/// An open TCP port, the service usually found there and what it announced.
#[derive(Debug, Clone)]
pub struct PortResult {
    pub port: u16,
    pub service: String,
    pub banner: Option<String>,
}

/// Everything learned about one host.
#[derive(Debug, Clone)]
pub struct HostAudit {
    pub ip: String,
    pub mac: String,
    pub vendor: String,
    pub os_guess: String,
    pub hostname: Option<String>,
    pub open_ports: Vec<PortResult>,
}

/// The summary of a whole scan.
#[derive(Debug, Clone)]
pub struct ScanReport {
    pub target_scope: String,
    pub local_ip: String,
    pub gateway_dns: String,
    pub scan_mode: String,
    pub scanned_ports_count: usize,
    pub execution_time_ms: u128,
    pub hosts: Vec<HostAudit>,
}

/// The local interface a scan runs on.
#[derive(Debug, Clone)]
pub struct InterfaceInfo {
    pub name: String,
    pub ip: Ipv4,
    pub netmask: Ipv4,
    pub mac: MacAddr,
}

/// The octets of `x & y` are the octet-wise `&` of their octets.
pub proof fn lemma_and_octets(x: u32, y: u32)
    ensures
        ipv4_octets(x & y) == seq![
            ipv4_octets(x)[0] & ipv4_octets(y)[0],
            ipv4_octets(x)[1] & ipv4_octets(y)[1],
            ipv4_octets(x)[2] & ipv4_octets(y)[2],
            ipv4_octets(x)[3] & ipv4_octets(y)[3],
        ],
{
    assert(((x & y) / 0x1000000) as u8 == ((x / 0x1000000) as u8) & ((y / 0x1000000) as u8))
        by (bit_vector);
    assert((((x & y) / 0x10000) % 0x100) as u8 == (((x / 0x10000) % 0x100) as u8) & (((y
        / 0x10000) % 0x100) as u8)) by (bit_vector);
    assert((((x & y) / 0x100) % 0x100) as u8 == (((x / 0x100) % 0x100) as u8) & (((y / 0x100)
        % 0x100) as u8)) by (bit_vector);
    assert(((x & y) % 0x100) as u8 == ((x % 0x100) as u8) & ((y % 0x100) as u8)) by (bit_vector);
    assert(ipv4_octets(x & y) =~= seq![
        ipv4_octets(x)[0] & ipv4_octets(y)[0],
        ipv4_octets(x)[1] & ipv4_octets(y)[1],
        ipv4_octets(x)[2] & ipv4_octets(y)[2],
        ipv4_octets(x)[3] & ipv4_octets(y)[3],
    ]);
}

/// The addresses strictly between `net` and `broadcast`, in increasing order.
pub open spec fn hosts_between(net: u32, broadcast: u32) -> Seq<Ipv4> {
    if net + 1 < broadcast {
        Seq::new((broadcast - net - 1) as nat, |i: int| Ipv4 { addr: (net + 1 + i) as u32 })
    } else {
        Seq::empty()
    }
}

/// Lists the addresses strictly between `net` and `broadcast`.
pub fn enumerate_hosts(net: u32, broadcast: u32) -> (hosts: Vec<Ipv4>)
    requires
        net < u32::MAX,
    ensures
        hosts@ == hosts_between(net, broadcast),
{
    let mut hosts: Vec<Ipv4> = Vec::new();
    let mut ip_int: u32 = net + 1;
    while ip_int < broadcast
        invariant
            net + 1 <= ip_int,
            ip_int < broadcast ==> hosts@.len() == ip_int - net - 1,
            net + 1 < broadcast ==> ip_int <= broadcast,
            net + 1 < broadcast ==> hosts@.len() == ip_int - net - 1,
            forall|i: int| 0 <= i < hosts@.len() ==> #[trigger] hosts@[i] == (Ipv4 { addr: (net + 1 + i) as u32 }),
            net + 1 >= broadcast ==> hosts@.len() == 0,
        decreases broadcast - ip_int,
    {
        hosts.push(Ipv4 { addr: ip_int });
        ip_int += 1;
    }
    assert(hosts@ =~= hosts_between(net, broadcast));
    hosts
}

/// The netmask of a `/p` network: its top `p` bits set.
pub open spec fn prefix_mask(p: u32) -> u32 {
    if p == 0 {
        0
    } else {
        (!0u32) << ((32 - p) as u32)
    }
}

/// A netmask whose set bits form one leading block, as a `/p` netmask does.
pub open spec fn is_prefix_mask(m: u32) -> bool {
    exists|p: u32| p <= 32 && m == prefix_mask(p)
}

/// Under a `/p` netmask `m`, every address strictly between the network
/// `x & m` and its broadcast address belongs to that network.
pub proof fn lemma_between_in_network(x: u32, m: u32, h: u32)
    requires
        is_prefix_mask(m),
        (x & m) < h,
        h < ((x & m) | !m),
    ensures
        h & m == x & m,
{
    let p = choose|p: u32| p <= 32 && m == prefix_mask(p);
    let n = x & m;
    if p == 0 {
        assert(m == 0);
        assert(h & 0 == 0 && x & 0 == 0) by (bit_vector);
    } else {
        let s: u32 = (32 - p) as u32;
        assert(s < 32);
        assert(m == (!0u32) << s);
        assert(h & m == n) by (bit_vector)
            requires
                s < 32,
                m == (!0u32) << s,
                n == x & m,
                n < h,
                h < (n | !m),
        ;
    }
}

impl InterfaceInfo {
    /// The network address: each octet of the address `&` the same octet of
    /// the netmask.
    pub fn network_address(&self) -> (r: Ipv4)
        ensures
            ipv4_octets(r.addr) == seq![
                ipv4_octets(self.ip.addr)[0] & ipv4_octets(self.netmask.addr)[0],
                ipv4_octets(self.ip.addr)[1] & ipv4_octets(self.netmask.addr)[1],
                ipv4_octets(self.ip.addr)[2] & ipv4_octets(self.netmask.addr)[2],
                ipv4_octets(self.ip.addr)[3] & ipv4_octets(self.netmask.addr)[3],
            ],
            r.addr == self.ip.addr & self.netmask.addr,
    {
        let ip = self.ip.octets();
        let mask = self.netmask.octets();
        let r = Ipv4::new(ip[0] & mask[0], ip[1] & mask[1], ip[2] & mask[2], ip[3] & mask[3]);
        proof {
            lemma_and_octets(self.ip.addr, self.netmask.addr);
            lemma_octets_injective(r.addr, self.ip.addr & self.netmask.addr);
        }
        r
    }

    /// The usual gateway: the network address with its last octet set to 1.
    pub fn gateway_guess(&self) -> (r: Ipv4)
        ensures
            ipv4_octets(r.addr) == ipv4_octets(self.ip.addr & self.netmask.addr).update(3, 1u8),
    {
        let net = self.network_address().octets();
        let r = Ipv4::new(net[0], net[1], net[2], 1);
        assert(ipv4_octets(r.addr) =~= ipv4_octets(self.ip.addr & self.netmask.addr).update(3, 1u8));
        r
    }

    /// Every address strictly between the network address and the broadcast
    /// address (the network address with all bits outside the mask set), in
    /// increasing order.
    pub fn usable_hosts(&self) -> (hosts: Vec<Ipv4>)
        requires
            self.ip.addr & self.netmask.addr != u32::MAX,
        ensures
            hosts@ == hosts_between(
                self.ip.addr & self.netmask.addr,
                (self.ip.addr & self.netmask.addr) | !self.netmask.addr,
            ),
    {
        let net_u32 = self.network_address().addr;
        let mask_u32 = self.netmask.addr;
        let broadcast_u32 = net_u32 | !mask_u32;
        enumerate_hosts(net_u32, broadcast_u32)
    }
}

/// Law: when the netmask is a `/p` mask, every address `usable_hosts`
/// lists lies in the interface's own network: the address `&` the netmask
/// is the network address.
pub proof fn law_usable_hosts_in_network(info: InterfaceInfo, i: int)
    requires
        is_prefix_mask(info.netmask.addr),
        info.ip.addr & info.netmask.addr != u32::MAX,
        0 <= i < hosts_between(
            info.ip.addr & info.netmask.addr,
            (info.ip.addr & info.netmask.addr) | !info.netmask.addr,
        ).len(),
    ensures
        hosts_between(
            info.ip.addr & info.netmask.addr,
            (info.ip.addr & info.netmask.addr) | !info.netmask.addr,
        )[i].addr & info.netmask.addr == info.ip.addr & info.netmask.addr,
{
    let n = info.ip.addr & info.netmask.addr;
    let b = n | !info.netmask.addr;
    let h = hosts_between(n, b)[i].addr;
    assert(h == n + 1 + i);
    lemma_between_in_network(info.ip.addr, info.netmask.addr, h);
}

} // verus!
