//! The text shown for each host in the results table, and the order of the
//! hosts.
use crate::net::{ipv4_text, law_ipv4_text_parses_back, parse_ipv4, parse_ipv4_text};
use crate::text::{
    chars_to_string, decimal, join_chars, join_with, literal, push_decimal, push_str, seqs_of,
    str_to_chars,
};
use crate::types::{HostAudit, PortResult};
use vstd::prelude::*;

verus! {

/// The first column of a host's row: its address, and its name in
/// parentheses on a second line when it has one.
pub open spec fn host_label(h: HostAudit) -> Seq<char> {
    match h.hostname {
        Some(name) => h.ip@ + "\n("@ + name@ + ")"@,
        None => h.ip@,
    }
}

/// The row's first column for a host.
pub fn host_display_name(host: &HostAudit) -> (s: String)
    ensures
        s@ == host_label(*host),
{
    match &host.hostname {
        Some(name) => {
            let mut v = str_to_chars(host.ip.as_str());
            push_str(&mut v, "\n(");
            push_str(&mut v, name.as_str());
            push_str(&mut v, ")");
            chars_to_string(&v)
        },
        None => host.ip.clone(),
    }
}

/// One open port as the table shows it: `<port>/TCP - <service>` and the
/// banner in brackets when there is one.
pub open spec fn port_line(p: PortResult) -> Seq<char> {
    decimal(p.port as nat) + "/TCP - "@ + p.service@ + match p.banner {
        Some(b) => " ["@ + b@ + "]"@,
        None => Seq::<char>::empty(),
    }
}

/// The last column of a host's row: one line per open port, or
/// `Sem portas abertas` when none is open.
pub open spec fn ports_label(ports: Seq<PortResult>) -> Seq<char> {
    if ports.len() == 0 {
        "Sem portas abertas"@
    } else {
        join_with(Seq::new(ports.len(), |i: int| port_line(ports[i])), '\n')
    }
}

fn port_line_chars(p: &PortResult) -> (r: Vec<char>)
    ensures
        r@ == port_line(*p),
{
    let mut v: Vec<char> = Vec::new();
    push_decimal(&mut v, p.port as u32);
    push_str(&mut v, "/TCP - ");
    push_str(&mut v, p.service.as_str());
    match &p.banner {
        Some(b) => {
            push_str(&mut v, " [");
            push_str(&mut v, b.as_str());
            push_str(&mut v, "]");
        },
        None => {},
    }
    assert(v@ =~= port_line(*p));
    v
}

/// The row's last column for a host's open ports.
pub fn open_ports_display(ports: &Vec<PortResult>) -> (s: String)
    ensures
        s@ == ports_label(ports@),
{
    if ports.len() == 0 {
        return literal("Sem portas abertas");
    }
    let mut lines: Vec<Vec<char>> = Vec::new();
    let mut i: usize = 0;
    while i < ports.len()
        invariant
            i <= ports.len(),
            seqs_of(lines@) == Seq::new(i as nat, |k: int| port_line(ports@[k])),
        decreases ports.len() - i,
    {
        let l = port_line_chars(&ports[i]);
        let ghost old_lines = seqs_of(lines@);
        let ghost lv = l@;
        lines.push(l);
        assert(seqs_of(lines@) =~= old_lines.push(lv));
        i += 1;
        assert(seqs_of(lines@) =~= Seq::new(i as nat, |k: int| port_line(ports@[k])));
    }
    let joined = join_chars(&lines, '\n');
    chars_to_string(&joined)
}

/// The key hosts are listed by: the value of their address, or 0 when the
/// address text does not parse (as `Ipv4Addr::UNSPECIFIED`).
pub open spec fn host_order_key(h: HostAudit) -> u32 {
    match parse_ipv4_text(h.ip@) {
        Some(a) => a,
        None => 0,
    }
}

/// The key the results are sorted by.
pub fn host_sort_key(host: &HostAudit) -> (k: u32)
    ensures
        k == host_order_key(*host),
{
    let chars = str_to_chars(host.ip.as_str());
    match parse_ipv4(&chars) {
        Some(ip) => ip.addr,
        None => 0,
    }
}

/// Law: a host whose address text was written by `Ipv4::to_string` (as
/// `assemble_host_audit` writes it) is ordered by that address.
pub proof fn law_sort_key_is_address(h: HostAudit, addr: u32)
    requires
        h.ip@ == ipv4_text(addr),
    ensures
        host_order_key(h) == addr,
{
    law_ipv4_text_parses_back(addr);
}

} // verus!
