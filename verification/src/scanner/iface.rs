//! Choosing the local interface and expanding a target into addresses.
use crate::net::{ipv4_octets, parse_ipv4, parse_ipv4_text, Ipv4, MacAddr};
use crate::text::{
    chars_eq_ignore_ascii_case, chars_to_string, contains_char, eq_ignore_ascii_case, literal,
    parse_unsigned, parse_unsigned_chars, push_chars, push_str, seqs_of, split_chars, split_on,
    str_to_chars,
};
use crate::types::{
    enumerate_hosts, hosts_between, is_prefix_mask, lemma_between_in_network, prefix_mask,
    InterfaceInfo,
};
use vstd::prelude::*;

verus! {

/// `local` or `auto`, in any ASCII case: the interface's own network.
pub open spec fn is_local_keyword(t: Seq<char>) -> bool {
    eq_ignore_ascii_case(t, "local"@) || eq_ignore_ascii_case(t, "auto"@)
}

/// The base address and prefix text of a target written `base/prefix`.
pub open spec fn cidr_parts(t: Seq<char>) -> Option<(Seq<char>, Seq<char>)> {
    if t.contains('/') && split_on(t, '/').len() == 2 {
        Some((split_on(t, '/')[0], split_on(t, '/')[1]))
    } else {
        None
    }
}

/// The network address and netmask of a well-formed `base/prefix` target
/// with a prefix from 16 to 32.
pub open spec fn cidr_network(t: Seq<char>) -> Option<(u32, u32)> {
    match cidr_parts(t) {
        Some((b, p)) => match (parse_ipv4_text(b), parse_unsigned(p, u32::MAX as nat)) {
            (Some(base), Some(pv)) => if 16 <= pv <= 32 {
                Some((base & prefix_mask(pv as u32), prefix_mask(pv as u32)))
            } else {
                None
            },
            _ => None,
        },
        None => None,
    }
}

/// The error for a base address that does not parse.
pub open spec fn invalid_base_message() -> Seq<char> {
    "IP base inválido: invalid IPv4 address syntax"@
}

/// The error for a prefix that is not a number.
pub open spec fn invalid_prefix_message() -> Seq<char> {
    "Prefixo CIDR inválido"@
}

/// The error for a prefix outside 16..=32.
pub open spec fn prefix_range_message() -> Seq<char> {
    "Prefixo CIDR deve estar entre /16 e /32"@
}

/// The error for a target of no known form.
pub open spec fn invalid_target_message(t: Seq<char>) -> Seq<char> {
    "Formato de alvo inválido: '"@ + t + "'. Use CIDR (192.168.2.0/24) ou 'local'"@
}

/// The addresses a target names: the interface's usable hosts for `local`
/// or `auto`; the hosts strictly inside `base/prefix` for a prefix from 16
/// to 32; a single address for a dotted quad; an error message otherwise.
pub open spec fn target_range(t: Seq<char>, iface: InterfaceInfo) -> Result<Seq<Ipv4>, Seq<char>> {
    let n = iface.ip.addr & iface.netmask.addr;
    if is_local_keyword(t) {
        Ok(hosts_between(n, n | !iface.netmask.addr))
    } else if cidr_parts(t) is Some {
        let (b, p) = cidr_parts(t).unwrap();
        match parse_ipv4_text(b) {
            None => Err(invalid_base_message()),
            Some(base) => match parse_unsigned(p, u32::MAX as nat) {
                None => Err(invalid_prefix_message()),
                Some(pv) => if pv > 32 || pv < 16 {
                    Err(prefix_range_message())
                } else {
                    let m = prefix_mask(pv as u32);
                    Ok(hosts_between(base & m, (base & m) | !m))
                },
            },
        }
    } else {
        match parse_ipv4_text(t) {
            Some(a) => Ok(seq![Ipv4 { addr: a }]),
            None => Err(invalid_target_message(t)),
        }
    }
}

proof fn lemma_keyword_has_no_slash(t: Seq<char>)
    requires
        is_local_keyword(t),
    ensures
        !t.contains('/'),
{
    reveal_strlit("local");
    reveal_strlit("auto");
    if t.contains('/') {
        let k = choose|k: int| 0 <= k < t.len() && t[k] == '/';
        if eq_ignore_ascii_case(t, "local"@) {
            assert(crate::text::ascii_lower(t[k]) == crate::text::ascii_lower("local"@[k]));
        } else {
            assert(crate::text::ascii_lower(t[k]) == crate::text::ascii_lower("auto"@[k]));
        }
    }
}

/// Whether expanding the target would step past the last address: its
/// network (the interface's for `local`/`auto`, or that of a well-formed
/// `base/prefix`) is 255.255.255.255, whose successor does not exist.
/// `parse_target_range` expands every other target.
pub fn target_range_overflows(target_str: &str, default_iface: &InterfaceInfo) -> (r: bool)
    ensures
        r == !((is_local_keyword(target_str@) ==> default_iface.ip.addr
            & default_iface.netmask.addr != u32::MAX) && (cidr_network(target_str@) matches Some(
            (n, _),
        ) ==> n != u32::MAX)),
{
    let t = str_to_chars(target_str);
    if chars_eq_ignore_ascii_case(&t, "local") || chars_eq_ignore_ascii_case(&t, "auto") {
        proof {
            lemma_keyword_has_no_slash(t@);
        }
        return default_iface.ip.addr & default_iface.netmask.addr == u32::MAX;
    }
    if !contains_char(&t, '/') {
        return false;
    }
    let parts = split_chars(&t, '/');
    if parts.len() != 2 {
        return false;
    }
    assert(parts[0]@ == seqs_of(parts@)[0]);
    assert(parts[1]@ == seqs_of(parts@)[1]);
    let base_ip = match parse_ipv4(&parts[0]) {
        Some(ip) => ip,
        None => return false,
    };
    let prefix: u32 = match parse_unsigned_chars(&parts[1], u32::MAX) {
        Some(p) => p,
        None => return false,
    };
    if prefix > 32 || prefix < 16 {
        return false;
    }
    let mask_u32: u32 = !0u32 << (32 - prefix);
    base_ip.addr & mask_u32 == u32::MAX
}

/// Expands a target, `local`/`auto`, `a.b.c.d/p` or `a.b.c.d`, into the
/// addresses to scan.
pub fn parse_target_range(target_str: &str, default_iface: &InterfaceInfo) -> (r: Result<
    Vec<Ipv4>,
    String,
>)
    requires
        is_local_keyword(target_str@) ==> default_iface.ip.addr & default_iface.netmask.addr
            != u32::MAX,
        cidr_network(target_str@) matches Some((n, _)) ==> n != u32::MAX,
    ensures
        match (r, target_range(target_str@, *default_iface)) {
            (Ok(v), Ok(w)) => v@ == w,
            (Err(e), Err(m)) => e@ == m,
            _ => false,
        },
{
    let t = str_to_chars(target_str);
    if chars_eq_ignore_ascii_case(&t, "local") || chars_eq_ignore_ascii_case(&t, "auto") {
        return Ok(default_iface.usable_hosts());
    }
    let has_slash = contains_char(&t, '/');
    if has_slash {
        let parts = split_chars(&t, '/');
        if parts.len() == 2 {
            assert(parts[0]@ == seqs_of(parts@)[0]);
            assert(parts[1]@ == seqs_of(parts@)[1]);
            let base_ip = match parse_ipv4(&parts[0]) {
                Some(ip) => ip,
                None => return Err(literal("IP base inválido: invalid IPv4 address syntax")),
            };
            let prefix: u32 = match parse_unsigned_chars(&parts[1], u32::MAX) {
                Some(p) => p,
                None => return Err(literal("Prefixo CIDR inválido")),
            };
            if prefix > 32 || prefix < 16 {
                return Err(literal("Prefixo CIDR deve estar entre /16 e /32"));
            }
            let mask_u32: u32 = if prefix == 0 {
                0
            } else {
                !0u32 << (32 - prefix)
            };
            let net_u32 = base_ip.addr & mask_u32;
            let broadcast_u32 = net_u32 | !mask_u32;
            return Ok(enumerate_hosts(net_u32, broadcast_u32));
        }
    }
    match parse_ipv4(&t) {
        Some(single_ip) => {
            let mut v: Vec<Ipv4> = Vec::new();
            v.push(single_ip);
            assert(v@ =~= seq![Ipv4 { addr: single_ip.addr }]);
            Ok(v)
        },
        None => {
            let mut msg = str_to_chars("Formato de alvo inválido: '");
            push_chars(&mut msg, &t);
            push_str(&mut msg, "'. Use CIDR (192.168.2.0/24) ou 'local'");
            assert(msg@ =~= invalid_target_message(t@));
            Err(chars_to_string(&msg))
        },
    }
}

/// An address configured on an interface.
#[derive(Clone, Copy, Debug, PartialEq, Eq, Structural)]
pub enum IfaceAddr {
    /// An IPv4 address and its netmask.
    V4 { ip: Ipv4, mask: Ipv4 },
    /// An address of another family.
    Other,
}

/// A network interface as the system lists it.
pub struct CandidateInterface {
    pub name: String,
    pub is_loopback: bool,
    pub is_up: bool,
    pub mac: Option<MacAddr>,
    pub ips: Vec<IfaceAddr>,
}

/// An interface may be chosen: it has the requested name, or when none was
/// requested it is up, not loopback and has an Ethernet address; in both
/// cases its Ethernet address exists and is not all zeros.
pub open spec fn iface_eligible(c: CandidateInterface, wanted: Option<Seq<char>>) -> bool {
    &&& match wanted {
        Some(n) => c.name@ == n,
        None => !c.is_loopback && c.is_up && c.mac is Some,
    }
    &&& c.mac is Some
    &&& c.mac.unwrap() != MacAddr(0, 0, 0, 0, 0, 0)
}

/// An IPv4 address that is neither loopback nor link-local.
pub open spec fn addr_usable(a: IfaceAddr) -> bool {
    match a {
        IfaceAddr::V4 { ip, mask } => !(ipv4_octets(ip.addr)[0] == 127) && !(ipv4_octets(ip.addr)[0]
            == 169 && ipv4_octets(ip.addr)[1] == 254),
        IfaceAddr::Other => false,
    }
}

/// The index of the first usable address.
pub open spec fn first_usable_addr(addrs: Seq<IfaceAddr>) -> Option<int>
    decreases addrs.len(),
{
    if addrs.len() == 0 {
        None
    } else if addr_usable(addrs[0]) {
        Some(0)
    } else {
        match first_usable_addr(addrs.drop_first()) {
            Some(j) => Some(j + 1),
            None => None,
        }
    }
}

/// The interface chosen, as the index of the first eligible interface with a
/// usable address together with the index of that address.
pub open spec fn chosen_interface(cands: Seq<CandidateInterface>, wanted: Option<Seq<char>>) -> Option<
    (int, int),
>
    decreases cands.len(),
{
    if cands.len() == 0 {
        None
    } else if iface_eligible(cands[0], wanted) && first_usable_addr(cands[0].ips@) is Some {
        Some((0, first_usable_addr(cands[0].ips@).unwrap()))
    } else {
        match chosen_interface(cands.drop_first(), wanted) {
            Some((i, j)) => Some((i + 1, j)),
            None => None,
        }
    }
}

/// The error reported when no interface can be chosen.
pub open spec fn no_interface_message(wanted: Option<Seq<char>>) -> Seq<char> {
    match wanted {
        Some(n) => "Interface '"@ + n + "' não encontrada ou sem IPv4 válido."@,
        None => "Nenhuma interface física ativa com IPv4 encontrada."@,
    }
}

fn first_usable_index(addrs: &Vec<IfaceAddr>) -> (r: Option<usize>)
    ensures
        match r {
            Some(j) => first_usable_addr(addrs@) == Some(j as int) && j < addrs@.len() && addr_usable(
                addrs@[j as int],
            ),
            None => first_usable_addr(addrs@) is None,
        },
{
    let mut j: usize = 0;
    assert(addrs@.skip(0) =~= addrs@);
    while j < addrs.len()
        invariant
            j <= addrs.len(),
            first_usable_addr(addrs@) == (match first_usable_addr(addrs@.skip(j as int)) {
                Some(k) => Some(k + j),
                None => None,
            }),
        decreases addrs.len() - j,
    {
        assert(addrs@.skip(j as int)[0] == addrs@[j as int]);
        assert(addrs@.skip(j as int).drop_first() =~= addrs@.skip(j + 1));
        match addrs[j] {
            IfaceAddr::V4 { ip, mask } => {
                if !(ip.is_loopback() || ip.is_link_local()) {
                    return Some(j);
                }
            },
            IfaceAddr::Other => {},
        }
        j += 1;
    }
    assert(addrs@.skip(j as int) =~= Seq::<IfaceAddr>::empty());
    None
}

/// The view of a requested name.
pub open spec fn wanted_view(o: Option<String>) -> Option<Seq<char>> {
    match o {
        Some(s) => Some(s@),
        None => None,
    }
}

/// Chooses the interface to scan from: the first interface that is eligible
/// (see `iface_eligible`) and has an IPv4 address other than loopback and
/// link-local, with that address and its netmask; otherwise the error names
/// the requested interface or says none is active.
pub fn select_interface(ifaces: &Vec<CandidateInterface>, specified_name: Option<String>) -> (r:
    Result<InterfaceInfo, String>)
    ensures
        match (r, chosen_interface(ifaces@, wanted_view(specified_name))) {
            (Ok(info), Some((i, j))) => {
                &&& info.name@ == ifaces@[i].name@
                &&& info.mac == ifaces@[i].mac.unwrap()
                &&& ifaces@[i].ips@[j] == (IfaceAddr::V4 { ip: info.ip, mask: info.netmask })
            },
            (Err(e), None) => e@ == no_interface_message(wanted_view(specified_name)),
            _ => false,
        },
{
    let ghost wanted = wanted_view(specified_name);
    let mut i: usize = 0;
    assert(ifaces@.skip(0) =~= ifaces@);
    while i < ifaces.len()
        invariant
            i <= ifaces.len(),
            wanted == wanted_view(specified_name),
            chosen_interface(ifaces@, wanted) == (match chosen_interface(ifaces@.skip(i as int), wanted) {
                Some((a, b)) => Some((a + i, b)),
                None => None,
            }),
        decreases ifaces.len() - i,
    {
        let iface = &ifaces[i];
        assert(ifaces@.skip(i as int)[0] == ifaces@[i as int]);
        assert(ifaces@.skip(i as int).drop_first() =~= ifaces@.skip(i + 1));
        let name_ok = match &specified_name {
            Some(target_name) => iface.name == *target_name,
            None => !(iface.is_loopback || !iface.is_up || iface.mac.is_none()),
        };
        let mac_ok = match iface.mac {
            Some(m) => m != MacAddr::zero(),
            None => false,
        };
        if name_ok && mac_ok {
            match first_usable_index(&iface.ips) {
                Some(j) => {
                    let (ip, mask) = match iface.ips[j] {
                        IfaceAddr::V4 { ip, mask } => (ip, mask),
                        IfaceAddr::Other => {
                            assert(false);
                            (Ipv4 { addr: 0 }, Ipv4 { addr: 0 })
                        },
                    };
                    let mac = match iface.mac {
                        Some(m) => m,
                        None => MacAddr::zero(),
                    };
                    return Ok(InterfaceInfo { name: iface.name.clone(), ip, netmask: mask, mac });
                },
                None => {},
            }
        }
        i += 1;
    }
    assert(ifaces@.skip(i as int) =~= Seq::<CandidateInterface>::empty());
    match specified_name {
        Some(name) => {
            let mut msg = str_to_chars("Interface '");
            push_str(&mut msg, name.as_str());
            push_str(&mut msg, "' não encontrada ou sem IPv4 válido.");
            Err(chars_to_string(&msg))
        },
        None => Err(literal("Nenhuma interface física ativa com IPv4 encontrada.")),
    }
}

/// The addresses of a target that expands without error.
pub open spec fn target_hosts(t: Seq<char>, iface: InterfaceInfo) -> Seq<Ipv4> {
    match target_range(t, iface) {
        Ok(v) => v,
        Err(_) => Seq::empty(),
    }
}

/// Law: every address a `base/prefix` target expands to lies in that
/// network: the address `&` the prefix mask is the network address.
pub proof fn law_cidr_hosts_in_network(t: Seq<char>, iface: InterfaceInfo, n: u32, m: u32, i: int)
    requires
        !is_local_keyword(t),
        cidr_network(t) == Some((n, m)),
        n != u32::MAX,
        target_range(t, iface) is Ok,
        0 <= i < target_hosts(t, iface).len(),
    ensures
        target_hosts(t, iface)[i].addr & m == n,
{
    let (b, p) = cidr_parts(t).unwrap();
    let base = parse_ipv4_text(b).unwrap();
    let pv = parse_unsigned(p, u32::MAX as nat).unwrap();
    assert(m == prefix_mask(pv as u32));
    assert(is_prefix_mask(m));
    let h = target_hosts(t, iface)[i].addr;
    assert(h == n + 1 + i);
    lemma_between_in_network(base, m, h);
}

proof fn lemma_first_usable_addr(addrs: Seq<IfaceAddr>)
    ensures
        (exists|j: int| 0 <= j < addrs.len() && #[trigger] addr_usable(addrs[j]))
            <==> first_usable_addr(addrs) is Some,
        first_usable_addr(addrs) matches Some(j) ==> {
            &&& 0 <= j < addrs.len()
            &&& addr_usable(addrs[j])
            &&& forall|k: int| 0 <= k < j ==> !#[trigger] addr_usable(addrs[k])
        },
    decreases addrs.len(),
{
    if addrs.len() > 0 {
        let rest = addrs.drop_first();
        lemma_first_usable_addr(rest);
        if !addr_usable(addrs[0]) {
            if exists|j: int| 0 <= j < addrs.len() && #[trigger] addr_usable(addrs[j]) {
                let j = choose|j: int| 0 <= j < addrs.len() && #[trigger] addr_usable(addrs[j]);
                assert(addr_usable(rest[j - 1]));
            }
            if first_usable_addr(rest) is Some {
                let j = first_usable_addr(rest).unwrap();
                assert(addr_usable(addrs[j + 1]));
                assert forall|k: int| 0 <= k < j + 1 implies !#[trigger] addr_usable(addrs[k]) by {
                    if k > 0 {
                        assert(addrs[k] == rest[k - 1]);
                    }
                }
            }
        }
    }
}

proof fn lemma_chosen_interface(cands: Seq<CandidateInterface>, wanted: Option<Seq<char>>)
    ensures
        (exists|i: int, j: int|
            0 <= i < cands.len() && 0 <= j < cands[i].ips@.len() && iface_eligible(cands[i], wanted)
                && #[trigger] addr_usable(cands[i].ips@[j])) <==> chosen_interface(cands, wanted) is Some,
        chosen_interface(cands, wanted) matches Some((i, j)) ==> {
            &&& 0 <= i < cands.len()
            &&& 0 <= j < cands[i].ips@.len()
            &&& iface_eligible(cands[i], wanted)
            &&& addr_usable(cands[i].ips@[j])
            &&& forall|k: int| 0 <= k < j ==> !#[trigger] addr_usable(cands[i].ips@[k])
            &&& forall|h: int, k: int|
                0 <= h < i && 0 <= k < cands[h].ips@.len() && iface_eligible(cands[h], wanted)
                    ==> !#[trigger] addr_usable(cands[h].ips@[k])
        },
    decreases cands.len(),
{
    if cands.len() > 0 {
        let rest = cands.drop_first();
        lemma_chosen_interface(rest, wanted);
        lemma_first_usable_addr(cands[0].ips@);
        let first_ok = iface_eligible(cands[0], wanted) && first_usable_addr(cands[0].ips@) is Some;
        if !first_ok {
            assert forall|k: int| 0 <= k < cands[0].ips@.len() && iface_eligible(cands[0], wanted)
                implies !#[trigger] addr_usable(cands[0].ips@[k]) by {}
            if exists|i: int, j: int|
                0 <= i < cands.len() && 0 <= j < cands[i].ips@.len() && iface_eligible(cands[i], wanted)
                    && #[trigger] addr_usable(cands[i].ips@[j]) {
                let (i, j) = choose|i: int, j: int|
                    0 <= i < cands.len() && 0 <= j < cands[i].ips@.len() && iface_eligible(
                        cands[i],
                        wanted,
                    ) && #[trigger] addr_usable(cands[i].ips@[j]);
                assert(i > 0);
                assert(rest[i - 1] == cands[i]);
                assert(addr_usable(rest[i - 1].ips@[j]));
            }
            if chosen_interface(rest, wanted) is Some {
                let (i, j) = chosen_interface(rest, wanted).unwrap();
                assert(cands[i + 1] == rest[i]);
                assert forall|h: int, k: int|
                    0 <= h < i + 1 && 0 <= k < cands[h].ips@.len() && iface_eligible(cands[h], wanted)
                        implies !#[trigger] addr_usable(cands[h].ips@[k]) by {
                    if h > 0 {
                        assert(cands[h] == rest[h - 1]);
                    }
                }
            }
        }
    }
}

/// Law: interface selection finds the first interface that may be chosen
/// and has a usable address, wherever it stands in the list. An interface
/// may be chosen when it has the requested name (or, with none requested,
/// is up, not loopback and has an Ethernet address) and its Ethernet
/// address is not all zeros; an address is usable when it is IPv4 and
/// neither loopback (127/8) nor link-local (169.254/16). Selection succeeds
/// exactly when some interface has such an address; it then picks the first
/// such interface, and in it the first usable address.
pub proof fn law_select_first_usable(cands: Seq<CandidateInterface>, wanted: Option<Seq<char>>)
    ensures
        (exists|i: int, j: int|
            #![trigger cands[i].ips@[j]]
            0 <= i < cands.len() && 0 <= j < cands[i].ips@.len() && (match wanted {
                Some(n) => cands[i].name@ == n,
                None => !cands[i].is_loopback && cands[i].is_up && cands[i].mac is Some,
            }) && cands[i].mac is Some && cands[i].mac.unwrap() != MacAddr(0, 0, 0, 0, 0, 0) && (
            cands[i].ips@[j] matches IfaceAddr::V4 { ip, mask } && ipv4_octets(ip.addr)[0] != 127
                && !(ipv4_octets(ip.addr)[0] == 169 && ipv4_octets(ip.addr)[1] == 254)))
            <==> chosen_interface(cands, wanted) is Some,
        chosen_interface(cands, wanted) matches Some((i, j)) ==> {
            &&& 0 <= i < cands.len()
            &&& 0 <= j < cands[i].ips@.len()
            &&& match wanted {
                Some(n) => cands[i].name@ == n,
                None => !cands[i].is_loopback && cands[i].is_up && cands[i].mac is Some,
            }
            &&& cands[i].mac is Some && cands[i].mac.unwrap() != MacAddr(0, 0, 0, 0, 0, 0)
            &&& cands[i].ips@[j] matches IfaceAddr::V4 { ip, mask }
            &&& ipv4_octets(cands[i].ips@[j]->ip.addr)[0] != 127
            &&& !(ipv4_octets(cands[i].ips@[j]->ip.addr)[0] == 169 && ipv4_octets(
                cands[i].ips@[j]->ip.addr,
            )[1] == 254)
            &&& forall|k: int|
                #![trigger cands[i].ips@[k]]
                0 <= k < j ==> !(cands[i].ips@[k] matches IfaceAddr::V4 { ip, mask } && ipv4_octets(
                    ip.addr,
                )[0] != 127 && !(ipv4_octets(ip.addr)[0] == 169 && ipv4_octets(ip.addr)[1] == 254))
            &&& forall|h: int, k: int|
                #![trigger cands[h].ips@[k]]
                0 <= h < i && 0 <= k < cands[h].ips@.len() && (match wanted {
                    Some(n) => cands[h].name@ == n,
                    None => !cands[h].is_loopback && cands[h].is_up && cands[h].mac is Some,
                }) && cands[h].mac is Some && cands[h].mac.unwrap() != MacAddr(0, 0, 0, 0, 0, 0)
                    ==> !(cands[h].ips@[k] matches IfaceAddr::V4 { ip, mask } && ipv4_octets(
                    ip.addr,
                )[0] != 127 && !(ipv4_octets(ip.addr)[0] == 169 && ipv4_octets(ip.addr)[1] == 254))
        },
{
    lemma_chosen_interface(cands, wanted);
    if exists|i: int, j: int|
        #![trigger cands[i].ips@[j]]
        0 <= i < cands.len() && 0 <= j < cands[i].ips@.len() && (match wanted {
            Some(n) => cands[i].name@ == n,
            None => !cands[i].is_loopback && cands[i].is_up && cands[i].mac is Some,
        }) && cands[i].mac is Some && cands[i].mac.unwrap() != MacAddr(0, 0, 0, 0, 0, 0) && (
        cands[i].ips@[j] matches IfaceAddr::V4 { ip, mask } && ipv4_octets(ip.addr)[0] != 127
            && !(ipv4_octets(ip.addr)[0] == 169 && ipv4_octets(ip.addr)[1] == 254)) {
        let (i, j) = choose|i: int, j: int|
            #![trigger cands[i].ips@[j]]
            0 <= i < cands.len() && 0 <= j < cands[i].ips@.len() && (match wanted {
                Some(n) => cands[i].name@ == n,
                None => !cands[i].is_loopback && cands[i].is_up && cands[i].mac is Some,
            }) && cands[i].mac is Some && cands[i].mac.unwrap() != MacAddr(0, 0, 0, 0, 0, 0) && (
            cands[i].ips@[j] matches IfaceAddr::V4 { ip, mask } && ipv4_octets(ip.addr)[0] != 127
                && !(ipv4_octets(ip.addr)[0] == 169 && ipv4_octets(ip.addr)[1] == 254));
        assert(iface_eligible(cands[i], wanted));
        assert(addr_usable(cands[i].ips@[j]));
    }
    if chosen_interface(cands, wanted) is Some {
        let (i, j) = chosen_interface(cands, wanted).unwrap();
        assert forall|h: int, k: int|
            #![trigger cands[h].ips@[k]]
            0 <= h < i && 0 <= k < cands[h].ips@.len() && (match wanted {
                Some(n) => cands[h].name@ == n,
                None => !cands[h].is_loopback && cands[h].is_up && cands[h].mac is Some,
            }) && cands[h].mac is Some && cands[h].mac.unwrap() != MacAddr(0, 0, 0, 0, 0, 0)
                implies !(cands[h].ips@[k] matches IfaceAddr::V4 { ip, mask } && ipv4_octets(
            ip.addr,
        )[0] != 127 && !(ipv4_octets(ip.addr)[0] == 169 && ipv4_octets(ip.addr)[1] == 254)) by {
            assert(iface_eligible(cands[h], wanted));
            assert(!addr_usable(cands[h].ips@[k]));
        }
        assert forall|k: int|
            #![trigger cands[i].ips@[k]]
            0 <= k < j implies !(cands[i].ips@[k] matches IfaceAddr::V4 { ip, mask } && ipv4_octets(
            ip.addr,
        )[0] != 127 && !(ipv4_octets(ip.addr)[0] == 169 && ipv4_octets(ip.addr)[1] == 254)) by {
            assert(!addr_usable(cands[i].ips@[k]));
        }
    }
}

} // verus!
