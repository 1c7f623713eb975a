//! The port list a scan covers: `top`, or comma-separated ports and ranges.
use crate::text::{
    chars_eq_ignore_ascii_case, chars_to_string, contains_char, decimal, eq_ignore_ascii_case,
    parse_unsigned, parse_unsigned_chars, push_chars, push_decimal, push_str, seqs_of,
    split_chars, split_on, str_to_chars, trim, trim_chars,
};
use vstd::prelude::*;

verus! {

/// The ports scanned for `top`: the common service ports, in increasing order.
pub open spec fn default_ports_seq() -> Seq<u16> {
    seq![
        21u16, 22, 23, 25, 53, 80, 110, 139, 443, 445, 1433, 3306, 3389, 5432, 8080, 8443,
    ]
}

/// The common service ports scanned by default.
pub fn default_common_ports() -> (v: Vec<u16>)
    ensures
        v@ == default_ports_seq(),
{
    let mut v: Vec<u16> = Vec::new();
    v.push(21);
    v.push(22);
    v.push(23);
    v.push(25);
    v.push(53);
    v.push(80);
    v.push(110);
    v.push(139);
    v.push(443);
    v.push(445);
    v.push(1433);
    v.push(3306);
    v.push(3389);
    v.push(5432);
    v.push(8080);
    v.push(8443);
    assert(v@ =~= default_ports_seq());
    v
}

/// The ports from `lo` to `hi`, both included.
pub open spec fn range_set(lo: u16, hi: u16) -> Set<u16> {
    Set::new(|p: u16| lo <= p && p <= hi)
}

/// What one comma-separated part denotes: the range `lo..=hi` it names (a
/// single port `p` names `p..=p`), or the message of its error. The part is
/// trimmed; a part holding `-` is a range of two trimmed ports, the first
/// not above the second.
pub open spec fn part_range(raw: Seq<char>) -> Result<(u16, u16), Seq<char>> {
    let part = trim(raw);
    if part.contains('-') {
        let b = split_on(part, '-');
        if b.len() != 2 {
            Err("Intervalo de portas inválido: "@ + part)
        } else {
            match parse_unsigned(trim(b[0]), 65535) {
                None => Err("Porta inicial inválida: "@ + b[0]),
                Some(s) => match parse_unsigned(trim(b[1]), 65535) {
                    None => Err("Porta final inválida: "@ + b[1]),
                    Some(e) => if s > e {
                        Err("Intervalo inválido: "@ + decimal(s) + " > "@ + decimal(e))
                    } else {
                        Ok((s as u16, e as u16))
                    },
                },
            }
        }
    } else {
        match parse_unsigned(part, 65535) {
            None => Err("Porta inválida: "@ + part),
            Some(p) => Ok((p as u16, p as u16)),
        }
    }
}

/// The ports that the parts name together, or the error of the first part
/// that is malformed.
pub open spec fn collect_ports(parts: Seq<Seq<char>>) -> Result<Set<u16>, Seq<char>>
    decreases parts.len(),
{
    if parts.len() == 0 {
        Ok(Set::empty())
    } else {
        match collect_ports(parts.drop_last()) {
            Err(e) => Err(e),
            Ok(s) => match part_range(parts.last()) {
                Err(e) => Err(e),
                Ok((lo, hi)) => Ok(s.union(range_set(lo, hi))),
            },
        }
    }
}

/// The ports an input selects: `top` (any ASCII case) selects the default
/// list; otherwise the comma-separated parts are read as `collect_ports`
/// reads them.
pub open spec fn port_selection(input: Seq<char>) -> Result<Set<u16>, Seq<char>> {
    if eq_ignore_ascii_case(input, "top"@) {
        Ok(default_ports_seq().to_set())
    } else {
        collect_ports(split_on(input, ','))
    }
}

/// Each element below the next.
pub open spec fn strictly_increasing(v: Seq<u16>) -> bool {
    forall|i: int, j: int| 0 <= i < j < v.len() ==> v[i] < v[j]
}

proof fn lemma_collect_error_persists(parts: Seq<Seq<char>>, i: int, e: Seq<char>)
    requires
        0 <= i <= parts.len(),
        collect_ports(parts.take(i)) == Err::<Set<u16>, Seq<char>>(e),
    ensures
        collect_ports(parts) == Err::<Set<u16>, Seq<char>>(e),
    decreases parts.len() - i,
{
    if i < parts.len() {
        assert(parts.take(i + 1).drop_last() =~= parts.take(i));
        lemma_collect_error_persists(parts, i + 1, e);
    } else {
        assert(parts.take(i) =~= parts);
    }
}

fn part_port_range(raw: &Vec<char>) -> (r: Result<(u16, u16), Vec<char>>)
    ensures
        match (r, part_range(raw@)) {
            (Ok(a), Ok(b)) => a == b,
            (Err(e), Err(m)) => e@ == m,
            _ => false,
        },
{
    let part = trim_chars(raw);
    if contains_char(&part, '-') {
        let bounds = split_chars(&part, '-');
        if bounds.len() != 2 {
            let mut msg = str_to_chars("Intervalo de portas inválido: ");
            push_chars(&mut msg, &part);
            return Err(msg);
        }
        assert(bounds[0]@ == seqs_of(bounds@)[0]);
        assert(bounds[1]@ == seqs_of(bounds@)[1]);
        let first = trim_chars(&bounds[0]);
        let start = match parse_unsigned_chars(&first, 65535) {
            Some(s) => s,
            None => {
                let mut msg = str_to_chars("Porta inicial inválida: ");
                push_chars(&mut msg, &bounds[0]);
                return Err(msg);
            },
        };
        let second = trim_chars(&bounds[1]);
        let end = match parse_unsigned_chars(&second, 65535) {
            Some(e) => e,
            None => {
                let mut msg = str_to_chars("Porta final inválida: ");
                push_chars(&mut msg, &bounds[1]);
                return Err(msg);
            },
        };
        if start > end {
            let mut msg = str_to_chars("Intervalo inválido: ");
            push_decimal(&mut msg, start);
            push_str(&mut msg, " > ");
            push_decimal(&mut msg, end);
            return Err(msg);
        }
        Ok((start as u16, end as u16))
    } else {
        match parse_unsigned_chars(&part, 65535) {
            Some(p) => Ok((p as u16, p as u16)),
            None => {
                let mut msg = str_to_chars("Porta inválida: ");
                push_chars(&mut msg, &part);
                Err(msg)
            },
        }
    }
}

/// Reads a port selection: `top` for the common service ports, or
/// comma-separated ports and `a-b` ranges. The ports come out once each, in
/// increasing order; the first malformed part gives the error.
pub fn parse_port_range(input: &str) -> (r: Result<Vec<u16>, String>)
    ensures
        match (r, port_selection(input@)) {
            (Ok(v), Ok(s)) => strictly_increasing(v@) && v@.to_set() == s && (eq_ignore_ascii_case(
                input@,
                "top"@,
            ) ==> v@ == default_ports_seq()),
            (Err(e), Err(m)) => e@ == m,
            _ => false,
        },
{
    let chars = str_to_chars(input);
    if chars_eq_ignore_ascii_case(&chars, "top") {
        let v = default_common_ports();
        assert(strictly_increasing(v@));
        return Ok(v);
    }
    let mut flags: Vec<bool> = Vec::new();
    while flags.len() < 65536
        invariant
            flags.len() <= 65536,
            forall|q: int| 0 <= q < flags.len() ==> !#[trigger] flags@[q],
        decreases 65536 - flags.len(),
    {
        flags.push(false);
    }
    let parts = split_chars(&chars, ',');
    let ghost ps = seqs_of(parts@);
    let ghost mut selected: Set<u16> = Set::empty();
    assert(ps.take(0) =~= Seq::<Seq<char>>::empty());
    let mut i: usize = 0;
    while i < parts.len()
        invariant
            i <= parts.len(),
            ps == seqs_of(parts@),
            ps == split_on(chars@, ','),
            chars@ == input@,
            !eq_ignore_ascii_case(input@, "top"@),
            flags.len() == 65536,
            collect_ports(ps.take(i as int)) == Ok::<Set<u16>, Seq<char>>(selected),
            forall|q: u16| #[trigger] flags@[q as int] == selected.contains(q),
        decreases parts.len() - i,
    {
        assert(parts[i as int]@ == ps[i as int]);
        assert(ps.take(i + 1).drop_last() =~= ps.take(i as int));
        assert(ps.take(i + 1).last() == ps[i as int]);
        match part_port_range(&parts[i]) {
            Err(msg) => {
                proof {
                    lemma_collect_error_persists(ps, i + 1, msg@);
                }
                return Err(chars_to_string(&msg));
            },
            Ok((lo, hi)) => {
                let mut q: usize = lo as usize;
                while q <= hi as usize
                    invariant
                        lo <= q <= hi as usize + 1,
                        flags.len() == 65536,
                        forall|x: u16| #[trigger] flags@[x as int] == (selected.contains(x) || (lo <= x
                            && (x as usize) < q)),
                    decreases hi as usize + 1 - q,
                {
                    flags.set(q, true);
                    q += 1;
                    assert forall|x: u16| #[trigger] flags@[x as int] == (selected.contains(x) || (lo
                        <= x && (x as usize) < q)) by {
                        if x as usize == q - 1 {
                            assert(flags@[x as int]);
                        }
                    }
                }
                proof {
                    selected = selected.union(range_set(lo, hi));
                }
                assert forall|x: u16| #[trigger] flags@[x as int] == selected.contains(x) by {}
            },
        }
        i += 1;
    }
    assert(ps.take(i as int) =~= ps);
    let mut v: Vec<u16> = Vec::new();
    let mut p: usize = 0;
    while p < 65536
        invariant
            p <= 65536,
            flags.len() == 65536,
            forall|q: u16| #[trigger] flags@[q as int] == selected.contains(q),
            strictly_increasing(v@),
            forall|k: int| 0 <= k < v@.len() ==> (#[trigger] v@[k] as usize) < p,
            forall|q: u16| (q as usize) < p ==> (v@.contains(q) <==> selected.contains(q)),
            forall|k: int| 0 <= k < v@.len() ==> selected.contains(#[trigger] v@[k]),
        decreases 65536 - p,
    {
        if flags[p] {
            let ghost old_v = v@;
            v.push(p as u16);
            assert forall|q: u16| (q as usize) < p + 1 implies (v@.contains(q) <==> selected.contains(
                q,
            )) by {
                if q as usize == p {
                    assert(v@[v@.len() - 1] == q);
                } else {
                    if v@.contains(q) {
                        let k = choose|k: int| 0 <= k < v@.len() && v@[k] == q;
                        if k < old_v.len() {
                            assert(old_v[k] == q);
                        }
                    }
                    if old_v.contains(q) {
                        let k = choose|k: int| 0 <= k < old_v.len() && old_v[k] == q;
                        assert(v@[k] == q);
                    }
                }
            }
        } else {
            assert forall|q: u16| (q as usize) < p + 1 implies (v@.contains(q) <==> selected.contains(
                q,
            )) by {
                if q as usize == p {
                    assert(!flags@[q as int]);
                    if v@.contains(q) {
                        let k = choose|k: int| 0 <= k < v@.len() && v@[k] == q;
                    }
                }
            }
        }
        p += 1;
    }
    assert(v@.to_set() =~= selected) by {
        assert forall|q: u16| v@.to_set().contains(q) == selected.contains(q) by {
            assert((q as usize) < 65536);
        }
    }
    Ok(v)
}

} // verus!
