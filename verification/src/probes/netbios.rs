//! NetBIOS node status: the query and the reading of the workstation name.
use crate::text::{chars_to_string, push_chars, str_to_chars, trim, trim_chars, utf8_lossy, utf8_lossy_text};
use vstd::prelude::*;

verus! {

/// The node status request: transaction 0x8001, one question whose name
/// field has length byte 0x20 and the bytes `CK` followed by 28 `A` (the
/// encoded wildcard name `*`, cut short), type NBSTAT, class IN.
pub open spec fn nbstat_query() -> Seq<u8> {
    seq![
        0x80u8, 0x01, 0x00, 0x00, 0x00, 0x01, 0x00, 0x00, 0x00, 0x00, 0x00, 0x00, 0x20, 0x43, 0x4b,
        0x41, 0x41, 0x41, 0x41, 0x41, 0x41, 0x41, 0x41, 0x41, 0x41, 0x41, 0x41, 0x41, 0x41, 0x41,
        0x41, 0x41, 0x41, 0x41, 0x41, 0x41, 0x41, 0x41, 0x41, 0x41, 0x41, 0x41, 0x41, 0x00, 0x00,
        0x21, 0x00, 0x01,
    ]
}

/// The node status request sent to UDP port 137.
pub fn netbios_status_query() -> (q: Vec<u8>)
    ensures
        q@ == nbstat_query(),
{
    let bytes: [u8; 48] = [
        0x80, 0x01, 0x00, 0x00, 0x00, 0x01, 0x00, 0x00, 0x00, 0x00, 0x00, 0x00, 0x20, 0x43, 0x4b,
        0x41, 0x41, 0x41, 0x41, 0x41, 0x41, 0x41, 0x41, 0x41, 0x41, 0x41, 0x41, 0x41, 0x41, 0x41,
        0x41, 0x41, 0x41, 0x41, 0x41, 0x41, 0x41, 0x41, 0x41, 0x41, 0x41, 0x41, 0x41, 0x00, 0x00,
        0x21, 0x00, 0x01,
    ];
    assert(bytes@ =~= nbstat_query());
    let q = crate::text::bytes_to_vec(&bytes);
    q
}

/// The name an entry of the reply's name table gives, when the entry at
/// `off` fits in the reply, is a unique (not group) name of type 0x00, and
/// its 15 name bytes, decoded and trimmed, are not empty.
pub open spec fn netbios_entry_name(b: Seq<u8>, off: int) -> Option<Seq<char>> {
    if off + 18 <= b.len() && b[off + 15] == 0 && b[off + 16] < 0x80 {
        let name = trim(utf8_lossy_text(b.subrange(off, off + 15)));
        if name.len() > 0 {
            Some("NetBIOS: "@ + name)
        } else {
            None
        }
    } else {
        None
    }
}

/// The first name given by the `remaining` 18-byte entries from `off`,
/// stopping at the first entry that does not fit in the reply.
pub open spec fn netbios_scan(b: Seq<u8>, remaining: nat, off: int) -> Option<Seq<char>>
    decreases remaining,
{
    if remaining == 0 || off + 18 > b.len() {
        None
    } else {
        match netbios_entry_name(b, off) {
            Some(n) => Some(n),
            None => netbios_scan(b, (remaining - 1) as nat, off + 18),
        }
    }
}

/// The workstation name in a node status reply: byte 56 counts the entries
/// of the name table, which starts at byte 57.
pub open spec fn netbios_answer(b: Seq<u8>) -> Option<Seq<char>> {
    if b.len() > 56 {
        netbios_scan(b, b[56] as nat, 57)
    } else {
        None
    }
}

proof fn lemma_scan_past_end(b: Seq<u8>, remaining: nat, off: int)
    requires
        off + 18 > b.len(),
    ensures
        netbios_scan(b, remaining, off) is None,
{
}

/// Reads the workstation name from a NetBIOS node status reply.
pub fn parse_netbios_response(resp: &[u8]) -> (r: Option<String>)
    ensures
        match r {
            Some(s) => netbios_answer(resp@) == Some(s@),
            None => netbios_answer(resp@) is None,
        },
{
    let len = resp.len();
    if len <= 56 {
        return None;
    }
    let num_names = resp[56] as usize;
    let mut offset: usize = 57;
    let mut k: usize = 0;
    while k < num_names
        invariant
            len == resp@.len(),
            len > 56,
            num_names == resp@[56] as usize,
            k <= num_names,
            57 <= offset <= 57 + 18 * k,
            netbios_scan(resp@, (num_names - k) as nat, offset as int) == netbios_answer(resp@),
        decreases num_names - k,
    {
        if offset + 18 <= len {
            let name_type = resp[offset + 15];
            let is_group = resp[offset + 16] >= 0x80;
            if name_type == 0x00 && !is_group {
                let raw = utf8_lossy(&resp[offset..offset + 15]);
                let name = trim_chars(&raw);
                if name.len() > 0 {
                    let mut out = str_to_chars("NetBIOS: ");
                    push_chars(&mut out, &name);
                    return Some(chars_to_string(&out));
                }
            }
            offset += 18;
        } else {
            proof {
                lemma_scan_past_end(resp@, (num_names - k) as nat, offset as int);
                lemma_scan_past_end(resp@, (num_names - k - 1) as nat, offset as int);
            }
        }
        k += 1;
    }
    None
}

/// Entry `k` of the name table lies wholly inside the reply and holds a
/// unique name (bit 0x80 of its first flag byte clear) of type 0x00 whose 15
/// name bytes, decoded and trimmed, are not empty.
pub open spec fn netbios_entry_names_host(b: Seq<u8>, k: int) -> bool {
    let off = 57 + 18 * k;
    &&& off + 18 <= b.len()
    &&& b[off + 15] == 0
    &&& b[off + 16] < 0x80
    &&& trim(utf8_lossy_text(b.subrange(off, off + 15))).len() > 0
}

proof fn lemma_netbios_scan(b: Seq<u8>, remaining: nat, k: int)
    requires
        k >= 0,
    ensures
        (forall|m: int| k <= m < k + remaining ==> !#[trigger] netbios_entry_names_host(b, m))
            ==> netbios_scan(b, remaining, 57 + 18 * k) is None,
        forall|m: int|
            k <= m < k + remaining && #[trigger] netbios_entry_names_host(b, m) && (forall|l: int|
                k <= l < m ==> !netbios_entry_names_host(b, l)) ==> netbios_scan(b, remaining, 57 + 18 * k)
                == Some("NetBIOS: "@ + trim(utf8_lossy_text(b.subrange(57 + 18 * m, 57 + 18 * m + 15)))),
    decreases remaining,
{
    let off = 57 + 18 * k;
    if remaining > 0 {
        lemma_netbios_scan(b, (remaining - 1) as nat, k + 1);
        assert(57 + 18 * (k + 1) == off + 18);
        if off + 18 > b.len() {
            assert forall|m: int| k <= m < k + remaining implies !#[trigger] netbios_entry_names_host(
                b,
                m,
            ) by {
                assert(18 * m >= 18 * k) by (nonlinear_arith)
                    requires
                        m >= k,
                ;
            }
        } else {
            let name = trim(utf8_lossy_text(b.subrange(off, off + 15)));
            assert(netbios_entry_name(b, off) == (if netbios_entry_names_host(b, k) {
                Some("NetBIOS: "@ + name)
            } else {
                None::<Seq<char>>
            }));
            if !netbios_entry_names_host(b, k) {
                assert forall|m: int|
                    k <= m < k + remaining && #[trigger] netbios_entry_names_host(b, m) && (forall|l: int|
                        k <= l < m ==> !netbios_entry_names_host(b, l)) implies netbios_scan(
                    b,
                    remaining,
                    off,
                ) == Some(
                    "NetBIOS: "@ + trim(utf8_lossy_text(b.subrange(57 + 18 * m, 57 + 18 * m + 15))),
                ) by {
                    assert(m != k);
                }
            } else {
                assert forall|m: int|
                    k <= m < k + remaining && #[trigger] netbios_entry_names_host(b, m) && (forall|l: int|
                        k <= l < m ==> !netbios_entry_names_host(b, l)) implies netbios_scan(
                    b,
                    remaining,
                    off,
                ) == Some(
                    "NetBIOS: "@ + trim(utf8_lossy_text(b.subrange(57 + 18 * m, 57 + 18 * m + 15))),
                ) by {
                    if m != k {
                        assert(!netbios_entry_names_host(b, k));
                    }
                }
            }
        }
    }
}

/// Law: a node status reply gives the name of the first of its name-table
/// entries (as many as byte 56 counts, 18 bytes each from byte 57) that
/// names a host in the sense of `netbios_entry_names_host`; when none of
/// them does, or the reply is no longer than 56 bytes, there is no name.
pub proof fn law_netbios_first_host_entry(b: Seq<u8>)
    ensures
        b.len() <= 56 ==> netbios_answer(b) is None,
        b.len() > 56 ==> {
            &&& (forall|m: int| 0 <= m < b[56] ==> !#[trigger] netbios_entry_names_host(b, m))
                ==> netbios_answer(b) is None
            &&& forall|m: int|
                0 <= m < b[56] && #[trigger] netbios_entry_names_host(b, m) && (forall|l: int|
                    0 <= l < m ==> !netbios_entry_names_host(b, l)) ==> netbios_answer(b) == Some(
                    "NetBIOS: "@ + trim(utf8_lossy_text(b.subrange(57 + 18 * m, 57 + 18 * m + 15))),
                )
        },
{
    if b.len() > 56 {
        lemma_netbios_scan(b, b[56] as nat, 0);
    }
}

} // verus!
