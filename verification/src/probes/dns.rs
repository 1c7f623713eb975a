//! Reverse DNS: the PTR query for an address and the reading of its answer.
use crate::net::{ipv4_octets, Ipv4};
use crate::text::{
    chars_to_string, decimal, join_chars, join_with, push_chars, push_decimal, seqs_of,
    str_to_chars, utf8_lossy, utf8_lossy_text,
};
use vstd::prelude::*;

verus! {

/// Bytes of ASCII text.
pub open spec fn ascii_bytes(s: Seq<char>) -> Seq<u8> {
    Seq::new(s.len(), |i: int| s[i] as u8)
}

/// A DNS label: its length byte, then its bytes.
pub open spec fn dns_label(s: Seq<char>) -> Seq<u8> {
    seq![s.len() as u8] + ascii_bytes(s)
}

/// The fixed DNS header of the query: id 0x1337, recursion desired, one
/// question.
pub open spec fn ptr_query_header() -> Seq<u8> {
    seq![0x13u8, 0x37, 0x01, 0x00, 0x00, 0x01, 0x00, 0x00, 0x00, 0x00, 0x00, 0x00]
}

/// The PTR query for `d.c.b.a.in-addr.arpa`, class IN, where `a.b.c.d` is
/// the address.
pub open spec fn ptr_query(addr: u32) -> Seq<u8> {
    let o = ipv4_octets(addr);
    ptr_query_header() + dns_label(decimal(o[3] as nat)) + dns_label(decimal(o[2] as nat))
        + dns_label(decimal(o[1] as nat)) + dns_label(decimal(o[0] as nat)) + dns_label(
        "in-addr"@,
    ) + dns_label("arpa"@) + seq![0x00u8, 0x00, 0x0c, 0x00, 0x01]
}

proof fn lemma_decimal_short(n: nat)
    requires
        n < 256,
    ensures
        1 <= decimal(n).len() <= 3,
        forall|i: int| 0 <= i < decimal(n).len() ==> (#[trigger] decimal(n)[i] as u32) < 128,
{
    reveal_with_fuel(decimal, 3);
}

fn push_label(packet: &mut Vec<u8>, label: &Vec<char>)
    requires
        label.len() < 256,
        forall|i: int| 0 <= i < label@.len() ==> (#[trigger] label@[i] as u32) < 256,
    ensures
        final(packet)@ == old(packet)@ + dns_label(label@),
{
    packet.push(label.len() as u8);
    let mut i: usize = 0;
    let ghost start = packet@;
    while i < label.len()
        invariant
            i <= label.len(),
            forall|k: int| 0 <= k < label@.len() ==> (#[trigger] label@[k] as u32) < 256,
            packet@ == start + ascii_bytes(label@).take(i as int),
        decreases label.len() - i,
    {
        let c = label[i];
        assert((c as u32) < 256);
        packet.push(c as u8);
        i += 1;
        assert(packet@ =~= start + ascii_bytes(label@).take(i as int));
    }
    assert(ascii_bytes(label@).take(i as int) =~= ascii_bytes(label@));
    assert(packet@ =~= old(packet)@ + dns_label(label@));
}

fn push_octet_label(packet: &mut Vec<u8>, o: u8)
    ensures
        final(packet)@ == old(packet)@ + dns_label(decimal(o as nat)),
{
    let mut digits: Vec<char> = Vec::new();
    push_decimal(&mut digits, o as u32);
    assert(digits@ =~= decimal(o as nat));
    proof {
        lemma_decimal_short(o as nat);
    }
    push_label(packet, &digits);
}

/// The reverse-lookup query for `ip`.
pub fn build_ptr_query(ip: Ipv4) -> (packet: Vec<u8>)
    ensures
        packet@ == ptr_query(ip.addr),
{
    let o = ip.octets();
    let mut packet: Vec<u8> = Vec::new();
    packet.push(0x13);
    packet.push(0x37);
    packet.push(0x01);
    packet.push(0x00);
    packet.push(0x00);
    packet.push(0x01);
    packet.push(0x00);
    packet.push(0x00);
    packet.push(0x00);
    packet.push(0x00);
    packet.push(0x00);
    packet.push(0x00);
    assert(packet@ =~= ptr_query_header());
    push_octet_label(&mut packet, o[3]);
    push_octet_label(&mut packet, o[2]);
    push_octet_label(&mut packet, o[1]);
    push_octet_label(&mut packet, o[0]);
    let in_addr = str_to_chars("in-addr");
    proof {
        reveal_strlit("in-addr");
    }
    push_label(&mut packet, &in_addr);
    let arpa = str_to_chars("arpa");
    proof {
        reveal_strlit("arpa");
    }
    push_label(&mut packet, &arpa);
    packet.push(0x00);
    packet.push(0x00);
    packet.push(0x0c);
    packet.push(0x00);
    packet.push(0x01);
    assert(packet@ =~= ptr_query(ip.addr));
    packet
}

/// The big-endian 16-bit value at `i`.
pub open spec fn be16(b: Seq<u8>, i: int) -> int {
    b[i] as int * 256 + b[i + 1] as int
}

/// Where the question name that starts at `off` ends: its labels are
/// skipped by their length bytes until a zero byte or the end of the message.
pub open spec fn skip_name(b: Seq<u8>, off: int) -> int
    decreases (if off < b.len() { b.len() - off } else { 0 }),
{
    if 0 <= off < b.len() && b[off] != 0 {
        skip_name(b, off + 1 + b[off] as int)
    } else {
        off
    }
}

/// The labels of the name stored in `b[curr..end]`, read by their length
/// bytes until a zero byte, the end of the range, or a label that does not
/// fit in it.
pub open spec fn name_labels(b: Seq<u8>, curr: int, end: int) -> Seq<Seq<u8>>
    decreases (if curr < end { end - curr } else { 0 }),
{
    if 0 <= curr < end && end <= b.len() && b[curr] != 0 {
        let l = b[curr] as int;
        if curr + 1 + l <= end {
            seq![b.subrange(curr + 1, curr + 1 + l)] + name_labels(b, curr + 1 + l, end)
        } else {
            seq![]
        }
    } else {
        seq![]
    }
}

/// `s` without its trailing dots.
pub open spec fn trim_end_dots(s: Seq<char>) -> Seq<char>
    decreases s.len(),
{
    if s.len() > 0 && s.last() == '.' {
        trim_end_dots(s.drop_last())
    } else {
        s
    }
}

/// Each label decoded as `String::from_utf8_lossy` decodes it.
pub open spec fn decode_labels(labels: Seq<Seq<u8>>) -> Seq<Seq<char>> {
    Seq::new(labels.len(), |i: int| utf8_lossy_text(labels[i]))
}

/// The host name in the answer to a PTR query: the message must be longer
/// than its 12-byte header and report an answer; after the question (its
/// name and 4 more bytes) the answer's name is taken to be the 2-byte
/// pointer, and the 10 bytes of its fixed fields end with the length of its
/// data; the name in that data, its labels joined by dots and trailing dots
/// removed, is reported as `DNS-PTR: <name>` when it has at least one label.
pub open spec fn ptr_answer(b: Seq<u8>) -> Option<Seq<char>> {
    if b.len() > 12 && be16(b, 6) > 0 {
        let q = skip_name(b, 12) + 5;
        if q + 12 <= b.len() {
            let start = q + 12;
            let rdlength = be16(b, q + 10);
            if start + rdlength <= b.len() {
                let labels = name_labels(b, start, start + rdlength);
                if labels.len() > 0 {
                    Some("DNS-PTR: "@ + trim_end_dots(join_with(decode_labels(labels), '.')))
                } else {
                    None
                }
            } else {
                None
            }
        } else {
            None
        }
    } else {
        None
    }
}

proof fn lemma_name_labels_prefix(b: Seq<u8>, curr: int, end: int, l: int)
    requires
        0 <= curr < end <= b.len(),
        b[curr] != 0,
        l == b[curr] as int,
        curr + 1 + l <= end,
    ensures
        name_labels(b, curr, end) == seq![b.subrange(curr + 1, curr + 1 + l)] + name_labels(
            b,
            curr + 1 + l,
            end,
        ),
{
}

/// The text without its trailing dots.
pub fn trim_trailing_dots(s: &Vec<char>) -> (r: Vec<char>)
    ensures
        r@ == trim_end_dots(s@),
{
    let mut hi: usize = s.len();
    assert(s@.take(hi as int) =~= s@);
    while hi > 0 && s[hi - 1] == '.'
        invariant
            hi <= s.len(),
            trim_end_dots(s@.take(hi as int)) == trim_end_dots(s@),
        decreases hi,
    {
        assert(s@.take(hi as int).drop_last() =~= s@.take(hi - 1));
        hi -= 1;
    }
    let r = crate::text::sub_chars(s, 0, hi);
    assert(s@.subrange(0, hi as int) =~= s@.take(hi as int));
    r
}

fn finish_ptr_name(parts: &Vec<Vec<char>>) -> (r: Option<String>)
    ensures
        parts@.len() == 0 ==> r is None,
        parts@.len() > 0 ==> (r matches Some(s) && s@ == "DNS-PTR: "@ + trim_end_dots(
            join_with(seqs_of(parts@), '.'),
        )),
{
    if parts.len() == 0 {
        return None;
    }
    let fqdn = join_chars(parts, '.');
    let sanitized = trim_trailing_dots(&fqdn);
    let mut out = str_to_chars("DNS-PTR: ");
    push_chars(&mut out, &sanitized);
    Some(chars_to_string(&out))
}

/// Reads the host name from the reply to a PTR query. (The length bound
/// holds for every slice; it keeps the offset arithmetic in range.)
pub fn parse_ptr_response(resp: &[u8]) -> (r: Option<String>)
    requires
        resp@.len() <= isize::MAX,
    ensures
        match r {
            Some(s) => ptr_answer(resp@) == Some(s@),
            None => ptr_answer(resp@) is None,
        },
{
    let len = resp.len();
    if len <= 12 {
        return None;
    }
    let ancount: u16 = (resp[6] as u16) * 256 + resp[7] as u16;
    if ancount == 0 {
        return None;
    }
    let mut offset: usize = 12;
    while offset < len && resp[offset] != 0
        invariant
            len == resp@.len() <= isize::MAX,
            12 <= offset <= len + 256,
            skip_name(resp@, offset as int) == skip_name(resp@, 12),
        decreases len + 256 - offset,
    {
        offset += 1 + resp[offset] as usize;
    }
    offset += 5;
    if offset + 12 > len {
        return None;
    }
    offset += 10;
    let rdlength = (resp[offset] as usize) * 256 + resp[offset + 1] as usize;
    offset += 2;
    if offset + rdlength > len {
        return None;
    }
    let ghost b = resp@;
    let ghost start = offset as int;
    let end = offset + rdlength;
    assert(ptr_answer(b) == (if name_labels(b, start, end as int).len() > 0 {
        Some("DNS-PTR: "@ + trim_end_dots(join_with(decode_labels(name_labels(b, start, end as int)), '.')))
    } else {
        None
    }));
    let mut name_parts: Vec<Vec<char>> = Vec::new();
    let mut curr = offset;
    while curr < end && resp[curr] != 0
        invariant
            b == resp@,
            start <= curr <= end <= len == resp@.len() <= isize::MAX,
            ptr_answer(b) == (if name_labels(b, start, end as int).len() > 0 {
                Some("DNS-PTR: "@ + trim_end_dots(join_with(decode_labels(name_labels(b, start, end as int)), '.')))
            } else {
                None
            }),
            decode_labels(name_labels(b, start, end as int)) == seqs_of(name_parts@) + decode_labels(name_labels(b, curr as int, end as int)),
        decreases end - curr,
    {
        let label_len = resp[curr] as usize;
        let ghost old_curr = curr as int;
        curr += 1;
        if curr + label_len <= end {
            let label = utf8_lossy(&resp[curr..curr + label_len]);
            proof {
                lemma_name_labels_prefix(b, old_curr, end as int, label_len as int);
                let rest = name_labels(b, curr + label_len, end as int);
                assert(decode_labels(name_labels(b, old_curr, end as int)) =~= seq![label@]
                    + decode_labels(rest));
            }
            let ghost old_parts = seqs_of(name_parts@);
            let ghost label_text = label@;
            name_parts.push(label);
            assert(seqs_of(name_parts@) =~= old_parts.push(label_text));
            curr += label_len;
        } else {
            assert(name_labels(b, old_curr, end as int) =~= seq![]);
            assert(decode_labels(name_labels(b, old_curr, end as int)) =~= seq![]);
            assert(decode_labels(name_labels(b, start, end as int)) =~= seqs_of(name_parts@));
            return finish_ptr_name(&name_parts);
        }
    }
    assert(name_labels(b, curr as int, end as int) =~= seq![]);
    assert(decode_labels(name_labels(b, curr as int, end as int)) =~= seq![]);
    assert(decode_labels(name_labels(b, start, end as int)) =~= seqs_of(name_parts@));
    finish_ptr_name(&name_parts)
}

/// Law: a host name is only read from a reply that reports an answer. A
/// reply no longer than its 12-byte header, or whose answer count (bytes
/// 6-7) is zero, gives nothing, whatever its other sections hold; a name,
/// when there is one, is reported as `DNS-PTR: <name>`.
pub proof fn law_ptr_needs_answer(b: Seq<u8>)
    ensures
        b.len() <= 12 ==> ptr_answer(b) is None,
        b.len() > 12 && b[6] == 0 && b[7] == 0 ==> ptr_answer(b) is None,
        ptr_answer(b) matches Some(s) ==> s.len() >= 9 && s.take(9) == "DNS-PTR: "@,
{
    reveal_strlit("DNS-PTR: ");
    if ptr_answer(b) is Some {
        let s = ptr_answer(b).unwrap();
        let q = skip_name(b, 12) + 5;
        let start = q + 12;
        let labels = name_labels(b, start, start + be16(b, q + 10));
        let x = trim_end_dots(join_with(decode_labels(labels), '.'));
        assert(s == "DNS-PTR: "@ + x);
        assert(s.take(9) =~= "DNS-PTR: "@);
    }
}

} // verus!
