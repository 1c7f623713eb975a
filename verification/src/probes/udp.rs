//! Passive discovery by SSDP and mDNS service queries: the messages sent and
//! the reading of the replies into a table of host names.
use crate::net::Ipv4;
use crate::text::{
    bytes_to_vec, chars_start_with_ignore_ascii_case, chars_to_string, lines_of, literal, seqs_of,
    starts_with_ignore_ascii_case, sub_chars, text_lines, trim, trim_chars, utf8_lossy,
    utf8_lossy_text,
};
use std::collections::HashMap;
use vstd::prelude::*;

verus! {

broadcast use vstd::std_specs::hash::group_hash_axioms;

/// The SSDP search for every device, sent to 239.255.255.250:1900.
pub open spec fn ssdp_search_text() -> Seq<char> {
    "M-SEARCH * HTTP/1.1\r\nHOST: 239.255.255.250:1900\r\nMAN: \"ssdp:discover\"\r\nMX: 1\r\nST: ssdp:all\r\n\r\n"@
}

/// Builds the SSDP search message.
pub fn ssdp_search_message() -> (s: String)
    ensures
        s@ == ssdp_search_text(),
{
    literal(
        "M-SEARCH * HTTP/1.1\r\nHOST: 239.255.255.250:1900\r\nMAN: \"ssdp:discover\"\r\nMX: 1\r\nST: ssdp:all\r\n\r\n",
    )
}

/// A PTR question for `_services._dns-sd._udp.local`, class IN, sent to
/// 224.0.0.251:5353.
pub open spec fn services_query() -> Seq<u8> {
    seq![
        0x00u8, 0x00, 0x00, 0x00, 0x00, 0x01, 0x00, 0x00, 0x00, 0x00, 0x00, 0x00, 0x09, 0x5f, 0x73,
        0x65, 0x72, 0x76, 0x69, 0x63, 0x65, 0x73, 0x07, 0x5f, 0x64, 0x6e, 0x73, 0x2d, 0x73, 0x64,
        0x04, 0x5f, 0x75, 0x64, 0x70, 0x05, 0x6c, 0x6f, 0x63, 0x61, 0x6c, 0x00, 0x00, 0x0c, 0x00,
        0x01,
    ]
}

/// Builds the mDNS service enumeration query.
pub fn mdns_services_query() -> (q: Vec<u8>)
    ensures
        q@ == services_query(),
{
    let bytes: [u8; 46] = [
        0x00, 0x00, 0x00, 0x00, 0x00, 0x01, 0x00, 0x00, 0x00, 0x00, 0x00, 0x00, 0x09, 0x5f, 0x73,
        0x65, 0x72, 0x76, 0x69, 0x63, 0x65, 0x73, 0x07, 0x5f, 0x64, 0x6e, 0x73, 0x2d, 0x73, 0x64,
        0x04, 0x5f, 0x75, 0x64, 0x70, 0x05, 0x6c, 0x6f, 0x63, 0x61, 0x6c, 0x00, 0x00, 0x0c, 0x00,
        0x01,
    ];
    assert(bytes@ =~= services_query());
    bytes_to_vec(&bytes)
}

/// The text after the first `:` of a line (all of it when there is none,
/// which cannot happen for the lines read here).
pub open spec fn after_first_colon(line: Seq<char>) -> Seq<char>
    decreases line.len(),
{
    if line.len() == 0 {
        line
    } else if line[0] == ':' {
        line.drop_first()
    } else {
        after_first_colon(line.drop_first())
    }
}

/// What a reply line announces: a line beginning `server:` or `location:`
/// in any case gives the text after its first `:`, trimmed, when that is
/// not empty.
pub open spec fn announced_value(line: Seq<char>) -> Option<Seq<char>> {
    if starts_with_ignore_ascii_case(line, "server:"@) || starts_with_ignore_ascii_case(
        line,
        "location:"@,
    ) {
        let v = trim(after_first_colon(line));
        if v.len() > 0 {
            Some(v)
        } else {
            None
        }
    } else {
        None
    }
}

/// The value of the last line that announces one.
pub open spec fn last_announced(lines: Seq<Seq<char>>) -> Option<Seq<char>>
    decreases lines.len(),
{
    if lines.len() == 0 {
        None
    } else {
        match announced_value(lines.last()) {
            Some(v) => Some(v),
            None => last_announced(lines.drop_last()),
        }
    }
}

/// The name a datagram from `src` records: none from the scanner's own
/// address; otherwise the last value its lines announce.
pub open spec fn reply_name(local: u32, src: u32, data: Seq<u8>) -> Option<Seq<char>> {
    if src == local {
        None
    } else {
        last_announced(text_lines(utf8_lossy_text(data)))
    }
}

/// The table after recording `name` for `key`: unchanged for no name,
/// otherwise the entry for `key` holds the name and the others stay.
pub open spec fn names_after(
    before: Map<u32, String>,
    after: Map<u32, String>,
    key: u32,
    name: Option<Seq<char>>,
) -> bool {
    match name {
        None => after == before,
        Some(v) => {
            &&& after.dom() == before.dom().insert(key)
            &&& after[key]@ == v
            &&& forall|k: u32| k != key && #[trigger] before.contains_key(k) ==> after[k] == before[k]
        },
    }
}

fn after_colon(line: &Vec<char>) -> (r: Vec<char>)
    ensures
        r@ == after_first_colon(line@),
{
    let mut i: usize = 0;
    assert(line@.skip(0) =~= line@);
    while i < line.len() && line[i] != ':'
        invariant
            i <= line.len(),
            after_first_colon(line@.skip(i as int)) == after_first_colon(line@),
        decreases line.len() - i,
    {
        assert(line@.skip(i as int).drop_first() =~= line@.skip(i + 1));
        i += 1;
    }
    if i == line.len() {
        assert(line@.skip(i as int) =~= Seq::<char>::empty());
        return Vec::new();
    }
    assert(line@.skip(i as int).drop_first() =~= line@.subrange(i + 1, line@.len() as int));
    sub_chars(line, i + 1, line.len())
}

fn line_value(line: &Vec<char>) -> (r: Option<Vec<char>>)
    ensures
        match r {
            Some(v) => announced_value(line@) == Some(v@),
            None => announced_value(line@) is None,
        },
{
    if chars_start_with_ignore_ascii_case(line, "server:") || chars_start_with_ignore_ascii_case(
        line,
        "location:",
    ) {
        let rest = after_colon(line);
        let v = trim_chars(&rest);
        if v.len() > 0 {
            return Some(v);
        }
    }
    None
}

/// Records the name a discovery reply announces: a datagram from `src`
/// (other than the scanner's own address `local_ip`) whose lines begin with
/// `server:` or `location:` sets the entry for `src` to the value of the
/// last such line.
pub fn record_udp_reply(
    names: &mut HashMap<u32, String>,
    local_ip: Ipv4,
    src: Ipv4,
    data: &[u8],
)
    ensures
        names_after(old(names)@, final(names)@, src.addr, reply_name(local_ip.addr, src.addr, data@)),
{
    if src.addr == local_ip.addr {
        return;
    }
    let text = utf8_lossy(data);
    let lines = lines_of(&text);
    let ghost ls = seqs_of(lines@);
    let ghost before = names@;
    let mut i: usize = 0;
    assert(ls.take(0) =~= Seq::<Seq<char>>::empty());
    while i < lines.len()
        invariant
            i <= lines.len(),
            ls == seqs_of(lines@),
            names_after(before, names@, src.addr, last_announced(ls.take(i as int))),
        decreases lines.len() - i,
    {
        assert(lines[i as int]@ == ls[i as int]);
        assert(ls.take(i + 1).drop_last() =~= ls.take(i as int));
        assert(ls.take(i + 1).last() == ls[i as int]);
        match line_value(&lines[i]) {
            Some(v) => {
                let val = chars_to_string(&v);
                let ghost prev = names@;
                names.insert(src.addr, val);
                proof {
                    assert(names@ == prev.insert(src.addr, val));
                    assert(names@.dom() =~= before.dom().insert(src.addr));
                    assert forall|k: u32| k != src.addr && #[trigger] before.contains_key(k) implies names@[k]
                        == before[k] by {
                        assert(prev.contains_key(k));
                    }
                }
            },
            None => {},
        }
        i += 1;
    }
    assert(ls.take(i as int) =~= ls);
}

} // verus!
