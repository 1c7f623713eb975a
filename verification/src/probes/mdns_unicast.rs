//! Unicast mDNS: the workstation query and the reading of a host name.
use crate::text::{
    bytes_to_vec, chars_to_string, contains_str, has_substring, push_chars, seqs_of, split_chars,
    split_on, str_to_chars, trim, trim_chars, utf8_lossy, utf8_lossy_text,
};
use vstd::prelude::*;

verus! {

/// A PTR question for `_workstation._tcp.local`, class IN.
pub open spec fn workstation_query() -> Seq<u8> {
    seq![
        0x00u8, 0x00, 0x00, 0x00, 0x00, 0x01, 0x00, 0x00, 0x00, 0x00, 0x00, 0x00, 0x0c, 0x5f, 0x77,
        0x6f, 0x72, 0x6b, 0x73, 0x74, 0x61, 0x74, 0x69, 0x6f, 0x6e, 0x04, 0x5f, 0x74, 0x63, 0x70,
        0x05, 0x6c, 0x6f, 0x63, 0x61, 0x6c, 0x00, 0x00, 0x0c, 0x00, 0x01,
    ]
}

/// The query sent to UDP port 5353 of a host.
pub fn mdns_workstation_query() -> (q: Vec<u8>)
    ensures
        q@ == workstation_query(),
{
    let bytes: [u8; 41] = [
        0x00, 0x00, 0x00, 0x00, 0x00, 0x01, 0x00, 0x00, 0x00, 0x00, 0x00, 0x00, 0x0c, 0x5f, 0x77,
        0x6f, 0x72, 0x6b, 0x73, 0x74, 0x61, 0x74, 0x69, 0x6f, 0x6e, 0x04, 0x5f, 0x74, 0x63, 0x70,
        0x05, 0x6c, 0x6f, 0x63, 0x61, 0x6c, 0x00, 0x00, 0x0c, 0x00, 0x01,
    ];
    assert(bytes@ =~= workstation_query());
    bytes_to_vec(&bytes)
}

/// A printable ASCII character other than space, as `is_ascii_graphic`.
pub open spec fn is_ascii_graphic(c: char) -> bool {
    '!' <= c && c <= '~'
}

/// The characters the reader keeps: printable ASCII, space and `-`.
pub open spec fn mdns_keep(c: char) -> bool {
    is_ascii_graphic(c) || c == ' ' || c == '-'
}

/// `s` with only the characters `mdns_keep` accepts, in order.
pub open spec fn keep_printable(s: Seq<char>) -> Seq<char>
    decreases s.len(),
{
    if s.len() == 0 {
        s
    } else {
        let r = keep_printable(s.drop_last());
        if mdns_keep(s.last()) {
            r.push(s.last())
        } else {
            r
        }
    }
}

/// The host name a NUL-separated piece of the reply gives: once cleaned by
/// `keep_printable`, the piece must mention `.local` or `._tcp`; the text
/// before its first dot, trimmed, must be at least 3 characters long (all
/// ASCII, so as many bytes) and not start with `_`.
pub open spec fn mdns_piece_name(piece: Seq<char>) -> Option<Seq<char>> {
    let clean = keep_printable(piece);
    if has_substring(clean, ".local"@) || has_substring(clean, "._tcp"@) {
        let name = trim(split_on(clean, '.')[0]);
        if name.len() >= 3 && !(name.len() > 0 && name[0] == '_') {
            Some("mDNS: "@ + name)
        } else {
            None
        }
    } else {
        None
    }
}

/// The name the first suitable piece gives.
pub open spec fn first_mdns_name(pieces: Seq<Seq<char>>) -> Option<Seq<char>>
    decreases pieces.len(),
{
    if pieces.len() == 0 {
        None
    } else {
        match mdns_piece_name(pieces[0]) {
            Some(n) => Some(n),
            None => first_mdns_name(pieces.drop_first()),
        }
    }
}

/// The host name in an mDNS reply: the bytes after the 12-byte header,
/// decoded and cut at NUL characters, searched piece by piece.
pub open spec fn mdns_answer(b: Seq<u8>) -> Option<Seq<char>> {
    if b.len() > 12 {
        first_mdns_name(split_on(utf8_lossy_text(b.subrange(12, b.len() as int)), '\0'))
    } else {
        None
    }
}

fn keep_printable_chars(s: &Vec<char>) -> (r: Vec<char>)
    ensures
        r@ == keep_printable(s@),
{
    let mut r: Vec<char> = Vec::new();
    let mut i: usize = 0;
    assert(s@.take(0) =~= Seq::<char>::empty());
    while i < s.len()
        invariant
            i <= s.len(),
            r@ == keep_printable(s@.take(i as int)),
        decreases s.len() - i,
    {
        let c = s[i];
        assert(s@.take(i + 1).drop_last() =~= s@.take(i as int));
        if ('!' <= c && c <= '~') || c == ' ' || c == '-' {
            r.push(c);
        }
        i += 1;
    }
    assert(s@.take(i as int) =~= s@);
    r
}

fn piece_name(piece: &Vec<char>) -> (r: Option<Vec<char>>)
    ensures
        match r {
            Some(n) => mdns_piece_name(piece@) == Some(n@),
            None => mdns_piece_name(piece@) is None,
        },
{
    let clean = keep_printable_chars(piece);
    if contains_str(&clean, ".local") || contains_str(&clean, "._tcp") {
        let pieces = split_chars(&clean, '.');
        proof {
            crate::text::lemma_split_on_nonempty(clean@, '.');
        }
        assert(pieces[0]@ == seqs_of(pieces@)[0]);
        let name = trim_chars(&pieces[0]);
        if name.len() >= 3 && !(name.len() > 0 && name[0] == '_') {
            let mut out = str_to_chars("mDNS: ");
            push_chars(&mut out, &name);
            return Some(out);
        }
    }
    None
}

/// Reads a host name from the reply to the workstation query.
pub fn parse_mdns_response(resp: &[u8]) -> (r: Option<String>)
    ensures
        match r {
            Some(s) => mdns_answer(resp@) == Some(s@),
            None => mdns_answer(resp@) is None,
        },
{
    let len = resp.len();
    if len <= 12 {
        return None;
    }
    let data = utf8_lossy(&resp[12..len]);
    let pieces = split_chars(&data, '\0');
    let ghost ps = seqs_of(pieces@);
    let mut i: usize = 0;
    assert(ps.skip(0) =~= ps);
    while i < pieces.len()
        invariant
            i <= pieces.len(),
            ps == seqs_of(pieces@),
            first_mdns_name(ps.skip(i as int)) == mdns_answer(resp@),
        decreases pieces.len() - i,
    {
        assert(pieces[i as int]@ == ps[i as int]);
        assert(ps.skip(i as int)[0] == ps[i as int]);
        assert(ps.skip(i as int).drop_first() =~= ps.skip(i + 1));
        match piece_name(&pieces[i]) {
            Some(n) => {
                return Some(chars_to_string(&n));
            },
            None => {},
        }
        i += 1;
    }
    None
}

/// The host name a piece would give: its printable text before the first
/// dot, trimmed.
pub open spec fn mdns_candidate(piece: Seq<char>) -> Seq<char> {
    trim(split_on(keep_printable(piece), '.')[0])
}

/// A piece names a host: its printable text mentions `.local` or `._tcp`
/// (either one is enough), and its candidate name has at least 3 characters
/// and does not start with `_`.
pub open spec fn mdns_piece_names_host(piece: Seq<char>) -> bool {
    &&& (has_substring(keep_printable(piece), ".local"@) || has_substring(
        keep_printable(piece),
        "._tcp"@,
    ))
    &&& mdns_candidate(piece).len() >= 3
    &&& mdns_candidate(piece)[0] != '_'
}

proof fn lemma_first_mdns_name(pieces: Seq<Seq<char>>)
    ensures
        (forall|k: int| 0 <= k < pieces.len() ==> !#[trigger] mdns_piece_names_host(pieces[k]))
            ==> first_mdns_name(pieces) is None,
        forall|k: int|
            0 <= k < pieces.len() && #[trigger] mdns_piece_names_host(pieces[k]) && (forall|m: int|
                0 <= m < k ==> !mdns_piece_names_host(pieces[m])) ==> first_mdns_name(pieces) == Some(
                "mDNS: "@ + mdns_candidate(pieces[k]),
            ),
    decreases pieces.len(),
{
    if pieces.len() > 0 {
        let rest = pieces.drop_first();
        lemma_first_mdns_name(rest);
        assert(mdns_piece_name(pieces[0]) == (if mdns_piece_names_host(pieces[0]) {
            Some("mDNS: "@ + mdns_candidate(pieces[0]))
        } else {
            None::<Seq<char>>
        }));
        if !mdns_piece_names_host(pieces[0]) {
            assert forall|k: int|
                0 <= k < pieces.len() && #[trigger] mdns_piece_names_host(pieces[k]) && (forall|m: int|
                    0 <= m < k ==> !mdns_piece_names_host(pieces[m])) implies first_mdns_name(pieces)
                == Some("mDNS: "@ + mdns_candidate(pieces[k])) by {
                assert(k > 0);
                assert(rest[k - 1] == pieces[k]);
                assert(mdns_piece_names_host(rest[k - 1]));
                assert forall|m: int| 0 <= m < k - 1 implies !mdns_piece_names_host(rest[m]) by {
                    assert(rest[m] == pieces[m + 1]);
                }
            }
            if forall|k: int| 0 <= k < pieces.len() ==> !#[trigger] mdns_piece_names_host(pieces[k]) {
                assert forall|k: int| 0 <= k < rest.len() implies !#[trigger] mdns_piece_names_host(
                    rest[k],
                ) by {
                    assert(rest[k] == pieces[k + 1]);
                }
            }
        }
    }
}

/// Law: an mDNS reply gives the name of its first NUL-separated piece (of
/// the text after the 12-byte header) that names a host in the sense of
/// `mdns_piece_names_host`: a piece mentioning `.local` qualifies whether
/// or not it also mentions `._tcp`. When no piece names a host, or the reply
/// is no longer than its header, there is no name.
pub proof fn law_mdns_first_host_piece(b: Seq<u8>)
    ensures
        b.len() <= 12 ==> mdns_answer(b) is None,
        b.len() > 12 ==> {
            let pieces = split_on(utf8_lossy_text(b.subrange(12, b.len() as int)), '\0');
            &&& (forall|k: int| 0 <= k < pieces.len() ==> !#[trigger] mdns_piece_names_host(pieces[k]))
                ==> mdns_answer(b) is None
            &&& forall|k: int|
                0 <= k < pieces.len() && #[trigger] mdns_piece_names_host(pieces[k]) && (forall|m: int|
                    0 <= m < k ==> !mdns_piece_names_host(pieces[m])) ==> mdns_answer(b) == Some(
                    "mDNS: "@ + mdns_candidate(pieces[k]),
                )
        },
{
    if b.len() > 12 {
        lemma_first_mdns_name(split_on(utf8_lossy_text(b.subrange(12, b.len() as int)), '\0'));
    }
}

} // verus!
