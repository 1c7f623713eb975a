//! Choosing how to ask a port for its banner, and reading a first line.
use crate::text::{
    chars_to_string, lines_of, seqs_of, take_at_most, take_chars, text_lines, trim, trim_chars,
    utf8_lossy, utf8_lossy_text,
};
use vstd::prelude::*;

verus! {

/// How a port's banner is read.
#[derive(Clone, Copy, Debug, PartialEq, Eq, Structural)]
pub enum BannerProbe {
    /// A TLS handshake, reporting the server certificate's subject.
    Tls,
    /// An HTTP `HEAD` request, reporting the `Server` header.
    Http,
    /// Waiting for the service to speak first, reporting its first line.
    Passive,
}

/// The probe for a port: TLS on 443 and 8443, HTTP on 80, 8080 and 8000,
/// and passive reading elsewhere.
pub open spec fn banner_probe_spec(port: u16) -> BannerProbe {
    if port == 443 || port == 8443 {
        BannerProbe::Tls
    } else if port == 80 || port == 8080 || port == 8000 {
        BannerProbe::Http
    } else {
        BannerProbe::Passive
    }
}

/// Chooses how to read the banner of `port`.
pub fn banner_probe_for_port(port: u16) -> (r: BannerProbe)
    ensures
        r == banner_probe_spec(port),
{
    if port == 443 || port == 8443 {
        BannerProbe::Tls
    } else if port == 80 || port == 8080 || port == 8000 {
        BannerProbe::Http
    } else {
        BannerProbe::Passive
    }
}

/// The first line of a text, trimmed and cut to 60 characters, when it is
/// not empty.
pub open spec fn first_line_banner(text: Seq<char>) -> Option<Seq<char>> {
    let ls = text_lines(text);
    let first = if ls.len() > 0 {
        trim(ls[0])
    } else {
        Seq::<char>::empty()
    };
    if first.len() > 0 {
        Some(take_at_most(first, 60))
    } else {
        None
    }
}

/// The banner a service sends unprompted: the first line of what it sent
/// (decoded as `from_utf8_lossy` decodes), when it sent anything.
pub open spec fn passive_banner(b: Seq<u8>) -> Option<Seq<char>> {
    if b.len() == 0 {
        None
    } else {
        first_line_banner(utf8_lossy_text(b))
    }
}

pub fn first_line_of(text: &Vec<char>) -> (r: Option<Vec<char>>)
    ensures
        match r {
            Some(s) => first_line_banner(text@) == Some(s@),
            None => first_line_banner(text@) is None,
        },
{
    let ls = lines_of(text);
    let first = if ls.len() > 0 {
        assert(ls[0]@ == seqs_of(ls@)[0]);
        trim_chars(&ls[0])
    } else {
        Vec::new()
    };
    assert(ls.len() == 0 ==> first@ =~= Seq::<char>::empty());
    if first.len() > 0 {
        Some(take_chars(&first, 60))
    } else {
        None
    }
}

/// Reads the banner from the bytes a service sent first.
pub fn parse_passive_banner(resp: &[u8]) -> (r: Option<String>)
    ensures
        match r {
            Some(s) => passive_banner(resp@) == Some(s@),
            None => passive_banner(resp@) is None,
        },
{
    if resp.len() == 0 {
        return None;
    }
    let raw = utf8_lossy(resp);
    match first_line_of(&raw) {
        Some(s) => Some(chars_to_string(&s)),
        None => None,
    }
}

} // verus!
