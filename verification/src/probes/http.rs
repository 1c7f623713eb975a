//! HTTP banners: the `HEAD` request and the reading of the reply.
use crate::net::{ipv4_text, Ipv4};
use crate::probes::banner::{first_line_banner, first_line_of};
use crate::text::{
    chars_start_with_ignore_ascii_case, chars_to_string, lines_of, push_str, seqs_of,
    starts_with_ignore_ascii_case, text_lines, trim, trim_chars, utf8_lossy, utf8_lossy_text,
};
use vstd::prelude::*;

verus! {

/// The `HEAD /` request sent to a web server at `ip`.
pub open spec fn head_request_text(ip: u32) -> Seq<char> {
    "HEAD / HTTP/1.1\r\nHost: "@ + ipv4_text(ip)
        + "\r\nUser-Agent: NetScanner/1.0\r\nConnection: close\r\n\r\n"@
}

/// Builds the `HEAD /` request for the server at `ip`.
pub fn http_head_request(ip: Ipv4) -> (s: String)
    ensures
        s@ == head_request_text(ip.addr),
{
    let mut v: Vec<char> = Vec::new();
    push_str(&mut v, "HEAD / HTTP/1.1\r\nHost: ");
    ip.push_text(&mut v);
    push_str(&mut v, "\r\nUser-Agent: NetScanner/1.0\r\nConnection: close\r\n\r\n");
    assert(v@ =~= head_request_text(ip.addr));
    chars_to_string(&v)
}

/// The first line that begins with `server:` in any case (the test that
/// `to_lowercase().starts_with("server:")` makes, since only `S`, `E`,
/// `R`, `V` lower to those letters), trimmed.
pub open spec fn first_server_line(lines: Seq<Seq<char>>) -> Option<Seq<char>>
    decreases lines.len(),
{
    if lines.len() == 0 {
        None
    } else if starts_with_ignore_ascii_case(lines[0], "server:"@) {
        Some(trim(lines[0]))
    } else {
        first_server_line(lines.drop_first())
    }
}

/// The banner of a web server's reply: its `Server:` line, or else its
/// first line cut to 60 characters; nothing for an empty reply.
pub open spec fn http_banner(b: Seq<u8>) -> Option<Seq<char>> {
    if b.len() == 0 {
        None
    } else {
        let text = utf8_lossy_text(b);
        match first_server_line(text_lines(text)) {
            Some(l) => Some(l),
            None => first_line_banner(text),
        }
    }
}

/// Reads the banner from a web server's reply.
pub fn parse_http_banner(resp: &[u8]) -> (r: Option<String>)
    ensures
        match r {
            Some(s) => http_banner(resp@) == Some(s@),
            None => http_banner(resp@) is None,
        },
{
    if resp.len() == 0 {
        return None;
    }
    let raw = utf8_lossy(resp);
    let lines = lines_of(&raw);
    let ghost ls = seqs_of(lines@);
    let mut i: usize = 0;
    assert(ls.skip(0) =~= ls);
    while i < lines.len()
        invariant
            i <= lines.len(),
            ls == seqs_of(lines@),
            ls == text_lines(raw@),
            raw@ == utf8_lossy_text(resp@),
            resp@.len() > 0,
            first_server_line(ls.skip(i as int)) == first_server_line(ls),
        decreases lines.len() - i,
    {
        assert(lines[i as int]@ == ls[i as int]);
        assert(ls.skip(i as int)[0] == ls[i as int]);
        assert(ls.skip(i as int).drop_first() =~= ls.skip(i + 1));
        if chars_start_with_ignore_ascii_case(&lines[i], "server:") {
            let t = trim_chars(&lines[i]);
            return Some(chars_to_string(&t));
        }
        i += 1;
    }
    assert(ls.skip(i as int) =~= Seq::<Seq<char>>::empty());
    match first_line_of(&raw) {
        Some(s) => Some(chars_to_string(&s)),
        None => None,
    }
}

} // verus!
