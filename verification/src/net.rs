//! IPv4 and Ethernet addresses, their text forms and the dotted-quad parser.
use crate::text::{
    lemma_split_at_sep, lemma_split_no_sep,
    all_digits, chars_to_string, digit_char, decimal, digits_value, is_digit, push_decimal, seqs_of, split_chars,
    split_on,
};
use vstd::prelude::*;

verus! {

/// An IPv4 address, held as its 32-bit big-endian value.
#[derive(Clone, Copy, Debug, PartialEq, Eq, Structural)]
pub struct Ipv4 {
    pub addr: u32,
}

/// The four octets of an address, most significant first.
pub open spec fn ipv4_octets(addr: u32) -> Seq<u8> {
    seq![
        (addr / 0x1000000) as u8,
        ((addr / 0x10000) % 0x100) as u8,
        ((addr / 0x100) % 0x100) as u8,
        (addr % 0x100) as u8,
    ]
}

/// The address whose octets are `a.b.c.d`.
pub open spec fn ipv4_from_octets(a: u8, b: u8, c: u8, d: u8) -> u32 {
    (a * 0x1000000 + b * 0x10000 + c * 0x100 + d) as u32
}

/// Dotted-decimal text of an address, as `Ipv4Addr`'s `Display` writes it.
pub open spec fn ipv4_text(addr: u32) -> Seq<char> {
    let o = ipv4_octets(addr);
    decimal(o[0] as nat) + seq!['.'] + decimal(o[1] as nat) + seq!['.'] + decimal(o[2] as nat)
        + seq!['.'] + decimal(o[3] as nat)
}

pub proof fn lemma_octets_roundtrip(a: u8, b: u8, c: u8, d: u8)
    ensures
        ipv4_octets(ipv4_from_octets(a, b, c, d)) == seq![a, b, c, d],
{
    let x = a * 0x1000000 + b * 0x10000 + c * 0x100 + d;
    assert(x < 0x100000000);
    assert(x / 0x1000000 == a);
    assert(x / 0x10000 == a * 0x100 + b);
    assert((a * 0x100 + b) % 0x100 == b);
    assert(x / 0x100 == a * 0x10000 + b * 0x100 + c);
    assert((a * 0x10000 + b * 0x100 + c) % 0x100 == c);
    assert(x % 0x100 == d);
    assert(ipv4_octets(ipv4_from_octets(a, b, c, d)) =~= seq![a, b, c, d]);
}

/// Two addresses with equal octets are equal.
pub proof fn lemma_octets_injective(x: u32, y: u32)
    requires
        ipv4_octets(x) == ipv4_octets(y),
    ensures
        x == y,
{
    assert(ipv4_octets(x)[0] == ipv4_octets(y)[0]);
    assert(ipv4_octets(x)[1] == ipv4_octets(y)[1]);
    assert(ipv4_octets(x)[2] == ipv4_octets(y)[2]);
    assert(ipv4_octets(x)[3] == ipv4_octets(y)[3]);
    assert(x == (x / 0x1000000) * 0x1000000 + ((x / 0x10000) % 0x100) * 0x10000 + ((x / 0x100)
        % 0x100) * 0x100 + x % 0x100);
    assert(y == (y / 0x1000000) * 0x1000000 + ((y / 0x10000) % 0x100) * 0x10000 + ((y / 0x100)
        % 0x100) * 0x100 + y % 0x100);
}

impl Ipv4 {
    /// The address `a.b.c.d`.
    pub fn new(a: u8, b: u8, c: u8, d: u8) -> (r: Ipv4)
        ensures
            r.addr == ipv4_from_octets(a, b, c, d),
            ipv4_octets(r.addr) == seq![a, b, c, d],
    {
        proof {
            lemma_octets_roundtrip(a, b, c, d);
        }
        Ipv4 { addr: (a as u32) * 0x1000000 + (b as u32) * 0x10000 + (c as u32) * 0x100 + (d as u32) }
    }

    /// The four octets, most significant first.
    pub fn octets(&self) -> (r: [u8; 4])
        ensures
            r@ == ipv4_octets(self.addr),
    {
        let r = [
            (self.addr / 0x1000000) as u8,
            ((self.addr / 0x10000) % 0x100) as u8,
            ((self.addr / 0x100) % 0x100) as u8,
            (self.addr % 0x100) as u8,
        ];
        assert(r@ =~= ipv4_octets(self.addr));
        r
    }

    /// True for 127.0.0.0/8, as `Ipv4Addr::is_loopback`.
    pub fn is_loopback(&self) -> (r: bool)
        ensures
            r == (ipv4_octets(self.addr)[0] == 127),
    {
        self.addr / 0x1000000 == 127
    }

    /// True for 169.254.0.0/16, as `Ipv4Addr::is_link_local`.
    pub fn is_link_local(&self) -> (r: bool)
        ensures
            r == (ipv4_octets(self.addr)[0] == 169 && ipv4_octets(self.addr)[1] == 254),
    {
        self.addr / 0x1000000 == 169 && (self.addr / 0x10000) % 0x100 == 254
    }

    /// Appends the dotted-decimal text of the address.
    pub fn push_text(&self, v: &mut Vec<char>)
        ensures
            final(v)@ == old(v)@ + ipv4_text(self.addr),
    {
        let o = self.octets();
        push_decimal(v, o[0] as u32);
        v.push('.');
        push_decimal(v, o[1] as u32);
        v.push('.');
        push_decimal(v, o[2] as u32);
        v.push('.');
        push_decimal(v, o[3] as u32);
        assert(v@ =~= old(v)@ + ipv4_text(self.addr));
    }

    /// The dotted-decimal text of the address, as `Ipv4Addr::to_string`.
    pub fn to_string(&self) -> (s: String)
        ensures
            s@ == ipv4_text(self.addr),
    {
        let mut v: Vec<char> = Vec::new();
        self.push_text(&mut v);
        assert(v@ =~= ipv4_text(self.addr));
        chars_to_string(&v)
    }
}

/// One field of a dotted quad as `Ipv4Addr`'s parser accepts it: one to
/// three decimal digits, no leading zero unless the field is `0`, and a
/// value of at most 255.
pub open spec fn octet_field(s: Seq<char>) -> bool {
    &&& 1 <= s.len() <= 3
    &&& all_digits(s)
    &&& (s.len() > 1 ==> s[0] != '0')
    &&& digits_value(s) <= 255
}

/// What `Ipv4Addr::from_str` gives for `s`: the address when `s` is four
/// fields accepted by `octet_field` separated by dots, `None` otherwise.
pub open spec fn parse_ipv4_text(s: Seq<char>) -> Option<u32> {
    let f = split_on(s, '.');
    if f.len() == 4 && octet_field(f[0]) && octet_field(f[1]) && octet_field(f[2]) && octet_field(
        f[3],
    ) {
        Some(
            ipv4_from_octets(
                digits_value(f[0]) as u8,
                digits_value(f[1]) as u8,
                digits_value(f[2]) as u8,
                digits_value(f[3]) as u8,
            ),
        )
    } else {
        None
    }
}

fn parse_octet_field(f: &Vec<char>) -> (r: Option<u8>)
    ensures
        match r {
            Some(v) => octet_field(f@) && v as nat == digits_value(f@),
            None => !octet_field(f@),
        },
{
    if f.len() < 1 || f.len() > 3 {
        return None;
    }
    if f.len() > 1 && f[0] == '0' {
        return None;
    }
    let mut acc: u32 = 0;
    let mut i: usize = 0;
    assert(f@.take(0) =~= Seq::<char>::empty());
    while i < f.len()
        invariant
            i <= f.len() <= 3,
            acc as nat == digits_value(f@.take(i as int)),
            i == 0 ==> acc == 0,
            i == 1 ==> acc < 10,
            i == 2 ==> acc < 100,
            i == 3 ==> acc < 1000,
            all_digits(f@.take(i as int)),
        decreases f.len() - i,
    {
        let c = f[i];
        if !('0' <= c && c <= '9') {
            assert(!is_digit(f@[i as int]));
            return None;
        }
        assert(f@.take(i + 1).drop_last() =~= f@.take(i as int));
        acc = acc * 10 + (c as u32 - 48);
        i += 1;
        assert(all_digits(f@.take(i as int))) by {
            assert forall|k: int| 0 <= k < f@.take(i as int).len() implies #[trigger] is_digit(
                f@.take(i as int)[k],
            ) by {
                if k < i - 1 {
                    assert(f@.take(i as int)[k] == f@.take(i - 1)[k]);
                }
            }
        }
    }
    assert(f@.take(i as int) =~= f@);
    if acc > 255 {
        return None;
    }
    Some(acc as u8)
}

/// Parses a dotted quad, as `Ipv4Addr::from_str` does.
pub fn parse_ipv4(s: &Vec<char>) -> (r: Option<Ipv4>)
    ensures
        match r {
            Some(ip) => parse_ipv4_text(s@) == Some(ip.addr),
            None => parse_ipv4_text(s@) is None,
        },
{
    let fields = split_chars(s, '.');
    if fields.len() != 4 {
        return None;
    }
    assert(fields[0]@ == seqs_of(fields@)[0]);
    assert(fields[1]@ == seqs_of(fields@)[1]);
    assert(fields[2]@ == seqs_of(fields@)[2]);
    assert(fields[3]@ == seqs_of(fields@)[3]);
    let a = match parse_octet_field(&fields[0]) {
        Some(v) => v,
        None => return None,
    };
    let b = match parse_octet_field(&fields[1]) {
        Some(v) => v,
        None => return None,
    };
    let c = match parse_octet_field(&fields[2]) {
        Some(v) => v,
        None => return None,
    };
    let d = match parse_octet_field(&fields[3]) {
        Some(v) => v,
        None => return None,
    };
    Some(Ipv4::new(a, b, c, d))
}

/// A 48-bit Ethernet address.
#[derive(Clone, Copy, Debug, PartialEq, Eq, Structural)]
pub struct MacAddr(pub u8, pub u8, pub u8, pub u8, pub u8, pub u8);

/// The six octets of an Ethernet address.
pub open spec fn mac_octets(m: MacAddr) -> Seq<u8> {
    seq![m.0, m.1, m.2, m.3, m.4, m.5]
}

/// A lower-case hexadecimal digit for `d` in 0..=15.
pub open spec fn hex_digit(d: int) -> char {
    if d < 10 {
        (d + 48) as char
    } else {
        (d + 87) as char
    }
}

/// Two lower-case hexadecimal digits for a byte, as `{:02x}` writes it.
pub open spec fn hex_byte(b: u8) -> Seq<char> {
    seq![hex_digit(b as int / 16), hex_digit(b as int % 16)]
}

/// Colon-separated text of an Ethernet address, such as `00:1a:2b:3c:4d:5e`.
pub open spec fn mac_text(m: MacAddr) -> Seq<char> {
    hex_byte(m.0) + seq![':'] + hex_byte(m.1) + seq![':'] + hex_byte(m.2) + seq![':'] + hex_byte(
        m.3,
    ) + seq![':'] + hex_byte(m.4) + seq![':'] + hex_byte(m.5)
}

/// Text of an Ethernet address.
/// Trusted: pnet's `Display` for `MacAddr` writes the six octets with
/// `{:02x}` separated by `:`; the contract states exactly that.
#[verifier::external_body]
fn pnet_mac_text(m: MacAddr) -> (s: String)
    ensures
        s@ == mac_text(m),
{
    pnet::datalink::MacAddr::new(m.0, m.1, m.2, m.3, m.4, m.5).to_string()
}

impl MacAddr {
    /// The all-zero address.
    pub fn zero() -> (r: MacAddr)
        ensures
            mac_octets(r) == seq![0u8, 0u8, 0u8, 0u8, 0u8, 0u8],
    {
        MacAddr(0, 0, 0, 0, 0, 0)
    }

    /// The broadcast address `ff:ff:ff:ff:ff:ff`.
    pub fn broadcast() -> (r: MacAddr)
        ensures
            mac_octets(r) == seq![0xffu8, 0xffu8, 0xffu8, 0xffu8, 0xffu8, 0xffu8],
    {
        MacAddr(0xff, 0xff, 0xff, 0xff, 0xff, 0xff)
    }

    /// The six octets in order.
    pub fn octets(&self) -> (r: [u8; 6])
        ensures
            r@ == mac_octets(*self),
    {
        let r = [self.0, self.1, self.2, self.3, self.4, self.5];
        assert(r@ =~= mac_octets(*self));
        r
    }

    /// The colon-separated hexadecimal text, as pnet's `MacAddr::to_string`.
    pub fn to_string(&self) -> (s: String)
        ensures
            s@ == mac_text(*self),
    {
        pnet_mac_text(*self)
    }
}

proof fn lemma_digit_char(x: int)
    requires
        0 <= x < 10,
    ensures
        digit_char(x) as int == x + 48,
        is_digit(digit_char(x)),
        digit_char(x) != '.',
{
    assert(digit_char(x) as int == x + 48);
}

proof fn lemma_decimal_octet(n: nat)
    requires
        n < 256,
    ensures
        octet_field(decimal(n)),
        digits_value(decimal(n)) == n,
        !decimal(n).contains('.'),
{
    reveal_with_fuel(decimal, 3);
    reveal_with_fuel(digits_value, 4);
    let d = decimal(n);
    lemma_digit_char((n % 10) as int);
    lemma_digit_char(((n / 10) % 10) as int);
    if n >= 100 {
        lemma_digit_char((n / 100) as int);
    }
    if 10 <= n < 100 {
        lemma_digit_char((n / 10) as int);
    }
    if n < 10 {
        assert(d =~= seq![digit_char(n as int)]);
        assert(d.drop_last() =~= Seq::<char>::empty());
    } else if n < 100 {
        assert(d =~= seq![digit_char((n / 10) as int), digit_char((n % 10) as int)]);
        assert(d.drop_last() =~= seq![digit_char((n / 10) as int)]);
        assert(d.drop_last().drop_last() =~= Seq::<char>::empty());
        assert(d[0] as int == (n / 10) + 48);
        assert(d[0] != '0');
    } else {
        assert(d =~= seq![
            digit_char((n / 100) as int),
            digit_char(((n / 10) % 10) as int),
            digit_char((n % 10) as int),
        ]);
        assert(d.drop_last() =~= seq![
            digit_char((n / 100) as int),
            digit_char(((n / 10) % 10) as int),
        ]);
        assert(d.drop_last().drop_last() =~= seq![digit_char((n / 100) as int)]);
        assert(d.drop_last().drop_last().drop_last() =~= Seq::<char>::empty());
        assert(d[0] as int == (n / 100) + 48);
        assert(d[0] != '0');
    }
    assert(all_digits(d));
    if d.contains('.') {
        let k = choose|k: int| 0 <= k < d.len() && d[k] == '.';
        assert(is_digit(d[k]));
    }
}

/// Law: the dotted-decimal text of any address parses back to that
/// address, so the text `to_string` gives is what `parse_ipv4` reads.
pub proof fn law_ipv4_text_parses_back(addr: u32)
    ensures
        parse_ipv4_text(ipv4_text(addr)) == Some(addr),
{
    let o = ipv4_octets(addr);
    let d0 = decimal(o[0] as nat);
    let d1 = decimal(o[1] as nat);
    let d2 = decimal(o[2] as nat);
    let d3 = decimal(o[3] as nat);
    lemma_decimal_octet(o[0] as nat);
    lemma_decimal_octet(o[1] as nat);
    lemma_decimal_octet(o[2] as nat);
    lemma_decimal_octet(o[3] as nat);
    let r3 = d3;
    let r2 = d2 + seq!['.'] + r3;
    let r1 = d1 + seq!['.'] + r2;
    let text = ipv4_text(addr);
    assert(text =~= d0 + seq!['.'] + r1);
    lemma_split_no_sep(d3, '.');
    lemma_split_at_sep(d2, r3, '.');
    lemma_split_at_sep(d1, r2, '.');
    lemma_split_at_sep(d0, r1, '.');
    let f = split_on(text, '.');
    assert(f =~= seq![d0, d1, d2, d3]);
    assert(addr / 0x1000000 < 0x100);
    lemma_octets_roundtrip(o[0], o[1], o[2], o[3]);
    let back = ipv4_from_octets(o[0], o[1], o[2], o[3]);
    lemma_octets_injective(back, addr);
}

} // verus!
