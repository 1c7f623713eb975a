//! The summary of a server certificate: its subject's common name and
//! organization.
use crate::text::{chars_to_string, push_str, str_to_chars};
use vstd::prelude::*;

verus! {

/// One attribute of a certificate subject: the DER content bytes of its
/// type's OID, and its value as text when the value is a string.
pub struct SubjectAttribute {
    pub oid: Vec<u8>,
    pub text: Option<String>,
}

/// The plain value of an attribute.
pub open spec fn attribute_view(a: SubjectAttribute) -> (Seq<u8>, Option<Seq<char>>) {
    (
        a.oid@,
        match a.text {
            Some(s) => Some(s@),
            None => None,
        },
    )
}

/// The plain value of a subject: its relative distinguished names in order,
/// each the list of its attributes.
pub open spec fn subject_view(rdns: Seq<Vec<SubjectAttribute>>) -> Seq<
    Seq<(Seq<u8>, Option<Seq<char>>)>,
> {
    Seq::new(rdns.len(), |i: int| Seq::new(rdns[i]@.len(), |j: int| attribute_view(rdns[i]@[j])))
}

/// The subject of the certificate that `der` encodes, as x509-parser's
/// `parse_x509_certificate` reads it; `None` when it does not parse.
pub uninterp spec fn x509_subject(der: Seq<u8>) -> Option<Seq<Seq<(Seq<u8>, Option<Seq<char>>)>>>;

/// Parses a DER certificate and returns its subject as plain values.
/// Trusted: calls x509-parser's `parse_x509_certificate`; for each attribute
/// of each RDN of `subject()` in order, keeps `attr_type().as_bytes()` and
/// `as_str().ok()`. The contract names the result `x509_subject` of the
/// bytes; what the parser accepts is left unstated.
#[verifier::external_body]
fn parse_certificate_subject(der: &[u8]) -> (r: Option<Vec<Vec<SubjectAttribute>>>)
    ensures
        match r {
            Some(rdns) => x509_subject(der@) == Some(subject_view(rdns@)),
            None => x509_subject(der@) is None,
        },
{
    let (_, cert) = x509_parser::parse_x509_certificate(der).ok()?;
    Some(cert.subject().iter().map(|rdn| rdn.iter().map(|attr| SubjectAttribute {
        oid: attr.attr_type().as_bytes().to_vec(),
        text: attr.as_str().ok().map(|s| s.to_string()),
    }).collect()).collect())
}

/// DER content of the OID 2.5.4.3, commonName.
pub open spec fn common_name_oid_bytes() -> Seq<u8> {
    seq![0x55u8, 0x04, 0x03]
}

/// DER content of the OID 2.5.4.10, organizationName.
pub open spec fn organization_oid_bytes() -> Seq<u8> {
    seq![0x55u8, 0x04, 0x0a]
}

/// Trusted: `oid_registry::OID_X509_COMMON_NAME` is 2.5.4.3 (generated from
/// the crate's `assets/oid_db.txt`); its content bytes are `55 04 03`.
#[verifier::external_body]
fn common_name_oid() -> (r: Vec<u8>)
    ensures
        r@ == common_name_oid_bytes(),
{
    oid_registry::OID_X509_COMMON_NAME.as_bytes().to_vec()
}

/// Trusted: `oid_registry::OID_X509_ORGANIZATION_NAME` is 2.5.4.10; its
/// content bytes are `55 04 0a`.
#[verifier::external_body]
fn organization_oid() -> (r: Vec<u8>)
    ensures
        r@ == organization_oid_bytes(),
{
    oid_registry::OID_X509_ORGANIZATION_NAME.as_bytes().to_vec()
}

/// The value kept after seeing `attr`: its text when it has the wanted
/// type and a text, the earlier value otherwise.
pub open spec fn keep_value(
    prev: Option<Seq<char>>,
    attr: (Seq<u8>, Option<Seq<char>>),
    oid: Seq<u8>,
) -> Option<Seq<char>> {
    if attr.0 == oid && attr.1 is Some {
        attr.1
    } else {
        prev
    }
}

/// The value kept after the attributes of one RDN.
pub open spec fn last_value(
    prev: Option<Seq<char>>,
    attrs: Seq<(Seq<u8>, Option<Seq<char>>)>,
    oid: Seq<u8>,
) -> Option<Seq<char>>
    decreases attrs.len(),
{
    if attrs.len() == 0 {
        prev
    } else {
        keep_value(last_value(prev, attrs.drop_last(), oid), attrs.last(), oid)
    }
}

/// The text of the last attribute of type `oid` in the whole subject.
pub open spec fn subject_value(rdns: Seq<Seq<(Seq<u8>, Option<Seq<char>>)>>, oid: Seq<u8>) -> Option<
    Seq<char>,
>
    decreases rdns.len(),
{
    if rdns.len() == 0 {
        None
    } else {
        last_value(subject_value(rdns.drop_last(), oid), rdns.last(), oid)
    }
}

/// The summary line for a subject's common name and organization.
pub open spec fn certificate_line(cn: Option<Seq<char>>, org: Option<Seq<char>>) -> Seq<char> {
    match (cn, org) {
        (Some(c), Some(o)) => "SSL: CN="@ + c + ", O="@ + o,
        (Some(c), None) => "SSL: CN="@ + c,
        (None, Some(o)) => "SSL: O="@ + o,
        (None, None) => "SSL: Certificado detectado"@,
    }
}

/// The summary of the certificate `der` encodes, when it parses.
pub open spec fn certificate_summary(der: Seq<u8>) -> Option<Seq<char>> {
    match x509_subject(der) {
        Some(rdns) => Some(
            certificate_line(
                subject_value(rdns, common_name_oid_bytes()),
                subject_value(rdns, organization_oid_bytes()),
            ),
        ),
        None => None,
    }
}

fn bytes_equal(a: &Vec<u8>, b: &Vec<u8>) -> (r: bool)
    ensures
        r == (a@ == b@),
{
    if a.len() != b.len() {
        return false;
    }
    let mut i: usize = 0;
    while i < a.len()
        invariant
            i <= a.len() == b.len(),
            forall|k: int| 0 <= k < i ==> a@[k] == b@[k],
        decreases a.len() - i,
    {
        if a[i] != b[i] {
            return false;
        }
        i += 1;
    }
    assert(a@ =~= b@);
    true
}

fn copy_text(s: &Option<String>) -> (r: Option<String>)
    ensures
        match (r, *s) {
            (Some(a), Some(b)) => a@ == b@,
            (None, None) => true,
            _ => false,
        },
{
    match s {
        Some(t) => Some(t.clone()),
        None => None,
    }
}

/// Summarizes a DER certificate: `SSL: CN=<cn>, O=<org>` with the parts the
/// subject has, the last value of each type winning; `None` when the
/// certificate does not parse.
pub fn describe_certificate(der: &[u8]) -> (r: Option<String>)
    ensures
        match r {
            Some(s) => certificate_summary(der@) == Some(s@),
            None => certificate_summary(der@) is None,
        },
{
    let rdns = match parse_certificate_subject(der) {
        Some(v) => v,
        None => return None,
    };
    let cn_oid = common_name_oid();
    let org_oid = organization_oid();
    let ghost sv = subject_view(rdns@);
    let mut cn: Option<String> = None;
    let mut org: Option<String> = None;
    let mut i: usize = 0;
    assert(sv.take(0) =~= Seq::<Seq<(Seq<u8>, Option<Seq<char>>)>>::empty());
    while i < rdns.len()
        invariant
            i <= rdns.len(),
            sv == subject_view(rdns@),
            cn_oid@ == common_name_oid_bytes(),
            org_oid@ == organization_oid_bytes(),
            (match cn {
                Some(c) => Some(c@),
                None => None,
            }) == subject_value(sv.take(i as int), common_name_oid_bytes()),
            (match org {
                Some(o) => Some(o@),
                None => None,
            }) == subject_value(sv.take(i as int), organization_oid_bytes()),
        decreases rdns.len() - i,
    {
        let rdn = &rdns[i];
        let ghost av = sv[i as int];
        assert(sv.take(i + 1).drop_last() =~= sv.take(i as int));
        assert(sv.take(i + 1).last() == av);
        let ghost cn0 = subject_value(sv.take(i as int), common_name_oid_bytes());
        let ghost org0 = subject_value(sv.take(i as int), organization_oid_bytes());
        let mut j: usize = 0;
        assert(av.take(0) =~= Seq::<(Seq<u8>, Option<Seq<char>>)>::empty());
        while j < rdn.len()
            invariant
                j <= rdn.len(),
                rdn == &rdns[i as int],
                i < rdns.len(),
                sv == subject_view(rdns@),
                av == sv[i as int],
                av.len() == rdn@.len(),
                cn_oid@ == common_name_oid_bytes(),
                org_oid@ == organization_oid_bytes(),
                (match cn {
                    Some(c) => Some(c@),
                    None => None,
                }) == last_value(cn0, av.take(j as int), common_name_oid_bytes()),
                (match org {
                    Some(o) => Some(o@),
                    None => None,
                }) == last_value(org0, av.take(j as int), organization_oid_bytes()),
            decreases rdn.len() - j,
        {
            let attr = &rdn[j];
            assert(av[j as int] == attribute_view(*attr));
            assert(av.take(j + 1).drop_last() =~= av.take(j as int));
            assert(av.take(j + 1).last() == av[j as int]);
            if bytes_equal(&attr.oid, &cn_oid) {
                if attr.text.is_some() {
                    cn = copy_text(&attr.text);
                }
            } else if bytes_equal(&attr.oid, &org_oid) {
                if attr.text.is_some() {
                    org = copy_text(&attr.text);
                }
            }
            assert(common_name_oid_bytes() != organization_oid_bytes()) by {
                assert(common_name_oid_bytes()[2] != organization_oid_bytes()[2]);
            }
            j += 1;
        }
        assert(av.take(j as int) =~= av);
        i += 1;
    }
    assert(sv.take(i as int) =~= sv);
    let mut line = str_to_chars("SSL: ");
    match (&cn, &org) {
        (Some(c), Some(o)) => {
            push_str(&mut line, "CN=");
            push_str(&mut line, c.as_str());
            push_str(&mut line, ", O=");
            push_str(&mut line, o.as_str());
        },
        (Some(c), None) => {
            push_str(&mut line, "CN=");
            push_str(&mut line, c.as_str());
        },
        (None, Some(o)) => {
            push_str(&mut line, "O=");
            push_str(&mut line, o.as_str());
        },
        (None, None) => {
            push_str(&mut line, "Certificado detectado");
        },
    }
    proof {
        reveal_strlit("SSL: ");
        reveal_strlit("CN=");
        reveal_strlit(", O=");
        reveal_strlit("O=");
        reveal_strlit("Certificado detectado");
        reveal_strlit("SSL: CN=");
        reveal_strlit("SSL: O=");
        reveal_strlit("SSL: Certificado detectado");
    }
    assert(line@ =~= certificate_line(
        subject_value(sv, common_name_oid_bytes()),
        subject_value(sv, organization_oid_bytes()),
    ));
    Some(chars_to_string(&line))
}

} // verus!
