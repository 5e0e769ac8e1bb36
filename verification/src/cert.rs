use vstd::prelude::*;

use crate::errors::CertificateParseError;
use x509_parser::certificate::X509Certificate;
use x509_parser::der_parser::asn1_rs::FromDer;
use x509_parser::extensions::GeneralName;

verus! {

/// One X.509 certificate, held as its complete DER encoding.
pub struct Certificate {
    pub der: Vec<u8>,
}

impl View for Certificate {
    type V = Seq<u8>;

    open spec fn view(&self) -> Seq<u8> {
        self.der@
    }
}

impl Certificate {
    pub fn new(der: Vec<u8>) -> (r: Certificate)
        ensures
            r@ == der@,
    {
        Certificate { der }
    }
}

/// The views of a sequence of certificates: each one's DER bytes.
pub open spec fn chain_views(chain: Seq<Certificate>) -> Seq<Seq<u8>> {
    chain.map_values(|c: Certificate| c@)
}

/// One (attribute type, attribute value) pair of a distinguished name, in the
/// order the name lists them. The type is the DER content of its OID; the
/// value is present where the attribute is a character string.
pub struct NameAttr {
    pub attr_type: Vec<u8>,
    pub value: Option<String>,
}

pub ghost struct NameAttrView {
    pub attr_type: Seq<u8>,
    pub value: Option<Seq<char>>,
}

impl View for NameAttr {
    type V = NameAttrView;

    open spec fn view(&self) -> NameAttrView {
        NameAttrView {
            attr_type: self.attr_type@,
            value: match self.value {
                Some(s) => Some(s@),
                None => None,
            },
        }
    }
}

/// The views of a sequence of name attributes.
pub open spec fn attr_views(attrs: Seq<NameAttr>) -> Seq<NameAttrView> {
    attrs.map_values(|a: NameAttr| a@)
}

/// Whether the bytes are one complete DER-encoded X.509 certificate.
pub uninterp spec fn x509_parses(der: Seq<u8>) -> bool;

/// The (type, value) attribute pairs of the certificate's issuer name.
pub uninterp spec fn cert_issuer_attrs(der: Seq<u8>) -> Seq<NameAttrView>;

/// The (type, value) attribute pairs of the certificate's subject name.
pub uninterp spec fn cert_subject_attrs(der: Seq<u8>) -> Seq<NameAttrView>;

/// The raw DER of the certificate's subject public key info.
pub uninterp spec fn cert_public_key(der: Seq<u8>) -> Seq<u8>;

/// The start of the certificate's validity window, in seconds since the epoch.
pub uninterp spec fn cert_not_before(der: Seq<u8>) -> int;

/// The end of the certificate's validity window, in seconds since the epoch.
pub uninterp spec fn cert_not_after(der: Seq<u8>) -> int;

/// The DNS names of the certificate's subject alternative name extension.
pub uninterp spec fn cert_dns_names(der: Seq<u8>) -> Seq<Seq<char>>;

/// Whether `cert`'s signature verifies under the public key of `issuer`.
pub uninterp spec fn sig_ok(cert: Seq<u8>, issuer: Seq<u8>) -> bool;

/// Relies on x509_parser's `X509Certificate::from_der`: the bytes parse as
/// X.509 exactly when `from_der` succeeds with no bytes left over.
#[verifier::external_body]
pub(crate) fn parse_ok(der: &[u8]) -> (r: bool)
    ensures
        r == x509_parses(der@),
{
    match X509Certificate::from_der(der) {
        Ok((rem, _)) => rem.is_empty(),
        Err(_) => false,
    }
}

/// Relies on `X509Certificate::from_der` and `X509Name::iter_attributes`: the
/// issuer name's attributes in order, each as its OID content bytes and its
/// value where `as_str` can read one.
#[verifier::external_body]
pub(crate) fn issuer_attrs(der: &[u8]) -> (r: Vec<NameAttr>)
    requires
        x509_parses(der@),
    ensures
        attr_views(r@) == cert_issuer_attrs(der@),
{
    let (_, cert) = X509Certificate::from_der(der).unwrap();
    cert.issuer().iter_attributes().map(|a| NameAttr {
        attr_type: a.attr_type().as_bytes().to_vec(),
        value: a.as_str().ok().map(|s| s.to_string()),
    }).collect()
}

/// Relies on `X509Certificate::from_der` and `X509Name::iter_attributes`, as
/// `issuer_attrs` does, for the subject name.
#[verifier::external_body]
pub(crate) fn subject_attrs(der: &[u8]) -> (r: Vec<NameAttr>)
    requires
        x509_parses(der@),
    ensures
        attr_views(r@) == cert_subject_attrs(der@),
{
    let (_, cert) = X509Certificate::from_der(der).unwrap();
    cert.subject().iter_attributes().map(|a| NameAttr {
        attr_type: a.attr_type().as_bytes().to_vec(),
        value: a.as_str().ok().map(|s| s.to_string()),
    }).collect()
}

/// Relies on `X509Certificate::from_der` and `TbsCertificate::public_key`:
/// the raw subject public key info bytes.
#[verifier::external_body]
pub(crate) fn public_key_der(der: &[u8]) -> (r: Vec<u8>)
    requires
        x509_parses(der@),
    ensures
        r@ == cert_public_key(der@),
{
    let (_, cert) = X509Certificate::from_der(der).unwrap();
    cert.public_key().raw.to_vec()
}

/// Relies on `X509Certificate::from_der` and `ASN1Time::timestamp`: the
/// validity window bounds as epoch seconds.
#[verifier::external_body]
pub(crate) fn validity_range(der: &[u8]) -> (r: (i64, i64))
    requires
        x509_parses(der@),
    ensures
        r.0 == cert_not_before(der@),
        r.1 == cert_not_after(der@),
{
    let (_, cert) = X509Certificate::from_der(der).unwrap();
    (cert.validity().not_before.timestamp(), cert.validity().not_after.timestamp())
}

/// Relies on `X509Certificate::from_der` and
/// `TbsCertificate::subject_alternative_name`: the DNS entries of the subject
/// alternative name extension, in order; empty if the extension is absent or
/// unreadable.
#[verifier::external_body]
pub(crate) fn dns_names(der: &[u8]) -> (r: Vec<String>)
    requires
        x509_parses(der@),
    ensures
        r@.map_values(|s: String| s@) == cert_dns_names(der@),
{
    let (_, cert) = X509Certificate::from_der(der).unwrap();
    let mut v: Vec<String> = Vec::new();
    if let Ok(Some(san)) = cert.subject_alternative_name() {
        for gn in &san.value.general_names {
            if let GeneralName::DNSName(d) = gn {
                v.push(d.to_string());
            }
        }
    }
    v
}

/// Relies on `X509Certificate::from_der` and
/// `X509Certificate::verify_signature` (feature "verify"): true exactly when
/// both buffers parse and `cert`'s signature verifies under `issuer`'s public
/// key. The result depends on the two byte buffers alone.
#[verifier::external_body]
pub(crate) fn signature_checks(cert: &[u8], issuer: &[u8]) -> (r: bool)
    ensures
        r == sig_ok(cert@, issuer@),
{
    match (X509Certificate::from_der(cert), X509Certificate::from_der(issuer)) {
        (Ok((_, c)), Ok((_, i))) => c.verify_signature(Some(i.public_key())).is_ok(),
        _ => false,
    }
}

/// The DER content bytes of the Common Name attribute OID.
pub open spec fn cn_oid() -> Seq<u8> {
    seq![0x55u8, 0x04u8, 0x03u8]
}

/// The value of the first Common Name attribute of a distinguished name:
/// absent if the name holds no CN, or if its first CN is not a character
/// string.
pub open spec fn first_cn(attrs: Seq<NameAttrView>) -> Option<Seq<char>>
    decreases attrs.len(),
{
    if attrs.len() == 0 {
        None
    } else if attrs[0].attr_type == cn_oid() {
        attrs[0].value
    } else {
        first_cn(attrs.skip(1))
    }
}

/// Whether an attribute type is the Common Name OID.
fn is_cn_oid(t: &Vec<u8>) -> (r: bool)
    ensures
        r == (t@ == cn_oid()),
{
    if t.len() == 3 {
        let r = t[0] == 0x55 && t[1] == 0x04 && t[2] == 0x03;
        proof {
            if r {
                assert(t@ =~= cn_oid());
            }
        }
        r
    } else {
        false
    }
}

/// The first Common Name of a distinguished name, as a lookup over its
/// ordered (type, value) pairs.
pub fn first_common_name(attrs: &Vec<NameAttr>) -> (r: Option<String>)
    ensures
        (match r {
            Some(s) => first_cn(attr_views(attrs@)) == Some(s@),
            None => first_cn(attr_views(attrs@)) is None,
        }),
{
    let ghost all = attr_views(attrs@);
    proof {
        assert(all.skip(0) =~= all);
    }
    let mut i: usize = 0;
    while i < attrs.len()
        invariant
            i <= attrs@.len(),
            all == attr_views(attrs@),
            first_cn(all) == first_cn(all.skip(i as int)),
        decreases attrs@.len() - i,
    {
        if is_cn_oid(&attrs[i].attr_type) {
            proof {
                assert(all.skip(i as int)[0] == attrs@[i as int]@);
            }
            return match &attrs[i].value {
                Some(s) => Some(s.clone()),
                None => None,
            };
        }
        proof {
            assert(all.skip(i as int)[0] == attrs@[i as int]@);
            assert(all.skip(i as int).skip(1) =~= all.skip(i as int + 1));
        }
        i = i + 1;
    }
    proof {
        assert(all.skip(attrs@.len() as int).len() == 0);
    }
    None
}

/// The identity attributes derived from an authenticated peer's leaf
/// certificate: the issuer name's first Common Name, the raw subject public
/// key, and the issuer name itself.
pub struct PeerIdentity {
    pub common_name: Option<String>,
    pub public_key: Vec<u8>,
    pub issuer: Vec<NameAttr>,
}

/// What a correctly extracted identity holds for a leaf certificate.
pub open spec fn identity_of(id: PeerIdentity, der: Seq<u8>) -> bool {
    &&& (match id.common_name {
        Some(s) => first_cn(cert_issuer_attrs(der)) == Some(s@),
        None => first_cn(cert_issuer_attrs(der)) is None,
    })
    &&& id.public_key@ == cert_public_key(der)
    &&& attr_views(id.issuer@) == cert_issuer_attrs(der)
}

/// Decode the identity attributes of one leaf certificate. Fails exactly when
/// the bytes cannot be decoded as X.509, which for a chain that already
/// passed transport validation is a defensive signal, never ignored.
pub fn extract_from_leaf(leaf: &Certificate) -> (r: Result<PeerIdentity, CertificateParseError>)
    ensures
        (r is Ok) == x509_parses(leaf@),
        (match r {
            Ok(id) => identity_of(id, leaf@),
            Err(_) => true,
        }),
{
    if !parse_ok(leaf.der.as_slice()) {
        return Err(CertificateParseError);
    }
    let issuer = issuer_attrs(leaf.der.as_slice());
    let common_name = first_common_name(&issuer);
    let public_key = public_key_der(leaf.der.as_slice());
    Ok(PeerIdentity { common_name, public_key, issuer })
}

} // verus!
