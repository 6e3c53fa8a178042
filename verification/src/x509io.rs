//! Trusted bindings to the X.509 toolchain: key generation and certificate
//! issuance (rcgen), and certificate parsing (x509-parser).
//!
//! Certificate bytes are not a pure function of the issuance inputs (ECDSA
//! signatures and serial numbers are randomized), so the contracts here speak
//! of what a parser recovers from whatever certificate comes back: its
//! subject public key info and its extension list.

use vstd::prelude::*;

use rcgen::{CertificateParams, CustomExtension, DistinguishedName, DnType,
    ExtendedKeyUsagePurpose, Issuer, KeyPair, PublicKeyData};

use crate::cert::{CertBundle, KeyPurpose};

verus! {

/// What an X.509 parser recovers from a DER certificate: the subject public
/// key info bytes and the extension list (OID arcs, extension value bytes),
/// in order; `None` when the bytes are not a well-formed certificate. This is
/// the result of x509_parser::parse_x509_certificate, a function of the bytes
/// alone.
pub uninterp spec fn parsed_cert(der: Seq<u8>) -> Option<(Seq<u8>, Seq<(Seq<u64>, Seq<u8>)>)>;

/// The subject public key info (DER) determined by a PKCS#8 key document, as
/// rcgen::KeyPair::subject_public_key_info computes it from the key alone.
pub uninterp spec fn spki_of_key(pkcs8: Seq<u8>) -> Seq<u8>;

/// Whether a PEM certificate / PEM key pair loads as CA signing material, as
/// rcgen::Issuer::from_ca_cert_pem and rcgen::KeyPair::from_pem decide it;
/// a function of the two texts alone.
pub uninterp spec fn ca_material_ok(cert_pem: Seq<char>, key_pem: Seq<char>) -> bool;

/// The first extension carrying the given OID, if any.
pub open spec fn ext_lookup(exts: Seq<(Seq<u64>, Seq<u8>)>, oid: Seq<u64>) -> Option<Seq<u8>>
    decreases exts.len(),
{
    if exts.len() == 0 {
        None
    } else if exts[0].0 == oid {
        Some(exts[0].1)
    } else {
        ext_lookup(exts.drop_first(), oid)
    }
}

/// An OID under the private-enterprise arc 1.3.6.1.4.1. Standard certificate
/// extensions never live there, so an issuer that writes such extensions
/// can promise where a parser finds them again.
pub open spec fn oid_is_private(oid: Seq<u64>) -> bool {
    &&& oid.len() >= 7
    &&& oid[0] == 1
    &&& oid[1] == 3
    &&& oid[2] == 6
    &&& oid[3] == 1
    &&& oid[4] == 4
    &&& oid[5] == 1
}

/// Relies on rcgen::KeyPair::generate (ECDSA P-256) and serialize_der: a
/// fresh key as a PKCS#8 document. The key is random; nothing relates two
/// calls.
#[verifier::external_body]
pub fn gen_key_pkcs8() -> (r: Option<Vec<u8>>)
    ensures
        r matches Some(k) ==> k@.len() > 0,
{
    let key = rcgen::KeyPair::generate().ok()?;
    Some(key.serialize_der())
}

/// Relies on rcgen::KeyPair::subject_public_key_info: the SPKI is a function
/// of the key document alone; `None` exactly when the bytes do not load as a
/// key pair.
#[verifier::external_body]
pub fn key_spki(pkcs8: &Vec<u8>) -> (r: Option<Vec<u8>>)
    ensures
        r matches Some(s) ==> s@ == spki_of_key(pkcs8@),
{
    let key = rcgen::KeyPair::try_from(pkcs8.as_slice()).ok()?;
    Some(key.subject_public_key_info())
}

/// Relies on rcgen::KeyPair::serialize_pem: the PEM form of a key document,
/// for handing an identity to a TLS stack.
#[verifier::external_body]
pub fn key_pem(pkcs8: &Vec<u8>) -> (r: Option<String>)
{
    let key = rcgen::KeyPair::try_from(pkcs8.as_slice()).ok()?;
    Some(key.serialize_pem())
}

/// Relies on rcgen::KeyPair::from_pem and rcgen::Issuer::from_ca_cert_pem:
/// whether the CA material loads is a function of the two texts alone.
#[verifier::external_body]
pub fn check_ca(cert_pem: &str, key_pem: &str) -> (r: bool)
    ensures
        r == ca_material_ok(cert_pem@, key_pem@),
{
    let Ok(key) = rcgen::KeyPair::from_pem(key_pem) else {
        return false;
    };
    rcgen::Issuer::from_ca_cert_pem(cert_pem, key).is_ok()
}

/// Relies on rcgen::CertificateParams::signed_by (and the loaders above): the
/// issued certificate carries the subject key's SPKI and each requested
/// custom extension, as an X.509 parser recovers them. rcgen itself writes
/// only standard extensions, so a requested private-arc OID is found exactly
/// once.
#[verifier::external_body]
pub fn issue_cert(
    pkcs8: &Vec<u8>,
    ca_cert_pem: &str,
    ca_key_pem: &str,
    subject: &str,
    purposes: &Vec<KeyPurpose>,
    exts: &Vec<(Vec<u64>, Vec<u8>)>,
) -> (r: Option<CertBundle>)
    requires
        forall|i: int| 0 <= i < exts.deep_view().len() ==> oid_is_private(
            #[trigger] exts.deep_view()[i].0,
        ),
        forall|i: int, j: int|
            0 <= i < j < exts.deep_view().len() ==> exts.deep_view()[i].0
                != exts.deep_view()[j].0,
    ensures
        r matches Some(b) ==> {
            &&& parsed_cert(b.der@) matches Some(pc)
            &&& parsed_cert(b.der@)->Some_0.0 == spki_of_key(pkcs8@)
            &&& forall|i: int| 0 <= i < exts.deep_view().len() ==> ext_lookup(
                parsed_cert(b.der@)->Some_0.1,
                #[trigger] exts.deep_view()[i].0,
            ) == Some(exts.deep_view()[i].1)
        },
{
    let issuer = Issuer::from_ca_cert_pem(ca_cert_pem, KeyPair::from_pem(ca_key_pem).ok()?).ok()?;
    let key = KeyPair::try_from(pkcs8.as_slice()).ok()?;
    let mut params = CertificateParams::default();
    params.distinguished_name = DistinguishedName::new();
    params.distinguished_name.push(DnType::CommonName, subject);
    for p in purposes {
        let eku = match p { KeyPurpose::ServerAuth => ExtendedKeyUsagePurpose::ServerAuth, KeyPurpose::ClientAuth => ExtendedKeyUsagePurpose::ClientAuth };
        params.extended_key_usages.push(eku);
    }
    for (oid, content) in exts { params.custom_extensions.push(CustomExtension::from_oid_content(oid, content.clone())); }
    let cert = params.signed_by(&key, &issuer).ok()?;
    Some(CertBundle { der: cert.der().to_vec(), pem: cert.pem() })
}

/// Relies on x509_parser::parse_x509_certificate: recovers the subject
/// public key info bytes and the extension list from a DER certificate;
/// fails exactly on bytes that do not parse as a certificate (an extension
/// OID too large for 64-bit arcs is treated as unparsable).
#[verifier::external_body]
pub fn parse_cert(der: &Vec<u8>) -> (r: Option<(Vec<u8>, Vec<(Vec<u64>, Vec<u8>)>)>)
    ensures
        (r is Some) == (parsed_cert(der@) is Some),
        r matches Some(p) ==> parsed_cert(der@) == Some((p.0@, p.1.deep_view())),
{
    let (_, cert) = x509_parser::parse_x509_certificate(der.as_slice()).ok()?;
    let spki = cert.public_key().raw.to_vec();
    let mut exts: Vec<(Vec<u64>, Vec<u8>)> = Vec::new();
    for ext in cert.extensions() {
        let oid: Vec<u64> = ext.oid.iter()?.collect();
        exts.push((oid, ext.value.to_vec()));
    }
    Some((spki, exts))
}

} // verus!
