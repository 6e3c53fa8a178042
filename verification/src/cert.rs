//! Evidence-carrying certificates: a fluent request builder, and a CA signer
//! that embeds the quote and the event log as opaque byte-string extensions.
//!
//! The CA material is deliberately not a trust anchor: it is temporary,
//! possibly publicly known, and shared between peers only so that TLS stacks
//! accept the certificates. Trust comes from the embedded evidence alone.

use vstd::prelude::*;

use crate::errors::RaError;
use crate::x509io::{check_ca, ca_material_ok, ext_lookup, gen_key_pkcs8, issue_cert, key_spki,
    oid_is_private, parsed_cert, spki_of_key};

verus! {

/// An extended key usage the signer can assert for a certificate.
#[derive(Clone, Copy, Debug, PartialEq, Eq, Structural)]
pub enum KeyPurpose {
    ServerAuth,
    ClientAuth,
}

/// An issued certificate, as DER bytes and as PEM text.
pub struct CertBundle {
    pub der: Vec<u8>,
    pub pem: String,
}

/// A freshly generated subject key: the PKCS#8 document and the subject
/// public key info it determines.
pub struct RaKey {
    pub pkcs8: Vec<u8>,
    pub spki: Vec<u8>,
}

impl RaKey {
    /// The cached SPKI really is this key's SPKI.
    pub open spec fn wf(&self) -> bool {
        self.spki@ == spki_of_key(self.pkcs8@)
    }

    /// Generates a fresh signing key for a single certificate's lifetime.
    pub fn generate() -> (r: Option<RaKey>)
        ensures
            r matches Some(k) ==> k.wf(),
    {
        let pkcs8 = match gen_key_pkcs8() {
            Some(p) => p,
            None => {
                return None;
            },
        };
        let spki = match key_spki(&pkcs8) {
            Some(s) => s,
            None => {
                return None;
            },
        };
        Some(RaKey { pkcs8, spki })
    }
}

/// The OID arc under which the quote extension is stored.
pub open spec fn quote_oid_spec() -> Seq<u64> {
    seq![1u64, 3u64, 6u64, 1u64, 4u64, 1u64, 58271u64, 1u64]
}

/// The OID arc under which the event-log extension is stored.
pub open spec fn event_log_oid_spec() -> Seq<u64> {
    seq![1u64, 3u64, 6u64, 1u64, 4u64, 1u64, 58271u64, 2u64]
}

/// Builds the quote extension OID.
pub fn quote_oid() -> (r: Vec<u64>)
    ensures
        r@ == quote_oid_spec(),
{
    let mut v: Vec<u64> = Vec::new();
    v.push(1);
    v.push(3);
    v.push(6);
    v.push(1);
    v.push(4);
    v.push(1);
    v.push(58271);
    v.push(1);
    proof {
        assert(v@ =~= quote_oid_spec());
    }
    v
}

/// Builds the event-log extension OID.
pub fn event_log_oid() -> (r: Vec<u64>)
    ensures
        r@ == event_log_oid_spec(),
{
    let mut v: Vec<u64> = Vec::new();
    v.push(1);
    v.push(3);
    v.push(6);
    v.push(1);
    v.push(4);
    v.push(1);
    v.push(58271);
    v.push(2);
    proof {
        assert(v@ =~= event_log_oid_spec());
    }
    v
}

/// A certificate signing request: subject, usage flags, the subject key, and
/// the evidence to embed. Consumed exactly once by signing.
pub struct CertRequest {
    pub subject: String,
    pub usage_server_auth: bool,
    pub usage_client_auth: bool,
    pub quote: Option<Vec<u8>>,
    pub event_log: Option<Vec<u8>>,
    pub key: Option<RaKey>,
}

impl CertRequest {
    /// Starts a request with no usage granted and nothing set: a missing
    /// explicit flag never silently grants client- or server-auth.
    pub fn builder() -> (r: CertRequest)
        ensures
            r.subject@ == Seq::<char>::empty(),
            !r.usage_server_auth,
            !r.usage_client_auth,
            r.quote is None,
            r.event_log is None,
            r.key is None,
    {
        CertRequest {
            subject: String::new(),
            usage_server_auth: false,
            usage_client_auth: false,
            quote: None,
            event_log: None,
            key: None,
        }
    }

    /// Sets the subject common name.
    pub fn subject(self, subject: &str) -> (r: CertRequest)
        ensures
            r == (CertRequest { subject: r.subject, ..self }),
            r.subject@ == subject@,
    {
        let s = subject.to_owned();
        CertRequest { subject: s, ..self }
    }

    /// Grants or withholds server authentication.
    pub fn usage_server_auth(self, usage: bool) -> (r: CertRequest)
        ensures
            r == (CertRequest { usage_server_auth: usage, ..self }),
    {
        CertRequest { usage_server_auth: usage, ..self }
    }

    /// Grants or withholds client authentication.
    pub fn usage_client_auth(self, usage: bool) -> (r: CertRequest)
        ensures
            r == (CertRequest { usage_client_auth: usage, ..self }),
    {
        CertRequest { usage_client_auth: usage, ..self }
    }

    /// Sets the quote to embed.
    pub fn quote(self, quote: &Vec<u8>) -> (r: CertRequest)
        ensures
            r == (CertRequest { quote: r.quote, ..self }),
            r.quote matches Some(q) && q@ == quote@,
    {
        let q = quote.clone();
        proof {
            assert(q@ =~= quote@);
        }
        CertRequest { quote: Some(q), ..self }
    }

    /// Sets the event log to embed.
    pub fn event_log(self, event_log: &Vec<u8>) -> (r: CertRequest)
        ensures
            r == (CertRequest { event_log: r.event_log, ..self }),
            r.event_log matches Some(e) && e@ == event_log@,
    {
        let e = event_log.clone();
        proof {
            assert(e@ =~= event_log@);
        }
        CertRequest { event_log: Some(e), ..self }
    }

    /// Sets the subject key.
    pub fn key(self, key: &RaKey) -> (r: CertRequest)
        requires
            key.wf(),
        ensures
            r == (CertRequest { key: r.key, ..self }),
            r.key matches Some(k) && k.wf() && k.pkcs8@ == key.pkcs8@,
    {
        let pkcs8 = key.pkcs8.clone();
        let spki = key.spki.clone();
        proof {
            assert(pkcs8@ =~= key.pkcs8@);
            assert(spki@ =~= key.spki@);
        }
        CertRequest { key: Some(RaKey { pkcs8, spki }), ..self }
    }

    /// A request can be signed only with a key and a quote present.
    pub open spec fn complete(&self) -> bool {
        self.key is Some && self.quote is Some
    }
}

/// The evidence a DER certificate carries, as a parser recovers it: the
/// subject key, and the two opaque extensions, recovered bit-exact.
pub open spec fn evidence_embedded(
    der: Seq<u8>,
    spki: Seq<u8>,
    quote: Seq<u8>,
    event_log: Seq<u8>,
) -> bool {
    &&& parsed_cert(der) is Some
    &&& parsed_cert(der)->Some_0.0 == spki
    &&& ext_lookup(parsed_cert(der)->Some_0.1, quote_oid_spec()) == Some(quote)
    &&& ext_lookup(parsed_cert(der)->Some_0.1, event_log_oid_spec()) == Some(event_log)
}

/// The event-log bytes a request embeds: an absent log is embedded empty.
pub open spec fn request_event_log(req: CertRequest) -> Seq<u8> {
    match req.event_log {
        Some(e) => e@,
        None => Seq::empty(),
    }
}

/// A CA: a signing keypair and its own certificate, both PEM. Loaded once,
/// never mutated; many requests may be signed with it. It is not a trust
/// anchor — see the module documentation.
pub struct CaCert {
    pub cert_pem: String,
    pub key_pem: String,
}

impl CaCert {
    /// The held material loads as CA signing material.
    pub open spec fn wf(&self) -> bool {
        ca_material_ok(self.cert_pem@, self.key_pem@)
    }

    /// Loads CA material, rejecting text that does not parse as a
    /// certificate and key.
    pub fn new(cert_pem: String, key_pem: String) -> (r: Result<CaCert, RaError>)
        ensures
            (r is Ok) == ca_material_ok(cert_pem@, key_pem@),
            r matches Ok(ca) ==> ca.wf() && ca.cert_pem@ == cert_pem@ && ca.key_pem@ == key_pem@,
            r matches Err(e) ==> e == RaError::SigningError,
    {
        if check_ca(cert_pem.as_str(), key_pem.as_str()) {
            Ok(CaCert { cert_pem, key_pem })
        } else {
            Err(RaError::SigningError)
        }
    }

    /// Issues a leaf certificate from a request: the subject key's SPKI
    /// becomes the certificate key, the usage flags become extended key
    /// usages, and the quote and event log are embedded as opaque
    /// byte-string extensions, recoverable bit-exact.
    ///
    /// Fails with `IncompleteRequest` exactly when the key or the quote is
    /// missing; any other failure of the toolchain is a `SigningError`,
    /// fatal for this request.
    pub fn sign(&self, req: CertRequest) -> (r: Result<CertBundle, RaError>)
        requires
            req.key matches Some(k) ==> k.wf(),
        ensures
            !req.complete() <==> r == Err::<CertBundle, RaError>(RaError::IncompleteRequest),
            r matches Ok(b) ==> evidence_embedded(
                b.der@,
                spki_of_key(req.key->Some_0.pkcs8@),
                req.quote->Some_0@,
                request_event_log(req),
            ),
            r matches Err(e) ==> e == RaError::IncompleteRequest || e == RaError::SigningError,
    {
        let key = match &req.key {
            Some(k) => k,
            None => {
                return Err(RaError::IncompleteRequest);
            },
        };
        let quote = match &req.quote {
            Some(q) => q,
            None => {
                return Err(RaError::IncompleteRequest);
            },
        };
        let event_log: Vec<u8> = match &req.event_log {
            Some(e) => e.clone(),
            None => Vec::new(),
        };
        proof {
            assert(event_log@ =~= request_event_log(req));
        }
        let purposes = purposes_for(req.usage_server_auth, req.usage_client_auth);
        let quote_bytes = quote.clone();
        proof {
            assert(quote_bytes@ =~= req.quote->Some_0@);
        }
        let mut exts: Vec<(Vec<u64>, Vec<u8>)> = Vec::new();
        exts.push((quote_oid(), quote_bytes));
        exts.push((event_log_oid(), event_log));
        proof {
            assert(exts.deep_view() =~~= seq![
                (quote_oid_spec(), req.quote->Some_0@),
                (event_log_oid_spec(), request_event_log(req)),
            ]);
            assert(oid_is_private(quote_oid_spec()));
            assert(oid_is_private(event_log_oid_spec()));
            assert(quote_oid_spec() != event_log_oid_spec()) by {
                assert(quote_oid_spec()[7] != event_log_oid_spec()[7]);
            }
        }
        match issue_cert(
            &key.pkcs8,
            self.cert_pem.as_str(),
            self.key_pem.as_str(),
            req.subject.as_str(),
            &purposes,
            &exts,
        ) {
            Some(b) => {
                proof {
                    assert(ext_lookup(parsed_cert(b.der@)->Some_0.1, exts.deep_view()[0].0)
                        == Some(exts.deep_view()[0].1));
                    assert(ext_lookup(parsed_cert(b.der@)->Some_0.1, exts.deep_view()[1].0)
                        == Some(exts.deep_view()[1].1));
                }
                Ok(b)
            },
            None => Err(RaError::SigningError),
        }
    }
}

/// A TLS identity ready to hand to a transport: the certificate and the
/// subject key, PEM-encoded.
pub struct Identity {
    pub cert: CertBundle,
    pub key_pem: String,
}

/// Turns the outcome of the external quote service into evidence or the
/// retriable `QuoteUnavailable`; the retry policy belongs to the caller.
pub fn quote_response(r: Option<(Vec<u8>, Vec<u8>)>) -> (res: Result<(Vec<u8>, Vec<u8>), RaError>)
    ensures
        match r {
            Some(qe) => res matches Ok(p) && p == qe,
            None => res == Err::<(Vec<u8>, Vec<u8>), RaError>(RaError::QuoteUnavailable),
        },
{
    match r {
        Some(qe) => Ok(qe),
        None => Err(RaError::QuoteUnavailable),
    }
}

/// Issues a client-auth certificate over a freshly generated key and the
/// evidence obtained for that key's challenge, and returns the identity a
/// TLS client presents.
pub fn gen_ra_cert(ca: &CaCert, key: &RaKey, quote: &Vec<u8>, event_log: &Vec<u8>) -> (r: Result<
    Identity,
    RaError,
>)
    requires
        key.wf(),
    ensures
        r matches Ok(id) ==> evidence_embedded(
            id.cert.der@,
            spki_of_key(key.pkcs8@),
            quote@,
            event_log@,
        ),
        r matches Err(e) ==> e == RaError::SigningError,
{
    let req = CertRequest::builder().subject("RA-TLS TEMP Cert").quote(quote).usage_client_auth(
        true,
    ).event_log(event_log).key(key);
    let bundle = match ca.sign(req) {
        Ok(b) => b,
        Err(_) => {
            return Err(RaError::SigningError);
        },
    };
    let key_pem_text = match crate::x509io::key_pem(&key.pkcs8) {
        Some(p) => p,
        None => {
            return Err(RaError::SigningError);
        },
    };
    Ok(Identity { cert: bundle, key_pem: key_pem_text })
}

/// The extended key usages a pair of usage flags grants: server
/// authentication first, then client authentication, each present exactly
/// when its flag is set.
pub open spec fn spec_purposes(server: bool, client: bool) -> Seq<KeyPurpose> {
    (if server {
        seq![KeyPurpose::ServerAuth]
    } else {
        Seq::empty()
    }) + (if client {
        seq![KeyPurpose::ClientAuth]
    } else {
        Seq::empty()
    })
}

/// Maps usage flags to extended key usages; no flag, no grant.
pub fn purposes_for(server: bool, client: bool) -> (r: Vec<KeyPurpose>)
    ensures
        r@ == spec_purposes(server, client),
{
    let mut v: Vec<KeyPurpose> = Vec::new();
    if server {
        v.push(KeyPurpose::ServerAuth);
    }
    if client {
        v.push(KeyPurpose::ClientAuth);
    }
    proof {
        assert(v@ =~= spec_purposes(server, client));
    }
    v
}

} // verus!
