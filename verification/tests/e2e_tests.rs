use ed25519_dalek::Signer;
use ed25519_dalek::SigningKey;

use ratls::cert::{gen_ra_cert, quote_response, CaCert, CertRequest, RaKey};
use ratls::challenge::{derive_challenge, QuoteContentType};
use ratls::errors::RaError;
use ratls::events::{encode_event_log, replay, Event};
use ratls::extract::{from_der, peer_public_key, Attestation};
use ratls::quote::{encode_quote, parse_quote, quote_body, Quote};
use ratls::verify::{verify, verify_cert, FreshnessPolicy, VerifyOptions};

fn make_ca() -> (String, String) {
    let kp = rcgen::KeyPair::generate().unwrap();
    let mut params = rcgen::CertificateParams::default();
    params.is_ca = rcgen::IsCa::Ca(rcgen::BasicConstraints::Unconstrained);
    let cert = params.self_signed(&kp).unwrap();
    (cert.pem(), kp.serialize_pem())
}

fn hw_key() -> SigningKey {
    SigningKey::from_bytes(&[7u8; 32])
}

fn sample_events() -> Vec<Event> {
    vec![
        Event { register: 0, digest: vec![0x10; 48], payload: b"firmware".to_vec() },
        Event { register: 1, digest: vec![0x20; 48], payload: b"kernel".to_vec() },
        Event { register: 3, digest: vec![0x30; 48], payload: vec![] },
    ]
}

fn make_quote(sk: &SigningKey, report_data: Vec<u8>, events: &Vec<Event>, timestamp: u64) -> Quote {
    let mut q = Quote {
        report_data,
        registers: replay(events),
        timestamp,
        att_pubkey: sk.verifying_key().to_bytes().to_vec(),
        signature: vec![0u8; 64],
    };
    let body = quote_body(&q);
    q.signature = sk.sign(&body).to_bytes().to_vec();
    q
}

fn options() -> VerifyOptions {
    VerifyOptions {
        roots: vec![hw_key().verifying_key().to_bytes().to_vec()],
        freshness: None,
    }
}

/// Issues a certificate for a fresh key with evidence bound to that key, and
/// returns it with the extracted attestation.
fn issue() -> (Vec<u8>, RaKey, Attestation) {
    let (ca_pem, ca_key_pem) = make_ca();
    let ca = CaCert::new(ca_pem, ca_key_pem).unwrap();
    let key = RaKey::generate().unwrap();
    let challenge = derive_challenge(QuoteContentType::RaTlsCert, &key.spki);
    let events = sample_events();
    let quote = make_quote(&hw_key(), challenge, &events, 100);
    let identity =
        gen_ra_cert(&ca, &key, &encode_quote(&quote), &encode_event_log(&events)).unwrap();
    let att = from_der(&identity.cert.der).unwrap().expect("evidence embedded");
    (identity.cert.der, key, att)
}

#[test]
fn round_trip_issuance_extraction_verification() {
    let (der, key, att) = issue();
    let peer = peer_public_key(&der).unwrap();
    assert_eq!(peer, key.spki);
    let v = verify(&att, &peer, &options()).unwrap();
    assert_eq!(v.report.registers, att.quote.registers);
    assert_eq!(v.report.report_data, att.quote.report_data);
    assert_eq!(v.report.timestamp, 100);
    // The driver composes the same way.
    let driven = verify_cert(&der, &options()).unwrap().expect("evidence present");
    assert_eq!(driven.report.registers, att.quote.registers);
}

#[test]
fn flipping_any_quote_byte_fails_signature_verification() {
    let (_, key, att) = issue();
    let bytes = encode_quote(&att.quote);
    for i in 0..bytes.len() {
        let mut tampered = bytes.clone();
        tampered[i] ^= 0x01;
        let quote = parse_quote(&tampered).unwrap();
        let att2 = Attestation { quote, event_log: sample_events() };
        let r = verify(&att2, &key.spki, &options());
        assert!(matches!(r, Err(RaError::SignatureVerificationError)), "byte {i} tampered");
    }
}

#[test]
fn substituted_key_fails_binding() {
    let (_, _, att) = issue();
    let other = RaKey::generate().unwrap();
    let r = verify(&att, &other.spki, &options());
    assert!(matches!(r, Err(RaError::BindingMismatchError)));
}

#[test]
fn altered_event_digest_fails_replay() {
    let (der, key, att) = issue();
    let _ = der;
    let mut events = sample_events();
    events[1].digest[0] ^= 0xff;
    let att2 = Attestation { quote: att.quote, event_log: events };
    let r = verify(&att2, &key.spki, &options());
    assert!(matches!(r, Err(RaError::EventLogReplayError)));
}

#[test]
fn unknown_root_fails_signature_verification() {
    let (_, key, att) = issue();
    let opts = VerifyOptions { roots: vec![vec![9u8; 32]], freshness: None };
    let r = verify(&att, &key.spki, &opts);
    assert!(matches!(r, Err(RaError::SignatureVerificationError)));
}

#[test]
fn plain_certificate_yields_not_present() {
    let (ca_pem, ca_key_pem) = make_ca();
    let ca_key = rcgen::KeyPair::from_pem(&ca_key_pem).unwrap();
    let issuer = rcgen::Issuer::from_ca_cert_pem(&ca_pem, ca_key).unwrap();
    let kp = rcgen::KeyPair::generate().unwrap();
    let params = rcgen::CertificateParams::default();
    let cert = params.signed_by(&kp, &issuer).unwrap();
    let der = cert.der().to_vec();
    assert!(from_der(&der).unwrap().is_none());
    assert!(verify_cert(&der, &options()).unwrap().is_none());
}

#[test]
fn lone_attestation_extension_is_a_parse_error() {
    let (ca_pem, ca_key_pem) = make_ca();
    let ca_key = rcgen::KeyPair::from_pem(&ca_key_pem).unwrap();
    let issuer = rcgen::Issuer::from_ca_cert_pem(&ca_pem, ca_key).unwrap();
    let kp = rcgen::KeyPair::generate().unwrap();
    let mut params = rcgen::CertificateParams::default();
    params.custom_extensions.push(rcgen::CustomExtension::from_oid_content(
        &[1, 3, 6, 1, 4, 1, 58271, 1],
        vec![1, 2, 3],
    ));
    let cert = params.signed_by(&kp, &issuer).unwrap();
    let r = from_der(&cert.der().to_vec());
    assert!(matches!(r, Err(RaError::ParseError)));
}

#[test]
fn garbage_bytes_are_a_parse_error() {
    let r = from_der(&vec![0xde, 0xad, 0xbe, 0xef]);
    assert!(matches!(r, Err(RaError::ParseError)));
    let p = peer_public_key(&vec![0xde, 0xad, 0xbe, 0xef]);
    assert!(matches!(p, Err(RaError::ParseError)));
}

#[test]
fn freshness_policy_is_enforced() {
    let (_, key, att) = issue();
    // Quote timestamp is 100.
    let stale = VerifyOptions {
        roots: options().roots,
        freshness: Some(FreshnessPolicy { now: 1000, max_age: 10 }),
    };
    assert!(matches!(verify(&att, &key.spki, &stale), Err(RaError::StaleQuoteError)));
    let future = VerifyOptions {
        roots: options().roots,
        freshness: Some(FreshnessPolicy { now: 50, max_age: 1000 }),
    };
    assert!(matches!(verify(&att, &key.spki, &future), Err(RaError::StaleQuoteError)));
    let fresh = VerifyOptions {
        roots: options().roots,
        freshness: Some(FreshnessPolicy { now: 105, max_age: 10 }),
    };
    assert!(verify(&att, &key.spki, &fresh).is_ok());
}

#[test]
fn builder_defaults_grant_no_usage() {
    let req = CertRequest::builder();
    assert!(!req.usage_server_auth);
    assert!(!req.usage_client_auth);
    assert!(req.quote.is_none());
    assert!(req.event_log.is_none());
    assert!(req.key.is_none());
}

#[test]
fn signing_an_incomplete_request_is_rejected() {
    let (ca_pem, ca_key_pem) = make_ca();
    let ca = CaCert::new(ca_pem, ca_key_pem).unwrap();
    let r = ca.sign(CertRequest::builder().subject("nobody"));
    assert!(matches!(r, Err(RaError::IncompleteRequest)));
    let key = RaKey::generate().unwrap();
    let r = ca.sign(CertRequest::builder().key(&key));
    assert!(matches!(r, Err(RaError::IncompleteRequest)));
}

#[test]
fn bad_ca_material_is_rejected() {
    let r = CaCert::new("not a cert".to_string(), "not a key".to_string());
    assert!(matches!(r, Err(RaError::SigningError)));
}

#[test]
fn missing_quote_service_response_is_retriable() {
    let r = quote_response(None);
    assert!(matches!(r, Err(RaError::QuoteUnavailable)));
    let ok = quote_response(Some((vec![1], vec![2])));
    assert_eq!(ok.unwrap(), (vec![1], vec![2]));
}

#[test]
fn error_labels_are_stable() {
    assert_eq!(RaError::BindingMismatchError.label(), "binding mismatch");
    assert_eq!(RaError::StaleQuoteError.label(), "stale quote");
}
