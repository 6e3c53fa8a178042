//! Attestation extraction: given a peer's DER certificate, locate and decode
//! the embedded quote and event log.
//!
//! A valid certificate without the two extensions is `Ok(None)` — a peer may
//! present an ordinary certificate. A certificate that does not parse, or
//! that carries only one of the two extensions, or extensions that do not
//! decode, is a `ParseError`: presence implies a contract the peer broke.

use vstd::prelude::*;

use crate::cert::{event_log_oid, event_log_oid_spec, quote_oid, quote_oid_spec};
use crate::errors::RaError;
use crate::events::{decode_event_log, decode_log_spec, lemma_decode_wf, log_wf, Event, EventView};
use crate::quote::{parse_quote, parse_quote_spec, quote_wf, Quote, QuoteView};
use crate::x509io::{ext_lookup, parse_cert, parsed_cert};

verus! {

/// The evidence recovered from a certificate: the decoded quote and event
/// log. Transient; exists only to be verified.
pub struct Attestation {
    pub quote: Quote,
    pub event_log: Vec<Event>,
}

/// Both halves of the evidence are well-formed.
pub open spec fn attestation_wf(a: &Attestation) -> bool {
    &&& quote_wf(a.quote.deep_view())
    &&& log_wf(a.event_log.deep_view())
}

/// What extraction must return for a DER certificate, over the parser model:
/// `Err` for anything malformed, `Ok(None)` for a certificate without
/// attestation extensions, and the decoded pair otherwise.
pub open spec fn extraction_spec(der: Seq<u8>) -> Result<
    Option<(QuoteView, Seq<EventView>)>,
    RaError,
> {
    match parsed_cert(der) {
        None => Err(RaError::ParseError),
        Some(pc) => {
            let q = ext_lookup(pc.1, quote_oid_spec());
            let e = ext_lookup(pc.1, event_log_oid_spec());
            if q is None && e is None {
                Ok(None)
            } else if q is Some && e is Some {
                match parse_quote_spec(q->Some_0) {
                    None => Err(RaError::ParseError),
                    Some(qv) => match decode_log_spec(e->Some_0) {
                        None => Err(RaError::ParseError),
                        Some(ev) => Ok(Some((qv, ev))),
                    },
                }
            } else {
                Err(RaError::ParseError)
            }
        },
    }
}

/// Compares two OID arcs.
fn oids_eq(a: &Vec<u64>, b: &Vec<u64>) -> (r: bool)
    ensures
        r == (a@ == b@),
{
    if a.len() != b.len() {
        proof {
            assert(a@.len() != b@.len());
        }
        return false;
    }
    let mut i: usize = 0;
    while i < a.len()
        invariant
            i <= a@.len() == b@.len(),
            a@.subrange(0, i as int) == b@.subrange(0, i as int),
        decreases a@.len() - i,
    {
        if a[i] != b[i] {
            proof {
                assert(a@[i as int] != b@[i as int]);
            }
            return false;
        }
        i = i + 1;
        proof {
            assert(a@.subrange(0, i as int) =~= b@.subrange(0, i as int));
        }
    }
    proof {
        assert(a@.subrange(0, a@.len() as int) =~= a@);
        assert(b@.subrange(0, b@.len() as int) =~= b@);
    }
    true
}

/// Finds the first extension carrying the given OID.
pub fn ext_find(exts: &Vec<(Vec<u64>, Vec<u8>)>, oid: &Vec<u64>) -> (r: Option<Vec<u8>>)
    ensures
        match r {
            Some(v) => ext_lookup(exts.deep_view(), oid@) == Some(v@),
            None => ext_lookup(exts.deep_view(), oid@) is None,
        },
{
    let ghost dv = exts.deep_view();
    let mut i: usize = 0;
    proof {
        assert(dv.skip(0) =~= dv);
    }
    while i < exts.len()
        invariant
            i <= exts@.len(),
            dv == exts.deep_view(),
            dv.len() == exts@.len(),
            ext_lookup(dv, oid@) == ext_lookup(dv.skip(i as int), oid@),
        decreases exts@.len() - i,
    {
        let ghost rest = dv.skip(i as int);
        proof {
            assert(rest.len() != 0);
            assert(rest[0] == dv[i as int]);
            assert(dv[i as int].0 =~= exts@[i as int].0@);
            assert(dv[i as int].1 =~= exts@[i as int].1@);
        }
        if oids_eq(&exts[i].0, oid) {
            let v = crate::bytes::copy_range(&exts[i].1, 0, exts[i].1.len());
            proof {
                assert(rest[0].0 == oid@);
                assert(ext_lookup(rest, oid@) == Some(rest[0].1));
                assert(v@ =~= dv[i as int].1);
            }
            return Some(v);
        }
        i = i + 1;
        proof {
            assert(rest[0].0 != oid@);
            assert(ext_lookup(rest, oid@) == ext_lookup(rest.drop_first(), oid@));
            assert(rest.drop_first() =~= dv.skip(i as int));
        }
    }
    proof {
        assert(dv.skip(i as int) =~= Seq::<(Seq<u64>, Seq<u8>)>::empty());
    }
    None
}

/// Extracts the attestation evidence from a DER certificate, if present.
pub fn from_der(der: &Vec<u8>) -> (r: Result<Option<Attestation>, RaError>)
    ensures
        match r {
            Ok(Some(att)) => extraction_spec(der@) == Ok::<Option<(QuoteView, Seq<EventView>)>,
                RaError,
            >(Some((att.quote.deep_view(), att.event_log.deep_view()))) && attestation_wf(&att),
            Ok(None) => extraction_spec(der@) == Ok::<Option<(QuoteView, Seq<EventView>)>,
                RaError,
            >(None),
            Err(e) => extraction_spec(der@) == Err::<Option<(QuoteView, Seq<EventView>)>,
                RaError,
            >(e),
        },
{
    let parsed = match parse_cert(der) {
        Some(p) => p,
        None => {
            return Err(RaError::ParseError);
        },
    };
    let quote_bytes = ext_find(&parsed.1, &quote_oid());
    let log_bytes = ext_find(&parsed.1, &event_log_oid());
    match (quote_bytes, log_bytes) {
        (None, None) => Ok(None),
        (Some(qb), Some(lb)) => {
            let quote = match parse_quote(&qb) {
                Some(q) => q,
                None => {
                    return Err(RaError::ParseError);
                },
            };
            let event_log = match decode_event_log(&lb) {
                Some(e) => e,
                None => {
                    return Err(RaError::ParseError);
                },
            };
            proof {
                lemma_decode_wf(lb@);
            }
            Ok(Some(Attestation { quote, event_log }))
        },
        _ => Err(RaError::ParseError),
    }
}

/// Returns the certificate's subject public key info bytes, against which
/// the quote binding is checked.
pub fn peer_public_key(der: &Vec<u8>) -> (r: Result<Vec<u8>, RaError>)
    ensures
        (r is Ok) == (parsed_cert(der@) is Some),
        r matches Ok(v) ==> v@ == parsed_cert(der@)->Some_0.0,
        r matches Err(e) ==> e == RaError::ParseError,
{
    match parse_cert(der) {
        Some(p) => Ok(p.0),
        None => Err(RaError::ParseError),
    }
}

} // verus!
