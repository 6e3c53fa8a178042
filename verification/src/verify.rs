//! Attestation verification: the ordered checks that turn extracted evidence
//! and a live peer key into a trusted report, failing closed on the first
//! check that does not hold.

use vstd::prelude::*;

use crate::cert::evidence_embedded;
use crate::challenge::{challenge_spec, derive_challenge, QuoteContentType};
use crate::crypto::{ed25519_valid, ed25519_verify};
use crate::errors::RaError;
use crate::events::{log_wf, replay, replay_spec, EventView};
use crate::extract::{attestation_wf, extraction_spec, from_der, peer_public_key, Attestation};
use crate::quote::{encode_quote_spec, quote_body, quote_body_spec, quote_wf, QuoteView};
use crate::x509io::parsed_cert;
use crate::events::encode_log;
use crate::REGISTER_COUNT;

verus! {

/// A freshness policy: the caller's clock and the oldest acceptable quote
/// age, in the quote timestamp's unit.
#[derive(Clone, Copy, Debug, PartialEq, Eq, Structural)]
pub struct FreshnessPolicy {
    pub now: u64,
    pub max_age: u64,
}

/// Verification options: the trusted root keys the quote's attestation key
/// must be among, and an optional freshness policy. Accepting quotes without
/// a freshness check is a valid configuration; TLS session freshness may
/// stand in for it.
pub struct VerifyOptions {
    pub roots: Vec<Vec<u8>>,
    pub freshness: Option<FreshnessPolicy>,
}

/// The verifier's output: measurement identity and auxiliary quote fields,
/// all taken from verified data only.
pub struct Report {
    pub report_data: Vec<u8>,
    pub registers: Vec<Vec<u8>>,
    pub timestamp: u64,
}

/// A trust decision: returned only after every check has passed.
pub struct VerifiedAttestation {
    pub report: Report,
}

/// The quote's signature chain holds: its attestation key is one of the
/// trusted roots and its signature covers the quote body.
pub open spec fn sig_chain_ok(q: QuoteView, roots: Seq<Seq<u8>>) -> bool {
    &&& roots.contains(q.att_pubkey)
    &&& ed25519_valid(q.att_pubkey, quote_body_spec(q), q.signature)
}

/// The quote's committed challenge is the one derived from the live peer
/// key: the step that makes the scheme bind evidence to the TLS peer.
pub open spec fn binding_ok(q: QuoteView, peer_spki: Seq<u8>) -> bool {
    q.report_data == challenge_spec(QuoteContentType::RaTlsCert, peer_spki)
}

/// Replaying the log reproduces the quote's value of every register the log
/// references.
pub open spec fn replay_ok(q: QuoteView, el: Seq<EventView>) -> bool {
    forall|i: int| 0 <= i < el.len() ==> replay_spec(el)[#[trigger] el[i].register as int]
        == q.registers[el[i].register as int]
}

/// The quote is fresh enough for the policy, if there is one.
pub open spec fn fresh_ok(q: QuoteView, fresh: Option<FreshnessPolicy>) -> bool {
    match fresh {
        None => true,
        Some(f) => q.timestamp <= f.now && f.now - q.timestamp <= f.max_age,
    }
}

/// Compares two byte strings without branching on their contents (beyond
/// length), so the comparison of a committed challenge leaks no prefix
/// information through timing.
pub fn ct_bytes_eq(a: &Vec<u8>, b: &Vec<u8>) -> (r: bool)
    ensures
        r == (a@ == b@),
{
    if a.len() != b.len() {
        proof {
            assert(a@.len() != b@.len());
        }
        return false;
    }
    let mut diff: u8 = 0;
    let mut i: usize = 0;
    proof {
        assert(a@.subrange(0, 0) =~= b@.subrange(0, 0));
    }
    while i < a.len()
        invariant
            i <= a@.len(),
            a@.len() == b@.len(),
            (diff == 0) <==> a@.subrange(0, i as int) == b@.subrange(0, i as int),
        decreases a@.len() - i,
    {
        let ghost old_diff = diff;
        let x = a[i];
        let y = b[i];
        diff = diff | (x ^ y);
        proof {
            assert((old_diff | (x ^ y) == 0) == (old_diff == 0 && x == y)) by (bit_vector);
            assert(a@.subrange(0, i + 1) == b@.subrange(0, i + 1) <==> (a@.subrange(0, i as int)
                == b@.subrange(0, i as int) && a@[i as int] == b@[i as int])) by {
                if a@.subrange(0, i + 1) == b@.subrange(0, i + 1) {
                    assert(a@.subrange(0, i as int) =~= a@.subrange(0, i + 1).subrange(
                        0,
                        i as int,
                    ));
                    assert(b@.subrange(0, i as int) =~= b@.subrange(0, i + 1).subrange(
                        0,
                        i as int,
                    ));
                    assert(a@[i as int] == a@.subrange(0, i + 1)[i as int]);
                } else {
                    if a@.subrange(0, i as int) == b@.subrange(0, i as int) && a@[i as int] == b@[
                        i as int] {
                        assert(a@.subrange(0, i + 1) =~= b@.subrange(0, i + 1));
                    }
                }
            }
        }
        i = i + 1;
    }
    proof {
        assert(a@.subrange(0, a@.len() as int) =~= a@);
        assert(b@.subrange(0, b@.len() as int) =~= b@);
    }
    diff == 0
}

/// Whether a key is among the trusted roots.
pub fn contains_bytes(set: &Vec<Vec<u8>>, x: &Vec<u8>) -> (r: bool)
    ensures
        r == set.deep_view().contains(x@),
{
    let ghost dv = set.deep_view();
    let mut i: usize = 0;
    while i < set.len()
        invariant
            i <= set@.len(),
            dv == set.deep_view(),
            dv.len() == set@.len(),
            forall|k: int| 0 <= k < i ==> #[trigger] dv[k] != x@,
        decreases set@.len() - i,
    {
        proof {
            assert(dv[i as int] =~= set@[i as int]@);
        }
        if ct_bytes_eq(&set[i], x) {
            proof {
                assert(dv[i as int] == x@);
            }
            return true;
        }
        i = i + 1;
    }
    proof {
        assert(!dv.contains(x@)) by {
            if dv.contains(x@) {
                let j = choose|j: int| 0 <= j < dv.len() && dv[j] == x@;
                assert(dv[j] != x@);
            }
        }
    }
    false
}

/// Copies a register file.
fn copy_registers(regs: &Vec<Vec<u8>>) -> (r: Vec<Vec<u8>>)
    ensures
        r.deep_view() == regs.deep_view(),
{
    let mut out: Vec<Vec<u8>> = Vec::new();
    let mut i: usize = 0;
    while i < regs.len()
        invariant
            i <= regs@.len(),
            out.deep_view() =~= regs.deep_view().subrange(0, i as int),
        decreases regs@.len() - i,
    {
        let ghost dv0 = out.deep_view();
        out.push(crate::bytes::copy_range(&regs[i], 0, regs[i].len()));
        i = i + 1;
        proof {
            assert(out.deep_view() =~~= dv0.push(regs.deep_view()[i - 1]));
            assert(out.deep_view() =~~= regs.deep_view().subrange(0, i as int));
        }
    }
    proof {
        assert(regs.deep_view().subrange(0, regs.deep_view().len() as int) =~= regs.deep_view());
    }
    out
}

/// Verifies extracted evidence against the live peer key, in order: the
/// quote's signature chain, the challenge binding, the event-log replay, and
/// the freshness policy; the first failure decides the error, and no report
/// is produced on any failure. On success the report carries exactly the
/// quote's report data, registers, and timestamp.
pub fn verify(att: &Attestation, peer_spki: &Vec<u8>, options: &VerifyOptions) -> (r: Result<
    VerifiedAttestation,
    RaError,
>)
    requires
        attestation_wf(att),
    ensures
        (r is Ok) == {
            &&& sig_chain_ok(att.quote.deep_view(), options.roots.deep_view())
            &&& binding_ok(att.quote.deep_view(), peer_spki@)
            &&& replay_ok(att.quote.deep_view(), att.event_log.deep_view())
            &&& fresh_ok(att.quote.deep_view(), options.freshness)
        },
        !sig_chain_ok(att.quote.deep_view(), options.roots.deep_view()) ==> r == Err::<
            VerifiedAttestation,
            RaError,
        >(RaError::SignatureVerificationError),
        sig_chain_ok(att.quote.deep_view(), options.roots.deep_view()) && !binding_ok(
            att.quote.deep_view(),
            peer_spki@,
        ) ==> r == Err::<VerifiedAttestation, RaError>(RaError::BindingMismatchError),
        sig_chain_ok(att.quote.deep_view(), options.roots.deep_view()) && binding_ok(
            att.quote.deep_view(),
            peer_spki@,
        ) && !replay_ok(att.quote.deep_view(), att.event_log.deep_view()) ==> r == Err::<
            VerifiedAttestation,
            RaError,
        >(RaError::EventLogReplayError),
        sig_chain_ok(att.quote.deep_view(), options.roots.deep_view()) && binding_ok(
            att.quote.deep_view(),
            peer_spki@,
        ) && replay_ok(att.quote.deep_view(), att.event_log.deep_view()) && !fresh_ok(
            att.quote.deep_view(),
            options.freshness,
        ) ==> r == Err::<VerifiedAttestation, RaError>(RaError::StaleQuoteError),
        r matches Ok(v) ==> {
            &&& v.report.report_data@ == att.quote.deep_view().report_data
            &&& v.report.registers.deep_view() == att.quote.deep_view().registers
            &&& v.report.timestamp == att.quote.deep_view().timestamp
        },
{
    let ghost q = att.quote.deep_view();
    // Step 1: signature chain up to a trusted root.
    if !contains_bytes(&options.roots, &att.quote.att_pubkey) {
        return Err(RaError::SignatureVerificationError);
    }
    let body = quote_body(&att.quote);
    if !ed25519_verify(&att.quote.att_pubkey, &body, &att.quote.signature) {
        return Err(RaError::SignatureVerificationError);
    }
    // Step 2: the challenge recomputed from the live peer key must be the
    // one the quote committed to.
    let expected = derive_challenge(QuoteContentType::RaTlsCert, peer_spki);
    if !ct_bytes_eq(&att.quote.report_data, &expected) {
        return Err(RaError::BindingMismatchError);
    }
    // Step 3: replay the event log and compare every referenced register.
    let replayed = replay(&att.event_log);
    let ghost el = att.event_log.deep_view();
    let mut i: usize = 0;
    while i < att.event_log.len()
        invariant
            i <= el.len(),
            el == att.event_log.deep_view(),
            el.len() == att.event_log@.len(),
            attestation_wf(att),
            q == att.quote.deep_view(),
            replayed.deep_view() == replay_spec(el),
            replayed@.len() == REGISTER_COUNT,
            att.quote.registers@.len() == REGISTER_COUNT,
            sig_chain_ok(q, options.roots.deep_view()),
            binding_ok(q, peer_spki@),
            forall|k: int| 0 <= k < i ==> replay_spec(el)[#[trigger] el[k].register as int]
                == q.registers[el[k].register as int],
        decreases el.len() - i,
    {
        let idx = att.event_log[i].register as usize;
        proof {
            assert(el[i as int] == att.event_log@[i as int].deep_view());
            assert((el[i as int].register as int) < REGISTER_COUNT);
        }
        if !ct_bytes_eq(&replayed[idx], &att.quote.registers[idx]) {
            proof {
                assert(replayed.deep_view()[idx as int] =~= replayed@[idx as int]@);
                assert(q.registers[idx as int] =~= att.quote.registers@[idx as int]@);
                assert(replay_spec(el)[el[i as int].register as int] != q.registers[el[
                    i as int].register as int]);
                assert(!replay_ok(q, el));
            }
            return Err(RaError::EventLogReplayError);
        }
        i = i + 1;
        proof {
            assert(replayed.deep_view()[idx as int] =~= replayed@[idx as int]@);
            assert(q.registers[idx as int] =~= att.quote.registers@[idx as int]@);
        }
    }
    // Step 4: optional freshness.
    match &options.freshness {
        None => {},
        Some(f) => {
            if att.quote.timestamp > f.now {
                return Err(RaError::StaleQuoteError);
            }
            if f.now - att.quote.timestamp > f.max_age {
                return Err(RaError::StaleQuoteError);
            }
        },
    }
    // Step 5: assemble the report from verified data only.
    let report = Report {
        report_data: crate::bytes::copy_range(&att.quote.report_data, 0,
            att.quote.report_data.len()),
        registers: copy_registers(&att.quote.registers),
        timestamp: att.quote.timestamp,
    };
    proof {
        assert(report.report_data@ =~= q.report_data);
    }
    Ok(VerifiedAttestation { report })
}

/// The transport-facing driver: extract from a peer's DER certificate, then
/// verify against the certificate's own public key. `Ok(None)` surfaces an
/// ordinary certificate without evidence; the caller decides what to do with
/// it — this function makes no trust policy decision of its own.
pub fn verify_cert(der: &Vec<u8>, options: &VerifyOptions) -> (r: Result<
    Option<VerifiedAttestation>,
    RaError,
>)
    ensures
        match extraction_spec(der@) {
            Err(pe) => r == Err::<Option<VerifiedAttestation>, RaError>(pe),
            Ok(None) => r == Ok::<Option<VerifiedAttestation>, RaError>(None),
            Ok(Some((q, el))) => {
                let peer = parsed_cert(der@)->Some_0.0;
                &&& ((r is Ok) == {
                    &&& sig_chain_ok(q, options.roots.deep_view())
                    &&& binding_ok(q, peer)
                    &&& replay_ok(q, el)
                    &&& fresh_ok(q, options.freshness)
                })
                &&& (r matches Ok(o) ==> o matches Some(v) && v.report.report_data@
                    == q.report_data && v.report.registers.deep_view() == q.registers
                    && v.report.timestamp == q.timestamp)
            },
        },
{
    let att = match from_der(der) {
        Ok(Some(a)) => a,
        Ok(None) => {
            return Ok(None);
        },
        Err(e) => {
            return Err(e);
        },
    };
    let peer = match peer_public_key(der) {
        Ok(p) => p,
        Err(e) => {
            return Err(e);
        },
    };
    match verify(&att, &peer, options) {
        Ok(v) => Ok(Some(v)),
        Err(e) => Err(e),
    }
}

/// The round trip holds: a certificate that embeds a well-formed quote over
/// the challenge of its own subject key, and an event log whose replay gives
/// the quote's registers, extracts to exactly that evidence, and every
/// verification check passes, so verification returns a report carrying the
/// quote's own measurement fields.
pub proof fn lemma_issue_extract_verify_round_trip(
    der: Seq<u8>,
    q: QuoteView,
    el: Seq<EventView>,
    spki: Seq<u8>,
    roots: Seq<Seq<u8>>,
)
    requires
        quote_wf(q),
        log_wf(el),
        evidence_embedded(der, spki, encode_quote_spec(q), encode_log(el)),
        roots.contains(q.att_pubkey),
        ed25519_valid(q.att_pubkey, quote_body_spec(q), q.signature),
        q.report_data == challenge_spec(QuoteContentType::RaTlsCert, spki),
        forall|i: int| 0 <= i < REGISTER_COUNT ==> #[trigger] q.registers[i] == replay_spec(el)[i],
    ensures
        extraction_spec(der) == Ok::<Option<(QuoteView, Seq<EventView>)>, RaError>(Some((q, el))),
        parsed_cert(der)->Some_0.0 == spki,
        sig_chain_ok(q, roots),
        binding_ok(q, spki),
        replay_ok(q, el),
        fresh_ok(q, None),
{
    crate::quote::lemma_quote_codec_round_trip(q);
    crate::events::lemma_log_codec_round_trip(el);
    assert(replay_ok(q, el)) by {
        assert forall|i: int| 0 <= i < el.len() implies replay_spec(el)[#[trigger] el[
            i].register as int] == q.registers[el[i].register as int] by {
            assert(crate::events::event_wf(el[i]));
            assert((el[i].register as int) < REGISTER_COUNT);
        }
    }
}

} // verus!
