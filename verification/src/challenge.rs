//! Quote binding: derives a fixed-size challenge (report data) from a public
//! key and a usage tag, so a quote over that challenge commits to the key.

use vstd::prelude::*;

use crate::crypto::{sha512, sha512_of};

verus! {

/// The purpose a challenge is derived for. The usage tag is mixed into the
/// digest input so a quote bound for one purpose cannot be replayed for
/// another. The set of tags is closed on purpose: each is a security-relevant
/// contract of its own.
#[derive(Clone, Copy, Debug, PartialEq, Eq, Structural)]
pub enum QuoteContentType {
    KmsRootCa,
    RaTlsCert,
    AppData,
}

/// The byte that stands for a usage tag in the digest input.
pub open spec fn spec_tag_byte(t: QuoteContentType) -> u8 {
    match t {
        QuoteContentType::KmsRootCa => 1,
        QuoteContentType::RaTlsCert => 2,
        QuoteContentType::AppData => 3,
    }
}

/// Executable form of [`spec_tag_byte`].
pub fn tag_byte(t: QuoteContentType) -> (r: u8)
    ensures
        r == spec_tag_byte(t),
{
    match t {
        QuoteContentType::KmsRootCa => 1,
        QuoteContentType::RaTlsCert => 2,
        QuoteContentType::AppData => 3,
    }
}

/// The exact byte string that is digested: one tag byte, then the
/// DER-encoded public key.
pub open spec fn challenge_input(t: QuoteContentType, public_key: Seq<u8>) -> Seq<u8> {
    seq![spec_tag_byte(t)] + public_key
}

/// The challenge (report data) bound to a usage tag and a public key.
pub open spec fn challenge_spec(t: QuoteContentType, public_key: Seq<u8>) -> Seq<u8> {
    sha512_of(challenge_input(t, public_key))
}

/// Derives the challenge for a usage tag and a DER-encoded public key.
/// Deterministic: the result is a pure function of the two arguments.
pub fn derive_challenge(t: QuoteContentType, public_key: &Vec<u8>) -> (r: Vec<u8>)
    ensures
        r@ == challenge_spec(t, public_key@),
        r@.len() == crate::REPORT_DATA_LEN,
{
    let mut buf: Vec<u8> = Vec::new();
    buf.push(tag_byte(t));
    let mut i: usize = 0;
    while i < public_key.len()
        invariant
            i <= public_key.len(),
            buf@ == seq![spec_tag_byte(t)] + public_key@.subrange(0, i as int),
        decreases public_key.len() - i,
    {
        buf.push(public_key[i]);
        i = i + 1;
        proof {
            assert(buf@ =~= seq![spec_tag_byte(t)] + public_key@.subrange(0, i as int));
        }
    }
    proof {
        assert(public_key@.subrange(0, public_key@.len() as int) =~= public_key@);
        assert(buf@ =~= challenge_input(t, public_key@));
    }
    sha512(&buf)
}

/// Challenge derivation is deterministic: the same usage tag and key always
/// give the same challenge, because the challenge is a pure function of both.
pub proof fn lemma_challenge_deterministic(t: QuoteContentType, public_key: Seq<u8>)
    ensures
        challenge_spec(t, public_key) == challenge_spec(t, public_key),
{
}

/// Binding uniqueness, up to digest collisions: distinct (tag, key) pairs are
/// digested as distinct byte strings, so only a collision of the digest
/// itself could make two different bindings share a challenge.
pub proof fn lemma_challenge_collision_implies_digest_collision(
    t1: QuoteContentType,
    k1: Seq<u8>,
    t2: QuoteContentType,
    k2: Seq<u8>,
)
    requires
        challenge_spec(t1, k1) == challenge_spec(t2, k2),
        !(t1 == t2 && k1 == k2),
    ensures
        challenge_input(t1, k1) != challenge_input(t2, k2),
        sha512_of(challenge_input(t1, k1)) == sha512_of(challenge_input(t2, k2)),
{
    if challenge_input(t1, k1) == challenge_input(t2, k2) {
        lemma_challenge_input_injective(t1, k1, t2, k2);
    }
}

/// The digest inputs of two bindings coincide only for the same tag and key.
pub proof fn lemma_challenge_input_injective(
    t1: QuoteContentType,
    k1: Seq<u8>,
    t2: QuoteContentType,
    k2: Seq<u8>,
)
    requires
        challenge_input(t1, k1) == challenge_input(t2, k2),
    ensures
        t1 == t2,
        k1 == k2,
{
    let i1 = challenge_input(t1, k1);
    let i2 = challenge_input(t2, k2);
    assert(i1[0] == spec_tag_byte(t1));
    assert(i2[0] == spec_tag_byte(t2));
    assert(spec_tag_byte(t1) == spec_tag_byte(t2));
    assert(t1 == t2) by {
        match t1 {
            QuoteContentType::KmsRootCa => {},
            QuoteContentType::RaTlsCert => {},
            QuoteContentType::AppData => {},
        }
    }
    assert(i1.len() == i2.len());
    assert(k1.len() == k2.len());
    assert(k1 =~= k2) by {
        assert forall|j: int| 0 <= j < k1.len() implies k1[j] == k2[j] by {
            assert(i1[j + 1] == k1[j]);
            assert(i2[j + 1] == k2[j]);
        }
    }
}

} // verus!
