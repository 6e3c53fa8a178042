//! Measurement event logs: ordered sequences of events whose replay, a left
//! fold of the hardware extend operation, must reproduce the measurement
//! registers a quote carries.

use vstd::prelude::*;

use crate::bytes::{copy_range, append_bytes, push_le32, read_le32, le32, le32_val,
    lemma_le32_round_trip};
use crate::crypto::{sha384, sha384_of};
use crate::{DIGEST_LEN, REGISTER_COUNT};

verus! {

/// One measurement event: the register it extends, the digest folded into
/// that register, and free-form descriptive metadata.
pub struct Event {
    pub register: u8,
    pub digest: Vec<u8>,
    pub payload: Vec<u8>,
}

/// The mathematical value of an [`Event`].
#[verifier::ext_equal]
pub ghost struct EventView {
    pub register: u8,
    pub digest: Seq<u8>,
    pub payload: Seq<u8>,
}

impl DeepView for Event {
    type V = EventView;

    open spec fn deep_view(&self) -> EventView {
        EventView { register: self.register, digest: self.digest@, payload: self.payload@ }
    }
}

/// A well-formed event targets an existing register, carries a digest of the
/// register width, and a payload whose length the encoding can carry.
pub open spec fn event_wf(e: EventView) -> bool {
    &&& (e.register as int) < REGISTER_COUNT
    &&& e.digest.len() == DIGEST_LEN
    &&& e.payload.len() <= u32::MAX
}

/// A well-formed log is a sequence of well-formed events.
pub open spec fn log_wf(s: Seq<EventView>) -> bool {
    forall|i: int| 0 <= i < s.len() ==> event_wf(#[trigger] s[i])
}

/// The reset value of a measurement register: all zeroes.
pub open spec fn zero_register() -> Seq<u8> {
    Seq::new(DIGEST_LEN as nat, |i: int| 0u8)
}

/// The register state replay starts from.
pub open spec fn initial_registers() -> Seq<Seq<u8>> {
    Seq::new(REGISTER_COUNT as nat, |i: int| zero_register())
}

/// The hardware extend operation: the new register value is the digest of
/// the old value followed by the event digest.
pub open spec fn extend_register(reg: Seq<u8>, digest: Seq<u8>) -> Seq<u8> {
    sha384_of(reg + digest)
}

/// One replay step. An event whose register does not exist leaves the state
/// unchanged; well-formed logs never take that branch.
pub open spec fn replay_step(regs: Seq<Seq<u8>>, e: EventView) -> Seq<Seq<u8>> {
    if (e.register as int) < regs.len() {
        regs.update(e.register as int, extend_register(regs[e.register as int], e.digest))
    } else {
        regs
    }
}

/// Replay as a left fold over the event sequence, from a given state.
pub open spec fn replay_from(events: Seq<EventView>, regs: Seq<Seq<u8>>) -> Seq<Seq<u8>>
    decreases events.len(),
{
    if events.len() == 0 {
        regs
    } else {
        replay_from(events.drop_first(), replay_step(regs, events[0]))
    }
}

/// The register state an event log reduces to, from the reset state.
pub open spec fn replay_spec(events: Seq<EventView>) -> Seq<Seq<u8>> {
    replay_from(events, initial_registers())
}

/// Folding one more event at the end is one more step.
pub proof fn lemma_replay_from_snoc(events: Seq<EventView>, e: EventView, regs: Seq<Seq<u8>>)
    ensures
        replay_from(events.push(e), regs) == replay_step(replay_from(events, regs), e),
    decreases events.len(),
{
    let s = events.push(e);
    assert(s.len() != 0);
    assert(replay_from(s, regs) == replay_from(s.drop_first(), replay_step(regs, s[0])));
    if events.len() == 0 {
        assert(s[0] == e);
        assert(s.drop_first() =~= Seq::<EventView>::empty());
        assert(replay_from(s.drop_first(), replay_step(regs, e)) == replay_step(regs, e));
        assert(replay_from(events, regs) == regs);
    } else {
        assert(s[0] == events[0]);
        assert(s.drop_first() =~= events.drop_first().push(e));
        lemma_replay_from_snoc(events.drop_first(), e, replay_step(regs, events[0]));
        assert(replay_from(events, regs) == replay_from(events.drop_first(), replay_step(regs,
            events[0])));
    }
}

/// Replay of a concatenation folds the first part, then the second.
pub proof fn lemma_replay_from_append(s1: Seq<EventView>, s2: Seq<EventView>, regs: Seq<Seq<u8>>)
    ensures
        replay_from(s1 + s2, regs) == replay_from(s2, replay_from(s1, regs)),
    decreases s1.len(),
{
    if s1.len() == 0 {
        assert(s1 + s2 =~= s2);
    } else {
        assert((s1 + s2)[0] == s1[0]);
        assert((s1 + s2).drop_first() =~= s1.drop_first() + s2);
        lemma_replay_from_append(s1.drop_first(), s2, replay_step(regs, s1[0]));
    }
}

/// Replaying exactly two events is two steps.
pub proof fn lemma_replay_pair(regs: Seq<Seq<u8>>, e1: EventView, e2: EventView)
    ensures
        replay_from(seq![e1, e2], regs) == replay_step(replay_step(regs, e1), e2),
{
    let s = seq![e1, e2];
    assert(s.len() == 2);
    assert(replay_from(s, regs) == replay_from(s.drop_first(), replay_step(regs, s[0])));
    assert(s[0] == e1);
    let s1 = s.drop_first();
    assert(s1 =~= seq![e2]);
    assert(replay_from(seq![e2], replay_step(regs, e1)) == replay_from(seq![e2].drop_first(),
        replay_step(replay_step(regs, e1), seq![e2][0])));
    assert(seq![e2].drop_first() =~= Seq::<EventView>::empty());
    assert(replay_from(Seq::<EventView>::empty(), replay_step(replay_step(regs, e1), e2))
        == replay_step(replay_step(regs, e1), e2));
}

/// Steps that extend distinct registers commute: each register folds its own
/// subsequence of digests, independently of the others.
pub proof fn lemma_replay_step_commutes(regs: Seq<Seq<u8>>, e1: EventView, e2: EventView)
    requires
        e1.register != e2.register,
    ensures
        replay_step(replay_step(regs, e1), e2) == replay_step(replay_step(regs, e2), e1),
{
    let a = e1.register as int;
    let b = e2.register as int;
    if a < regs.len() && b < regs.len() {
        assert(replay_step(replay_step(regs, e1), e2) =~= replay_step(replay_step(regs, e2), e1));
    } else if a < regs.len() {
        assert(replay_step(replay_step(regs, e1), e2) =~= replay_step(replay_step(regs, e2), e1));
    } else {
        assert(replay_step(replay_step(regs, e1), e2) =~= replay_step(replay_step(regs, e2), e1));
    }
}

/// Replay is order-sensitive only within a register: swapping two adjacent
/// events that target distinct registers leaves the final state unchanged.
/// The extend operation is not commutative within one register; swapping two
/// events of one register changes that register's fold.
pub proof fn lemma_replay_swap_adjacent_distinct(events: Seq<EventView>, i: int)
    requires
        0 <= i,
        i + 1 < events.len(),
        events[i].register != events[i + 1].register,
    ensures
        replay_spec(events.update(i, events[i + 1]).update(i + 1, events[i])) == replay_spec(
            events,
        ),
{
    let e1 = events[i];
    let e2 = events[i + 1];
    let prefix = events.subrange(0, i);
    let suffix = events.subrange(i + 2, events.len() as int);
    let swapped = events.update(i, e2).update(i + 1, e1);
    assert(events =~= prefix + (seq![e1, e2] + suffix));
    assert(swapped =~= prefix + (seq![e2, e1] + suffix));
    let start = replay_from(prefix, initial_registers());
    lemma_replay_from_append(prefix, seq![e1, e2] + suffix, initial_registers());
    lemma_replay_from_append(prefix, seq![e2, e1] + suffix, initial_registers());
    lemma_replay_from_append(seq![e1, e2], suffix, start);
    lemma_replay_from_append(seq![e2, e1], suffix, start);
    lemma_replay_pair(start, e1, e2);
    lemma_replay_pair(start, e2, e1);
    lemma_replay_step_commutes(start, e1, e2);
}

/// Replays an event log from the reset state and returns the resulting
/// register values.
pub fn replay(events: &Vec<Event>) -> (r: Vec<Vec<u8>>)
    ensures
        r.deep_view() == replay_spec(events.deep_view()),
        r@.len() == REGISTER_COUNT,
{
    let mut regs: Vec<Vec<u8>> = Vec::new();
    let mut j: usize = 0;
    while j < REGISTER_COUNT
        invariant
            j <= REGISTER_COUNT,
            regs@.len() == j,
            forall|k: int| 0 <= k < j ==> #[trigger] regs.deep_view()[k] == zero_register(),
        decreases REGISTER_COUNT - j,
    {
        let mut z: Vec<u8> = Vec::new();
        let mut b: usize = 0;
        while b < DIGEST_LEN
            invariant
                b <= DIGEST_LEN,
                z@ == zero_register().subrange(0, b as int),
            decreases DIGEST_LEN - b,
        {
            z.push(0u8);
            b = b + 1;
            proof {
                assert(z@ =~= zero_register().subrange(0, b as int));
            }
        }
        proof {
            assert(z@ =~= zero_register());
        }
        let ghost dv0 = regs.deep_view();
        regs.push(z);
        j = j + 1;
        proof {
            assert(regs.deep_view() =~~= dv0.push(zero_register()));
        }
    }
    proof {
        assert(regs.deep_view() =~~= initial_registers());
    }
    let mut i: usize = 0;
    while i < events.len()
        invariant
            i <= events@.len(),
            regs.deep_view() == replay_from(events.deep_view().subrange(0, i as int),
                initial_registers()),
            regs@.len() == REGISTER_COUNT,
        decreases events@.len() - i,
    {
        let ghost prefix = events.deep_view().subrange(0, i as int);
        let ghost ev = events.deep_view()[i as int];
        let idx = events[i].register as usize;
        if idx < REGISTER_COUNT {
            let mut buf = copy_range(&regs[idx], 0, regs[idx].len());
            proof {
                assert(buf@ =~= regs.deep_view()[idx as int]);
            }
            append_bytes(&mut buf, &events[i].digest);
            let d = sha384(&buf);
            let ghost dv0 = regs.deep_view();
            proof {
                assert(buf@ == dv0[idx as int] + ev.digest);
                assert(d@ == extend_register(dv0[idx as int], ev.digest));
            }
            regs[idx] = d;
            proof {
                assert(regs.deep_view() =~~= dv0.update(idx as int, d@));
                assert(regs.deep_view() =~~= replay_step(dv0, ev));
            }
        }
        i = i + 1;
        proof {
            assert(events.deep_view().subrange(0, i as int) =~= prefix.push(ev));
            lemma_replay_from_snoc(prefix, ev, initial_registers());
        }
    }
    proof {
        assert(events.deep_view().subrange(0, events.deep_view().len() as int) =~= events.deep_view());
    }
    regs
}

/// The byte encoding of one event: register, digest, payload length,
/// payload.
pub open spec fn encode_event(e: EventView) -> Seq<u8> {
    seq![e.register] + e.digest + le32(e.payload.len() as u32) + e.payload
}

/// The byte encoding of an event log: the events in order.
pub open spec fn encode_log(s: Seq<EventView>) -> Seq<u8>
    decreases s.len(),
{
    if s.len() == 0 {
        Seq::empty()
    } else {
        encode_event(s[0]) + encode_log(s.drop_first())
    }
}

/// The event sequence a byte string decodes to, if it is a valid encoding.
pub open spec fn decode_log_spec(b: Seq<u8>) -> Option<Seq<EventView>>
    decreases b.len(),
{
    if b.len() == 0 {
        Some(Seq::empty())
    } else if b.len() < 53 {
        None
    } else {
        let register = b[0];
        let digest = b.subrange(1, 49);
        let plen = le32_val(b.subrange(49, 53)) as int;
        if (register as int) >= REGISTER_COUNT {
            None
        } else if b.len() < 53 + plen {
            None
        } else {
            let payload = b.subrange(53, 53 + plen);
            let rest = b.subrange(53 + plen, b.len() as int);
            match decode_log_spec(rest) {
                Some(tail) => Some(
                    seq![EventView { register, digest, payload }] + tail,
                ),
                None => None,
            }
        }
    }
}

/// Every decoded log is well-formed.
pub proof fn lemma_decode_wf(b: Seq<u8>)
    ensures
        decode_log_spec(b) matches Some(s) ==> log_wf(s),
    decreases b.len(),
{
    if b.len() >= 53 {
        let plen = le32_val(b.subrange(49, 53)) as int;
        if (b[0] as int) < REGISTER_COUNT && b.len() >= 53 + plen {
            let rest = b.subrange(53 + plen, b.len() as int);
            lemma_decode_wf(rest);
        }
    }
}

/// Appending one event to a log appends its encoding.
pub proof fn lemma_encode_log_snoc(s: Seq<EventView>, e: EventView)
    ensures
        encode_log(s.push(e)) == encode_log(s) + encode_event(e),
    decreases s.len(),
{
    let t = s.push(e);
    assert(t.len() != 0);
    assert(encode_log(t) == encode_event(t[0]) + encode_log(t.drop_first()));
    if s.len() == 0 {
        assert(t[0] == e);
        assert(t.drop_first() =~= Seq::<EventView>::empty());
        assert(encode_log(Seq::<EventView>::empty()) == Seq::<u8>::empty());
        assert(encode_log(s) == Seq::<u8>::empty());
        assert(encode_log(t) =~= encode_log(s) + encode_event(e));
    } else {
        assert(t[0] == s[0]);
        assert(t.drop_first() =~= s.drop_first().push(e));
        lemma_encode_log_snoc(s.drop_first(), e);
        assert(encode_log(s) == encode_event(s[0]) + encode_log(s.drop_first()));
        assert(encode_log(t) =~= encode_log(s) + encode_event(e));
    }
}

/// Decoding inverts encoding on well-formed logs.
pub proof fn lemma_log_codec_round_trip(s: Seq<EventView>)
    requires
        log_wf(s),
    ensures
        decode_log_spec(encode_log(s)) == Some(s),
    decreases s.len(),
{
    if s.len() == 0 {
    } else {
        let e = s[0];
        let b = encode_log(s);
        let head = encode_event(e);
        let tail = encode_log(s.drop_first());
        assert(event_wf(e));
        assert(head.len() == 53 + e.payload.len());
        assert(b == head + tail);
        assert(b.len() >= 53);
        assert(b[0] == e.register);
        assert(b.subrange(1, 49) =~= e.digest);
        assert(b.subrange(49, 53) =~= le32(e.payload.len() as u32));
        lemma_le32_round_trip(e.payload.len() as u32);
        let plen = le32_val(b.subrange(49, 53)) as int;
        assert(plen == e.payload.len());
        assert(b.len() >= 53 + plen);
        assert(b.subrange(53, 53 + plen) =~= e.payload);
        assert(b.subrange(53 + plen, b.len() as int) =~= tail);
        lemma_log_codec_round_trip(s.drop_first());
        assert(seq![EventView { register: e.register, digest: e.digest, payload: e.payload }]
            + s.drop_first() =~= s);
    }
}

/// Encodes an event log. The encoding is the concatenation of the events'
/// encodings, in order.
pub fn encode_event_log(events: &Vec<Event>) -> (r: Vec<u8>)
    requires
        log_wf(events.deep_view()),
    ensures
        r@ == encode_log(events.deep_view()),
{
    let mut out: Vec<u8> = Vec::new();
    let mut i: usize = 0;
    while i < events.len()
        invariant
            i <= events@.len(),
            log_wf(events.deep_view()),
            out@ == encode_log(events.deep_view().subrange(0, i as int)),
        decreases events@.len() - i,
    {
        let ghost prefix = events.deep_view().subrange(0, i as int);
        let ghost ev = events.deep_view()[i as int];
        let e = &events[i];
        proof {
            assert(event_wf(ev));
        }
        out.push(e.register);
        append_bytes(&mut out, &e.digest);
        push_le32(&mut out, e.payload.len() as u32);
        append_bytes(&mut out, &e.payload);
        i = i + 1;
        proof {
            assert(events.deep_view().subrange(0, i as int) =~= prefix.push(ev));
            lemma_encode_log_snoc(prefix, ev);
            assert(out@ =~= encode_log(prefix) + encode_event(ev));
        }
    }
    proof {
        assert(events.deep_view().subrange(0, events.deep_view().len() as int)
            =~= events.deep_view());
    }
    out
}

/// Decodes an event-log byte string, rejecting anything that is not a valid
/// encoding: a truncated event, a register index out of range, or trailing
/// bytes.
pub fn decode_event_log(bytes: &Vec<u8>) -> (r: Option<Vec<Event>>)
    ensures
        match r {
            Some(v) => decode_log_spec(bytes@) == Some(v.deep_view()),
            None => decode_log_spec(bytes@) is None,
        },
{
    let mut out: Vec<Event> = Vec::new();
    let mut pos: usize = 0;
    let n = bytes.len();
    proof {
        assert(bytes@.subrange(0, n as int) =~= bytes@);
        assert(out.deep_view() =~~= Seq::<EventView>::empty());
        if decode_log_spec(bytes@) is Some {
            let t = decode_log_spec(bytes@)->Some_0;
            assert(Seq::<EventView>::empty() + t =~= t);
        }
    }
    while pos < n
        invariant
            pos <= n == bytes@.len(),
            decode_log_spec(bytes@) == match decode_log_spec(
                bytes@.subrange(pos as int, n as int),
            ) {
                Some(tail) => Some(out.deep_view() + tail),
                None => None::<Seq<EventView>>,
            },
        decreases n - pos,
    {
        let ghost rest = bytes@.subrange(pos as int, n as int);
        if n - pos < 53 {
            proof {
                assert(decode_log_spec(rest) is None);
            }
            return None;
        }
        let register = bytes[pos];
        proof {
            assert(rest[0] == register);
        }
        if register as usize >= REGISTER_COUNT {
            proof {
                assert(decode_log_spec(rest) is None);
            }
            return None;
        }
        let digest = copy_range(bytes, pos + 1, pos + 49);
        let plen32 = read_le32(bytes, pos + 49);
        proof {
            assert(bytes@.subrange(pos as int + 49, pos as int + 53) =~= rest.subrange(49, 53));
        }
        let plen = plen32 as usize;
        if n - pos - 53 < plen {
            proof {
                assert(decode_log_spec(rest) is None);
            }
            return None;
        }
        let payload = copy_range(bytes, pos + 53, pos + 53 + plen);
        proof {
            assert(digest@ =~= rest.subrange(1, 49));
            assert(payload@ =~= rest.subrange(53, 53 + plen as int));
        }
        let ghost old_out = out.deep_view();
        out.push(Event { register, digest, payload });
        pos = pos + 53 + plen;
        proof {
            let new_rest = bytes@.subrange(pos as int, n as int);
            assert(new_rest =~= rest.subrange(53 + plen as int, rest.len() as int));
            let ev = EventView {
                register,
                digest: rest.subrange(1, 49),
                payload: rest.subrange(53, 53 + plen as int),
            };
            assert(decode_log_spec(rest) == match decode_log_spec(new_rest) {
                Some(tail) => Some(seq![ev] + tail),
                None => None::<Seq<EventView>>,
            });
            assert(out.deep_view() =~~= old_out.push(ev));
            assert forall|tail: Seq<EventView>| true implies old_out + (seq![ev] + tail)
                =~= out.deep_view() + tail by {}
        }
    }
    proof {
        assert(bytes@.subrange(pos as int, n as int) =~= Seq::<u8>::empty());
        assert(decode_log_spec(Seq::<u8>::empty()) == Some(Seq::<EventView>::empty()));
        assert(out.deep_view() + Seq::<EventView>::empty() =~= out.deep_view());
    }
    Some(out)
}

} // verus!
