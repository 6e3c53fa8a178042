//! Quotes: hardware-signed attestation evidence. A quote commits to a
//! challenge (report data), carries the measurement register values and an
//! issuance timestamp, and is signed by an attestation key that must chain to
//! a caller-supplied root of trust.
//!
//! The byte layout is fixed-width: report data (64), four registers (48
//! each), timestamp (8, little endian), attestation public key (32),
//! signature (64); 360 bytes in all. The signature covers the first 264
//! bytes (everything before the key).

use vstd::prelude::*;

use crate::bytes::{append_bytes, copy_range, push_le64, read_le64, le64, le64_val,
    lemma_le64_round_trip};
use crate::{DIGEST_LEN, REGISTER_COUNT, REPORT_DATA_LEN};

verus! {

/// Total size in bytes of an encoded quote.
pub const QUOTE_LEN: usize = 360;

/// Size in bytes of the signed part of a quote.
pub const QUOTE_BODY_LEN: usize = 264;

/// A quote, decoded into plain values.
pub struct Quote {
    pub report_data: Vec<u8>,
    pub registers: Vec<Vec<u8>>,
    pub timestamp: u64,
    pub att_pubkey: Vec<u8>,
    pub signature: Vec<u8>,
}

/// The mathematical value of a [`Quote`].
#[verifier::ext_equal]
pub ghost struct QuoteView {
    pub report_data: Seq<u8>,
    pub registers: Seq<Seq<u8>>,
    pub timestamp: u64,
    pub att_pubkey: Seq<u8>,
    pub signature: Seq<u8>,
}

impl DeepView for Quote {
    type V = QuoteView;

    open spec fn deep_view(&self) -> QuoteView {
        QuoteView {
            report_data: self.report_data@,
            registers: self.registers.deep_view(),
            timestamp: self.timestamp,
            att_pubkey: self.att_pubkey@,
            signature: self.signature@,
        }
    }
}

/// Field widths as the layout fixes them.
pub open spec fn quote_wf(q: QuoteView) -> bool {
    &&& q.report_data.len() == REPORT_DATA_LEN
    &&& q.registers.len() == REGISTER_COUNT
    &&& (forall|i: int| 0 <= i < q.registers.len() ==> (#[trigger] q.registers[i]).len()
        == DIGEST_LEN)
    &&& q.att_pubkey.len() == 32
    &&& q.signature.len() == 64
}

/// The signed part of a quote: report data, registers, timestamp.
pub open spec fn quote_body_spec(q: QuoteView) -> Seq<u8> {
    q.report_data + q.registers[0] + q.registers[1] + q.registers[2] + q.registers[3] + le64(
        q.timestamp,
    )
}

/// The full encoding of a quote.
pub open spec fn encode_quote_spec(q: QuoteView) -> Seq<u8> {
    quote_body_spec(q) + q.att_pubkey + q.signature
}

/// The quote a byte string decodes to: any 360-byte string decodes, so that
/// tampering with evidence is caught by signature verification, not masked as
/// a parse failure.
pub open spec fn parse_quote_spec(b: Seq<u8>) -> Option<QuoteView> {
    if b.len() != QUOTE_LEN {
        None
    } else {
        Some(
            QuoteView {
                report_data: b.subrange(0, 64),
                registers: seq![
                    b.subrange(64, 112),
                    b.subrange(112, 160),
                    b.subrange(160, 208),
                    b.subrange(208, 256),
                ],
                timestamp: le64_val(b.subrange(256, 264)),
                att_pubkey: b.subrange(264, 296),
                signature: b.subrange(296, 360),
            },
        )
    }
}

/// Parsing inverts encoding on well-formed quotes.
pub proof fn lemma_quote_codec_round_trip(q: QuoteView)
    requires
        quote_wf(q),
    ensures
        parse_quote_spec(encode_quote_spec(q)) == Some(q),
{
    let b = encode_quote_spec(q);
    assert(b.len() == QUOTE_LEN);
    let p = parse_quote_spec(b)->Some_0;
    assert(p.report_data =~= q.report_data);
    assert(p.registers[0] =~= q.registers[0]);
    assert(p.registers[1] =~= q.registers[1]);
    assert(p.registers[2] =~= q.registers[2]);
    assert(p.registers[3] =~= q.registers[3]);
    assert(p.registers =~= q.registers);
    assert(b.subrange(256, 264) =~= le64(q.timestamp));
    lemma_le64_round_trip(q.timestamp);
    assert(p.att_pubkey =~= q.att_pubkey);
    assert(p.signature =~= q.signature);
    assert(p =~~= q);
}

/// Decodes a quote; rejects exactly the byte strings of the wrong length.
pub fn parse_quote(bytes: &Vec<u8>) -> (r: Option<Quote>)
    ensures
        match r {
            Some(q) => parse_quote_spec(bytes@) == Some(q.deep_view()) && quote_wf(q.deep_view()),
            None => parse_quote_spec(bytes@) is None,
        },
{
    if bytes.len() != QUOTE_LEN {
        return None;
    }
    let report_data = copy_range(bytes, 0, 64);
    let mut registers: Vec<Vec<u8>> = Vec::new();
    registers.push(copy_range(bytes, 64, 112));
    registers.push(copy_range(bytes, 112, 160));
    registers.push(copy_range(bytes, 160, 208));
    registers.push(copy_range(bytes, 208, 256));
    let timestamp = read_le64(bytes, 256);
    let att_pubkey = copy_range(bytes, 264, 296);
    let signature = copy_range(bytes, 296, 360);
    let q = Quote { report_data, registers, timestamp, att_pubkey, signature };
    proof {
        assert(q.registers.deep_view() =~~= parse_quote_spec(bytes@)->Some_0.registers);
        assert(q.deep_view() =~~= parse_quote_spec(bytes@)->Some_0);
    }
    Some(q)
}

/// Encodes a quote in the fixed layout.
pub fn encode_quote(q: &Quote) -> (r: Vec<u8>)
    requires
        quote_wf(q.deep_view()),
    ensures
        r@ == encode_quote_spec(q.deep_view()),
{
    let mut out = quote_body(q);
    append_bytes(&mut out, &q.att_pubkey);
    append_bytes(&mut out, &q.signature);
    proof {
        assert(out@ =~= encode_quote_spec(q.deep_view()));
    }
    out
}

/// Returns the signed part of a quote.
pub fn quote_body(q: &Quote) -> (r: Vec<u8>)
    requires
        quote_wf(q.deep_view()),
    ensures
        r@ == quote_body_spec(q.deep_view()),
{
    let mut out: Vec<u8> = Vec::new();
    append_bytes(&mut out, &q.report_data);
    append_bytes(&mut out, &q.registers[0]);
    append_bytes(&mut out, &q.registers[1]);
    append_bytes(&mut out, &q.registers[2]);
    append_bytes(&mut out, &q.registers[3]);
    push_le64(&mut out, q.timestamp);
    proof {
        assert(out@ =~= quote_body_spec(q.deep_view()));
    }
    out
}

} // verus!
