//! Little-endian integer encodings used by the quote and event-log layouts,
//! and small byte-string helpers.

use vstd::prelude::*;

verus! {

/// The four-byte little-endian encoding of a 32-bit integer.
pub open spec fn le32(n: u32) -> Seq<u8> {
    seq![
        (n & 0xff) as u8,
        ((n >> 8) & 0xff) as u8,
        ((n >> 16) & 0xff) as u8,
        ((n >> 24) & 0xff) as u8,
    ]
}

/// The 32-bit integer a four-byte little-endian string denotes.
pub open spec fn le32_val(s: Seq<u8>) -> u32
    recommends
        s.len() == 4,
{
    (s[0] as u32) | ((s[1] as u32) << 8) | ((s[2] as u32) << 16) | ((s[3] as u32) << 24)
}

/// The eight-byte little-endian encoding of a 64-bit integer.
pub open spec fn le64(n: u64) -> Seq<u8> {
    seq![
        (n & 0xff) as u8,
        ((n >> 8) & 0xff) as u8,
        ((n >> 16) & 0xff) as u8,
        ((n >> 24) & 0xff) as u8,
        ((n >> 32) & 0xff) as u8,
        ((n >> 40) & 0xff) as u8,
        ((n >> 48) & 0xff) as u8,
        ((n >> 56) & 0xff) as u8,
    ]
}

/// The 64-bit integer an eight-byte little-endian string denotes.
pub open spec fn le64_val(s: Seq<u8>) -> u64
    recommends
        s.len() == 8,
{
    (s[0] as u64) | ((s[1] as u64) << 8) | ((s[2] as u64) << 16) | ((s[3] as u64) << 24)
        | ((s[4] as u64) << 32) | ((s[5] as u64) << 40) | ((s[6] as u64) << 48)
        | ((s[7] as u64) << 56)
}

/// Decoding inverts encoding for 32-bit integers.
pub proof fn lemma_le32_round_trip(n: u32)
    ensures
        le32_val(le32(n)) == n,
{
    assert((((n & 0xff) as u8) as u32) | (((((n >> 8) & 0xff) as u8) as u32) << 8)
        | (((((n >> 16) & 0xff) as u8) as u32) << 16) | (((((n >> 24) & 0xff) as u8) as u32) << 24)
        == n) by (bit_vector);
}

/// Decoding inverts encoding for 64-bit integers.
pub proof fn lemma_le64_round_trip(n: u64)
    ensures
        le64_val(le64(n)) == n,
{
    assert((((n & 0xff) as u8) as u64) | (((((n >> 8) & 0xff) as u8) as u64) << 8)
        | (((((n >> 16) & 0xff) as u8) as u64) << 16) | (((((n >> 24) & 0xff) as u8) as u64) << 24)
        | (((((n >> 32) & 0xff) as u8) as u64) << 32) | (((((n >> 40) & 0xff) as u8) as u64) << 40)
        | (((((n >> 48) & 0xff) as u8) as u64) << 48) | (((((n >> 56) & 0xff) as u8) as u64) << 56)
        == n) by (bit_vector);
}

/// Appends the little-endian encoding of `n` to `out`.
pub fn push_le32(out: &mut Vec<u8>, n: u32)
    ensures
        final(out)@ == old(out)@ + le32(n),
{
    proof {
        assert((n & 0xff) < 256 && ((n >> 8) & 0xff) < 256 && ((n >> 16) & 0xff) < 256 && ((n
            >> 24) & 0xff) < 256) by (bit_vector);
    }
    out.push((n & 0xff) as u8);
    out.push(((n >> 8) & 0xff) as u8);
    out.push(((n >> 16) & 0xff) as u8);
    out.push(((n >> 24) & 0xff) as u8);
    proof {
        assert(out@ =~= old(out)@ + le32(n));
    }
}

/// Appends the little-endian encoding of `n` to `out`.
pub fn push_le64(out: &mut Vec<u8>, n: u64)
    ensures
        final(out)@ == old(out)@ + le64(n),
{
    proof {
        assert((n & 0xff) < 256 && ((n >> 8) & 0xff) < 256 && ((n >> 16) & 0xff) < 256 && ((n
            >> 24) & 0xff) < 256 && ((n >> 32) & 0xff) < 256 && ((n >> 40) & 0xff) < 256 && ((n
            >> 48) & 0xff) < 256 && ((n >> 56) & 0xff) < 256) by (bit_vector);
    }
    out.push((n & 0xff) as u8);
    out.push(((n >> 8) & 0xff) as u8);
    out.push(((n >> 16) & 0xff) as u8);
    out.push(((n >> 24) & 0xff) as u8);
    out.push(((n >> 32) & 0xff) as u8);
    out.push(((n >> 40) & 0xff) as u8);
    out.push(((n >> 48) & 0xff) as u8);
    out.push(((n >> 56) & 0xff) as u8);
    proof {
        assert(out@ =~= old(out)@ + le64(n));
    }
}

/// Reads the 32-bit little-endian integer at `pos`.
pub fn read_le32(src: &Vec<u8>, pos: usize) -> (r: u32)
    requires
        pos + 4 <= src@.len(),
    ensures
        r == le32_val(src@.subrange(pos as int, pos as int + 4)),
{
    let n = src.len();
    proof {
        assert(pos + 4 <= n);
    }
    let r = (src[pos] as u32) | ((src[pos + 1] as u32) << 8) | ((src[pos + 2] as u32) << 16) | ((
    src[pos + 3] as u32) << 24);
    proof {
        let s = src@.subrange(pos as int, pos as int + 4);
        assert(s[0] == src@[pos as int] && s[1] == src@[pos as int + 1] && s[2] == src@[pos as int
            + 2] && s[3] == src@[pos as int + 3]);
    }
    r
}

/// Reads the 64-bit little-endian integer at `pos`.
pub fn read_le64(src: &Vec<u8>, pos: usize) -> (r: u64)
    requires
        pos + 8 <= src@.len(),
    ensures
        r == le64_val(src@.subrange(pos as int, pos as int + 8)),
{
    let n = src.len();
    proof {
        assert(pos + 8 <= n);
    }
    let r = (src[pos] as u64) | ((src[pos + 1] as u64) << 8) | ((src[pos + 2] as u64) << 16) | ((
    src[pos + 3] as u64) << 24) | ((src[pos + 4] as u64) << 32) | ((src[pos + 5] as u64) << 40)
        | ((src[pos + 6] as u64) << 48) | ((src[pos + 7] as u64) << 56);
    proof {
        let s = src@.subrange(pos as int, pos as int + 8);
        assert(s[0] == src@[pos as int] && s[1] == src@[pos as int + 1] && s[2] == src@[pos as int
            + 2] && s[3] == src@[pos as int + 3] && s[4] == src@[pos as int + 4] && s[5] == src@[
        pos as int + 5] && s[6] == src@[pos as int + 6] && s[7] == src@[pos as int + 7]);
    }
    r
}

/// Copies `src[start..end]` into a fresh vector.
pub fn copy_range(src: &Vec<u8>, start: usize, end: usize) -> (r: Vec<u8>)
    requires
        start <= end <= src@.len(),
    ensures
        r@ == src@.subrange(start as int, end as int),
{
    let mut out: Vec<u8> = Vec::new();
    let mut i: usize = start;
    while i < end
        invariant
            start <= i <= end <= src@.len(),
            out@ == src@.subrange(start as int, i as int),
        decreases end - i,
    {
        out.push(src[i]);
        i = i + 1;
        proof {
            assert(out@ =~= src@.subrange(start as int, i as int));
        }
    }
    out
}

/// Appends all of `src` to `out`.
pub fn append_bytes(out: &mut Vec<u8>, src: &Vec<u8>)
    ensures
        final(out)@ == old(out)@ + src@,
{
    let mut i: usize = 0;
    while i < src.len()
        invariant
            i <= src@.len(),
            out@ == old(out)@ + src@.subrange(0, i as int),
        decreases src@.len() - i,
    {
        out.push(src[i]);
        i = i + 1;
        proof {
            assert(out@ =~= old(out)@ + src@.subrange(0, i as int));
        }
    }
    proof {
        assert(src@.subrange(0, src@.len() as int) =~= src@);
    }
}

} // verus!
