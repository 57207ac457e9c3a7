//! Byte-level layout of XDR units: big-endian words and zero padding.
use vstd::prelude::*;

verus! {

/// The four big-endian bytes of a 32-bit word.
pub open spec fn word_bytes(w: u32) -> Seq<u8> {
    seq![(w >> 24u32) as u8, (w >> 16u32) as u8, (w >> 8u32) as u8, w as u8]
}

/// The 32-bit word whose big-endian bytes are `b0 b1 b2 b3`.
pub open spec fn word_of(b0: u8, b1: u8, b2: u8, b3: u8) -> u32 {
    ((b0 as u32) << 24u32) | ((b1 as u32) << 16u32) | ((b2 as u32) << 8u32) | (b3 as u32)
}

/// The word stored at offset `p` of `s`.
pub open spec fn word_at(s: Seq<u8>, p: int) -> u32 {
    word_of(s[p], s[p + 1], s[p + 2], s[p + 3])
}

pub proof fn lemma_word_round_trip(w: u32)
    ensures
        word_of((w >> 24u32) as u8, (w >> 16u32) as u8, (w >> 8u32) as u8, w as u8) == w,
{
    assert(((((w >> 24u32) as u8) as u32) << 24u32) | ((((w >> 16u32) as u8) as u32) << 16u32)
        | ((((w >> 8u32) as u8) as u32) << 8u32) | ((w as u8) as u32) == w) by (bit_vector);
}

/// Encodes `w` big-endian.
pub fn write_word(out: &mut Vec<u8>, w: u32)
    ensures
        final(out)@ == old(out)@ + word_bytes(w),
{
    out.push((w >> 24u32) as u8);
    out.push((w >> 16u32) as u8);
    out.push((w >> 8u32) as u8);
    out.push(w as u8);
    assert(out@ =~= old(out)@ + word_bytes(w));
}

/// The eight big-endian bytes of a 64-bit word: high half first.
pub open spec fn hyper_bytes(h: u64) -> Seq<u8> {
    word_bytes((h >> 32u64) as u32) + word_bytes(h as u32)
}

/// The 64-bit word made of two 32-bit halves.
pub open spec fn hyper_of(hi: u32, lo: u32) -> u64 {
    ((hi as u64) << 32u64) | (lo as u64)
}

pub proof fn lemma_hyper_round_trip(h: u64)
    ensures
        hyper_of((h >> 32u64) as u32, h as u32) == h,
{
    assert(((((h >> 32u64) as u32) as u64) << 32u64) | ((h as u32) as u64) == h) by (bit_vector);
}

/// Number of zero bytes that bring `n` bytes of content to a 4-byte boundary.
pub open spec fn pad_len(n: nat) -> nat {
    ((4 - n % 4) % 4) as nat
}

/// `n` zero bytes.
pub open spec fn zeros(n: nat) -> Seq<u8> {
    Seq::new(n, |i: int| 0u8)
}

/// A variable-length unit: its length as a word, the content, then zero padding.
pub open spec fn opaque_bytes(b: Seq<u8>) -> Seq<u8> {
    word_bytes(b.len() as u32) + b + zeros(pad_len(b.len()))
}

/// Encodes `h` big-endian.
pub fn write_hyper(out: &mut Vec<u8>, h: u64)
    ensures
        final(out)@ == old(out)@ + hyper_bytes(h),
{
    write_word(out, (h >> 32u64) as u32);
    write_word(out, h as u32);
    assert(out@ =~= old(out)@ + hyper_bytes(h));
}

/// Appends the padding that follows `n` bytes of content.
pub fn write_padding(out: &mut Vec<u8>, n: usize)
    ensures
        final(out)@ == old(out)@ + zeros(pad_len(n as nat)),
{
    let pad: usize = (4 - n % 4) % 4;
    let mut i: usize = 0;
    while i < pad
        invariant
            pad == pad_len(n as nat),
            i <= pad,
            out@ == old(out)@ + zeros(i as nat),
        decreases pad - i,
    {
        out.push(0u8);
        i = i + 1;
        assert(out@ =~= old(out)@ + zeros(i as nat));
    }
}

/// Appends the bytes of `b`.
pub fn write_raw(out: &mut Vec<u8>, b: &[u8])
    ensures
        final(out)@ == old(out)@ + b@,
{
    let mut i: usize = 0;
    while i < b.len()
        invariant
            i <= b@.len(),
            out@ == old(out)@ + b@.subrange(0, i as int),
        decreases b@.len() - i,
    {
        out.push(b[i]);
        i = i + 1;
        assert(out@ =~= old(out)@ + b@.subrange(0, i as int));
    }
    assert(b@.subrange(0, b@.len() as int) =~= b@);
}

/// Appends a variable-length unit holding `b`.
pub fn write_opaque(out: &mut Vec<u8>, b: &[u8])
    requires
        b@.len() <= u32::MAX,
    ensures
        final(out)@ == old(out)@ + opaque_bytes(b@),
{
    write_word(out, b.len() as u32);
    write_raw(out, b);
    write_padding(out, b.len());
    assert(out@ =~= old(out)@ + opaque_bytes(b@));
}

} // verus!
