//! What holds between writing and reading: every value that can be written
//! reads back as itself, from any offset, and every unit ends on a word
//! boundary.
use vstd::prelude::*;
use vstd::utf8::{encode_utf8, encode_utf8_decode_utf8, encode_utf8_valid_utf8};
use crate::value::{
    Kind, SpecValue, decode_at, decode_many, decode_option, decode_seq, encodable, encoding, hyper_at,
    is_word_kind, kind_of, repeat, word_value,
};
use crate::wire::{
    hyper_bytes, lemma_hyper_round_trip, lemma_word_round_trip, opaque_bytes, pad_len, word_at,
    word_bytes, zeros,
};

verus! {

/// A word written at offset `p` reads back as itself.
pub proof fn lemma_word_at(pre: Seq<u8>, w: u32, rest: Seq<u8>)
    ensures
        word_at(pre + word_bytes(w) + rest, pre.len() as int) == w,
{
    let d = pre + word_bytes(w) + rest;
    let p = pre.len() as int;
    assert(d[p] == word_bytes(w)[0]);
    assert(d[p + 1] == word_bytes(w)[1]);
    assert(d[p + 2] == word_bytes(w)[2]);
    assert(d[p + 3] == word_bytes(w)[3]);
    lemma_word_round_trip(w);
}

/// A 64-bit word written at offset `p` reads back as itself.
pub proof fn lemma_hyper_at(pre: Seq<u8>, h: u64, rest: Seq<u8>)
    ensures
        hyper_at(pre + hyper_bytes(h) + rest, pre.len() as int) == h,
{
    let hi = (h >> 32u64) as u32;
    let lo = h as u32;
    assert(pre + hyper_bytes(h) + rest =~= pre + word_bytes(hi) + (word_bytes(lo) + rest));
    lemma_word_at(pre, hi, word_bytes(lo) + rest);
    assert(pre + hyper_bytes(h) + rest =~= (pre + word_bytes(hi)) + word_bytes(lo) + rest);
    lemma_word_at(pre + word_bytes(hi), lo, rest);
    lemma_hyper_round_trip(h);
}

proof fn lemma_narrow_casts(x8: i8, x16: i16, u8v: u8, u16v: u16)
    ensures
        ((x8 as i32 as u32) as i32) as i8 as i32 == (x8 as i32 as u32) as i32,
        ((x8 as i32 as u32) as i32) as i8 == x8,
        ((x16 as i32 as u32) as i32) as i16 as i32 == (x16 as i32 as u32) as i32,
        ((x16 as i32 as u32) as i32) as i16 == x16,
        (u8v as u32) as u8 as u32 == u8v as u32,
        (u8v as u32) as u8 == u8v,
        (u16v as u32) as u16 as u32 == u16v as u32,
        (u16v as u32) as u16 == u16v,
{
    assert(((x8 as i32 as u32) as i32) as i8 as i32 == (x8 as i32 as u32) as i32) by (bit_vector);
    assert(((x8 as i32 as u32) as i32) as i8 == x8) by (bit_vector);
    assert(((x16 as i32 as u32) as i32) as i16 as i32 == (x16 as i32 as u32) as i32) by (bit_vector);
    assert(((x16 as i32 as u32) as i32) as i16 == x16) by (bit_vector);
    assert((u8v as u32) as u8 as u32 == u8v as u32) by (bit_vector);
    assert((u8v as u32) as u8 == u8v) by (bit_vector);
    assert((u16v as u32) as u16 as u32 == u16v as u32) by (bit_vector);
    assert((u16v as u32) as u16 == u16v) by (bit_vector);
}

proof fn lemma_wide_casts(x32: i32, x64: i64)
    ensures
        (x32 as u32) as i32 == x32,
        (x64 as u64) as i64 == x64,
{
    assert((x32 as u32) as i32 == x32) by (bit_vector);
    assert((x64 as u64) as i64 == x64) by (bit_vector);
}

/// A variable-length unit written at offset `p` reads back as its content,
/// and the cursor lands just past its padding.
proof fn lemma_opaque_at(pre: Seq<u8>, b: Seq<u8>, rest: Seq<u8>)
    requires
        b.len() <= u32::MAX,
    ensures
        ({
            let d = pre + opaque_bytes(b) + rest;
            let p = pre.len() as int;
            &&& p + 4 <= d.len()
            &&& word_at(d, p) as int == b.len()
            &&& p + 4 + b.len() + pad_len(b.len()) <= d.len()
            &&& d.subrange(p + 4, p + 4 + b.len()) == b
            &&& 4 + b.len() + pad_len(b.len()) == opaque_bytes(b).len()
        }),
{
    let d = pre + opaque_bytes(b) + rest;
    let p = pre.len() as int;
    let w = b.len() as u32;
    assert(d =~= pre + word_bytes(w) + (b + zeros(pad_len(b.len())) + rest));
    lemma_word_at(pre, w, b + zeros(pad_len(b.len())) + rest);
    assert(d.subrange(p + 4, p + 4 + b.len()) =~= b);
}

/// Every value that can be written reads back as itself, from any offset
/// and whatever follows it; the reader moves by exactly the bytes written,
/// and that count is a multiple of four.
#[verifier::rlimit(50)]
pub proof fn lemma_round_trip(pre: Seq<u8>, v: SpecValue, rest: Seq<u8>)
    requires
        encodable(v),
    ensures
        decode_at(kind_of(v), pre + encoding(v) + rest, pre.len() as int) == Ok::<
            (SpecValue, int),
            crate::errors::Error,
        >((v, (pre.len() + encoding(v).len()) as int)),
        encoding(v).len() % 4 == 0,
{
    let d = pre + encoding(v) + rest;
    let p = pre.len() as int;
    match v {
        SpecValue::Bool(b) => lemma_word_at(pre, if b { 1u32 } else { 0u32 }, rest),
        SpecValue::Integer8(x) => {
            lemma_word_at(pre, x as i32 as u32, rest);
            lemma_narrow_casts(x, 0, 0, 0);
        },
        SpecValue::Integer16(x) => {
            lemma_word_at(pre, x as i32 as u32, rest);
            lemma_narrow_casts(0, x, 0, 0);
        },
        SpecValue::Integer32(x) => {
            lemma_word_at(pre, x as u32, rest);
            lemma_wide_casts(x, 0);
        },
        SpecValue::UnsignedInteger8(x) => {
            lemma_word_at(pre, x as u32, rest);
            lemma_narrow_casts(0, 0, x, 0);
        },
        SpecValue::UnsignedInteger16(x) => {
            lemma_word_at(pre, x as u32, rest);
            lemma_narrow_casts(0, 0, 0, x);
        },
        SpecValue::UnsignedInteger32(x) => lemma_word_at(pre, x, rest),
        SpecValue::Float(x) => lemma_word_at(pre, x, rest),
        SpecValue::Integer64(x) => {
            lemma_hyper_at(pre, x as u64, rest);
            lemma_wide_casts(0, x);
        },
        SpecValue::UnsignedInteger64(x) => lemma_hyper_at(pre, x, rest),
        SpecValue::Double(x) => lemma_hyper_at(pre, x, rest),
        SpecValue::String(s) => {
            lemma_opaque_at(pre, encode_utf8(s), rest);
            encode_utf8_valid_utf8(s);
            encode_utf8_decode_utf8(s);
        },
        SpecValue::Bytes(b) => lemma_opaque_at(pre, b, rest),
        SpecValue::Unit => {},
    }
}

/// The bytes of a run of values, one after another.
pub open spec fn encode_many(vs: Seq<SpecValue>) -> Seq<u8>
    decreases vs.len(),
{
    if vs.len() == 0 {
        Seq::empty()
    } else {
        encode_many(vs.drop_last()) + encoding(vs.last())
    }
}

/// The bytes of a sequence: its count, then its elements.
pub open spec fn seq_encoding(vs: Seq<SpecValue>) -> Seq<u8> {
    word_bytes(vs.len() as u32) + encode_many(vs)
}

/// A run of values that can be written reads back as itself when read by
/// their kinds, and ends on a word boundary.
#[verifier::rlimit(50)]
pub proof fn lemma_many_round_trip(pre: Seq<u8>, vs: Seq<SpecValue>, rest: Seq<u8>)
    requires
        forall|i: int| 0 <= i < vs.len() ==> encodable(#[trigger] vs[i]),
    ensures
        decode_many(vs.map_values(|v: SpecValue| kind_of(v)), pre + encode_many(vs) + rest, pre.len() as int)
            == Ok::<(Seq<SpecValue>, int), crate::errors::Error>(
            (vs, (pre.len() + encode_many(vs).len()) as int),
        ),
        encode_many(vs).len() % 4 == 0,
    decreases vs.len(),
{
    let kinds = vs.map_values(|v: SpecValue| kind_of(v));
    if vs.len() == 0 {
        assert(kinds.len() == 0);
        assert(vs =~= Seq::<SpecValue>::empty());
    } else {
        let init = vs.drop_last();
        let last = vs.last();
        assert(kinds.drop_last() =~= init.map_values(|v: SpecValue| kind_of(v)));
        assert forall|i: int| 0 <= i < init.len() implies encodable(#[trigger] init[i]) by {
            assert(init[i] == vs[i]);
        }
        assert(pre + encode_many(vs) + rest =~= pre + encode_many(init) + (encoding(last) + rest));
        lemma_many_round_trip(pre, init, encoding(last) + rest);
        assert(encodable(vs[vs.len() - 1]));
        assert(pre + encode_many(vs) + rest =~= (pre + encode_many(init)) + encoding(last) + rest);
        lemma_round_trip(pre + encode_many(init), last, rest);
        assert(kinds.last() == kind_of(last));
        assert(init.push(last) =~= vs);
        assert(encode_many(vs).len() == encode_many(init).len() + encoding(last).len());
    }
}

/// A sequence of values of one kind, whose count fits in a word, reads back
/// as itself; the reader lands on the word boundary where its bytes end.
pub proof fn lemma_seq_round_trip(pre: Seq<u8>, k: Kind, vs: Seq<SpecValue>, rest: Seq<u8>)
    requires
        vs.len() <= u32::MAX,
        forall|i: int| 0 <= i < vs.len() ==> encodable(#[trigger] vs[i]) && kind_of(vs[i]) == k,
    ensures
        decode_seq(k, pre + seq_encoding(vs) + rest, pre.len() as int) == Ok::<
            (Seq<SpecValue>, int),
            crate::errors::Error,
        >((vs, (pre.len() + seq_encoding(vs).len()) as int)),
        seq_encoding(vs).len() % 4 == 0,
{
    let n = vs.len() as u32;
    let d = pre + seq_encoding(vs) + rest;
    assert(d =~= pre + word_bytes(n) + (encode_many(vs) + rest));
    lemma_word_at(pre, n, encode_many(vs) + rest);
    assert(repeat(k, n as nat) =~= vs.map_values(|v: SpecValue| kind_of(v)));
    assert(d =~= (pre + word_bytes(n)) + encode_many(vs) + rest);
    lemma_many_round_trip(pre + word_bytes(n), vs, rest);
}

/// `None` reads back from its tag alone; `Some(v)` from its tag and `v`.
pub proof fn lemma_option_round_trip(pre: Seq<u8>, v: Option<SpecValue>, k: Kind, rest: Seq<u8>)
    requires
        v matches Some(x) ==> encodable(x) && kind_of(x) == k,
    ensures
        v is None ==> decode_option(k, pre + word_bytes(0) + rest, pre.len() as int) == Ok::<
            (Option<SpecValue>, int),
            crate::errors::Error,
        >((None, pre.len() + 4int)),
        v matches Some(x) ==> decode_option(
            k,
            pre + (word_bytes(1) + encoding(x)) + rest,
            pre.len() as int,
        ) == Ok::<(Option<SpecValue>, int), crate::errors::Error>(
            (Some(x), (pre.len() + 4 + encoding(x).len()) as int),
        ),
{
    match v {
        None => lemma_word_at(pre, 0, rest),
        Some(x) => {
            let d = pre + (word_bytes(1) + encoding(x)) + rest;
            assert(d =~= pre + word_bytes(1) + (encoding(x) + rest));
            lemma_word_at(pre, 1, encoding(x) + rest);
            assert(d =~= (pre + word_bytes(1)) + encoding(x) + rest);
            lemma_round_trip(pre + word_bytes(1), x, rest);
        },
    }
}

/// A boolean reads only from the words 0 and 1; any other word is refused.
pub proof fn lemma_bool_domain(w: u32)
    ensures
        word_value(Kind::Bool, w) == (if w == 0 {
            Ok::<SpecValue, crate::errors::Error>(SpecValue::Bool(false))
        } else if w == 1 {
            Ok(SpecValue::Bool(true))
        } else {
            Err(crate::errors::Error::InvalidBool)
        }),
{
}

/// An 8-bit signed integer reads from a word exactly when the word's upper
/// 25 bits are all equal, i.e. the word sign-extends its low byte; an 8-bit
/// unsigned one exactly when the upper 24 bits are zero.
pub proof fn lemma_narrow_extension(w: u32)
    ensures
        word_value(Kind::Integer8, w) is Ok <==> (w >> 7u32 == 0 || w >> 7u32 == 0x1ff_ffffu32),
        word_value(Kind::UnsignedInteger8, w) is Ok <==> w >> 8u32 == 0,
        word_value(Kind::Integer16, w) is Ok <==> (w >> 15u32 == 0 || w >> 15u32 == 0x1_ffffu32),
        word_value(Kind::UnsignedInteger16, w) is Ok <==> w >> 16u32 == 0,
{
    assert((w as i32) as i8 as i32 == w as i32 <==> (w >> 7u32 == 0 || w >> 7u32 == 0x1ff_ffffu32))
        by (bit_vector);
    assert((w as u8) as u32 == w <==> w >> 8u32 == 0) by (bit_vector);
    assert((w as i32) as i16 as i32 == w as i32 <==> (w >> 15u32 == 0 || w >> 15u32 == 0x1_ffffu32))
        by (bit_vector);
    assert((w as u16) as u32 == w <==> w >> 16u32 == 0) by (bit_vector);
}

} // verus!
