//! The data model that XDR carries, and its wire form.
use vstd::prelude::*;
use vstd::utf8::{decode_utf8, encode_utf8, is_ascii_chars, valid_utf8};
use crate::errors::Error;
use crate::wire::{hyper_bytes, hyper_of, opaque_bytes, pad_len, word_at, word_bytes};

verus! {

/// The kind of a primitive XDR unit: what a reader asks the decoder for.
#[derive(Debug, Clone, Copy, PartialEq, Eq, Structural)]
pub enum Kind {
    Bool,
    Integer8,
    Integer16,
    Integer32,
    Integer64,
    UnsignedInteger8,
    UnsignedInteger16,
    UnsignedInteger32,
    UnsignedInteger64,
    Float,
    Double,
    String,
    Bytes,
    Unit,
}

/// A primitive value. Floats are held as their IEEE-754 bit patterns.
#[derive(Debug, Clone, PartialEq, Eq)]
pub enum Value {
    Bool(bool),
    Integer8(i8),
    Integer16(i16),
    Integer32(i32),
    Integer64(i64),
    UnsignedInteger8(u8),
    UnsignedInteger16(u16),
    UnsignedInteger32(u32),
    UnsignedInteger64(u64),
    Float(u32),
    Double(u64),
    String(String),
    Bytes(Vec<u8>),
    Unit,
}

/// The mathematical content of a `Value`.
pub enum SpecValue {
    Bool(bool),
    Integer8(i8),
    Integer16(i16),
    Integer32(i32),
    Integer64(i64),
    UnsignedInteger8(u8),
    UnsignedInteger16(u16),
    UnsignedInteger32(u32),
    UnsignedInteger64(u64),
    Float(u32),
    Double(u64),
    String(Seq<char>),
    Bytes(Seq<u8>),
    Unit,
}

impl View for Value {
    type V = SpecValue;

    open spec fn view(&self) -> SpecValue {
        match self {
            Value::Bool(b) => SpecValue::Bool(*b),
            Value::Integer8(x) => SpecValue::Integer8(*x),
            Value::Integer16(x) => SpecValue::Integer16(*x),
            Value::Integer32(x) => SpecValue::Integer32(*x),
            Value::Integer64(x) => SpecValue::Integer64(*x),
            Value::UnsignedInteger8(x) => SpecValue::UnsignedInteger8(*x),
            Value::UnsignedInteger16(x) => SpecValue::UnsignedInteger16(*x),
            Value::UnsignedInteger32(x) => SpecValue::UnsignedInteger32(*x),
            Value::UnsignedInteger64(x) => SpecValue::UnsignedInteger64(*x),
            Value::Float(x) => SpecValue::Float(*x),
            Value::Double(x) => SpecValue::Double(*x),
            Value::String(s) => SpecValue::String(s@),
            Value::Bytes(b) => SpecValue::Bytes(b@),
            Value::Unit => SpecValue::Unit,
        }
    }
}

/// The kind that a value belongs to.
pub open spec fn kind_of(v: SpecValue) -> Kind {
    match v {
        SpecValue::Bool(_) => Kind::Bool,
        SpecValue::Integer8(_) => Kind::Integer8,
        SpecValue::Integer16(_) => Kind::Integer16,
        SpecValue::Integer32(_) => Kind::Integer32,
        SpecValue::Integer64(_) => Kind::Integer64,
        SpecValue::UnsignedInteger8(_) => Kind::UnsignedInteger8,
        SpecValue::UnsignedInteger16(_) => Kind::UnsignedInteger16,
        SpecValue::UnsignedInteger32(_) => Kind::UnsignedInteger32,
        SpecValue::UnsignedInteger64(_) => Kind::UnsignedInteger64,
        SpecValue::Float(_) => Kind::Float,
        SpecValue::Double(_) => Kind::Double,
        SpecValue::String(_) => Kind::String,
        SpecValue::Bytes(_) => Kind::Bytes,
        SpecValue::Unit => Kind::Unit,
    }
}

/// Whether a value can be written.
pub open spec fn encodable(v: SpecValue) -> bool {
    match v {
        SpecValue::String(s) => is_ascii_chars(s) && encode_utf8(s).len() <= u32::MAX,
        SpecValue::Bytes(b) => b.len() <= u32::MAX,
        _ => true,
    }
}

/// The XDR bytes of a value.
pub open spec fn encoding(v: SpecValue) -> Seq<u8> {
    match v {
        SpecValue::Bool(b) => word_bytes(if b { 1u32 } else { 0u32 }),
        SpecValue::Integer8(x) => word_bytes(x as i32 as u32),
        SpecValue::Integer16(x) => word_bytes(x as i32 as u32),
        SpecValue::Integer32(x) => word_bytes(x as u32),
        SpecValue::Integer64(x) => hyper_bytes(x as u64),
        SpecValue::UnsignedInteger8(x) => word_bytes(x as u32),
        SpecValue::UnsignedInteger16(x) => word_bytes(x as u32),
        SpecValue::UnsignedInteger32(x) => word_bytes(x),
        SpecValue::UnsignedInteger64(x) => hyper_bytes(x),
        SpecValue::Float(x) => word_bytes(x),
        SpecValue::Double(x) => hyper_bytes(x),
        SpecValue::String(s) => opaque_bytes(encode_utf8(s)),
        SpecValue::Bytes(b) => opaque_bytes(b),
        SpecValue::Unit => Seq::empty(),
    }
}

/// The failure of a read of `needed` bytes at `pos`.
pub open spec fn eof(pos: int, needed: int) -> Error {
    Error::UnexpectedEof { position: pos as u64, needed: needed as u64 }
}

/// The 64-bit word stored at offset `p` of `s`.
pub open spec fn hyper_at(s: Seq<u8>, p: int) -> u64 {
    hyper_of(word_at(s, p), word_at(s, p + 4))
}

/// Reading a word-sized unit of kind `k` whose word is `w`.
pub open spec fn word_value(k: Kind, w: u32) -> Result<SpecValue, Error> {
    match k {
        Kind::Bool => if w == 0 {
            Ok(SpecValue::Bool(false))
        } else if w == 1 {
            Ok(SpecValue::Bool(true))
        } else {
            Err(Error::InvalidBool)
        },
        Kind::Integer8 => if w as i32 as i8 as i32 == w as i32 {
            Ok(SpecValue::Integer8(w as i32 as i8))
        } else {
            Err(Error::InvalidInteger(8, w as i32))
        },
        Kind::Integer16 => if w as i32 as i16 as i32 == w as i32 {
            Ok(SpecValue::Integer16(w as i32 as i16))
        } else {
            Err(Error::InvalidInteger(16, w as i32))
        },
        Kind::Integer32 => Ok(SpecValue::Integer32(w as i32)),
        Kind::UnsignedInteger8 => if w as u8 as u32 == w {
            Ok(SpecValue::UnsignedInteger8(w as u8))
        } else {
            Err(Error::InvalidUnsignedInteger(8, w))
        },
        Kind::UnsignedInteger16 => if w as u16 as u32 == w {
            Ok(SpecValue::UnsignedInteger16(w as u16))
        } else {
            Err(Error::InvalidUnsignedInteger(16, w))
        },
        Kind::UnsignedInteger32 => Ok(SpecValue::UnsignedInteger32(w)),
        _ => Ok(SpecValue::Float(w)),
    }
}

/// Whether units of kind `k` take one word.
pub open spec fn is_word_kind(k: Kind) -> bool {
    match k {
        Kind::Bool | Kind::Integer8 | Kind::Integer16 | Kind::Integer32 | Kind::UnsignedInteger8
        | Kind::UnsignedInteger16 | Kind::UnsignedInteger32 | Kind::Float => true,
        _ => false,
    }
}

/// Reading a unit of kind `k` from `data` at `pos`: the value and the position
/// just after the unit, or the failure.
pub open spec fn decode_at(k: Kind, data: Seq<u8>, pos: int) -> Result<(SpecValue, int), Error> {
    if is_word_kind(k) {
        if pos + 4 > data.len() {
            Err(eof(pos, 4))
        } else {
            match word_value(k, word_at(data, pos)) {
                Ok(v) => Ok((v, pos + 4)),
                Err(e) => Err(e),
            }
        }
    } else {
        match k {
            Kind::Integer64 | Kind::UnsignedInteger64 | Kind::Double => if pos + 8 > data.len() {
                Err(eof(pos, 8))
            } else {
                let h = hyper_at(data, pos);
                Ok((
                    if k == Kind::Integer64 {
                        SpecValue::Integer64(h as i64)
                    } else if k == Kind::UnsignedInteger64 {
                        SpecValue::UnsignedInteger64(h)
                    } else {
                        SpecValue::Double(h)
                    },
                    pos + 8,
                ))
            },
            Kind::String | Kind::Bytes => if pos + 4 > data.len() {
                Err(eof(pos, 4))
            } else {
                let n = word_at(data, pos) as int;
                let end = pos + 4 + n + pad_len(n as nat);
                if end > data.len() {
                    Err(eof(pos + 4, n + pad_len(n as nat)))
                } else {
                    let b = data.subrange(pos + 4, pos + 4 + n);
                    if k == Kind::Bytes {
                        Ok((SpecValue::Bytes(b), end))
                    } else if valid_utf8(b) {
                        Ok((SpecValue::String(decode_utf8(b)), end))
                    } else {
                        Err(Error::DeserializeString)
                    }
                }
            },
            _ => Ok((SpecValue::Unit, pos)),
        }
    }
}

/// The models of a run of values.
pub open spec fn views(vs: Seq<Value>) -> Seq<SpecValue> {
    vs.map_values(|v: Value| v@)
}

/// Reading units of kinds `kinds`, one after another, from `data` at `pos`.
pub open spec fn decode_many(kinds: Seq<Kind>, data: Seq<u8>, pos: int) -> Result<
    (Seq<SpecValue>, int),
    Error,
>
    decreases kinds.len(),
{
    if kinds.len() == 0 {
        Ok((Seq::empty(), pos))
    } else {
        match decode_many(kinds.drop_last(), data, pos) {
            Ok((vs, p)) => match decode_at(kinds.last(), data, p) {
                Ok((v, q)) => Ok((vs.push(v), q)),
                Err(e) => Err(e),
            },
            Err(e) => Err(e),
        }
    }
}

/// `n` times the kind `k`.
pub open spec fn repeat(k: Kind, n: nat) -> Seq<Kind> {
    Seq::new(n, |i: int| k)
}

/// Reading a sequence of units of kind `k`: a count word, then that many units.
pub open spec fn decode_seq(k: Kind, data: Seq<u8>, pos: int) -> Result<(Seq<SpecValue>, int), Error> {
    if pos + 4 > data.len() {
        Err(eof(pos, 4))
    } else {
        decode_many(repeat(k, word_at(data, pos) as nat), data, pos + 4)
    }
}

/// Reading an optional unit of kind `k`: a boolean tag, then the unit if the
/// tag is true.
pub open spec fn decode_option(k: Kind, data: Seq<u8>, pos: int) -> Result<
    (Option<SpecValue>, int),
    Error,
> {
    match decode_at(Kind::Bool, data, pos) {
        Ok((SpecValue::Bool(true), p)) => match decode_at(k, data, p) {
            Ok((v, q)) => Ok((Some(v), q)),
            Err(e) => Err(e),
        },
        Ok((_, p)) => Ok((None, p)),
        Err(e) => Err(e),
    }
}

} // verus!
