//! Reading XDR units from a byte source, one cursor step per unit.
use vstd::prelude::*;
use vstd::utf8::{decode_utf8, valid_utf8};
use crate::errors::Error;
use crate::value::{
    Kind, SpecValue, Value, decode_at, decode_many, decode_option, decode_seq, eof, hyper_at, repeat,
    views,
};
use crate::wire::{pad_len, word_at};

verus! {

/// What a decoder is: the bytes it reads and where its cursor stands.
pub struct DecoderState {
    pub bytes: Seq<u8>,
    pub position: int,
}

/// A cursor over an XDR byte source. The cursor only moves forward.
pub struct Deserializer {
    bytes: Vec<u8>,
    position: usize,
}

/// Relies on String::from_utf8: it accepts exactly well-formed UTF-8, and then
/// holds the characters that the bytes encode.
#[verifier::external_body]
fn string_from_utf8(b: Vec<u8>) -> (r: Option<String>)
    ensures
        r is Some <==> valid_utf8(b@),
        r matches Some(s) ==> s@ == decode_utf8(b@),
{
    String::from_utf8(b).ok()
}

impl View for Deserializer {
    type V = DecoderState;

    closed spec fn view(&self) -> DecoderState {
        DecoderState { bytes: self.bytes@, position: self.position as int }
    }
}

impl Deserializer {
    /// The cursor lies within the bytes.
    pub closed spec fn wf(&self) -> bool {
        self.position <= self.bytes.len()
    }

    /// A decoder whose cursor stands at the start of `bytes`.
    pub fn new(bytes: Vec<u8>) -> (r: Deserializer)
        ensures
            r.wf(),
            r@ == (DecoderState { bytes: bytes@, position: 0 }),
    {
        Deserializer { bytes, position: 0 }
    }

    /// How many bytes have been read.
    pub fn position(&self) -> (r: usize)
        ensures
            r == self@.position,
    {
        self.position
    }

    /// Reads one big-endian word.
    fn read_word(&mut self) -> (r: Result<u32, Error>)
        requires
            old(self).wf(),
        ensures
            final(self).wf(),
            final(self)@.bytes == old(self)@.bytes,
            old(self)@.position + 4 > old(self)@.bytes.len() ==> r == Err::<u32, Error>(
                eof(old(self)@.position, 4),
            ) && final(self)@ == old(self)@,
            old(self)@.position + 4 <= old(self)@.bytes.len() ==> r == Ok::<u32, Error>(
                word_at(old(self)@.bytes, old(self)@.position),
            ) && final(self)@.position == old(self)@.position + 4,
    {
        if self.bytes.len() - self.position < 4 {
            return Err(Error::UnexpectedEof { position: self.position as u64, needed: 4 });
        }
        let p = self.position;
        let w = ((self.bytes[p] as u32) << 24u32) | ((self.bytes[p + 1] as u32) << 16u32) | ((
        self.bytes[p + 2] as u32) << 8u32) | (self.bytes[p + 3] as u32);
        self.position = p + 4;
        Ok(w)
    }

    /// Reads a word-sized unit of kind `kind`.
    fn read_word_value(&mut self, kind: Kind) -> (r: Result<Value, Error>)
        requires
            old(self).wf(),
            crate::value::is_word_kind(kind),
        ensures
            final(self).wf(),
            final(self)@.bytes == old(self)@.bytes,
            match decode_at(kind, old(self)@.bytes, old(self)@.position) {
                Ok((v, p)) => r matches Ok(x) && x@ == v && final(self)@.position == p,
                Err(e) => r == Err::<Value, Error>(e),
            },
    {
        let w = match self.read_word() {
            Ok(w) => w,
            Err(e) => return Err(e),
        };
        match kind {
            Kind::Bool => if w == 0 {
                Ok(Value::Bool(false))
            } else if w == 1 {
                Ok(Value::Bool(true))
            } else {
                Err(Error::InvalidBool)
            },
            Kind::Integer8 => if w as i32 as i8 as i32 == w as i32 {
                Ok(Value::Integer8(w as i32 as i8))
            } else {
                Err(Error::InvalidInteger(8, w as i32))
            },
            Kind::Integer16 => if w as i32 as i16 as i32 == w as i32 {
                Ok(Value::Integer16(w as i32 as i16))
            } else {
                Err(Error::InvalidInteger(16, w as i32))
            },
            Kind::Integer32 => Ok(Value::Integer32(w as i32)),
            Kind::UnsignedInteger8 => if w as u8 as u32 == w {
                Ok(Value::UnsignedInteger8(w as u8))
            } else {
                Err(Error::InvalidUnsignedInteger(8, w))
            },
            Kind::UnsignedInteger16 => if w as u16 as u32 == w {
                Ok(Value::UnsignedInteger16(w as u16))
            } else {
                Err(Error::InvalidUnsignedInteger(16, w))
            },
            Kind::UnsignedInteger32 => Ok(Value::UnsignedInteger32(w)),
            _ => Ok(Value::Float(w)),
        }
    }

    /// Reads one big-endian 64-bit word.
    fn read_hyper(&mut self) -> (r: Result<u64, Error>)
        requires
            old(self).wf(),
        ensures
            final(self).wf(),
            final(self)@.bytes == old(self)@.bytes,
            old(self)@.position + 8 > old(self)@.bytes.len() ==> r == Err::<u64, Error>(
                eof(old(self)@.position, 8),
            ),
            old(self)@.position + 8 <= old(self)@.bytes.len() ==> r == Ok::<u64, Error>(
                hyper_at(old(self)@.bytes, old(self)@.position),
            ) && final(self)@.position == old(self)@.position + 8,
    {
        if self.bytes.len() - self.position < 8 {
            return Err(Error::UnexpectedEof { position: self.position as u64, needed: 8 });
        }
        let hi = match self.read_word() {
            Ok(w) => w,
            Err(e) => return Err(e),
        };
        let lo = match self.read_word() {
            Ok(w) => w,
            Err(e) => return Err(e),
        };
        Ok(((hi as u64) << 32u64) | (lo as u64))
    }

    /// Reads a variable-length unit: a length word, that many bytes, then the
    /// padding, whose content is skipped unread.
    fn read_opaque(&mut self) -> (r: Result<Vec<u8>, Error>)
        requires
            old(self).wf(),
        ensures
            final(self).wf(),
            final(self)@.bytes == old(self)@.bytes,
            match decode_at(Kind::Bytes, old(self)@.bytes, old(self)@.position) {
                Ok((SpecValue::Bytes(b), p)) => r matches Ok(x) && x@ == b && final(self)@.position
                    == p,
                Ok(_) => false,
                Err(e) => r == Err::<Vec<u8>, Error>(e),
            },
    {
        let n = match self.read_word() {
            Ok(w) => w as usize,
            Err(e) => return Err(e),
        };
        let pad: usize = (4 - n % 4) % 4;
        let start = self.position;
        let left = self.bytes.len() - start;
        if n > left || pad > left - n {
            proof {
                assert(pad == pad_len(n as nat));
            }
            return Err(Error::UnexpectedEof { position: start as u64, needed: n as u64 + pad as u64 });
        }
        let mut out: Vec<u8> = Vec::new();
        let mut i: usize = 0;
        while i < n
            invariant
                self.wf(),
                start + n <= self.bytes@.len(),
                i <= n,
                out@ == self.bytes@.subrange(start as int, start + i),
            decreases n - i,
        {
            out.push(self.bytes[start + i]);
            i = i + 1;
            assert(out@ =~= self.bytes@.subrange(start as int, start + i));
        }
        self.position = start + n + pad;
        Ok(out)
    }

    /// Reads a unit of kind `kind` and moves the cursor past it.
    pub fn deserialize_value(&mut self, kind: Kind) -> (r: Result<Value, Error>)
        requires
            old(self).wf(),
        ensures
            final(self).wf(),
            final(self)@.bytes == old(self)@.bytes,
            match decode_at(kind, old(self)@.bytes, old(self)@.position) {
                Ok((v, p)) => r matches Ok(x) && x@ == v && final(self)@.position == p,
                Err(e) => r == Err::<Value, Error>(e),
            },
    {
        match kind {
            Kind::Integer64 => match self.read_hyper() {
                Ok(h) => Ok(Value::Integer64(h as i64)),
                Err(e) => Err(e),
            },
            Kind::UnsignedInteger64 => match self.read_hyper() {
                Ok(h) => Ok(Value::UnsignedInteger64(h)),
                Err(e) => Err(e),
            },
            Kind::Double => match self.read_hyper() {
                Ok(h) => Ok(Value::Double(h)),
                Err(e) => Err(e),
            },
            Kind::Bytes => match self.read_opaque() {
                Ok(b) => Ok(Value::Bytes(b)),
                Err(e) => Err(e),
            },
            Kind::String => match self.read_opaque() {
                Ok(b) => match string_from_utf8(b) {
                    Some(s) => Ok(Value::String(s)),
                    None => Err(Error::DeserializeString),
                },
                Err(e) => Err(e),
            },
            Kind::Unit => Ok(Value::Unit),
            _ => self.read_word_value(kind),
        }
    }

    /// Reads the content of a newtype wrapper named `name`: the wrapper is
    /// transparent, so this reads a unit of kind `kind` and nothing else.
    pub fn deserialize_newtype_struct(&mut self, name: &str, kind: Kind) -> (r: Result<Value, Error>)
        requires
            old(self).wf(),
        ensures
            final(self).wf(),
            final(self)@.bytes == old(self)@.bytes,
            match decode_at(kind, old(self)@.bytes, old(self)@.position) {
                Ok((v, p)) => r matches Ok(x) && x@ == v && final(self)@.position == p,
                Err(e) => r == Err::<Value, Error>(e),
            },
    {
        self.deserialize_value(kind)
    }

    /// Reads units of the kinds `kinds` in order, as the fields of a struct
    /// are read: with no count and no names.
    pub fn deserialize_struct(&mut self, kinds: &[Kind]) -> (r: Result<Vec<Value>, Error>)
        requires
            old(self).wf(),
        ensures
            final(self).wf(),
            final(self)@.bytes == old(self)@.bytes,
            match decode_many(kinds@, old(self)@.bytes, old(self)@.position) {
                Ok((vs, p)) => r matches Ok(x) && views(x@) == vs && final(self)@.position == p,
                Err(e) => r == Err::<Vec<Value>, Error>(e),
            },
    {
        let mut out: Vec<Value> = Vec::new();
        let mut i: usize = 0;
        assert(kinds@.take(0) =~= Seq::<Kind>::empty());
        assert(views(out@) =~= Seq::<SpecValue>::empty());
        while i < kinds.len()
            invariant
                self.wf(),
                self@.bytes == old(self)@.bytes,
                i <= kinds@.len(),
                decode_many(kinds@.take(i as int), old(self)@.bytes, old(self)@.position) == Ok::<
                    (Seq<SpecValue>, int),
                    Error,
                >((views(out@), self@.position)),
            decreases kinds@.len() - i,
        {
            let ghost before = out@;
            assert(kinds@.take(i + 1).drop_last() =~= kinds@.take(i as int));
            match self.deserialize_value(kinds[i]) {
                Ok(v) => {
                    out.push(v);
                    assert(views(out@) =~= views(before).push(v@));
                },
                Err(e) => {
                    proof {
                        lemma_decode_many_fails(kinds@, i as int, old(self)@.bytes, old(self)@.position);
                    }
                    return Err(e);
                },
            }
            i = i + 1;
        }
        assert(kinds@.take(kinds@.len() as int) =~= kinds@);
        Ok(out)
    }

    /// Reads a sequence of units of kind `kind`: a count word, then that many
    /// units.
    pub fn deserialize_seq(&mut self, kind: Kind) -> (r: Result<Vec<Value>, Error>)
        requires
            old(self).wf(),
        ensures
            final(self).wf(),
            final(self)@.bytes == old(self)@.bytes,
            match decode_seq(kind, old(self)@.bytes, old(self)@.position) {
                Ok((vs, p)) => r matches Ok(x) && views(x@) == vs && final(self)@.position == p,
                Err(e) => r == Err::<Vec<Value>, Error>(e),
            },
    {
        let n = match self.read_word() {
            Ok(w) => w as usize,
            Err(e) => return Err(e),
        };
        let ghost start = self@.position;
        let ghost kinds = repeat(kind, n as nat);
        let mut out: Vec<Value> = Vec::new();
        let mut i: usize = 0;
        assert(kinds.take(0) =~= Seq::<Kind>::empty());
        assert(views(out@) =~= Seq::<SpecValue>::empty());
        while i < n
            invariant
                self.wf(),
                self@.bytes == old(self)@.bytes,
                i <= n,
                kinds == repeat(kind, n as nat),
                old(self)@.position + 4 <= old(self)@.bytes.len(),
                start == old(self)@.position + 4,
                n as nat == word_at(old(self)@.bytes, old(self)@.position) as nat,
                decode_many(kinds.take(i as int), self@.bytes, start) == Ok::<
                    (Seq<SpecValue>, int),
                    Error,
                >((views(out@), self@.position)),
            decreases n - i,
        {
            let ghost before = out@;
            assert(kinds.take(i + 1).drop_last() =~= kinds.take(i as int));
            match self.deserialize_value(kind) {
                Ok(v) => {
                    out.push(v);
                    assert(views(out@) =~= views(before).push(v@));
                },
                Err(e) => {
                    proof {
                        assert(kinds[i as int] == kind);
                        lemma_decode_many_fails(kinds, i as int, self@.bytes, start);
                    }
                    return Err(e);
                },
            }
            i = i + 1;
        }
        assert(kinds.take(n as int) =~= kinds);
        Ok(out)
    }

    /// Reads an optional unit of kind `kind`: a boolean tag, then the unit
    /// if the tag is true.
    pub fn deserialize_option(&mut self, kind: Kind) -> (r: Result<Option<Value>, Error>)
        requires
            old(self).wf(),
        ensures
            final(self).wf(),
            final(self)@.bytes == old(self)@.bytes,
            match decode_option(kind, old(self)@.bytes, old(self)@.position) {
                Ok((Some(v), p)) => r matches Ok(Some(x)) && x@ == v && final(self)@.position == p,
                Ok((None, p)) => r matches Ok(None) && final(self)@.position == p,
                Err(e) => r == Err::<Option<Value>, Error>(e),
            },
    {
        match self.deserialize_value(Kind::Bool) {
            Ok(Value::Bool(true)) => match self.deserialize_value(kind) {
                Ok(v) => Ok(Some(v)),
                Err(e) => Err(e),
            },
            Ok(_) => Ok(None),
            Err(e) => Err(e),
        }
    }
}

/// Once a unit fails, reading any longer run of kinds fails the same way.
proof fn lemma_decode_many_fails(kinds: Seq<Kind>, i: int, data: Seq<u8>, pos: int)
    requires
        0 <= i < kinds.len(),
        decode_many(kinds.take(i), data, pos) is Ok,
        decode_at(kinds[i], data, decode_many(kinds.take(i), data, pos)->Ok_0.1) is Err,
    ensures
        decode_many(kinds, data, pos) == Err::<(Seq<SpecValue>, int), Error>(
            decode_at(kinds[i], data, decode_many(kinds.take(i), data, pos)->Ok_0.1)->Err_0,
        ),
    decreases kinds.len(),
{
    if i == kinds.len() - 1 {
        assert(kinds.drop_last() =~= kinds.take(i));
    } else {
        assert(kinds.drop_last().take(i) =~= kinds.take(i));
        lemma_decode_many_fails(kinds.drop_last(), i, data, pos);
    }
}

} // verus!
