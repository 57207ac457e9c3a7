//! Writing XDR units to a byte sink, and the sub-encoders of composite values.
use vstd::prelude::*;
use vstd::utf8::{encode_utf8, is_ascii_chars};
use crate::errors::Error;
use crate::value::{Value, encoding};
use crate::wire::{word_bytes, write_hyper, write_opaque, write_word};

verus! {

/// The failure that writing `v` reports, if any: a string must be ASCII, and
/// the length of a string or an opaque blob must fit in a word.
pub open spec fn value_error(v: &Value) -> Option<Error> {
    match v {
        Value::String(s) => if !is_ascii_chars(s@) {
            Some(Error::StringIsNotAscii(*s))
        } else if encode_utf8(s@).len() > u32::MAX {
            Some(Error::StringIsTooLong(*s))
        } else {
            None
        },
        Value::Bytes(b) => if b@.len() > u32::MAX {
            Some(Error::SerializeOpaque(b@.len() as usize))
        } else {
            None
        },
        _ => None,
    }
}

/// An encoder: the bytes written so far.
pub struct Serializer {
    output: Vec<u8>,
}

impl View for Serializer {
    type V = Seq<u8>;

    closed spec fn view(&self) -> Seq<u8> {
        self.output@
    }
}

impl Serializer {
    /// An encoder that has written nothing.
    pub fn new() -> (r: Serializer)
        ensures
            r@ == Seq::<u8>::empty(),
    {
        Serializer { output: Vec::new() }
    }

    /// The bytes written.
    pub fn into_bytes(self) -> (r: Vec<u8>)
        ensures
            r@ == self@,
    {
        self.output
    }

    /// Writes one value, or nothing if it cannot be written.
    pub fn serialize_value(&mut self, v: &Value) -> (r: Result<(), Error>)
        ensures
            match value_error(v) {
                Some(e) => r == Err::<(), Error>(e) && final(self)@ == old(self)@,
                None => r is Ok && final(self)@ == old(self)@ + encoding(v@),
            },
    {
        if let Some(e) = check_value(v) {
            return Err(e);
        }
        match v {
            Value::Bool(b) => write_word(&mut self.output, if *b { 1u32 } else { 0u32 }),
            Value::Integer8(x) => write_word(&mut self.output, *x as i32 as u32),
            Value::Integer16(x) => write_word(&mut self.output, *x as i32 as u32),
            Value::Integer32(x) => write_word(&mut self.output, *x as u32),
            Value::Integer64(x) => write_hyper(&mut self.output, *x as u64),
            Value::UnsignedInteger8(x) => write_word(&mut self.output, *x as u32),
            Value::UnsignedInteger16(x) => write_word(&mut self.output, *x as u32),
            Value::UnsignedInteger32(x) => write_word(&mut self.output, *x),
            Value::UnsignedInteger64(x) => write_hyper(&mut self.output, *x),
            Value::Float(x) => write_word(&mut self.output, *x),
            Value::Double(x) => write_hyper(&mut self.output, *x),
            Value::String(s) => write_opaque(&mut self.output, s.as_str().as_bytes()),
            Value::Bytes(b) => write_opaque(&mut self.output, b.as_slice()),
            Value::Unit => {
                assert(self.output@ =~= old(self)@ + encoding(v@));
            },
        }
        Ok(())
    }

    /// Writes an optional value: a false tag for `None`; a true tag and the
    /// value for `Some`. Nothing is written if the value cannot be.
    pub fn serialize_option(&mut self, v: &Option<Value>) -> (r: Result<(), Error>)
        ensures
            match v {
                None => r is Ok && final(self)@ == old(self)@ + word_bytes(0),
                Some(x) => match value_error(x) {
                    Some(e) => r == Err::<(), Error>(e) && final(self)@ == old(self)@,
                    None => r is Ok && final(self)@ == old(self)@ + word_bytes(1) + encoding(x@),
                },
            },
    {
        match v {
            None => {
                write_word(&mut self.output, 0);
                Ok(())
            },
            Some(x) => {
                if let Some(e) = check_value(x) {
                    return Err(e);
                }
                self.serialize_some_tag();
                let res = self.serialize_value(x);
                res
            },
        }
    }

    /// Writes the true tag that comes before the payload of a present
    /// optional value, for a payload that the caller then writes itself.
    pub fn serialize_some_tag(&mut self)
        ensures
            final(self)@ == old(self)@ + word_bytes(1),
    {
        write_word(&mut self.output, 1);
    }

    /// Writes the discriminant of a union, for a payload that the caller
    /// then writes itself.
    pub fn serialize_discriminant(&mut self, discriminant: u32)
        ensures
            final(self)@ == old(self)@ + word_bytes(discriminant),
    {
        write_word(&mut self.output, discriminant);
    }

    /// Opens a sequence of `len` elements and writes its count. A sequence
    /// whose length is not known, or does not fit in a word, is refused and
    /// nothing is written.
    pub fn serialize_seq(&mut self, len: Option<usize>) -> (r: Result<SequenceSerializer, Error>)
        ensures
            match len {
                None => r == Err::<SequenceSerializer, Error>(
                    Error::SerializeSequenceWithUnknownLength,
                ) && final(self)@ == old(self)@,
                Some(n) => if n > u32::MAX {
                    r == Err::<SequenceSerializer, Error>(Error::SequenceTooLong(n))
                        && final(self)@ == old(self)@
                } else {
                    (r matches Ok(s) && s@ == (Progress { expected: n as nat, written: 0 }))
                        && final(self)@ == old(self)@ + word_bytes(n as u32)
                },
            },
    {
        match len {
            None => Err(Error::SerializeSequenceWithUnknownLength),
            Some(n) => {
                if n > 0xffff_ffffusize {
                    return Err(Error::SequenceTooLong(n));
                }
                write_word(&mut self.output, n as u32);
                Ok(SequenceSerializer { expected: n, written: 0 })
            },
        }
    }

    /// Opens a struct named `name` with `len` fields. Nothing is written: XDR
    /// structs carry neither names nor counts.
    pub fn serialize_struct(&mut self, name: &str, len: usize) -> (r: StructSerializer)
        ensures
            r@ == (Progress { expected: len as nat, written: 0 }),
            r.name()@ == name@,
            final(self)@ == old(self)@,
    {
        StructSerializer { name: name.to_owned(), expected: len, written: 0 }
    }

    /// Writes a union: the discriminant of the variant, then its payload.
    /// If the payload cannot be written, nothing is, and the failure names the
    /// union and the variant.
    pub fn serialize_union(&mut self, name: &str, discriminant: u32, variant: &str, v: &Value) -> (r:
        Result<(), Error>)
        ensures
            value_error(v) is Some ==> final(self)@ == old(self)@ && (r matches Err(
                Error::SerializeUnionVariant(n, m),
            ) && n@ == name@ && m@ == variant@),
            value_error(v) is None ==> r is Ok && final(self)@ == old(self)@ + word_bytes(
                discriminant,
            ) + encoding(v@),
    {
        if check_value(v).is_some() {
            return Err(Error::SerializeUnionVariant(name.to_owned(), variant.to_owned()));
        }
        self.serialize_discriminant(discriminant);
        let res = self.serialize_value(v);
        res
    }

    /// Maps have no XDR form: they are always refused, and nothing is written.
    pub fn serialize_map(&mut self) -> (r: Result<(), Error>)
        ensures
            (r matches Err(Error::InvalidDataType(t)) && t@ == "map"@),
            final(self)@ == old(self)@,
    {
        Err(Error::InvalidDataType("map".to_owned()))
    }
}

/// The failure that writing `v` would report, if any.
fn check_value(v: &Value) -> (r: Option<Error>)
    ensures
        r == value_error(v),
{
    match v {
        Value::String(s) => {
            let text = s.as_str();
            if !text.is_ascii() {
                Some(Error::StringIsNotAscii(s.clone()))
            } else if text.as_bytes().len() > 0xffff_ffffusize {
                Some(Error::StringIsTooLong(s.clone()))
            } else {
                None
            }
        },
        Value::Bytes(b) => if b.len() > 0xffff_ffffusize {
            Some(Error::SerializeOpaque(b.len()))
        } else {
            None
        },
        _ => None,
    }
}

/// How far a composite value has come: the arity it declared and the number
/// of elements or fields written.
pub struct Progress {
    pub expected: nat,
    pub written: nat,
}

/// An open sequence. Its count has been written; it must receive exactly
/// that many elements.
pub struct SequenceSerializer {
    expected: usize,
    written: usize,
}

impl View for SequenceSerializer {
    type V = Progress;

    closed spec fn view(&self) -> Progress {
        Progress { expected: self.expected as nat, written: self.written as nat }
    }
}

impl SequenceSerializer {
    /// Writes the next element. An element past the declared count is a
    /// fatal failure; an element that cannot be written fails with its
    /// index. Either way nothing is written.
    pub fn serialize_element(&mut self, ser: &mut Serializer, v: &Value) -> (r: Result<(), Error>)
        ensures
            old(self)@.written >= old(self)@.expected ==> r == Err::<(), Error>(
                Error::SerializeSequenceFatalError,
            ) && final(self)@ == old(self)@ && final(ser)@ == old(ser)@,
            old(self)@.written < old(self)@.expected && value_error(v) is Some ==> r == Err::<
                (),
                Error,
            >(Error::SerializeSequenceElement(old(self)@.written as usize)) && final(self)@ == old(self)@ && final(ser)@ == old(ser)@,
            old(self)@.written < old(self)@.expected && value_error(v) is None ==> r is Ok
                && final(self)@ == (Progress {
                expected: old(self)@.expected,
                written: old(self)@.written + 1,
            }) && final(ser)@ == old(ser)@ + encoding(v@),
    {
        if self.written >= self.expected {
            return Err(Error::SerializeSequenceFatalError);
        }
        if check_value(v).is_some() {
            return Err(Error::SerializeSequenceElement(self.written));
        }
        let res = ser.serialize_value(v);
        self.written = self.written + 1;
        res
    }

    /// Counts the next element, whose bytes the caller then writes itself
    /// (an element that is a composite value), and returns its index. An
    /// element past the declared count is a fatal failure.
    pub fn begin_element(&mut self) -> (r: Result<usize, Error>)
        ensures
            old(self)@.written >= old(self)@.expected ==> r == Err::<usize, Error>(
                Error::SerializeSequenceFatalError,
            ) && final(self)@ == old(self)@,
            old(self)@.written < old(self)@.expected ==> r == Ok::<usize, Error>(
                old(self)@.written as usize,
            ) && final(self)@ == (Progress {
                expected: old(self)@.expected,
                written: old(self)@.written + 1,
            }),
    {
        if self.written >= self.expected {
            return Err(Error::SerializeSequenceFatalError);
        }
        let index = self.written;
        self.written = self.written + 1;
        Ok(index)
    }

    /// Closes the sequence: it fails unless exactly the declared count of
    /// elements was written.
    pub fn end(self) -> (r: Result<(), Error>)
        ensures
            self@.written == self@.expected <==> r is Ok,
            r is Err ==> r == Err::<(), Error>(Error::SerializeSequenceFatalError),
    {
        if self.written == self.expected {
            Ok(())
        } else {
            Err(Error::SerializeSequenceFatalError)
        }
    }
}

/// An open struct. Fields are written in order, with no names or tags; it
/// must receive exactly the declared number of fields.
pub struct StructSerializer {
    name: String,
    expected: usize,
    written: usize,
}

impl View for StructSerializer {
    type V = Progress;

    closed spec fn view(&self) -> Progress {
        Progress { expected: self.expected as nat, written: self.written as nat }
    }
}

impl StructSerializer {
    /// The struct's name, for diagnostics.
    pub closed spec fn name(&self) -> String {
        self.name
    }

    /// Writes the next field. A field past the declared count is a fatal
    /// failure; a field that cannot be written fails with the struct's and
    /// the field's names. Either way nothing is written.
    pub fn serialize_field(&mut self, ser: &mut Serializer, field: &str, v: &Value) -> (r: Result<
        (),
        Error,
    >)
        ensures
            final(self).name() == old(self).name(),
            old(self)@.written >= old(self)@.expected ==> (r matches Err(
                Error::SerializeStructFatalError(n),
            ) && n@ == old(self).name()@) && final(self)@ == old(self)@ && final(ser)@ == old(ser)@,
            old(self)@.written < old(self)@.expected && value_error(v) is Some ==> (r matches Err(
                Error::SerializeStructField(n, f),
            ) && n@ == old(self).name()@ && f@ == field@) && final(self)@ == old(self)@ && final(ser)@ == old(ser)@,
            old(self)@.written < old(self)@.expected && value_error(v) is None ==> r is Ok
                && final(self)@ == (Progress {
                expected: old(self)@.expected,
                written: old(self)@.written + 1,
            }) && final(ser)@ == old(ser)@ + encoding(v@),
    {
        if self.written >= self.expected {
            return Err(Error::SerializeStructFatalError(self.name.clone()));
        }
        if check_value(v).is_some() {
            return Err(Error::SerializeStructField(self.name.clone(), field.to_owned()));
        }
        let res = ser.serialize_value(v);
        self.written = self.written + 1;
        res
    }

    /// Counts the next field, whose bytes the caller then writes itself (a
    /// field that is a composite value). A field past the declared count is
    /// a fatal failure.
    pub fn begin_field(&mut self) -> (r: Result<(), Error>)
        ensures
            final(self).name() == old(self).name(),
            old(self)@.written >= old(self)@.expected ==> (r matches Err(
                Error::SerializeStructFatalError(n),
            ) && n@ == old(self).name()@) && final(self)@ == old(self)@,
            old(self)@.written < old(self)@.expected ==> r is Ok && final(self)@ == (Progress {
                expected: old(self)@.expected,
                written: old(self)@.written + 1,
            }),
    {
        if self.written >= self.expected {
            return Err(Error::SerializeStructFatalError(self.name.clone()));
        }
        self.written = self.written + 1;
        Ok(())
    }

    /// The failure of field `field` of this struct.
    pub fn field_error(&self, field: &str) -> (r: Error)
        ensures
            r matches Error::SerializeStructField(n, f) && n@ == self.name()@ && f@ == field@,
    {
        Error::SerializeStructField(self.name.clone(), field.to_owned())
    }

    /// Closes the struct: it fails, naming the struct, unless exactly the
    /// declared number of fields was written.
    pub fn end(self) -> (r: Result<(), Error>)
        ensures
            self@.written == self@.expected <==> r is Ok,
            r is Err ==> (r matches Err(Error::SerializeStructFatalError(n)) && n@
                == self.name()@),
    {
        if self.written == self.expected {
            Ok(())
        } else {
            Err(Error::SerializeStructFatalError(self.name))
        }
    }
}

} // verus!
