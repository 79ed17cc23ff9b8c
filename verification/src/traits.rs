//! Trait definitions: the object contract every record type implements.

use vstd::prelude::*;

use crate::decoder::Decoder;
use crate::encoder::Encoder;
use crate::error::{Error, ErrorKind};
use crate::length::Length;
use crate::header::Header;
use crate::tag::{spec_take_tag, Tag, TagLike};
use crate::tagged::{spec_take_tlv, spec_tlv_encoding, TaggedSlice, TaggedValue};

verus! {

/// Decoding trait.
///
/// Decode out of a decoder, which essentially is a cursor over a slice of
/// bytes. Implementations decide what the bytes mean; the concrete
/// implementations in this crate each carry an exact contract over their wire
/// format, while the trait itself places no demand on implementors.
pub trait Decodable<'a>: Sized {
    /// Attempt to decode this message using the provided decoder.
    fn decode(decoder: &mut Decoder<'a>) -> Result<Self, Error>;

    /// Parse `Self` from the provided byte slice, requiring that all of it
    /// is consumed.
    fn from_bytes(bytes: &'a [u8]) -> Result<Self, Error> {
        let mut decoder = Decoder::new(bytes);
        let result = match Self::decode(&mut decoder) {
            Ok(v) => v,
            Err(e) => {
                return Err(e);
            },
        };
        decoder.finish(result)
    }
}

/// Encoding trait.
///
/// Encode into an encoder, which essentially is a cursor over a mutable
/// buffer. Additionally, the encoded length needs to be known without
/// actually encoding: calling `encoded_length` recursively in a first pass
/// is what lets containers size their headers without allocating.
pub trait Encodable {
    /// Compute the length of this value in bytes when encoded as BER-TLV.
    fn encoded_length(&self) -> Result<Length, Error>;

    /// Encode this value as BER-TLV using the provided [`Encoder`].
    fn encode(&self, encoder: &mut Encoder) -> Result<(), Error>;

    /// Encode this value into the provided buffer, returning the written
    /// prefix as the encoded message.
    fn encode_to_slice(&self, buf: Vec<u8>) -> Result<Vec<u8>, Error> {
        let mut encoder = Encoder::new(buf);
        match self.encode(&mut encoder) {
            Ok(()) => encoder.finish(),
            Err(e) => Err(e),
        }
    }

    /// Encode this message as BER-TLV, appending it to the provided byte
    /// vector.
    ///
    /// Fails with `Underlength` when the implementation wrote fewer bytes
    /// than its own `encoded_length` declared (a defect in a field type,
    /// caught defensively).
    fn encode_to_vec(&self, buf: &mut Vec<u8>) -> Result<Length, Error> {
        let expected = match self.encoded_length() {
            Ok(l) => l,
            Err(e) => {
                return Err(e);
            },
        };
        let expected_len = expected.to_usize();
        let mut encoder = Encoder::new(crate::encoder::zeroed(expected_len));
        match self.encode(&mut encoder) {
            Ok(()) => {},
            Err(e) => {
                return Err(e);
            },
        }
        let out = match encoder.finish() {
            Ok(o) => o,
            Err(e) => {
                return Err(e);
            },
        };
        if out.len() != expected_len {
            let actual = match Length::try_from_usize(out.len()) {
                Ok(l) => l,
                Err(e) => {
                    return Err(e);
                },
            };
            return Err(
                Error { kind: ErrorKind::Underlength { expected, actual }, position: None },
            );
        }
        buf.extend_from_slice(out.as_slice());
        Ok(expected)
    }

    /// Serialize this message as a byte vector.
    fn to_vec(&self) -> Result<Vec<u8>, Error> {
        let mut buf = Vec::new();
        match self.encode_to_vec(&mut buf) {
            Ok(_) => Ok(buf),
            Err(e) => Err(e),
        }
    }
}

/// Types with an associated BER-TLV [`Tag`].
///
/// A tagged type implementing [`Container`] has a blanket implementation of
/// [`Encodable`].
pub trait Tagged {
    /// The tag.
    fn tag() -> Tag;
}

/// Multiple encodables in a container.
///
/// A container states the summed encoded length of its fields and writes the
/// fields, in order, into an encoder. A container implementing [`Tagged`]
/// has a blanket implementation of [`Encodable`].
pub trait Container {
    /// The summed encoded length of the fields of this message, in order.
    fn fields_length(&self) -> Result<Length, Error>;

    /// Encode the fields of this message, in order, into the encoder.
    fn encode_fields(&self, encoder: &mut Encoder) -> Result<(), Error>;
}

/// Types that can be tagged.
pub trait Taggable: Sized {
    /// Pair this value, by reference, with a tag.
    fn tagged<T: TagLike>(&self, tag: T) -> (r: TaggedValue<&Self, T>)
        ensures
            r.spec_tag() == tag,
            r.spec_value() == &*self,
    {
        TaggedValue::new(tag, self)
    }
}

impl<X: Sized> Taggable for X {

}

impl<'a> Decoder<'a> {
    /// Decode a tagged value, check its tag against the given one, and
    /// decode a `T` from its body.
    ///
    /// Any failure poisons the decoder; a tag mismatch is reported as
    /// `UnexpectedTag`.
    pub fn decode_tag<T: Decodable<'a>>(&mut self, tag: Tag) -> (r: Result<T, Error>)
        ensures
            !old(self).is_live() ==> (r matches Err(e) && e.spec_kind() == ErrorKind::Failed),
            r is Err ==> !final(self).is_live(),
            spec_take_tlv::<Tag>(old(self).spec_remaining()) matches Some((tb, n)) ==> ((old(self).is_live() && old(self).spec_position() + n <= u16::MAX && tb.0 != tag) ==> (r
                matches Err(e) && e.spec_kind() == (ErrorKind::UnexpectedTag {
                expected: Some(tag),
                actual: tb.0,
            }))),
            r is Ok ==> final(self).is_live() && (spec_take_tlv::<Tag>(old(self).spec_remaining())
                matches Some((tb, n)) && tb.0 == tag && final(self).spec_remaining() == old(self).spec_remaining().skip(n)),
    {
        if self.is_failed() {
            return self.error(ErrorKind::Failed);
        }
        let tagged: TaggedSlice<'a> = match TaggedSlice::decode(self) {
            Ok(t) => t,
            Err(e) => {
                self.bytes = None;
                return Err(e.nested(self.position));
            },
        };
        match tagged.tag().assert_eq(tag) {
            Ok(_) => {},
            Err(e) => {
                return self.error(e.kind());
            },
        }
        let mut nested = Decoder::new(tagged.as_bytes());
        match nested.decode() {
            Ok(v) => Ok(v),
            Err(e) => self.error(e.kind()),
        }
    }

    /// Decode a value which impls the [`Decodable`] trait.
    ///
    /// On failure the decoder is poisoned and the error is re-wrapped with
    /// the cursor position, composing positions across nesting levels.
    pub fn decode<T: Decodable<'a>>(&mut self) -> (r: Result<T, Error>)
        ensures
            !old(self).is_live() ==> (r matches Err(e) && e.spec_kind() == ErrorKind::Failed),
            r is Err ==> !final(self).is_live(),
    {
        if self.is_failed() {
            return self.error(ErrorKind::Failed);
        }
        match T::decode(self) {
            Ok(v) => Ok(v),
            Err(e) => {
                self.bytes = None;
                Err(e.nested(self.position))
            },
        }
    }
}

impl Encoder {
    /// Encode a value which impls the [`Encodable`] trait.
    ///
    /// On failure the encoder is poisoned and the error is re-wrapped with
    /// the cursor position, composing positions across nesting levels.
    pub fn encode<T: Encodable>(&mut self, encodable: &T) -> (r: Result<(), Error>)
        ensures
            !old(self).is_live() ==> (r matches Err(e) && e.spec_kind() == ErrorKind::Failed),
            r is Err ==> !final(self).is_live(),
    {
        if self.is_failed() {
            return self.error(ErrorKind::Failed);
        }
        match encodable.encode(self) {
            Ok(()) => Ok(()),
            Err(e) => {
                self.bytes = None;
                Err(e.nested(self.position))
            },
        }
    }

    /// Encode a collection of fields under a given tag.
    ///
    /// The fields are first encoded into a buffer of exactly the length the
    /// container declared; writing a different number of bytes than declared
    /// fails with `Length { tag }` (catching a defective `fields_length`
    /// before it can corrupt the surrounding layout). Any failure poisons
    /// the encoder.
    pub fn encode_tagged_collection<C: Container>(&mut self, tag: Tag, fields: &C) -> (r: Result<
        (),
        Error,
    >)
        ensures
            r is Err ==> !final(self).is_live(),
            !old(self).is_live() ==> (r matches Err(e) && e.spec_kind() == ErrorKind::Failed),
            tag.number > 0x3FFF ==> r is Err,
            r is Ok ==> final(self).is_live() && (exists|body: Seq<u8>|
                body.len() <= u16::MAX && final(self).spec_written() == old(self).spec_written()
                    + #[trigger] spec_tlv_encoding(tag, body)),
    {
        if self.is_failed() {
            return self.error(ErrorKind::Failed);
        }
        let expected_len = match fields.fields_length() {
            Ok(l) => l,
            Err(e) => {
                return self.error(e.kind());
            },
        };
        let header = Header::new(tag, expected_len);
        match header.encode(self) {
            Ok(()) => {},
            Err(e) => {
                return Err(e);
            },
        }
        let mut nested_encoder = Encoder::new(crate::encoder::zeroed(expected_len.to_usize()));
        match fields.encode_fields(&mut nested_encoder) {
            Ok(()) => {},
            Err(e) => {
                return self.error(e.kind());
            },
        }
        let out = match nested_encoder.finish() {
            Ok(o) => o,
            Err(e) => {
                return self.error(e.kind());
            },
        };
        if out.len() != expected_len.to_usize() {
            return self.error(ErrorKind::Length { tag });
        }
        let r = self.bytes(out.as_slice());
        match r {
            Ok(()) => {
                proof {
                    assert(self.spec_written() =~= old(self).spec_written() + spec_tlv_encoding(
                        tag,
                        out@,
                    ));
                }
                Ok(())
            },
            Err(e) => Err(e),
        }
    }

    /// Encode a collection of fields side by side, without a tag or header
    /// of their own.
    ///
    /// As for a tagged collection, writing a different number of bytes than
    /// the container declared is caught, here as `Underlength`; any failure
    /// poisons the encoder.
    pub fn encode_untagged_collection<C: Container>(&mut self, fields: &C) -> (r: Result<
        (),
        Error,
    >)
        ensures
            r is Err ==> !final(self).is_live(),
            !old(self).is_live() ==> (r matches Err(e) && e.spec_kind() == ErrorKind::Failed),
            r is Ok ==> final(self).is_live() && final(self).spec_buffer().len() == old(self).spec_buffer().len() && (exists|body: Seq<u8>|
                final(self).spec_written() == #[trigger] (old(self).spec_written() + body)),
    {
        if self.is_failed() {
            return self.error(ErrorKind::Failed);
        }
        let expected_len = match fields.fields_length() {
            Ok(l) => l,
            Err(e) => {
                return self.error(e.kind());
            },
        };
        let mut nested_encoder = Encoder::new(crate::encoder::zeroed(expected_len.to_usize()));
        match fields.encode_fields(&mut nested_encoder) {
            Ok(()) => {},
            Err(e) => {
                return self.error(e.kind());
            },
        }
        let out = match nested_encoder.finish() {
            Ok(o) => o,
            Err(e) => {
                return self.error(e.kind());
            },
        };
        if out.len() != expected_len.to_usize() {
            let actual = match Length::try_from_usize(out.len()) {
                Ok(l) => l,
                Err(e) => {
                    return self.error(e.kind());
                },
            };
            return self.error(ErrorKind::Underlength { expected: expected_len, actual });
        }
        self.bytes(out.as_slice())
    }
}

impl<X: Tagged + Container> Encodable for X {
    /// Header plus the summed length of the fields.
    fn encoded_length(&self) -> Result<Length, Error> {
        let value_length = match self.fields_length() {
            Ok(l) => l,
            Err(e) => {
                return Err(e);
            },
        };
        let header = Header::new(X::tag(), value_length);
        let header_len = match header.encoded_length() {
            Ok(l) => l,
            Err(e) => {
                return Err(e);
            },
        };
        header_len.add(value_length)
    }

    /// Encode the fields as a collection under the container's tag.
    fn encode(&self, encoder: &mut Encoder) -> (r: Result<(), Error>)
        ensures
            r is Err ==> !final(encoder).is_live(),
            !old(encoder).is_live() ==> r is Err,
    {
        encoder.encode_tagged_collection(X::tag(), self)
    }
}

impl<'a, X> Decodable<'a> for X where X: TryFrom<TaggedSlice<'a>, Error = Error> {
    /// Decode a whole tagged value, then attempt the conversion; conversion
    /// errors are re-surfaced through the decoder, preserving its poisoning
    /// and position semantics.
    fn decode(decoder: &mut Decoder<'a>) -> Result<Self, Error> {
        let tagged = match TaggedSlice::decode(decoder) {
            Ok(t) => t,
            Err(e) => {
                return decoder.error(e.kind());
            },
        };
        match Self::try_from(tagged) {
            Ok(v) => Ok(v),
            Err(e) => decoder.error(e.kind()),
        }
    }
}

/// This implementation is quite gotcha-y, since only one byte is peeked.
///
/// It should evaluate to the desired tag via `Tag::try_from(byte)`.
impl<'a, T> Decodable<'a> for Option<T> where T: Decodable<'a> + Tagged {
    /// Peek one byte and compare it against `T`'s tag: on a match, decode a
    /// `T`; on a mismatch or at end of input, yield `None` without consuming
    /// any bytes. A one-byte lookahead discriminator, not general
    /// backtracking.
    fn decode(decoder: &mut Decoder<'a>) -> (r: Result<Option<T>, Error>)
        ensures
            r matches Ok(v) && v is None ==> *final(decoder) == *old(decoder),
            !(old(decoder).is_live() && old(decoder).spec_remaining().len() > 0) ==> (r matches Ok(v) && v is None),
            old(decoder).is_live() && old(decoder).spec_remaining().len() > 0 && spec_take_tag(
                seq![old(decoder).spec_remaining()[0]],
            ) is None ==> r is Err,
    {
        if let Some(byte) = decoder.peek() {
            let tag = match Tag::try_from(byte) {
                Ok(t) => t,
                Err(e) => {
                    return Err(e);
                },
            };
            if T::tag() == tag {
                return match T::decode(decoder) {
                    Ok(v) => Ok(Some(v)),
                    Err(e) => Err(e),
                };
            }
        }
        Ok(None)
    }
}

impl<T> Encodable for Option<T> where T: Encodable {
    /// An absent value occupies no bytes at all.
    fn encoded_length(&self) -> Result<Length, Error> {
        match self {
            Some(t) => t.encoded_length(),
            None => Ok(Length::zero()),
        }
    }

    /// Encode the value if there is one; encode nothing otherwise.
    fn encode(&self, encoder: &mut Encoder) -> Result<(), Error> {
        match self {
            Some(t) => t.encode(encoder),
            None => Ok(()),
        }
    }
}

impl<'a> Encodable for &'a [u8] {
    /// A bare byte slice encodes to itself.
    fn encoded_length(&self) -> (r: Result<Length, Error>)
        ensures
            self@.len() <= u16::MAX ==> (r matches Ok(l) && l@ == self@.len()),
            self@.len() > u16::MAX ==> (r matches Err(e) && e.spec_kind() == ErrorKind::Overflow),
    {
        Length::try_from_usize(self.len())
    }

    /// Write the bytes as they are; any failure poisons the encoder.
    fn encode(&self, encoder: &mut Encoder) -> (r: Result<(), Error>)
        ensures
            r is Err ==> !final(encoder).is_live(),
            old(encoder).spec_fits(self@.len() as int) ==> r is Ok,
            r is Ok ==> final(encoder).is_live() && final(encoder).spec_written() == old(encoder).spec_written() + self@,
    {
        encoder.bytes(*self)
    }
}

impl<'a, const N: usize> Decodable<'a> for [u8; N] {
    /// Read exactly `N` raw bytes; any failure poisons the decoder.
    fn decode(decoder: &mut Decoder<'a>) -> (r: Result<Self, Error>)
        ensures
            !old(decoder).is_live() ==> (r matches Err(e) && e.spec_kind() == ErrorKind::Failed),
            r is Err ==> !final(decoder).is_live(),
            r matches Ok(arr) ==> (arr@ == old(decoder).spec_remaining().take(N as int) && final(decoder).is_live() && final(decoder).spec_remaining() == old(decoder).spec_remaining().skip(
                N as int,
            ) && final(decoder).spec_position() == old(decoder).spec_position() + N),
            old(decoder).is_live() && N <= u16::MAX && N <= old(decoder).spec_remaining().len()
                && old(decoder).spec_position() + N <= u16::MAX ==> r is Ok,
    {
        let bytes = match decoder.bytes(N) {
            Ok(b) => b,
            Err(e) => {
                return Err(e);
            },
        };
        let mut out: [u8; N] = vstd::array::array_fill_for_copy_types(0u8);
        let mut i: usize = 0;
        while i < N
            invariant
                0 <= i <= N,
                bytes@.len() == N,
                out@.len() == N,
                forall|j: int| 0 <= j < i ==> out@[j] == bytes@[j],
            decreases N - i,
        {
            let b = *vstd::slice::slice_index_get(bytes, i);
            vstd::array::ArrayAdditionalExecFns::set(&mut out, i, b);
            i += 1;
        }
        proof {
            assert(out@ =~= bytes@);
        }
        Ok(out)
    }
}

impl<const N: usize> Encodable for [u8; N] {
    /// A fixed-size byte array encodes to its `N` raw bytes.
    fn encoded_length(&self) -> (r: Result<Length, Error>)
        ensures
            N <= u16::MAX ==> (r matches Ok(l) && l@ == N),
            N > u16::MAX ==> (r matches Err(e) && e.spec_kind() == ErrorKind::Overflow),
    {
        Length::try_from_usize(N)
    }

    /// Write the bytes as they are; any failure poisons the encoder.
    fn encode(&self, encoder: &mut Encoder) -> (r: Result<(), Error>)
        ensures
            r is Err ==> !final(encoder).is_live(),
            old(encoder).spec_fits(N as int) ==> r is Ok,
            r is Ok ==> final(encoder).is_live() && final(encoder).spec_written() == old(encoder).spec_written() + self@,
    {
        encoder.bytes(self.as_slice())
    }
}

} // verus!
