//! BER-TLV headers: the tag + length component of TLV-encoded values.

use vstd::prelude::*;

use crate::decoder::Decoder;
use crate::encoder::Encoder;
use crate::error::{Error, ErrorKind};
use crate::length::{spec_length_encoding, spec_take_length, Length};
use crate::tag::TagLike;
use crate::traits::Decodable;

verus! {

/// BER-TLV header: the tag and length that precede every encoded value.
///
/// Transient: constructed immediately before writing or reading, never
/// persisted.
#[derive(Copy, Clone, Debug, Eq, PartialEq)]
pub(crate) struct Header<T> {
    /// Tag representing the type of the encoded value.
    pub(crate) tag: T,

    /// Length of the encoded value.
    pub(crate) length: Length,
}

/// The bytes that encode a header: the tag's encoding, then the length field.
pub open(crate) spec fn spec_header_encoding<T: TagLike>(tag: T, length: u16) -> Seq<u8> {
    tag.spec_encoding() + spec_length_encoding(length)
}

/// Reading a header from the front of `s`: the tag, the length, and the
/// number of bytes the header occupies.
pub open(crate) spec fn spec_take_header<T: TagLike>(s: Seq<u8>) -> Option<((T, u16), int)> {
    match T::spec_take(s) {
        None => None,
        Some((tag, n)) => match spec_take_length(s.skip(n)) {
            None => None,
            Some((len, m)) => Some(((tag, len), n + m)),
        },
    }
}

impl<T: TagLike> Header<T> {
    /// Create a new header from a tag and a length.
    pub(crate) fn new(tag: T, length: Length) -> (r: Self)
        ensures
            r.tag == tag,
            r.length == length,
    {
        Self { tag, length }
    }

    /// The bytes this header occupies on the wire.
    pub(crate) fn encoded_length(&self) -> (r: Result<Length, Error>)
        ensures
            self.tag.spec_encodable() ==> (r matches Ok(l) && l@ == spec_header_encoding(
                self.tag,
                self.length@,
            ).len()),
            !self.tag.spec_encodable() ==> r is Err,
    {
        proof {
            if self.tag.spec_encodable() {
                self.tag.lemma_take_encoding(Seq::empty());
            }
        }
        let tag_len = match self.tag.tag_length() {
            Ok(l) => l,
            Err(e) => {
                return Err(e);
            },
        };
        tag_len.add(self.length.encoding_length())
    }

    /// Read a header: the tag, then the length field. A failure while
    /// reading the length that reports `Overlength` is re-reported as
    /// `Length { tag }`, naming the field whose length is malformed; any
    /// failure poisons the decoder.
    pub(crate) fn decode(decoder: &mut Decoder<'_>) -> (r: Result<Self, Error>)
        ensures
            !old(decoder).is_live() ==> (r matches Err(e) && e.spec_kind() == ErrorKind::Failed),
            r is Err ==> !final(decoder).is_live(),
            r matches Ok(h) ==> (spec_take_header::<T>(old(decoder).spec_remaining()) matches Some(
                (tl, n),
            ) && tl == (h.tag, h.length@) && final(decoder).is_live() && final(decoder).spec_remaining() == old(decoder).spec_remaining().skip(n) && final(decoder).spec_position() == old(decoder).spec_position() + n),
            old(decoder).is_live() && (spec_take_header::<T>(old(decoder).spec_remaining())
                matches Some((tl, n)) && old(decoder).spec_position() + n <= u16::MAX) ==> r is Ok,
            T::spec_take(old(decoder).spec_remaining()) matches Some((t, n)) ==> ((old(decoder).is_live() && old(decoder).spec_position() + n + 1 <= u16::MAX && old(decoder).spec_remaining().skip(n).len() > 0 && old(decoder).spec_remaining().skip(n)[0] > 0x82)
                ==> (r matches Err(e) && e.spec_kind() == (ErrorKind::Length {
                tag: t.spec_embedding(),
            }))),
    {
        let tag = match T::decode_tag(decoder) {
            Ok(t) => t,
            Err(e) => {
                return Err(e);
            },
        };
        proof {
            T::lemma_take_bounds(old(decoder).spec_remaining());
        }
        let length = match Length::decode(decoder) {
            Ok(l) => l,
            Err(e) => {
                let kind = e.kind();
                return match kind {
                    ErrorKind::Overlength => Err(
                        Error {
                            kind: ErrorKind::Length { tag: tag.embedding() },
                            position: e.position(),
                        },
                    ),
                    _ => Err(e),
                };
            },
        };
        proof {
            let rem = old(decoder).spec_remaining();
            let n = T::spec_take(rem)->Some_0.1;
            let m = spec_take_length(rem.skip(n))->Some_0.1;
            assert(rem.skip(n).skip(m) =~= rem.skip(n + m));
        }
        Ok(Self { tag, length })
    }

    /// Write the tag, then the length field; any failure poisons the
    /// encoder.
    pub(crate) fn encode(&self, encoder: &mut Encoder) -> (r: Result<(), Error>)
        ensures
            r is Err ==> !final(encoder).is_live(),
            !self.tag.spec_encodable() ==> r is Err,
            self.tag.spec_encodable() && old(encoder).spec_fits(
                spec_header_encoding(self.tag, self.length@).len() as int,
            ) ==> r is Ok,
            self.tag.spec_encodable() && old(encoder).is_live() && old(encoder).spec_buffer().len()
                <= u16::MAX && old(encoder).spec_position() <= old(encoder).spec_buffer().len()
                && old(encoder).spec_remaining_len() < spec_header_encoding(
                self.tag,
                self.length@,
            ).len() ==> (r matches Err(e) && e.spec_kind() == ErrorKind::Overlength),
            r is Ok ==> self.tag.spec_encodable() && final(encoder).is_live() && final(encoder).spec_written() == old(encoder).spec_written() + spec_header_encoding(
                self.tag,
                self.length@,
            ) && final(encoder).spec_buffer().len() == old(encoder).spec_buffer().len() && final(encoder).spec_position() == old(encoder).spec_position() + spec_header_encoding(
                self.tag,
                self.length@,
            ).len(),
    {
        match self.tag.encode_tag(encoder) {
            Ok(()) => {},
            Err(e) => {
                return Err(e);
            },
        }
        let r = crate::traits::Encodable::encode(&self.length, encoder);
        proof {
            if r is Ok {
                assert(encoder.spec_written() =~= old(encoder).spec_written()
                    + spec_header_encoding(self.tag, self.length@));
            }
        }
        r
    }
}

} // verus!
