//! SIMPLE-TLV data objects: BER tags over the single-`0xFF` length dialect.
//!
//! Where the BER length field announces its long forms with `0x81` and
//! `0x82`, the SIMPLE-TLV dialect of ISO 7816-4 writes lengths up to 254 as
//! one byte and everything larger as `0xFF` followed by two big-endian
//! bytes. The two dialects are incompatible: a wire-format version uses one
//! of them, never both, so this module is a self-contained counterpart of
//! the BER-TLV [`crate::TaggedSlice`].

use vstd::prelude::*;

use crate::decoder::Decoder;
use crate::encoder::Encoder;
use crate::error::{Error, ErrorKind};
use crate::length::Length;
use crate::tag::{spec_take_tag, spec_tag_encoding, Tag, TagLike};
use crate::traits::{Decodable, Encodable};

verus! {

/// The bytes that encode a length in the SIMPLE-TLV dialect.
pub open spec fn spec_simple_length_encoding(v: u16) -> Seq<u8> {
    if v <= 0xFE {
        seq![v as u8]
    } else {
        seq![0xFFu8, (v >> 8) as u8, (v & 0xFF) as u8]
    }
}

/// Reading a SIMPLE-TLV length field from the front of `s`.
pub open spec fn spec_take_simple_length(s: Seq<u8>) -> Option<(u16, int)> {
    if s.len() == 0 {
        None
    } else if s[0] != 0xFF {
        Some((s[0] as u16, 1))
    } else if s.len() >= 3 {
        Some((((s[1] as u16) << 8) | (s[2] as u16), 3))
    } else {
        None
    }
}

/// Decoding a SIMPLE-TLV length encoding gives the value back, whatever
/// follows it in the buffer.
pub proof fn lemma_simple_length_round_trip(v: u16, rest: Seq<u8>)
    ensures
        spec_take_simple_length(spec_simple_length_encoding(v) + rest) == Some(
            (v, spec_simple_length_encoding(v).len() as int),
        ),
{
    let s = spec_simple_length_encoding(v) + rest;
    if v <= 0xFE {
        assert(s[0] == v as u8);
    } else {
        assert(s[0] == 0xFF && s[1] == (v >> 8) as u8 && s[2] == (v & 0xFF) as u8);
        assert(v > 0xFE ==> ((((v >> 8) as u8) as u16) << 8) | (((v & 0xFF) as u8) as u16) == v)
            by (bit_vector);
    }
}

/// The bytes that encode a SIMPLE-TLV record: BER tag, dialect length field,
/// then the body.
pub open spec fn spec_simple_tlv_encoding(tag: Tag, body: Seq<u8>) -> Seq<u8> {
    spec_tag_encoding(tag) + spec_simple_length_encoding(body.len() as u16) + body
}

/// Reading a whole SIMPLE-TLV record from the front of `s`.
pub open spec fn spec_take_simple_tlv(s: Seq<u8>) -> Option<((Tag, Seq<u8>), int)> {
    match spec_take_tag(s) {
        None => None,
        Some((tag, n)) => match spec_take_simple_length(s.skip(n)) {
            None => None,
            Some((len, m)) => {
                if n + m + len <= s.len() {
                    Some(((tag, s.subrange(n + m, n + m + len as int)), n + m + len))
                } else {
                    None
                }
            },
        },
    }
}

/// Decoding a SIMPLE-TLV record encoding gives the tag and body back,
/// whatever follows it in the buffer.
pub proof fn lemma_simple_tlv_round_trip(tag: Tag, body: Seq<u8>, rest: Seq<u8>)
    requires
        tag.number <= 0x3FFF,
        body.len() <= u16::MAX,
    ensures
        spec_take_simple_tlv(spec_simple_tlv_encoding(tag, body) + rest) == Some(
            ((tag, body), spec_simple_tlv_encoding(tag, body).len() as int),
        ),
{
    let te = spec_tag_encoding(tag);
    let le = spec_simple_length_encoding(body.len() as u16);
    let s = spec_simple_tlv_encoding(tag, body) + rest;
    let n = te.len() as int;
    let m = le.len() as int;
    crate::tag::lemma_tag_take_encoding(tag, le + body + rest);
    assert(s =~= te + (le + body + rest));
    lemma_simple_length_round_trip(body.len() as u16, body + rest);
    assert(s.skip(n) =~= le + (body + rest));
    assert(s.subrange(n + m, n + m + body.len() as int) =~= body);
}

/// Byte slice newtype which respects the `Length::max()` limit.
#[derive(Copy, Clone, Debug, Eq, PartialEq)]
pub struct ByteSlice<'a> {
    /// Inner value.
    pub(crate) inner: &'a [u8],

    /// Precomputed `Length` (avoids possible panicking conversions).
    pub(crate) length: Length,
}

impl<'a> View for ByteSlice<'a> {
    type V = Seq<u8>;

    open(crate) spec fn view(&self) -> Seq<u8> {
        self.inner@
    }
}

impl<'a> ByteSlice<'a> {
    /// The precomputed length matches the slice.
    pub open(crate) spec fn wf(&self) -> bool {
        self.length@ == self.inner@.len()
    }

    /// Create a new [`ByteSlice`], ensuring that the provided `slice` value
    /// is no longer than `Length::max()`.
    pub fn new(slice: &'a [u8]) -> (r: Result<Self, Error>)
        ensures
            slice@.len() <= u16::MAX ==> (r matches Ok(s) && s@ == slice@ && s.wf()),
            slice@.len() > u16::MAX ==> (r matches Err(e) && e.spec_kind() == ErrorKind::Overflow),
    {
        match Length::try_from_usize(slice.len()) {
            Ok(length) => Ok(Self { inner: slice, length }),
            Err(e) => Err(e),
        }
    }

    /// Borrow the inner byte slice.
    pub fn as_bytes(&self) -> (r: &'a [u8])
        ensures
            r@ == self@,
    {
        self.inner
    }

    /// Get the [`Length`] of this [`ByteSlice`].
    pub fn len(self) -> (r: Length)
        ensures
            self.wf() ==> r@ == self@.len(),
    {
        self.length
    }

    /// Is this [`ByteSlice`] empty?
    pub fn is_empty(self) -> (r: bool)
        ensures
            self.wf() ==> r == (self@.len() == 0),
    {
        self.length.0 == 0
    }
}

/// SIMPLE-TLV data object: a BER tag over body bytes whose length is written
/// in the single-`0xFF` dialect.
#[derive(Clone, Copy, Debug, Eq, PartialEq)]
pub struct TaggedSlice<'a> {
    pub(crate) tag: Tag,
    pub(crate) slice: ByteSlice<'a>,
}

impl<'a> TaggedSlice<'a> {
    /// The body bytes, as seen by specifications.
    pub open(crate) spec fn spec_bytes(&self) -> Seq<u8> {
        self.slice@
    }

    /// The tag, as seen by specifications.
    pub open(crate) spec fn spec_tag(&self) -> Tag {
        self.tag
    }

    /// The precomputed length inside the slice matches it.
    pub open(crate) spec fn wf(&self) -> bool {
        self.slice.wf()
    }

    /// Create a new tagged slice, checking lengths.
    pub fn new(tag: Tag, slice: &'a [u8]) -> (r: Result<Self, Error>)
        ensures
            slice@.len() <= u16::MAX ==> (r matches Ok(ts) && ts.spec_tag() == tag
                && ts.spec_bytes() == slice@ && ts.wf()),
            slice@.len() > u16::MAX ==> (r matches Err(e) && e.spec_kind()
                == ErrorKind::InvalidLength && e.spec_position() is None),
    {
        match ByteSlice::new(slice) {
            Ok(slice) => Ok(Self { tag, slice }),
            Err(_) => Err(Error { kind: ErrorKind::InvalidLength, position: None }),
        }
    }

    /// Borrow the inner byte slice.
    pub fn as_bytes(&self) -> (r: &'a [u8])
        ensures
            r@ == self.spec_bytes(),
    {
        self.slice.as_bytes()
    }

    /// Get the tag.
    pub fn tag(&self) -> (r: Tag)
        ensures
            r == self.spec_tag(),
    {
        self.tag
    }

    /// Get the length of the inner byte slice.
    pub fn len(&self) -> (r: Length)
        ensures
            self.wf() ==> r@ == self.spec_bytes().len(),
    {
        self.slice.len()
    }

    /// Is the inner byte slice empty?
    pub fn is_empty(&self) -> (r: bool)
        ensures
            self.wf() ==> r == (self.spec_bytes().len() == 0),
    {
        self.slice.is_empty()
    }

    /// Attempt to decode this value as nested records, creating a new
    /// [`Decoder`] over the body and calling the provided closure with it,
    /// which must consume the body completely.
    pub fn nested<F, T>(self, f: F) -> (r: Result<T, Error>) where
        F: FnOnce(&mut Decoder<'a>) -> Result<T, Error>,

        requires
            forall|d: &mut Decoder<'a>| call_requires(f, (d,)),
        ensures
            r matches Ok(v) ==> exists|d: &mut Decoder<'a>| call_ensures(f, (d,), Ok(v)),
    {
        let mut nested_decoder = Decoder::new(self.as_bytes());
        let result = match f(&mut nested_decoder) {
            Ok(v) => v,
            Err(e) => {
                return Err(e);
            },
        };
        nested_decoder.finish(result)
    }

    /// Read a SIMPLE-TLV length field; any failure poisons the decoder.
    fn decode_simple_length(decoder: &mut Decoder<'a>) -> (r: Result<Length, Error>)
        ensures
            !old(decoder).is_live() ==> (r matches Err(e) && e.spec_kind() == ErrorKind::Failed),
            r is Err ==> !final(decoder).is_live(),
            r matches Ok(l) ==> (spec_take_simple_length(old(decoder).spec_remaining())
                matches Some((v, n)) && l@ == v && final(decoder).is_live() && final(decoder).spec_remaining() == old(decoder).spec_remaining().skip(n) && final(decoder).spec_position() == old(decoder).spec_position() + n),
            old(decoder).is_live() && (spec_take_simple_length(old(decoder).spec_remaining())
                matches Some((v, n)) && old(decoder).spec_position() + n <= u16::MAX) ==> r is Ok,
    {
        let b0 = match decoder.byte() {
            Ok(b) => b,
            Err(e) => {
                return Err(e);
            },
        };
        if b0 != 0xFF {
            Ok(Length(b0 as u16))
        } else {
            let hi = match decoder.byte() {
                Ok(b) => b,
                Err(e) => {
                    return Err(e);
                },
            };
            let lo = match decoder.byte() {
                Ok(b) => b,
                Err(e) => {
                    return Err(e);
                },
            };
            proof {
                assert(old(decoder).spec_remaining().skip(1).skip(1).skip(1) =~= old(decoder).spec_remaining().skip(3));
            }
            Ok(Length(((hi as u16) << 8) | (lo as u16)))
        }
    }

    /// Write a SIMPLE-TLV length field; any failure poisons the encoder.
    fn encode_simple_length(length: Length, encoder: &mut Encoder) -> (r: Result<(), Error>)
        ensures
            r is Err ==> !final(encoder).is_live(),
            old(encoder).spec_fits(spec_simple_length_encoding(length@).len() as int) ==> r is Ok,
            old(encoder).is_live() && old(encoder).spec_buffer().len() <= u16::MAX && old(encoder).spec_position() <= old(encoder).spec_buffer().len() && old(encoder).spec_remaining_len() < spec_simple_length_encoding(length@).len() ==> (r matches Err(e) && e.spec_kind() == ErrorKind::Overlength),
            r is Ok ==> final(encoder).is_live() && final(encoder).spec_written() == old(encoder).spec_written() + spec_simple_length_encoding(length@) && final(encoder).spec_buffer().len() == old(encoder).spec_buffer().len() && final(encoder).spec_position() == old(encoder).spec_position() + spec_simple_length_encoding(length@).len()
                && final(encoder).spec_position() <= final(encoder).spec_buffer().len(),
    {
        if length.0 <= 0xFE {
            encoder.byte(length.0 as u8)
        } else {
            match encoder.byte(0xFF) {
                Ok(()) => {},
                Err(e) => {
                    return Err(e);
                },
            }
            match encoder.byte((length.0 >> 8) as u8) {
                Ok(()) => {},
                Err(e) => {
                    return Err(e);
                },
            }
            let r = encoder.byte((length.0 & 0xFF) as u8);
            proof {
                if r is Ok {
                    assert(encoder.spec_written() =~= old(encoder).spec_written()
                        + spec_simple_length_encoding(length@));
                }
            }
            r
        }
    }
}

impl<'a> Decodable<'a> for TaggedSlice<'a> {
    /// Read a whole SIMPLE-TLV record: tag, dialect length field, then
    /// exactly as many body bytes as the length declared. A failure while
    /// taking the body is reported as `Length { tag }`; any failure poisons
    /// the decoder.
    fn decode(decoder: &mut Decoder<'a>) -> (r: Result<Self, Error>)
        ensures
            !old(decoder).is_live() ==> (r matches Err(e) && e.spec_kind() == ErrorKind::Failed),
            r is Err ==> !final(decoder).is_live(),
            r matches Ok(ts) ==> (spec_take_simple_tlv(old(decoder).spec_remaining()) matches Some(
                (tb, n),
            ) && tb == (ts.spec_tag(), ts.spec_bytes()) && ts.wf() && final(decoder).is_live()
                && final(decoder).spec_remaining() == old(decoder).spec_remaining().skip(n)
                && final(decoder).spec_position() == old(decoder).spec_position() + n),
            old(decoder).is_live() && (spec_take_simple_tlv(old(decoder).spec_remaining())
                matches Some((tb, n)) && old(decoder).spec_position() + n <= u16::MAX) ==> r is Ok,
            spec_take_tag(old(decoder).spec_remaining()) matches Some((t, n)) ==> ((
            spec_take_simple_length(old(decoder).spec_remaining().skip(n)) matches Some((len, m))
                && old(decoder).is_live() && old(decoder).spec_position() + n + m <= u16::MAX && n
                + m + len > old(decoder).spec_remaining().len()) ==> (r matches Err(e)
                && e.spec_kind() == (ErrorKind::Length { tag: t }))),
    {
        let tag = match <Tag as TagLike>::decode_tag(decoder) {
            Ok(t) => t,
            Err(e) => {
                return Err(e);
            },
        };
        proof {
            crate::tag::lemma_tag_take_bounds(old(decoder).spec_remaining());
        }
        let length = match Self::decode_simple_length(decoder) {
            Ok(l) => l,
            Err(e) => {
                return Err(e);
            },
        };
        let value = match decoder.bytes(length.to_usize()) {
            Ok(v) => v,
            Err(_) => {
                return Err(Error { kind: ErrorKind::Length { tag }, position: None });
            },
        };
        proof {
            let rem = old(decoder).spec_remaining();
            if spec_take_tag(rem) is Some {
                let (t0, n) = spec_take_tag(rem)->Some_0;
                if spec_take_simple_length(rem.skip(n)) is Some {
                    let (v0, m) = spec_take_simple_length(rem.skip(n))->Some_0;
                    assert(rem.skip(n).skip(m) =~= rem.skip(n + m));
                    assert(rem.skip(n + m).take(v0 as int) =~= rem.subrange(
                        n + m,
                        n + m + v0 as int,
                    ));
                    assert(rem.skip(n + m).skip(v0 as int) =~= rem.skip(n + m + v0));
                }
            }
        }
        match TaggedSlice::new(tag, value) {
            Ok(ts) => Ok(ts),
            Err(e) => Err(e),
        }
    }
}

impl<'a> Encodable for TaggedSlice<'a> {
    /// Tag, dialect length field and body: the record's size on the wire.
    fn encoded_length(&self) -> (r: Result<Length, Error>)
        ensures
            self.wf() && self.spec_tag().number <= 0x3FFF && spec_simple_tlv_encoding(
                self.spec_tag(),
                self.spec_bytes(),
            ).len() <= u16::MAX ==> (r matches Ok(l) && l@ == spec_simple_tlv_encoding(
                self.spec_tag(),
                self.spec_bytes(),
            ).len()),
            self.spec_tag().number > 0x3FFF ==> r is Err,
    {
        let tag_len = match self.tag.tag_length() {
            Ok(l) => l,
            Err(e) => {
                return Err(e);
            },
        };
        proof {
            if self.tag.spec_encodable() {
                self.tag.lemma_take_encoding(Seq::empty());
            }
            assert(<Tag as TagLike>::spec_encoding(self.tag) == spec_tag_encoding(self.tag));
        }
        let length_len: Length = if self.slice.length.0 <= 0xFE {
            Length(1)
        } else {
            Length(3)
        };
        let header_len = match tag_len.add(length_len) {
            Ok(l) => l,
            Err(e) => {
                return Err(e);
            },
        };
        header_len.add(self.slice.len())
    }

    /// Write the tag, the dialect length field, then the body bytes; any
    /// failure poisons the encoder.
    fn encode(&self, encoder: &mut Encoder) -> (r: Result<(), Error>)
        ensures
            r is Err ==> !final(encoder).is_live(),
            !self.spec_tag().spec_encodable() ==> r is Err,
            self.wf() && self.spec_tag().number <= 0x3FFF && old(encoder).spec_fits(
                spec_simple_tlv_encoding(self.spec_tag(), self.spec_bytes()).len() as int,
            ) ==> r is Ok,
            self.wf() && self.spec_tag().number <= 0x3FFF && old(encoder).is_live() && old(encoder).spec_buffer().len() <= u16::MAX && old(encoder).spec_position() <= old(encoder).spec_buffer().len() && old(encoder).spec_remaining_len() < spec_simple_tlv_encoding(
                self.spec_tag(),
                self.spec_bytes(),
            ).len() ==> (r matches Err(e) && e.spec_kind() == ErrorKind::Overlength),
            r is Ok && self.wf() ==> final(encoder).is_live() && final(encoder).spec_written()
                == old(encoder).spec_written() + spec_simple_tlv_encoding(
                self.spec_tag(),
                self.spec_bytes(),
            ),
    {
        proof {
            assert(<Tag as TagLike>::spec_encoding(self.tag) == spec_tag_encoding(self.tag));
            assert(<Tag as TagLike>::spec_encodable(self.tag) == (self.tag.number <= 0x3FFF));
        }
        match self.tag.encode_tag(encoder) {
            Ok(()) => {},
            Err(e) => {
                return Err(e);
            },
        }
        match Self::encode_simple_length(self.slice.length, encoder) {
            Ok(()) => {},
            Err(e) => {
                return Err(e);
            },
        }
        let r = encoder.bytes(self.slice.as_bytes());
        proof {
            if r is Ok && self.wf() {
                assert(encoder.spec_written() =~= old(encoder).spec_written()
                    + spec_simple_tlv_encoding(self.spec_tag(), self.spec_bytes()));
            }
        }
        r
    }
}

} // verus!
