//! Tagged values: a (tag, value) pair, and the zero-copy tagged slice.

use vstd::prelude::*;

use crate::decoder::Decoder;
use crate::encoder::Encoder;
use crate::error::{Error, ErrorKind};
use crate::header::{spec_take_header, Header};
use crate::length::{lemma_length_round_trip, spec_length_encoding, Length};
use crate::slice::Slice;
use crate::tag::{Tag, TagLike};
use crate::traits::{Decodable, Encodable};

verus! {

/// The bytes that encode a tagged value: tag, length field, then the body.
pub open(crate) spec fn spec_tlv_encoding<T: TagLike>(tag: T, body: Seq<u8>) -> Seq<u8> {
    tag.spec_encoding() + spec_length_encoding(body.len() as u16) + body
}

/// Reading a whole tagged value from the front of `s`: the tag, the body
/// bytes, and the number of bytes the record occupies.
pub open(crate) spec fn spec_take_tlv<T: TagLike>(s: Seq<u8>) -> Option<((T, Seq<u8>), int)> {
    match spec_take_header::<T>(s) {
        None => None,
        Some((tl, n)) => {
            if n + tl.1 <= s.len() {
                Some(((tl.0, s.subrange(n, n + tl.1 as int)), n + tl.1))
            } else {
                None
            }
        },
    }
}

/// Decoding a tagged-value encoding gives the tag and body back, whatever
/// follows it in the buffer: `spec_tlv_encoding` is exactly what encoding a
/// [`TaggedSlice`] appends, and `spec_take_tlv` exactly what decoding one
/// consumes, so for every record the two executable directions invert each
/// other.
pub proof fn lemma_tlv_round_trip<T: TagLike>(tag: T, body: Seq<u8>, rest: Seq<u8>)
    requires
        tag.spec_encodable(),
        body.len() <= u16::MAX,
    ensures
        spec_take_tlv::<T>(spec_tlv_encoding(tag, body) + rest) == Some(
            ((tag, body), spec_tlv_encoding(tag, body).len() as int),
        ),
{
    let te = tag.spec_encoding();
    let le = spec_length_encoding(body.len() as u16);
    let s = spec_tlv_encoding(tag, body) + rest;
    let n = te.len() as int;
    let m = le.len() as int;
    tag.lemma_take_encoding(le + body + rest);
    assert(s =~= te + (le + body + rest));
    lemma_length_round_trip(body.len() as u16, body + rest);
    assert(s.skip(n) =~= le + (body + rest));
    assert(s.subrange(n + m, n + m + body.len() as int) =~= body);
}

/// BER-TLV data object: a value paired with its tag.
#[derive(Clone, Copy, Debug, Eq, PartialEq)]
pub struct TaggedValue<V, T = Tag> {
    pub(crate) tag: T,
    pub(crate) value: V,
}

/// Raw BER-TLV data object: a [`Slice`] paired with its tag.
pub type TaggedSlice<'a, T = Tag> = TaggedValue<Slice<'a>, T>;

impl<V, T> TaggedValue<V, T> {
    /// The tag of this data object, as seen by specifications.
    pub open(crate) spec fn spec_tag(&self) -> T {
        self.tag
    }

    /// The value of this data object, as seen by specifications.
    pub open(crate) spec fn spec_value(&self) -> V {
        self.value
    }
}

impl<V, T: Copy> TaggedValue<V, T> {
    /// Pair a tag with a value.
    pub fn new(tag: T, value: V) -> (r: Self)
        ensures
            r.spec_tag() == tag,
            r.spec_value() == value,
    {
        Self { tag, value }
    }

    /// The tag of this data object.
    pub fn tag(&self) -> (r: T)
        ensures
            r == self.spec_tag(),
    {
        self.tag
    }
}

impl<'a, T: Copy> TaggedSlice<'a, T> {
    /// The value bytes, as seen by specifications.
    pub open(crate) spec fn spec_bytes(&self) -> Seq<u8> {
        self.value@
    }

    /// The precomputed length inside the slice matches it.
    pub open(crate) spec fn wf(&self) -> bool {
        self.value.wf()
    }

    /// Create a new tagged slice, checking lengths.
    pub fn from(tag: T, slice: &'a [u8]) -> (r: Result<Self, Error>)
        ensures
            slice@.len() <= u16::MAX ==> (r matches Ok(ts) && ts.spec_tag() == tag
                && ts.spec_bytes() == slice@ && ts.wf()),
            slice@.len() > u16::MAX ==> (r matches Err(e) && e.spec_kind()
                == ErrorKind::InvalidLength && e.spec_position() is None),
    {
        match Slice::new(slice) {
            Ok(value) => Ok(Self { tag, value }),
            Err(_) => Err(Error { kind: ErrorKind::InvalidLength, position: None }),
        }
    }

    /// Borrow the inner byte slice.
    pub fn as_bytes(&self) -> (r: &'a [u8])
        ensures
            r@ == self.spec_bytes(),
    {
        self.value.as_bytes()
    }

    /// Get the length of the inner byte slice.
    pub fn length(&self) -> (r: Length)
        ensures
            self.wf() ==> r@ == self.spec_bytes().len(),
    {
        self.value.length()
    }

    /// Is the inner byte slice empty?
    pub fn is_empty(&self) -> (r: bool)
        ensures
            self.wf() ==> r == (self.spec_bytes().len() == 0),
    {
        self.value.is_empty()
    }
}


impl<'a, T: TagLike> TaggedSlice<'a, T> {
    /// Decode nested values, creating a new [`Decoder`] for the data
    /// contained in this tagged value's body and passing it to the provided
    /// closure, which must consume the body completely.
    pub fn decode_nested<F, R>(&self, f: F) -> (r: Result<R, Error>) where
        F: FnOnce(&mut Decoder<'a>) -> Result<R, Error>,

        requires
            forall|d: &mut Decoder<'a>| call_requires(f, (d,)),
        ensures
            r matches Ok(v) ==> exists|d: &mut Decoder<'a>| call_ensures(f, (d,), Ok(v)),
    {
        let mut nested_decoder = Decoder::new(self.as_bytes());
        let result = match f(&mut nested_decoder) {
            Ok(v) => v,
            Err(e) => {
                return Err(e);
            },
        };
        nested_decoder.finish(result)
    }
}

impl<'a, T: TagLike> Decodable<'a> for TaggedSlice<'a, T> {
    /// Read a whole tagged value: header, then exactly as many body bytes as
    /// the header declared. A failure while taking the body is reported as
    /// `Length { tag }`; any failure poisons the decoder.
    fn decode(decoder: &mut Decoder<'a>) -> (r: Result<Self, Error>)
        ensures
            !old(decoder).is_live() ==> (r matches Err(e) && e.spec_kind() == ErrorKind::Failed),
            r is Err ==> !final(decoder).is_live(),
            r matches Ok(ts) ==> (spec_take_tlv::<T>(old(decoder).spec_remaining()) matches Some(
                (tb, n),
            ) && tb == (ts.spec_tag(), ts.spec_bytes()) && ts.wf() && final(decoder).is_live()
                && final(decoder).spec_remaining() == old(decoder).spec_remaining().skip(n)
                && final(decoder).spec_position() == old(decoder).spec_position() + n),
            old(decoder).is_live() && (spec_take_tlv::<T>(old(decoder).spec_remaining())
                matches Some((tb, n)) && old(decoder).spec_position() + n <= u16::MAX) ==> r is Ok,
            spec_take_header::<T>(old(decoder).spec_remaining()) matches Some((tl, n)) ==> ((old(decoder).is_live() && old(decoder).spec_position() + n <= u16::MAX && n + tl.1 > old(decoder).spec_remaining().len()) ==> (r matches Err(e) && e.spec_kind() == (ErrorKind::Length {
                tag: tl.0.spec_embedding(),
            }))),
    {
        let header = match Header::<T>::decode(decoder) {
            Ok(h) => h,
            Err(e) => {
                return Err(e);
            },
        };
        let tag = header.tag;
        let len = header.length.to_usize();
        proof {
            T::lemma_take_bounds(old(decoder).spec_remaining());
        }
        let value = match decoder.bytes(len) {
            Ok(v) => v,
            Err(_) => {
                return Err(
                    Error { kind: ErrorKind::Length { tag: tag.embedding() }, position: None },
                );
            },
        };
        proof {
            let rem = old(decoder).spec_remaining();
            if spec_take_header::<T>(rem) is Some {
                let (tl, n) = spec_take_header::<T>(rem)->Some_0;
                assert(rem.skip(n).take(tl.1 as int) =~= rem.subrange(n, n + tl.1 as int));
                assert(rem.skip(n).skip(tl.1 as int) =~= rem.skip(n + tl.1));
            }
        }
        match TaggedSlice::from(tag, value) {
            Ok(ts) => Ok(ts),
            Err(e) => Err(e),
        }
    }
}

impl<'a, T: TagLike> Encodable for TaggedSlice<'a, T> {
    /// Header plus body: the whole record's size on the wire.
    fn encoded_length(&self) -> (r: Result<Length, Error>)
        ensures
            self.wf() && self.spec_tag().spec_encodable() && spec_tlv_encoding(
                self.spec_tag(),
                self.spec_bytes(),
            ).len() <= u16::MAX ==> (r matches Ok(l) && l@ == spec_tlv_encoding(
                self.spec_tag(),
                self.spec_bytes(),
            ).len()),
            !self.spec_tag().spec_encodable() ==> r is Err,
    {
        let header = Header::new(self.tag, self.value.length());
        let header_len = match header.encoded_length() {
            Ok(l) => l,
            Err(e) => {
                return Err(e);
            },
        };
        header_len.add(self.value.length())
    }

    /// Write the header, then the body bytes; any failure poisons the
    /// encoder.
    fn encode(&self, encoder: &mut Encoder) -> (r: Result<(), Error>)
        ensures
            r is Err ==> !final(encoder).is_live(),
            !old(encoder).is_live() ==> r is Err,
            !self.spec_tag().spec_encodable() ==> r is Err,
            self.wf() && self.spec_tag().spec_encodable() && old(encoder).spec_fits(
                spec_tlv_encoding(self.spec_tag(), self.spec_bytes()).len() as int,
            ) ==> r is Ok,
            self.wf() && self.spec_tag().spec_encodable() && old(encoder).is_live() && old(encoder).spec_buffer().len() <= u16::MAX && old(encoder).spec_position() <= old(encoder).spec_buffer().len() && old(encoder).spec_remaining_len() < spec_tlv_encoding(
                self.spec_tag(),
                self.spec_bytes(),
            ).len() ==> (r matches Err(e) && e.spec_kind() == ErrorKind::Overlength),
            r is Ok && self.wf() ==> final(encoder).is_live() && final(encoder).spec_written()
                == old(encoder).spec_written() + spec_tlv_encoding(
                self.spec_tag(),
                self.spec_bytes(),
            ) && final(encoder).spec_buffer().len() == old(encoder).spec_buffer().len() && final(encoder).spec_position() == old(encoder).spec_position() + spec_tlv_encoding(
                self.spec_tag(),
                self.spec_bytes(),
            ).len(),
    {
        let header = Header::new(self.tag, self.value.length());
        match header.encode(encoder) {
            Ok(()) => {},
            Err(e) => {
                return Err(e);
            },
        }
        let r = encoder.bytes(self.value.as_bytes());
        proof {
            if r is Ok && self.wf() {
                assert(encoder.spec_written() =~= old(encoder).spec_written() + spec_tlv_encoding(
                    self.spec_tag(),
                    self.spec_bytes(),
                ));
            }
        }
        r
    }
}

impl<'a, E: Encodable, T: TagLike> TaggedValue<&'a E, T> {
    /// The header for this tagged value, sized by the value's own
    /// `encoded_length`.
    fn header(&self) -> (r: Result<Header<T>, Error>)
        ensures
            r matches Ok(h) ==> h.tag == self.spec_tag(),
    {
        let length = match self.value.encoded_length() {
            Ok(l) => l,
            Err(e) => {
                return Err(e);
            },
        };
        Ok(Header::new(self.tag, length))
    }
}

impl<'a, E: Encodable, T: TagLike> Encodable for TaggedValue<&'a E, T> {
    /// Header plus the value's own encoded length.
    fn encoded_length(&self) -> (r: Result<Length, Error>)
        ensures
            !self.spec_tag().spec_encodable() ==> r is Err,
    {
        let header = match self.header() {
            Ok(h) => h,
            Err(e) => {
                return Err(e);
            },
        };
        let header_len = match header.encoded_length() {
            Ok(l) => l,
            Err(e) => {
                return Err(e);
            },
        };
        header_len.add(header.length)
    }

    /// Write the header, then delegate to the value's own `encode`.
    fn encode(&self, encoder: &mut Encoder) -> (r: Result<(), Error>)
        ensures
            !old(encoder).is_live() ==> r is Err,
    {
        let header = match self.header() {
            Ok(h) => h,
            Err(e) => {
                return Err(e);
            },
        };
        match header.encode(encoder) {
            Ok(()) => {},
            Err(e) => {
                return Err(e);
            },
        }
        encoder.encode(self.value)
    }
}

} // verus!
