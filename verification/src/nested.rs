//! Nested BER-TLV data objects.

use vstd::prelude::*;

use crate::decoder::Decoder;
use crate::encoder::Encoder;
use crate::error::{Error, ErrorKind};
use crate::header::Header;
use crate::length::Length;
use crate::slice::Slice;
use crate::tag::Tag;
use crate::tagged::{spec_tlv_encoding, TaggedSlice, TaggedValue};
use crate::traits::{Container, Encodable};

verus! {

/// Obtain the length of a container of fields when serialized as BER-TLV
/// under the given tag, including the tag and length prefix.
pub fn encoded_length<C: Container>(tag: Tag, fields: &C) -> (r: Result<Length, Error>)
    ensures
        tag.number > 0x3FFF ==> r is Err,
{
    let inner_len = match encoded_length_inner(fields) {
        Ok(l) => l,
        Err(e) => {
            return Err(e);
        },
    };
    let header = Header::new(tag, inner_len);
    let header_len = match header.encoded_length() {
        Ok(l) => l,
        Err(e) => {
            return Err(e);
        },
    };
    header_len.add(inner_len)
}

/// Obtain the inner length of a container of fields, excluding the tag and
/// length prefix.
pub(crate) fn encoded_length_inner<C: Container>(fields: &C) -> Result<Length, Error> {
    fields.fields_length()
}

/// Nested BER-TLV data object: a tag over a body that is itself a
/// concatenation of TLV records.
#[derive(Copy, Clone, Debug, Eq, PartialEq)]
pub struct Nested<'a> {
    /// Tag.
    pub(crate) tag: Tag,

    /// Inner value.
    pub(crate) slice: Slice<'a>,
}

impl<'a> Nested<'a> {
    /// The body bytes, as seen by specifications.
    pub open(crate) spec fn spec_bytes(&self) -> Seq<u8> {
        self.slice@
    }

    /// The tag, as seen by specifications.
    pub open(crate) spec fn spec_tag(&self) -> Tag {
        self.tag
    }

    /// The precomputed length inside the slice matches it.
    pub open(crate) spec fn wf(&self) -> bool {
        self.slice.wf()
    }

    /// Create a new [`Nested`] from a tag and its body bytes.
    pub fn new(tag: Tag, slice: &'a [u8]) -> (r: Result<Self, Error>)
        ensures
            slice@.len() <= u16::MAX ==> (r matches Ok(n) && n.spec_tag() == tag && n.spec_bytes()
                == slice@ && n.wf()),
            slice@.len() > u16::MAX ==> (r matches Err(e) && e.spec_kind() == (ErrorKind::Length {
                tag,
            }) && e.spec_position() is None),
    {
        match Slice::new(slice) {
            Ok(slice) => Ok(Self { tag, slice }),
            Err(_) => Err(Error { kind: ErrorKind::Length { tag }, position: None }),
        }
    }

    /// Borrow the inner byte sequence.
    pub fn as_bytes(&self) -> (r: &'a [u8])
        ensures
            r@ == self.spec_bytes(),
    {
        self.slice.as_bytes()
    }

    /// Get the tag.
    pub fn tag(&self) -> (r: Tag)
        ensures
            r == self.spec_tag(),
    {
        self.tag
    }

    /// Decode nested values, creating a new [`Decoder`] for the data
    /// contained in this object's body and passing it to the provided
    /// closure, which must consume the body completely.
    pub fn decode_nested<F, T>(&self, f: F) -> (r: Result<T, Error>) where
        F: FnOnce(&mut Decoder<'a>) -> Result<T, Error>,

        requires
            forall|d: &mut Decoder<'a>| call_requires(f, (d,)),
        ensures
            r matches Ok(v) ==> exists|d: &mut Decoder<'a>| call_ensures(f, (d,), Ok(v)),
    {
        let mut nested_decoder = Decoder::new(self.as_bytes());
        let result = match f(&mut nested_decoder) {
            Ok(v) => v,
            Err(e) => {
                return Err(e);
            },
        };
        nested_decoder.finish(result)
    }
}

impl<'a> From<TaggedSlice<'a>> for Nested<'a> {
    fn from(tagged_slice: TaggedSlice<'a>) -> (r: Nested<'a>) {
        Self { tag: tagged_slice.tag(), slice: tagged_slice.value }
    }
}

impl<'a> vstd::std_specs::convert::FromSpecImpl<TaggedSlice<'a>> for Nested<'a> {
    open spec fn obeys_from_spec() -> bool {
        true
    }

    open(crate) spec fn from_spec(tagged_slice: TaggedSlice<'a>) -> Nested<'a> {
        Nested { tag: tagged_slice.spec_tag(), slice: tagged_slice.spec_value() }
    }
}

impl<'a> From<Nested<'a>> for TaggedSlice<'a> {
    fn from(nested: Nested<'a>) -> (r: TaggedSlice<'a>) {
        TaggedValue { tag: nested.tag, value: nested.slice }
    }
}

impl<'a> vstd::std_specs::convert::FromSpecImpl<Nested<'a>> for TaggedSlice<'a> {
    open spec fn obeys_from_spec() -> bool {
        true
    }

    open(crate) spec fn from_spec(nested: Nested<'a>) -> TaggedSlice<'a> {
        TaggedValue { tag: nested.spec_tag(), value: nested.slice }
    }
}

impl<'a> Encodable for Nested<'a> {
    /// Header plus body: the whole record's size on the wire, as for a
    /// tagged slice.
    fn encoded_length(&self) -> (r: Result<Length, Error>)
        ensures
            self.wf() && self.spec_tag().number <= 0x3FFF && spec_tlv_encoding(
                self.spec_tag(),
                self.spec_bytes(),
            ).len() <= u16::MAX ==> (r matches Ok(l) && l@ == spec_tlv_encoding(
                self.spec_tag(),
                self.spec_bytes(),
            ).len()),
            self.spec_tag().number > 0x3FFF ==> r is Err,
    {
        let ts: TaggedSlice<'a> = TaggedValue { tag: self.tag, value: self.slice };
        ts.encoded_length()
    }

    /// Write the record as a tagged slice; any failure poisons the encoder.
    fn encode(&self, encoder: &mut Encoder) -> (r: Result<(), Error>)
        ensures
            r is Err ==> !final(encoder).is_live(),
            self.wf() && self.spec_tag().number <= 0x3FFF && old(encoder).spec_fits(
                spec_tlv_encoding(self.spec_tag(), self.spec_bytes()).len() as int,
            ) ==> r is Ok,
            self.wf() && self.spec_tag().number <= 0x3FFF && old(encoder).is_live() && old(encoder).spec_buffer().len() <= u16::MAX && old(encoder).spec_position() <= old(encoder).spec_buffer().len() && old(encoder).spec_remaining_len() < spec_tlv_encoding(
                self.spec_tag(),
                self.spec_bytes(),
            ).len() ==> (r matches Err(e) && e.spec_kind() == ErrorKind::Overlength),
            r is Ok && self.wf() ==> final(encoder).is_live() && final(encoder).spec_written()
                == old(encoder).spec_written() + spec_tlv_encoding(
                self.spec_tag(),
                self.spec_bytes(),
            ),
    {
        let ts: TaggedSlice<'a> = TaggedValue { tag: self.tag, value: self.slice };
        ts.encode(encoder)
    }
}

} // verus!
