//! BER tags: class, constructed flag and number, with their wire encoding.

use vstd::prelude::*;

use crate::decoder::Decoder;
use crate::encoder::Encoder;
use crate::error::{Error, ErrorKind};
use crate::length::Length;
use crate::tagged::TaggedValue;

verus! {

/// Class of a BER tag, the top two bits of its first octet.
#[derive(Clone, Copy, Debug, Eq, PartialEq, Structural)]
pub enum Class {
    Universal,
    Application,
    Context,
    Private,
}

/// The two class bits of a tag's first octet.
pub open spec fn spec_class_bits(c: Class) -> u8 {
    match c {
        Class::Universal => 0b00,
        Class::Application => 0b01,
        Class::Context => 0b10,
        Class::Private => 0b11,
    }
}

/// The class encoded by the two given bits (only values below four arise).
pub open spec fn spec_class_of_bits(b: u8) -> Class {
    if b == 0b00 {
        Class::Universal
    } else if b == 0b01 {
        Class::Application
    } else if b == 0b10 {
        Class::Context
    } else {
        Class::Private
    }
}

/// The two class encodings invert each other.
pub proof fn lemma_class_bits_round_trip(c: Class)
    ensures
        spec_class_of_bits(spec_class_bits(c)) == c,
{
}

impl Class {
    /// The two class bits of this class.
    pub fn bits(self) -> (r: u8)
        ensures
            r == spec_class_bits(self),
            r <= 3,
    {
        match self {
            Class::Universal => 0b00,
            Class::Application => 0b01,
            Class::Context => 0b10,
            Class::Private => 0b11,
        }
    }

    /// The class encoded by the top two bits of a tag's first octet.
    pub fn of_top_bits(byte: u8) -> (r: Class)
        ensures
            r == spec_class_of_bits((byte >> 6) as u8),
    {
        let bits = byte >> 6;
        proof {
            assert(byte >> 6 < 4) by (bit_vector);
        }
        if bits == 0b00 {
            Class::Universal
        } else if bits == 0b01 {
            Class::Application
        } else if bits == 0b10 {
            Class::Context
        } else {
            Class::Private
        }
    }
}

/// A BER tag: class, constructed flag, and tag number.
///
/// Numbers up to 30 use the single-byte form; numbers from 31 to `0x3FFF`
/// use the escape and continuation-bit form, seven bits per extra byte.
/// Larger numbers would need a third continuation byte, which this codec
/// rejects as `Overlength` rather than truncating.
#[derive(Clone, Copy, Debug, Eq, PartialEq, Structural)]
pub struct Tag {
    pub class: Class,
    pub constructed: bool,
    pub number: u16,
}

/// The first octet of a tag's encoding, apart from its number bits.
pub open spec fn spec_tag_leading_bits(t: Tag) -> u8 {
    (spec_class_bits(t.class) << 6) | (if t.constructed {
        0x20u8
    } else {
        0u8
    })
}

/// The bytes that encode a tag (meaningful for encodable tags).
pub open spec fn spec_tag_encoding(t: Tag) -> Seq<u8> {
    let first = spec_tag_leading_bits(t);
    if t.number <= 0x1E {
        seq![first | t.number as u8]
    } else if t.number <= 0x7F {
        seq![first | 0x1F, t.number as u8]
    } else {
        seq![first | 0x1F, 0x80 | (t.number >> 7) as u8, (t.number as u8) & 0x7F]
    }
}

/// Reading a tag from the front of `s`: the decoded tag and the number of
/// bytes it occupies, or `None` when `s` does not start with an acceptable
/// tag field (truncated, or needing a third continuation byte).
pub open spec fn spec_take_tag(s: Seq<u8>) -> Option<(Tag, int)> {
    if s.len() == 0 {
        None
    } else {
        let class = spec_class_of_bits((s[0] >> 6) as u8);
        let constructed = s[0] & 0x20 != 0;
        if s[0] & 0x1F < 0x1F {
            Some((Tag { class, constructed, number: (s[0] & 0x1F) as u16 }, 1))
        } else if s.len() < 2 {
            None
        } else if s[1] & 0x80 == 0 {
            Some((Tag { class, constructed, number: s[1] as u16 }, 2))
        } else if s.len() < 3 {
            None
        } else if s[2] & 0x80 == 0 {
            Some(
                (
                    Tag {
                        class,
                        constructed,
                        number: ((s[1] & 0x7F) as u16) << 7 | (s[2] as u16),
                    },
                    3,
                ),
            )
        } else {
            None
        }
    }
}

impl Tag {
    /// A tag with the given class, constructed flag and number.
    pub fn from(class: Class, constructed: bool, number: u16) -> (r: Self)
        ensures
            r == (Tag { class, constructed, number }),
    {
        Self { class, constructed, number }
    }

    /// A primitive tag of universal class.
    pub fn universal(number: u16) -> (r: Self)
        ensures
            r == (Tag { class: Class::Universal, constructed: false, number }),
    {
        Self { class: Class::Universal, constructed: false, number }
    }

    /// A primitive tag of application class.
    pub fn application(number: u16) -> (r: Self)
        ensures
            r == (Tag { class: Class::Application, constructed: false, number }),
    {
        Self { class: Class::Application, constructed: false, number }
    }

    /// A primitive tag of context class.
    pub fn context(number: u16) -> (r: Self)
        ensures
            r == (Tag { class: Class::Context, constructed: false, number }),
    {
        Self { class: Class::Context, constructed: false, number }
    }

    /// A primitive tag of private class.
    pub fn private(number: u16) -> (r: Self)
        ensures
            r == (Tag { class: Class::Private, constructed: false, number }),
    {
        Self { class: Class::Private, constructed: false, number }
    }

    /// The same tag with the constructed flag set.
    pub fn constructed(self) -> (r: Self)
        ensures
            r == (Tag { class: self.class, constructed: true, number: self.number }),
    {
        Self { class: self.class, constructed: true, number: self.number }
    }
}

/// The common contract of types usable as tags: the general [`Tag`] and the
/// single-byte tag of the SIMPLE-TLV profile.
///
/// A tag flavor states its wire encoding as specification functions, proves
/// that decoding inverts encoding, and carries the executable codec for
/// headers and tagged slices generic over the flavor.
pub trait TagLike: Copy + PartialEq + Sized {
    /// The wire encoding of this tag.
    spec fn spec_encoding(self) -> Seq<u8>;

    /// Whether this codec can put the tag on the wire.
    spec fn spec_encodable(self) -> bool;

    /// Reading a tag of this flavor from the front of `s`: the tag and the
    /// number of bytes it occupies.
    spec fn spec_take(s: Seq<u8>) -> Option<(Self, int)>;

    /// This tag coerced into a general BER [`Tag`], as specifications see it.
    spec fn spec_embedding(self) -> Tag;

    /// Decoding an encoding gives the tag back, whatever follows it.
    proof fn lemma_take_encoding(self, rest: Seq<u8>)
        requires
            self.spec_encodable(),
        ensures
            Self::spec_take(self.spec_encoding() + rest) == Some(
                (self, self.spec_encoding().len() as int),
            ),
            1 <= self.spec_encoding().len() <= 3,
    ;

    /// A successful read stays within the buffer and yields an encodable tag.
    proof fn lemma_take_bounds(s: Seq<u8>)
        ensures
            Self::spec_take(s) matches Some((t, n)) ==> t.spec_encodable() && 0 < n <= s.len(),
    ;

    /// To stick with one error type, make sure the tag type can somehow
    /// or other be coerced into a general [`Tag`].
    fn embedding(self) -> (r: Tag)
        ensures
            r == self.spec_embedding(),
    ;

    /// Assert that this tag matches the provided expected tag.
    ///
    /// On mismatch, returns an [`Error`] with `ErrorKind::UnexpectedTag`.
    fn assert_eq(self, expected: Self) -> (r: Result<Self, Error>)
        ensures
            self == expected ==> (r matches Ok(t) && t == self),
            self != expected ==> (r matches Err(e) && e.spec_kind() == (ErrorKind::UnexpectedTag {
                expected: Some(expected.spec_embedding()),
                actual: self.spec_embedding(),
            }) && e.spec_position() is None),
    ;

    /// Read a tag of this flavor from the decoder; any failure poisons the
    /// decoder.
    fn decode_tag(decoder: &mut Decoder<'_>) -> (r: Result<Self, Error>)
        ensures
            !old(decoder).is_live() ==> (r matches Err(e) && e.spec_kind() == ErrorKind::Failed),
            r is Err ==> !final(decoder).is_live(),
            r matches Ok(t) ==> (Self::spec_take(old(decoder).spec_remaining()) matches Some(
                (t2, n),
            ) && t2 == t && final(decoder).is_live() && final(decoder).spec_remaining() == old(decoder).spec_remaining().skip(n) && final(decoder).spec_position() == old(decoder).spec_position() + n),
            old(decoder).is_live() && Self::spec_take(old(decoder).spec_remaining()) is None ==> r
                is Err,
            old(decoder).is_live() && (Self::spec_take(old(decoder).spec_remaining()) matches Some(
                (t, n),
            ) && old(decoder).spec_position() + n <= u16::MAX) ==> r is Ok,
    ;

    /// Write this tag into the encoder; any failure poisons the encoder.
    fn encode_tag(self, encoder: &mut Encoder) -> (r: Result<(), Error>)
        ensures
            r is Err ==> !final(encoder).is_live(),
            !self.spec_encodable() ==> r is Err,
            self.spec_encodable() && old(encoder).spec_fits(self.spec_encoding().len() as int)
                ==> r is Ok,
            self.spec_encodable() && old(encoder).is_live() && old(encoder).spec_buffer().len()
                <= u16::MAX && old(encoder).spec_position() <= old(encoder).spec_buffer().len()
                && old(encoder).spec_remaining_len() < self.spec_encoding().len() ==> (r matches Err(e) && e.spec_kind() == ErrorKind::Overlength),
            r is Ok ==> self.spec_encodable() && final(encoder).is_live() && final(encoder).spec_written() == old(encoder).spec_written() + self.spec_encoding() && final(encoder).spec_buffer().len() == old(encoder).spec_buffer().len() && final(encoder).spec_position() == old(encoder).spec_position() + self.spec_encoding().len() && final(encoder).spec_position() <= final(encoder).spec_buffer().len(),
    ;

    /// The number of bytes this tag occupies on the wire.
    fn tag_length(self) -> (r: Result<Length, Error>)
        ensures
            self.spec_encodable() ==> (r matches Ok(l) && l@ == self.spec_encoding().len()),
            !self.spec_encodable() ==> r is Err,
    ;

    /// Ergonomic way to get a [`TaggedValue`] for a given tag and value.
    fn with_value<V>(self, value: V) -> (r: TaggedValue<V, Self>)
        ensures
            r.spec_tag() == self,
            r.spec_value() == value,
    {
        TaggedValue::new(self, value)
    }
}

impl TagLike for Tag {
    open spec fn spec_encoding(self) -> Seq<u8> {
        spec_tag_encoding(self)
    }

    open spec fn spec_encodable(self) -> bool {
        self.number <= 0x3FFF
    }

    open spec fn spec_take(s: Seq<u8>) -> Option<(Tag, int)> {
        spec_take_tag(s)
    }

    open spec fn spec_embedding(self) -> Tag {
        self
    }

    proof fn lemma_take_encoding(self, rest: Seq<u8>) {
        lemma_tag_take_encoding(self, rest);
    }

    proof fn lemma_take_bounds(s: Seq<u8>) {
        lemma_tag_take_bounds(s);
    }

    fn embedding(self) -> (r: Tag) {
        self
    }

    fn assert_eq(self, expected: Self) -> (r: Result<Self, Error>) {
        if self == expected {
            Ok(self)
        } else {
            Err(
                Error {
                    kind: ErrorKind::UnexpectedTag { expected: Some(expected), actual: self },
                    position: None,
                },
            )
        }
    }

    fn decode_tag(decoder: &mut Decoder<'_>) -> (r: Result<Self, Error>) {
        proof {
            assert(<Tag as TagLike>::spec_take(old(decoder).spec_remaining()) == spec_take_tag(
                old(decoder).spec_remaining(),
            ));
        }
        let first_byte = match decoder.byte() {
            Ok(b) => b,
            Err(e) => {
                return Err(e);
            },
        };
        let class = Class::of_top_bits(first_byte);
        let constructed = first_byte & 0x20 != 0;
        // remove class and primitive/constructed bits
        let first_byte_masked = first_byte & 0x1F;
        if first_byte_masked < 0x1F {
            Ok(Tag { class, constructed, number: first_byte_masked as u16 })
        } else {
            let second_byte = match decoder.byte() {
                Ok(b) => b,
                Err(e) => {
                    return Err(e);
                },
            };
            if second_byte & 0x80 == 0 {
                Ok(Tag { class, constructed, number: second_byte as u16 })
            } else {
                let third_byte = match decoder.byte() {
                    Ok(b) => b,
                    Err(e) => {
                        return Err(e);
                    },
                };
                if third_byte & 0x80 == 0 {
                    let number = ((second_byte & 0x7F) as u16) << 7 | (third_byte as u16);
                    proof {
                        assert(old(decoder).spec_remaining().skip(1).skip(1).skip(1) =~= old(decoder).spec_remaining().skip(3));
                    }
                    Ok(Tag { class, constructed, number })
                } else {
                    // a third continuation byte is past this codec's limit
                    decoder.error(ErrorKind::Overlength)
                }
            }
        }
    }

    fn encode_tag(self, encoder: &mut Encoder) -> (r: Result<(), Error>) {
        proof {
            assert(self.spec_encoding() == spec_tag_encoding(self));
            assert(self.spec_encodable() == (self.number <= 0x3FFF));
        }
        let first_byte = (self.class.bits() << 6) | (if self.constructed {
            0x20u8
        } else {
            0u8
        });
        if self.number <= 0x1E {
            encoder.byte(first_byte | self.number as u8)
        } else if self.number <= 0x7F {
            match encoder.byte(first_byte | 0x1F) {
                Ok(()) => {},
                Err(e) => {
                    return Err(e);
                },
            }
            let r = encoder.byte(self.number as u8);
            proof {
                if r is Ok {
                    assert(encoder.spec_written() =~= old(encoder).spec_written()
                        + self.spec_encoding());
                }
            }
            r
        } else if self.number <= 0x3FFF {
            match encoder.byte(first_byte | 0x1F) {
                Ok(()) => {},
                Err(e) => {
                    return Err(e);
                },
            }
            match encoder.byte(0x80 | (self.number >> 7) as u8) {
                Ok(()) => {},
                Err(e) => {
                    return Err(e);
                },
            }
            let r = encoder.byte((self.number as u8) & 0x7F);
            proof {
                if r is Ok {
                    assert(encoder.spec_written() =~= old(encoder).spec_written()
                        + self.spec_encoding());
                }
            }
            r
        } else {
            encoder.error(ErrorKind::Overlength)
        }
    }

    fn tag_length(self) -> (r: Result<Length, Error>)
        ensures
            self.number > 0x3FFF ==> (r matches Err(e) && e.spec_kind() == ErrorKind::Overlength
                && e.spec_position() is None),
    {
        proof {
            assert(self.spec_encoding() == spec_tag_encoding(self));
            assert(self.spec_encodable() == (self.number <= 0x3FFF));
        }
        if self.number <= 0x1E {
            Ok(Length(1))
        } else if self.number <= 0x7F {
            Ok(Length(2))
        } else if self.number <= 0x3FFF {
            Ok(Length(3))
        } else {
            Err(Error { kind: ErrorKind::Overlength, position: None })
        }
    }
}


impl Tag {
    /// Decode a tag from its first octet alone; multi-byte tags are rejected
    /// as truncated.
    pub fn try_from(encoded_value: u8) -> (r: Result<Tag, Error>)
        ensures
            spec_take_tag(seq![encoded_value]) matches Some((t, n)) ==> r == Ok::<Tag, Error>(t),
            spec_take_tag(seq![encoded_value]) is None ==> r is Err,
    {
        let bytes = [encoded_value];
        let mut decoder = crate::decoder::Decoder::new(bytes.as_slice());
        <Tag as TagLike>::decode_tag(&mut decoder)
    }
}

impl<'a> crate::traits::Decodable<'a> for Tag {
    /// Read a BER tag; see [`TagLike::decode_tag`] for the exact cases.
    fn decode(decoder: &mut Decoder<'a>) -> (r: Result<Tag, Error>)
        ensures
            !old(decoder).is_live() ==> (r matches Err(e) && e.spec_kind() == ErrorKind::Failed),
            r is Err ==> !final(decoder).is_live(),
            r matches Ok(t) ==> (spec_take_tag(old(decoder).spec_remaining()) matches Some((t2, n))
                && t2 == t && final(decoder).is_live() && final(decoder).spec_remaining() == old(decoder).spec_remaining().skip(n) && final(decoder).spec_position() == old(decoder).spec_position() + n),
            old(decoder).is_live() && (spec_take_tag(old(decoder).spec_remaining()) matches Some(
                (t, n),
            ) && old(decoder).spec_position() + n <= u16::MAX) ==> r is Ok,
    {
        <Tag as TagLike>::decode_tag(decoder)
    }
}

impl crate::traits::Encodable for Tag {
    /// One, two or three bytes, by the tag number; numbers past `0x3FFF`
    /// cannot be encoded and fail with `Overlength`.
    fn encoded_length(&self) -> (r: Result<Length, Error>)
        ensures
            self.number <= 0x3FFF ==> (r matches Ok(l) && l@ == spec_tag_encoding(*self).len()),
            self.number > 0x3FFF ==> (r matches Err(e) && e.spec_kind() == ErrorKind::Overlength),
    {
        self.tag_length()
    }

    /// Write the tag field; any failure poisons the encoder.
    fn encode(&self, encoder: &mut Encoder) -> (r: Result<(), Error>)
        ensures
            r is Err ==> !final(encoder).is_live(),
            self.number > 0x3FFF ==> r is Err,
            self.number <= 0x3FFF && old(encoder).spec_fits(spec_tag_encoding(*self).len() as int)
                ==> r is Ok,
            self.number <= 0x3FFF && old(encoder).is_live() && old(encoder).spec_buffer().len()
                <= u16::MAX && old(encoder).spec_position() <= old(encoder).spec_buffer().len()
                && old(encoder).spec_remaining_len() < spec_tag_encoding(*self).len() ==> (r
                matches Err(e) && e.spec_kind() == ErrorKind::Overlength),
            r is Ok ==> self.number <= 0x3FFF && final(encoder).is_live() && final(encoder).spec_written() == old(encoder).spec_written() + spec_tag_encoding(*self) && final(encoder).spec_buffer().len() == old(encoder).spec_buffer().len() && final(encoder).spec_position() == old(encoder).spec_position() + spec_tag_encoding(*self).len(),
    {
        self.encode_tag(encoder)
    }
}

/// Decoding a tag encoding gives the tag back, whatever follows it in the
/// buffer: `spec_tag_encoding` is exactly what encoding a [`Tag`] appends,
/// and `spec_take_tag` exactly what decoding one consumes, so the two
/// executable directions invert each other for every encodable tag,
/// including the boundary numbers where the wire form changes width.
pub proof fn lemma_tag_take_encoding(t: Tag, rest: Seq<u8>)
    requires
        t.number <= 0x3FFF,
    ensures
        spec_take_tag(spec_tag_encoding(t) + rest) == Some(
            (t, spec_tag_encoding(t).len() as int),
        ),
{
    let s = spec_tag_encoding(t) + rest;
    let c = spec_class_bits(t.class);
    let k: u8 = if t.constructed { 0x20 } else { 0 };
    let f = (c << 6) | k;
    let n = t.number;
    lemma_class_bits_round_trip(t.class);
    if n <= 0x1E {
        let b0 = f | n as u8;
        assert(s[0] == b0);
        assert(c <= 3 && (k == 0 || k == 0x20) && n <= 0x1E ==> {
            let b = (((c << 6) | k) | n as u8);
            &&& b >> 6 == c
            &&& (b & 0x20 != 0) == (k == 0x20)
            &&& b & 0x1F < 0x1F
            &&& (b & 0x1F) as u16 == n
        }) by (bit_vector);
    } else if n <= 0x7F {
        let b0 = f | 0x1F;
        assert(s[0] == b0 && s[1] == n as u8);
        assert(c <= 3 && (k == 0 || k == 0x20) && 0x1E < n <= 0x7F ==> {
            let b = (((c << 6) | k) | 0x1F);
            &&& b >> 6 == c
            &&& (b & 0x20 != 0) == (k == 0x20)
            &&& !(b & 0x1F < 0x1F)
            &&& (n as u8) & 0x80 == 0
            &&& (n as u8) as u16 == n
        }) by (bit_vector);
    } else {
        let b0 = f | 0x1F;
        let b1 = 0x80 | (n >> 7) as u8;
        let b2 = (n as u8) & 0x7F;
        assert(s[0] == b0 && s[1] == b1 && s[2] == b2);
        assert(c <= 3 && (k == 0 || k == 0x20) && 0x7F < n <= 0x3FFF ==> {
            let b = (((c << 6) | k) | 0x1F);
            &&& b >> 6 == c
            &&& (b & 0x20 != 0) == (k == 0x20)
            &&& !(b & 0x1F < 0x1F)
            &&& (0x80 | (n >> 7) as u8) & 0x80 != 0
            &&& ((n as u8) & 0x7F) & 0x80 == 0
            &&& ((((0x80 | (n >> 7) as u8)) & 0x7F) as u16) << 7 | (((n as u8) & 0x7F) as u16)
                == n
        }) by (bit_vector);
    }
}

/// A successful tag read stays within the buffer and yields an encodable tag.
pub proof fn lemma_tag_take_bounds(s: Seq<u8>)
    ensures
        spec_take_tag(s) matches Some((t, n)) ==> t.number <= 0x3FFF && 0 < n <= s.len(),
{
    if s.len() > 0 {
        let b0 = s[0];
        assert(b0 & 0x1F < 0x1F ==> (b0 & 0x1F) as u16 <= 0x3FFF) by (bit_vector);
        if s.len() >= 2 {
            let b1 = s[1];
            assert(b1 & 0x80 == 0 ==> b1 as u16 <= 0x3FFF) by (bit_vector);
            if s.len() >= 3 {
                let b2 = s[2];
                assert(((b1 & 0x7F) as u16) << 7 | (b2 as u16) <= 0x3FFF) by (bit_vector);
            }
        }
    }
}

} // verus!
