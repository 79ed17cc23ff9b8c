//! Single-byte tags of the SIMPLE-TLV profile.

use vstd::prelude::*;

use crate::decoder::Decoder;
use crate::encoder::Encoder;
use crate::error::{Error, ErrorKind};
use crate::length::Length;
use crate::tag::{Class, Tag, TagLike};

verus! {

/// These are tags like in SIMPLE-TLV.
///
/// The tag field consists of a single byte encoding a tag number from 1 to
/// 254. The values `0x00` and `0xFF` are invalid.
///
/// The use case is that PIV (FIPS 201) data objects generally use BER-TLV,
/// but, for historical reasons, label entries with "simple" tags (in
/// particular, tag numbers larger than 30 are still encoded as single bytes).
#[derive(Clone, Copy, Debug, Eq, PartialEq, Structural)]
pub struct SimpleTag(pub(crate) u8);

/// Whether a byte is a valid single-byte tag.
pub open spec fn spec_simple_tag_valid(byte: u8) -> bool {
    byte != 0 && byte != 0xFF
}

/// Reading a single-byte tag from the front of `s`.
pub open(crate) spec fn spec_take_simple_tag(s: Seq<u8>) -> Option<(SimpleTag, int)> {
    if s.len() == 0 {
        None
    } else if spec_simple_tag_valid(s[0]) {
        Some((SimpleTag(s[0]), 1))
    } else {
        None
    }
}

impl SimpleTag {
    /// The raw tag byte, as seen by specifications.
    pub open(crate) spec fn spec_byte(&self) -> u8 {
        self.0
    }
}

impl TryFrom<u8> for SimpleTag {
    type Error = Error;

    fn try_from(tag_number: u8) -> (r: Result<Self, Error>) {
        if tag_number == 0 || tag_number == 0xFF {
            Err(Error { kind: ErrorKind::InvalidTag { byte: tag_number }, position: None })
        } else {
            Ok(SimpleTag(tag_number))
        }
    }
}

impl vstd::std_specs::convert::TryFromSpecImpl<u8> for SimpleTag {
    open spec fn obeys_try_from_spec() -> bool {
        true
    }

    open(crate) spec fn try_from_spec(tag_number: u8) -> Result<Self, Error> {
        if spec_simple_tag_valid(tag_number) {
            Ok(SimpleTag(tag_number))
        } else {
            Err(Error { kind: ErrorKind::InvalidTag { byte: tag_number }, position: None })
        }
    }
}

impl TagLike for SimpleTag {
    open(crate) spec fn spec_encoding(self) -> Seq<u8> {
        seq![self.0]
    }

    open(crate) spec fn spec_encodable(self) -> bool {
        spec_simple_tag_valid(self.0)
    }

    open(crate) spec fn spec_take(s: Seq<u8>) -> Option<(SimpleTag, int)> {
        spec_take_simple_tag(s)
    }

    open(crate) spec fn spec_embedding(self) -> Tag {
        Tag { class: Class::Universal, constructed: false, number: self.0 as u16 }
    }

    proof fn lemma_take_encoding(self, rest: Seq<u8>) {
        let s = self.spec_encoding() + rest;
        assert(s[0] == self.0);
    }

    proof fn lemma_take_bounds(s: Seq<u8>) {
    }

    fn embedding(self) -> (r: Tag) {
        Tag { class: Class::Universal, constructed: false, number: self.0 as u16 }
    }

    fn assert_eq(self, expected: Self) -> (r: Result<Self, Error>) {
        if self == expected {
            Ok(self)
        } else {
            Err(
                Error {
                    kind: ErrorKind::UnexpectedTag {
                        expected: Some(
                            Tag {
                                class: Class::Universal,
                                constructed: false,
                                number: expected.0 as u16,
                            },
                        ),
                        actual: Tag {
                            class: Class::Universal,
                            constructed: false,
                            number: self.0 as u16,
                        },
                    },
                    position: None,
                },
            )
        }
    }

    fn decode_tag(decoder: &mut Decoder<'_>) -> (r: Result<Self, Error>) {
        proof {
            let rem = old(decoder).spec_remaining();
            assert(<SimpleTag as TagLike>::spec_take(rem) == spec_take_simple_tag(rem));
            if rem.len() > 0 {
                assert(spec_take_simple_tag(rem) == (if spec_simple_tag_valid(rem[0]) {
                    Some((SimpleTag(rem[0]), 1int))
                } else {
                    None
                }));
            } else {
                assert(spec_take_simple_tag(rem) is None);
            }
        }
        let byte = match decoder.byte() {
            Ok(b) => b,
            Err(e) => {
                return Err(e);
            },
        };
        if byte == 0 || byte == 0xFF {
            decoder.error(ErrorKind::InvalidTag { byte })
        } else {
            Ok(SimpleTag(byte))
        }
    }

    fn encode_tag(self, encoder: &mut Encoder) -> (r: Result<(), Error>) {
        if self.0 == 0 || self.0 == 0xFF {
            proof {
                assert(!self.spec_encodable());
            }
            encoder.error(ErrorKind::InvalidTag { byte: self.0 })
        } else {
            proof {
                assert(self.spec_encodable());
                assert(self.spec_encoding() =~= seq![self.0]);
            }
            let r = encoder.byte(self.0);
            proof {
                if r is Ok {
                    assert(encoder.spec_written() =~= old(encoder).spec_written()
                        + self.spec_encoding());
                }
            }
            r
        }
    }

    fn tag_length(self) -> (r: Result<Length, Error>) {
        if self.0 == 0 || self.0 == 0xFF {
            Err(Error { kind: ErrorKind::InvalidTag { byte: self.0 }, position: None })
        } else {
            Ok(Length(1))
        }
    }
}


impl<'a> crate::traits::Decodable<'a> for SimpleTag {
    /// Read a single-byte tag; `0x00` and `0xFF` fail with `InvalidTag`.
    fn decode(decoder: &mut Decoder<'a>) -> (r: Result<SimpleTag, Error>)
        ensures
            !old(decoder).is_live() ==> (r matches Err(e) && e.spec_kind() == ErrorKind::Failed),
            r is Err ==> !final(decoder).is_live(),
            r matches Ok(t) ==> (spec_take_simple_tag(old(decoder).spec_remaining()) matches Some(
                (t2, n),
            ) && t2 == t && final(decoder).is_live() && final(decoder).spec_remaining() == old(decoder).spec_remaining().skip(n) && final(decoder).spec_position() == old(decoder).spec_position() + n),
            old(decoder).is_live() && (spec_take_simple_tag(old(decoder).spec_remaining())
                matches Some((t, n)) && old(decoder).spec_position() + n <= u16::MAX) ==> r is Ok,
    {
        <SimpleTag as TagLike>::decode_tag(decoder)
    }
}

impl crate::traits::Encodable for SimpleTag {
    /// A single-byte tag always occupies one byte.
    fn encoded_length(&self) -> (r: Result<Length, Error>)
        ensures
            spec_simple_tag_valid(self.spec_byte()) ==> (r matches Ok(l) && l@ == 1),
    {
        self.tag_length()
    }

    /// Write the tag byte; any failure poisons the encoder.
    fn encode(&self, encoder: &mut Encoder) -> (r: Result<(), Error>)
        ensures
            r is Err ==> !final(encoder).is_live(),
            !spec_simple_tag_valid(self.spec_byte()) ==> r is Err,
            spec_simple_tag_valid(self.spec_byte()) && old(encoder).spec_fits(1) ==> r is Ok,
            spec_simple_tag_valid(self.spec_byte()) && old(encoder).is_live() && old(encoder).spec_buffer().len() <= u16::MAX && old(encoder).spec_position() <= old(encoder).spec_buffer().len() && old(encoder).spec_remaining_len() < 1 ==> (r matches Err(e)
                && e.spec_kind() == ErrorKind::Overlength),
            r is Ok ==> spec_simple_tag_valid(self.spec_byte()) && final(encoder).is_live()
                && final(encoder).spec_written() == old(encoder).spec_written().push(
                self.spec_byte(),
            ) && final(encoder).spec_buffer().len() == old(encoder).spec_buffer().len() && final(encoder).spec_position() == old(encoder).spec_position() + 1,
    {
        self.encode_tag(encoder)
    }
}

} // verus!
