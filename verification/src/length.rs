//! Length calculations for encoded BER-TLV values.

use vstd::prelude::*;

use crate::error::{Error, ErrorKind};

verus! {

/// BER-TLV-encoded length.
///
/// By definition, in the range `0..=65535`.
///
/// The length field consists of one to three consecutive bytes:
/// - a first byte below `0x80` encodes the value itself (short form);
/// - `0x81` announces one value byte (0 to 255);
/// - `0x82` announces two big-endian value bytes (0 to 65,535);
/// - `0x80` (indefinite length) and first bytes above `0x82` are rejected.
#[derive(Copy, Clone, Debug, Eq, PartialEq, PartialOrd, Ord, Structural)]
pub struct Length(pub(crate) u16);

impl View for Length {
    type V = u16;

    open(crate) spec fn view(&self) -> u16 {
        self.0
    }
}

/// The bytes that encode a length value `v`.
pub open spec fn spec_length_encoding(v: u16) -> Seq<u8> {
    if v < 0x80 {
        seq![v as u8]
    } else if v <= 0xFF {
        seq![0x81u8, v as u8]
    } else {
        seq![0x82u8, (v >> 8) as u8, (v & 0xFF) as u8]
    }
}

/// Reading a length field from the front of `s`: the decoded value and the
/// number of bytes it occupies, or `None` when `s` does not start with an
/// acceptable length field.
///
/// Non-minimal long-form encodings (such as `[0x81, 0x05]` for `5`) are
/// accepted; the indefinite-length marker `0x80` and first bytes above `0x82`
/// are not.
pub open spec fn spec_take_length(s: Seq<u8>) -> Option<(u16, int)> {
    if s.len() == 0 {
        None
    } else if s[0] < 0x80 {
        Some((s[0] as u16, 1))
    } else if s[0] == 0x81 {
        if s.len() >= 2 {
            Some((s[1] as u16, 2))
        } else {
            None
        }
    } else if s[0] == 0x82 {
        if s.len() >= 3 {
            Some((((s[1] as u16) << 8) | (s[2] as u16), 3))
        } else {
            None
        }
    } else {
        None
    }
}

impl Length {
    /// Return a length of `0`.
    pub fn zero() -> (r: Self)
        ensures
            r@ == 0,
    {
        Length(0)
    }

    /// Get the maximum length supported by BER-TLV: 65,535.
    pub fn max() -> (r: usize)
        ensures
            r == u16::MAX as usize,
    {
        u16::MAX as usize
    }

    /// Convert length to `usize`.
    pub fn to_usize(self) -> (r: usize)
        ensures
            r == self@ as usize,
    {
        self.0 as usize
    }

    /// Checked addition of two lengths; fails with `Overflow` when the sum
    /// does not fit in 16 bits.
    pub fn add(self, other: Length) -> (r: Result<Length, Error>)
        ensures
            self@ + other@ <= u16::MAX ==> (r matches Ok(l) && l@ == self@ + other@),
            self@ + other@ > u16::MAX ==> (r matches Err(e) && e.spec_kind() == ErrorKind::Overflow
                && e.spec_position() is None),
    {
        match self.0.checked_add(other.0) {
            Some(v) => Ok(Length(v)),
            None => Err(Error { kind: ErrorKind::Overflow, position: None }),
        }
    }

    /// Convert from a byte count; fails with `Overflow` when the count
    /// exceeds 65,535.
    pub fn try_from_usize(len: usize) -> (r: Result<Length, Error>)
        ensures
            len <= u16::MAX ==> (r matches Ok(l) && l@ == len),
            len > u16::MAX ==> (r matches Err(e) && e.spec_kind() == ErrorKind::Overflow
                && e.spec_position() is None),
    {
        if len <= u16::MAX as usize {
            Ok(Length(len as u16))
        } else {
            Err(Error { kind: ErrorKind::Overflow, position: None })
        }
    }

    /// The number of bytes this length occupies on the wire: 1, 2 or 3.
    pub fn encoding_length(self) -> (r: Length)
        ensures
            r@ == spec_length_encoding(self@).len(),
    {
        if self.0 < 0x80 {
            Length(1)
        } else if self.0 <= 0xFF {
            Length(2)
        } else {
            Length(3)
        }
    }
}

impl From<u8> for Length {
    fn from(len: u8) -> (r: Length) {
        Length(len as u16)
    }
}

impl vstd::std_specs::convert::FromSpecImpl<u8> for Length {
    open spec fn obeys_from_spec() -> bool {
        true
    }

    open(crate) spec fn from_spec(len: u8) -> Length {
        Length(len as u16)
    }
}

impl From<u16> for Length {
    fn from(len: u16) -> (r: Length) {
        Length(len)
    }
}

impl vstd::std_specs::convert::FromSpecImpl<u16> for Length {
    open spec fn obeys_from_spec() -> bool {
        true
    }

    open(crate) spec fn from_spec(len: u16) -> Length {
        Length(len)
    }
}

impl TryFrom<usize> for Length {
    type Error = Error;

    fn try_from(len: usize) -> (r: Result<Length, Error>) {
        Length::try_from_usize(len)
    }
}

impl vstd::std_specs::convert::TryFromSpecImpl<usize> for Length {
    open spec fn obeys_try_from_spec() -> bool {
        true
    }

    open(crate) spec fn try_from_spec(len: usize) -> Result<Length, Error> {
        if len <= u16::MAX {
            Ok(Length(len as u16))
        } else {
            Err(Error { kind: ErrorKind::Overflow, position: None })
        }
    }
}

impl Default for Length {
    fn default() -> (r: Length)
        ensures
            r@ == 0,
    {
        Length(0)
    }
}


impl<'a> crate::traits::Decodable<'a> for Length {
    /// Read a length field: one byte below `0x80` stands for itself; `0x81`
    /// and `0x82` announce one or two big-endian value bytes; `0x80` (the
    /// indefinite-length marker) fails with `InvalidLength` and first bytes
    /// above `0x82` with `Overlength`. Any failure poisons the decoder.
    fn decode(decoder: &mut crate::decoder::Decoder<'a>) -> (r: Result<Length, Error>)
        ensures
            !old(decoder).is_live() ==> (r matches Err(e) && e.spec_kind() == ErrorKind::Failed),
            r is Err ==> !final(decoder).is_live(),
            r matches Ok(l) ==> (spec_take_length(old(decoder).spec_remaining()) matches Some(
                (v, n),
            ) && l@ == v && final(decoder).is_live() && final(decoder).spec_remaining() == old(
                decoder,
            ).spec_remaining().skip(n) && final(decoder).spec_position() == old(
                decoder,
            ).spec_position() + n),
            old(decoder).is_live() && (spec_take_length(old(decoder).spec_remaining()) matches Some(
                (v, n),
            ) && old(decoder).spec_position() + n <= u16::MAX) ==> r is Ok,
            old(decoder).is_live() && old(decoder).spec_remaining().len() == 0 ==> (r matches Err(e)
                && e.spec_kind() == ErrorKind::Truncated),
            old(decoder).is_live() && old(decoder).spec_remaining().len() > 0 && old(
                decoder,
            ).spec_position() + 1 <= u16::MAX && old(decoder).spec_remaining()[0] == 0x80 ==> (r
                matches Err(e) && e.spec_kind() == ErrorKind::InvalidLength),
            old(decoder).is_live() && old(decoder).spec_remaining().len() > 0 && old(
                decoder,
            ).spec_position() + 1 <= u16::MAX && old(decoder).spec_remaining()[0] > 0x82 ==> (r
                matches Err(e) && e.spec_kind() == ErrorKind::Overlength),
            old(decoder).is_live() && old(decoder).spec_position() + 2 <= u16::MAX && old(
                decoder,
            ).spec_remaining().len() > 0 && ((old(decoder).spec_remaining()[0] == 0x81 && old(
                decoder,
            ).spec_remaining().len() < 2) || (old(decoder).spec_remaining()[0] == 0x82 && old(
                decoder,
            ).spec_remaining().len() < 3)) ==> (r matches Err(e) && e.spec_kind()
                == ErrorKind::Truncated),
    {
        let b0 = match decoder.byte() {
            Ok(b) => b,
            Err(e) => {
                return Err(e);
            },
        };
        if b0 < 0x80 {
            Ok(Length(b0 as u16))
        } else if b0 == 0x80 {
            // we do not support indefinite lengths
            decoder.error(ErrorKind::InvalidLength)
        } else if b0 == 0x81 {
            // one byte to follow; non-minimal encodings are accepted
            let b1 = match decoder.byte() {
                Ok(b) => b,
                Err(e) => {
                    return Err(e);
                },
            };
            proof {
                assert(old(decoder).spec_remaining().skip(1).skip(1) =~= old(
                    decoder,
                ).spec_remaining().skip(2));
            }
            Ok(Length(b1 as u16))
        } else if b0 == 0x82 {
            // two big-endian bytes to follow; non-minimal encodings are accepted
            let hi = match decoder.byte() {
                Ok(b) => b,
                Err(e) => {
                    return Err(e);
                },
            };
            let lo = match decoder.byte() {
                Ok(b) => b,
                Err(e) => {
                    return Err(e);
                },
            };
            proof {
                assert(old(decoder).spec_remaining().skip(1).skip(1).skip(1) =~= old(
                    decoder,
                ).spec_remaining().skip(3));
            }
            Ok(Length(((hi as u16) << 8) | (lo as u16)))
        } else {
            // we specialize to a maximum three-byte encoding of the length
            decoder.error(ErrorKind::Overlength)
        }
    }
}

impl crate::traits::Encodable for Length {
    /// The length field occupies one, two or three bytes.
    fn encoded_length(&self) -> (r: Result<Length, Error>)
        ensures
            r matches Ok(l) && l@ == spec_length_encoding(self@).len(),
    {
        Ok(self.encoding_length())
    }

    /// Write the length field; any failure poisons the encoder.
    fn encode(&self, encoder: &mut crate::encoder::Encoder) -> (r: Result<(), Error>)
        ensures
            r is Err ==> !final(encoder).is_live(),
            !old(encoder).is_live() ==> (r matches Err(e) && e.spec_kind() == ErrorKind::Failed),
            old(encoder).spec_fits(spec_length_encoding(self@).len() as int) ==> r is Ok,
            old(encoder).is_live() && old(encoder).spec_buffer().len() <= u16::MAX && old(
                encoder,
            ).spec_position() <= old(encoder).spec_buffer().len() && old(
                encoder,
            ).spec_remaining_len() < spec_length_encoding(self@).len() ==> (r matches Err(e)
                && e.spec_kind() == ErrorKind::Overlength),
            r is Ok ==> final(encoder).is_live() && final(encoder).spec_written() == old(
                encoder,
            ).spec_written() + spec_length_encoding(self@) && final(encoder).spec_buffer().len()
                == old(encoder).spec_buffer().len() && final(encoder).spec_position() == old(
                encoder,
            ).spec_position() + spec_length_encoding(self@).len() && final(encoder).spec_position()
                <= final(encoder).spec_buffer().len(),
    {
        if self.0 < 0x80 {
            encoder.byte(self.0 as u8)
        } else if self.0 <= 0xFF {
            match encoder.byte(0x81) {
                Ok(()) => {},
                Err(e) => {
                    return Err(e);
                },
            }
            let r = encoder.byte(self.0 as u8);
            proof {
                if r is Ok {
                    assert(encoder.spec_written() =~= old(encoder).spec_written()
                        + spec_length_encoding(self@));
                }
            }
            r
        } else {
            match encoder.byte(0x82) {
                Ok(()) => {},
                Err(e) => {
                    return Err(e);
                },
            }
            match encoder.byte((self.0 >> 8) as u8) {
                Ok(()) => {},
                Err(e) => {
                    return Err(e);
                },
            }
            let r = encoder.byte((self.0 & 0xFF) as u8);
            proof {
                if r is Ok {
                    assert(encoder.spec_written() =~= old(encoder).spec_written()
                        + spec_length_encoding(self@));
                }
            }
            r
        }
    }
}

/// Decoding a length encoding gives the value back, whatever follows it in
/// the buffer: `spec_length_encoding` is exactly what encoding a [`Length`]
/// appends, and `spec_take_length` exactly what decoding one consumes, so
/// the two executable directions invert each other.
pub proof fn lemma_length_round_trip(v: u16, rest: Seq<u8>)
    ensures
        spec_take_length(spec_length_encoding(v) + rest) == Some(
            (v, spec_length_encoding(v).len() as int),
        ),
{
    let s = spec_length_encoding(v) + rest;
    if v < 0x80 {
        assert(s[0] == v as u8);
    } else if v <= 0xFF {
        assert(s[0] == 0x81 && s[1] == v as u8);
    } else {
        assert(s[0] == 0x82 && s[1] == (v >> 8) as u8 && s[2] == (v & 0xFF) as u8);
        assert(v > 0xFF ==> ((((v >> 8) as u8) as u16) << 8) | (((v & 0xFF) as u8) as u16) == v)
            by (bit_vector);
    }
}

} // verus!
