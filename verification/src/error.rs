//! Error taxonomy for the BER-TLV codec.
//!
//! Every fallible step returns a typed [`Error`] carrying the precise
//! [`ErrorKind`] and, once known, the byte position at which it was detected.

use vstd::prelude::*;

use crate::length::Length;
use crate::tag::Tag;

verus! {

/// Error type: a kind plus an optional byte position inside the message.
#[derive(Copy, Clone, Debug, Eq, PartialEq)]
pub struct Error {
    /// Kind of error.
    pub(crate) kind: ErrorKind,

    /// Position inside of the message where the error occurred.
    pub(crate) position: Option<Length>,
}

impl Error {
    /// The kind of this error, as seen by specifications.
    pub open(crate) spec fn spec_kind(&self) -> ErrorKind {
        self.kind
    }

    /// The recorded position of this error, as seen by specifications.
    pub open(crate) spec fn spec_position(&self) -> Option<Length> {
        self.position
    }

    /// Create a new [`Error`] at a known position.
    pub fn new(kind: ErrorKind, position: Length) -> (r: Error)
        ensures
            r.spec_kind() == kind,
            r.spec_position() == Some(position),
    {
        Error { kind, position: Some(position) }
    }

    /// Get the [`ErrorKind`] which occurred.
    pub fn kind(self) -> (r: ErrorKind)
        ensures
            r == self.spec_kind(),
    {
        self.kind
    }

    /// Get the position inside of the message where the error occurred.
    pub fn position(self) -> (r: Option<Length>)
        ensures
            r == self.spec_position(),
    {
        self.position
    }

    /// For errors occurring inside of a nested message, extend the recorded
    /// position by the offset at which the nested message occurs.
    ///
    /// The position is dropped when the sum leaves 16 bits.
    pub fn nested(self, nested_position: Length) -> (r: Self)
        ensures
            r.spec_kind() == self.spec_kind(),
            nested_position@ + self.spec_inner_position() <= u16::MAX ==> (r.spec_position() matches Some(p)
                && p@ == nested_position@ + self.spec_inner_position()),
            nested_position@ + self.spec_inner_position() > u16::MAX ==> r.spec_position() is None,
    {
        let inner: u16 = match self.position {
            Some(p) => p.0,
            None => 0,
        };
        match nested_position.0.checked_add(inner) {
            Some(sum) => Error { kind: self.kind, position: Some(Length(sum)) },
            None => Error { kind: self.kind, position: None },
        }
    }

    /// The recorded position, defaulting to zero when none was recorded.
    pub open spec fn spec_inner_position(&self) -> int {
        match self.spec_position() {
            Some(p) => p@ as int,
            None => 0,
        }
    }
}

impl From<ErrorKind> for Error {
    fn from(kind: ErrorKind) -> (r: Error) {
        Error { kind, position: None }
    }
}

impl vstd::std_specs::convert::FromSpecImpl<ErrorKind> for Error {
    open spec fn obeys_from_spec() -> bool {
        true
    }

    open(crate) spec fn from_spec(kind: ErrorKind) -> Error {
        Error { kind, position: None }
    }
}

/// Kinds of errors the codec reports.
#[derive(Copy, Clone, Debug, Eq, PartialEq)]
#[non_exhaustive]
pub enum ErrorKind {
    /// Operation failed due to a previous error.
    Failed,

    /// Invalid tag byte in the single-byte tag profile.
    InvalidTag {
        /// Raw byte value of the tag.
        byte: u8,
    },

    /// Length greater than `u16::MAX`, or an indefinite-length marker.
    InvalidLength,

    /// Incorrect length for a given field.
    Length {
        /// Tag type of the value being decoded.
        tag: Tag,
    },

    /// Integer overflow occurred (library bug!).
    Overflow,

    /// Message is longer than the format's limits support.
    Overlength,

    /// Undecoded trailing data at end of message.
    TrailingData {
        /// Length of the decoded data.
        decoded: Length,

        /// Total length of the remaining data left in the buffer.
        remaining: Length,
    },

    /// Unexpected end-of-message/nested field when decoding.
    Truncated,

    /// Encoded message is shorter than the expected length
    /// (i.e. an `Encodable` impl on a particular type has a buggy `encoded_length`).
    Underlength {
        /// Expected length.
        expected: Length,

        /// Actual length.
        actual: Length,
    },

    /// Unexpected tag.
    UnexpectedTag {
        /// Tag the decoder was expecting (if there is a single such tag).
        expected: Option<Tag>,

        /// Actual tag encountered in the message.
        actual: Tag,
    },
}

impl ErrorKind {
    /// Annotate an [`ErrorKind`] with context about where it occurred,
    /// returning an error.
    pub fn at(self, position: Length) -> (r: Error)
        ensures
            r.spec_kind() == self,
            r.spec_position() == Some(position),
    {
        Error::new(self, position)
    }
}

} // verus!
