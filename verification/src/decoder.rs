//! Cursor over an input buffer, with bounds checking and poisoning.

use vstd::prelude::*;

use crate::error::{Error, ErrorKind};
use crate::length::Length;

verus! {

/// BER-TLV decoder: a cursor over a borrowed byte buffer.
///
/// The decoder has two states: **live**, holding the bytes not yet consumed,
/// and **poisoned**, entered permanently on the first error. Every operation
/// on a poisoned decoder fails with [`ErrorKind::Failed`].
#[derive(Debug)]
pub struct Decoder<'a> {
    /// Bytes not yet consumed.
    ///
    /// In the event an error was previously encountered this is set to
    /// `None` to prevent further decoding while in a bad state.
    pub(crate) bytes: Option<&'a [u8]>,

    /// Count of bytes consumed so far.
    pub(crate) position: Length,
}

impl<'a> Decoder<'a> {
    /// Whether the decoder is still usable (no error has occurred).
    pub open(crate) spec fn is_live(&self) -> bool {
        self.bytes is Some
    }

    /// The bytes not yet consumed (empty once poisoned).
    pub open(crate) spec fn spec_remaining(&self) -> Seq<u8> {
        match self.bytes {
            Some(b) => b@,
            None => Seq::empty(),
        }
    }

    /// Count of bytes consumed so far.
    pub open(crate) spec fn spec_position(&self) -> int {
        self.position@ as int
    }

    /// Create a new decoder for the given byte slice.
    pub fn new(bytes: &'a [u8]) -> (r: Self)
        ensures
            r.is_live(),
            r.spec_remaining() == bytes@,
            r.spec_position() == 0,
    {
        Self { bytes: Some(bytes), position: Length(0) }
    }

    /// Did the decoding operation fail due to an error?
    pub fn is_failed(&self) -> (r: bool)
        ensures
            r == !self.is_live(),
    {
        self.bytes.is_none()
    }

    /// Return an error with the given [`ErrorKind`], annotating it with
    /// context about where the error occurred, and poison the decoder.
    pub fn error<T>(&mut self, kind: ErrorKind) -> (r: Result<T, Error>)
        ensures
            !final(self).is_live(),
            final(self).spec_position() == old(self).spec_position(),
            r matches Err(e) && e.spec_kind() == kind && (e.spec_position() matches Some(p)
                && p@ == old(self).spec_position()),
    {
        self.bytes = None;
        Err(kind.at(self.position))
    }

    /// Decode a single byte, advancing the cursor.
    ///
    /// Fails with `Truncated` when the buffer is exhausted; any failure
    /// poisons the decoder.
    pub(crate) fn byte(&mut self) -> (r: Result<u8, Error>)
        ensures
            !old(self).is_live() ==> (r matches Err(e) && e.spec_kind() == ErrorKind::Failed),
            old(self).is_live() && old(self).spec_remaining().len() == 0 ==> (r matches Err(e)
                && e.spec_kind() == ErrorKind::Truncated),
            old(self).is_live() && old(self).spec_remaining().len() > 0 && old(self).spec_position()
                + 1 > u16::MAX ==> (r matches Err(e) && e.spec_kind() == ErrorKind::Overflow),
            r is Err ==> !final(self).is_live() && final(self).spec_position() == old(
                self,
            ).spec_position(),
            r is Err ==> (r matches Err(e) && e.spec_position() matches Some(p) && p@ == old(
                self,
            ).spec_position()),
            old(self).is_live() && old(self).spec_remaining().len() > 0 && old(self).spec_position()
                + 1 <= u16::MAX ==> r == Ok::<u8, Error>(old(self).spec_remaining()[0])
                && final(self).is_live() && final(self).spec_remaining() == old(
                self,
            ).spec_remaining().skip(1) && final(self).spec_position() == old(self).spec_position()
                + 1,
    {
        let b = match self.bytes {
            Some(b) => b,
            None => {
                return self.error(ErrorKind::Failed);
            },
        };
        if b.len() == 0 {
            return self.error(ErrorKind::Truncated);
        }
        match self.position.0.checked_add(1) {
            None => self.error(ErrorKind::Overflow),
            Some(p) => {
                let result = *vstd::slice::slice_index_get(b, 0);
                self.bytes = Some(vstd::slice::slice_subrange(b, 1, b.len()));
                self.position = Length(p);
                Ok(result)
            },
        }
    }

    /// Obtain a slice of `len` bytes from the current cursor position, or
    /// return an error if insufficient data remains.
    ///
    /// Fails with `Overflow` when `len` or the advanced position leaves 16
    /// bits, and with `Truncated` when fewer than `len` bytes remain; any
    /// failure poisons the decoder.
    pub(crate) fn bytes(&mut self, len: usize) -> (r: Result<&'a [u8], Error>)
        ensures
            !old(self).is_live() ==> (r matches Err(e) && e.spec_kind() == ErrorKind::Failed),
            old(self).is_live() && len > u16::MAX ==> (r matches Err(e) && e.spec_kind()
                == ErrorKind::Overflow),
            old(self).is_live() && len <= u16::MAX && len > old(self).spec_remaining().len() ==> (r
                matches Err(e) && e.spec_kind() == ErrorKind::Truncated),
            old(self).is_live() && len <= u16::MAX && len <= old(self).spec_remaining().len() && old(
                self,
            ).spec_position() + len > u16::MAX ==> (r matches Err(e) && e.spec_kind()
                == ErrorKind::Overflow),
            r is Err ==> !final(self).is_live() && final(self).spec_position() == old(
                self,
            ).spec_position(),
            r is Err ==> (r matches Err(e) && e.spec_position() matches Some(p) && p@ == old(
                self,
            ).spec_position()),
            old(self).is_live() && len <= u16::MAX && len <= old(self).spec_remaining().len() && old(
                self,
            ).spec_position() + len <= u16::MAX ==> (r matches Ok(out) && out@ == old(
                self,
            ).spec_remaining().take(len as int) && final(self).is_live()
                && final(self).spec_remaining() == old(self).spec_remaining().skip(len as int)
                && final(self).spec_position() == old(self).spec_position() + len),
    {
        let b = match self.bytes {
            Some(b) => b,
            None => {
                return self.error(ErrorKind::Failed);
            },
        };
        if len > u16::MAX as usize {
            return self.error(ErrorKind::Overflow);
        }
        if len > b.len() {
            return self.error(ErrorKind::Truncated);
        }
        match self.position.0.checked_add(len as u16) {
            None => self.error(ErrorKind::Overflow),
            Some(p) => {
                let result = vstd::slice::slice_subrange(b, 0, len);
                self.bytes = Some(vstd::slice::slice_subrange(b, len, b.len()));
                self.position = Length(p);
                Ok(result)
            },
        }
    }

    /// Look at the next byte without consuming it; `None` when the decoder
    /// is poisoned or exhausted.
    pub(crate) fn peek(&self) -> (r: Option<u8>)
        ensures
            self.is_live() && self.spec_remaining().len() > 0 ==> r == Some(
                self.spec_remaining()[0],
            ),
            !(self.is_live() && self.spec_remaining().len() > 0) ==> r is None,
    {
        match self.bytes {
            Some(b) => {
                if b.len() > 0 {
                    Some(*vstd::slice::slice_index_get(b, 0))
                } else {
                    None
                }
            },
            None => None,
        }
    }

    /// Have we decoded all of the bytes in this decoder?
    ///
    /// Returns `false` if we are not finished decoding or if an error has
    /// occurred.
    pub fn is_finished(&self) -> (r: bool)
        ensures
            r == (self.is_live() && self.spec_remaining().len() == 0),
    {
        match self.bytes {
            Some(b) => b.len() == 0,
            None => false,
        }
    }

    /// Finish decoding, returning the given value if there is no remaining
    /// data, or an error otherwise.
    pub fn finish<T>(self, value: T) -> (r: Result<T, Error>)
        ensures
            !self.is_live() ==> (r matches Err(e) && e.spec_kind() == ErrorKind::Failed && (
            e.spec_position() matches Some(p) && p@ == self.spec_position())),
            self.is_live() && self.spec_remaining().len() == 0 ==> (r matches Ok(v) && v == value),
            self.is_live() && 0 < self.spec_remaining().len() <= u16::MAX ==> (r matches Err(e)
                && (e.spec_kind() matches ErrorKind::TrailingData { decoded, remaining }
                && decoded@ == self.spec_position() && remaining@ == self.spec_remaining().len())
                && (e.spec_position() matches Some(p) && p@ == self.spec_position())),
            self.is_live() && self.spec_remaining().len() > u16::MAX ==> (r matches Err(e)
                && e.spec_kind() == ErrorKind::Overflow),
    {
        match self.bytes {
            None => Err(ErrorKind::Failed.at(self.position)),
            Some(b) => {
                if b.len() == 0 {
                    Ok(value)
                } else {
                    match Length::try_from_usize(b.len()) {
                        Ok(remaining) => Err(
                            ErrorKind::TrailingData { decoded: self.position, remaining }.at(
                                self.position,
                            ),
                        ),
                        Err(e) => Err(e),
                    }
                }
            },
        }
    }
}

impl<'a> From<&'a [u8]> for Decoder<'a> {
    fn from(bytes: &'a [u8]) -> (r: Decoder<'a>) {
        Decoder { bytes: Some(bytes), position: Length(0) }
    }
}

impl<'a> vstd::std_specs::convert::FromSpecImpl<&'a [u8]> for Decoder<'a> {
    open spec fn obeys_from_spec() -> bool {
        true
    }

    open(crate) spec fn from_spec(bytes: &'a [u8]) -> Decoder<'a> {
        Decoder { bytes: Some(bytes), position: Length(0) }
    }
}

} // verus!
