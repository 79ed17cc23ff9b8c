//! Cursor over an output buffer, with bounds checking and poisoning.

use vstd::prelude::*;

use crate::error::{Error, ErrorKind};
use crate::length::Length;

verus! {

/// A buffer of `len` zero bytes, ready to back an [`Encoder`].
pub(crate) fn zeroed(len: usize) -> (r: Vec<u8>)
    ensures
        r@.len() == len,
{
    let mut v: Vec<u8> = Vec::new();
    let mut i: usize = 0;
    while i < len
        invariant
            0 <= i <= len,
            v@.len() == i,
        decreases len - i,
    {
        v.push(0u8);
        i += 1;
    }
    v
}

/// BER-TLV encoder: a cursor over an owned byte buffer of fixed size.
///
/// The buffer never grows: writing past its end fails with
/// [`ErrorKind::Overlength`]. Like the decoder, the encoder has two states:
/// **live** and **poisoned**; the first error poisons it permanently, and
/// every later operation fails with [`ErrorKind::Failed`].
#[derive(Debug)]
pub struct Encoder {
    /// Buffer into which the BER-TLV-encoded message is written.
    ///
    /// Set to `None` after an error to prevent further encoding while in a
    /// bad state.
    pub(crate) bytes: Option<Vec<u8>>,

    /// Total number of bytes written to the buffer so far.
    pub(crate) position: Length,
}

impl Encoder {
    /// Whether the encoder is still usable (no error has occurred).
    pub open(crate) spec fn is_live(&self) -> bool {
        self.bytes is Some
    }

    /// The whole backing buffer (empty once poisoned).
    pub open(crate) spec fn spec_buffer(&self) -> Seq<u8> {
        match self.bytes {
            Some(b) => b@,
            None => Seq::empty(),
        }
    }

    /// Count of bytes written so far.
    pub open(crate) spec fn spec_position(&self) -> int {
        self.position@ as int
    }

    /// The prefix of the buffer written so far.
    pub open(crate) spec fn spec_written(&self) -> Seq<u8> {
        let cap = self.spec_buffer().len() as int;
        let p = if self.spec_position() <= cap {
            self.spec_position()
        } else {
            cap
        };
        self.spec_buffer().take(p)
    }

    /// How many more bytes the buffer can take.
    pub open(crate) spec fn spec_remaining_len(&self) -> int {
        self.spec_buffer().len() - self.spec_position()
    }

    /// Whether a write of `len` more bytes must succeed: the encoder is live
    /// and the write stays within the buffer, whose size the 16-bit length
    /// arithmetic can handle.
    pub open(crate) spec fn spec_fits(&self, len: int) -> bool {
        &&& self.is_live()
        &&& self.spec_buffer().len() <= u16::MAX
        &&& self.spec_position() + len <= self.spec_buffer().len()
    }

    /// Create a new encoder writing into the given buffer, whose full size
    /// (not only the unused part) is available for writing.
    pub fn new(bytes: Vec<u8>) -> (r: Self)
        ensures
            r.is_live(),
            r.spec_buffer() == bytes@,
            r.spec_position() == 0,
    {
        Self { bytes: Some(bytes), position: Length(0) }
    }

    /// Did the encoding operation fail due to an error?
    pub fn is_failed(&self) -> (r: bool)
        ensures
            r == !self.is_live(),
    {
        self.bytes.is_none()
    }

    /// Return an error with the given [`ErrorKind`], annotating it with
    /// context about where the error occurred, and poison the encoder.
    pub fn error<T>(&mut self, kind: ErrorKind) -> (r: Result<T, Error>)
        ensures
            !final(self).is_live(),
            final(self).spec_position() == old(self).spec_position(),
            r matches Err(e) && e.spec_kind() == kind && (e.spec_position() matches Some(p)
                && p@ == old(self).spec_position()),
    {
        self.bytes = None;
        Err(kind.at(self.position))
    }

    /// Get the size of the buffer in bytes.
    pub(crate) fn buffer_len(&self) -> (r: Result<Length, Error>)
        ensures
            !self.is_live() ==> (r matches Err(e) && e.spec_kind() == ErrorKind::Failed),
            self.is_live() && self.spec_buffer().len() > u16::MAX ==> (r matches Err(e)
                && e.spec_kind() == ErrorKind::Overflow),
            self.is_live() && self.spec_buffer().len() <= u16::MAX ==> (r matches Ok(l) && l@
                == self.spec_buffer().len()),
    {
        match &self.bytes {
            None => Err(ErrorKind::Failed.at(self.position)),
            Some(b) => Length::try_from_usize(b.len()),
        }
    }

    /// Get the number of bytes still remaining in the buffer.
    pub(crate) fn remaining_len(&self) -> (r: Result<Length, Error>)
        ensures
            !self.is_live() ==> (r matches Err(e) && e.spec_kind() == ErrorKind::Failed),
            self.is_live() && self.spec_buffer().len() > u16::MAX ==> (r matches Err(e)
                && e.spec_kind() == ErrorKind::Overflow),
            self.is_live() && self.spec_buffer().len() <= u16::MAX && self.spec_position()
                > self.spec_buffer().len() ==> (r matches Err(e) && e.spec_kind()
                == ErrorKind::Truncated),
            self.is_live() && self.spec_buffer().len() <= u16::MAX && self.spec_position()
                <= self.spec_buffer().len() ==> (r matches Ok(l) && l@
                == self.spec_remaining_len()),
    {
        let total = match self.buffer_len() {
            Ok(l) => l,
            Err(e) => {
                return Err(e);
            },
        };
        if self.position.0 <= total.0 {
            Ok(Length(total.0 - self.position.0))
        } else {
            Err(ErrorKind::Truncated.at(self.position))
        }
    }

    /// Reserve `len` bytes of the buffer, advancing the cursor; the returned
    /// value is the position where the reserved window starts.
    ///
    /// Fails with `Overflow` when `len` or the buffer size leaves 16 bits,
    /// and with `Overlength` when fewer than `len` bytes remain; any failure
    /// poisons the encoder.
    pub(crate) fn reserve(&mut self, len: usize) -> (r: Result<u16, Error>)
        ensures
            len > u16::MAX ==> (r matches Err(e) && e.spec_kind() == ErrorKind::Overflow),
            !old(self).is_live() && len <= u16::MAX ==> (r matches Err(e) && e.spec_kind()
                == ErrorKind::Failed),
            old(self).is_live() && len <= u16::MAX && old(self).spec_buffer().len() > u16::MAX ==> (
            r matches Err(e) && e.spec_kind() == ErrorKind::Overflow),
            old(self).is_live() && len <= u16::MAX && old(self).spec_buffer().len() <= u16::MAX
                && old(self).spec_position() <= old(self).spec_buffer().len() && len > old(
                self,
            ).spec_remaining_len() ==> (r matches Err(e) && e.spec_kind() == ErrorKind::Overlength),
            r is Err ==> !final(self).is_live() && final(self).spec_position() == old(
                self,
            ).spec_position(),
            r is Err ==> (r matches Err(e) && (e.spec_position() matches Some(p) && p@ == old(
                self,
            ).spec_position())),
            old(self).spec_fits(len as int) ==> r is Ok,
            r matches Ok(start) ==> old(self).is_live() && start == old(self).spec_position()
                && start + len <= old(self).spec_buffer().len() && old(self).spec_buffer().len()
                <= u16::MAX && final(self).is_live() && final(self).spec_buffer() == old(
                self,
            ).spec_buffer() && final(self).spec_position() == start + len,
    {
        let len_l = match Length::try_from_usize(len) {
            Ok(l) => l,
            Err(e) => {
                return self.error(e.kind());
            },
        };
        let rem = match self.remaining_len() {
            Ok(l) => l,
            Err(e) => {
                return self.error(e.kind());
            },
        };
        if len_l.0 > rem.0 {
            return self.error(ErrorKind::Overlength);
        }
        let start = self.position.0;
        match self.position.add(len_l) {
            Ok(end) => {
                self.position = end;
                Ok(start)
            },
            Err(e) => self.error(e.kind()),
        }
    }

    /// Encode a single byte into the backing buffer.
    pub(crate) fn byte(&mut self, byte: u8) -> (r: Result<(), Error>)
        ensures
            !old(self).is_live() ==> (r matches Err(e) && e.spec_kind() == ErrorKind::Failed),
            old(self).is_live() && old(self).spec_buffer().len() > u16::MAX ==> (r matches Err(e)
                && e.spec_kind() == ErrorKind::Overflow),
            old(self).is_live() && old(self).spec_buffer().len() <= u16::MAX && old(
                self,
            ).spec_position() <= old(self).spec_buffer().len() && old(self).spec_remaining_len() < 1
                ==> (r matches Err(e) && e.spec_kind() == ErrorKind::Overlength),
            r is Err ==> !final(self).is_live() && final(self).spec_position() == old(
                self,
            ).spec_position(),
            old(self).spec_fits(1) ==> r is Ok,
            r is Ok ==> final(self).is_live() && final(self).spec_written() == old(
                self,
            ).spec_written().push(byte) && final(self).spec_buffer().len() == old(
                self,
            ).spec_buffer().len() && final(self).spec_position() == old(self).spec_position() + 1
                && final(self).spec_position() <= final(self).spec_buffer().len(),
    {
        let start = match self.reserve(1) {
            Ok(s) => s,
            Err(e) => {
                return Err(e);
            },
        };
        match &mut self.bytes {
            Some(b) => {
                b[start as usize] = byte;
            },
            None => {
                return Err(ErrorKind::Failed.at(self.position));
            },
        }
        proof {
            assert(self.spec_written() =~= old(self).spec_written().push(byte));
        }
        Ok(())
    }

    /// Encode the provided byte slice into the backing buffer.
    pub(crate) fn bytes(&mut self, slice: &[u8]) -> (r: Result<(), Error>)
        ensures
            slice@.len() > u16::MAX ==> (r matches Err(e) && e.spec_kind() == ErrorKind::Overflow),
            !old(self).is_live() && slice@.len() <= u16::MAX ==> (r matches Err(e) && e.spec_kind()
                == ErrorKind::Failed),
            old(self).is_live() && slice@.len() <= u16::MAX && old(self).spec_buffer().len()
                > u16::MAX ==> (r matches Err(e) && e.spec_kind() == ErrorKind::Overflow),
            old(self).is_live() && slice@.len() <= u16::MAX && old(self).spec_buffer().len()
                <= u16::MAX && old(self).spec_position() <= old(self).spec_buffer().len() && old(
                self,
            ).spec_remaining_len() < slice@.len() ==> (r matches Err(e) && e.spec_kind()
                == ErrorKind::Overlength),
            r is Err ==> !final(self).is_live() && final(self).spec_position() == old(
                self,
            ).spec_position(),
            old(self).spec_fits(slice@.len() as int) ==> r is Ok,
            r is Ok ==> final(self).is_live() && final(self).spec_written() == old(
                self,
            ).spec_written() + slice@ && final(self).spec_buffer().len() == old(
                self,
            ).spec_buffer().len() && final(self).spec_position() == old(self).spec_position()
                + slice@.len() && final(self).spec_position() <= final(self).spec_buffer().len(),
    {
        let len = slice.len();
        let start = match self.reserve(len) {
            Ok(s) => s,
            Err(e) => {
                return Err(e);
            },
        };
        match &mut self.bytes {
            Some(b) => {
                let ghost buf0 = b@;
                let cap = b.len();
                let mut i: usize = 0;
                while i < len
                    invariant
                        0 <= i <= len,
                        len == slice@.len(),
                        start + len <= buf0.len(),
                        cap == buf0.len(),
                        b@.len() == buf0.len(),
                        forall|j: int| 0 <= j < start ==> b@[j] == buf0[j],
                        forall|j: int| start <= j < start + i ==> b@[j] == slice@[j - start],
                        forall|j: int| start + i <= j < buf0.len() ==> b@[j] == buf0[j],
                    decreases len - i,
                {
                    b[start as usize + i] = *vstd::slice::slice_index_get(slice, i);
                    i += 1;
                }
            },
            None => {
                return Err(ErrorKind::Failed.at(self.position));
            },
        }
        proof {
            assert(self.spec_written() =~= old(self).spec_written() + slice@);
        }
        Ok(())
    }

    /// Finish encoding, returning the written prefix of the buffer.
    pub fn finish(self) -> (r: Result<Vec<u8>, Error>)
        ensures
            !self.is_live() ==> (r matches Err(e) && e.spec_kind() == ErrorKind::Failed && (
            e.spec_position() matches Some(p) && p@ == self.spec_position())),
            self.is_live() && self.spec_position() <= self.spec_buffer().len() ==> (r matches Ok(out)
                && out@ == self.spec_written()),
            self.is_live() && self.spec_position() > self.spec_buffer().len() ==> (r matches Err(e)
                && e.spec_kind() == ErrorKind::Truncated),
    {
        match self.bytes {
            None => Err(ErrorKind::Failed.at(self.position)),
            Some(mut b) => {
                if (self.position.0 as usize) <= b.len() {
                    b.truncate(self.position.0 as usize);
                    Ok(b)
                } else {
                    Err(ErrorKind::Truncated.at(self.position))
                }
            },
        }
    }
}

} // verus!
