//! Borrowed byte ranges bounded to the format's length limit.

use vstd::prelude::*;

use crate::error::{Error, ErrorKind};
use crate::length::Length;

verus! {

/// Slice of at most `Length::max()` bytes, with its length precomputed
/// (avoiding fallible re-derivation).
#[derive(Copy, Clone, Debug, Eq, PartialEq)]
pub struct Slice<'a> {
    /// Inner value.
    pub(crate) inner: &'a [u8],

    /// Precomputed `Length` (avoids possible panicking conversions).
    pub(crate) length: Length,
}

impl<'a> View for Slice<'a> {
    type V = Seq<u8>;

    open(crate) spec fn view(&self) -> Seq<u8> {
        self.inner@
    }
}

impl<'a> Slice<'a> {
    /// The precomputed length matches the slice; constructors establish this
    /// and every operation keeps it.
    pub open(crate) spec fn wf(&self) -> bool {
        self.length@ == self.inner@.len()
    }

    /// Create a new [`Slice`], ensuring that the provided `slice` value
    /// is no longer than `Length::max()`.
    pub fn new(slice: &'a [u8]) -> (r: Result<Self, Error>)
        ensures
            slice@.len() <= u16::MAX ==> (r matches Ok(s) && s@ == slice@ && s.wf()),
            slice@.len() > u16::MAX ==> (r matches Err(e) && e.spec_kind() == ErrorKind::Overflow),
    {
        match Length::try_from_usize(slice.len()) {
            Ok(length) => Ok(Self { inner: slice, length }),
            Err(e) => Err(e),
        }
    }

    /// Borrow the inner byte slice.
    pub fn as_bytes(&self) -> (r: &'a [u8])
        ensures
            r@ == self@,
    {
        self.inner
    }

    /// Get the [`Length`] of this [`Slice`].
    pub fn length(self) -> (r: Length)
        ensures
            self.wf() ==> r@ == self@.len(),
    {
        self.length
    }

    /// Is this [`Slice`] empty?
    pub fn is_empty(self) -> (r: bool)
        ensures
            self.wf() ==> r == (self@.len() == 0),
    {
        self.length.0 == 0
    }
}

} // verus!
