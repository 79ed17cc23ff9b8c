//! Implementation of the BER-TLV serialization format from ISO 7816-4,
//! with machine-checked contracts for its tag, length and cursor machinery.
//!
//! The format encodes data objects as tag-length-value records. A zero-copy
//! [`Decoder`] walks a byte buffer and produces typed values with precise
//! error positions; a two-pass [`Encoder`] computes the exact output size
//! before writing; and a small trait layer lets arbitrary record types
//! compose into nested tagged structures.

mod decoder;
mod encoder;
mod error;
mod header;
mod length;
mod nested;
mod tag;
mod simpletag;
mod slice;
mod tagged;
pub mod tagged_slice;
mod traits;

pub use decoder::Decoder;
pub use encoder::Encoder;
pub use error::{Error, ErrorKind};
pub use length::Length;
pub use nested::{encoded_length, Nested};
pub use simpletag::SimpleTag;
pub use slice::Slice;
pub use tag::{Class, Tag, TagLike};
pub use tagged::{TaggedSlice, TaggedValue};
pub use traits::{Container, Decodable, Encodable, Taggable, Tagged};
