//! Tests mirroring the record types a schema author would declare, with the
//! generated implementations written out by hand.

use flexiber::{
    Class, Container, Decodable, Decoder, Encodable, Encoder, Error, Length, SimpleTag, Tag,
    TagLike, TaggedSlice,
};

// tagged 0xAA (universal), fields tagged 0x11, 0x22, 0x33, all raw slices
#[derive(Clone, Copy, Debug, Eq, PartialEq)]
struct S {
    x: [u8; 2],
    y: [u8; 3],
    z: [u8; 4],
}

impl<'a> TryFrom<TaggedSlice<'a>> for S {
    type Error = Error;

    fn try_from(tagged_slice: TaggedSlice<'a>) -> Result<S, Error> {
        tagged_slice.tag().assert_eq(Tag::from(Class::Universal, false, 0xAA))?;
        tagged_slice.decode_nested(|decoder| {
            let x = decoder.decode_tag(Tag::from(Class::Universal, false, 0x11))?;
            let y = decoder.decode_tag(Tag::from(Class::Universal, false, 0x22))?;
            let z = decoder.decode_tag(Tag::from(Class::Universal, false, 0x33))?;
            Ok(Self { x, y, z })
        })
    }
}

impl flexiber::Tagged for S {
    fn tag() -> Tag {
        Tag::from(Class::Universal, false, 0xAA)
    }
}

impl Container for S {
    fn fields_length(&self) -> Result<Length, Error> {
        let mut total = Length::zero();
        total = total.add(
            TaggedSlice::from(Tag::from(Class::Universal, false, 0x11), &self.x)?.encoded_length()?,
        )?;
        total = total.add(
            TaggedSlice::from(Tag::from(Class::Universal, false, 0x22), &self.y)?.encoded_length()?,
        )?;
        total = total.add(
            TaggedSlice::from(Tag::from(Class::Universal, false, 0x33), &self.z)?.encoded_length()?,
        )?;
        Ok(total)
    }

    fn encode_fields(&self, encoder: &mut Encoder) -> Result<(), Error> {
        encoder.encode(&TaggedSlice::from(Tag::from(Class::Universal, false, 0x11), &self.x)?)?;
        encoder.encode(&TaggedSlice::from(Tag::from(Class::Universal, false, 0x22), &self.y)?)?;
        encoder.encode(&TaggedSlice::from(Tag::from(Class::Universal, false, 0x33), &self.z)?)
    }
}

#[test]
fn derived_reconstruct() {
    let s = S {
        x: [1, 2],
        y: [3, 4, 5],
        z: [6, 7, 8, 9],
    };

    let encoded = s.encode_to_slice(vec![0u8; 1024]).unwrap();

    assert_eq!(
        encoded.as_slice(),
        &[0x1F, 0x81, 0x2A, 17, 0x11, 2, 1, 2, 0x1F, 0x22, 3, 3, 4, 5, 0x1F, 0x33, 4, 6, 7, 8, 9,],
    );

    let s2 = S::from_bytes(&encoded).unwrap();
    assert_eq!(s, s2);
}

// the same record under an application-class tag
#[derive(Clone, Copy, Debug, Eq, PartialEq)]
struct SApp {
    x: [u8; 2],
    y: [u8; 3],
    z: [u8; 4],
}

impl<'a> TryFrom<TaggedSlice<'a>> for SApp {
    type Error = Error;

    fn try_from(tagged_slice: TaggedSlice<'a>) -> Result<SApp, Error> {
        tagged_slice.tag().assert_eq(Tag::from(Class::Application, false, 0xAA))?;
        tagged_slice.decode_nested(|decoder| {
            let x = decoder.decode_tag(Tag::from(Class::Universal, false, 0x11))?;
            let y = decoder.decode_tag(Tag::from(Class::Universal, false, 0x22))?;
            let z = decoder.decode_tag(Tag::from(Class::Universal, false, 0x33))?;
            Ok(Self { x, y, z })
        })
    }
}

impl flexiber::Tagged for SApp {
    fn tag() -> Tag {
        Tag::from(Class::Application, false, 0xAA)
    }
}

impl Container for SApp {
    fn fields_length(&self) -> Result<Length, Error> {
        let mut total = Length::zero();
        total = total.add(
            TaggedSlice::from(Tag::from(Class::Universal, false, 0x11), &self.x)?.encoded_length()?,
        )?;
        total = total.add(
            TaggedSlice::from(Tag::from(Class::Universal, false, 0x22), &self.y)?.encoded_length()?,
        )?;
        total = total.add(
            TaggedSlice::from(Tag::from(Class::Universal, false, 0x33), &self.z)?.encoded_length()?,
        )?;
        Ok(total)
    }

    fn encode_fields(&self, encoder: &mut Encoder) -> Result<(), Error> {
        encoder.encode(&TaggedSlice::from(Tag::from(Class::Universal, false, 0x11), &self.x)?)?;
        encoder.encode(&TaggedSlice::from(Tag::from(Class::Universal, false, 0x22), &self.y)?)?;
        encoder.encode(&TaggedSlice::from(Tag::from(Class::Universal, false, 0x33), &self.z)?)
    }
}

#[test]
fn derived_reconstruct_application() {
    let s = SApp {
        x: [1, 2],
        y: [3, 4, 5],
        z: [6, 7, 8, 9],
    };

    let encoded = s.encode_to_slice(vec![0u8; 1024]).unwrap();

    assert_eq!(
        encoded.as_slice(),
        &[0x5F, 0x81, 0x2A, 17, 0x11, 2, 1, 2, 0x1F, 0x22, 3, 3, 4, 5, 0x1F, 0x33, 4, 6, 7, 8, 9,],
    );

    let s2 = SApp::from_bytes(&encoded).unwrap();
    assert_eq!(s, s2);
}

// tagged constructed 0x10, one big slice field tagged 0x44
#[derive(Clone, Copy, Debug, Eq, PartialEq)]
struct T {
    x: [u8; 1234],
}

impl<'a> TryFrom<TaggedSlice<'a>> for T {
    type Error = Error;

    fn try_from(tagged_slice: TaggedSlice<'a>) -> Result<T, Error> {
        tagged_slice.tag().assert_eq(Tag::from(Class::Universal, true, 0x10))?;
        tagged_slice.decode_nested(|decoder| {
            let inner: TaggedSlice<'_> = decoder.decode()?;
            inner.tag().assert_eq(Tag::from(Class::Universal, false, 0x44))?;
            let x = inner.as_bytes().try_into().unwrap();
            Ok(Self { x })
        })
    }
}

impl flexiber::Tagged for T {
    fn tag() -> Tag {
        Tag::from(Class::Universal, true, 0x10)
    }
}

impl Container for T {
    fn fields_length(&self) -> Result<Length, Error> {
        TaggedSlice::from(Tag::from(Class::Universal, false, 0x44), &self.x)?.encoded_length()
    }

    fn encode_fields(&self, encoder: &mut Encoder) -> Result<(), Error> {
        encoder.encode(&TaggedSlice::from(Tag::from(Class::Universal, false, 0x44), &self.x)?)
    }
}

#[test]
fn pretty_big() {
    let mut x = [0u8; 1234];
    for (i, x) in x.iter_mut().enumerate() {
        *x = i as _;
    }

    let t = T { x };

    assert!(t.encode_to_slice(vec![0u8; 1024]).is_err());

    let encoded = t.encode_to_slice(vec![0u8; 1500]).unwrap();

    assert_eq!(
        &encoded[..9],
        [
            // 1234 + 5
            0x30,
            0x82,
            0x04,
            0xD2 + 5,
            // 1234
            0x1F,
            0x44,
            0x82,
            0x04,
            0xD2
        ]
    );
    assert_eq!(&encoded[9..], x);

    let t2 = T::from_bytes(&encoded).unwrap();
    assert_eq!(t, t2);
}

// no tag of its own: a private-class BER-tagged slice, then a simple-tagged
// slice, side by side
#[derive(Clone, Copy, Debug, Eq, PartialEq)]
struct T2 {
    x: [u8; 1234],
    a: [u8; 5],
}

impl<'a> Decodable<'a> for T2 {
    fn decode(decoder: &mut Decoder<'a>) -> Result<Self, Error> {
        let first: TaggedSlice<'a> = decoder.decode()?;
        first.tag().assert_eq(Tag::from(Class::Private, false, 0x44))?;
        let x = first.as_bytes().try_into().unwrap();

        let second: TaggedSlice<'a, SimpleTag> = decoder.decode()?;
        second.tag().assert_eq(SimpleTag::try_from(0x55).unwrap())?;
        let a = second.as_bytes().try_into().unwrap();

        Ok(Self { x, a })
    }
}

impl Container for T2 {
    fn fields_length(&self) -> Result<Length, Error> {
        let mut total = Length::zero();
        total = total.add(
            TaggedSlice::from(Tag::from(Class::Private, false, 0x44), &self.x)?.encoded_length()?,
        )?;
        total = total.add(
            TaggedSlice::from(SimpleTag::try_from(0x55).unwrap(), &self.a)?.encoded_length()?,
        )?;
        Ok(total)
    }

    fn encode_fields(&self, encoder: &mut Encoder) -> Result<(), Error> {
        encoder.encode(&TaggedSlice::from(Tag::from(Class::Private, false, 0x44), &self.x)?)?;
        encoder.encode(&TaggedSlice::from(SimpleTag::try_from(0x55).unwrap(), &self.a)?)
    }
}

impl Encodable for T2 {
    fn encoded_length(&self) -> Result<Length, Error> {
        self.fields_length()
    }

    fn encode(&self, encoder: &mut Encoder) -> Result<(), Error> {
        encoder.encode_untagged_collection(self)
    }
}

#[test]
fn derive_untagged() {
    let mut x = [0u8; 1234];
    for (i, x) in x.iter_mut().enumerate() {
        *x = i as _;
    }

    let t = T2 { x, a: [17u8; 5] };

    let encoded = t.encode_to_slice(vec![0u8; 1500]).unwrap();

    assert_eq!(
        &encoded[..5],
        [
            // 1234
            223, 0x44, 0x82, 0x04, 0xD2
        ]
    );
    assert_eq!(&encoded[5..(encoded.len() - 7)], x);
    assert_eq!(
        &encoded[(encoded.len() - 7)..],
        [0x55, 5, 17, 17, 17, 17, 17]
    );

    let t2 = T2::from_bytes(&encoded).unwrap();
    assert_eq!(t, t2);
}
