//! Tests for nested containers, mirroring what the attribute-driven code
//! generator produces for record types.

use flexiber::{
    Container, Decodable, Encodable, Encoder, Error, Length, Tag, Taggable, TagLike, TaggedSlice,
};

// The types [u8; 2], [u8; 3], [u8; 4] stand in here for any types for the
// fields of a struct that are Decodable + Encodable. This means they can
// decode to/encode from a byte slice, but also that they can declare their
// encoded length.

// tag 0x0A
#[derive(Clone, Copy, Debug, Eq, PartialEq)]
struct S {
    // tag 0x01
    x: [u8; 2],
    // tag 0x02
    y: [u8; 3],
    // tag 0x03
    z: [u8; 4],
}

// this is what needs to be done to get `Decodable`
impl<'a> TryFrom<TaggedSlice<'a>> for S {
    type Error = Error;

    fn try_from(tagged_slice: TaggedSlice<'a>) -> Result<S, Error> {
        tagged_slice.tag().assert_eq(Tag::try_from(0x0A).unwrap())?;
        tagged_slice.decode_nested(|decoder| {
            let x = decoder.decode_tag(Tag::try_from(0x01).unwrap())?;
            let y = decoder.decode_tag(Tag::try_from(0x02).unwrap())?;
            let z = decoder.decode_tag(Tag::try_from(0x03).unwrap())?;

            Ok(Self { x, y, z })
        })
    }
}

// this is what needs to be done to get `Encodable`
impl flexiber::Tagged for S {
    fn tag() -> Tag {
        Tag::try_from(0x0A).unwrap()
    }
}

impl Container for S {
    fn fields_length(&self) -> Result<Length, Error> {
        let mut total = Length::zero();
        total = total.add(Tag::try_from(0x01).unwrap().with_value(&self.x).encoded_length()?)?;
        total = total.add(self.y.as_ref().tagged(Tag::try_from(0x02).unwrap()).encoded_length()?)?;
        total = total.add(self.z.as_ref().tagged(Tag::try_from(0x03).unwrap()).encoded_length()?)?;
        Ok(total)
    }

    fn encode_fields(&self, encoder: &mut Encoder) -> Result<(), Error> {
        encoder.encode(&Tag::try_from(0x01).unwrap().with_value(&self.x))?;
        // both approaches are equivalent: `with_value` on the tag, or
        // `tagged` on the value
        encoder.encode(&self.y.as_ref().tagged(Tag::try_from(0x02).unwrap()))?;
        encoder.encode(&self.z.as_ref().tagged(Tag::try_from(0x03).unwrap()))
    }
}

#[test]
fn traits_reconstruct() {
    let s = S {
        x: [1, 2],
        y: [3, 4, 5],
        z: [6, 7, 8, 9],
    };

    let encoded = s.encode_to_slice(vec![0u8; 1024]).unwrap();

    assert_eq!(
        encoded.as_slice(),
        &[0x0A, 15, 0x01, 2, 1, 2, 0x02, 3, 3, 4, 5, 0x03, 4, 6, 7, 8, 9,],
    );

    let s2 = S::from_bytes(&encoded).unwrap();

    assert_eq!(s, s2);
}

// tag 0x0B
#[derive(Clone, Copy, Debug, Eq, PartialEq)]
struct T {
    // tag 0x01
    s: S,
    // tag 0x02
    t: [u8; 3],
}

impl<'a> TryFrom<TaggedSlice<'a>> for T {
    type Error = Error;

    fn try_from(tagged_slice: TaggedSlice<'a>) -> Result<Self, Error> {
        tagged_slice.tag().assert_eq(Tag::try_from(0x0B).unwrap())?;
        tagged_slice.decode_nested(|decoder| {
            let s = decoder.decode_tag(Tag::try_from(0x01).unwrap())?;
            let t = decoder.decode_tag(Tag::try_from(0x02).unwrap())?;

            Ok(Self { s, t })
        })
    }
}

impl flexiber::Tagged for T {
    fn tag() -> Tag {
        Tag::try_from(0x0B).unwrap()
    }
}

impl Container for T {
    fn fields_length(&self) -> Result<Length, Error> {
        let mut total = Length::zero();
        total = total.add(Tag::try_from(0x1).unwrap().with_value(&self.s).encoded_length()?)?;
        total = total.add(Tag::try_from(0x2).unwrap().with_value(&self.t).encoded_length()?)?;
        Ok(total)
    }

    fn encode_fields(&self, encoder: &mut Encoder) -> Result<(), Error> {
        encoder.encode(&Tag::try_from(0x1).unwrap().with_value(&self.s))?;
        encoder.encode(&Tag::try_from(0x2).unwrap().with_value(&self.t))
    }
}

#[test]
fn nesty() {
    let s = S {
        x: [1, 2],
        y: [3, 4, 5],
        z: [6, 7, 8, 9],
    };
    let t = T {
        s,
        t: [0xA, 0xB, 0xC],
    };

    let encoded = t.encode_to_slice(vec![0u8; 1024]).unwrap();

    assert_eq!(
        encoded.as_slice(),
        &[
            0x0B, 24, 0x1, 17, 0x0A, 15, 0x01, 2, 1, 2, 0x02, 3, 3, 4, 5, 0x03, 4, 6, 7, 8, 9,
            0x2, 3, 0xA, 0xB, 0xC
        ],
    );

    let t2 = T::from_bytes(&encoded).unwrap();

    assert_eq!(t, t2);
}

// tag 0x0C
#[derive(Clone, Copy, Debug, Eq, PartialEq)]
struct T2 {
    // no tag
    s: S,
    // tag 0x02
    t: [u8; 3],
}

impl<'a> TryFrom<TaggedSlice<'a>> for T2 {
    type Error = Error;

    fn try_from(tagged_slice: TaggedSlice<'a>) -> Result<Self, Error> {
        tagged_slice.tag().assert_eq(Tag::try_from(0x0C).unwrap())?;
        tagged_slice.decode_nested(|decoder| {
            let s = decoder.decode()?;
            let t = decoder.decode_tag(Tag::try_from(0x02).unwrap())?;

            Ok(Self { s, t })
        })
    }
}

impl flexiber::Tagged for T2 {
    fn tag() -> Tag {
        Tag::try_from(0x0C).unwrap()
    }
}

impl Container for T2 {
    fn fields_length(&self) -> Result<Length, Error> {
        let mut total = Length::zero();
        total = total.add(self.s.encoded_length()?)?;
        total = total.add(Tag::try_from(0x2).unwrap().with_value(&self.t).encoded_length()?)?;
        Ok(total)
    }

    fn encode_fields(&self, encoder: &mut Encoder) -> Result<(), Error> {
        encoder.encode(&self.s)?;
        encoder.encode(&Tag::try_from(0x2).unwrap().with_value(&self.t))
    }
}

#[test]
fn nesty2() {
    let s = S {
        x: [1, 2],
        y: [3, 4, 5],
        z: [6, 7, 8, 9],
    };
    let t = T2 {
        s,
        t: [0xA, 0xB, 0xC],
    };

    let encoded = t.encode_to_slice(vec![0u8; 1024]).unwrap();

    assert_eq!(
        encoded.as_slice(),
        &[
            0x0C, 22, 0x0A, 15, 0x01, 2, 1, 2, 0x02, 3, 3, 4, 5, 0x03, 4, 6, 7, 8, 9, 0x2, 3, 0xA,
            0xB, 0xC
        ],
    );

    let t2 = T2::from_bytes(&encoded).unwrap();

    assert_eq!(t, t2);
}

#[test]
fn derive_option() {
    let s = S {
        x: [1, 2],
        y: [3, 4, 5],
        z: [6, 7, 8, 9],
    };
    let encoded = s.encode_to_slice(vec![0u8; 1024]).unwrap();

    let mut decoder = flexiber::Decoder::new(&encoded);
    let s: Option<S> = decoder.decode().unwrap();
    assert!(s.is_some());

    let empty = [0u8; 0];
    let mut decoder = flexiber::Decoder::new(&empty);
    let s: Option<S> = decoder.decode().unwrap();
    assert!(s.is_none());
}
