//! Tests for the nested data object helpers and remaining conveniences.

use flexiber::{
    encoded_length, Container, Decodable, Encodable, Encoder, Error, Length, Nested, Tag, TagLike,
    TaggedSlice, TaggedValue,
};

#[test]
fn nested_object_encodes_like_a_tagged_slice() {
    let body = [1u8, 2, 3, 4];
    let nested = Nested::new(Tag::universal(0x10).constructed(), &body).unwrap();
    assert_eq!(nested.tag(), Tag::universal(0x10).constructed());
    assert_eq!(nested.as_bytes(), &body);
    assert_eq!(nested.encoded_length().unwrap(), Length::from(6u8));

    let encoded = nested.encode_to_slice(vec![0u8; 16]).unwrap();
    assert_eq!(encoded.as_slice(), &[0x30, 4, 1, 2, 3, 4]);

    let same: TaggedSlice<'_> = nested.into();
    assert_eq!(
        same.encode_to_slice(vec![0u8; 16]).unwrap().as_slice(),
        &[0x30, 4, 1, 2, 3, 4]
    );
}

#[test]
fn nested_decoding_requires_full_consumption() {
    let body = [0x02u8, 0x01, 0x2A, 0x00];
    let nested = Nested::new(Tag::universal(0x10).constructed(), &body).unwrap();

    // consuming only the first record leaves a trailing byte behind
    let err = nested
        .decode_nested(|decoder| decoder.decode::<TaggedSlice<'_>>())
        .unwrap_err();
    assert!(matches!(
        err.kind(),
        flexiber::ErrorKind::TrailingData { .. }
    ));

    // consuming everything succeeds
    let value = nested
        .decode_nested(|decoder| {
            let first: TaggedSlice<'_> = decoder.decode()?;
            let _rest: [u8; 1] = decoder.decode()?;
            Ok(first.as_bytes()[0])
        })
        .unwrap();
    assert_eq!(value, 0x2A);
}

struct Pair {
    left: [u8; 2],
    right: [u8; 2],
}

impl Container for Pair {
    fn fields_length(&self) -> Result<Length, Error> {
        let mut total = Length::zero();
        total = total.add(Tag::universal(1).with_value(&self.left).encoded_length()?)?;
        total = total.add(Tag::universal(2).with_value(&self.right).encoded_length()?)?;
        Ok(total)
    }

    fn encode_fields(&self, encoder: &mut Encoder) -> Result<(), Error> {
        encoder.encode(&Tag::universal(1).with_value(&self.left))?;
        encoder.encode(&Tag::universal(2).with_value(&self.right))
    }
}

#[test]
fn encoded_length_counts_header_and_fields() {
    let pair = Pair { left: [1, 2], right: [3, 4] };
    // two fields of four bytes each, under a one-byte tag and length
    assert_eq!(
        encoded_length(Tag::universal(0x10).constructed(), &pair).unwrap(),
        Length::from(10u8)
    );
}

#[test]
fn optional_values_encode_to_nothing_when_absent() {
    let absent: Option<Length> = None;
    assert_eq!(absent.encoded_length().unwrap(), Length::zero());
    assert_eq!(absent.encode_to_slice(vec![0u8; 4]).unwrap().len(), 0);

    let present = Some(Length::from(5u8));
    assert_eq!(
        present.encode_to_slice(vec![0u8; 4]).unwrap().as_slice(),
        &[5]
    );
}

#[test]
fn tagged_value_carries_its_parts() {
    let tv: TaggedValue<u32> = TaggedValue::new(Tag::universal(7), 99);
    assert_eq!(tv.tag(), Tag::universal(7));

    let tv = Tag::universal(7).with_value([1u8, 2]);
    assert_eq!(tv.tag(), Tag::universal(7));
}
