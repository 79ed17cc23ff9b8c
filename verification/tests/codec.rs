//! Tests for the length, tag and tagged-slice codecs.

use flexiber::{Class, Decodable, Encodable, Length, SimpleTag, Tag, TagLike, TaggedSlice};

#[test]
fn decode() {
    assert_eq!(Length::zero(), Length::from_bytes(&[0x00]).unwrap());

    assert_eq!(Length::from(0x7Fu8), Length::from_bytes(&[0x7F]).unwrap());

    assert_eq!(
        Length::from(0x80u8),
        Length::from_bytes(&[0x81, 0x80]).unwrap()
    );

    assert_eq!(
        Length::from(0xFFu8),
        Length::from_bytes(&[0x81, 0xFF]).unwrap()
    );

    assert_eq!(
        Length::from(0x100u16),
        Length::from_bytes(&[0x82, 0x01, 0x00]).unwrap()
    );
}

#[test]
fn length_encode() {
    assert_eq!(
        &[0x00],
        Length::zero().encode_to_slice(vec![0u8; 3]).unwrap().as_slice()
    );

    assert_eq!(
        &[0x7F],
        Length::from(0x7Fu8).encode_to_slice(vec![0u8; 3]).unwrap().as_slice()
    );

    assert_eq!(
        &[0x81, 0x80],
        Length::from(0x80u8).encode_to_slice(vec![0u8; 3]).unwrap().as_slice()
    );

    assert_eq!(
        &[0x81, 0xFF],
        Length::from(0xFFu8).encode_to_slice(vec![0u8; 3]).unwrap().as_slice()
    );

    assert_eq!(
        &[0x82, 0x01, 0x00],
        Length::from(0x100u16).encode_to_slice(vec![0u8; 3]).unwrap().as_slice()
    );
}

#[test]
fn reject_indefinite_lengths() {
    assert!(Length::from_bytes(&[0x80]).is_err());
}

#[test]
fn nonminimal_lengths_accepted() {
    // a long-form encoding of a value that the short form could carry
    assert_eq!(Length::from(5u8), Length::from_bytes(&[0x81, 0x05]).unwrap());
}

#[test]
fn tag_reconstruct() {
    let tag = Tag::universal(30);
    let encoded = tag.encode_to_slice(vec![0u8; 32]).unwrap();
    assert_eq!(encoded.as_slice(), &[0x1E]);
    let tag2 = Tag::from_bytes(&encoded).unwrap();
    assert_eq!(tag, tag2);

    let tag = Tag::universal(31);
    let encoded = tag.encode_to_slice(vec![0u8; 32]).unwrap();
    assert_eq!(encoded.as_slice(), &[0x1F, 0x1F]);
    let tag2 = Tag::from_bytes(&encoded).unwrap();
    assert_eq!(tag, tag2);

    let tag = Tag::universal(0xAA);
    let encoded = tag.encode_to_slice(vec![0u8; 32]).unwrap();
    assert_eq!(encoded.as_slice(), &[0x1F, 0x81, 0x2A]);
    let tag2 = Tag::from_bytes(&encoded).unwrap();
    assert_eq!(tag, tag2);

    let tag = Tag::universal(0x10).constructed();
    let encoded = tag.encode_to_slice(vec![0u8; 32]).unwrap();
    // the constructed flag is bit five of the first octet
    assert_eq!(encoded.as_slice(), &[(1u8 << 5) + 0x10]);
    let tag2 = Tag::from_bytes(&encoded).unwrap();
    assert_eq!(tag, tag2);
}

#[test]
fn zero_length() {
    let tv = TaggedSlice::from(Tag::universal(5), &[]).unwrap();
    let encoded = tv.encode_to_slice(vec![0u8; 4]).unwrap();
    assert_eq!(encoded.as_slice(), &[0x5, 0x00]);

    let tv = TaggedSlice::from(Tag::application(5).constructed(), &[]).unwrap();
    let encoded = tv.encode_to_slice(vec![0u8; 4]).unwrap();
    assert_eq!(encoded.as_slice(), &[(0b01 << 6) | (1 << 5) | 5, 0x00]);
}

#[test]
fn simple_tag() {
    let tag = SimpleTag::try_from(37).unwrap();
    let slice = &[1u8, 2, 3];
    let short = TaggedSlice::from(tag, slice).unwrap();

    assert_eq!(
        short.encode_to_slice(vec![0u8; 384]).unwrap().as_slice(),
        &[37, 0x3, 1, 2, 3]
    );

    let slice = &[43u8; 256];
    let long = TaggedSlice::from(tag, slice).unwrap();
    let encoded = long.encode_to_slice(vec![0u8; 384]).unwrap();
    assert_eq!(&encoded[..4], &[37, 0x82, 0x01, 0x00]);
    assert_eq!(&encoded[4..], slice);
}

#[test]
fn tagged_encode() {
    let short = TaggedSlice::from(Tag::try_from(0x06).unwrap(), &[1, 2, 3]).unwrap();

    assert_eq!(
        short.encode_to_slice(vec![0u8; 1024]).unwrap().as_slice(),
        &[0x06, 0x3, 1, 2, 3]
    );

    let slice = &[43u8; 256];

    let long = TaggedSlice::from(Tag::universal(0x66), slice).unwrap();
    let encoded = long.encode_to_slice(vec![0u8; 1024]).unwrap();
    assert_eq!(&encoded[..5], &[0x1F, 0x66, 0x82, 0x01, 0x00]);
    assert_eq!(&encoded[5..], slice);

    let long = TaggedSlice::from(Tag::universal(0x66).constructed(), slice).unwrap();
    let encoded = long.encode_to_slice(vec![0u8; 1024]).unwrap();
    assert_eq!(&encoded[..5], &[0x3F, 0x66, 0x82, 0x01, 0x00]);
    assert_eq!(&encoded[5..], slice);

    let long = TaggedSlice::from(Tag::application(0x66), slice).unwrap();
    let encoded = long.encode_to_slice(vec![0u8; 1024]).unwrap();
    assert_eq!(&encoded[..5], &[0x5F, 0x66, 0x82, 0x01, 0x00]);
    assert_eq!(&encoded[5..], slice);

    let long = TaggedSlice::from(Tag::application(0x66).constructed(), slice).unwrap();
    let encoded = long.encode_to_slice(vec![0u8; 1024]).unwrap();
    assert_eq!(&encoded[..5], &[0x7F, 0x66, 0x82, 0x01, 0x00]);
    assert_eq!(&encoded[5..], slice);

    let long = TaggedSlice::from(Tag::context(0x66), slice).unwrap();
    let encoded = long.encode_to_slice(vec![0u8; 1024]).unwrap();
    assert_eq!(&encoded[..5], &[0x9F, 0x66, 0x82, 0x01, 0x00]);
    assert_eq!(&encoded[5..], slice);

    let long = TaggedSlice::from(Tag::context(0x66).constructed(), slice).unwrap();
    let encoded = long.encode_to_slice(vec![0u8; 1024]).unwrap();
    assert_eq!(&encoded[..5], &[0xBF, 0x66, 0x82, 0x01, 0x00]);
    assert_eq!(&encoded[5..], slice);

    let long = TaggedSlice::from(Tag::private(0x66), slice).unwrap();
    let encoded = long.encode_to_slice(vec![0u8; 1024]).unwrap();
    assert_eq!(&encoded[..5], &[0xDF, 0x66, 0x82, 0x01, 0x00]);
    assert_eq!(&encoded[5..], slice);

    let long = TaggedSlice::from(Tag::private(0x66).constructed(), slice).unwrap();
    let encoded = long.encode_to_slice(vec![0u8; 1024]).unwrap();
    assert_eq!(&encoded[..5], &[0xFF, 0x66, 0x82, 0x01, 0x00]);
    assert_eq!(&encoded[5..], slice);
}

#[test]
fn tagged_slice_encode() {
    let short =
        flexiber::tagged_slice::TaggedSlice::new(Tag::try_from(0x66).unwrap(), &[1, 2, 3]).unwrap();

    assert_eq!(
        short.encode_to_slice(vec![0u8; 1024]).unwrap().as_slice(),
        &[0x66, 0x3, 1, 2, 3]
    );

    let slice = &[43u8; 256];
    let long =
        flexiber::tagged_slice::TaggedSlice::new(Tag::try_from(0x66).unwrap(), slice).unwrap();
    let encoded = long.encode_to_slice(vec![0u8; 1024]).unwrap();
    assert_eq!(&encoded[..4], &[0x66, 0xFF, 0x01, 0x00]);
    assert_eq!(&encoded[4..], slice);
}

#[test]
fn tagged_slice_reconstruct() {
    // the SIMPLE-TLV dialect round-trips through its own decoder
    let slice = &[43u8; 256];
    let long =
        flexiber::tagged_slice::TaggedSlice::new(Tag::try_from(0x66).unwrap(), slice).unwrap();
    let encoded = long.encode_to_slice(vec![0u8; 1024]).unwrap();
    let back = flexiber::tagged_slice::TaggedSlice::from_bytes(&encoded).unwrap();
    assert_eq!(back.tag(), Tag::try_from(0x66).unwrap());
    assert_eq!(back.as_bytes(), slice);
}

#[test]
fn simple_tag_rejects_invalid_bytes() {
    assert!(SimpleTag::try_from(0).is_err());
    assert!(SimpleTag::try_from(0xFF).is_err());
    match SimpleTag::try_from(0).unwrap_err().kind() {
        flexiber::ErrorKind::InvalidTag { byte } => assert_eq!(byte, 0),
        k => panic!("unexpected error kind: {:?}", k),
    }
}

#[test]
fn tag_class_embeddings() {
    assert_eq!(
        Tag::from(Class::Private, false, 0x44),
        Tag::private(0x44)
    );
    let simple = SimpleTag::try_from(0x55).unwrap();
    assert_eq!(simple.embedding(), Tag::universal(0x55));
}

#[test]
fn lengths_and_slices_report_their_sizes() {
    assert_eq!(Length::max(), 65535);
    assert_eq!(Length::from(0x1234u16).to_usize(), 0x1234);
    assert_eq!(Length::try_from(70_000usize).unwrap_err().kind(), flexiber::ErrorKind::Overflow);

    let slice = flexiber::Slice::new(&[1, 2, 3]).unwrap();
    assert_eq!(slice.length(), Length::from(3u8));
    assert!(!slice.is_empty());
    assert_eq!(slice.as_bytes(), &[1, 2, 3]);

    let empty = flexiber::tagged_slice::ByteSlice::new(&[]).unwrap();
    assert_eq!(empty.len(), Length::zero());
    assert!(empty.is_empty());

    let ts = flexiber::tagged_slice::TaggedSlice::new(Tag::universal(4), &[9]).unwrap();
    assert_eq!(ts.len(), Length::from(1u8));
    assert!(!ts.is_empty());
    let sum = ts
        .nested(|decoder| {
            let b: [u8; 1] = decoder.decode()?;
            Ok(b[0])
        })
        .unwrap();
    assert_eq!(sum, 9);
}
