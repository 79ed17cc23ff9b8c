//! An end-to-end consumer scenario: a card-application discovery record
//! composed of a raw slice field and a custom bit-packed field.

use flexiber::{
    Class, Container, Decodable, Decoder, Encodable, Encoder, Error, Length, Tag, TagLike,
    TaggedSlice,
};

#[derive(Clone, Copy)]
pub struct PinUsagePolicy {
    piv_pin: bool,
    global_pin: bool,
    on_card_biometric_comparison: bool,

    has_virtual_contact_interface: bool,
    pairing_code_required_for_vci: Option<bool>,

    cardholder_prefers_global_pin: Option<bool>,
}

impl Default for PinUsagePolicy {
    fn default() -> Self {
        Self {
            piv_pin: true,
            global_pin: false,
            on_card_biometric_comparison: false,
            has_virtual_contact_interface: false,
            pairing_code_required_for_vci: None,
            cardholder_prefers_global_pin: None,
        }
    }
}

impl Decodable<'_> for PinUsagePolicy {
    fn decode(decoder: &mut Decoder<'_>) -> Result<Self, Error> {
        let raw: [u8; 2] = decoder.decode()?;
        let capabilities = raw[0];
        let has_global_pin = capabilities & (1 << 5) != 0;
        let has_virtual_contact_interface = capabilities & (1 << 3) != 0;
        Ok(Self {
            piv_pin: capabilities & (1 << 6) != 0,
            global_pin: has_global_pin,
            on_card_biometric_comparison: capabilities & (1 << 4) != 0,
            has_virtual_contact_interface,
            pairing_code_required_for_vci: if has_virtual_contact_interface {
                Some(capabilities & (1 << 2) != 0)
            } else {
                None
            },

            cardholder_prefers_global_pin: if has_global_pin {
                Some(raw[1] == 0x20)
            } else {
                None
            },
        })
    }
}

impl Encodable for PinUsagePolicy {
    fn encoded_length(&self) -> Result<Length, Error> {
        Ok(2u8.into())
    }

    fn encode(&self, encoder: &mut Encoder) -> Result<(), Error> {
        let mut first_byte = 0u8;
        if self.piv_pin {
            first_byte |= 1 << 6;
        }
        if self.global_pin {
            first_byte |= 1 << 5;
        }
        if self.on_card_biometric_comparison {
            first_byte |= 1 << 4;
        }
        if self.has_virtual_contact_interface {
            first_byte |= 1 << 3;
        }

        if self.has_virtual_contact_interface && Some(true) == self.pairing_code_required_for_vci {
            first_byte |= 1 << 2;
        }

        let mut second_byte = 0u8;
        if self.global_pin {
            if let Some(prefers_global) = self.cardholder_prefers_global_pin {
                if prefers_global {
                    second_byte = 0x20;
                } else {
                    second_byte = 0x10;
                }
            }
        }

        encoder.encode(&[first_byte, second_byte])
    }
}

pub struct DiscoveryObject {
    // slice field under the application tag 0xF
    piv_card_application_aid: [u8; 11],
    // custom field under the application tag 0x2F
    pin_usage_policy: PinUsagePolicy,
}

impl Default for DiscoveryObject {
    fn default() -> Self {
        Self {
            piv_card_application_aid: [
                0xA0, 0x00, 0x00, 0x03, 0x08, 0x00, 0x00, 0x10, 0x00, 0x01, 0x00,
            ],
            pin_usage_policy: Default::default(),
        }
    }
}

impl flexiber::Tagged for DiscoveryObject {
    fn tag() -> Tag {
        Tag::from(Class::Application, true, 0x1E)
    }
}

impl Container for DiscoveryObject {
    fn fields_length(&self) -> Result<Length, Error> {
        let mut total = Length::zero();
        total = total.add(
            TaggedSlice::from(
                Tag::from(Class::Application, false, 0xF),
                &self.piv_card_application_aid,
            )?
            .encoded_length()?,
        )?;
        total = total.add(
            Tag::from(Class::Application, false, 0x2F)
                .with_value(&self.pin_usage_policy)
                .encoded_length()?,
        )?;
        Ok(total)
    }

    fn encode_fields(&self, encoder: &mut Encoder) -> Result<(), Error> {
        encoder.encode(&TaggedSlice::from(
            Tag::from(Class::Application, false, 0xF),
            &self.piv_card_application_aid,
        )?)?;
        encoder.encode(
            &Tag::from(Class::Application, false, 0x2F).with_value(&self.pin_usage_policy),
        )
    }
}

#[test]
fn discovery() {
    let disco = DiscoveryObject::default();
    let encoded = disco.encode_to_slice(vec![0u8; 64]).unwrap();
    assert_eq!(
        encoded.as_slice(),
        &[
            0x7E, 0x12, 0x4F, 0x0B, 0xA0, 0x00, 0x00, 0x03, 0x08, 0x00, 0x00, 0x10, 0x00, 0x01,
            0x00, 0x5F, 0x2F, 0x02, 0x40, 0x00,
        ]
    );
}
