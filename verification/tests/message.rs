//! Message framing.

use idevice::{Dictionary, XPCError, XPCFlag, XPCMessage, XPCObject};

fn sample_body() -> XPCObject {
    let mut dict = Dictionary::new();
    dict.insert("a".to_string(), XPCObject::Int64(1));
    dict.insert("bb".to_string(), XPCObject::UInt64(2));
    XPCObject::Dictionary(dict)
}

#[test]
fn message_without_body_is_its_header() {
    let message = XPCMessage { flags: 0x0000_0001, message: None, message_id: None };
    let bytes = message.encode(42).unwrap();
    assert_eq!(bytes.len(), 24);
    assert_eq!(
        bytes,
        vec![
            0x92, 0x0b, 0xb0, 0x29, // magic
            1, 0, 0, 0, // flags
            0, 0, 0, 0, 0, 0, 0, 0, // body length
            42, 0, 0, 0, 0, 0, 0, 0, // message id
        ]
    );
    let back = XPCMessage::decode(&bytes).unwrap();
    assert!(back.message.is_none());
    assert_eq!(back.message_id, Some(42));
    assert_eq!(back.flags, 1);
}

#[test]
fn message_with_body_round_trips() {
    let body_bytes = sample_body().encode().unwrap();
    let message = XPCMessage::new(
        Some(XPCFlag::AlwaysSet | XPCFlag::WantingReply),
        Some(sample_body()),
        None,
    );
    let bytes = message.encode(0x0102_0304_0506_0708).unwrap();
    assert_eq!(bytes.len(), 24 + body_bytes.len());
    assert_eq!(&bytes[..4], &[0x92, 0x0b, 0xb0, 0x29]);
    assert_eq!(&bytes[4..8], &0x0001_0001_u32.to_le_bytes());
    assert_eq!(&bytes[8..16], &(body_bytes.len() as u64).to_le_bytes());
    assert_eq!(&bytes[16..24], &[8, 7, 6, 5, 4, 3, 2, 1]);
    assert_eq!(&bytes[24..], &body_bytes[..]);
    let back = XPCMessage::decode(&bytes).unwrap();
    assert_eq!(back.flags, 0x0001_0001);
    assert_eq!(back.message_id, Some(0x0102_0304_0506_0708));
    assert_eq!(back.message, Some(sample_body()));
}

#[test]
fn the_id_of_the_message_itself_is_not_encoded() {
    let message = XPCMessage::new(None, None, Some(7));
    let bytes = message.encode(9).unwrap();
    assert_eq!(&bytes[16..24], &9u64.to_le_bytes());
    assert_eq!(XPCMessage::decode(&bytes).unwrap().message_id, Some(9));
}

#[test]
fn new_defaults_to_always_set() {
    let message = XPCMessage::new(None, None, None);
    assert_eq!(message.flags, 0x0000_0001);
    assert!(message.message.is_none());
    assert_eq!(message.message_id, None);
    let other = XPCMessage::new(Some(XPCFlag::InitHandshake), Some(XPCObject::Bool(true)), Some(3));
    assert_eq!(other.flags, 0x0040_0000);
    assert!(matches!(other.message, Some(XPCObject::Bool(true))));
    assert_eq!(other.message_id, Some(3));
}

#[test]
fn short_message_is_truncated() {
    let bytes = XPCMessage::new(None, None, None).encode(1).unwrap();
    for cut in 0..24 {
        assert_eq!(XPCMessage::decode(&bytes[..cut]).unwrap_err(), XPCError::Truncated);
    }
}

#[test]
fn message_with_wrong_magic_is_refused() {
    let mut bytes = XPCMessage::new(None, None, None).encode(1).unwrap();
    bytes[3] = 0x2a;
    assert_eq!(XPCMessage::decode(&bytes).unwrap_err(), XPCError::BadMagic);
}

#[test]
fn body_length_beyond_the_buffer_is_refused() {
    let bytes = XPCMessage::new(None, Some(sample_body()), None).encode(1).unwrap();
    for cut in 24..bytes.len() {
        assert_eq!(XPCMessage::decode(&bytes[..cut]).unwrap_err(), XPCError::BodyLength);
    }
    let mut lying = XPCMessage::new(None, None, None).encode(1).unwrap();
    lying[8] = 1;
    assert_eq!(XPCMessage::decode(&lying).unwrap_err(), XPCError::BodyLength);
    let mut huge = XPCMessage::new(None, None, None).encode(1).unwrap();
    for byte in &mut huge[8..16] {
        *byte = 0xff;
    }
    assert_eq!(XPCMessage::decode(&huge).unwrap_err(), XPCError::BodyLength);
}

#[test]
fn bytes_after_the_body_are_not_looked_at() {
    let mut bytes = XPCMessage::new(None, Some(XPCObject::Int64(5)), None).encode(1).unwrap();
    bytes.extend_from_slice(&[1, 2, 3]);
    let back = XPCMessage::decode(&bytes).unwrap();
    assert!(matches!(back.message, Some(XPCObject::Int64(5))));
    let mut empty = XPCMessage::new(None, None, None).encode(1).unwrap();
    empty.extend_from_slice(&[1, 2, 3]);
    assert!(XPCMessage::decode(&empty).unwrap().message.is_none());
}

#[test]
fn errors_of_the_body_come_through() {
    let mut bytes = XPCMessage::new(None, Some(XPCObject::Int64(5)), None).encode(1).unwrap();
    bytes[24] ^= 0xff;
    assert_eq!(XPCMessage::decode(&bytes).unwrap_err(), XPCError::BadMagic);
    let mut tagged = XPCMessage::new(None, Some(XPCObject::Int64(5)), None).encode(1).unwrap();
    tagged[32..36].copy_from_slice(&0xdead_beef_u32.to_le_bytes());
    assert_eq!(XPCMessage::decode(&tagged).unwrap_err(), XPCError::InvalidFormat(0xdead_beef));
    let mut short = XPCMessage::new(None, None, None).encode(1).unwrap();
    short[8] = 4;
    short.extend_from_slice(&[0x42, 0x37, 0x13, 0x42]);
    assert_eq!(XPCMessage::decode(&short).unwrap_err(), XPCError::Truncated);
}

#[test]
fn message_whose_body_cannot_be_encoded_fails() {
    let mut dict = Dictionary::new();
    dict.insert("bad\0key".to_string(), XPCObject::Bool(true));
    let message = XPCMessage::new(None, Some(XPCObject::Dictionary(dict)), None);
    assert_eq!(message.encode(1).unwrap_err(), XPCError::NotEncodable);
}
