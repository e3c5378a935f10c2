//! Encoding and decoding of object trees, byte for byte.

use idevice::{Dictionary, XPCError, XPCObject};

const HEADER: [u8; 8] = [0x42, 0x37, 0x13, 0x42, 0x05, 0x00, 0x00, 0x00];

fn with_header(body: &[u8]) -> Vec<u8> {
    let mut out = HEADER.to_vec();
    out.extend_from_slice(body);
    out
}

fn show(object: &XPCObject) -> String {
    format!("{:?}", object)
}

fn sample_uuid() -> uuid::Uuid {
    uuid::Uuid::from_bytes([
        0xa1, 0xa2, 0xa3, 0xa4, 0xb1, 0xb2, 0xc1, 0xc2, 0xd1, 0xd2, 0xd3, 0xd4, 0xd5, 0xd6, 0xd7,
        0xd8,
    ])
}

fn sample_tree() -> XPCObject {
    let mut inner = Dictionary::new();
    inner.insert("flag".to_string(), XPCObject::Bool(false));
    inner.insert("id".to_string(), XPCObject::Uuid(sample_uuid()));
    let mut outer = Dictionary::new();
    outer.insert("name".to_string(), XPCObject::String("héllo wörld".to_string()));
    outer.insert("blob".to_string(), XPCObject::Data(vec![1, 2, 3, 4, 5]));
    outer.insert(
        "list".to_string(),
        XPCObject::Array(vec![
            XPCObject::Int64(-1),
            XPCObject::UInt64(u64::MAX),
            XPCObject::Array(vec![]),
            XPCObject::Dictionary(inner),
        ]),
    );
    outer.insert("empty".to_string(), XPCObject::String(String::new()));
    XPCObject::Dictionary(outer)
}

#[test]
fn bool_true_is_written_as_zero() {
    let bytes = XPCObject::Bool(true).encode().unwrap();
    assert_eq!(bytes.len(), 16);
    assert_eq!(&bytes[..8], &HEADER);
    assert_eq!(&bytes[8..12], &[0x00, 0x20, 0x00, 0x00]);
    assert_eq!(bytes[12], 0);
    assert_eq!(&bytes[13..16], &[0, 0, 0]);
    let back = XPCObject::decode(&bytes).unwrap();
    assert!(matches!(back, XPCObject::Bool(true)));
}

#[test]
fn bool_false_is_written_as_one() {
    let bytes = XPCObject::Bool(false).encode().unwrap();
    assert_eq!(bytes, with_header(&[0x00, 0x20, 0x00, 0x00, 1, 0, 0, 0]));
    let back = XPCObject::decode(&bytes).unwrap();
    assert!(matches!(back, XPCObject::Bool(false)));
}

#[test]
fn every_nonzero_bool_byte_reads_as_false() {
    for byte in [1u8, 2, 0x7f, 0xff] {
        let bytes = with_header(&[0x00, 0x20, 0x00, 0x00, byte, 9, 9, 9]);
        let back = XPCObject::decode(&bytes).unwrap();
        assert!(matches!(back, XPCObject::Bool(false)));
    }
    let bytes = with_header(&[0x00, 0x20, 0x00, 0x00, 0, 9, 9, 9]);
    assert!(matches!(XPCObject::decode(&bytes).unwrap(), XPCObject::Bool(true)));
}

#[test]
fn string_hi_has_length_three_and_one_padding_byte() {
    let bytes = XPCObject::String("hi".to_string()).encode().unwrap();
    assert_eq!(
        bytes,
        with_header(&[0x00, 0x90, 0x00, 0x00, 3, 0, 0, 0, b'h', b'i', 0x00, 0x00])
    );
    assert_eq!(bytes.len() - 16, 4);
    match XPCObject::decode(&bytes).unwrap() {
        XPCObject::String(s) => assert_eq!(s, "hi"),
        other => panic!("unexpected {:?}", other),
    }
}

#[test]
fn string_lengths_around_the_alignment() {
    for (text, total) in [("", 4usize), ("a", 4), ("abc", 4), ("abcd", 8), ("abcdefg", 8)] {
        let bytes = XPCObject::String(text.to_string()).encode().unwrap();
        assert_eq!(bytes.len(), 16 + total, "text {:?}", text);
        assert_eq!(bytes[12] as usize, text.len() + 1);
        match XPCObject::decode(&bytes).unwrap() {
            XPCObject::String(s) => assert_eq!(s, text),
            other => panic!("unexpected {:?}", other),
        }
    }
}

#[test]
fn signed_integer_is_twos_complement_little_endian() {
    let bytes = XPCObject::Int64(-2).encode().unwrap();
    assert_eq!(
        bytes,
        with_header(&[0x00, 0x30, 0x00, 0x00, 0xfe, 0xff, 0xff, 0xff, 0xff, 0xff, 0xff, 0xff])
    );
    for n in [0i64, 1, -1, i64::MIN, i64::MAX, 0x0102_0304_0506_0708] {
        let bytes = XPCObject::Int64(n).encode().unwrap();
        assert_eq!(&bytes[12..], &n.to_le_bytes());
        assert!(matches!(XPCObject::decode(&bytes).unwrap(), XPCObject::Int64(m) if m == n));
    }
}

#[test]
fn unsigned_integer_is_little_endian() {
    let bytes = XPCObject::UInt64(0x0102_0304_0506_0708).encode().unwrap();
    assert_eq!(
        bytes,
        with_header(&[0x00, 0x40, 0x00, 0x00, 8, 7, 6, 5, 4, 3, 2, 1])
    );
    for n in [0u64, 1, u64::MAX, 1 << 63] {
        let bytes = XPCObject::UInt64(n).encode().unwrap();
        assert!(matches!(XPCObject::decode(&bytes).unwrap(), XPCObject::UInt64(m) if m == n));
    }
}

#[test]
fn data_is_padded_from_its_own_length() {
    let bytes = XPCObject::Data(vec![0xaa, 0xbb, 0xcc, 0xdd, 0xee]).encode().unwrap();
    assert_eq!(
        bytes,
        with_header(&[
            0x00, 0x80, 0x00, 0x00, 5, 0, 0, 0, 0xaa, 0xbb, 0xcc, 0xdd, 0xee, 0, 0, 0
        ])
    );
    let four = XPCObject::Data(vec![1, 2, 3, 4]).encode().unwrap();
    assert_eq!(four.len(), 16 + 4);
    let none = XPCObject::Data(vec![]).encode().unwrap();
    assert_eq!(none.len(), 16);
    match XPCObject::decode(&bytes).unwrap() {
        XPCObject::Data(d) => assert_eq!(d, vec![0xaa, 0xbb, 0xcc, 0xdd, 0xee]),
        other => panic!("unexpected {:?}", other),
    }
}

#[test]
fn data_may_hold_zero_bytes() {
    let bytes = XPCObject::Data(vec![0, 0, 7, 0]).encode().unwrap();
    match XPCObject::decode(&bytes).unwrap() {
        XPCObject::Data(d) => assert_eq!(d, vec![0, 0, 7, 0]),
        other => panic!("unexpected {:?}", other),
    }
}

#[test]
fn uuid_is_its_length_and_its_sixteen_bytes() {
    let id = sample_uuid();
    let bytes = XPCObject::Uuid(id).encode().unwrap();
    let mut expected = vec![0x00, 0xa0, 0x00, 0x00, 16, 0, 0, 0];
    expected.extend_from_slice(id.as_bytes());
    assert_eq!(bytes, with_header(&expected));
    match XPCObject::decode(&bytes).unwrap() {
        XPCObject::Uuid(back) => assert_eq!(back, id),
        other => panic!("unexpected {:?}", other),
    }
}

#[test]
fn uuid_length_word_is_not_looked_at() {
    let id = sample_uuid();
    let mut body = vec![0x00, 0xa0, 0x00, 0x00, 0xff, 0xff, 0xff, 0xff];
    body.extend_from_slice(id.as_bytes());
    match XPCObject::decode(&with_header(&body)).unwrap() {
        XPCObject::Uuid(back) => assert_eq!(back, id),
        other => panic!("unexpected {:?}", other),
    }
}

#[test]
fn array_is_reserved_word_count_and_elements() {
    let array = XPCObject::Array(vec![XPCObject::Bool(true), XPCObject::UInt64(2)]);
    let bytes = array.encode().unwrap();
    assert_eq!(
        bytes,
        with_header(&[
            0x00, 0xe0, 0x00, 0x00, 0, 0, 0, 0, 2, 0, 0, 0, // array of two
            0x00, 0x20, 0x00, 0x00, 0, 0, 0, 0, // true
            0x00, 0x40, 0x00, 0x00, 2, 0, 0, 0, 0, 0, 0, 0, // 2
        ])
    );
    assert_eq!(XPCObject::decode(&bytes).unwrap(), array);
}

#[test]
fn empty_array_and_dictionary() {
    let array = XPCObject::Array(vec![]).encode().unwrap();
    assert_eq!(array, with_header(&[0x00, 0xe0, 0x00, 0x00, 0, 0, 0, 0, 0, 0, 0, 0]));
    assert!(matches!(XPCObject::decode(&array).unwrap(), XPCObject::Array(v) if v.is_empty()));
    let dict = XPCObject::Dictionary(Dictionary::new()).encode().unwrap();
    assert_eq!(dict, with_header(&[0x00, 0xf0, 0x00, 0x00, 0, 0, 0, 0, 0, 0, 0, 0]));
    match XPCObject::decode(&dict).unwrap() {
        XPCObject::Dictionary(d) => assert_eq!(d.len(), 0),
        other => panic!("unexpected {:?}", other),
    }
}

#[test]
fn dictionary_round_trips_in_insertion_order() {
    let mut dict = Dictionary::new();
    dict.insert("a".to_string(), XPCObject::Int64(1));
    dict.insert("bb".to_string(), XPCObject::UInt64(2));
    let bytes = XPCObject::Dictionary(dict).encode().unwrap();
    assert_eq!(
        bytes,
        with_header(&[
            0x00, 0xf0, 0x00, 0x00, 0, 0, 0, 0, 2, 0, 0, 0, // dictionary of two
            b'a', 0, 0, 0, // key with its padding
            0x00, 0x30, 0x00, 0x00, 1, 0, 0, 0, 0, 0, 0, 0, // 1
            b'b', b'b', 0, 0, // key with its padding
            0x00, 0x40, 0x00, 0x00, 2, 0, 0, 0, 0, 0, 0, 0, // 2
        ])
    );
    match XPCObject::decode(&bytes).unwrap() {
        XPCObject::Dictionary(back) => {
            assert_eq!(back.len(), 2);
            let (k0, v0) = back.get_index(0).unwrap();
            let (k1, v1) = back.get_index(1).unwrap();
            assert_eq!(k0, "a");
            assert!(matches!(v0, XPCObject::Int64(1)));
            assert_eq!(k1, "bb");
            assert!(matches!(v1, XPCObject::UInt64(2)));
        }
        other => panic!("unexpected {:?}", other),
    }
}

#[test]
fn dictionary_order_is_not_sorted() {
    let mut dict = Dictionary::new();
    dict.insert("zeta".to_string(), XPCObject::Int64(1));
    dict.insert("alpha".to_string(), XPCObject::Int64(2));
    dict.insert("mid".to_string(), XPCObject::Int64(3));
    let bytes = XPCObject::Dictionary(dict).encode().unwrap();
    match XPCObject::decode(&bytes).unwrap() {
        XPCObject::Dictionary(back) => {
            let keys: Vec<&str> =
                (0..back.len()).map(|i| back.get_index(i).unwrap().0.as_str()).collect();
            assert_eq!(keys, vec!["zeta", "alpha", "mid"]);
        }
        other => panic!("unexpected {:?}", other),
    }
}

#[test]
fn key_padding_counts_the_terminator() {
    for (key, padded) in [("", 4usize), ("abc", 4), ("abcd", 8), ("abcde", 8)] {
        let mut dict = Dictionary::new();
        dict.insert(key.to_string(), XPCObject::Bool(true));
        let bytes = XPCObject::Dictionary(dict).encode().unwrap();
        assert_eq!(bytes.len(), 8 + 12 + padded + 8, "key {:?}", key);
        match XPCObject::decode(&bytes).unwrap() {
            XPCObject::Dictionary(back) => assert_eq!(back.get_index(0).unwrap().0, key),
            other => panic!("unexpected {:?}", other),
        }
    }
}

#[test]
fn nested_tree_round_trips() {
    let tree = sample_tree();
    let bytes = tree.encode().unwrap();
    assert_eq!(bytes.len() % 4, 0);
    let back = XPCObject::decode(&bytes).unwrap();
    assert_eq!(back, tree);
    assert_eq!(show(&back), show(&tree));
    assert_eq!(back.encode().unwrap(), bytes);
}

#[test]
fn bytes_after_the_value_are_not_looked_at() {
    let mut bytes = XPCObject::Int64(7).encode().unwrap();
    bytes.extend_from_slice(&[0xde, 0xad, 0xbe, 0xef, 0x01]);
    assert!(matches!(XPCObject::decode(&bytes).unwrap(), XPCObject::Int64(7)));
}

#[test]
fn reserved_word_may_hold_anything() {
    let bytes = with_header(&[
        0x00, 0xe0, 0x00, 0x00, 0x78, 0x56, 0x34, 0x12, 1, 0, 0, 0, // array of one
        0x00, 0x20, 0x00, 0x00, 0, 0, 0, 0,
    ]);
    match XPCObject::decode(&bytes).unwrap() {
        XPCObject::Array(items) => assert!(matches!(items[..], [XPCObject::Bool(true)])),
        other => panic!("unexpected {:?}", other),
    }
}

#[test]
fn padding_bytes_may_hold_anything() {
    let bytes = with_header(&[0x00, 0x90, 0x00, 0x00, 3, 0, 0, 0, b'h', b'i', 0x00, 0x5a]);
    match XPCObject::decode(&bytes).unwrap() {
        XPCObject::String(s) => assert_eq!(s, "hi"),
        other => panic!("unexpected {:?}", other),
    }
}

#[test]
fn a_key_that_comes_twice_keeps_its_place_and_last_value() {
    let bytes = with_header(&[
        0x00, 0xf0, 0x00, 0x00, 0, 0, 0, 0, 3, 0, 0, 0, // dictionary of three
        b'k', 0, 0, 0, 0x00, 0x40, 0x00, 0x00, 1, 0, 0, 0, 0, 0, 0, 0, // k = 1
        b'j', 0, 0, 0, 0x00, 0x40, 0x00, 0x00, 2, 0, 0, 0, 0, 0, 0, 0, // j = 2
        b'k', 0, 0, 0, 0x00, 0x40, 0x00, 0x00, 3, 0, 0, 0, 0, 0, 0, 0, // k = 3
    ]);
    match XPCObject::decode(&bytes).unwrap() {
        XPCObject::Dictionary(d) => {
            assert_eq!(d.len(), 2);
            let (k0, v0) = d.get_index(0).unwrap();
            let (k1, v1) = d.get_index(1).unwrap();
            assert_eq!(k0, "k");
            assert!(matches!(v0, XPCObject::UInt64(3)));
            assert_eq!(k1, "j");
            assert!(matches!(v1, XPCObject::UInt64(2)));
        }
        other => panic!("unexpected {:?}", other),
    }
}

#[test]
fn truncated_at_any_offset_is_an_error() {
    let trees = vec![
        XPCObject::Bool(true),
        XPCObject::String("hi".to_string()),
        XPCObject::Data(vec![1, 2, 3, 4, 5]),
        XPCObject::Uuid(sample_uuid()),
        sample_tree(),
    ];
    for tree in trees {
        let bytes = tree.encode().unwrap();
        for cut in 0..bytes.len() {
            let result = XPCObject::decode(&bytes[..cut]);
            assert!(result.is_err(), "cut at {} of {}", cut, bytes.len());
        }
        assert!(XPCObject::decode(&bytes).is_ok());
    }
}

#[test]
fn missing_padding_is_truncation() {
    let bytes = XPCObject::String("hi".to_string()).encode().unwrap();
    let cut = &bytes[..bytes.len() - 1];
    assert_eq!(XPCObject::decode(cut).unwrap_err(), XPCError::Truncated);
    let data = XPCObject::Data(vec![1]).encode().unwrap();
    assert_eq!(XPCObject::decode(&data[..data.len() - 3]).unwrap_err(), XPCError::Truncated);
}

#[test]
fn short_buffers_are_truncated() {
    assert_eq!(XPCObject::decode(&[]).unwrap_err(), XPCError::Truncated);
    assert_eq!(XPCObject::decode(&HEADER[..7]).unwrap_err(), XPCError::Truncated);
    assert_eq!(XPCObject::decode(&HEADER).unwrap_err(), XPCError::Truncated);
    assert_eq!(
        XPCObject::decode(&with_header(&[0x00, 0x30, 0x00, 0x00, 1, 2, 3])).unwrap_err(),
        XPCError::Truncated
    );
}

#[test]
fn wrong_magic_is_refused() {
    let mut bytes = XPCObject::Bool(true).encode().unwrap();
    bytes[0] ^= 0xff;
    assert_eq!(XPCObject::decode(&bytes).unwrap_err(), XPCError::BadMagic);
    assert_eq!(XPCObject::decode(&[0u8; 8]).unwrap_err(), XPCError::BadMagic);
}

#[test]
fn wrong_version_is_refused() {
    let mut bytes = XPCObject::Bool(true).encode().unwrap();
    bytes[4] = 6;
    assert_eq!(XPCObject::decode(&bytes).unwrap_err(), XPCError::BadVersion);
}

#[test]
fn corrupted_tag_is_an_unknown_type() {
    let mut bytes = XPCObject::Bool(true).encode().unwrap();
    bytes[8..12].copy_from_slice(&0xdead_beef_u32.to_le_bytes());
    assert_eq!(XPCObject::decode(&bytes).unwrap_err(), XPCError::InvalidFormat(0xdead_beef));
}

#[test]
fn corrupted_tag_inside_an_array_is_an_unknown_type() {
    let mut bytes =
        XPCObject::Array(vec![XPCObject::Int64(1), XPCObject::Int64(2)]).encode().unwrap();
    let second = 8 + 12 + 12;
    bytes[second..second + 4].copy_from_slice(&0x0000_1000_u32.to_le_bytes());
    assert_eq!(XPCObject::decode(&bytes).unwrap_err(), XPCError::InvalidFormat(0x0000_1000));
}

#[test]
fn count_beyond_the_buffer_is_truncation() {
    let bytes = with_header(&[
        0x00, 0xe0, 0x00, 0x00, 0, 0, 0, 0, 0xff, 0xff, 0xff, 0xff, // claims 2^32 - 1 elements
        0x00, 0x20, 0x00, 0x00, 0, 0, 0, 0,
    ]);
    assert_eq!(XPCObject::decode(&bytes).unwrap_err(), XPCError::Truncated);
    let dict = with_header(&[0x00, 0xf0, 0x00, 0x00, 0, 0, 0, 0, 0xff, 0xff, 0xff, 0x7f]);
    assert_eq!(XPCObject::decode(&dict).unwrap_err(), XPCError::BadTerminator);
}

#[test]
fn length_beyond_the_buffer_is_truncation() {
    let string = with_header(&[0x00, 0x90, 0x00, 0x00, 0xff, 0xff, 0xff, 0xff, b'a', 0, 0, 0]);
    assert_eq!(XPCObject::decode(&string).unwrap_err(), XPCError::Truncated);
    let data = with_header(&[0x00, 0x80, 0x00, 0x00, 9, 0, 0, 0, 1, 2, 3, 4]);
    assert_eq!(XPCObject::decode(&data).unwrap_err(), XPCError::Truncated);
}

#[test]
fn string_without_terminator_is_refused() {
    let missing = with_header(&[0x00, 0x90, 0x00, 0x00, 2, 0, 0, 0, b'h', b'i', 0, 0]);
    assert_eq!(XPCObject::decode(&missing).unwrap_err(), XPCError::BadTerminator);
    let empty = with_header(&[0x00, 0x90, 0x00, 0x00, 0, 0, 0, 0]);
    assert_eq!(XPCObject::decode(&empty).unwrap_err(), XPCError::BadTerminator);
}

#[test]
fn string_with_a_nul_inside_is_refused() {
    let bytes = XPCObject::String("a\0b".to_string()).encode().unwrap();
    assert_eq!(
        bytes,
        with_header(&[0x00, 0x90, 0x00, 0x00, 4, 0, 0, 0, b'a', 0, b'b', 0])
    );
    assert_eq!(XPCObject::decode(&bytes).unwrap_err(), XPCError::BadTerminator);
}

#[test]
fn string_that_is_not_utf8_is_refused() {
    let bytes = with_header(&[0x00, 0x90, 0x00, 0x00, 3, 0, 0, 0, 0xff, 0xfe, 0, 0]);
    assert_eq!(XPCObject::decode(&bytes).unwrap_err(), XPCError::InvalidUtf8);
    let cut_sequence = with_header(&[0x00, 0x90, 0x00, 0x00, 2, 0, 0, 0, 0xc3, 0, 0, 0]);
    assert_eq!(XPCObject::decode(&cut_sequence).unwrap_err(), XPCError::InvalidUtf8);
}

#[test]
fn key_without_terminator_is_refused() {
    let bytes = with_header(&[
        0x00, 0xf0, 0x00, 0x00, 0, 0, 0, 0, 1, 0, 0, 0, // dictionary of one
        b'k', b'e', b'y', b'!',
    ]);
    assert_eq!(XPCObject::decode(&bytes).unwrap_err(), XPCError::BadTerminator);
}

#[test]
fn key_that_is_not_utf8_is_refused() {
    let bytes = with_header(&[
        0x00, 0xf0, 0x00, 0x00, 0, 0, 0, 0, 1, 0, 0, 0, // dictionary of one
        0xff, 0, 0, 0, 0x00, 0x20, 0x00, 0x00, 0, 0, 0, 0,
    ]);
    assert_eq!(XPCObject::decode(&bytes).unwrap_err(), XPCError::InvalidUtf8);
}

#[test]
fn key_with_a_nul_cannot_be_encoded() {
    let mut dict = Dictionary::new();
    dict.insert("a\0b".to_string(), XPCObject::Bool(true));
    assert_eq!(XPCObject::Dictionary(dict).encode().unwrap_err(), XPCError::NotEncodable);
    let mut inner = Dictionary::new();
    inner.insert("\0".to_string(), XPCObject::Bool(true));
    let nested = XPCObject::Array(vec![XPCObject::Int64(1), XPCObject::Dictionary(inner)]);
    assert_eq!(nested.encode().unwrap_err(), XPCError::NotEncodable);
}

#[test]
fn encode_object_appends_without_header() {
    let mut buf = vec![0xee];
    XPCObject::UInt64(1).encode_object(&mut buf).unwrap();
    assert_eq!(buf, vec![0xee, 0x00, 0x40, 0x00, 0x00, 1, 0, 0, 0, 0, 0, 0, 0]);
}

#[test]
fn decode_object_returns_the_next_position() {
    let bytes = [0xee, 0x00, 0x40, 0x00, 0x00, 1, 0, 0, 0, 0, 0, 0, 0, 0x00, 0x20, 0, 0, 0, 0, 0, 0];
    let (first, next) = XPCObject::decode_object(&bytes, 1).unwrap();
    assert!(matches!(first, XPCObject::UInt64(1)));
    assert_eq!(next, 13);
    let (second, end) = XPCObject::decode_object(&bytes, next).unwrap();
    assert!(matches!(second, XPCObject::Bool(true)));
    assert_eq!(end, bytes.len());
    assert_eq!(XPCObject::decode_object(&bytes, end).unwrap_err(), XPCError::Truncated);
    assert_eq!(XPCObject::decode_object(&bytes, 1000).unwrap_err(), XPCError::Truncated);
    assert_eq!(XPCObject::decode_object(&bytes, usize::MAX).unwrap_err(), XPCError::Truncated);
}

#[test]
fn padding_table() {
    let expected = [0usize, 3, 2, 1, 0, 3, 2, 1, 0, 3];
    for (n, pad) in expected.iter().enumerate() {
        assert_eq!(XPCObject::calculate_padding(n), *pad, "n = {}", n);
    }
    for n in [10usize, 1023, 1024, 65_537, usize::MAX - 1, usize::MAX] {
        let pad = XPCObject::calculate_padding(n);
        assert!(pad < 4);
        assert_eq!((n % 4 + pad) % 4, 0);
    }
    assert_eq!(XPCObject::calculate_padding(usize::MAX), 1);
}

#[test]
fn error_descriptions_differ() {
    let all = [
        XPCError::Truncated,
        XPCError::BadMagic,
        XPCError::BadVersion,
        XPCError::InvalidFormat(1),
        XPCError::BadTerminator,
        XPCError::InvalidUtf8,
        XPCError::BodyLength,
        XPCError::NotEncodable,
        XPCError::UnsupportedPlist,
        XPCError::IntegerOutOfRange,
    ];
    for (i, a) in all.iter().enumerate() {
        assert!(!a.describe().is_empty());
        for b in &all[i + 1..] {
            assert_ne!(a.describe(), b.describe());
        }
    }
    assert_eq!(XPCError::InvalidFormat(7).describe(), "unknown XPC type tag");
}
