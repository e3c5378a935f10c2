//! Conversion between object trees and property lists.

use idevice::{Dictionary, PlistInteger, PlistValue, XPCError, XPCObject};

fn debug_text<T: std::fmt::Debug>(value: &T) -> String {
    format!("{:?}", value)
}

#[test]
fn scalars_from_plist() {
    assert!(matches!(
        XPCObject::from_plist(&PlistValue::Boolean(true)),
        Ok(XPCObject::Bool(true))
    ));
    assert!(matches!(
        XPCObject::from_plist(&PlistValue::Data(vec![1, 2])),
        Ok(XPCObject::Data(d)) if d == vec![1, 2]
    ));
    assert!(matches!(
        XPCObject::from_plist(&PlistValue::String("s".to_string())),
        Ok(XPCObject::String(s)) if s == "s"
    ));
    assert!(matches!(
        XPCObject::from_plist(&PlistValue::Integer(PlistInteger::Signed(-3))),
        Ok(XPCObject::Int64(-3))
    ));
}

#[test]
fn unsigned_plist_integers_must_fit_the_signed_range() {
    assert!(matches!(
        XPCObject::from_plist(&PlistValue::Integer(PlistInteger::Unsigned(3))),
        Ok(XPCObject::Int64(3))
    ));
    assert!(matches!(
        XPCObject::from_plist(&PlistValue::Integer(PlistInteger::Unsigned(i64::MAX as u64))),
        Ok(XPCObject::Int64(i64::MAX))
    ));
    assert_eq!(
        XPCObject::from_plist(&PlistValue::Integer(PlistInteger::Unsigned(i64::MAX as u64 + 1)))
            .unwrap_err(),
        XPCError::IntegerOutOfRange
    );
    assert_eq!(
        XPCObject::from_plist(&PlistValue::Integer(PlistInteger::Unsigned(u64::MAX))).unwrap_err(),
        XPCError::IntegerOutOfRange
    );
}

#[test]
fn dates_reals_and_uids_are_refused() {
    for value in [
        PlistValue::Date("2024-01-01T00:00:00Z".to_string()),
        PlistValue::Real(0x3ff8_0000_0000_0000),
        PlistValue::Uid(4),
    ] {
        assert_eq!(XPCObject::from_plist(&value).unwrap_err(), XPCError::UnsupportedPlist);
    }
}

#[test]
fn unsupported_values_fail_the_whole_tree() {
    let nested = PlistValue::Array(vec![
        PlistValue::Boolean(true),
        PlistValue::Dictionary(vec![
            ("fine".to_string(), PlistValue::String("x".to_string())),
            ("when".to_string(), PlistValue::Date("2024-01-01T00:00:00Z".to_string())),
        ]),
    ]);
    assert_eq!(XPCObject::from_plist(&nested).unwrap_err(), XPCError::UnsupportedPlist);
    let first_failure_wins = PlistValue::Array(vec![
        PlistValue::Integer(PlistInteger::Unsigned(u64::MAX)),
        PlistValue::Uid(1),
    ]);
    assert_eq!(
        XPCObject::from_plist(&first_failure_wins).unwrap_err(),
        XPCError::IntegerOutOfRange
    );
}

#[test]
fn containers_from_plist() {
    let plist = PlistValue::Dictionary(vec![
        ("b".to_string(), PlistValue::Integer(PlistInteger::Signed(1))),
        (
            "a".to_string(),
            PlistValue::Array(vec![PlistValue::Boolean(false), PlistValue::Data(vec![9])]),
        ),
    ]);
    let object = XPCObject::from_plist(&plist).unwrap();
    let dict = object.as_dictionary().unwrap();
    assert_eq!(dict.len(), 2);
    let (k0, v0) = dict.get_index(0).unwrap();
    assert_eq!(k0, "b");
    assert!(matches!(v0, XPCObject::Int64(1)));
    let (k1, v1) = dict.get_index(1).unwrap();
    assert_eq!(k1, "a");
    let items = v1.as_array().unwrap();
    assert!(matches!(items[0], XPCObject::Bool(false)));
    assert!(matches!(&items[1], XPCObject::Data(d) if d == &vec![9]));
}

#[test]
fn repeated_plist_keys_keep_first_place_and_last_value() {
    let plist = PlistValue::Dictionary(vec![
        ("k".to_string(), PlistValue::Boolean(true)),
        ("j".to_string(), PlistValue::Boolean(true)),
        ("k".to_string(), PlistValue::Boolean(false)),
    ]);
    let object = XPCObject::from_plist(&plist).unwrap();
    let dict = object.as_dictionary().unwrap();
    assert_eq!(dict.len(), 2);
    assert_eq!(dict.get_index(0).unwrap().0, "k");
    assert!(matches!(dict.get_index(0).unwrap().1, XPCObject::Bool(false)));
    assert_eq!(dict.get_index(1).unwrap().0, "j");
}

#[test]
fn scalars_to_plist() {
    assert!(matches!(XPCObject::Bool(true).to_plist(), PlistValue::Boolean(true)));
    assert!(matches!(
        XPCObject::Int64(-1).to_plist(),
        PlistValue::Integer(PlistInteger::Signed(-1))
    ));
    assert!(matches!(
        XPCObject::UInt64(u64::MAX).to_plist(),
        PlistValue::Integer(PlistInteger::Unsigned(u64::MAX))
    ));
    assert!(matches!(
        XPCObject::String("s".to_string()).to_plist(),
        PlistValue::String(s) if s == "s"
    ));
    assert!(matches!(
        XPCObject::Data(vec![1]).to_plist(),
        PlistValue::Data(d) if d == vec![1]
    ));
}

#[test]
fn uuid_becomes_its_canonical_text() {
    let id = uuid::Uuid::from_bytes([
        0xa1, 0xa2, 0xa3, 0xa4, 0xb1, 0xb2, 0xc1, 0xc2, 0xd1, 0xd2, 0xd3, 0xd4, 0xd5, 0xd6, 0xd7,
        0xd8,
    ]);
    match XPCObject::Uuid(id).to_plist() {
        PlistValue::String(s) => assert_eq!(s, "a1a2a3a4-b1b2-c1c2-d1d2-d3d4d5d6d7d8"),
        other => panic!("unexpected {:?}", other),
    }
    let low = uuid::Uuid::from_bytes([
        0x00, 0x01, 0x0a, 0x0f, 0x10, 0x9f, 0xf0, 0xff, 0x12, 0x34, 0x56, 0x78, 0x9a, 0xbc, 0xde,
        0xf0,
    ]);
    match XPCObject::Uuid(low).to_plist() {
        PlistValue::String(s) => assert_eq!(s, "00010a0f-109f-f0ff-1234-56789abcdef0"),
        other => panic!("unexpected {:?}", other),
    }
}

#[test]
fn containers_to_plist() {
    let mut dict = Dictionary::new();
    dict.insert("z".to_string(), XPCObject::Int64(1));
    dict.insert("a".to_string(), XPCObject::Array(vec![XPCObject::Bool(true)]));
    let plist = XPCObject::Dictionary(dict).to_plist();
    let expected = PlistValue::Dictionary(vec![
        ("z".to_string(), PlistValue::Integer(PlistInteger::Signed(1))),
        ("a".to_string(), PlistValue::Array(vec![PlistValue::Boolean(true)])),
    ]);
    assert_eq!(debug_text(&plist), debug_text(&expected));
}

#[test]
fn supported_trees_survive_both_conversions() {
    let plist = PlistValue::Array(vec![
        PlistValue::Boolean(true),
        PlistValue::Integer(PlistInteger::Signed(-9)),
        PlistValue::String("text".to_string()),
        PlistValue::Data(vec![1, 2, 3]),
        PlistValue::Dictionary(vec![("k".to_string(), PlistValue::Array(vec![]))]),
    ]);
    let back = XPCObject::from_plist(&plist).unwrap().to_plist();
    assert_eq!(debug_text(&back), debug_text(&plist));
}
