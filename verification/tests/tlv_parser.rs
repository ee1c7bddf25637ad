//! The TLV codec against literal byte strings: parse/serialise round trips,
//! path lookup, tag lengths, and the error cases.

use card_less_reader::tlv::{AsciiString, TlvExtensions};
use card_less_reader::tlv_parser::{Tlv, TlvError, Value};

#[test]
fn from_vec_test() {
    // simple two bytes TLV
    let input: Vec<u8> = vec![0x01, 0x02, 0x00, 0x00];
    assert_eq!(Tlv::from_vec(&input).unwrap().to_vec(), input);

    // TLV with two bytes tag
    let input: Vec<u8> = vec![0x9F, 0x02, 0x02, 0x00, 0x00];
    assert_eq!(Tlv::from_vec(&input).unwrap().to_vec(), input);

    // TLV with two bytes length
    let mut input: Vec<u8> = vec![0x9F, 0x02, 0x81, 0x80];
    input.extend_from_slice(&[0; 0x80]);
    assert_eq!(Tlv::from_vec(&input).unwrap().to_vec(), input);

    // TLV with four bytes tag number
    let input: Vec<u8> = vec![0x5f, 0xc8, 0x80, 0x01, 0x02, 0x01, 0x02];
    assert_eq!(Tlv::from_vec(&input).unwrap().to_vec(), input);
}

#[test]
fn to_vec_test() {
    let tlv = Tlv::new(0x01, Value::Val(vec![0])).unwrap();
    assert_eq!(tlv.to_vec(), vec![0x01, 0x01, 0x00]);

    let tlv = Tlv::new(0x01, Value::Val(vec![0; 127])).unwrap();
    assert_eq!(&tlv.to_vec()[0..3], [0x01, 0x7F, 0x00]);

    let tlv = Tlv::new(0x01, Value::Val(vec![0; 255])).unwrap();
    assert_eq!(&tlv.to_vec()[0..4], [0x01, 0x81, 0xFF, 0x00]);

    let tlv = Tlv::new(0x02, Value::Val(vec![0; 256])).unwrap();
    assert_eq!(&tlv.to_vec()[0..4], [0x02, 0x82, 0x01, 0x00]);

    let tlv = Tlv::new(0x03, Value::Val(vec![0; 0xffff01])).unwrap();
    assert_eq!(&tlv.to_vec()[0..5], [0x03, 0x83, 0xFF, 0xFF, 0x01]);
}

#[test]
fn find_val_test() {
    let input: Vec<u8> = vec![0x21, 0x05, 0x22, 0x03, 0x03, 0x01, 0xaa];
    let tlv = Tlv::from_vec(&input).unwrap();

    if let Some(&Value::Val(ref val)) = tlv.find_val("21 / 22 / 03") {
        assert_eq!(*val, vec![0xaa]);
    } else {
        assert!(false);
    }
}

#[test]
fn tag_len_test() {
    let tlv1 = Tlv::new(0x03, Value::Nothing).unwrap();
    let tlv2 = Tlv::new(0x0303, Value::Nothing).unwrap();
    let tlv3 = Tlv::new(0x030303, Value::Nothing).unwrap();
    let tlv4 = Tlv::new(0x03030303, Value::Nothing).unwrap();

    assert_eq!(tlv1.tag_len(), 1);
    assert_eq!(tlv2.tag_len(), 2);
    assert_eq!(tlv3.tag_len(), 3);
    assert_eq!(tlv4.tag_len(), 4);
}

#[test]
fn nested_round_trip() {
    let inner_a = Tlv::new(0x01, Value::Val(vec![0xA1, 0xA2])).unwrap();
    let inner_b = Tlv::new(0x02, Value::Val(vec![0xB1, 0xB2])).unwrap();
    let tlv = Tlv::new(0x21, Value::TlvList(vec![inner_a, inner_b])).unwrap();
    let bytes = tlv.to_vec();
    assert_eq!(bytes, vec![0x21, 0x08, 0x01, 0x02, 0xA1, 0xA2, 0x02, 0x02, 0xB1, 0xB2]);
    assert_eq!(tlv.len(), bytes.len());
    let back = Tlv::from_vec(&bytes).unwrap();
    assert_eq!(back.to_vec(), bytes);
}

#[test]
fn tag_value_agreement() {
    // a constructed tag refuses a primitive value
    match Tlv::new(0x21, Value::Val(vec![0x01])) {
        Err(TlvError::TlvListExpected { tag_number }) => assert_eq!(tag_number, 0x21),
        _ => panic!("expected TlvListExpected"),
    }
    // a primitive tag refuses a child list
    match Tlv::new(0x01, Value::TlvList(vec![])) {
        Err(TlvError::ValExpected { tag_number }) => assert_eq!(tag_number, 0x01),
        _ => panic!("expected ValExpected"),
    }
    // an explicit empty value is accepted under either kind
    assert!(Tlv::new(0x21, Value::Nothing).is_ok());
    assert!(Tlv::new(0x01, Value::Nothing).is_ok());
}

#[test]
fn too_short_body() {
    match Tlv::from_vec(&[0x01, 0x05, 0x00]) {
        Err(TlvError::TooShortBody { expected, found }) => {
            assert_eq!(expected, 5);
            assert_eq!(found, 1);
        },
        _ => panic!("expected TooShortBody"),
    }
}

#[test]
fn invalid_tag_and_length() {
    assert!(matches!(Tlv::from_vec(&[0x00, 0x00]), Err(TlvError::InvalidTagNumber)));
    assert!(matches!(Tlv::from_vec(&[]), Err(TlvError::TruncatedTlv)));
    // a long-form length of more than four bytes is refused
    assert!(matches!(
        Tlv::from_vec(&[0x01, 0x85, 0x00, 0x00, 0x00, 0x00, 0x00]),
        Err(TlvError::InvalidLength)
    ));
}

#[test]
fn path_lookup() {
    let input: Vec<u8> = vec![0x21, 0x05, 0x22, 0x03, 0x03, 0x01, 0xaa];
    let tlv = Tlv::from_vec(&input).unwrap();
    // absent nodes and unreadable paths both yield nothing
    assert!(tlv.find_val("21 / 23").is_none());
    assert!(tlv.find_val("22").is_none());
    assert!(tlv.find_val("").is_none());
    assert!(tlv.find_val("xyz").is_none());
    // the root alone resolves to its own value
    assert!(tlv.find_val("21").is_some());
}

#[test]
fn child_lookup() {
    let input: Vec<u8> = vec![0x21, 0x05, 0x22, 0x03, 0x03, 0x01, 0xaa];
    let tlv = Tlv::from_vec(&input).unwrap();
    let child = tlv.child(0x22).unwrap();
    assert_eq!(child.tag(), 0x22);
    assert!(matches!(tlv.child(0x23), Err(TlvError::TagPathError)));
    assert!(matches!(child.child(0x03).unwrap().child(0x01), Err(TlvError::TlvListExpected { .. })));
}

#[test]
fn get_val_typed() {
    let tlv = Tlv::new(0x01, Value::Val(vec![0x48, 0x49])).unwrap();
    let text = tlv.get_val::<AsciiString>("01").unwrap().unwrap();
    assert_eq!(text.text(), "HI");

    // a constructed match is refused
    let inner = Tlv::new(0x03, Value::Val(vec![0x01])).unwrap();
    let outer = Tlv::new(0x21, Value::TlvList(vec![inner])).unwrap();
    assert!(matches!(
        outer.get_val::<AsciiString>("21"),
        Err(card_less_reader::error::TlvValueParseError::ManyValues)
    ));

    // a failing value parser surfaces its error
    let bad = Tlv::new(0x01, Value::Val(vec![0xff, 0xfe])).unwrap();
    assert!(bad.get_val::<AsciiString>("01").is_err());

    // a path that selects nothing yields no value
    assert!(tlv.get_val::<AsciiString>("02").unwrap().is_none());
}

#[test]
fn extension_constructors() {
    let leaf = Tlv::new_with_raw_val(0x03, vec![0x48, 0x49]).unwrap();
    let mid = Tlv::new_with_childs(0x22, vec![leaf]).unwrap();
    let root = Tlv::new_with_childs(0x21, vec![mid]).unwrap();
    assert_eq!(root.to_vec(), vec![0x21, 0x06, 0x22, 0x04, 0x03, 0x02, 0x48, 0x49]);

    let found: Option<AsciiString> = root.find_val_ext("21 / 22 / 03").unwrap();
    assert_eq!(found.unwrap().text(), "HI");

    let typed = Tlv::new_with_val(0x01, AsciiString::new("OK".to_string())).unwrap();
    let value: AsciiString = typed.val_ext().unwrap();
    assert_eq!(value.text(), "OK");

    // the constructors enforce tag and value agreement too
    assert!(Tlv::new_with_raw_val(0x21, vec![0x01]).is_err());
    assert!(Tlv::new_with_childs(0x01, vec![]).is_err());
}

#[test]
fn decorator_text() {
    let input: Vec<u8> = vec![0x21, 0x05, 0x22, 0x03, 0x03, 0x01, 0xaa];
    let tlv = Tlv::from_vec(&input).unwrap();
    let text = card_less_reader::tlv::TlvDecorator::new(&tlv).text();
    assert!(text.contains("21"));
    assert!(text.contains("AA"));
}

#[test]
fn encode_len_forms() {
    assert_eq!(Value::Val(vec![0; 5]).encode_len(), vec![0x05]);
    assert_eq!(Value::Val(vec![0; 0x7F]).encode_len(), vec![0x7F]);
    assert_eq!(Value::Val(vec![0; 0x80]).encode_len(), vec![0x81, 0x80]);
    assert_eq!(Value::Val(vec![0; 0x100]).encode_len(), vec![0x82, 0x01, 0x00]);
    assert_eq!(Value::Nothing.encode_len(), vec![0x00]);
    assert!(Value::Nothing.is_empty());
    assert!(Value::Val(vec![]).is_empty());
    assert!(!Value::Val(vec![1]).is_empty());
}

#[test]
fn primitive_and_empty() {
    let tlv = Tlv::new(0x21, Value::Nothing).unwrap();
    assert!(!tlv.is_primitive());
    assert!(tlv.is_empty());
    assert_eq!(tlv.to_vec(), vec![0x21, 0x00]);
    let tlv = Tlv::new(0x01, Value::Val(vec![])).unwrap();
    assert!(tlv.is_primitive());
    assert!(tlv.is_empty());
    let parsed = Tlv::from_vec(&[0x01, 0x00]).unwrap();
    assert_eq!(parsed.tag(), 0x01);
    assert_eq!(parsed.tag_len(), 0x01);
    assert_eq!(parsed.len(), 0x02);
}
