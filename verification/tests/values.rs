//! The typed tag values and the numeric helpers against literal bytes.

use card_less_reader::number::{
    calculate_length_field, calculate_lrc, get_bytes_big_endian, get_message_length,
    to_u16_big_endian,
};
use card_less_reader::tag_value::{
    AnnexE, AnnexETagValue, ExternalDisplayModeTagValue, HexTagValue, IntTagValue,
    SerialNumberTagValue, StringAsciiTagValue, U16BigEndianTagValue,
};
use card_less_reader::device::ExtDisplayMode;
use card_less_reader::text::{decimal_string, hex_string};
use card_less_reader::tlv_parser::TagValue;

#[test]
fn u16_big_endian() {
    let v = U16BigEndianTagValue::new(0x0203);
    assert_eq!(v.bytes(), vec![0x02, 0x03]);
    let back = U16BigEndianTagValue::from_raw(&[0x02, 0x03]).unwrap();
    assert_eq!(back.value(), 0x0203);
    assert!(U16BigEndianTagValue::from_raw(&[0x01]).is_err());
    assert!(U16BigEndianTagValue::from_raw(&[0x01, 0x02, 0x03]).is_err());
}

#[test]
fn bcd_round_trip() {
    // the byte length is the digit count halved, rounded up
    let v = IntTagValue::new((643, 4));
    assert_eq!(v.bytes(), vec![0x06, 0x43]);
    let back = IntTagValue::from_raw(&[0x06, 0x43]).unwrap();
    assert_eq!(back.value(), 643);

    let v = IntTagValue::new((1234, 12));
    assert_eq!(v.bytes(), vec![0x00, 0x00, 0x00, 0x00, 0x12, 0x34]);
    let back = IntTagValue::from_raw(&v.bytes()).unwrap();
    assert_eq!(back.value(), 1234);

    // an odd digit count pads its high nibble
    let v = IntTagValue::new((7, 3));
    assert_eq!(v.bytes(), vec![0x00, 0x07]);

    // a nibble beyond nine is not a decimal digit
    assert!(IntTagValue::from_raw(&[0x0A]).is_err());
    assert!(IntTagValue::from_raw(&[0xA0]).is_err());
}

#[test]
fn ascii_text() {
    let v = StringAsciiTagValue::from_raw(&[0x41, 0x42, 0x43]).unwrap();
    assert_eq!(v.text(), "ABC");
    assert_eq!(v.bytes(), vec![0x41, 0x42, 0x43]);
    assert!(StringAsciiTagValue::from_raw(&[0xFF, 0xFE]).is_err());

    // a two-byte UTF-8 sequence decodes to one character
    let v = StringAsciiTagValue::from_raw(&[0xC3, 0xA9]).unwrap();
    assert_eq!(v.text().chars().count(), 1);
    assert_eq!(v.bytes(), vec![0xC3, 0xA9]);
}

#[test]
fn hex_text() {
    let v = HexTagValue::from_raw(&[0xAA, 0xBB, 0xCC, 0xDD]).unwrap();
    assert_eq!(v.text(), "AABBCCDD");
    assert_eq!(v.bytes(), vec![0xAA, 0xBB, 0xCC, 0xDD]);
}

#[test]
fn annex_e_codes() {
    let v = AnnexETagValue::from_raw(&[0x09]).unwrap();
    assert!(matches!(v.value(), AnnexE::EmvTransactionTerminated));
    let v = AnnexETagValue::from_raw(&[0x06]).unwrap();
    assert!(matches!(v.value(), AnnexE::CollisionMoreThanOnePICCDetected));
    assert!(AnnexETagValue::from_raw(&[0x07]).is_err());
    assert!(AnnexETagValue::from_raw(&[]).is_err());
    assert!(AnnexETagValue::from_raw(&[0x09, 0x09]).is_err());
    assert_eq!(AnnexETagValue::new(AnnexE::EmvTransactionTerminatedTryAgain).bytes(), vec![0x2B]);
}

#[test]
fn display_mode_codes() {
    let v = ExternalDisplayModeTagValue::from_raw(&[0x02]).unwrap();
    assert!(matches!(v.value(), ExtDisplayMode::Full));
    assert!(ExternalDisplayModeTagValue::from_raw(&[0x03]).is_err());
    assert!(ExternalDisplayModeTagValue::from_raw(&[]).is_err());
    assert_eq!(ExternalDisplayModeTagValue::new(ExtDisplayMode::NoDisplay).bytes(), vec![0x00]);
}

#[test]
fn serial_number_fields() {
    let raw = [0x00, 0x01, 0x02, 0x03, 0xAA, 0xBB, 0xCC, 0xDD];
    let sn = SerialNumberTagValue::from_raw(&raw).unwrap();
    assert_eq!(sn.get_bom_version(), 1);
    assert_eq!(sn.get_partial_pn(), 515);
    assert_eq!(sn.get_unique_id(), "AABBCCDD");
    assert_eq!(sn.bytes(), raw.to_vec());
    assert!(SerialNumberTagValue::from_raw(&raw[0..7]).is_err());
}

#[test]
fn number_helpers() {
    assert_eq!(to_u16_big_endian(&[0x12, 0x34]), Some(0x1234));
    assert_eq!(to_u16_big_endian(&[0x12]), None);
    assert_eq!(get_bytes_big_endian(0x1234), vec![0x12, 0x34]);

    // the three length-field shapes
    assert_eq!(calculate_length_field(0x10), vec![0x11]);
    assert_eq!(calculate_length_field(0x7F), vec![0x81, 0x81]);
    assert_eq!(calculate_length_field(0x100), vec![0x82, 0x01, 0x03]);

    assert_eq!(calculate_lrc(&[]), 0);
    assert_eq!(calculate_lrc(&[0x02, 0x08, 0x00, 0x3D]), 0x02 ^ 0x08 ^ 0x3D);

    assert_eq!(get_message_length(&[0x02, 0x10, 0x00, 0x00, 0x00], 1), Some((0x10, 2)));
    assert_eq!(get_message_length(&[0x02, 0x81, 0x99, 0x00, 0x00, 0x00], 1), Some((0x99, 3)));
    assert_eq!(get_message_length(&[0x02, 0x82, 0x01, 0x02, 0x00, 0x00], 1), Some((0x0102, 4)));
}

#[test]
fn text_rendering() {
    assert_eq!(decimal_string(0), "0");
    assert_eq!(decimal_string(515), "515");
    assert_eq!(decimal_string(10_000_000), "10000000");
    assert_eq!(hex_string(&[]), "");
    assert_eq!(hex_string(&[0x0F, 0xA0]), "0FA0");
}
