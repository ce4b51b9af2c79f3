//! Unit tests of the compiler's pieces: the symbol table, numeric key
//! reading, entry ordering and the encoder.

use sdb::encode::encode;
use sdb::errors::CompileError;
use sdb::model::DeviceRecord;
use sdb::model::EventSpec;
use sdb::model::Family;
use sdb::model::InputKey;
use sdb::model::RemapEntry;
use sdb::numtext::parse_u8;
use sdb::symbol::name_to_hex;

fn entry(key: &str, byte: u8, event: u8) -> RemapEntry {
    RemapEntry {
        key_text: key.to_string(),
        key: InputKey::Named(byte),
        event: EventSpec::Simple(event),
    }
}

fn record(remap: Vec<RemapEntry>) -> DeviceRecord {
    DeviceRecord {
        id: "0000000000000000".to_string(),
        name: "N".to_string(),
        family: Family::Xbox,
        remap,
    }
}

#[test]
fn symbol_table_resolves_known_names() {
    assert_eq!(name_to_hex("None"), Some(0x00));
    assert_eq!(name_to_hex("Exit"), Some(0x01));
    assert_eq!(name_to_hex("ActionA"), Some(0x02));
    assert_eq!(name_to_hex("JoyX"), Some(0x20));
    assert_eq!(name_to_hex("MouseY"), Some(0x4F));
    assert_eq!(name_to_hex("PaddleLeft"), Some(0x51));
    assert_eq!(name_to_hex("TrimRight"), Some(0x5D));
}

#[test]
fn symbol_table_is_case_sensitive_and_closed() {
    assert_eq!(name_to_hex("none"), None);
    assert_eq!(name_to_hex("ACTIONA"), None);
    assert_eq!(name_to_hex(""), None);
    assert_eq!(name_to_hex("Paddle"), None);
}

#[test]
fn numeric_keys_read_as_u8_decimals() {
    assert_eq!(parse_u8("0"), Some(0));
    assert_eq!(parse_u8("5"), Some(5));
    assert_eq!(parse_u8("255"), Some(255));
    assert_eq!(parse_u8("007"), Some(7));
    assert_eq!(parse_u8("+7"), Some(7));
    assert_eq!(parse_u8("256"), None);
    assert_eq!(parse_u8("-1"), None);
    assert_eq!(parse_u8(""), None);
    assert_eq!(parse_u8("+"), None);
    assert_eq!(parse_u8("1 "), None);
    assert_eq!(parse_u8("0x10"), None);
}

#[test]
fn keys_order_case_insensitively() {
    // Input order b, A; the encoding puts A first.
    let r = record(vec![entry("b", 0x01, 0x01), entry("A", 0x02, 0x02)]);
    assert_eq!(encode(r), "0000000000000000N\tx0202;0101");
}

#[test]
fn case_folding_decides_the_order() {
    // Without folding, "Z" (code 90) would sort before "a" (code 97);
    // the case-insensitive order puts "a" first.
    let r = record(vec![entry("Z", 0x01, 0x01), entry("a", 0x02, 0x02)]);
    assert_eq!(encode(r), "0000000000000000N\tx0202;0101");
}

#[test]
fn equal_folded_keys_keep_input_order() {
    // "joy" and "Joy" fold to the same key: the sort is stable.
    let r = record(vec![entry("joy", 0x0A, 0x10), entry("Joy", 0x0A, 0x11)]);
    assert_eq!(encode(r), "0000000000000000N\tx0A10;0A11");
    let r2 = record(vec![entry("Joy", 0x0A, 0x11), entry("joy", 0x0A, 0x10)]);
    assert_eq!(encode(r2), "0000000000000000N\tx0A11;0A10");
}

#[test]
fn empty_remap_encodes_header_alone() {
    let r = record(Vec::new());
    assert_eq!(encode(r), "0000000000000000N\tx");
}

#[test]
fn family_tags() {
    for (family, tag) in [
        (Family::Xbox, 'x'),
        (Family::PlayStation, 'p'),
        (Family::Nintendo, 'n'),
        (Family::Flight, 'f'),
    ] {
        let mut r = record(Vec::new());
        r.family = family;
        assert_eq!(encode(r), format!("0000000000000000N\t{}", tag));
    }
}

#[test]
fn numeric_key_encoding_sets_high_bit() {
    let r = record(vec![RemapEntry {
        key_text: "5".to_string(),
        key: InputKey::Numeric(5),
        event: EventSpec::Simple(0x02),
    }]);
    assert_eq!(encode(r), "0000000000000000N\tx8502");
}

#[test]
fn parameter_rendering_uses_plain_decimals() {
    let r = record(vec![RemapEntry {
        key_text: "JoyX".to_string(),
        key: InputKey::Named(0x20),
        event: EventSpec::Parameterized {
            event: 0x20,
            max: Some(9223372036854775807),
            min: Some(-9223372036854775808),
            scale: None,
            deadzone: None,
        },
    }]);
    assert_eq!(
        encode(r),
        "0000000000000000N\tx2020a9223372036854775807i-9223372036854775808"
    );
}

#[test]
fn diagnostics_name_the_offender() {
    let e = CompileError::UnknownSymbol("Jump".to_string());
    assert_eq!(e.describe(), "unknown symbol: Jump");
    let e = CompileError::UnknownDeviceType("gamecube".to_string());
    assert_eq!(e.describe(), "unknown device type: gamecube");
    let e = CompileError::InvalidMapping("ActionA".to_string());
    assert_eq!(e.describe(), "invalid mapping for key: ActionA");
    let e = CompileError::MalformedDescriptor("no remap".to_string());
    assert_eq!(e.describe(), "malformed descriptor: no remap");
    let e = CompileError::Io("open failed".to_string());
    assert_eq!(e.describe(), "i/o failure: open failed");
}
