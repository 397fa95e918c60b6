use jni_macros::types::RustPrimitive;
use jni_macros::wire::{decode_utf16_unit, narrow_boolean};

#[test]
fn unsigned_values_cross_as_signed_ones() {
    assert_eq!(RustPrimitive::U8.reinterpret_signed(0), 0);
    assert_eq!(RustPrimitive::U8.reinterpret_signed(127), 127);
    assert_eq!(RustPrimitive::U8.reinterpret_signed(128), -128);
    assert_eq!(RustPrimitive::U8.reinterpret_signed(255), -1);
    assert_eq!(RustPrimitive::U16.reinterpret_signed(0x8000), i16::MIN as i64);
    assert_eq!(RustPrimitive::U16.reinterpret_signed(0xFFFF), -1);
    assert_eq!(RustPrimitive::U32.reinterpret_signed(0x7FFF_FFFF), i32::MAX as i64);
    assert_eq!(RustPrimitive::U32.reinterpret_signed(0xFFFF_FFFE), -2);
    assert_eq!(RustPrimitive::U64.reinterpret_signed(u64::MAX), -1);
    assert_eq!(RustPrimitive::U64.reinterpret_signed(1 << 63), i64::MIN);
    assert_eq!(RustPrimitive::U64.reinterpret_signed(42), 42);
}

#[test]
fn signed_values_are_read_back_as_unsigned_ones() {
    assert_eq!(RustPrimitive::U8.reinterpret_unsigned(-1), 255);
    assert_eq!(RustPrimitive::U8.reinterpret_unsigned(-128), 128);
    assert_eq!(RustPrimitive::U8.reinterpret_unsigned(127), 127);
    assert_eq!(RustPrimitive::U16.reinterpret_unsigned(-1), 0xFFFF);
    assert_eq!(RustPrimitive::U32.reinterpret_unsigned(i32::MIN as i64), 0x8000_0000);
    assert_eq!(RustPrimitive::U64.reinterpret_unsigned(-1), u64::MAX);
    assert_eq!(RustPrimitive::U64.reinterpret_unsigned(i64::MIN), 1 << 63);
    assert_eq!(RustPrimitive::U64.reinterpret_unsigned(0), 0);
}

#[test]
fn reinterpretation_agrees_with_the_casts_of_the_language() {
    for value in 0..=u8::MAX {
        assert_eq!(RustPrimitive::U8.reinterpret_signed(value as u64), (value as i8) as i64);
        assert_eq!(
            RustPrimitive::U8.reinterpret_unsigned((value as i8) as i64),
            value as u64
        );
    }
    for value in [0u16, 1, 0x7FFF, 0x8000, 0x8001, 0xFFFF] {
        assert_eq!(RustPrimitive::U16.reinterpret_signed(value as u64), (value as i16) as i64);
    }
    for value in [0u64, 1, u64::MAX / 2, u64::MAX / 2 + 1, u64::MAX] {
        assert_eq!(RustPrimitive::U64.reinterpret_signed(value), value as i64);
        assert_eq!(RustPrimitive::U64.reinterpret_unsigned(value as i64), value);
    }
}

#[test]
fn booleans_cross_as_bytes() {
    assert_eq!(narrow_boolean(true), 1);
    assert_eq!(narrow_boolean(false), 0);
}

#[test]
fn lone_code_units() {
    assert_eq!(decode_utf16_unit(0x61), 'a');
    assert_eq!(decode_utf16_unit(0), '\0');
    assert_eq!(decode_utf16_unit(0x20AC), '\u{20AC}');
    assert_eq!(decode_utf16_unit(0xD7FF), '\u{D7FF}');
    assert_eq!(decode_utf16_unit(0xD800), '\u{FFFD}');
    assert_eq!(decode_utf16_unit(0xDBFF), '\u{FFFD}');
    assert_eq!(decode_utf16_unit(0xDC00), '\u{FFFD}');
    assert_eq!(decode_utf16_unit(0xDFFF), '\u{FFFD}');
    assert_eq!(decode_utf16_unit(0xE000), '\u{E000}');
    assert_eq!(decode_utf16_unit(0xFFFF), '\u{FFFF}');
    for unit in [0x41u16, 0xD7FF, 0xD800, 0xDFFF, 0xE000] {
        let expected = char::decode_utf16(Some(unit))
            .next()
            .unwrap()
            .unwrap_or(char::REPLACEMENT_CHARACTER);
        assert_eq!(decode_utf16_unit(unit), expected);
    }
}
