//! Values as they cross the bridge.
//!
//! Java has no unsigned numbers, its `char` is one UTF-16 code unit, and a
//! boolean crosses the bridge as a byte. The functions here do to a value
//! what the generated program does to it on the way.

use crate::types::RustPrimitive;
use vstd::prelude::*;

verus! {

impl RustPrimitive {
    /// The number of values of an integer type; 0 for another type.
    pub open spec fn modulus(self) -> int {
        match self {
            RustPrimitive::U8 | RustPrimitive::I8 => 0x100,
            RustPrimitive::U16 | RustPrimitive::I16 => 0x1_0000,
            RustPrimitive::U32 | RustPrimitive::I32 => 0x1_0000_0000,
            RustPrimitive::U64 | RustPrimitive::I64 => 0x1_0000_0000_0000_0000,
            _ => 0,
        }
    }

    /// Whether `value` is a value of the unsigned type of this size.
    pub open spec fn holds_unsigned(self, value: int) -> bool {
        0 <= value < self.modulus()
    }

    /// Whether `value` is a value of the signed type of this size.
    pub open spec fn holds_signed(self, value: int) -> bool {
        -self.modulus() <= 2 * value < self.modulus()
    }
}

/// The signed number that has the bits of the unsigned number `value`, for a
/// type of `modulus` values.
pub open spec fn signed_reading(value: int, modulus: int) -> int {
    if 2 * value < modulus {
        value
    } else {
        value - modulus
    }
}

/// The unsigned number that has the bits of the signed number `value`, for a
/// type of `modulus` values.
pub open spec fn unsigned_reading(value: int, modulus: int) -> int {
    if value < 0 {
        value + modulus
    } else {
        value
    }
}

/// The byte in which a boolean crosses the bridge.
pub open spec fn boolean_byte(value: bool) -> u8 {
    if value {
        1
    } else {
        0
    }
}

/// The character that one UTF-16 code unit is when it is decoded on its own:
/// U+FFFD for half of a surrogate pair, else the character with that code.
pub open spec fn lone_unit(unit: u16) -> u32 {
    if 0xD800 <= unit <= 0xDFFF {
        0xFFFD
    } else {
        unit as u32
    }
}

/// Trusted: `char::from_u32`. The result is the character with the code
/// `code`; there is one unless the code is half of a surrogate pair or lies
/// above U+10FFFF.
#[verifier::external_body]
fn character(code: u32) -> (r: Option<char>)
    ensures
        r matches Some(c) ==> c as u32 == code,
        code < 0xD800 || 0xE000 <= code <= 0x10FFFF ==> r is Some,
{
    char::from_u32(code)
}

impl RustPrimitive {
    /// Reads the bits of an unsigned value of this type as the signed type of
    /// the same size: what is done to it before the bridge gets it.
    pub fn reinterpret_signed(self, value: u64) -> (r: i64)
        requires
            self.unsigned(),
            self.holds_unsigned(value as int),
        ensures
            r == signed_reading(value as int, self.modulus()),
            self.holds_signed(r as int),
    {
        let half: u64 = match self {
            RustPrimitive::U8 => 0x80,
            RustPrimitive::U16 => 0x8000,
            RustPrimitive::U32 => 0x8000_0000,
            _ => 0x8000_0000_0000_0000,
        };
        if value < half {
            value as i64
        } else {
            // `value - half` is what lies above the lowest negative number.
            let above: i64 = (value - half) as i64;
            let lowest: i64 = match self {
                RustPrimitive::U8 => -0x80,
                RustPrimitive::U16 => -0x8000,
                RustPrimitive::U32 => -0x8000_0000,
                _ => i64::MIN,
            };
            lowest + above
        }
    }

    /// Reads the bits of a signed value as the unsigned type of this size:
    /// what is done to it once the bridge has handed it back.
    pub fn reinterpret_unsigned(self, value: i64) -> (r: u64)
        requires
            self.unsigned(),
            self.holds_signed(value as int),
        ensures
            r == unsigned_reading(value as int, self.modulus()),
            self.holds_unsigned(r as int),
    {
        if value >= 0 {
            value as u64
        } else {
            // `value - lowest` is what lies above the lowest negative number.
            let lowest: i64 = match self {
                RustPrimitive::U8 => -0x80,
                RustPrimitive::U16 => -0x8000,
                RustPrimitive::U32 => -0x8000_0000,
                _ => i64::MIN,
            };
            let half: u64 = match self {
                RustPrimitive::U8 => 0x80,
                RustPrimitive::U16 => 0x8000,
                RustPrimitive::U32 => 0x8000_0000,
                _ => 0x8000_0000_0000_0000,
            };
            half + (value - lowest) as u64
        }
    }
}

/// Narrows a boolean to the byte in which it crosses the bridge.
pub fn narrow_boolean(value: bool) -> (r: u8)
    ensures
        r == boolean_byte(value),
{
    if value {
        1
    } else {
        0
    }
}

/// Decodes one UTF-16 code unit on its own. Half of a surrogate pair gives
/// the replacement character U+FFFD.
pub fn decode_utf16_unit(unit: u16) -> (r: char)
    ensures
        r as u32 == lone_unit(unit),
{
    if 0xD800 <= unit && unit <= 0xDFFF {
        '\u{FFFD}'
    } else {
        match character(unit as u32) {
            Some(c) => c,
            None => '\u{FFFD}',
        }
    }
}

/// An unsigned value that is handed to the bridge as a signed one and read
/// back as an unsigned one is the value it was. The same holds the other way round.
pub proof fn lemma_reinterpretation_round_trip(ty: RustPrimitive, value: int)
    requires
        ty.unsigned(),
    ensures
        ty.holds_unsigned(value) ==> ty.holds_signed(signed_reading(value, ty.modulus()))
            && unsigned_reading(signed_reading(value, ty.modulus()), ty.modulus()) == value,
        ty.holds_signed(value) ==> ty.holds_unsigned(unsigned_reading(value, ty.modulus()))
            && signed_reading(unsigned_reading(value, ty.modulus()), ty.modulus()) == value,
{
}

} // verus!
