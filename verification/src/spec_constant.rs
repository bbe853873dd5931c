//! Specialization constants: the value a shader declares for an overridable
//! constant, and its byte and literal-word representations.
//!
//! Floating-point values are carried as their raw bit patterns (the low 16
//! bits of a half-precision value, the 32 bits of a single, the 64 bits of a
//! double). Specialization only ever moves these bits between literal operand
//! words and byte buffers, so no floating-point arithmetic is involved.

use vstd::prelude::*;

use vstd::bytes::spec_u16_to_le_bytes;
use vstd::bytes::spec_u32_to_le_bytes;
use vstd::bytes::spec_u64_to_le_bytes;
use vstd::bytes::u16_to_le_bytes;
use vstd::bytes::u32_to_le_bytes;
use vstd::bytes::u64_to_le_bytes;

verus! {

/// The value of a specialization constant: the default declared in the
/// module, or an override supplied by a caller.
#[derive(Clone, Copy, Debug, PartialEq, Eq, Structural)]
pub enum SpecializationConstant {
    Bool(bool),
    U8(u8),
    U16(u16),
    U32(u32),
    U64(u64),
    I8(i8),
    I16(i16),
    I32(i32),
    I64(i64),
    /// A half-precision value, as its 16-bit pattern.
    F16(u16),
    /// A single-precision value, as its 32-bit pattern.
    F32(u32),
    /// A double-precision value, as its 64-bit pattern.
    F64(u64),
}

/// Relies on `ash::vk::TRUE`: the 32-bit boolean sentinel for true is 1.
#[verifier::external_body]
fn bool32_true() -> (r: u32)
    ensures
        r == 1u32,
{
    ash::vk::TRUE
}

/// Relies on `ash::vk::FALSE`: the 32-bit boolean sentinel for false is 0.
#[verifier::external_body]
fn bool32_false() -> (r: u32)
    ensures
        r == 0u32,
{
    ash::vk::FALSE
}

/// Whether two values have the same type, ignoring the value.
pub open spec fn spec_eq_type(a: SpecializationConstant, b: SpecializationConstant) -> bool {
    match (a, b) {
        (SpecializationConstant::Bool(_), SpecializationConstant::Bool(_)) => true,
        (SpecializationConstant::U8(_), SpecializationConstant::U8(_)) => true,
        (SpecializationConstant::U16(_), SpecializationConstant::U16(_)) => true,
        (SpecializationConstant::U32(_), SpecializationConstant::U32(_)) => true,
        (SpecializationConstant::U64(_), SpecializationConstant::U64(_)) => true,
        (SpecializationConstant::I8(_), SpecializationConstant::I8(_)) => true,
        (SpecializationConstant::I16(_), SpecializationConstant::I16(_)) => true,
        (SpecializationConstant::I32(_), SpecializationConstant::I32(_)) => true,
        (SpecializationConstant::I64(_), SpecializationConstant::I64(_)) => true,
        (SpecializationConstant::F16(_), SpecializationConstant::F16(_)) => true,
        (SpecializationConstant::F32(_), SpecializationConstant::F32(_)) => true,
        (SpecializationConstant::F64(_), SpecializationConstant::F64(_)) => true,
        _ => false,
    }
}

/// The 32-bit two's-complement pattern of an 8-bit signed value.
pub open spec fn spec_word_of_i8(v: i8) -> u32 {
    if v >= 0 {
        v as u32
    } else {
        ((v as int) + 0x1_0000_0000) as u32
    }
}

/// The 32-bit two's-complement pattern of a 16-bit signed value.
pub open spec fn spec_word_of_i16(v: i16) -> u32 {
    if v >= 0 {
        v as u32
    } else {
        ((v as int) + 0x1_0000_0000) as u32
    }
}

/// The 32-bit two's-complement pattern of a 32-bit signed value.
pub open spec fn spec_word_of_i32(v: i32) -> u32 {
    if v >= 0 {
        v as u32
    } else {
        ((v as int) + 0x1_0000_0000) as u32
    }
}

/// The 64-bit two's-complement pattern of a 64-bit signed value.
pub open spec fn spec_bits_of_i64(v: i64) -> u64 {
    if v >= 0 {
        v as u64
    } else {
        ((v as int) + 0x1_0000_0000_0000_0000) as u64
    }
}

/// The two literal words of a 64-bit pattern, low word first.
pub open spec fn spec_words_of_u64(v: u64) -> Seq<u32> {
    seq![(v % 0x1_0000_0000) as u32, (v / 0x1_0000_0000) as u32]
}

impl SpecializationConstant {
    /// The value as a byte sequence, little-endian. Booleans are expanded to
    /// a 4-byte 32-bit boolean sentinel.
    pub open spec fn spec_as_bytes(self) -> Seq<u8> {
        match self {
            SpecializationConstant::Bool(b) => spec_u32_to_le_bytes(
                if b {
                    1u32
                } else {
                    0u32
                },
            ),
            SpecializationConstant::U8(v) => seq![v],
            SpecializationConstant::U16(v) => spec_u16_to_le_bytes(v),
            SpecializationConstant::U32(v) => spec_u32_to_le_bytes(v),
            SpecializationConstant::U64(v) => spec_u64_to_le_bytes(v),
            SpecializationConstant::I8(v) => seq![(spec_word_of_i8(v) % 0x100) as u8],
            SpecializationConstant::I16(v) => spec_u16_to_le_bytes(
                (spec_word_of_i16(v) % 0x1_0000) as u16,
            ),
            SpecializationConstant::I32(v) => spec_u32_to_le_bytes(spec_word_of_i32(v)),
            SpecializationConstant::I64(v) => spec_u64_to_le_bytes(spec_bits_of_i64(v)),
            SpecializationConstant::F16(bits) => spec_u16_to_le_bytes(bits),
            SpecializationConstant::F32(bits) => spec_u32_to_le_bytes(bits),
            SpecializationConstant::F64(bits) => spec_u64_to_le_bytes(bits),
        }
    }

    /// Returns the value as bytes, little-endian. Booleans are expanded to the
    /// 4-byte 32-bit boolean true/false sentinel values.
    pub fn as_bytes(&self) -> (r: Vec<u8>)
        ensures
            r@ == self.spec_as_bytes(),
    {
        match self {
            SpecializationConstant::Bool(b) => {
                if *b {
                    u32_to_le_bytes(bool32_true())
                } else {
                    u32_to_le_bytes(bool32_false())
                }
            },
            SpecializationConstant::U8(v) => {
                let mut r: Vec<u8> = Vec::new();
                r.push(*v);
                proof {
                    assert(r@ =~= self.spec_as_bytes());
                }
                r
            },
            SpecializationConstant::U16(v) => u16_to_le_bytes(*v),
            SpecializationConstant::U32(v) => u32_to_le_bytes(*v),
            SpecializationConstant::U64(v) => u64_to_le_bytes(*v),
            SpecializationConstant::I8(v) => {
                let w = word_of_i8(*v);
                let mut r: Vec<u8> = Vec::new();
                r.push((w % 0x100) as u8);
                proof {
                    assert(r@ =~= self.spec_as_bytes());
                }
                r
            },
            SpecializationConstant::I16(v) => u16_to_le_bytes((word_of_i16(*v) % 0x1_0000) as u16),
            SpecializationConstant::I32(v) => u32_to_le_bytes(word_of_i32(*v)),
            SpecializationConstant::I64(v) => u64_to_le_bytes(bits_of_i64(*v)),
            SpecializationConstant::F16(bits) => u16_to_le_bytes(*bits),
            SpecializationConstant::F32(bits) => u32_to_le_bytes(*bits),
            SpecializationConstant::F64(bits) => u64_to_le_bytes(*bits),
        }
    }

    /// Returns whether `self` and `other` have the same type, ignoring the
    /// value.
    pub fn eq_type(&self, other: &Self) -> (r: bool)
        ensures
            r == spec_eq_type(*self, *other),
    {
        match (self, other) {
            (SpecializationConstant::Bool(_), SpecializationConstant::Bool(_)) => true,
            (SpecializationConstant::U8(_), SpecializationConstant::U8(_)) => true,
            (SpecializationConstant::U16(_), SpecializationConstant::U16(_)) => true,
            (SpecializationConstant::U32(_), SpecializationConstant::U32(_)) => true,
            (SpecializationConstant::U64(_), SpecializationConstant::U64(_)) => true,
            (SpecializationConstant::I8(_), SpecializationConstant::I8(_)) => true,
            (SpecializationConstant::I16(_), SpecializationConstant::I16(_)) => true,
            (SpecializationConstant::I32(_), SpecializationConstant::I32(_)) => true,
            (SpecializationConstant::I64(_), SpecializationConstant::I64(_)) => true,
            (SpecializationConstant::F16(_), SpecializationConstant::F16(_)) => true,
            (SpecializationConstant::F32(_), SpecializationConstant::F32(_)) => true,
            (SpecializationConstant::F64(_), SpecializationConstant::F64(_)) => true,
            _ => false,
        }
    }

    /// The literal operand words that encode this value in a
    /// constant-defining instruction: one sign- or zero-extended word for
    /// widths up to 32 bits, two words (low first) for 64-bit widths.
    /// Booleans have no literal operand; they are encoded by the opcode.
    pub open spec fn spec_literal_words(self) -> Seq<u32> {
        match self {
            SpecializationConstant::Bool(_) => seq![],
            SpecializationConstant::U8(v) => seq![v as u32],
            SpecializationConstant::U16(v) => seq![v as u32],
            SpecializationConstant::U32(v) => seq![v],
            SpecializationConstant::U64(v) => spec_words_of_u64(v),
            SpecializationConstant::I8(v) => seq![spec_word_of_i8(v)],
            SpecializationConstant::I16(v) => seq![spec_word_of_i16(v)],
            SpecializationConstant::I32(v) => seq![spec_word_of_i32(v)],
            SpecializationConstant::I64(v) => spec_words_of_u64(spec_bits_of_i64(v)),
            SpecializationConstant::F16(bits) => seq![bits as u32],
            SpecializationConstant::F32(bits) => seq![bits],
            SpecializationConstant::F64(bits) => spec_words_of_u64(bits),
        }
    }

    /// The literal operand words that encode this value.
    pub fn literal_words(&self) -> (r: Vec<u32>)
        ensures
            r@ == self.spec_literal_words(),
    {
        let mut r: Vec<u32> = Vec::new();
        match self {
            SpecializationConstant::Bool(_) => {},
            SpecializationConstant::U8(v) => {
                r.push(*v as u32);
            },
            SpecializationConstant::U16(v) => {
                r.push(*v as u32);
            },
            SpecializationConstant::U32(v) => {
                r.push(*v);
            },
            SpecializationConstant::U64(v) => {
                r.push((*v % 0x1_0000_0000) as u32);
                r.push((*v / 0x1_0000_0000) as u32);
            },
            SpecializationConstant::I8(v) => {
                r.push(word_of_i8(*v));
            },
            SpecializationConstant::I16(v) => {
                r.push(word_of_i16(*v));
            },
            SpecializationConstant::I32(v) => {
                r.push(word_of_i32(*v));
            },
            SpecializationConstant::I64(v) => {
                let bits = bits_of_i64(*v);
                r.push((bits % 0x1_0000_0000) as u32);
                r.push((bits / 0x1_0000_0000) as u32);
            },
            SpecializationConstant::F16(bits) => {
                r.push(*bits as u32);
            },
            SpecializationConstant::F32(bits) => {
                r.push(*bits);
            },
            SpecializationConstant::F64(bits) => {
                r.push((*bits % 0x1_0000_0000) as u32);
                r.push((*bits / 0x1_0000_0000) as u32);
            },
        }
        proof {
            assert(r@ =~= self.spec_literal_words());
        }
        r
    }
}

/// The 32-bit two's-complement pattern of an 8-bit signed value.
pub fn word_of_i8(v: i8) -> (r: u32)
    ensures
        r == spec_word_of_i8(v),
{
    if v >= 0 {
        v as u32
    } else {
        ((v as i64) + 0x1_0000_0000) as u32
    }
}

/// The 32-bit two's-complement pattern of a 16-bit signed value.
pub fn word_of_i16(v: i16) -> (r: u32)
    ensures
        r == spec_word_of_i16(v),
{
    if v >= 0 {
        v as u32
    } else {
        ((v as i64) + 0x1_0000_0000) as u32
    }
}

/// The 32-bit two's-complement pattern of a 32-bit signed value.
pub fn word_of_i32(v: i32) -> (r: u32)
    ensures
        r == spec_word_of_i32(v),
{
    if v >= 0 {
        v as u32
    } else {
        ((v as i64) + 0x1_0000_0000) as u32
    }
}

/// The 64-bit two's-complement pattern of a 64-bit signed value.
pub fn bits_of_i64(v: i64) -> (r: u64)
    ensures
        r == spec_bits_of_i64(v),
{
    if v >= 0 {
        v as u64
    } else {
        ((v as i128) + 0x1_0000_0000_0000_0000) as u64
    }
}

} // verus!
