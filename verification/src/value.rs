//! One element of a message, read out of memory as a plain value.
use vstd::prelude::*;

use crate::memory::{in_range, read_le, read_u16, read_u32, read_u64, read_u8};
use crate::structure::BaseType;

verus! {

/// One element of a message. Floating-point numbers are carried as their
/// bit patterns; strings as the words of their headers, which locate their
/// characters in the memory the message points into.
#[derive(Debug, PartialEq, Eq, Structural)]
pub enum SimpleValue {
    Float(u32),
    Double(u64),
    LongDouble,
    Char(u8),
    WChar(u16),
    Boolean(bool),
    Octet(u8),
    Uint8(u8),
    Int8(i8),
    Uint16(u16),
    Int16(i16),
    Uint32(u32),
    Int32(i32),
    Uint64(u64),
    Int64(i64),
    String { data: u64 },
    BoundedString { data: u64 },
    WString { data: u64, size: u64 },
    BoundedWString { data: u64, size: u64 },
    Message,
}

/// The `i8` whose two's-complement byte is `u`.
pub open spec fn i8_of(u: u8) -> i8 {
    if u < 128 { u as i8 } else { (u - 256) as i8 }
}

/// The `i16` whose two's-complement bits are `u`.
pub open spec fn i16_of(u: u16) -> i16 {
    if u < 0x8000 { u as i16 } else { (u - 0x10000) as i16 }
}

/// The `i32` whose two's-complement bits are `u`.
pub open spec fn i32_of(u: u32) -> i32 {
    if u < 0x8000_0000 { u as i32 } else { (u - 0x1_0000_0000) as i32 }
}

/// The `i64` whose two's-complement bits are `u`.
pub open spec fn i64_of(u: u64) -> i64 {
    if u < 0x8000_0000_0000_0000 { u as i64 } else { (u - 0x1_0000_0000_0000_0000) as i64 }
}

/// How many bytes reading one element of type `b` looks at.
pub open spec fn read_width(b: BaseType) -> int {
    match b {
        BaseType::Boolean | BaseType::Octet | BaseType::Char | BaseType::Uint8
        | BaseType::Int8 => 1,
        BaseType::WChar | BaseType::Uint16 | BaseType::Int16 => 2,
        BaseType::Float | BaseType::Uint32 | BaseType::Int32 => 4,
        BaseType::Double | BaseType::Uint64 | BaseType::Int64 => 8,
        BaseType::String | BaseType::BoundedString { .. } => 8,
        BaseType::WString | BaseType::BoundedWString { .. } => 16,
        BaseType::LongDouble | BaseType::Message(_) => 0,
    }
}

/// The element of type `b` that `mem` holds at `at`: numbers little-endian,
/// a boolean true when its byte is not zero, a string by the data word of
/// its header (and a wide string also by its size word).
pub open spec fn decode(b: BaseType, mem: Seq<u8>, at: int) -> SimpleValue {
    match b {
        BaseType::Boolean => SimpleValue::Boolean(read_le(mem, at, 1) != 0),
        BaseType::Octet => SimpleValue::Octet(read_le(mem, at, 1) as u8),
        BaseType::Char => SimpleValue::Char(read_le(mem, at, 1) as u8),
        BaseType::Uint8 => SimpleValue::Uint8(read_le(mem, at, 1) as u8),
        BaseType::Int8 => SimpleValue::Int8(i8_of(read_le(mem, at, 1) as u8)),
        BaseType::WChar => SimpleValue::WChar(read_le(mem, at, 2) as u16),
        BaseType::Uint16 => SimpleValue::Uint16(read_le(mem, at, 2) as u16),
        BaseType::Int16 => SimpleValue::Int16(i16_of(read_le(mem, at, 2) as u16)),
        BaseType::Float => SimpleValue::Float(read_le(mem, at, 4) as u32),
        BaseType::Uint32 => SimpleValue::Uint32(read_le(mem, at, 4) as u32),
        BaseType::Int32 => SimpleValue::Int32(i32_of(read_le(mem, at, 4) as u32)),
        BaseType::Double => SimpleValue::Double(read_le(mem, at, 8) as u64),
        BaseType::Uint64 => SimpleValue::Uint64(read_le(mem, at, 8) as u64),
        BaseType::Int64 => SimpleValue::Int64(i64_of(read_le(mem, at, 8) as u64)),
        BaseType::LongDouble => SimpleValue::LongDouble,
        BaseType::String => SimpleValue::String { data: read_le(mem, at, 8) as u64 },
        BaseType::BoundedString { .. } => SimpleValue::BoundedString {
            data: read_le(mem, at, 8) as u64,
        },
        BaseType::WString => SimpleValue::WString {
            data: read_le(mem, at, 8) as u64,
            size: read_le(mem, at + 8, 8) as u64,
        },
        BaseType::BoundedWString { .. } => SimpleValue::BoundedWString {
            data: read_le(mem, at, 8) as u64,
            size: read_le(mem, at + 8, 8) as u64,
        },
        BaseType::Message(_) => SimpleValue::Message,
    }
}

fn to_i8(u: u8) -> (r: i8)
    ensures
        r == i8_of(u),
{
    if u < 128 { u as i8 } else { ((u - 128) as i8) + i8::MIN }
}

fn to_i16(u: u16) -> (r: i16)
    ensures
        r == i16_of(u),
{
    if u < 0x8000 { u as i16 } else { ((u - 0x8000) as i16) + i16::MIN }
}

fn to_i32(u: u32) -> (r: i32)
    ensures
        r == i32_of(u),
{
    if u < 0x8000_0000 { u as i32 } else { ((u - 0x8000_0000) as i32) + i32::MIN }
}

fn to_i64(u: u64) -> (r: i64)
    ensures
        r == i64_of(u),
{
    if u < 0x8000_0000_0000_0000 {
        u as i64
    } else {
        ((u - 0x8000_0000_0000_0000) as i64) + i64::MIN
    }
}

/// Reads the element of type `b` that `mem` holds at `at`.
pub fn decode_simple(b: &BaseType, mem: &[u8], at: usize) -> (r: SimpleValue)
    requires
        in_range(mem@, at as int, read_width(*b)),
    ensures
        r == decode(*b, mem@, at as int),
{
    let len = mem.len();
    match b {
        BaseType::Boolean => SimpleValue::Boolean(read_u8(mem, at) != 0),
        BaseType::Octet => SimpleValue::Octet(read_u8(mem, at)),
        BaseType::Char => SimpleValue::Char(read_u8(mem, at)),
        BaseType::Uint8 => SimpleValue::Uint8(read_u8(mem, at)),
        BaseType::Int8 => SimpleValue::Int8(to_i8(read_u8(mem, at))),
        BaseType::WChar => SimpleValue::WChar(read_u16(mem, at)),
        BaseType::Uint16 => SimpleValue::Uint16(read_u16(mem, at)),
        BaseType::Int16 => SimpleValue::Int16(to_i16(read_u16(mem, at))),
        BaseType::Float => SimpleValue::Float(read_u32(mem, at)),
        BaseType::Uint32 => SimpleValue::Uint32(read_u32(mem, at)),
        BaseType::Int32 => SimpleValue::Int32(to_i32(read_u32(mem, at))),
        BaseType::Double => SimpleValue::Double(read_u64(mem, at)),
        BaseType::Uint64 => SimpleValue::Uint64(read_u64(mem, at)),
        BaseType::Int64 => SimpleValue::Int64(to_i64(read_u64(mem, at))),
        BaseType::LongDouble => SimpleValue::LongDouble,
        BaseType::String => SimpleValue::String { data: read_u64(mem, at) },
        BaseType::BoundedString { .. } => SimpleValue::BoundedString { data: read_u64(mem, at) },
        BaseType::WString => SimpleValue::WString {
            data: read_u64(mem, at),
            size: read_u64(mem, at + 8),
        },
        BaseType::BoundedWString { .. } => SimpleValue::BoundedWString {
            data: read_u64(mem, at),
            size: read_u64(mem, at + 8),
        },
        BaseType::Message(_) => SimpleValue::Message,
    }
}

} // verus!
