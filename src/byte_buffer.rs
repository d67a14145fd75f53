//! The byte layout shared by the encoder and the decoder.
use vstd::bytes::*;
use vstd::prelude::*;
use vstd::utf8::*;

pub mod deserializer;
pub mod laws;
pub mod serializer;
pub mod value;

verus! {

/// The byte that terminates an encoded string.
pub const EOT: u8 = 4;

/// Encoding of a boolean: one byte, `0` or `1`.
pub open spec fn bool_bytes(v: bool) -> Seq<u8> {
    seq![if v { 1u8 } else { 0u8 }]
}

/// Encoding of an 8-bit unsigned integer: the byte itself.
pub open spec fn u8_bytes(v: u8) -> Seq<u8> {
    seq![v]
}

/// Encoding of a 16-bit unsigned integer: two bytes, little-endian.
pub open spec fn u16_bytes(v: u16) -> Seq<u8> {
    spec_u16_to_le_bytes(v)
}

/// Encoding of a 32-bit unsigned integer: four bytes, little-endian.
pub open spec fn u32_bytes(v: u32) -> Seq<u8> {
    spec_u32_to_le_bytes(v)
}

/// Encoding of a 64-bit unsigned integer: eight bytes, little-endian.
pub open spec fn u64_bytes(v: u64) -> Seq<u8> {
    spec_u64_to_le_bytes(v)
}

/// Encoding of a signed integer: the two's complement bits, as the unsigned
/// integer of the same width.
pub open spec fn i8_bytes(v: i8) -> Seq<u8> {
    u8_bytes(v as u8)
}

pub open spec fn i16_bytes(v: i16) -> Seq<u8> {
    u16_bytes(v as u16)
}

pub open spec fn i32_bytes(v: i32) -> Seq<u8> {
    u32_bytes(v as u32)
}

pub open spec fn i64_bytes(v: i64) -> Seq<u8> {
    u64_bytes(v as u64)
}

/// Encoding of a character: its Unicode scalar value as a 32-bit integer.
pub open spec fn char_bytes(c: char) -> Seq<u8> {
    u32_bytes(c as u32)
}

/// Encoding of a string: its UTF-8 bytes followed by the sentinel.
pub open spec fn str_bytes(s: Seq<char>) -> Seq<u8> {
    encode_utf8(s).push(EOT)
}

/// A string can be framed by the sentinel only if its bytes do not hold it.
pub open spec fn sentinel_free(s: Seq<char>) -> bool {
    !encode_utf8(s).contains(EOT)
}

/// Encoding of a container length or field count: a 64-bit word.
pub open spec fn len_bytes(n: usize) -> Seq<u8> {
    u64_bytes(n as u64)
}

/// Encoding of a tagged-union variant index.
pub open spec fn variant_bytes(index: u32) -> Seq<u8> {
    u32_bytes(index)
}

/// Encoding of an optional value: a presence byte, then the value if present.
pub open spec fn option_bytes(inner: Option<Seq<u8>>) -> Seq<u8> {
    match inner {
        None => bool_bytes(false),
        Some(b) => bool_bytes(true) + b,
    }
}

} // verus!
