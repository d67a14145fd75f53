//! The encoder: one function per kind of value, and a buffer that composite
//! values (sequences, maps, tuples, records, tagged-union payloads) are
//! assembled in from the encodings of their parts.
use vstd::bytes::{u16_to_le_bytes, u32_to_le_bytes, u64_to_le_bytes};
use vstd::prelude::*;
use vstd::slice::slice_to_vec;

use super::{
    bool_bytes, char_bytes, i16_bytes, i32_bytes, i64_bytes, i8_bytes, len_bytes, option_bytes,
    str_bytes, u16_bytes, u32_bytes, u64_bytes, u8_bytes, variant_bytes, EOT,
};

verus! {

/// Why a value could not be encoded.
#[derive(Debug, PartialEq)]
pub enum Error {
    /// A failure reported by the value itself while it was being traversed.
    Custom(String),
    /// A sequence whose length was not known before its elements.
    UnsizedSeq,
    /// A map whose length was not known before its entries.
    UnsizedMap,
}

/// A buffer in which the encoding of a composite value is assembled.
pub struct Serializer {
    buffer: Vec<u8>,
}

impl View for Serializer {
    type V = Seq<u8>;

    closed spec fn view(&self) -> Seq<u8> {
        self.buffer@
    }
}

impl Default for Serializer {
    fn default() -> (r: Self)
        ensures
            r@ == Seq::<u8>::empty(),
    {
        Serializer::new()
    }
}

impl Serializer {
    /// An empty buffer: the start of a tuple, a tuple-shaped record or a
    /// record, whose fields follow with no prefix.
    pub fn new() -> (r: Self)
        ensures
            r@ == Seq::<u8>::empty(),
    {
        Serializer { buffer: Vec::new() }
    }

    pub fn serialize_bool(v: bool) -> (r: Vec<u8>)
        ensures
            r@ == bool_bytes(v),
    {
        let mut out: Vec<u8> = Vec::new();
        out.push(if v { 1u8 } else { 0u8 });
        out
    }

    pub fn serialize_u8(v: u8) -> (r: Vec<u8>)
        ensures
            r@ == u8_bytes(v),
    {
        let mut out: Vec<u8> = Vec::new();
        out.push(v);
        out
    }

    pub fn serialize_u16(v: u16) -> (r: Vec<u8>)
        ensures
            r@ == u16_bytes(v),
    {
        u16_to_le_bytes(v)
    }

    pub fn serialize_u32(v: u32) -> (r: Vec<u8>)
        ensures
            r@ == u32_bytes(v),
    {
        u32_to_le_bytes(v)
    }

    pub fn serialize_u64(v: u64) -> (r: Vec<u8>)
        ensures
            r@ == u64_bytes(v),
    {
        u64_to_le_bytes(v)
    }

    pub fn serialize_i8(v: i8) -> (r: Vec<u8>)
        ensures
            r@ == i8_bytes(v),
    {
        Serializer::serialize_u8(v as u8)
    }

    pub fn serialize_i16(v: i16) -> (r: Vec<u8>)
        ensures
            r@ == i16_bytes(v),
    {
        Serializer::serialize_u16(v as u16)
    }

    pub fn serialize_i32(v: i32) -> (r: Vec<u8>)
        ensures
            r@ == i32_bytes(v),
    {
        Serializer::serialize_u32(v as u32)
    }

    pub fn serialize_i64(v: i64) -> (r: Vec<u8>)
        ensures
            r@ == i64_bytes(v),
    {
        Serializer::serialize_u64(v as u64)
    }

    pub fn serialize_char(v: char) -> (r: Vec<u8>)
        ensures
            r@ == char_bytes(v),
    {
        Serializer::serialize_u32(v as u32)
    }

    /// The UTF-8 bytes of `v`, then the sentinel. A string whose bytes hold
    /// the sentinel is encoded all the same, but cannot be decoded back.
    pub fn serialize_str(v: &str) -> (r: Vec<u8>)
        ensures
            r@ == str_bytes(v@),
    {
        let mut out = slice_to_vec(v.as_bytes());
        out.push(EOT);
        out
    }

    /// The bytes as they are, with no length and no terminator.
    pub fn serialize_bytes(v: &[u8]) -> (r: Vec<u8>)
        ensures
            r@ == v@,
    {
        slice_to_vec(v)
    }

    pub fn serialize_none() -> (r: Vec<u8>)
        ensures
            r@ == option_bytes(None),
    {
        Serializer::serialize_bool(false)
    }

    /// The presence byte, then `value`, the encoding of the inner value.
    pub fn serialize_some(value: &[u8]) -> (r: Vec<u8>)
        ensures
            r@ == option_bytes(Some(value@)),
    {
        let mut out = Serializer::serialize_bool(true);
        let mut rest = slice_to_vec(value);
        out.append(&mut rest);
        out
    }

    /// The unit value, and a unit-shaped record, take no bytes.
    pub fn serialize_unit() -> (r: Vec<u8>)
        ensures
            r@ == Seq::<u8>::empty(),
    {
        Vec::new()
    }

    pub fn serialize_unit_variant(variant_index: u32) -> (r: Vec<u8>)
        ensures
            r@ == variant_bytes(variant_index),
    {
        Serializer::serialize_u32(variant_index)
    }

    /// The variant index, then `value`, the encoding of the payload.
    pub fn serialize_newtype_variant(variant_index: u32, value: &[u8]) -> (r: Vec<u8>)
        ensures
            r@ == variant_bytes(variant_index) + value@,
    {
        let mut out = Serializer::serialize_u32(variant_index);
        let mut rest = slice_to_vec(value);
        out.append(&mut rest);
        out
    }

    /// Starts a sequence: its length, which must be known before its elements.
    pub fn serialize_seq(len: Option<usize>) -> (r: Result<Serializer, Error>)
        ensures
            match len {
                None => r == Err::<Serializer, Error>(Error::UnsizedSeq),
                Some(n) => r is Ok && r->Ok_0@ == len_bytes(n),
            },
    {
        match len {
            None => Err(Error::UnsizedSeq),
            Some(n) => Ok(Serializer { buffer: u64_to_le_bytes(n as u64) }),
        }
    }

    /// Starts a map: its number of entries, which must be known before them.
    pub fn serialize_map(len: Option<usize>) -> (r: Result<Serializer, Error>)
        ensures
            match len {
                None => r == Err::<Serializer, Error>(Error::UnsizedMap),
                Some(n) => r is Ok && r->Ok_0@ == len_bytes(n),
            },
    {
        match len {
            None => Err(Error::UnsizedMap),
            Some(n) => Ok(Serializer { buffer: u64_to_le_bytes(n as u64) }),
        }
    }

    /// Starts a tuple- or record-shaped variant: its index, then its number
    /// of fields.
    pub fn serialize_tuple_variant(variant_index: u32, len: usize) -> (r: Serializer)
        ensures
            r@ == variant_bytes(variant_index) + len_bytes(len),
    {
        let mut buffer = u32_to_le_bytes(variant_index);
        let mut count = u64_to_le_bytes(len as u64);
        buffer.append(&mut count);
        Serializer { buffer }
    }

    /// Appends `value`, the encoding of the next element, field, key or value.
    pub fn serialize_element(&mut self, value: &[u8])
        ensures
            final(self)@ == old(self)@ + value@,
    {
        let mut rest = slice_to_vec(value);
        self.buffer.append(&mut rest);
    }

    /// The bytes assembled so far.
    pub fn end(self) -> (r: Vec<u8>)
        ensures
            r@ == self@,
    {
        self.buffer
    }
}

} // verus!
