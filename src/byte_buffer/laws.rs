//! What holds between the encoder and the decoder. Each round-trip law is
//! stated with arbitrary bytes `rest` after the encoding: reading the value
//! gives it back and leaves exactly `rest`, so the parts of a composite
//! value, each encoded after the one before, are read back in turn.
//! The whole-scope laws cover a value decoded on its own, from exactly its
//! encoding.
use vstd::bytes::{
    lemma_auto_spec_u16_to_from_le_bytes, lemma_auto_spec_u32_to_from_le_bytes,
    lemma_auto_spec_u64_to_from_le_bytes,
};
use vstd::prelude::*;
use vstd::utf8::{
    char_is_scalar, char_u32_cast, encode_utf8, encode_utf8_decode_utf8, encode_utf8_valid_utf8,
    valid_utf8,
};

use super::deserializer::{
    decode_bool, decode_char, decode_i16, decode_i32, decode_i64, decode_i8, decode_len,
    decode_option, decode_str, decode_u16, decode_u32, decode_u64, decode_u8, decode_variant,
    first_sentinel, in_scope, decode_whole_str, Decoded, Error,
};
use super::value::{
    all_have_shape, decode_fields, decode_list, decode_payload, decode_value,
    decode_variant_payload, encode_value, encode_values, fields_have_shapes, has_shape,
    shapes_len, values_len, variant_at, variants_len, Shape, Shapes, Value, Values, Variants,
};
use super::{
    bool_bytes, char_bytes, i16_bytes, i32_bytes, i64_bytes, i8_bytes, len_bytes, option_bytes,
    sentinel_free, str_bytes, u16_bytes, u32_bytes, u64_bytes, u8_bytes, variant_bytes, EOT,
};

verus! {

/// Booleans, characters and integers of each width are encoded in a fixed
/// number of bytes: 1 for a boolean and for 8 bits, 2 for 16 bits, 4 for 32
/// bits and for a character, 8 for 64 bits.
pub proof fn lemma_fixed_widths(b: bool, c: char, v8: u8, v16: u16, v32: u32, v64: u64, s8: i8, s16: i16, s32: i32, s64: i64)
    ensures
        bool_bytes(b).len() == 1,
        u8_bytes(v8).len() == 1,
        i8_bytes(s8).len() == 1,
        u16_bytes(v16).len() == 2,
        i16_bytes(s16).len() == 2,
        u32_bytes(v32).len() == 4,
        i32_bytes(s32).len() == 4,
        char_bytes(c).len() == 4,
        u64_bytes(v64).len() == 8,
        i64_bytes(s64).len() == 8,
{
    lemma_auto_spec_u16_to_from_le_bytes();
    lemma_auto_spec_u32_to_from_le_bytes();
    lemma_auto_spec_u64_to_from_le_bytes();
}

/// A boolean read back from its encoding is the boolean encoded.
pub proof fn lemma_round_trip_bool(v: bool, rest: Seq<u8>)
    ensures
        decode_bool(bool_bytes(v) + rest) == Decoded::Ok((v, rest)),
{
    assert((bool_bytes(v) + rest).skip(1) =~= rest);
}

/// An unsigned integer read back from its encoding is the integer encoded.
pub proof fn lemma_round_trip_unsigned(v8: u8, v16: u16, v32: u32, v64: u64, rest: Seq<u8>)
    ensures
        decode_u8(u8_bytes(v8) + rest) == Decoded::Ok((v8, rest)),
        decode_u16(u16_bytes(v16) + rest) == Decoded::Ok((v16, rest)),
        decode_u32(u32_bytes(v32) + rest) == Decoded::Ok((v32, rest)),
        decode_u64(u64_bytes(v64) + rest) == Decoded::Ok((v64, rest)),
{
    lemma_auto_spec_u16_to_from_le_bytes();
    lemma_auto_spec_u32_to_from_le_bytes();
    lemma_auto_spec_u64_to_from_le_bytes();
    assert((u8_bytes(v8) + rest).skip(1) =~= rest);
    assert((u16_bytes(v16) + rest).take(2) =~= u16_bytes(v16));
    assert((u16_bytes(v16) + rest).skip(2) =~= rest);
    assert((u32_bytes(v32) + rest).take(4) =~= u32_bytes(v32));
    assert((u32_bytes(v32) + rest).skip(4) =~= rest);
    assert((u64_bytes(v64) + rest).take(8) =~= u64_bytes(v64));
    assert((u64_bytes(v64) + rest).skip(8) =~= rest);
}

/// A signed integer read back from its encoding is the integer encoded.
pub proof fn lemma_round_trip_signed(v8: i8, v16: i16, v32: i32, v64: i64, rest: Seq<u8>)
    ensures
        decode_i8(i8_bytes(v8) + rest) == Decoded::Ok((v8, rest)),
        decode_i16(i16_bytes(v16) + rest) == Decoded::Ok((v16, rest)),
        decode_i32(i32_bytes(v32) + rest) == Decoded::Ok((v32, rest)),
        decode_i64(i64_bytes(v64) + rest) == Decoded::Ok((v64, rest)),
{
    lemma_round_trip_unsigned(v8 as u8, v16 as u16, v32 as u32, v64 as u64, rest);
    assert(((v8 as u8) as i8) == v8) by (bit_vector);
    assert(((v16 as u16) as i16) == v16) by (bit_vector);
    assert(((v32 as u32) as i32) == v32) by (bit_vector);
    assert(((v64 as u64) as i64) == v64) by (bit_vector);
}

/// A character read back from its encoding is the character encoded.
pub proof fn lemma_round_trip_char(c: char, rest: Seq<u8>)
    ensures
        decode_char(char_bytes(c) + rest) == Decoded::Ok((c, rest)),
{
    lemma_round_trip_unsigned(0, 0, c as u32, 0, rest);
    char_is_scalar(c);
    char_u32_cast(c, c as u32);
}

/// A string whose bytes do not hold the sentinel, read back from its
/// encoding, is the string encoded.
pub proof fn lemma_round_trip_str(s: Seq<char>, rest: Seq<u8>)
    requires
        sentinel_free(s),
    ensures
        decode_str(str_bytes(s) + rest) == Decoded::Ok((s, rest)),
{
    let text = encode_utf8(s);
    let b = str_bytes(s) + rest;
    let n = text.len() as int;
    assert(b[n] == EOT);
    assert(b.contains(EOT));
    assert forall|j: int| 0 <= j < n implies b[j] != EOT by {
        assert(b[j] == text[j]);
        if text[j] == EOT {
            assert(text.contains(EOT));
        }
    }
    assert(first_sentinel(b, n));
    let k = choose|k: int| first_sentinel(b, k);
    assert(k == n);
    assert(b.take(n) =~= text);
    assert(b.skip(n + 1) =~= rest);
    encode_utf8_valid_utf8(s);
    encode_utf8_decode_utf8(s);
}

/// A value decoded on its own, from exactly its encoding, is the value
/// encoded, and nothing is left.
pub proof fn lemma_round_trip_whole_fixed(b: bool, c: char, v8: u8, v16: u16, v32: u32, v64: u64, s8: i8, s16: i16, s32: i32, s64: i64)
    ensures
        in_scope(decode_bool(bool_bytes(b)), bool_bytes(b), 1, true) == Decoded::Ok((b, Seq::<u8>::empty())),
        in_scope(decode_u8(u8_bytes(v8)), u8_bytes(v8), 1, true) == Decoded::Ok((v8, Seq::<u8>::empty())),
        in_scope(decode_u16(u16_bytes(v16)), u16_bytes(v16), 2, true) == Decoded::Ok((v16, Seq::<u8>::empty())),
        in_scope(decode_u32(u32_bytes(v32)), u32_bytes(v32), 4, true) == Decoded::Ok((v32, Seq::<u8>::empty())),
        in_scope(decode_u64(u64_bytes(v64)), u64_bytes(v64), 8, true) == Decoded::Ok((v64, Seq::<u8>::empty())),
        in_scope(decode_i8(i8_bytes(s8)), i8_bytes(s8), 1, true) == Decoded::Ok((s8, Seq::<u8>::empty())),
        in_scope(decode_i16(i16_bytes(s16)), i16_bytes(s16), 2, true) == Decoded::Ok((s16, Seq::<u8>::empty())),
        in_scope(decode_i32(i32_bytes(s32)), i32_bytes(s32), 4, true) == Decoded::Ok((s32, Seq::<u8>::empty())),
        in_scope(decode_i64(i64_bytes(s64)), i64_bytes(s64), 8, true) == Decoded::Ok((s64, Seq::<u8>::empty())),
        in_scope(decode_char(char_bytes(c)), char_bytes(c), 4, true) == Decoded::Ok((c, Seq::<u8>::empty())),
{
    let e = Seq::<u8>::empty();
    lemma_fixed_widths(b, c, v8, v16, v32, v64, s8, s16, s32, s64);
    lemma_round_trip_bool(b, e);
    lemma_round_trip_unsigned(v8, v16, v32, v64, e);
    lemma_round_trip_signed(s8, s16, s32, s64, e);
    lemma_round_trip_char(c, e);
    assert(bool_bytes(b) + e =~= bool_bytes(b));
    assert(u8_bytes(v8) + e =~= u8_bytes(v8));
    assert(u16_bytes(v16) + e =~= u16_bytes(v16));
    assert(u32_bytes(v32) + e =~= u32_bytes(v32));
    assert(u64_bytes(v64) + e =~= u64_bytes(v64));
    assert(i8_bytes(s8) + e =~= i8_bytes(s8));
    assert(i16_bytes(s16) + e =~= i16_bytes(s16));
    assert(i32_bytes(s32) + e =~= i32_bytes(s32));
    assert(i64_bytes(s64) + e =~= i64_bytes(s64));
    assert(char_bytes(c) + e =~= char_bytes(c));
}

/// A string decoded on its own, from exactly its encoding, is the string
/// encoded: the sentinel is the last byte, whatever the text holds.
pub proof fn lemma_round_trip_whole_str(s: Seq<char>)
    ensures
        decode_whole_str(str_bytes(s)) == Decoded::Ok((s, Seq::<u8>::empty())),
{
    assert(str_bytes(s).drop_last() =~= encode_utf8(s));
    encode_utf8_valid_utf8(s);
    encode_utf8_decode_utf8(s);
}

/// A whole scope whose last byte is the sentinel, but whose bytes before it
/// are not UTF-8, is refused as malformed text.
pub proof fn lemma_malformed_whole_text(b: Seq<u8>)
    requires
        b.len() > 0,
        b.last() == EOT,
        !valid_utf8(b.drop_last()),
    ensures
        decode_whole_str(b) == Decoded::<Seq<char>>::Err(Error::InvalidUtf8),
{
}

/// Bytes up to the first sentinel that are not UTF-8 are refused as
/// malformed text, whatever follows the sentinel.
pub proof fn lemma_malformed_text(b: Seq<u8>, i: int)
    requires
        first_sentinel(b, i),
        !valid_utf8(b.take(i)),
    ensures
        decode_str(b) == Decoded::<Seq<char>>::Err(Error::InvalidUtf8),
{
    assert(b.contains(EOT));
    let k = choose|k: int| first_sentinel(b, k);
    assert(k == i);
}

/// The presence byte of an optional value reads back as written, and what
/// follows it is the inner value's encoding, if any, then `rest`.
pub proof fn lemma_round_trip_option(inner: Option<Seq<u8>>, rest: Seq<u8>)
    ensures
        decode_option(option_bytes(inner) + rest) == match inner {
            None => Decoded::Ok((false, rest)),
            Some(b) => Decoded::Ok((true, b + rest)),
        },
{
    match inner {
        None => {
            assert((option_bytes(inner) + rest).skip(1) =~= rest);
        },
        Some(b) => {
            assert((option_bytes(inner) + rest).skip(1) =~= b + rest);
        },
    }
}

/// The length of a sequence or map, or the field count of a variant, reads
/// back as written.
pub proof fn lemma_round_trip_len(n: usize, rest: Seq<u8>)
    ensures
        decode_len(len_bytes(n) + rest) == Decoded::Ok((n, rest)),
{
    lemma_round_trip_unsigned(0, 0, 0, n as u64, rest);
}

/// The index of a declared variant reads back as written.
pub proof fn lemma_round_trip_variant(index: u32, count: u32, rest: Seq<u8>)
    requires
        index < count,
    ensures
        decode_variant(variant_bytes(index) + rest, count) == Decoded::Ok((index, rest)),
{
    lemma_round_trip_unsigned(0, 0, index, 0, rest);
}

/// Round trip among parts: a value that the layout can carry, encoded and
/// then read from the front as its own shape, comes back unchanged, and the
/// bytes after its encoding are left as they were.
pub proof fn lemma_round_trip_value(v: Value, s: Shape, rest: Seq<u8>)
    requires
        has_shape(v, s),
    ensures
        decode_value(encode_value(v) + rest, s, false) == Decoded::Ok((v, rest)),
    decreases v,
{
    let b = encode_value(v) + rest;
    match v {
        Value::Bool(x) => lemma_round_trip_bool(x, rest),
        Value::U8(x) => lemma_round_trip_unsigned(x, 0, 0, 0, rest),
        Value::U16(x) => lemma_round_trip_unsigned(0, x, 0, 0, rest),
        Value::U32(x) => lemma_round_trip_unsigned(0, 0, x, 0, rest),
        Value::U64(x) => lemma_round_trip_unsigned(0, 0, 0, x, rest),
        Value::I8(x) => lemma_round_trip_signed(x, 0, 0, 0, rest),
        Value::I16(x) => lemma_round_trip_signed(0, x, 0, 0, rest),
        Value::I32(x) => lemma_round_trip_signed(0, 0, x, 0, rest),
        Value::I64(x) => lemma_round_trip_signed(0, 0, 0, x, rest),
        Value::Char(c) => lemma_round_trip_char(c, rest),
        Value::Str(x) => lemma_round_trip_str(x, rest),
        Value::Unit => {
            assert(b =~= rest);
        },
        Value::Absent => lemma_round_trip_option(None, rest),
        Value::Present(x) => {
            let inner = s->Option_0;
            lemma_round_trip_option(Some(encode_value(*x)), rest);
            lemma_round_trip_value(*x, *inner, rest);
        },
        Value::List(vs) => {
            let n = values_len(*vs);
            assert(b =~= len_bytes(n as usize) + (encode_values(*vs) + rest));
            lemma_round_trip_len(n as usize, encode_values(*vs) + rest);
            lemma_round_trip_list(*vs, *s->List_0, rest);
        },
        Value::Dict(vs) => {
            let n = values_len(*vs);
            assert(b =~= len_bytes(n as usize) + (encode_values(*vs) + rest));
            lemma_round_trip_len(n as usize, encode_values(*vs) + rest);
            lemma_round_trip_list(*vs, *s->Dict_0, rest);
        },
        Value::Tuple(vs) => {
            lemma_round_trip_fields(*vs, *s->Tuple_0, rest);
        },
        Value::UnitVariant(i) => {
            let variants = *s->Enum_0;
            lemma_variant_at(variants, i as nat, rest, i, false);
            lemma_round_trip_variant(i, variants_len(variants) as u32, rest);
        },
        Value::NewtypeVariant(i, x) => {
            let variants = *s->Enum_0;
            let after = encode_value(*x) + rest;
            assert(b =~= variant_bytes(i) + after);
            lemma_variant_at(variants, i as nat, after, i, false);
            lemma_round_trip_variant(i, variants_len(variants) as u32, after);
            let inner = variant_at(variants, i as nat)->Some_0->Newtype_0;
            lemma_round_trip_value(*x, *inner, rest);
        },
        Value::FieldsVariant(i, vs) => {
            let variants = *s->Enum_0;
            let n = values_len(*vs);
            let fields = *variant_at(variants, i as nat)->Some_0->Fields_0;
            let after = len_bytes(n as usize) + (encode_values(*vs) + rest);
            assert(b =~= variant_bytes(i) + after);
            lemma_variant_at(variants, i as nat, after, i, false);
            lemma_round_trip_variant(i, variants_len(variants) as u32, after);
            lemma_round_trip_len(n as usize, encode_values(*vs) + rest);
            lemma_round_trip_fields(*vs, fields, rest);
        },
    }
}

/// Round trip: a value that the layout can carry, encoded on its own and
/// decoded as its own shape from exactly those bytes, comes back unchanged.
pub proof fn lemma_round_trip_top(v: Value, s: Shape)
    requires
        has_shape(v, s),
    ensures
        decode_value(encode_value(v), s, true) == Decoded::Ok((v, Seq::<u8>::empty())),
    decreases v,
{
    let e = Seq::<u8>::empty();
    let b = encode_value(v);
    assert(b + e =~= b);
    match v {
        Value::Bool(x) => lemma_round_trip_whole_fixed(x, 'a', 0, 0, 0, 0, 0, 0, 0, 0),
        Value::U8(x) => lemma_round_trip_whole_fixed(true, 'a', x, 0, 0, 0, 0, 0, 0, 0),
        Value::U16(x) => lemma_round_trip_whole_fixed(true, 'a', 0, x, 0, 0, 0, 0, 0, 0),
        Value::U32(x) => lemma_round_trip_whole_fixed(true, 'a', 0, 0, x, 0, 0, 0, 0, 0),
        Value::U64(x) => lemma_round_trip_whole_fixed(true, 'a', 0, 0, 0, x, 0, 0, 0, 0),
        Value::I8(x) => lemma_round_trip_whole_fixed(true, 'a', 0, 0, 0, 0, x, 0, 0, 0),
        Value::I16(x) => lemma_round_trip_whole_fixed(true, 'a', 0, 0, 0, 0, 0, x, 0, 0),
        Value::I32(x) => lemma_round_trip_whole_fixed(true, 'a', 0, 0, 0, 0, 0, 0, x, 0),
        Value::I64(x) => lemma_round_trip_whole_fixed(true, 'a', 0, 0, 0, 0, 0, 0, 0, x),
        Value::Char(c) => lemma_round_trip_whole_fixed(true, c, 0, 0, 0, 0, 0, 0, 0, 0),
        Value::Str(x) => lemma_round_trip_whole_str(x),
        Value::Absent => {
            lemma_round_trip_option(None, e);
        },
        Value::Present(x) => {
            lemma_round_trip_option(Some(encode_value(*x)), e);
            lemma_round_trip_top(*x, *s->Option_0);
        },
        Value::UnitVariant(i) => {
            let variants = *s->Enum_0;
            lemma_variant_at(variants, i as nat, e, i, true);
            lemma_round_trip_variant(i, variants_len(variants) as u32, e);
        },
        Value::NewtypeVariant(i, x) => {
            let variants = *s->Enum_0;
            let after = encode_value(*x);
            assert(b =~= variant_bytes(i) + after);
            lemma_variant_at(variants, i as nat, after, i, true);
            lemma_round_trip_variant(i, variants_len(variants) as u32, after);
            let inner = variant_at(variants, i as nat)->Some_0->Newtype_0;
            lemma_round_trip_top(*x, *inner);
        },
        Value::FieldsVariant(i, vs) => {
            let variants = *s->Enum_0;
            let n = values_len(*vs);
            let after = len_bytes(n as usize) + (encode_values(*vs) + e);
            assert(b + e =~= variant_bytes(i) + after);
            lemma_round_trip_value(v, s, e);
            lemma_variant_at(variants, i as nat, after, i, true);
            lemma_variant_at(variants, i as nat, after, i, false);
            lemma_round_trip_variant(i, variants_len(variants) as u32, after);
        },
        Value::Unit => {},
        Value::List(_) => {
            lemma_round_trip_value(v, s, e);
        },
        Value::Dict(_) => {
            lemma_round_trip_value(v, s, e);
        },
        Value::Tuple(_) => {
            lemma_round_trip_value(v, s, e);
        },
    }
}

/// The values of a list, each of shape `elem`, read back one after the other.
proof fn lemma_round_trip_list(vs: Values, elem: Shape, rest: Seq<u8>)
    requires
        all_have_shape(vs, elem),
    ensures
        decode_list(encode_values(vs) + rest, elem, values_len(vs)) == Decoded::Ok((vs, rest)),
    decreases vs,
{
    match vs {
        Values::Nil => {
            assert(encode_values(vs) + rest =~= rest);
        },
        Values::Cons(h, t) => {
            let after = encode_values(*t) + rest;
            assert(encode_values(vs) + rest =~= encode_value(*h) + after);
            lemma_round_trip_value(*h, elem, after);
            lemma_round_trip_list(*t, elem, rest);
        },
    }
}

/// The fields of a tuple or record, read back one after the other.
proof fn lemma_round_trip_fields(vs: Values, fields: Shapes, rest: Seq<u8>)
    requires
        fields_have_shapes(vs, fields),
    ensures
        decode_fields(encode_values(vs) + rest, fields) == Decoded::Ok((vs, rest)),
        values_len(vs) == shapes_len(fields),
    decreases vs,
{
    match vs {
        Values::Nil => {
            assert(encode_values(vs) + rest =~= rest);
        },
        Values::Cons(h, t) => {
            let after = encode_values(*t) + rest;
            assert(encode_values(vs) + rest =~= encode_value(*h) + after);
            lemma_round_trip_value(*h, *fields->Cons_0, after);
            lemma_round_trip_fields(*t, *fields->Cons_1, rest);
        },
    }
}

/// The `k`-th variant is found where the decoder looks for it.
proof fn lemma_variant_at(variants: Variants, k: nat, b: Seq<u8>, index: u32, whole: bool)
    requires
        variant_at(variants, k) is Some,
    ensures
        k < variants_len(variants),
        decode_payload(b, variants, index, k, whole) == decode_variant_payload(
            b,
            variant_at(variants, k)->Some_0,
            index,
            whole,
        ),
    decreases variants,
{
    match variants {
        Variants::Nil => {},
        Variants::Cons(_, t) => {
            if k > 0 {
                lemma_variant_at(*t, (k - 1) as nat, b, index, whole);
            }
        },
    }
}

} // verus!
