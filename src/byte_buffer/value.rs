//! A model of whole values and of the shapes that a caller asks the decoder
//! for, with what the layout rules make of them when composed: the encoding
//! of a value, and what decoding bytes as a shape gives. Lists are chained
//! cells, so that each part is structurally smaller than its whole.
use vstd::prelude::*;

use super::deserializer::{
    decode_bool, decode_char, decode_field_count, decode_option_in, decode_str_in, decode_unit_in, in_scope, decode_i16, decode_i32, decode_i64, decode_i8, decode_len,
    decode_u16, decode_u32, decode_u64, decode_u8, decode_variant,
    Decoded, Error,
};
use super::{
    bool_bytes, char_bytes, i16_bytes, i32_bytes, i64_bytes, i8_bytes, len_bytes, option_bytes,
    sentinel_free, str_bytes, u16_bytes, u32_bytes, u64_bytes, u8_bytes, variant_bytes,
};

verus! {

/// A structured value. Byte blobs are left out: having no framing, a blob
/// reads back only where it ends its scope.
pub enum Value {
    Bool(bool),
    U8(u8),
    U16(u16),
    U32(u32),
    U64(u64),
    I8(i8),
    I16(i16),
    I32(i32),
    I64(i64),
    Char(char),
    Str(Seq<char>),
    Unit,
    Absent,
    Present(Box<Value>),
    /// A sequence, length-prefixed.
    List(Box<Values>),
    /// A map, length-prefixed; each entry is a key followed by its value,
    /// laid out as a two-field tuple.
    Dict(Box<Values>),
    /// A tuple, tuple-shaped record or record: its fields, with no prefix.
    Tuple(Box<Values>),
    UnitVariant(u32),
    NewtypeVariant(u32, Box<Value>),
    /// A tuple- or record-shaped variant: index, field count, fields.
    FieldsVariant(u32, Box<Values>),
}

/// A list of values.
pub enum Values {
    Nil,
    Cons(Box<Value>, Box<Values>),
}

/// The kind of value that the caller asks the decoder for.
pub enum Shape {
    Bool,
    U8,
    U16,
    U32,
    U64,
    I8,
    I16,
    I32,
    I64,
    Char,
    Str,
    Unit,
    Option(Box<Shape>),
    /// A sequence whose elements all have the given shape.
    List(Box<Shape>),
    /// A map whose entries all have the given shape.
    Dict(Box<Shape>),
    Tuple(Box<Shapes>),
    /// A tagged union with the given variants, in declaration order.
    Enum(Box<Variants>),
}

/// A list of shapes.
pub enum Shapes {
    Nil,
    Cons(Box<Shape>, Box<Shapes>),
}

/// The payload that a variant carries.
pub enum VariantShape {
    Unit,
    Newtype(Box<Shape>),
    Fields(Box<Shapes>),
}

/// The variants of a tagged union.
pub enum Variants {
    Nil,
    Cons(Box<VariantShape>, Box<Variants>),
}

pub open spec fn values_len(vs: Values) -> nat
    decreases vs,
{
    match vs {
        Values::Nil => 0,
        Values::Cons(_, t) => 1 + values_len(*t),
    }
}

pub open spec fn shapes_len(ss: Shapes) -> nat
    decreases ss,
{
    match ss {
        Shapes::Nil => 0,
        Shapes::Cons(_, t) => 1 + shapes_len(*t),
    }
}

pub open spec fn variants_len(vs: Variants) -> nat
    decreases vs,
{
    match vs {
        Variants::Nil => 0,
        Variants::Cons(_, t) => 1 + variants_len(*t),
    }
}

/// The encoding of a value: the layout rules of its parts, concatenated.
pub open spec fn encode_value(v: Value) -> Seq<u8>
    decreases v,
{
    match v {
        Value::Bool(b) => bool_bytes(b),
        Value::U8(x) => u8_bytes(x),
        Value::U16(x) => u16_bytes(x),
        Value::U32(x) => u32_bytes(x),
        Value::U64(x) => u64_bytes(x),
        Value::I8(x) => i8_bytes(x),
        Value::I16(x) => i16_bytes(x),
        Value::I32(x) => i32_bytes(x),
        Value::I64(x) => i64_bytes(x),
        Value::Char(c) => char_bytes(c),
        Value::Str(s) => str_bytes(s),
        Value::Unit => Seq::empty(),
        Value::Absent => option_bytes(None),
        Value::Present(x) => option_bytes(Some(encode_value(*x))),
        Value::List(vs) => len_bytes(values_len(*vs) as usize) + encode_values(*vs),
        Value::Dict(vs) => len_bytes(values_len(*vs) as usize) + encode_values(*vs),
        Value::Tuple(vs) => encode_values(*vs),
        Value::UnitVariant(i) => variant_bytes(i),
        Value::NewtypeVariant(i, x) => variant_bytes(i) + encode_value(*x),
        Value::FieldsVariant(i, vs) => variant_bytes(i) + len_bytes(values_len(*vs) as usize)
            + encode_values(*vs),
    }
}

/// The encodings of the values of a list, concatenated.
pub open spec fn encode_values(vs: Values) -> Seq<u8>
    decreases vs,
{
    match vs {
        Values::Nil => Seq::empty(),
        Values::Cons(h, t) => encode_value(*h) + encode_values(*t),
    }
}

/// The value that `s` asks for, read from `b`, and what is left after it.
/// When `whole`, the value makes up all of `b`, as a value decoded on its
/// own does (see `Deserializer`); the parts of composite values are read
/// from the front.
pub open spec fn decode_value(b: Seq<u8>, s: Shape, whole: bool) -> Decoded<Value>
    decreases s, 0nat,
{
    match s {
        Shape::Bool => match in_scope(decode_bool(b), b, 1, whole) {
            Ok((x, r)) => Ok((Value::Bool(x), r)),
            Err(e) => Err(e),
        },
        Shape::U8 => match in_scope(decode_u8(b), b, 1, whole) {
            Ok((x, r)) => Ok((Value::U8(x), r)),
            Err(e) => Err(e),
        },
        Shape::U16 => match in_scope(decode_u16(b), b, 2, whole) {
            Ok((x, r)) => Ok((Value::U16(x), r)),
            Err(e) => Err(e),
        },
        Shape::U32 => match in_scope(decode_u32(b), b, 4, whole) {
            Ok((x, r)) => Ok((Value::U32(x), r)),
            Err(e) => Err(e),
        },
        Shape::U64 => match in_scope(decode_u64(b), b, 8, whole) {
            Ok((x, r)) => Ok((Value::U64(x), r)),
            Err(e) => Err(e),
        },
        Shape::I8 => match in_scope(decode_i8(b), b, 1, whole) {
            Ok((x, r)) => Ok((Value::I8(x), r)),
            Err(e) => Err(e),
        },
        Shape::I16 => match in_scope(decode_i16(b), b, 2, whole) {
            Ok((x, r)) => Ok((Value::I16(x), r)),
            Err(e) => Err(e),
        },
        Shape::I32 => match in_scope(decode_i32(b), b, 4, whole) {
            Ok((x, r)) => Ok((Value::I32(x), r)),
            Err(e) => Err(e),
        },
        Shape::I64 => match in_scope(decode_i64(b), b, 8, whole) {
            Ok((x, r)) => Ok((Value::I64(x), r)),
            Err(e) => Err(e),
        },
        Shape::Char => match in_scope(decode_char(b), b, 4, whole) {
            Ok((x, r)) => Ok((Value::Char(x), r)),
            Err(e) => Err(e),
        },
        Shape::Str => match decode_str_in(b, whole) {
            Ok((x, r)) => Ok((Value::Str(x), r)),
            Err(e) => Err(e),
        },
        Shape::Unit => match decode_unit_in(b, whole) {
            Ok((_, r)) => Ok((Value::Unit, r)),
            Err(e) => Err(e),
        },
        Shape::Option(inner) => match decode_option_in(b, whole) {
            Ok((false, r)) => Ok((Value::Absent, r)),
            Ok((true, r)) => match decode_value(r, *inner, whole) {
                Ok((x, r2)) => Ok((Value::Present(Box::new(x)), r2)),
                Err(e) => Err(e),
            },
            Err(e) => Err(e),
        },
        Shape::List(elem) => match decode_len(b) {
            Ok((n, r)) => match decode_list(r, *elem, n as nat) {
                Ok((vs, r2)) => Ok((Value::List(Box::new(vs)), r2)),
                Err(e) => Err(e),
            },
            Err(e) => Err(e),
        },
        Shape::Dict(entry) => match decode_len(b) {
            Ok((n, r)) => match decode_list(r, *entry, n as nat) {
                Ok((vs, r2)) => Ok((Value::Dict(Box::new(vs)), r2)),
                Err(e) => Err(e),
            },
            Err(e) => Err(e),
        },
        Shape::Tuple(fields) => match decode_fields(b, *fields) {
            Ok((vs, r)) => Ok((Value::Tuple(Box::new(vs)), r)),
            Err(e) => Err(e),
        },
        Shape::Enum(variants) => match decode_variant(b, variants_len(*variants) as u32) {
            Ok((i, r)) => decode_payload(r, *variants, i, i as nat, whole),
            Err(e) => Err(e),
        },
    }
}

/// `n` values of shape `elem`, one after the other.
pub open spec fn decode_list(b: Seq<u8>, elem: Shape, n: nat) -> Decoded<Values>
    decreases elem, n,
{
    if n == 0 {
        Ok((Values::Nil, b))
    } else {
        match decode_value(b, elem, false) {
            Ok((h, r)) => match decode_list(r, elem, (n - 1) as nat) {
                Ok((t, r2)) => Ok((Values::Cons(Box::new(h), Box::new(t)), r2)),
                Err(e) => Err(e),
            },
            Err(e) => Err(e),
        }
    }
}

/// One value of each of the given shapes, one after the other.
pub open spec fn decode_fields(b: Seq<u8>, fields: Shapes) -> Decoded<Values>
    decreases fields, 0nat,
{
    match fields {
        Shapes::Nil => Ok((Values::Nil, b)),
        Shapes::Cons(h, t) => match decode_value(b, *h, false) {
            Ok((x, r)) => match decode_fields(r, *t) {
                Ok((xs, r2)) => Ok((Values::Cons(Box::new(x), Box::new(xs)), r2)),
                Err(e) => Err(e),
            },
            Err(e) => Err(e),
        },
    }
}

/// The payload of variant `index`, which is the `k`-th of `variants`.
pub open spec fn decode_payload(b: Seq<u8>, variants: Variants, index: u32, k: nat, whole: bool) -> Decoded<Value>
    decreases variants, 0nat,
{
    match variants {
        Variants::Nil => Err(Error::InvalidValue),
        Variants::Cons(h, t) => if k > 0 {
            decode_payload(b, *t, index, (k - 1) as nat, whole)
        } else {
            decode_variant_payload(b, *h, index, whole)
        },
    }
}

/// The payload of variant `index`, whose payload has shape `variant`. A
/// tuple- or record-shaped payload must hold as many fields as the shape.
pub open spec fn decode_variant_payload(b: Seq<u8>, variant: VariantShape, index: u32, whole: bool) -> Decoded<Value>
    decreases variant, 0nat,
{
    match variant {
        VariantShape::Unit => Ok((Value::UnitVariant(index), b)),
        VariantShape::Newtype(inner) => match decode_value(b, *inner, whole) {
            Ok((x, r)) => Ok((Value::NewtypeVariant(index, Box::new(x)), r)),
            Err(e) => Err(e),
        },
        VariantShape::Fields(fields) => match decode_field_count(b, shapes_len(*fields) as usize) {
            Ok((_, r)) => match decode_fields(r, *fields) {
                Ok((xs, r2)) => Ok((Value::FieldsVariant(index, Box::new(xs)), r2)),
                Err(e) => Err(e),
            },
            Err(e) => Err(e),
        },
    }
}

/// The `k`-th of `variants`, if there are that many.
pub open spec fn variant_at(variants: Variants, k: nat) -> Option<VariantShape>
    decreases variants,
{
    match variants {
        Variants::Nil => None,
        Variants::Cons(h, t) => if k == 0 {
            Some(*h)
        } else {
            variant_at(*t, (k - 1) as nat)
        },
    }
}

/// `v` is a value of shape `s` that the layout can carry: its strings do not
/// hold the sentinel, its lengths fit a machine word, and each tagged union
/// has at most as many variants as a 32-bit index can tell apart.
pub open spec fn has_shape(v: Value, s: Shape) -> bool
    decreases v,
{
    match v {
        Value::Bool(_) => s is Bool,
        Value::U8(_) => s is U8,
        Value::U16(_) => s is U16,
        Value::U32(_) => s is U32,
        Value::U64(_) => s is U64,
        Value::I8(_) => s is I8,
        Value::I16(_) => s is I16,
        Value::I32(_) => s is I32,
        Value::I64(_) => s is I64,
        Value::Char(_) => s is Char,
        Value::Str(x) => s is Str && sentinel_free(x),
        Value::Unit => s is Unit,
        Value::Absent => s is Option,
        Value::Present(x) => match s {
            Shape::Option(inner) => has_shape(*x, *inner),
            _ => false,
        },
        Value::List(vs) => match s {
            Shape::List(elem) => values_len(*vs) <= usize::MAX && all_have_shape(*vs, *elem),
            _ => false,
        },
        Value::Dict(vs) => match s {
            Shape::Dict(entry) => values_len(*vs) <= usize::MAX && all_have_shape(*vs, *entry),
            _ => false,
        },
        Value::Tuple(vs) => match s {
            Shape::Tuple(fields) => fields_have_shapes(*vs, *fields),
            _ => false,
        },
        Value::UnitVariant(i) => match s {
            Shape::Enum(variants) => variants_len(*variants) <= u32::MAX && variant_at(
                *variants,
                i as nat,
            ) == Some(VariantShape::Unit),
            _ => false,
        },
        Value::NewtypeVariant(i, x) => match s {
            Shape::Enum(variants) => variants_len(*variants) <= u32::MAX && match variant_at(
                *variants,
                i as nat,
            ) {
                Some(VariantShape::Newtype(inner)) => has_shape(*x, *inner),
                _ => false,
            },
            _ => false,
        },
        Value::FieldsVariant(i, vs) => match s {
            Shape::Enum(variants) => variants_len(*variants) <= u32::MAX && values_len(*vs)
                <= usize::MAX && match variant_at(*variants, i as nat) {
                Some(VariantShape::Fields(fields)) => fields_have_shapes(*vs, *fields),
                _ => false,
            },
            _ => false,
        },
    }
}

/// Every value of `vs` has shape `elem`.
pub open spec fn all_have_shape(vs: Values, elem: Shape) -> bool
    decreases vs,
{
    match vs {
        Values::Nil => true,
        Values::Cons(h, t) => has_shape(*h, elem) && all_have_shape(*t, elem),
    }
}

/// The values of `vs` have the shapes of `fields`, one for one.
pub open spec fn fields_have_shapes(vs: Values, fields: Shapes) -> bool
    decreases vs,
{
    match vs {
        Values::Nil => fields is Nil,
        Values::Cons(h, t) => match fields {
            Shapes::Cons(sh, st) => has_shape(*h, *sh) && fields_have_shapes(*t, *st),
            Shapes::Nil => false,
        },
    }
}

} // verus!
