use flatcodec::byte_buffer::deserializer::{Deserializer, Error as DeError};
use flatcodec::byte_buffer::serializer::{Error as SerError, Serializer};
use flatcodec::byte_buffer::EOT;

#[test]
fn fixed_widths() {
    assert_eq!(Serializer::serialize_bool(true).len(), 1);
    assert_eq!(Serializer::serialize_bool(false).len(), 1);
    assert_eq!(Serializer::serialize_u8(200).len(), 1);
    assert_eq!(Serializer::serialize_i8(-3).len(), 1);
    assert_eq!(Serializer::serialize_u16(513).len(), 2);
    assert_eq!(Serializer::serialize_i16(-513).len(), 2);
    assert_eq!(Serializer::serialize_u32(7).len(), 4);
    assert_eq!(Serializer::serialize_i32(-7).len(), 4);
    assert_eq!(Serializer::serialize_char('z').len(), 4);
    assert_eq!(Serializer::serialize_u32(1.5f32.to_bits()).len(), 4);
    assert_eq!(Serializer::serialize_u64(7).len(), 8);
    assert_eq!(Serializer::serialize_i64(-7).len(), 8);
    assert_eq!(Serializer::serialize_u64(2.25f64.to_bits()).len(), 8);
}

#[test]
fn integers_are_little_endian() {
    assert_eq!(Serializer::serialize_bool(true), vec![1]);
    assert_eq!(Serializer::serialize_bool(false), vec![0]);
    assert_eq!(Serializer::serialize_u16(0x0102), vec![2, 1]);
    assert_eq!(Serializer::serialize_u32(0x01020304), vec![4, 3, 2, 1]);
    assert_eq!(
        Serializer::serialize_u64(0x0102030405060708),
        vec![8, 7, 6, 5, 4, 3, 2, 1]
    );
    assert_eq!(Serializer::serialize_i8(-1), vec![255]);
    assert_eq!(Serializer::serialize_i16(-2), vec![254, 255]);
    assert_eq!(Serializer::serialize_i32(-1), vec![255, 255, 255, 255]);
    assert_eq!(Serializer::serialize_i64(i64::MIN), vec![0, 0, 0, 0, 0, 0, 0, 128]);
    assert_eq!(Serializer::serialize_char('A'), vec![65, 0, 0, 0]);
    assert_eq!(Serializer::serialize_char('é'), vec![0xe9, 0, 0, 0]);
}

#[test]
fn string_sentinel() {
    let buf = Serializer::serialize_str("abc");
    assert_eq!(buf, vec![b'a', b'b', b'c', EOT]);
    let mut de = Deserializer::new(&buf);
    assert_eq!(de.deserialize_str(), Ok("abc"));
    assert_eq!(de.end(), Ok(()));

    let mut missing = Deserializer::new(b"abc");
    assert_eq!(missing.deserialize_str(), Err(DeError::EotNotFound));
    let mut empty = Deserializer::new(&[]);
    assert_eq!(empty.deserialize_str(), Err(DeError::EotNotFound));
}

#[test]
fn string_utf8_round_trip() {
    let buf = Serializer::serialize_str("héllo ✓");
    assert_eq!(buf.len(), "héllo ✓".len() + 1);
    let mut de = Deserializer::new(&buf);
    assert_eq!(de.deserialize_str(), Ok("héllo ✓"));
    assert_eq!(de.end(), Ok(()));

    let empty = Serializer::serialize_str("");
    assert_eq!(empty, vec![EOT]);
    assert_eq!(Deserializer::new(&empty).deserialize_str(), Ok(""));
}

#[test]
fn strings_follow_each_other() {
    let mut s = Serializer::new();
    s.serialize_element(&Serializer::serialize_str("ab"));
    s.serialize_element(&Serializer::serialize_str("cd"));
    let buf = s.end();
    let mut de = Deserializer::new(&buf);
    de.begin_parts();
    assert_eq!(de.deserialize_str(), Ok("ab"));
    assert_eq!(de.deserialize_str(), Ok("cd"));
    assert_eq!(de.end(), Ok(()));
}

#[test]
fn malformed_text() {
    let mut de = Deserializer::new(&[0xff, 0xfe, EOT]);
    assert_eq!(de.deserialize_str(), Err(DeError::InvalidUtf8));
    let mut truncated = Deserializer::new(&[0xe2, 0x9c, EOT]);
    assert_eq!(truncated.deserialize_str(), Err(DeError::InvalidUtf8));
}

#[test]
fn option_encoding() {
    assert_eq!(Serializer::serialize_none(), vec![0]);
    assert_eq!(
        Serializer::serialize_some(&Serializer::serialize_u8(7)),
        vec![1, 7]
    );

    let mut absent = Deserializer::new(&[0]);
    assert_eq!(absent.deserialize_option(), Ok(false));
    assert_eq!(absent.end(), Ok(()));

    let mut present = Deserializer::new(&[1, 7]);
    assert_eq!(present.deserialize_option(), Ok(true));
    assert_eq!(present.deserialize_u8(), Ok(7));
    assert_eq!(present.end(), Ok(()));

    assert_eq!(
        Deserializer::new(&[2]).deserialize_option(),
        Err(DeError::InvalidValue)
    );
    assert_eq!(
        Deserializer::new(&[]).deserialize_option(),
        Err(DeError::EmptyBuffer)
    );
}

#[test]
fn sequence_length_framing() {
    let mut s = Serializer::serialize_seq(Some(3)).unwrap();
    for v in [10u8, 20, 30] {
        s.serialize_element(&Serializer::serialize_u8(v));
    }
    let buf = s.end();
    assert_eq!(buf, vec![3, 0, 0, 0, 0, 0, 0, 0, 10, 20, 30]);

    let mut de = Deserializer::new(&buf);
    let n = de.deserialize_len().unwrap();
    assert_eq!(n, 3);
    de.begin_parts();
    let mut items = Vec::new();
    for _ in 0..n {
        items.push(de.deserialize_u8().unwrap());
    }
    assert_eq!(items, vec![10, 20, 30]);
    assert_eq!(de.end(), Ok(()));
}

#[test]
fn map_length_framing() {
    let mut s = Serializer::serialize_map(Some(1)).unwrap();
    s.serialize_element(&Serializer::serialize_str("k"));
    s.serialize_element(&Serializer::serialize_u16(9));
    let buf = s.end();
    assert_eq!(buf, vec![1, 0, 0, 0, 0, 0, 0, 0, b'k', EOT, 9, 0]);

    let mut de = Deserializer::new(&buf);
    assert_eq!(de.deserialize_len(), Ok(1));
    de.begin_parts();
    assert_eq!(de.deserialize_str(), Ok("k"));
    assert_eq!(de.deserialize_u16(), Ok(9));
    assert_eq!(de.end(), Ok(()));
}

#[test]
fn unsized_containers() {
    assert!(matches!(Serializer::serialize_seq(None), Err(SerError::UnsizedSeq)));
    assert!(matches!(Serializer::serialize_map(None), Err(SerError::UnsizedMap)));
}

#[test]
fn variant_index() {
    assert_eq!(Serializer::serialize_unit_variant(1), vec![1, 0, 0, 0]);
    assert_eq!(
        Deserializer::new(&[1, 0, 0, 0]).deserialize_enum(2),
        Ok(1)
    );
    assert_eq!(
        Deserializer::new(&[99, 0, 0, 0]).deserialize_enum(2),
        Err(DeError::InvalidValue)
    );
    assert_eq!(
        Deserializer::new(&[1, 0]).deserialize_enum(2),
        Err(DeError::WrongDeserializeType)
    );
}

#[test]
fn newtype_variant() {
    let buf = Serializer::serialize_newtype_variant(2, &Serializer::serialize_i16(-5));
    assert_eq!(buf, vec![2, 0, 0, 0, 251, 255]);
    let mut de = Deserializer::new(&buf);
    assert_eq!(de.deserialize_enum(3), Ok(2));
    assert_eq!(de.deserialize_i16(), Ok(-5));
    assert_eq!(de.end(), Ok(()));
}

#[test]
fn tuple_variant() {
    let mut s = Serializer::serialize_tuple_variant(1, 2);
    s.serialize_element(&Serializer::serialize_bool(true));
    s.serialize_element(&Serializer::serialize_char('x'));
    let buf = s.end();
    assert_eq!(
        buf,
        vec![1, 0, 0, 0, 2, 0, 0, 0, 0, 0, 0, 0, 1, b'x', 0, 0, 0]
    );
    let mut de = Deserializer::new(&buf);
    assert_eq!(de.deserialize_enum(2), Ok(1));
    assert_eq!(de.deserialize_field_count(2), Ok(()));
    de.begin_parts();
    assert_eq!(de.deserialize_bool(), Ok(true));
    assert_eq!(de.deserialize_char(), Ok('x'));
    assert_eq!(de.end(), Ok(()));
}

#[test]
fn record_has_no_prefix() {
    let mut s = Serializer::new();
    s.serialize_element(&Serializer::serialize_u32(5));
    s.serialize_element(&Serializer::serialize_unit());
    s.serialize_element(&Serializer::serialize_i8(-1));
    let buf = s.end();
    assert_eq!(buf, vec![5, 0, 0, 0, 255]);
    assert_eq!(Serializer::default().end(), Vec::<u8>::new());
}

#[test]
fn primitives_round_trip() {
    let mut s = Serializer::new();
    s.serialize_element(&Serializer::serialize_bool(false));
    s.serialize_element(&Serializer::serialize_u8(255));
    s.serialize_element(&Serializer::serialize_u16(65535));
    s.serialize_element(&Serializer::serialize_u32(123456789));
    s.serialize_element(&Serializer::serialize_u64(u64::MAX - 1));
    s.serialize_element(&Serializer::serialize_i8(i8::MIN));
    s.serialize_element(&Serializer::serialize_i16(-300));
    s.serialize_element(&Serializer::serialize_i32(i32::MIN));
    s.serialize_element(&Serializer::serialize_i64(-1234567890123));
    s.serialize_element(&Serializer::serialize_char('✓'));
    s.serialize_element(&Serializer::serialize_u32((-0.5f32).to_bits()));
    s.serialize_element(&Serializer::serialize_u64(1e100f64.to_bits()));
    s.serialize_element(&Serializer::serialize_bytes(&[9, 8, 7]));
    let buf = s.end();

    let mut de = Deserializer::new(&buf);
    de.begin_parts();
    assert_eq!(de.deserialize_bool(), Ok(false));
    assert_eq!(de.deserialize_u8(), Ok(255));
    assert_eq!(de.deserialize_u16(), Ok(65535));
    assert_eq!(de.deserialize_u32(), Ok(123456789));
    assert_eq!(de.deserialize_u64(), Ok(u64::MAX - 1));
    assert_eq!(de.deserialize_i8(), Ok(i8::MIN));
    assert_eq!(de.deserialize_i16(), Ok(-300));
    assert_eq!(de.deserialize_i32(), Ok(i32::MIN));
    assert_eq!(de.deserialize_i64(), Ok(-1234567890123));
    assert_eq!(de.deserialize_char(), Ok('✓'));
    assert_eq!(f32::from_bits(de.deserialize_u32().unwrap()), -0.5f32);
    assert_eq!(f64::from_bits(de.deserialize_u64().unwrap()), 1e100f64);
    assert_eq!(de.deserialize_bytes(), &[9u8, 8, 7][..]);
    assert_eq!(de.end(), Ok(()));
}

#[test]
fn shape_mismatch() {
    let mut short = Deserializer::new(&[1, 2, 3]);
    short.begin_parts();
    assert_eq!(short.deserialize_u32(), Err(DeError::WrongDeserializeType));
    assert_eq!(short.deserialize_u16(), Ok(0x0201));

    let mut long = Deserializer::new(&[1, 0, 0, 0, 5]);
    long.begin_parts();
    assert_eq!(long.deserialize_u32(), Ok(1));
    assert_eq!(long.end(), Err(DeError::WrongDeserializeType));

    assert_eq!(
        Deserializer::new(&[]).deserialize_bool(),
        Err(DeError::WrongDeserializeType)
    );
    let mut parts = Deserializer::new(&[1; 7]);
    parts.begin_parts();
    assert_eq!(parts.deserialize_u64(), Err(DeError::WrongDeserializeType));
}

#[test]
fn whole_scope_fixed_width() {
    assert_eq!(
        Deserializer::new(&[5, 0]).deserialize_bool(),
        Err(DeError::WrongDeserializeType)
    );
    assert_eq!(
        Deserializer::new(&[1, 0]).deserialize_bool(),
        Err(DeError::WrongDeserializeType)
    );
    assert_eq!(Deserializer::new(&[1]).deserialize_bool(), Ok(true));
    assert_eq!(
        Deserializer::new(&[1, 0, 0, 0, 5]).deserialize_u32(),
        Err(DeError::WrongDeserializeType)
    );
    assert_eq!(
        Deserializer::new(&[1, 2, 3]).deserialize_u32(),
        Err(DeError::WrongDeserializeType)
    );
    assert_eq!(
        Deserializer::new(&[0, 0xD8, 0, 0, 1]).deserialize_char(),
        Err(DeError::WrongDeserializeType)
    );
    let mut exact = Deserializer::new(&[0xfe, 0xff, 0xff, 0xff, 0xff, 0xff, 0xff, 0xff]);
    assert_eq!(exact.deserialize_i64(), Ok(-2));
    assert_eq!(exact.end(), Ok(()));
}

#[test]
fn whole_scope_string() {
    assert_eq!(
        Deserializer::new(&[4, 98]).deserialize_str(),
        Err(DeError::EotNotFound)
    );
    assert_eq!(
        Deserializer::new(&[97, 4, 98]).deserialize_str(),
        Err(DeError::EotNotFound)
    );
    assert_eq!(
        Deserializer::new(&[4, 0xff, 4]).deserialize_str(),
        Err(DeError::InvalidUtf8)
    );
    assert_eq!(
        Deserializer::new(&[0xc3, 0x28, 4]).deserialize_str(),
        Err(DeError::InvalidUtf8)
    );
    let mut inner = Deserializer::new(&[97, 4, 98, 4]);
    assert_eq!(inner.deserialize_str(), Ok("a\u{4}b"));
    assert_eq!(inner.end(), Ok(()));
}

#[test]
fn whole_scope_option_and_unit() {
    let mut absent = Deserializer::new(&[0, 9, 9]);
    assert_eq!(absent.deserialize_option(), Ok(false));
    assert_eq!(absent.end(), Ok(()));

    let mut nested = Deserializer::new(&[0, 9]);
    nested.begin_parts();
    assert_eq!(nested.deserialize_option(), Ok(false));
    assert_eq!(nested.deserialize_u8(), Ok(9));

    let mut present = Deserializer::new(&[1, 7, 0]);
    assert_eq!(present.deserialize_option(), Ok(true));
    assert_eq!(present.deserialize_u8(), Err(DeError::WrongDeserializeType));

    assert_eq!(Deserializer::new(&[]).deserialize_unit(), Ok(()));
    assert_eq!(
        Deserializer::new(&[1]).deserialize_unit(),
        Err(DeError::WrongDeserializeType)
    );
    let mut parts = Deserializer::new(&[1]);
    parts.begin_parts();
    assert_eq!(parts.deserialize_unit(), Ok(()));
    assert_eq!(parts.deserialize_u8(), Ok(1));
}

#[test]
fn variant_field_count() {
    let buf = Serializer::serialize_tuple_variant(0, 3).end();
    let mut de = Deserializer::new(&buf);
    assert_eq!(de.deserialize_enum(1), Ok(0));
    assert_eq!(de.deserialize_field_count(2), Err(DeError::InvalidValue));
    assert_eq!(de.deserialize_field_count(3), Ok(()));
    assert_eq!(de.end(), Ok(()));
}

#[test]
fn invalid_values() {
    assert_eq!(
        Deserializer::new(&[2]).deserialize_bool(),
        Err(DeError::InvalidValue)
    );
    let surrogate = Serializer::serialize_u32(0xD800);
    assert_eq!(
        Deserializer::new(&surrogate).deserialize_char(),
        Err(DeError::InvalidValue)
    );
    let too_big = Serializer::serialize_u32(0x110000);
    assert_eq!(
        Deserializer::new(&too_big).deserialize_char(),
        Err(DeError::InvalidValue)
    );
}

#[test]
fn failed_read_leaves_the_view() {
    let mut de = Deserializer::new(&[2, 1]);
    de.begin_parts();
    assert_eq!(de.deserialize_bool(), Err(DeError::InvalidValue));
    assert_eq!(de.deserialize_u8(), Ok(2));
    assert_eq!(de.deserialize_bool(), Ok(true));
    assert_eq!(de.end(), Ok(()));
}

#[test]
fn unit_and_any() {
    assert_eq!(Serializer::serialize_unit(), Vec::<u8>::new());
    let de = Deserializer::new(&[]);
    assert_eq!(de.end(), Ok(()));
    assert_eq!(de.deserialize_any(), DeError::DeserializeAny);
}

#[test]
fn bytes_take_the_rest() {
    assert_eq!(Serializer::serialize_bytes(&[1, 2, 3]), vec![1, 2, 3]);
    let mut de = Deserializer::new(&[0, 1, 2, 3]);
    de.begin_parts();
    assert_eq!(de.deserialize_u8(), Ok(0));
    assert_eq!(de.deserialize_bytes(), &[1u8, 2, 3][..]);
    assert_eq!(de.deserialize_bytes(), &[][..]);
    assert_eq!(de.end(), Ok(()));
}
