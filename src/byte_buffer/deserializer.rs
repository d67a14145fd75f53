//! The decoder. A `Deserializer` holds the bytes not yet read; each
//! `deserialize_*` method reads one value of the kind the caller asks for
//! from the front and narrows the view past it, so that the parts of a
//! composite value are read one after the other. A call that fails leaves
//! the view as it was.
use vstd::bytes::{
    spec_u16_from_le_bytes, spec_u32_from_le_bytes, spec_u64_from_le_bytes, u16_from_le_bytes,
    u32_from_le_bytes, u64_from_le_bytes,
};
use vstd::prelude::*;
use vstd::slice::slice_subrange;
use vstd::string::StringSliceAdditionalSpecFns;
use vstd::utf8::{decode_utf8, encode_utf8_decode_utf8, is_scalar, valid_utf8};

use super::EOT;

verus! {

/// Why bytes could not be decoded as the value asked for.
#[derive(Debug, PartialEq)]
pub enum Error {
    /// A failure reported by the consumer of the decoded values.
    Custom(String),
    /// The caller asked for a value without saying of what kind.
    DeserializeAny,
    /// Too few bytes for the kind asked for, or bytes left after the value.
    WrongDeserializeType,
    /// No sentinel where a string was asked for.
    EotNotFound,
    /// No byte where the presence byte of an optional value was asked for.
    EmptyBuffer,
    /// Bytes outside the domain of the kind: a boolean or presence byte
    /// other than 0 and 1, a number that is no Unicode scalar value, a
    /// variant index past the last variant, a length over the word size, a
    /// field count other than the variant's.
    InvalidValue,
    /// The bytes of a string are not UTF-8.
    InvalidUtf8,
}

/// The outcome of reading one value from the front of some bytes: the value
/// and what is left after it, or an error.
pub type Decoded<T> = Result<(T, Seq<u8>), Error>;

/// `r`, returned by a call that read from `before` and left `after`, agrees
/// with the outcome `d`: on success the value, with the rest left to read;
/// on failure the error, with nothing consumed.
pub open spec fn reads<T>(d: Decoded<T>, r: Result<T, Error>, before: Seq<u8>, after: Seq<u8>) -> bool {
    match d {
        Ok((v, rest)) => r == Ok::<T, Error>(v) && after == rest,
        Err(e) => r == Err::<T, Error>(e) && after == before,
    }
}

/// The first `n` bytes, and what follows them.
pub open spec fn decode_fixed(b: Seq<u8>, n: nat) -> Decoded<Seq<u8>> {
    if b.len() < n {
        Err(Error::WrongDeserializeType)
    } else {
        Ok((b.take(n as int), b.skip(n as int)))
    }
}

pub open spec fn decode_bool(b: Seq<u8>) -> Decoded<bool> {
    if b.len() < 1 {
        Err(Error::WrongDeserializeType)
    } else if b[0] == 0 {
        Ok((false, b.skip(1)))
    } else if b[0] == 1 {
        Ok((true, b.skip(1)))
    } else {
        Err(Error::InvalidValue)
    }
}

pub open spec fn decode_u8(b: Seq<u8>) -> Decoded<u8> {
    if b.len() < 1 {
        Err(Error::WrongDeserializeType)
    } else {
        Ok((b[0], b.skip(1)))
    }
}

pub open spec fn decode_u16(b: Seq<u8>) -> Decoded<u16> {
    if b.len() < 2 {
        Err(Error::WrongDeserializeType)
    } else {
        Ok((spec_u16_from_le_bytes(b.take(2)), b.skip(2)))
    }
}

pub open spec fn decode_u32(b: Seq<u8>) -> Decoded<u32> {
    if b.len() < 4 {
        Err(Error::WrongDeserializeType)
    } else {
        Ok((spec_u32_from_le_bytes(b.take(4)), b.skip(4)))
    }
}

pub open spec fn decode_u64(b: Seq<u8>) -> Decoded<u64> {
    if b.len() < 8 {
        Err(Error::WrongDeserializeType)
    } else {
        Ok((spec_u64_from_le_bytes(b.take(8)), b.skip(8)))
    }
}

pub open spec fn decode_i8(b: Seq<u8>) -> Decoded<i8> {
    match decode_u8(b) {
        Ok((v, rest)) => Ok((v as i8, rest)),
        Err(e) => Err(e),
    }
}

pub open spec fn decode_i16(b: Seq<u8>) -> Decoded<i16> {
    match decode_u16(b) {
        Ok((v, rest)) => Ok((v as i16, rest)),
        Err(e) => Err(e),
    }
}

pub open spec fn decode_i32(b: Seq<u8>) -> Decoded<i32> {
    match decode_u32(b) {
        Ok((v, rest)) => Ok((v as i32, rest)),
        Err(e) => Err(e),
    }
}

pub open spec fn decode_i64(b: Seq<u8>) -> Decoded<i64> {
    match decode_u64(b) {
        Ok((v, rest)) => Ok((v as i64, rest)),
        Err(e) => Err(e),
    }
}

pub open spec fn decode_char(b: Seq<u8>) -> Decoded<char> {
    match decode_u32(b) {
        Ok((v, rest)) => if is_scalar(v) {
            Ok((v as char, rest))
        } else {
            Err(Error::InvalidValue)
        },
        Err(e) => Err(e),
    }
}

/// `i` is the position of the first sentinel in `b`.
pub open spec fn first_sentinel(b: Seq<u8>, i: int) -> bool {
    &&& 0 <= i < b.len()
    &&& b[i] == EOT
    &&& forall|j: int| 0 <= j < i ==> b[j] != EOT
}

/// A string: the UTF-8 text up to the first sentinel, which is consumed too.
pub open spec fn decode_str(b: Seq<u8>) -> Decoded<Seq<char>> {
    if !b.contains(EOT) {
        Err(Error::EotNotFound)
    } else {
        let i = choose|i: int| first_sentinel(b, i);
        if valid_utf8(b.take(i)) {
            Ok((decode_utf8(b.take(i)), b.skip(i + 1)))
        } else {
            Err(Error::InvalidUtf8)
        }
    }
}

/// The presence byte of an optional value.
pub open spec fn decode_option(b: Seq<u8>) -> Decoded<bool> {
    if b.len() < 1 {
        Err(Error::EmptyBuffer)
    } else if b[0] == 0 {
        Ok((false, b.skip(1)))
    } else if b[0] == 1 {
        Ok((true, b.skip(1)))
    } else {
        Err(Error::InvalidValue)
    }
}

/// The length of a sequence or map, or the field count of a variant.
pub open spec fn decode_len(b: Seq<u8>) -> Decoded<usize> {
    match decode_u64(b) {
        Ok((v, rest)) => if v <= usize::MAX {
            Ok((v as usize, rest))
        } else {
            Err(Error::InvalidValue)
        },
        Err(e) => Err(e),
    }
}

/// The index of a variant of a tagged union with `count` variants.
pub open spec fn decode_variant(b: Seq<u8>, count: u32) -> Decoded<u32> {
    match decode_u32(b) {
        Ok((v, rest)) => if v < count {
            Ok((v, rest))
        } else {
            Err(Error::InvalidValue)
        },
        Err(e) => Err(e),
    }
}

/// Relies on `std::str::from_utf8`: it succeeds exactly on valid UTF-8, and
/// the string it returns has the given bytes.
#[verifier::external_body]
fn str_from_utf8<'a>(b: &'a [u8]) -> (r: Option<&'a str>)
    ensures
        r is Some <==> valid_utf8(b@),
        r matches Some(s) ==> s.spec_bytes() == b@,
{
    std::str::from_utf8(b).ok()
}

/// Relies on `char::from_u32`: the character with that scalar value, if
/// there is one.
#[verifier::external_body]
fn char_from_u32(v: u32) -> (r: Option<char>)
    ensures
        r == (if is_scalar(v) { Some(v as char) } else { None::<char> }),
{
    char::from_u32(v)
}

/// The field count of a tuple- or record-shaped variant, which must be
/// `expected`, the number of fields the caller asks for.
pub open spec fn decode_field_count(b: Seq<u8>, expected: usize) -> Decoded<()> {
    match decode_len(b) {
        Ok((n, rest)) => if n == expected {
            Ok(((), rest))
        } else {
            Err(Error::InvalidValue)
        },
        Err(e) => Err(e),
    }
}

/// A value of fixed `width` read from `b`, whose outcome from the front is
/// `d`. A value that makes up a whole scope must take exactly `width`
/// bytes: any other length is a wrong shape, found before the value is.
pub open spec fn in_scope<T>(d: Decoded<T>, b: Seq<u8>, width: nat, whole: bool) -> Decoded<T> {
    if whole && b.len() != width {
        Err(Error::WrongDeserializeType)
    } else {
        d
    }
}

/// A string that makes up a whole scope: the scope must end in the
/// sentinel, and every byte before it must be UTF-8.
pub open spec fn decode_whole_str(b: Seq<u8>) -> Decoded<Seq<char>> {
    if b.len() == 0 || b.last() != EOT {
        Err(Error::EotNotFound)
    } else if valid_utf8(b.drop_last()) {
        Ok((decode_utf8(b.drop_last()), Seq::empty()))
    } else {
        Err(Error::InvalidUtf8)
    }
}

pub open spec fn decode_str_in(b: Seq<u8>, whole: bool) -> Decoded<Seq<char>> {
    if whole {
        decode_whole_str(b)
    } else {
        decode_str(b)
    }
}

/// The presence byte of an optional value. In a whole scope, an absent
/// value ends the scope, and the bytes after it are passed over.
pub open spec fn decode_option_in(b: Seq<u8>, whole: bool) -> Decoded<bool> {
    match decode_option(b) {
        Ok((false, rest)) => Ok((false, if whole { Seq::empty() } else { rest })),
        d => d,
    }
}

/// The unit value takes no bytes; as a whole scope it must be empty.
pub open spec fn decode_unit_in(b: Seq<u8>, whole: bool) -> Decoded<()> {
    if whole && b.len() != 0 {
        Err(Error::WrongDeserializeType)
    } else {
        Ok(((), b))
    }
}

/// A view over bytes to be decoded.
///
/// The view is in one of two modes. At first it is a whole scope: the value
/// read next makes up all of it, as a value decoded on its own does, and the
/// rules for a whole buffer apply (a fixed-width value takes exactly its
/// width, a string ends in the last byte). Once the parts of a composite
/// value begin (`begin_parts`), values are read one after the other from the
/// front, and what follows each one belongs to its siblings.
pub struct Deserializer<'a> {
    buffer: &'a [u8],
    whole: bool,
}

impl<'a> View for Deserializer<'a> {
    type V = Seq<u8>;

    closed spec fn view(&self) -> Seq<u8> {
        self.buffer@
    }
}

impl<'a> Deserializer<'a> {
    /// Whether the next value makes up all of the bytes left.
    pub closed spec fn whole_scope(&self) -> bool {
        self.whole
    }

    /// A view of `buffer` as one whole value.
    pub fn new(buffer: &'a [u8]) -> (r: Self)
        ensures
            r@ == buffer@,
            r.whole_scope(),
    {
        Deserializer { buffer, whole: true }
    }

    /// Starts the parts of a composite value: from here on, values are read
    /// one after the other from the front.
    pub fn begin_parts(&mut self)
        ensures
            final(self)@ == old(self)@,
            !final(self).whole_scope(),
    {
        self.whole = false;
    }

    /// Refuses a whole scope that is not `n` bytes long.
    fn check_width(&self, n: usize) -> (r: Result<(), Error>)
        ensures
            r is Err <==> self.whole_scope() && self@.len() != n,
            r is Err ==> r == Err::<(), Error>(Error::WrongDeserializeType),
    {
        if self.whole && self.buffer.len() != n {
            Err(Error::WrongDeserializeType)
        } else {
            Ok(())
        }
    }

    /// Takes the first `n` bytes.
    fn take_fixed(&mut self, n: usize) -> (r: Result<&'a [u8], Error>)
        ensures
            final(self).whole_scope() == old(self).whole_scope(),
            match decode_fixed(old(self)@, n as nat) {
                Ok((v, rest)) => r matches Ok(s) && s@ == v && final(self)@ == rest,
                Err(e) => r == Err::<&'a [u8], Error>(e) && final(self)@ == old(self)@,
            },
    {
        let len = self.buffer.len();
        if len < n {
            return Err(Error::WrongDeserializeType);
        }
        let head = slice_subrange(self.buffer, 0, n);
        self.buffer = slice_subrange(self.buffer, n, len);
        proof {
            assert(head@ =~= old(self)@.take(n as int));
            assert(self@ =~= old(self)@.skip(n as int));
        }
        Ok(head)
    }

    pub fn deserialize_bool(&mut self) -> (r: Result<bool, Error>)
        ensures
            final(self).whole_scope() == old(self).whole_scope(),
            reads(
                in_scope(decode_bool(old(self)@), old(self)@, 1, old(self).whole_scope()),
                r,
                old(self)@,
                final(self)@,
            ),
    {
        self.check_width(1)?;
        if self.buffer.len() < 1 {
            return Err(Error::WrongDeserializeType);
        }
        let b = self.buffer[0];
        if b > 1 {
            return Err(Error::InvalidValue);
        }
        let len = self.buffer.len();
        self.buffer = slice_subrange(self.buffer, 1, len);
        proof {
            assert(self@ =~= old(self)@.skip(1));
        }
        Ok(b == 1)
    }

    pub fn deserialize_u8(&mut self) -> (r: Result<u8, Error>)
        ensures
            final(self).whole_scope() == old(self).whole_scope(),
            reads(
                in_scope(decode_u8(old(self)@), old(self)@, 1, old(self).whole_scope()),
                r,
                old(self)@,
                final(self)@,
            ),
    {
        self.check_width(1)?;
        let head = self.take_fixed(1)?;
        Ok(head[0])
    }

    pub fn deserialize_u16(&mut self) -> (r: Result<u16, Error>)
        ensures
            final(self).whole_scope() == old(self).whole_scope(),
            reads(
                in_scope(decode_u16(old(self)@), old(self)@, 2, old(self).whole_scope()),
                r,
                old(self)@,
                final(self)@,
            ),
    {
        self.check_width(2)?;
        let head = self.take_fixed(2)?;
        Ok(u16_from_le_bytes(head))
    }

    pub fn deserialize_u32(&mut self) -> (r: Result<u32, Error>)
        ensures
            final(self).whole_scope() == old(self).whole_scope(),
            reads(
                in_scope(decode_u32(old(self)@), old(self)@, 4, old(self).whole_scope()),
                r,
                old(self)@,
                final(self)@,
            ),
    {
        self.check_width(4)?;
        let head = self.take_fixed(4)?;
        Ok(u32_from_le_bytes(head))
    }

    pub fn deserialize_u64(&mut self) -> (r: Result<u64, Error>)
        ensures
            final(self).whole_scope() == old(self).whole_scope(),
            reads(
                in_scope(decode_u64(old(self)@), old(self)@, 8, old(self).whole_scope()),
                r,
                old(self)@,
                final(self)@,
            ),
    {
        self.check_width(8)?;
        let head = self.take_fixed(8)?;
        Ok(u64_from_le_bytes(head))
    }

    pub fn deserialize_i8(&mut self) -> (r: Result<i8, Error>)
        ensures
            final(self).whole_scope() == old(self).whole_scope(),
            reads(
                in_scope(decode_i8(old(self)@), old(self)@, 1, old(self).whole_scope()),
                r,
                old(self)@,
                final(self)@,
            ),
    {
        let v = self.deserialize_u8()?;
        Ok(v as i8)
    }

    pub fn deserialize_i16(&mut self) -> (r: Result<i16, Error>)
        ensures
            final(self).whole_scope() == old(self).whole_scope(),
            reads(
                in_scope(decode_i16(old(self)@), old(self)@, 2, old(self).whole_scope()),
                r,
                old(self)@,
                final(self)@,
            ),
    {
        let v = self.deserialize_u16()?;
        Ok(v as i16)
    }

    pub fn deserialize_i32(&mut self) -> (r: Result<i32, Error>)
        ensures
            final(self).whole_scope() == old(self).whole_scope(),
            reads(
                in_scope(decode_i32(old(self)@), old(self)@, 4, old(self).whole_scope()),
                r,
                old(self)@,
                final(self)@,
            ),
    {
        let v = self.deserialize_u32()?;
        Ok(v as i32)
    }

    pub fn deserialize_i64(&mut self) -> (r: Result<i64, Error>)
        ensures
            final(self).whole_scope() == old(self).whole_scope(),
            reads(
                in_scope(decode_i64(old(self)@), old(self)@, 8, old(self).whole_scope()),
                r,
                old(self)@,
                final(self)@,
            ),
    {
        let v = self.deserialize_u64()?;
        Ok(v as i64)
    }

    /// A character: a 32-bit number that must be a Unicode scalar value.
    pub fn deserialize_char(&mut self) -> (r: Result<char, Error>)
        ensures
            final(self).whole_scope() == old(self).whole_scope(),
            reads(
                in_scope(decode_char(old(self)@), old(self)@, 4, old(self).whole_scope()),
                r,
                old(self)@,
                final(self)@,
            ),
    {
        let before = self.buffer;
        let v = self.deserialize_u32()?;
        match char_from_u32(v) {
            Some(c) => Ok(c),
            None => {
                self.buffer = before;
                Err(Error::InvalidValue)
            },
        }
    }

    /// A string. As a whole scope: every byte before the last, which must
    /// be the sentinel. Among parts: the text up to the first sentinel, and
    /// the sentinel.
    pub fn deserialize_str(&mut self) -> (r: Result<&'a str, Error>)
        ensures
            final(self).whole_scope() == old(self).whole_scope(),
            match decode_str_in(old(self)@, old(self).whole_scope()) {
                Ok((s, rest)) => r matches Ok(t) && t@ == s && final(self)@ == rest,
                Err(e) => r == Err::<&'a str, Error>(e) && final(self)@ == old(self)@,
            },
    {
        let buf = self.buffer;
        let len = buf.len();
        let end: usize;
        if self.whole {
            if len == 0 || buf[len - 1] != EOT {
                return Err(Error::EotNotFound);
            }
            end = len - 1;
        } else {
            let mut i: usize = 0;
            while i < len && buf[i] != EOT
                invariant
                    i <= len,
                    len == buf@.len(),
                    forall|j: int| 0 <= j < i ==> buf@[j] != EOT,
                decreases len - i,
            {
                i += 1;
            }
            if i == len {
                return Err(Error::EotNotFound);
            }
            proof {
                let k = choose|k: int| first_sentinel(buf@, k);
                assert(first_sentinel(buf@, i as int));
                assert(buf@.contains(EOT));
                assert(k == i);
            }
            end = i;
        }
        let text = slice_subrange(buf, 0, end);
        proof {
            assert(text@ =~= buf@.take(end as int));
            assert(buf@.drop_last() =~= buf@.take(len - 1));
        }
        match str_from_utf8(text) {
            None => Err(Error::InvalidUtf8),
            Some(t) => {
                self.buffer = slice_subrange(buf, end + 1, len);
                proof {
                    encode_utf8_decode_utf8(t@);
                    assert(self@ =~= buf@.skip(end + 1));
                }
                Ok(t)
            },
        }
    }

    /// The presence byte of an optional value: `true` when a value follows.
    /// In a whole scope, an absent value ends it: the rest is passed over.
    pub fn deserialize_option(&mut self) -> (r: Result<bool, Error>)
        ensures
            final(self).whole_scope() == old(self).whole_scope(),
            reads(
                decode_option_in(old(self)@, old(self).whole_scope()),
                r,
                old(self)@,
                final(self)@,
            ),
    {
        if self.buffer.len() < 1 {
            return Err(Error::EmptyBuffer);
        }
        let b = self.buffer[0];
        if b > 1 {
            return Err(Error::InvalidValue);
        }
        let len = self.buffer.len();
        if b == 0 && self.whole {
            self.buffer = slice_subrange(self.buffer, len, len);
            proof {
                assert(self@ =~= Seq::<u8>::empty());
            }
        } else {
            self.buffer = slice_subrange(self.buffer, 1, len);
            proof {
                assert(self@ =~= old(self)@.skip(1));
            }
        }
        Ok(b == 1)
    }

    /// The unit value, which takes no bytes.
    pub fn deserialize_unit(&mut self) -> (r: Result<(), Error>)
        ensures
            final(self).whole_scope() == old(self).whole_scope(),
            reads(decode_unit_in(old(self)@, old(self).whole_scope()), r, old(self)@, final(self)@),
    {
        if self.whole && self.buffer.len() != 0 {
            Err(Error::WrongDeserializeType)
        } else {
            Ok(())
        }
    }

    /// The length of a sequence or a map, read from the front in either
    /// mode: the elements follow it.
    pub fn deserialize_len(&mut self) -> (r: Result<usize, Error>)
        ensures
            final(self).whole_scope() == old(self).whole_scope(),
            reads(decode_len(old(self)@), r, old(self)@, final(self)@),
    {
        let before = self.buffer;
        let head = self.take_fixed(8)?;
        let v = u64_from_le_bytes(head);
        if v > usize::MAX as u64 {
            self.buffer = before;
            return Err(Error::InvalidValue);
        }
        Ok(v as usize)
    }

    /// The field count of a tuple- or record-shaped variant, which must be
    /// `expected`, read from the front in either mode.
    pub fn deserialize_field_count(&mut self, expected: usize) -> (r: Result<(), Error>)
        ensures
            final(self).whole_scope() == old(self).whole_scope(),
            reads(decode_field_count(old(self)@, expected), r, old(self)@, final(self)@),
    {
        let before = self.buffer;
        let n = self.deserialize_len()?;
        if n != expected {
            self.buffer = before;
            return Err(Error::InvalidValue);
        }
        Ok(())
    }

    /// The index of the variant of a tagged union with `variant_count`
    /// declared variants, read from the front in either mode: the payload
    /// follows it.
    pub fn deserialize_enum(&mut self, variant_count: u32) -> (r: Result<u32, Error>)
        ensures
            final(self).whole_scope() == old(self).whole_scope(),
            reads(decode_variant(old(self)@, variant_count), r, old(self)@, final(self)@),
    {
        let before = self.buffer;
        let head = self.take_fixed(4)?;
        let v = u32_from_le_bytes(head);
        if v >= variant_count {
            self.buffer = before;
            return Err(Error::InvalidValue);
        }
        Ok(v)
    }

    /// A byte blob: all that is left, with no framing. It can only stand
    /// last in its scope.
    pub fn deserialize_bytes(&mut self) -> (r: &'a [u8])
        ensures
            final(self).whole_scope() == old(self).whole_scope(),
            r@ == old(self)@,
            final(self)@ == Seq::<u8>::empty(),
    {
        let all = self.buffer;
        let len = self.buffer.len();
        self.buffer = slice_subrange(self.buffer, len, len);
        all
    }

    /// The format does not describe itself: a value of no given kind
    /// cannot be read.
    pub fn deserialize_any(&self) -> (e: Error)
        ensures
            e == Error::DeserializeAny,
    {
        Error::DeserializeAny
    }

    /// Succeeds when every byte has been read; a value followed by more
    /// bytes has the wrong shape.
    pub fn end(&self) -> (r: Result<(), Error>)
        ensures
            r is Ok <==> self@.len() == 0,
            r is Err ==> r == Err::<(), Error>(Error::WrongDeserializeType),
    {
        if self.buffer.len() == 0 {
            Ok(())
        } else {
            Err(Error::WrongDeserializeType)
        }
    }
}

} // verus!
