//! The decoder: consumes the wire form of one shape after another from the
//! front of a byte buffer that it borrows.

use crate::error::Error;
use crate::format::{
    after_fixed, read_bool, read_bytes, read_char, read_int, read_option_tag, read_str, read_uint,
};
use crate::wire::{
    bits_to_signed, lemma_radix_values, lemma_single_byte, lemma_uint_value_bound, take_uint,
    ByteOrder,
};
use vstd::prelude::*;
use vstd::slice::slice_to_vec;
use vstd::utf8::{decode_utf8, is_scalar, valid_utf8};

verus! {

/// The error of `std::str::from_utf8`. Nothing is read from it: that it
/// came back is all the library needs.
#[verifier::external_type_specification]
#[verifier::external_body]
pub struct ExUtf8Error(std::str::Utf8Error);

/// `char::from_u32`: the character with the given code point. The claim is
/// that there is one exactly when the code is a Unicode scalar value, that
/// is at most `0x10FFFF` and no surrogate, and that it then has that code.
#[verifier::external_body]
fn char_from_code(code: u32) -> (found: Option<char>)
    ensures
        found is Some <==> is_scalar(code),
        found matches Some(c) ==> c as u32 == code,
{
    char::from_u32(code)
}

/// `std::str::from_utf8`: the bytes seen as text, without a copy. The claim
/// is that this succeeds exactly when the bytes are valid UTF-8, and that the
/// text is then what the bytes decode to.
#[verifier::external_body]
fn text_from_utf8<'a>(bytes: &'a [u8]) -> (found: Result<&'a str, std::str::Utf8Error>)
    ensures
        found is Ok <==> valid_utf8(bytes@),
        found matches Ok(text) ==> text@ == decode_utf8(bytes@),
{
    std::str::from_utf8(bytes)
}

/// A forward-only cursor over a borrowed byte buffer.
pub struct Decoder<'de> {
    /// The input that has not been consumed yet.
    pub buf: &'de [u8],
    /// The order in which fixed-width numbers are laid out.
    pub order: ByteOrder,
}

/// A cursor over the elements of one aggregate: a decoder together with the
/// number of elements, or of pairs, that are still to come.
pub struct LimitedDecoder<'a, 'de> {
    /// The decoder that the elements are read from.
    pub this: &'a mut Decoder<'de>,
    /// How many elements, or pairs, are left.
    pub len: usize,
}

impl<'de> Decoder<'de> {
    /// The input that has not been consumed yet.
    pub open spec fn remaining(&self) -> Seq<u8> {
        self.buf@
    }

    /// A decoder over `buf` that reads in the byte order of this machine.
    pub fn new(buf: &'de [u8]) -> (dec: Self)
        ensures
            dec.remaining() == buf@,
    {
        Decoder { buf, order: ByteOrder::native() }
    }

    /// A decoder over `buf` that reads in the given byte order.
    pub fn with_order(buf: &'de [u8], order: ByteOrder) -> (dec: Self)
        ensures
            dec.remaining() == buf@,
            dec.order == order,
    {
        Decoder { buf, order }
    }

    /// Splits `count` bytes off the front of the input. Where fewer are
    /// left, nothing is consumed.
    fn split_front(&mut self, count: usize) -> (taken: Result<&'de [u8], Error>)
        ensures
            final(self).order == old(self).order,
            final(self).remaining() == after_fixed(old(self).remaining(), count as nat),
            old(self).remaining().len() >= count ==> (taken matches Ok(bytes) && bytes@ == old(self).remaining().take(count as int)),
            old(self).remaining().len() < count ==> (taken matches Err(e) && e
                == Error::MissingData),
    {
        if count > self.buf.len() {
            Err(Error::MissingData)
        } else {
            let (front, back) = self.buf.split_at(count);
            self.buf = back;
            Ok(front)
        }
    }

    /// Reads a signed 8-bit number: 1 byte in two's complement. Where
    /// fewer are left the read fails with `MissingData` and consumes nothing.
    pub fn decode_i8(&mut self) -> (read: Result<i8, Error>)
        ensures
            final(self).order == old(self).order,
            final(self).remaining() == after_fixed(old(self).remaining(), 1),
            match read_int(old(self).order, old(self).remaining(), 1) {
                Ok((value, _)) => read matches Ok(v) && v == value,
                Err(why) => read matches Err(e) && e == why,
            },
    {
        let bytes = self.split_front(1)?;
        proof {
            lemma_radix_values();
            lemma_uint_value_bound(self.order, bytes@);
        }
        Ok(bits_to_signed(take_uint(bytes, self.order), 1) as i8)
    }

    /// Reads a signed 16-bit number: 2 bytes in two's complement. Where
    /// fewer are left the read fails with `MissingData` and consumes nothing.
    pub fn decode_i16(&mut self) -> (read: Result<i16, Error>)
        ensures
            final(self).order == old(self).order,
            final(self).remaining() == after_fixed(old(self).remaining(), 2),
            match read_int(old(self).order, old(self).remaining(), 2) {
                Ok((value, _)) => read matches Ok(v) && v == value,
                Err(why) => read matches Err(e) && e == why,
            },
    {
        let bytes = self.split_front(2)?;
        proof {
            lemma_radix_values();
            lemma_uint_value_bound(self.order, bytes@);
        }
        Ok(bits_to_signed(take_uint(bytes, self.order), 2) as i16)
    }

    /// Reads a signed 32-bit number: 4 bytes in two's complement. Where
    /// fewer are left the read fails with `MissingData` and consumes nothing.
    pub fn decode_i32(&mut self) -> (read: Result<i32, Error>)
        ensures
            final(self).order == old(self).order,
            final(self).remaining() == after_fixed(old(self).remaining(), 4),
            match read_int(old(self).order, old(self).remaining(), 4) {
                Ok((value, _)) => read matches Ok(v) && v == value,
                Err(why) => read matches Err(e) && e == why,
            },
    {
        let bytes = self.split_front(4)?;
        proof {
            lemma_radix_values();
            lemma_uint_value_bound(self.order, bytes@);
        }
        Ok(bits_to_signed(take_uint(bytes, self.order), 4) as i32)
    }

    /// Reads a signed 64-bit number: 8 bytes in two's complement. Where
    /// fewer are left the read fails with `MissingData` and consumes nothing.
    pub fn decode_i64(&mut self) -> (read: Result<i64, Error>)
        ensures
            final(self).order == old(self).order,
            final(self).remaining() == after_fixed(old(self).remaining(), 8),
            match read_int(old(self).order, old(self).remaining(), 8) {
                Ok((value, _)) => read matches Ok(v) && v == value,
                Err(why) => read matches Err(e) && e == why,
            },
    {
        let bytes = self.split_front(8)?;
        proof {
            lemma_radix_values();
            lemma_uint_value_bound(self.order, bytes@);
        }
        Ok(bits_to_signed(take_uint(bytes, self.order), 8) as i64)
    }

    /// Reads a signed 128-bit number: 16 bytes in two's complement. Where
    /// fewer are left the read fails with `MissingData` and consumes nothing.
    pub fn decode_i128(&mut self) -> (read: Result<i128, Error>)
        ensures
            final(self).order == old(self).order,
            final(self).remaining() == after_fixed(old(self).remaining(), 16),
            match read_int(old(self).order, old(self).remaining(), 16) {
                Ok((value, _)) => read matches Ok(v) && v == value,
                Err(why) => read matches Err(e) && e == why,
            },
    {
        let bytes = self.split_front(16)?;
        proof {
            lemma_radix_values();
            lemma_uint_value_bound(self.order, bytes@);
        }
        Ok(bits_to_signed(take_uint(bytes, self.order), 16) as i128)
    }

    /// Reads an unsigned 8-bit number: 1 byte. Where fewer are left
    /// the read fails with `MissingData` and consumes nothing.
    pub fn decode_u8(&mut self) -> (read: Result<u8, Error>)
        ensures
            final(self).order == old(self).order,
            final(self).remaining() == after_fixed(old(self).remaining(), 1),
            match read_uint(old(self).order, old(self).remaining(), 1) {
                Ok((value, _)) => read matches Ok(v) && v == value,
                Err(why) => read matches Err(e) && e == why,
            },
    {
        let bytes = self.split_front(1)?;
        proof {
            lemma_radix_values();
            lemma_uint_value_bound(self.order, bytes@);
        }
        Ok(take_uint(bytes, self.order) as u8)
    }

    /// Reads an unsigned 16-bit number: 2 bytes. Where fewer are left
    /// the read fails with `MissingData` and consumes nothing.
    pub fn decode_u16(&mut self) -> (read: Result<u16, Error>)
        ensures
            final(self).order == old(self).order,
            final(self).remaining() == after_fixed(old(self).remaining(), 2),
            match read_uint(old(self).order, old(self).remaining(), 2) {
                Ok((value, _)) => read matches Ok(v) && v == value,
                Err(why) => read matches Err(e) && e == why,
            },
    {
        let bytes = self.split_front(2)?;
        proof {
            lemma_radix_values();
            lemma_uint_value_bound(self.order, bytes@);
        }
        Ok(take_uint(bytes, self.order) as u16)
    }

    /// Reads an unsigned 32-bit number: 4 bytes. Where fewer are left
    /// the read fails with `MissingData` and consumes nothing.
    pub fn decode_u32(&mut self) -> (read: Result<u32, Error>)
        ensures
            final(self).order == old(self).order,
            final(self).remaining() == after_fixed(old(self).remaining(), 4),
            match read_uint(old(self).order, old(self).remaining(), 4) {
                Ok((value, _)) => read matches Ok(v) && v == value,
                Err(why) => read matches Err(e) && e == why,
            },
    {
        let bytes = self.split_front(4)?;
        proof {
            lemma_radix_values();
            lemma_uint_value_bound(self.order, bytes@);
        }
        Ok(take_uint(bytes, self.order) as u32)
    }

    /// Reads an unsigned 64-bit number: 8 bytes. Where fewer are left
    /// the read fails with `MissingData` and consumes nothing.
    pub fn decode_u64(&mut self) -> (read: Result<u64, Error>)
        ensures
            final(self).order == old(self).order,
            final(self).remaining() == after_fixed(old(self).remaining(), 8),
            match read_uint(old(self).order, old(self).remaining(), 8) {
                Ok((value, _)) => read matches Ok(v) && v == value,
                Err(why) => read matches Err(e) && e == why,
            },
    {
        let bytes = self.split_front(8)?;
        proof {
            lemma_radix_values();
            lemma_uint_value_bound(self.order, bytes@);
        }
        Ok(take_uint(bytes, self.order) as u64)
    }

    /// Reads an unsigned 128-bit number: 16 bytes. Where fewer are left
    /// the read fails with `MissingData` and consumes nothing.
    pub fn decode_u128(&mut self) -> (read: Result<u128, Error>)
        ensures
            final(self).order == old(self).order,
            final(self).remaining() == after_fixed(old(self).remaining(), 16),
            match read_uint(old(self).order, old(self).remaining(), 16) {
                Ok((value, _)) => read matches Ok(v) && v == value,
                Err(why) => read matches Err(e) && e == why,
            },
    {
        let bytes = self.split_front(16)?;
        proof {
            lemma_radix_values();
            lemma_uint_value_bound(self.order, bytes@);
        }
        Ok(take_uint(bytes, self.order) as u128)
    }

    /// Reads a byte string: a length in four bytes, then that many bytes,
    /// handed out as a slice of the input without a copy. Where the length or
    /// the bytes are cut short the read fails with `MissingData`; the length,
    /// once read, stays consumed.
    pub fn decode_bytes(&mut self) -> (read: Result<&'de [u8], Error>)
        ensures
            final(self).order == old(self).order,
            match read_bytes(old(self).order, old(self).remaining()) {
                Ok((payload, rest)) => read matches Ok(bytes) && bytes@ == payload && final(self).remaining() == rest,
                Err(why) => read matches Err(e) && e == why && final(self).remaining()
                    == after_fixed(old(self).remaining(), 4),
            },
    {
        let len = self.decode_u32()?;
        let ghost rest = self.remaining();
        let bytes = self.split_front(len as usize)?;
        assert(self.remaining() == rest.skip(len as int));
        Ok(bytes)
    }

    /// A read that needs the input to describe its own shape: not supported.
    pub fn deserialize_any(&self) -> (refusal: Error)
        ensures
            refusal == Error::NotSupported,
    {
        Error::NotSupported
    }

    /// A read that skips a value of unknown shape: not supported.
    pub fn deserialize_ignored_any(&self) -> (refusal: Error)
        ensures
            refusal == Error::NotSupported,
    {
        Error::NotSupported
    }

    /// A read of an identifier: not supported.
    pub fn deserialize_identifier(&self) -> (refusal: Error)
        ensures
            refusal == Error::NotSupported,
    {
        Error::NotSupported
    }

    /// Reads a boolean: one byte, `0` for false and `1` for true. Any other
    /// byte fails with `InvalidBool`, and is consumed.
    pub fn deserialize_bool(&mut self) -> (read: Result<bool, Error>)
        ensures
            final(self).order == old(self).order,
            final(self).remaining() == after_fixed(old(self).remaining(), 1),
            match read_bool(old(self).remaining()) {
                Ok((value, _)) => read matches Ok(v) && v == value,
                Err(why) => read matches Err(e) && e == why,
            },
    {
        let ghost first = old(self).remaining().take(1);
        let byte = self.decode_u8()?;
        proof {
            assert(first =~= seq![first[0]]);
            lemma_single_byte(self.order, first[0]);
        }
        if byte == 0 {
            Ok(false)
        } else if byte == 1 {
            Ok(true)
        } else {
            Err(Error::InvalidBool)
        }
    }

    /// Reads a character: a code point in four bytes. A code that is no
    /// Unicode scalar value fails with `InvalidChar`, and is consumed.
    pub fn deserialize_char(&mut self) -> (read: Result<char, Error>)
        ensures
            final(self).order == old(self).order,
            final(self).remaining() == after_fixed(old(self).remaining(), 4),
            match read_char(old(self).order, old(self).remaining()) {
                Ok((value, _)) => read matches Ok(v) && v == value,
                Err(why) => read matches Err(e) && e == why,
            },
    {
        let code = self.decode_u32()?;
        match char_from_code(code) {
            Some(value) => {
                proof {
                    vstd::utf8::char_u32_cast(value, code);
                }
                Ok(value)
            },
            None => Err(Error::InvalidChar),
        }
    }

    /// Reads a byte string and hands it out as a slice of the input.
    pub fn deserialize_bytes(&mut self) -> (read: Result<&'de [u8], Error>)
        ensures
            final(self).order == old(self).order,
            match read_bytes(old(self).order, old(self).remaining()) {
                Ok((payload, rest)) => read matches Ok(bytes) && bytes@ == payload && final(self).remaining() == rest,
                Err(why) => read matches Err(e) && e == why && final(self).remaining()
                    == after_fixed(old(self).remaining(), 4),
            },
    {
        self.decode_bytes()
    }

    /// Reads a byte string and hands it out as a buffer of its own.
    pub fn deserialize_byte_buf(&mut self) -> (read: Result<Vec<u8>, Error>)
        ensures
            final(self).order == old(self).order,
            match read_bytes(old(self).order, old(self).remaining()) {
                Ok((payload, rest)) => read matches Ok(bytes) && bytes@ == payload && final(self).remaining() == rest,
                Err(why) => read matches Err(e) && e == why && final(self).remaining()
                    == after_fixed(old(self).remaining(), 4),
            },
    {
        let bytes = self.decode_bytes()?;
        Ok(slice_to_vec(bytes))
    }

    /// Reads a text string: a byte string whose bytes are UTF-8, handed out
    /// as a slice of the input. Bytes that are not UTF-8 fail with
    /// `InvalidStr`, and are consumed.
    pub fn deserialize_str(&mut self) -> (read: Result<&'de str, Error>)
        ensures
            final(self).order == old(self).order,
            final(self).remaining() == match read_bytes(old(self).order, old(self).remaining()) {
                Ok((_, rest)) => rest,
                Err(_) => after_fixed(old(self).remaining(), 4),
            },
            match read_str(old(self).order, old(self).remaining()) {
                Ok((value, _)) => read matches Ok(text) && text@ == value,
                Err(why) => read matches Err(e) && e == why,
            },
    {
        let bytes = self.decode_bytes()?;
        match text_from_utf8(bytes) {
            Ok(text) => Ok(text),
            Err(_) => Err(Error::InvalidStr),
        }
    }

    /// Reads a text string and hands it out as a string of its own.
    pub fn deserialize_string(&mut self) -> (read: Result<String, Error>)
        ensures
            final(self).order == old(self).order,
            final(self).remaining() == match read_bytes(old(self).order, old(self).remaining()) {
                Ok((_, rest)) => rest,
                Err(_) => after_fixed(old(self).remaining(), 4),
            },
            match read_str(old(self).order, old(self).remaining()) {
                Ok((value, _)) => read matches Ok(text) && text@ == value,
                Err(why) => read matches Err(e) && e == why,
            },
    {
        let text = self.deserialize_str()?;
        Ok(text.to_owned())
    }

    /// Reads the unit value: nothing.
    pub fn deserialize_unit(&mut self)
        ensures
            *final(self) == *old(self),
    {
    }

    /// Reads a record without fields: nothing.
    pub fn deserialize_unit_struct(&mut self, _name: &'static str)
        ensures
            *final(self) == *old(self),
    {
    }

    /// Reads the presence byte of an optional value: `0` for absent, `1` for
    /// present, and then the caller reads the inner value next. Any other
    /// byte fails with `InvalidOption`, and is consumed.
    pub fn deserialize_option(&mut self) -> (read: Result<bool, Error>)
        ensures
            final(self).order == old(self).order,
            final(self).remaining() == after_fixed(old(self).remaining(), 1),
            match read_option_tag(old(self).remaining()) {
                Ok((present, _)) => read matches Ok(p) && p == present,
                Err(why) => read matches Err(e) && e == why,
            },
    {
        let ghost first = old(self).remaining().take(1);
        let byte = self.decode_u8()?;
        proof {
            assert(first =~= seq![first[0]]);
            lemma_single_byte(self.order, first[0]);
        }
        if byte == 0 {
            Ok(false)
        } else if byte == 1 {
            Ok(true)
        } else {
            Err(Error::InvalidOption)
        }
    }

    /// Opens a sequence: reads its element count, four bytes, and hands out
    /// a cursor over that many elements.
    pub fn deserialize_seq(&mut self) -> (read: Result<LimitedDecoder<'_, 'de>, Error>)
        ensures
            match read_uint(old(self).order, old(self).remaining(), 4) {
                Ok((count, rest)) => read matches Ok(elements) && elements.len == count
                    && elements.this.remaining() == rest && elements.this.order == old(self).order
                    && *final(self) == *final(elements.this),
                Err(why) => read matches Err(e) && e == why && final(self).order == old(self).order
                    && final(self).remaining() == old(self).remaining(),
            },
    {
        let len = self.decode_u32()?;
        Ok(self.deserialize_tuple(len as usize))
    }

    /// Opens a tuple of `len` fields: reads nothing, and hands out a cursor
    /// over that many elements.
    pub fn deserialize_tuple(&mut self, len: usize) -> (elements: LimitedDecoder<'_, 'de>)
        ensures
            elements.len == len,
            *elements.this == *old(self),
            *final(self) == *final(elements.this),
    {
        LimitedDecoder { this: self, len }
    }

    /// Opens a named tuple of `len` fields: reads nothing.
    pub fn deserialize_tuple_struct(&mut self, _name: &'static str, len: usize) -> (elements:
        LimitedDecoder<'_, 'de>)
        ensures
            elements.len == len,
            *elements.this == *old(self),
            *final(self) == *final(elements.this),
    {
        self.deserialize_tuple(len)
    }

    /// Opens a map: reads its pair count, four bytes, and hands out a cursor
    /// over that many pairs.
    pub fn deserialize_map(&mut self) -> (read: Result<LimitedDecoder<'_, 'de>, Error>)
        ensures
            match read_uint(old(self).order, old(self).remaining(), 4) {
                Ok((count, rest)) => read matches Ok(pairs) && pairs.len == count
                    && pairs.this.remaining() == rest && pairs.this.order == old(self).order
                    && *final(self) == *final(pairs.this),
                Err(why) => read matches Err(e) && e == why && final(self).order == old(self).order
                    && final(self).remaining() == old(self).remaining(),
            },
    {
        let len = self.decode_u32()?;
        Ok(LimitedDecoder { this: self, len: len as usize })
    }

    /// Opens a record with the given fields: reads nothing, and hands out a
    /// cursor over one element for each field.
    pub fn deserialize_struct(
        &mut self,
        _name: &'static str,
        fields: &'static [&'static str],
    ) -> (elements: LimitedDecoder<'_, 'de>)
        ensures
            elements.len == fields@.len(),
            *elements.this == *old(self),
            *final(self) == *final(elements.this),
    {
        self.deserialize_tuple(fields.len())
    }

    /// The format is binary: types that have a denser form may use it.
    pub fn is_human_readable(&self) -> (readable: bool)
        ensures
            !readable,
    {
        false
    }

    /// Reads the index of a variant: four bytes. Which variant that is, and
    /// whether there is one, is for the caller to say.
    pub fn variant_seed(&mut self) -> (read: Result<u32, Error>)
        ensures
            final(self).order == old(self).order,
            final(self).remaining() == after_fixed(old(self).remaining(), 4),
            match read_uint(old(self).order, old(self).remaining(), 4) {
                Ok((index, _)) => read matches Ok(v) && v == index,
                Err(why) => read matches Err(e) && e == why,
            },
    {
        self.decode_u32()
    }

    /// Reads the payload of a variant that holds nothing: nothing.
    pub fn unit_variant(&mut self)
        ensures
            *final(self) == *old(self),
    {
    }

    /// Opens the payload of a variant that holds a tuple of `len` fields.
    pub fn tuple_variant(&mut self, len: usize) -> (elements: LimitedDecoder<'_, 'de>)
        ensures
            elements.len == len,
            *elements.this == *old(self),
            *final(self) == *final(elements.this),
    {
        self.deserialize_tuple(len)
    }

    /// Opens the payload of a variant that holds a record with the given
    /// fields.
    pub fn struct_variant(&mut self, fields: &'static [&'static str]) -> (elements: LimitedDecoder<
        '_,
        'de,
    >)
        ensures
            elements.len == fields@.len(),
            *elements.this == *old(self),
            *final(self) == *final(elements.this),
    {
        self.deserialize_tuple(fields.len())
    }
}

impl<'a, 'de> LimitedDecoder<'a, 'de> {
    /// Moves on to the next element. Where none is left, says so and leaves
    /// the decoder as it is; else counts the element off and hands out the
    /// decoder, from which the caller reads it.
    pub fn next_element_seed(&mut self) -> (next: Option<&mut Decoder<'de>>)
        ensures
            *final(final(self).this) == *final(old(self).this),
            old(self).len == 0 ==> next is None && final(self).len == 0 && *final(self).this
                == *old(self).this,
            old(self).len > 0 ==> final(self).len == old(self).len - 1 && (next matches Some(
                decoder,
            ) && *decoder == *old(self).this && *final(self).this == *final(decoder)),
    {
        if self.len == 0 {
            None
        } else {
            self.len = self.len - 1;
            Some(&mut *self.this)
        }
    }

    /// The number of elements, or of pairs, that are left: exact, since it
    /// was read from the input or given by the shape.
    pub fn size_hint(&self) -> (left: Option<usize>)
        ensures
            left == Some(self.len),
    {
        Some(self.len)
    }

    /// Moves on to the key of the next pair. Where no pair is left, says so
    /// and leaves the decoder as it is; else counts the pair off and hands
    /// out the decoder, from which the caller reads the key.
    pub fn next_key_seed(&mut self) -> (next: Option<&mut Decoder<'de>>)
        ensures
            *final(final(self).this) == *final(old(self).this),
            old(self).len == 0 ==> next is None && final(self).len == 0 && *final(self).this
                == *old(self).this,
            old(self).len > 0 ==> final(self).len == old(self).len - 1 && (next matches Some(
                decoder,
            ) && *decoder == *old(self).this && *final(self).this == *final(decoder)),
    {
        if self.len == 0 {
            None
        } else {
            self.len = self.len - 1;
            Some(&mut *self.this)
        }
    }

    /// Hands out the decoder for the value that belongs to the key just
    /// read. The count is of pairs, so it stays.
    pub fn next_value_seed(&mut self) -> (decoder: &mut Decoder<'de>)
        ensures
            *final(final(self).this) == *final(old(self).this),
            final(self).len == old(self).len,
            *decoder == *old(self).this,
            *final(self).this == *final(decoder),
    {
        &mut *self.this
    }
}

} // verus!
