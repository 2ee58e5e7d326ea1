//! The encoder: appends the wire form of one shape after another to a
//! byte buffer that the caller owns.

use crate::format::{bool_bytes, bytes_frame, char_bytes, len_bytes, option_tag_bytes, str_frame};
use crate::wire::{
    int_bytes, lemma_radix_values, lemma_single_byte, put_uint, signed_to_bits, uint_bytes,
    ByteOrder,
};
use vstd::prelude::*;
use vstd::utf8::encode_utf8;

verus! {

/// A forward-only cursor that appends to a growable byte buffer.
///
/// Every operation takes the encoder and hands it back, so that nested
/// values are written through the same buffer one after the other.
pub struct Encoder<'a> {
    /// The buffer that is appended to.
    pub buf: &'a mut Vec<u8>,
    /// The order in which fixed-width numbers are laid out.
    pub order: ByteOrder,
}

impl<'a> Encoder<'a> {
    /// The bytes that the buffer holds now.
    pub open spec fn written(&self) -> Seq<u8> {
        self.buf@
    }

    /// An encoder that appends to `buf` in the byte order of this machine.
    /// What `buf` already holds stays in front.
    pub fn new(buf: &'a mut Vec<u8>) -> (enc: Self)
        ensures
            enc.written() == old(buf)@,
            *final(enc.buf) == *final(buf),
    {
        Encoder { buf, order: ByteOrder::native() }
    }

    /// An encoder that appends to `buf` in the given byte order.
    /// What `buf` already holds stays in front.
    pub fn with_order(buf: &'a mut Vec<u8>, order: ByteOrder) -> (enc: Self)
        ensures
            enc.written() == old(buf)@,
            *final(enc.buf) == *final(buf),
            enc.order == order,
    {
        Encoder { buf, order }
    }

    /// A second encoder on the same buffer, for one nested value. While it
    /// lives this encoder cannot be used; afterwards this encoder goes on
    /// where the second one stopped.
    pub fn reborrow(&mut self) -> (inner: Encoder<'_>)
        ensures
            inner.written() == old(self).written(),
            inner.order == old(self).order,
            final(self).written() == final(inner.buf)@,
            final(self).order == old(self).order,
            *final(final(self).buf) == *final(old(self).buf),
    {
        Encoder { buf: &mut *self.buf, order: self.order }
    }

    /// Writes a length, a count or a variant index. One that does not fit in
    /// 32 bits cannot be written.
    pub fn serialize_len(self, len: usize) -> (enc: Self)
        requires
            len <= u32::MAX,
        ensures
            enc.written() == self.written() + len_bytes(self.order, len as nat),
            *final(enc.buf) == *final(self.buf),
            enc.order == self.order,
    {
        self.serialize_u32(len as u32)
    }

    /// Writes a signed 8-bit number: 1 byte in two's complement, no tag.
    pub fn serialize_i8(self, value: i8) -> (enc: Self)
        ensures
            enc.written() == self.written() + int_bytes(self.order, value as int, 1),
            *final(enc.buf) == *final(self.buf),
            enc.order == self.order,
    {
        proof {
            lemma_radix_values();
        }
        let bits = signed_to_bits(value as i128, 1);
        put_uint(self.buf, self.order, bits, 1);
        self
    }

    /// Writes a signed 16-bit number: 2 bytes in two's complement, no tag.
    pub fn serialize_i16(self, value: i16) -> (enc: Self)
        ensures
            enc.written() == self.written() + int_bytes(self.order, value as int, 2),
            *final(enc.buf) == *final(self.buf),
            enc.order == self.order,
    {
        proof {
            lemma_radix_values();
        }
        let bits = signed_to_bits(value as i128, 2);
        put_uint(self.buf, self.order, bits, 2);
        self
    }

    /// Writes a signed 32-bit number: 4 bytes in two's complement, no tag.
    pub fn serialize_i32(self, value: i32) -> (enc: Self)
        ensures
            enc.written() == self.written() + int_bytes(self.order, value as int, 4),
            *final(enc.buf) == *final(self.buf),
            enc.order == self.order,
    {
        proof {
            lemma_radix_values();
        }
        let bits = signed_to_bits(value as i128, 4);
        put_uint(self.buf, self.order, bits, 4);
        self
    }

    /// Writes a signed 64-bit number: 8 bytes in two's complement, no tag.
    pub fn serialize_i64(self, value: i64) -> (enc: Self)
        ensures
            enc.written() == self.written() + int_bytes(self.order, value as int, 8),
            *final(enc.buf) == *final(self.buf),
            enc.order == self.order,
    {
        proof {
            lemma_radix_values();
        }
        let bits = signed_to_bits(value as i128, 8);
        put_uint(self.buf, self.order, bits, 8);
        self
    }

    /// Writes a signed 128-bit number: 16 bytes in two's complement, no tag.
    pub fn serialize_i128(self, value: i128) -> (enc: Self)
        ensures
            enc.written() == self.written() + int_bytes(self.order, value as int, 16),
            *final(enc.buf) == *final(self.buf),
            enc.order == self.order,
    {
        proof {
            lemma_radix_values();
        }
        let bits = signed_to_bits(value as i128, 16);
        put_uint(self.buf, self.order, bits, 16);
        self
    }

    /// Writes an unsigned 8-bit number: 1 byte, no tag.
    pub fn serialize_u8(self, value: u8) -> (enc: Self)
        ensures
            enc.written() == self.written() + uint_bytes(self.order, value as nat, 1),
            *final(enc.buf) == *final(self.buf),
            enc.order == self.order,
    {
        put_uint(self.buf, self.order, value as u128, 1);
        self
    }

    /// Writes an unsigned 16-bit number: 2 bytes, no tag.
    pub fn serialize_u16(self, value: u16) -> (enc: Self)
        ensures
            enc.written() == self.written() + uint_bytes(self.order, value as nat, 2),
            *final(enc.buf) == *final(self.buf),
            enc.order == self.order,
    {
        put_uint(self.buf, self.order, value as u128, 2);
        self
    }

    /// Writes an unsigned 32-bit number: 4 bytes, no tag.
    pub fn serialize_u32(self, value: u32) -> (enc: Self)
        ensures
            enc.written() == self.written() + uint_bytes(self.order, value as nat, 4),
            *final(enc.buf) == *final(self.buf),
            enc.order == self.order,
    {
        put_uint(self.buf, self.order, value as u128, 4);
        self
    }

    /// Writes an unsigned 64-bit number: 8 bytes, no tag.
    pub fn serialize_u64(self, value: u64) -> (enc: Self)
        ensures
            enc.written() == self.written() + uint_bytes(self.order, value as nat, 8),
            *final(enc.buf) == *final(self.buf),
            enc.order == self.order,
    {
        put_uint(self.buf, self.order, value as u128, 8);
        self
    }

    /// Writes an unsigned 128-bit number: 16 bytes, no tag.
    pub fn serialize_u128(self, value: u128) -> (enc: Self)
        ensures
            enc.written() == self.written() + uint_bytes(self.order, value as nat, 16),
            *final(enc.buf) == *final(self.buf),
            enc.order == self.order,
    {
        put_uint(self.buf, self.order, value as u128, 16);
        self
    }

    /// Writes a boolean: the byte `0` for false, `1` for true.
    pub fn serialize_bool(self, value: bool) -> (enc: Self)
        ensures
            enc.written() == self.written() + bool_bytes(value),
            *final(enc.buf) == *final(self.buf),
            enc.order == self.order,
    {
        let byte: u8 = if value {
            1
        } else {
            0
        };
        proof {
            lemma_single_byte(self.order, byte);
        }
        self.serialize_u8(byte)
    }

    /// Writes a character: its code point in four bytes.
    pub fn serialize_char(self, value: char) -> (enc: Self)
        ensures
            enc.written() == self.written() + char_bytes(self.order, value),
            *final(enc.buf) == *final(self.buf),
            enc.order == self.order,
    {
        self.serialize_u32(value as u32)
    }

    /// Writes a byte string: its length in four bytes, then the bytes. A
    /// string whose length does not fit in 32 bits cannot be written.
    pub fn serialize_bytes(self, value: &[u8]) -> (enc: Self)
        requires
            value@.len() <= u32::MAX,
        ensures
            enc.written() == self.written() + bytes_frame(self.order, value@),
            *final(enc.buf) == *final(self.buf),
            enc.order == self.order,
    {
        let this = self.serialize_len(value.len());
        this.buf.extend_from_slice(value);
        assert(this.written() =~= self.written() + bytes_frame(self.order, value@));
        this
    }

    /// Writes a text string: the byte string of its UTF-8 encoding. A string
    /// whose encoding is longer than 32 bits can count cannot be written.
    pub fn serialize_str(self, value: &str) -> (enc: Self)
        requires
            encode_utf8(value@).len() <= u32::MAX,
        ensures
            enc.written() == self.written() + str_frame(self.order, value@),
            *final(enc.buf) == *final(self.buf),
            enc.order == self.order,
    {
        self.serialize_bytes(value.as_bytes())
    }

    /// Writes the unit value: nothing.
    pub fn serialize_unit(self) -> (enc: Self)
        ensures
            enc.written() == self.written(),
            *final(enc.buf) == *final(self.buf),
            enc.order == self.order,
    {
        self
    }

    /// Writes a record without fields: nothing.
    pub fn serialize_unit_struct(self, _name: &'static str) -> (enc: Self)
        ensures
            enc.written() == self.written(),
            *final(enc.buf) == *final(self.buf),
            enc.order == self.order,
    {
        self
    }

    /// Writes an absent optional value: the byte `0`.
    pub fn serialize_none(self) -> (enc: Self)
        ensures
            enc.written() == self.written() + option_tag_bytes(false),
            *final(enc.buf) == *final(self.buf),
            enc.order == self.order,
    {
        self.buf.push(0);
        self
    }

    /// Opens a present optional value: the byte `1`. The caller writes the
    /// inner value next, through the encoder handed back.
    pub fn serialize_some(self) -> (enc: Self)
        ensures
            enc.written() == self.written() + option_tag_bytes(true),
            *final(enc.buf) == *final(self.buf),
            enc.order == self.order,
    {
        self.buf.push(1);
        self
    }

    /// Opens a sequence: its element count in four bytes. The caller writes
    /// exactly `len` elements next. The count must be known and fit in 32 bits.
    pub fn serialize_seq(self, len: Option<usize>) -> (enc: Self)
        requires
            len matches Some(n) && n <= u32::MAX,
        ensures
            enc.written() == self.written() + len_bytes(self.order, len.unwrap() as nat),
            *final(enc.buf) == *final(self.buf),
            enc.order == self.order,
    {
        match len {
            Some(n) => self.serialize_len(n),
            None => self,
        }
    }

    /// Opens a tuple: nothing is written, the arity is part of the shape.
    pub fn serialize_tuple(self, _len: usize) -> (enc: Self)
        ensures
            enc.written() == self.written(),
            *final(enc.buf) == *final(self.buf),
            enc.order == self.order,
    {
        self
    }

    /// Opens a named tuple: nothing is written.
    pub fn serialize_tuple_struct(self, _name: &'static str, _len: usize) -> (enc: Self)
        ensures
            enc.written() == self.written(),
            *final(enc.buf) == *final(self.buf),
            enc.order == self.order,
    {
        self
    }

    /// Opens a variant that holds a tuple: the variant index in four bytes.
    pub fn serialize_tuple_variant(
        self,
        _name: &'static str,
        variant_index: u32,
        _variant: &'static str,
        _len: usize,
    ) -> (enc: Self)
        ensures
            enc.written() == self.written() + len_bytes(self.order, variant_index as nat),
            *final(enc.buf) == *final(self.buf),
            enc.order == self.order,
    {
        self.serialize_u32(variant_index)
    }

    /// Opens a map: its pair count in four bytes. The caller writes exactly
    /// `len` pairs next, each key followed by its value. The count must be
    /// known and fit in 32 bits.
    pub fn serialize_map(self, len: Option<usize>) -> (enc: Self)
        requires
            len matches Some(n) && n <= u32::MAX,
        ensures
            enc.written() == self.written() + len_bytes(self.order, len.unwrap() as nat),
            *final(enc.buf) == *final(self.buf),
            enc.order == self.order,
    {
        match len {
            Some(n) => self.serialize_len(n),
            None => self,
        }
    }

    /// Opens a record: nothing is written, the fields are part of the shape.
    pub fn serialize_struct(self, _name: &'static str, _len: usize) -> (enc: Self)
        ensures
            enc.written() == self.written(),
            *final(enc.buf) == *final(self.buf),
            enc.order == self.order,
    {
        self
    }

    /// Opens a variant that holds a record: the variant index in four bytes.
    pub fn serialize_struct_variant(
        self,
        _name: &'static str,
        variant_index: u32,
        _variant: &'static str,
        _len: usize,
    ) -> (enc: Self)
        ensures
            enc.written() == self.written() + len_bytes(self.order, variant_index as nat),
            *final(enc.buf) == *final(self.buf),
            enc.order == self.order,
    {
        self.serialize_u32(variant_index)
    }

    /// Opens a variant that holds one value: the variant index in four
    /// bytes. The caller writes the value next.
    pub fn serialize_newtype_variant(
        self,
        _name: &'static str,
        variant_index: u32,
        _variant: &'static str,
    ) -> (enc: Self)
        ensures
            enc.written() == self.written() + len_bytes(self.order, variant_index as nat),
            *final(enc.buf) == *final(self.buf),
            enc.order == self.order,
    {
        self.serialize_u32(variant_index)
    }

    /// Writes a variant that holds nothing: the variant index in four bytes.
    pub fn serialize_unit_variant(
        self,
        _name: &'static str,
        variant_index: u32,
        _variant: &'static str,
    ) -> (enc: Self)
        ensures
            enc.written() == self.written() + len_bytes(self.order, variant_index as nat),
            *final(enc.buf) == *final(self.buf),
            enc.order == self.order,
    {
        self.serialize_u32(variant_index)
    }

    /// The format is binary: types that have a denser form may use it.
    pub fn is_human_readable(&self) -> (readable: bool)
        ensures
            !readable,
    {
        false
    }

    /// Closes a sequence, tuple, map or record: nothing is written.
    pub fn end(self) -> (enc: Self)
        ensures
            enc.written() == self.written(),
            *final(enc.buf) == *final(self.buf),
            enc.order == self.order,
    {
        self
    }
}

} // verus!
