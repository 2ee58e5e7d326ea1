//! The wire format, stated over byte sequences.
//!
//! For each shape there is the byte sequence that a value is written as, and
//! a reader that says what the front of an input decodes to and what input is
//! left, or why the read fails.

use crate::error::Error;
use crate::wire::{int_value, uint_bytes, uint_value, ByteOrder};
use vstd::prelude::*;
use vstd::utf8::*;

verus! {

/// The byte of a boolean, which is also the presence byte of an optional value.
pub open spec fn flag_byte(flag: bool) -> u8 {
    if flag {
        1
    } else {
        0
    }
}

/// A boolean on the wire: one byte.
pub open spec fn bool_bytes(value: bool) -> Seq<u8> {
    seq![flag_byte(value)]
}

/// A character on the wire: its code point in four bytes.
pub open spec fn char_bytes(order: ByteOrder, value: char) -> Seq<u8> {
    uint_bytes(order, value as nat, 4)
}

/// A length, count or variant index on the wire: four bytes.
pub open spec fn len_bytes(order: ByteOrder, len: nat) -> Seq<u8> {
    uint_bytes(order, len, 4)
}

/// A byte string on the wire: its length, then the bytes.
pub open spec fn bytes_frame(order: ByteOrder, payload: Seq<u8>) -> Seq<u8> {
    len_bytes(order, payload.len()) + payload
}

/// A text string on the wire: a byte string that holds its UTF-8 encoding.
pub open spec fn str_frame(order: ByteOrder, text: Seq<char>) -> Seq<u8> {
    bytes_frame(order, encode_utf8(text))
}

/// The presence byte of an optional value on the wire.
pub open spec fn option_tag_bytes(present: bool) -> Seq<u8> {
    seq![flag_byte(present)]
}

/// Reads an unsigned number of `width` bytes from the front of `input`.
pub open spec fn read_uint(order: ByteOrder, input: Seq<u8>, width: nat) -> Result<
    (nat, Seq<u8>),
    Error,
> {
    if input.len() < width {
        Err(Error::MissingData)
    } else {
        Ok((uint_value(order, input.take(width as int)), input.skip(width as int)))
    }
}

/// Reads a signed number of `width` bytes from the front of `input`.
pub open spec fn read_int(order: ByteOrder, input: Seq<u8>, width: nat) -> Result<
    (int, Seq<u8>),
    Error,
> {
    if input.len() < width {
        Err(Error::MissingData)
    } else {
        Ok((int_value(order, input.take(width as int)), input.skip(width as int)))
    }
}

/// Reads a boolean from the front of `input`.
pub open spec fn read_bool(input: Seq<u8>) -> Result<(bool, Seq<u8>), Error> {
    if input.len() < 1 {
        Err(Error::MissingData)
    } else if input[0] == 0 {
        Ok((false, input.skip(1)))
    } else if input[0] == 1 {
        Ok((true, input.skip(1)))
    } else {
        Err(Error::InvalidBool)
    }
}

/// Reads a character from the front of `input`.
pub open spec fn read_char(order: ByteOrder, input: Seq<u8>) -> Result<(char, Seq<u8>), Error> {
    match read_uint(order, input, 4) {
        Err(e) => Err(e),
        Ok((code, rest)) => if is_scalar(code as u32) {
            Ok((code as char, rest))
        } else {
            Err(Error::InvalidChar)
        },
    }
}

/// Reads a byte string from the front of `input`.
pub open spec fn read_bytes(order: ByteOrder, input: Seq<u8>) -> Result<
    (Seq<u8>, Seq<u8>),
    Error,
> {
    match read_uint(order, input, 4) {
        Err(e) => Err(e),
        Ok((len, rest)) => if rest.len() < len {
            Err(Error::MissingData)
        } else {
            Ok((rest.take(len as int), rest.skip(len as int)))
        },
    }
}

/// Reads a text string from the front of `input`.
pub open spec fn read_str(order: ByteOrder, input: Seq<u8>) -> Result<
    (Seq<char>, Seq<u8>),
    Error,
> {
    match read_bytes(order, input) {
        Err(e) => Err(e),
        Ok((payload, rest)) => if valid_utf8(payload) {
            Ok((decode_utf8(payload), rest))
        } else {
            Err(Error::InvalidStr)
        },
    }
}

/// Reads the presence byte of an optional value from the front of `input`.
pub open spec fn read_option_tag(input: Seq<u8>) -> Result<(bool, Seq<u8>), Error> {
    if input.len() < 1 {
        Err(Error::MissingData)
    } else if input[0] == 0 {
        Ok((false, input.skip(1)))
    } else if input[0] == 1 {
        Ok((true, input.skip(1)))
    } else {
        Err(Error::InvalidOption)
    }
}

/// The input that is left after an attempt to take `width` bytes off the
/// front: where fewer are there, nothing is taken.
pub open spec fn after_fixed(input: Seq<u8>, width: nat) -> Seq<u8> {
    if input.len() < width {
        input
    } else {
        input.skip(width as int)
    }
}

} // verus!
