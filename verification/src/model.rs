//! The wire format of whole values.
//!
//! The codec never sees a value as a whole: the code that binds a type to it
//! walks the value and names one shape after the other. This module says what
//! such a walk amounts to. A [`Shape`] is what the binding knows beforehand, a
//! [`Value`] is what it walks, [`encode`] is the bytes that the walk writes,
//! and [`decode`] is what a walk over the same shape reads back.

use crate::error::Error;
use crate::format::{
    bool_bytes, bytes_frame, char_bytes, len_bytes, option_tag_bytes, read_bool, read_bytes,
    read_char, read_int, read_option_tag, read_str, read_uint, str_frame,
};
use crate::wire::{fits_signed, int_bytes, radix, uint_bytes, ByteOrder};
use vstd::prelude::*;
use vstd::utf8::encode_utf8;

verus! {

/// What the binding knows of a value before it reads it.
pub ghost enum Shape {
    /// An unsigned number of so many bytes. A floating-point number travels
    /// as the unsigned number with the same bits.
    Unsigned(nat),
    /// A signed number of so many bytes.
    Signed(nat),
    /// A boolean.
    Bool,
    /// A character.
    Char,
    /// A byte string.
    Bytes,
    /// A text string.
    Text,
    /// A value that may be absent.
    Optional(Box<Shape>),
    /// A tuple or a record: one value of each of the listed shapes, in
    /// order. With no shapes listed this is the unit value.
    Tuple(Seq<Shape>),
    /// A counted run of groups, each group one value of each of the listed
    /// shapes. A sequence has one shape in its group, the element's; a map
    /// has two, the key's and the value's.
    Repeated(Seq<Shape>),
    /// One of several variants, told apart by an index. Listed are the
    /// shapes of the variants' payloads, and the error that the binding
    /// reports for an index that has no variant.
    Variants(Seq<Shape>, Error),
}

/// A value as the binding walks it.
pub ghost enum Value {
    Unsigned(nat),
    Signed(int),
    Bool(bool),
    Char(char),
    Bytes(Seq<u8>),
    Text(Seq<char>),
    /// An optional value that is absent.
    Absent,
    /// An optional value that is present.
    Present(Box<Value>),
    /// The fields of a tuple or record.
    Tuple(Seq<Value>),
    /// The groups of a sequence or a map.
    Repeated(Seq<Seq<Value>>),
    /// The index of a variant and its payload.
    Variant(nat, Box<Value>),
}

/// The shape of a sequence with elements of the given shape.
pub open spec fn sequence_of(element: Shape) -> Shape {
    Shape::Repeated(seq![element])
}

/// The shape of a map with keys and values of the given shapes.
pub open spec fn map_of(key: Shape, value: Shape) -> Shape {
    Shape::Repeated(seq![key, value])
}

/// The shape of the unit value, and of a record without fields.
pub open spec fn unit() -> Shape {
    Shape::Tuple(Seq::empty())
}

/// Whether `value` is of the given shape and can be written: numbers fit
/// their width, and lengths, counts and variant indices fit in 32 bits.
pub open spec fn conforms(shape: Shape, value: Value) -> bool
    decreases shape,
{
    match (shape, value) {
        (Shape::Unsigned(width), Value::Unsigned(v)) => v < radix(width),
        (Shape::Signed(width), Value::Signed(v)) => width > 0 && fits_signed(v, width),
        (Shape::Bool, Value::Bool(_)) => true,
        (Shape::Char, Value::Char(_)) => true,
        (Shape::Bytes, Value::Bytes(payload)) => payload.len() <= u32::MAX,
        (Shape::Text, Value::Text(text)) => encode_utf8(text).len() <= u32::MAX,
        (Shape::Optional(_), Value::Absent) => true,
        (Shape::Optional(inner), Value::Present(v)) => conforms(*inner, *v),
        (Shape::Tuple(shapes), Value::Tuple(values)) => {
            &&& values.len() == shapes.len()
            &&& forall|i: int|
                0 <= i < shapes.len() ==> conforms(shapes[i], #[trigger] values[i])
        },
        (Shape::Repeated(group), Value::Repeated(groups)) => {
            &&& groups.len() <= u32::MAX
            &&& forall|g: int| 0 <= g < groups.len() ==> (#[trigger] groups[g]).len() == group.len()
            &&& forall|g: int, i: int|
                0 <= g < groups.len() && 0 <= i < group.len() ==> conforms(group[i], #[trigger] groups[g][i])
        },
        (Shape::Variants(payloads, _), Value::Variant(index, payload)) => {
            &&& index < payloads.len()
            &&& index <= u32::MAX
            &&& conforms(payloads[index as int], *payload)
        },
        _ => false,
    }
}

/// The bytes that `value` is written as.
pub open spec fn encode(order: ByteOrder, shape: Shape, value: Value) -> Seq<u8>
    decreases shape, 0nat,
{
    match (shape, value) {
        (Shape::Unsigned(width), Value::Unsigned(v)) => uint_bytes(order, v, width),
        (Shape::Signed(width), Value::Signed(v)) => int_bytes(order, v, width),
        (Shape::Bool, Value::Bool(v)) => bool_bytes(v),
        (Shape::Char, Value::Char(v)) => char_bytes(order, v),
        (Shape::Bytes, Value::Bytes(payload)) => bytes_frame(order, payload),
        (Shape::Text, Value::Text(text)) => str_frame(order, text),
        (Shape::Optional(_), Value::Absent) => option_tag_bytes(false),
        (Shape::Optional(inner), Value::Present(v)) => option_tag_bytes(true) + encode(
            order,
            *inner,
            *v,
        ),
        (Shape::Tuple(shapes), Value::Tuple(values)) => encode_fields(order, shapes, values, 0),
        (Shape::Repeated(group), Value::Repeated(groups)) => len_bytes(order, groups.len())
            + encode_groups(order, group, groups, 0),
        (Shape::Variants(payloads, _), Value::Variant(index, payload)) => len_bytes(order, index)
            + (if index < payloads.len() {
            encode(order, payloads[index as int], *payload)
        } else {
            Seq::empty()
        }),
        _ => Seq::empty(),
    }
}

/// The bytes of the fields from position `at` on, back to back.
pub open spec fn encode_fields(order: ByteOrder, shapes: Seq<Shape>, values: Seq<Value>, at: nat)
    -> Seq<u8>
    decreases shapes, shapes.len() - at,
{
    if at >= shapes.len() {
        Seq::empty()
    } else {
        encode(order, shapes[at as int], values[at as int]) + encode_fields(
            order,
            shapes,
            values,
            at + 1,
        )
    }
}

/// The bytes of the groups from position `at` on, back to back.
pub open spec fn encode_groups(
    order: ByteOrder,
    group: Seq<Shape>,
    groups: Seq<Seq<Value>>,
    at: nat,
) -> Seq<u8>
    decreases group, group.len() + 1 + (groups.len() - at),
{
    if at >= groups.len() {
        Seq::empty()
    } else {
        encode_fields(order, group, groups[at as int], 0) + encode_groups(
            order,
            group,
            groups,
            at + 1,
        )
    }
}

/// Reads a value of the given shape from the front of `input`: the value
/// and the input that is left, or the first error.
pub open spec fn decode(order: ByteOrder, shape: Shape, input: Seq<u8>) -> Result<
    (Value, Seq<u8>),
    Error,
>
    decreases shape, 0nat,
{
    match shape {
        Shape::Unsigned(width) => match read_uint(order, input, width) {
            Ok((v, rest)) => Ok((Value::Unsigned(v), rest)),
            Err(e) => Err(e),
        },
        Shape::Signed(width) => match read_int(order, input, width) {
            Ok((v, rest)) => Ok((Value::Signed(v), rest)),
            Err(e) => Err(e),
        },
        Shape::Bool => match read_bool(input) {
            Ok((v, rest)) => Ok((Value::Bool(v), rest)),
            Err(e) => Err(e),
        },
        Shape::Char => match read_char(order, input) {
            Ok((v, rest)) => Ok((Value::Char(v), rest)),
            Err(e) => Err(e),
        },
        Shape::Bytes => match read_bytes(order, input) {
            Ok((v, rest)) => Ok((Value::Bytes(v), rest)),
            Err(e) => Err(e),
        },
        Shape::Text => match read_str(order, input) {
            Ok((v, rest)) => Ok((Value::Text(v), rest)),
            Err(e) => Err(e),
        },
        Shape::Optional(inner) => match read_option_tag(input) {
            Err(e) => Err(e),
            Ok((present, rest)) => if present {
                match decode(order, *inner, rest) {
                    Ok((v, after)) => Ok((Value::Present(Box::new(v)), after)),
                    Err(e) => Err(e),
                }
            } else {
                Ok((Value::Absent, rest))
            },
        },
        Shape::Tuple(shapes) => match decode_fields(order, shapes, 0, input) {
            Ok((values, rest)) => Ok((Value::Tuple(values), rest)),
            Err(e) => Err(e),
        },
        Shape::Repeated(group) => match read_uint(order, input, 4) {
            Err(e) => Err(e),
            Ok((count, rest)) => match decode_groups(order, group, count, rest) {
                Ok((groups, after)) => Ok((Value::Repeated(groups), after)),
                Err(e) => Err(e),
            },
        },
        Shape::Variants(payloads, unknown) => match read_uint(order, input, 4) {
            Err(e) => Err(e),
            Ok((index, rest)) => if index < payloads.len() {
                match decode(order, payloads[index as int], rest) {
                    Ok((v, after)) => Ok((Value::Variant(index, Box::new(v)), after)),
                    Err(e) => Err(e),
                }
            } else {
                Err(unknown)
            },
        },
    }
}

/// Reads the fields from position `at` on, one after the other.
pub open spec fn decode_fields(order: ByteOrder, shapes: Seq<Shape>, at: nat, input: Seq<u8>)
    -> Result<(Seq<Value>, Seq<u8>), Error>
    decreases shapes, shapes.len() - at,
{
    if at >= shapes.len() {
        Ok((Seq::empty(), input))
    } else {
        match decode(order, shapes[at as int], input) {
            Err(e) => Err(e),
            Ok((first, rest)) => match decode_fields(order, shapes, at + 1, rest) {
                Err(e) => Err(e),
                Ok((others, after)) => Ok((seq![first] + others, after)),
            },
        }
    }
}

/// Reads `count` groups, one after the other.
pub open spec fn decode_groups(order: ByteOrder, group: Seq<Shape>, count: nat, input: Seq<u8>)
    -> Result<(Seq<Seq<Value>>, Seq<u8>), Error>
    decreases group, group.len() + 1 + count,
{
    if count == 0 {
        Ok((Seq::empty(), input))
    } else {
        match decode_fields(order, group, 0, input) {
            Err(e) => Err(e),
            Ok((first, rest)) => match decode_groups(order, group, (count - 1) as nat, rest) {
                Err(e) => Err(e),
                Ok((others, after)) => Ok((seq![first] + others, after)),
            },
        }
    }
}

} // verus!
