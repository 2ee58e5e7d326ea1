//! What holds of the wire format, whatever the value and the byte order:
//! what was written is read back, an input cut short is reported as cut
//! short, and each error comes on its own inputs only.

use crate::error::Error;
use crate::format::{
    bool_bytes, bytes_frame, char_bytes, len_bytes, option_tag_bytes, read_bool, read_bytes,
    read_char, read_int, read_option_tag, read_str, read_uint, str_frame,
};
use crate::model::{
    conforms, decode, decode_fields, decode_groups, encode, encode_fields, encode_groups, Shape,
    Value,
};
use crate::wire::{
    fits_signed, int_bytes, lemma_int_round_trip, lemma_radix_values, lemma_uint_bytes_len,
    lemma_uint_round_trip, radix, uint_bytes, ByteOrder,
};
use vstd::prelude::*;
use vstd::utf8::{
    char_is_scalar, char_u32_cast, encode_utf8, encode_utf8_decode_utf8, encode_utf8_valid_utf8,
    valid_utf8,
};

verus! {

/// An unsigned number that fits its width is read back as it was written,
/// and the input behind it is left untouched.
pub proof fn law_uint_round_trip(order: ByteOrder, value: nat, width: nat, rest: Seq<u8>)
    requires
        value < radix(width),
    ensures
        read_uint(order, uint_bytes(order, value, width) + rest, width) == Ok::<
            (nat, Seq<u8>),
            Error,
        >((value, rest)),
{
    let frame = uint_bytes(order, value, width);
    lemma_uint_bytes_len(order, value, width);
    lemma_uint_round_trip(order, value, width);
    assert((frame + rest).take(width as int) =~= frame);
    assert((frame + rest).skip(width as int) =~= rest);
}

/// A signed number that fits its width is read back as it was written, and
/// the input behind it is left untouched.
pub proof fn law_int_round_trip(order: ByteOrder, value: int, width: nat, rest: Seq<u8>)
    requires
        width > 0,
        fits_signed(value, width),
    ensures
        read_int(order, int_bytes(order, value, width) + rest, width) == Ok::<
            (int, Seq<u8>),
            Error,
        >((value, rest)),
{
    let frame = int_bytes(order, value, width);
    lemma_uint_bytes_len(order, crate::wire::twos_complement(value, width), width);
    lemma_int_round_trip(order, value, width);
    assert((frame + rest).take(width as int) =~= frame);
    assert((frame + rest).skip(width as int) =~= rest);
}

/// A boolean is read back as it was written.
pub proof fn law_bool_round_trip(value: bool, rest: Seq<u8>)
    ensures
        read_bool(bool_bytes(value) + rest) == Ok::<(bool, Seq<u8>), Error>((value, rest)),
{
    assert((bool_bytes(value) + rest).skip(1) =~= rest);
}

/// A character is read back as it was written.
pub proof fn law_char_round_trip(order: ByteOrder, value: char, rest: Seq<u8>)
    ensures
        read_char(order, char_bytes(order, value) + rest) == Ok::<(char, Seq<u8>), Error>(
            (value, rest),
        ),
{
    lemma_radix_values();
    char_is_scalar(value);
    char_u32_cast(value, value as u32);
    law_uint_round_trip(order, value as nat, 4, rest);
}

/// A byte string whose length fits in 32 bits is read back as it was
/// written.
pub proof fn law_bytes_round_trip(order: ByteOrder, payload: Seq<u8>, rest: Seq<u8>)
    requires
        payload.len() <= u32::MAX,
    ensures
        read_bytes(order, bytes_frame(order, payload) + rest) == Ok::<(Seq<u8>, Seq<u8>), Error>(
            (payload, rest),
        ),
{
    lemma_radix_values();
    law_uint_round_trip(order, payload.len(), 4, payload + rest);
    assert(bytes_frame(order, payload) + rest =~= len_bytes(order, payload.len()) + (payload
        + rest));
    assert((payload + rest).take(payload.len() as int) =~= payload);
    assert((payload + rest).skip(payload.len() as int) =~= rest);
}

/// A text string whose encoding fits in 32 bits of length is read back as it
/// was written.
pub proof fn law_str_round_trip(order: ByteOrder, text: Seq<char>, rest: Seq<u8>)
    requires
        encode_utf8(text).len() <= u32::MAX,
    ensures
        read_str(order, str_frame(order, text) + rest) == Ok::<(Seq<char>, Seq<u8>), Error>(
            (text, rest),
        ),
{
    law_bytes_round_trip(order, encode_utf8(text), rest);
    encode_utf8_valid_utf8(text);
    encode_utf8_decode_utf8(text);
}

/// The presence byte of an optional value is read back as it was written.
pub proof fn law_option_tag_round_trip(present: bool, rest: Seq<u8>)
    ensures
        read_option_tag(option_tag_bytes(present) + rest) == Ok::<(bool, Seq<u8>), Error>(
            (present, rest),
        ),
{
    assert((option_tag_bytes(present) + rest).skip(1) =~= rest);
}

/// A number cut short by one byte or more is reported as missing data.
pub proof fn law_uint_truncated(order: ByteOrder, value: nat, width: nat, kept: nat)
    requires
        kept < width,
    ensures
        read_uint(order, uint_bytes(order, value, width).take(kept as int), width) == Err::<
            (nat, Seq<u8>),
            Error,
        >(Error::MissingData),
        read_int(order, uint_bytes(order, value, width).take(kept as int), width) == Err::<
            (int, Seq<u8>),
            Error,
        >(Error::MissingData),
{
    lemma_uint_bytes_len(order, value, width);
}

/// A boolean, or a presence byte, that was cut off is reported as missing
/// data.
pub proof fn law_flag_truncated(value: bool)
    ensures
        read_bool(bool_bytes(value).take(0)) == Err::<(bool, Seq<u8>), Error>(Error::MissingData),
        read_option_tag(option_tag_bytes(value).take(0)) == Err::<(bool, Seq<u8>), Error>(
            Error::MissingData,
        ),
{
}

/// A character cut short by one byte or more is reported as missing data.
pub proof fn law_char_truncated(order: ByteOrder, value: char, kept: nat)
    requires
        kept < 4,
    ensures
        read_char(order, char_bytes(order, value).take(kept as int)) == Err::<
            (char, Seq<u8>),
            Error,
        >(Error::MissingData),
{
    law_uint_truncated(order, value as nat, 4, kept);
}

/// A byte string cut short by one byte or more, in its length or in its
/// bytes, is reported as missing data.
pub proof fn law_bytes_truncated(order: ByteOrder, payload: Seq<u8>, kept: nat)
    requires
        payload.len() <= u32::MAX,
        kept < bytes_frame(order, payload).len(),
    ensures
        read_bytes(order, bytes_frame(order, payload).take(kept as int)) == Err::<
            (Seq<u8>, Seq<u8>),
            Error,
        >(Error::MissingData),
{
    lemma_radix_values();
    let prefix = len_bytes(order, payload.len());
    let cut = bytes_frame(order, payload).take(kept as int);
    lemma_uint_bytes_len(order, payload.len(), 4);
    if kept >= 4 {
        let tail = payload.take(kept - 4);
        assert(cut =~= prefix + tail);
        law_uint_round_trip(order, payload.len(), 4, tail);
    }
}

/// A text string cut short by one byte or more is reported as missing data.
pub proof fn law_str_truncated(order: ByteOrder, text: Seq<char>, kept: nat)
    requires
        encode_utf8(text).len() <= u32::MAX,
        kept < str_frame(order, text).len(),
    ensures
        read_str(order, str_frame(order, text).take(kept as int)) == Err::<
            (Seq<char>, Seq<u8>),
            Error,
        >(Error::MissingData),
{
    law_bytes_truncated(order, encode_utf8(text), kept);
}

/// Reading a boolean fails as invalid exactly when there is a byte and it
/// is neither `0` nor `1`; with no byte it fails as missing data; it fails in
/// no other way.
pub proof fn law_bool_errors(input: Seq<u8>)
    ensures
        read_bool(input) matches Err(e) ==> e == Error::InvalidBool || e == Error::MissingData,
        read_bool(input) == Err::<(bool, Seq<u8>), Error>(Error::InvalidBool) <==> input.len() >= 1
            && input[0] >= 2,
        read_bool(input) == Err::<(bool, Seq<u8>), Error>(Error::MissingData) <==> input.len()
            == 0,
{
}

/// Reading a presence byte fails as invalid exactly when there is a byte and
/// it is neither `0` nor `1`; with no byte it fails as missing data; it fails
/// in no other way.
pub proof fn law_option_tag_errors(input: Seq<u8>)
    ensures
        read_option_tag(input) matches Err(e) ==> e == Error::InvalidOption || e
            == Error::MissingData,
        read_option_tag(input) == Err::<(bool, Seq<u8>), Error>(Error::InvalidOption)
            <==> input.len() >= 1 && input[0] >= 2,
        read_option_tag(input) == Err::<(bool, Seq<u8>), Error>(Error::MissingData)
            <==> input.len() == 0,
{
}

/// Reading a character fails as invalid exactly when four bytes are there
/// and their number is a surrogate or lies above `0x10FFFF`; with fewer bytes
/// it fails as missing data; it fails in no other way.
pub proof fn law_char_errors(order: ByteOrder, input: Seq<u8>)
    ensures
        read_char(order, input) matches Err(e) ==> e == Error::InvalidChar || e
            == Error::MissingData,
        read_char(order, input) == Err::<(char, Seq<u8>), Error>(Error::MissingData)
            <==> input.len() < 4,
        read_char(order, input) == Err::<(char, Seq<u8>), Error>(Error::InvalidChar)
            <==> input.len() >= 4 && {
            let code = crate::wire::uint_value(order, input.take(4));
            0xD800 <= code <= 0xDFFF || code > 0x10FFFF
        },
{
    lemma_radix_values();
    crate::wire::lemma_uint_value_bound(order, input.take(4));
}

/// Reading a text string fails as invalid exactly when its length and that
/// many bytes are there and the bytes are not UTF-8; it fails as missing data
/// exactly when the length or the bytes are cut short; it fails in no other
/// way.
pub proof fn law_str_errors(order: ByteOrder, input: Seq<u8>)
    ensures
        read_str(order, input) matches Err(e) ==> e == Error::InvalidStr || e
            == Error::MissingData,
        read_str(order, input) == Err::<(Seq<char>, Seq<u8>), Error>(Error::MissingData)
            <==> read_bytes(order, input) is Err,
        read_str(order, input) == Err::<(Seq<char>, Seq<u8>), Error>(Error::InvalidStr)
            <==> (read_bytes(order, input) matches Ok((payload, _)) && !valid_utf8(payload)),
{
}

/// Every value that conforms to its shape is read back as it was written,
/// whatever the shape: numbers, booleans, characters, strings, optional
/// values absent or present, tuples and records with or without fields,
/// sequences and maps with or without elements, and every variant. The
/// input behind the value is left untouched.
pub proof fn law_round_trip(order: ByteOrder, shape: Shape, value: Value, rest: Seq<u8>)
    requires
        conforms(shape, value),
    ensures
        decode(order, shape, encode(order, shape, value) + rest) == Ok::<(Value, Seq<u8>), Error>(
            (value, rest),
        ),
    decreases shape, 0nat,
{
    let input = encode(order, shape, value) + rest;
    match (shape, value) {
        (Shape::Unsigned(width), Value::Unsigned(v)) => {
            law_uint_round_trip(order, v, width, rest);
        },
        (Shape::Signed(width), Value::Signed(v)) => {
            law_int_round_trip(order, v, width, rest);
        },
        (Shape::Bool, Value::Bool(v)) => {
            law_bool_round_trip(v, rest);
        },
        (Shape::Char, Value::Char(v)) => {
            law_char_round_trip(order, v, rest);
        },
        (Shape::Bytes, Value::Bytes(payload)) => {
            law_bytes_round_trip(order, payload, rest);
        },
        (Shape::Text, Value::Text(text)) => {
            law_str_round_trip(order, text, rest);
        },
        (Shape::Optional(_), Value::Absent) => {
            law_option_tag_round_trip(false, rest);
        },
        (Shape::Optional(inner), Value::Present(v)) => {
            let body = encode(order, *inner, *v);
            assert(input =~= option_tag_bytes(true) + (body + rest));
            law_option_tag_round_trip(true, body + rest);
            law_round_trip(order, *inner, *v, rest);
        },
        (Shape::Tuple(shapes), Value::Tuple(values)) => {
            law_fields_round_trip(order, shapes, values, 0, rest);
            assert(values.skip(0) =~= values);
        },
        (Shape::Repeated(group), Value::Repeated(groups)) => {
            let body = encode_groups(order, group, groups, 0);
            lemma_radix_values();
            assert(input =~= len_bytes(order, groups.len()) + (body + rest));
            law_uint_round_trip(order, groups.len(), 4, body + rest);
            law_groups_round_trip(order, group, groups, 0, rest);
            assert(groups.skip(0) =~= groups);
        },
        (Shape::Variants(payloads, _), Value::Variant(index, payload)) => {
            let body = encode(order, payloads[index as int], *payload);
            lemma_radix_values();
            assert(input =~= len_bytes(order, index) + (body + rest));
            law_uint_round_trip(order, index, 4, body + rest);
            law_round_trip(order, payloads[index as int], *payload, rest);
        },
        _ => {},
    }
}

/// The fields of a tuple or record, from any position on, are read back as
/// they were written.
pub proof fn law_fields_round_trip(
    order: ByteOrder,
    shapes: Seq<Shape>,
    values: Seq<Value>,
    at: nat,
    rest: Seq<u8>,
)
    requires
        values.len() == shapes.len(),
        at <= shapes.len(),
        forall|i: int| 0 <= i < shapes.len() ==> conforms(shapes[i], #[trigger] values[i]),
    ensures
        decode_fields(order, shapes, at, encode_fields(order, shapes, values, at) + rest) == Ok::<
            (Seq<Value>, Seq<u8>),
            Error,
        >((values.skip(at as int), rest)),
    decreases shapes, shapes.len() - at,
{
    if at >= shapes.len() {
        assert(encode_fields(order, shapes, values, at) + rest =~= rest);
        assert(values.skip(at as int) =~= Seq::<Value>::empty());
    } else {
        let first = encode(order, shapes[at as int], values[at as int]);
        let others = encode_fields(order, shapes, values, at + 1);
        assert(encode_fields(order, shapes, values, at) + rest =~= first + (others + rest));
        assert(conforms(shapes[at as int], values[at as int]));
        law_round_trip(order, shapes[at as int], values[at as int], others + rest);
        law_fields_round_trip(order, shapes, values, at + 1, rest);
        assert(seq![values[at as int]] + values.skip(at as int + 1) =~= values.skip(at as int));
    }
}

/// The groups of a sequence or map, from any position on, are read back as
/// they were written.
pub proof fn law_groups_round_trip(
    order: ByteOrder,
    group: Seq<Shape>,
    groups: Seq<Seq<Value>>,
    at: nat,
    rest: Seq<u8>,
)
    requires
        at <= groups.len(),
        forall|g: int| 0 <= g < groups.len() ==> (#[trigger] groups[g]).len() == group.len(),
        forall|g: int, i: int|
            0 <= g < groups.len() && 0 <= i < group.len() ==> conforms(group[i], #[trigger] groups[g][i]),
    ensures
        decode_groups(
            order,
            group,
            (groups.len() - at) as nat,
            encode_groups(order, group, groups, at) + rest,
        ) == Ok::<(Seq<Seq<Value>>, Seq<u8>), Error>((groups.skip(at as int), rest)),
    decreases group, group.len() + 1 + (groups.len() - at),
{
    if at >= groups.len() {
        assert(encode_groups(order, group, groups, at) + rest =~= rest);
        assert(groups.skip(at as int) =~= Seq::<Seq<Value>>::empty());
    } else {
        let first = encode_fields(order, group, groups[at as int], 0);
        let others = encode_groups(order, group, groups, at + 1);
        assert(encode_groups(order, group, groups, at) + rest =~= first + (others + rest));
        assert(groups[at as int].len() == group.len());
        law_fields_round_trip(order, group, groups[at as int], 0, others + rest);
        assert(groups[at as int].skip(0) =~= groups[at as int]);
        law_groups_round_trip(order, group, groups, at + 1, rest);
        assert(seq![groups[at as int]] + groups.skip(at as int + 1) =~= groups.skip(at as int));
    }
}

/// Every value that conforms to its shape, cut short by one byte or more at
/// any point, is reported as missing data: no cut is read as another value,
/// and none is reported as another error.
pub proof fn law_truncated(order: ByteOrder, shape: Shape, value: Value, kept: nat)
    requires
        conforms(shape, value),
        kept < encode(order, shape, value).len(),
    ensures
        decode(order, shape, encode(order, shape, value).take(kept as int)) == Err::<
            (Value, Seq<u8>),
            Error,
        >(Error::MissingData),
    decreases shape, 0nat,
{
    let whole = encode(order, shape, value);
    let cut = whole.take(kept as int);
    lemma_radix_values();
    match (shape, value) {
        (Shape::Unsigned(width), Value::Unsigned(v)) => {
            lemma_uint_bytes_len(order, v, width);
            law_uint_truncated(order, v, width, kept);
        },
        (Shape::Signed(width), Value::Signed(v)) => {
            lemma_uint_bytes_len(order, crate::wire::twos_complement(v, width), width);
            law_uint_truncated(order, crate::wire::twos_complement(v, width), width, kept);
        },
        (Shape::Bool, Value::Bool(v)) => {
            law_flag_truncated(v);
        },
        (Shape::Char, Value::Char(v)) => {
            lemma_uint_bytes_len(order, v as nat, 4);
            law_char_truncated(order, v, kept);
        },
        (Shape::Bytes, Value::Bytes(payload)) => {
            law_bytes_truncated(order, payload, kept);
        },
        (Shape::Text, Value::Text(text)) => {
            law_str_truncated(order, text, kept);
        },
        (Shape::Optional(_), Value::Absent) => {
            law_flag_truncated(false);
        },
        (Shape::Optional(inner), Value::Present(v)) => {
            let body = encode(order, *inner, *v);
            if kept >= 1 {
                let tail = body.take(kept - 1);
                assert(cut =~= option_tag_bytes(true) + tail);
                law_option_tag_round_trip(true, tail);
                law_truncated(order, *inner, *v, (kept - 1) as nat);
            }
        },
        (Shape::Tuple(shapes), Value::Tuple(values)) => {
            law_fields_truncated(order, shapes, values, 0, kept);
        },
        (Shape::Repeated(group), Value::Repeated(groups)) => {
            let prefix = len_bytes(order, groups.len());
            let body = encode_groups(order, group, groups, 0);
            lemma_uint_bytes_len(order, groups.len(), 4);
            if kept < 4 {
                assert(cut =~= prefix.take(kept as int));
                law_uint_truncated(order, groups.len(), 4, kept);
            } else {
                let tail = body.take(kept - 4);
                assert(cut =~= prefix + tail);
                law_uint_round_trip(order, groups.len(), 4, tail);
                law_groups_truncated(order, group, groups, 0, (kept - 4) as nat);
            }
        },
        (Shape::Variants(payloads, _), Value::Variant(index, payload)) => {
            let prefix = len_bytes(order, index);
            let body = encode(order, payloads[index as int], *payload);
            lemma_uint_bytes_len(order, index, 4);
            if kept < 4 {
                assert(cut =~= prefix.take(kept as int));
                law_uint_truncated(order, index, 4, kept);
            } else {
                let tail = body.take(kept - 4);
                assert(cut =~= prefix + tail);
                law_uint_round_trip(order, index, 4, tail);
                law_truncated(order, payloads[index as int], *payload, (kept - 4) as nat);
            }
        },
        _ => {},
    }
}

/// The fields of a tuple or record, cut short by one byte or more, are
/// reported as missing data.
pub proof fn law_fields_truncated(
    order: ByteOrder,
    shapes: Seq<Shape>,
    values: Seq<Value>,
    at: nat,
    kept: nat,
)
    requires
        values.len() == shapes.len(),
        at <= shapes.len(),
        forall|i: int| 0 <= i < shapes.len() ==> conforms(shapes[i], #[trigger] values[i]),
        kept < encode_fields(order, shapes, values, at).len(),
    ensures
        decode_fields(order, shapes, at, encode_fields(order, shapes, values, at).take(kept as int))
            == Err::<(Seq<Value>, Seq<u8>), Error>(Error::MissingData),
    decreases shapes, shapes.len() - at,
{
    let first = encode(order, shapes[at as int], values[at as int]);
    let others = encode_fields(order, shapes, values, at + 1);
    let cut = encode_fields(order, shapes, values, at).take(kept as int);
    assert(conforms(shapes[at as int], values[at as int]));
    if kept < first.len() {
        assert(cut =~= first.take(kept as int));
        law_truncated(order, shapes[at as int], values[at as int], kept);
    } else {
        let tail = others.take(kept - first.len());
        assert(cut =~= first + tail);
        law_round_trip(order, shapes[at as int], values[at as int], tail);
        law_fields_truncated(order, shapes, values, at + 1, (kept - first.len()) as nat);
    }
}

/// The groups of a sequence or map, cut short by one byte or more, are
/// reported as missing data.
pub proof fn law_groups_truncated(
    order: ByteOrder,
    group: Seq<Shape>,
    groups: Seq<Seq<Value>>,
    at: nat,
    kept: nat,
)
    requires
        at <= groups.len(),
        forall|g: int| 0 <= g < groups.len() ==> (#[trigger] groups[g]).len() == group.len(),
        forall|g: int, i: int|
            0 <= g < groups.len() && 0 <= i < group.len() ==> conforms(
                group[i],
                #[trigger] groups[g][i],
            ),
        kept < encode_groups(order, group, groups, at).len(),
    ensures
        decode_groups(
            order,
            group,
            (groups.len() - at) as nat,
            encode_groups(order, group, groups, at).take(kept as int),
        ) == Err::<(Seq<Seq<Value>>, Seq<u8>), Error>(Error::MissingData),
    decreases group, group.len() + 1 + (groups.len() - at),
{
    let first = encode_fields(order, group, groups[at as int], 0);
    let others = encode_groups(order, group, groups, at + 1);
    let cut = encode_groups(order, group, groups, at).take(kept as int);
    assert(groups[at as int].len() == group.len());
    if kept < first.len() {
        assert(cut =~= first.take(kept as int));
        law_fields_truncated(order, group, groups[at as int], 0, kept);
    } else {
        let tail = others.take(kept - first.len());
        assert(cut =~= first + tail);
        law_fields_round_trip(order, group, groups[at as int], 0, tail);
        law_groups_truncated(order, group, groups, at + 1, (kept - first.len()) as nat);
    }
}

/// A variant index that has no variant is read without fault, and what
/// comes back is the error that the binding reports for it, whatever
/// follows the index.
pub proof fn law_unknown_variant(
    order: ByteOrder,
    payloads: Seq<Shape>,
    unknown: Error,
    index: nat,
    rest: Seq<u8>,
)
    requires
        payloads.len() <= index <= u32::MAX,
    ensures
        decode(order, Shape::Variants(payloads, unknown), len_bytes(order, index) + rest) == Err::<
            (Value, Seq<u8>),
            Error,
        >(unknown),
{
    lemma_radix_values();
    law_uint_round_trip(order, index, 4, rest);
}

} // verus!
