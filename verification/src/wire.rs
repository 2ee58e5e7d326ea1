//! Byte-level layout of fixed-width numbers.
//!
//! A number of `width` bytes is its `width` base-256 digits. In little order
//! the least significant digit comes first, in big order the most significant.

use vstd::prelude::*;

verus! {

/// Order in which the bytes of a fixed-width number are laid out.
#[derive(Clone, Copy, Debug, PartialEq, Eq, Structural)]
pub enum ByteOrder {
    Little,
    Big,
}

/// `256` to the power `width`: the number of values that `width` bytes can hold.
pub open spec fn radix(width: nat) -> nat
    decreases width,
{
    if width == 0 {
        1
    } else {
        256 * radix((width - 1) as nat)
    }
}

/// The `width` low base-256 digits of `value`, least significant first.
pub open spec fn le_digits(value: nat, width: nat) -> Seq<u8>
    decreases width,
{
    if width == 0 {
        Seq::empty()
    } else {
        seq![(value % 256) as u8] + le_digits(value / 256, (width - 1) as nat)
    }
}

/// The number whose base-256 digits, least significant first, are `digits`.
pub open spec fn le_value(digits: Seq<u8>) -> nat
    decreases digits.len(),
{
    if digits.len() == 0 {
        0
    } else {
        digits[0] as nat + 256 * le_value(digits.drop_first())
    }
}

/// The `width` bytes that stand for `value` in the given order.
pub open spec fn uint_bytes(order: ByteOrder, value: nat, width: nat) -> Seq<u8> {
    match order {
        ByteOrder::Little => le_digits(value, width),
        ByteOrder::Big => le_digits(value, width).reverse(),
    }
}

/// The number that `bytes` stand for in the given order.
pub open spec fn uint_value(order: ByteOrder, bytes: Seq<u8>) -> nat {
    match order {
        ByteOrder::Little => le_value(bytes),
        ByteOrder::Big => le_value(bytes.reverse()),
    }
}

/// The unsigned number with the same `8 * width` bits as the signed `value`
/// in two's complement.
pub open spec fn twos_complement(value: int, width: nat) -> nat {
    if value < 0 {
        (value + radix(width)) as nat
    } else {
        value as nat
    }
}

/// The signed number with the same `8 * width` bits as the unsigned `value`
/// in two's complement.
pub open spec fn from_twos_complement(value: nat, width: nat) -> int {
    if 2 * value >= radix(width) {
        value - radix(width)
    } else {
        value as int
    }
}

/// The `width` bytes that stand for the signed `value` in the given order.
pub open spec fn int_bytes(order: ByteOrder, value: int, width: nat) -> Seq<u8> {
    uint_bytes(order, twos_complement(value, width), width)
}

/// The signed number that `bytes` stand for in the given order.
pub open spec fn int_value(order: ByteOrder, bytes: Seq<u8>) -> int {
    from_twos_complement(uint_value(order, bytes), bytes.len())
}

/// The values of `radix` at the widths of the machine integers.
pub proof fn lemma_radix_values()
    ensures
        radix(0) == 1,
        radix(1) == 0x100,
        radix(2) == 0x1_0000,
        radix(4) == 0x1_0000_0000,
        radix(8) == 0x1_0000_0000_0000_0000,
        radix(16) == 0x1_0000_0000_0000_0000_0000_0000_0000_0000,
{
    reveal_with_fuel(radix, 17);
}

/// `radix` grows with the width.
pub proof fn lemma_radix_monotonic(a: nat, b: nat)
    requires
        a <= b,
    ensures
        0 < radix(a) <= radix(b),
    decreases b,
{
    if b == 0 {
    } else if a == b {
        lemma_radix_monotonic((a - 1) as nat, (b - 1) as nat);
    } else {
        lemma_radix_monotonic(a, (b - 1) as nat);
    }
}

/// `le_digits` yields exactly `width` bytes.
pub proof fn lemma_le_digits_len(value: nat, width: nat)
    ensures
        le_digits(value, width).len() == width,
    decreases width,
{
    if width > 0 {
        lemma_le_digits_len(value / 256, (width - 1) as nat);
    }
}

/// The value of a digit sequence is below the radix of its length.
pub proof fn lemma_le_value_bound(digits: Seq<u8>)
    ensures
        le_value(digits) < radix(digits.len()),
    decreases digits.len(),
{
    if digits.len() > 0 {
        lemma_le_value_bound(digits.drop_first());
    }
}

/// Reading back the digits of a number that fits gives the number.
pub proof fn lemma_le_value_of_digits(value: nat, width: nat)
    requires
        value < radix(width),
    ensures
        le_value(le_digits(value, width)) == value,
    decreases width,
{
    if width > 0 {
        let rest = le_digits(value / 256, (width - 1) as nat);
        let all = le_digits(value, width);
        lemma_le_value_of_digits(value / 256, (width - 1) as nat);
        lemma_le_digits_len(value / 256, (width - 1) as nat);
        assert(all.drop_first() =~= rest);
        assert(all[0] == (value % 256) as u8);
    }
}

/// In either order, `uint_bytes` yields exactly `width` bytes.
pub proof fn lemma_uint_bytes_len(order: ByteOrder, value: nat, width: nat)
    ensures
        uint_bytes(order, value, width).len() == width,
{
    lemma_le_digits_len(value, width);
}

/// In either order the value of a byte sequence is below the radix of its length.
pub proof fn lemma_uint_value_bound(order: ByteOrder, bytes: Seq<u8>)
    ensures
        uint_value(order, bytes) < radix(bytes.len()),
{
    lemma_le_value_bound(bytes);
    lemma_le_value_bound(bytes.reverse());
}

/// Reading the bytes of an unsigned number that fits gives the number back.
pub proof fn lemma_uint_round_trip(order: ByteOrder, value: nat, width: nat)
    requires
        value < radix(width),
    ensures
        uint_value(order, uint_bytes(order, value, width)) == value,
{
    lemma_le_value_of_digits(value, width);
    assert(le_digits(value, width).reverse().reverse() =~= le_digits(value, width));
}

/// Two's complement maps the signed range of a width onto the unsigned range
/// and back.
pub proof fn lemma_twos_complement_round_trip(value: int, width: nat)
    requires
        width > 0,
        -(radix(width) as int) <= 2 * value < radix(width),
    ensures
        twos_complement(value, width) < radix(width),
        from_twos_complement(twos_complement(value, width), width) == value,
{
}

/// Reading the bytes of a signed number that fits gives the number back.
pub proof fn lemma_int_round_trip(order: ByteOrder, value: int, width: nat)
    requires
        width > 0,
        -(radix(width) as int) <= 2 * value < radix(width),
    ensures
        int_value(order, int_bytes(order, value, width)) == value,
{
    lemma_twos_complement_round_trip(value, width);
    lemma_uint_round_trip(order, twos_complement(value, width), width);
    lemma_uint_bytes_len(order, twos_complement(value, width), width);
}

/// One byte is laid out the same in either order.
pub proof fn lemma_single_byte(order: ByteOrder, byte: u8)
    ensures
        uint_bytes(order, byte as nat, 1) == seq![byte],
        uint_value(order, seq![byte]) == byte,
{
    reveal_with_fuel(le_digits, 2);
    reveal_with_fuel(le_value, 2);
    assert(le_digits(byte as nat, 1) =~= seq![byte]);
    assert(seq![byte].reverse() =~= seq![byte]);
    assert(seq![byte].drop_first() =~= Seq::<u8>::empty());
}

/// Whether `width` is the byte width of one of the machine integers.
pub open spec fn is_int_width(width: nat) -> bool {
    width == 1 || width == 2 || width == 4 || width == 8 || width == 16
}

/// Whether the signed `value` fits in `width` bytes.
pub open spec fn fits_signed(value: int, width: nat) -> bool {
    -(radix(width) as int) <= 2 * value < radix(width)
}

/// `u16::to_ne_bytes`: the two bytes of `value` as this machine lays them
/// out. The claim is that this is one of the two orders; which one is left
/// open.
#[verifier::external_body]
fn native_bytes_of_u16(value: u16) -> (bytes: [u8; 2])
    ensures
        bytes@ == uint_bytes(ByteOrder::Little, value as nat, 2) || bytes@ == uint_bytes(
            ByteOrder::Big,
            value as nat,
            2,
        ),
{
    value.to_ne_bytes()
}

impl ByteOrder {
    /// The order that a machine uses, told from how it lays out the number
    /// one in two bytes: little where the one comes first, big where it comes
    /// last.
    pub fn of_probe(probe: [u8; 2]) -> (order: ByteOrder)
        ensures
            order == ByteOrder::Little <==> probe@[0] == 1,
            probe@ == uint_bytes(ByteOrder::Little, 1, 2) || probe@ == uint_bytes(
                ByteOrder::Big,
                1,
                2,
            ) ==> probe@ == uint_bytes(order, 1, 2),
    {
        proof {
            reveal_with_fuel(le_digits, 3);
            assert(le_digits(1, 2) =~= seq![1u8, 0u8]);
            assert(seq![1u8, 0u8].reverse() =~= seq![0u8, 1u8]);
        }
        if probe[0] == 1 {
            ByteOrder::Little
        } else {
            ByteOrder::Big
        }
    }

    /// The byte order of the machine that runs this code, found by looking at
    /// how it lays out the number one. Which order that is depends on the
    /// machine, so nothing is promised of it.
    pub fn native() -> ByteOrder {
        ByteOrder::of_probe(native_bytes_of_u16(1))
    }
}

/// Appends `digits` to `buf` last byte first.
fn push_reversed(buf: &mut Vec<u8>, digits: &Vec<u8>)
    ensures
        final(buf)@ == old(buf)@ + digits@.reverse(),
{
    let ghost start = buf@;
    let mut left: usize = digits.len();
    while left > 0
        invariant
            left <= digits.len(),
            buf@ == start + digits@.reverse().subrange(0, digits.len() - left),
        decreases left,
    {
        left = left - 1;
        buf.push(digits[left]);
        assert(buf@ =~= start + digits@.reverse().subrange(0, digits.len() - left));
    }
    assert(digits@.reverse().subrange(0, digits.len() as int) =~= digits@.reverse());
}

/// Appends the `width` low base-256 digits of `value`, least significant first.
fn push_digits(buf: &mut Vec<u8>, value: u128, width: usize)
    ensures
        final(buf)@ == old(buf)@ + le_digits(value as nat, width as nat),
{
    let ghost start = buf@;
    let mut rest: u128 = value;
    let mut done: usize = 0;
    while done < width
        invariant
            done <= width,
            buf@ + le_digits(rest as nat, (width - done) as nat) == start + le_digits(
                value as nat,
                width as nat,
            ),
        decreases width - done,
    {
        let ghost before = buf@;
        let ghost tail = le_digits((rest / 256) as nat, (width - done - 1) as nat);
        let digit: u8 = (rest % 256) as u8;
        assert(le_digits(rest as nat, (width - done) as nat) == seq![digit] + tail);
        buf.push(digit);
        assert(buf@ + tail =~= before + (seq![digit] + tail));
        rest = rest / 256;
        done = done + 1;
    }
    assert(buf@ + Seq::<u8>::empty() =~= buf@);
}

/// Appends to `buf` the `width` bytes that stand for `value` in the given
/// order. A `value` too large for `width` bytes loses its high digits.
pub fn put_uint(buf: &mut Vec<u8>, order: ByteOrder, value: u128, width: usize)
    ensures
        final(buf)@ == old(buf)@ + uint_bytes(order, value as nat, width as nat),
{
    match order {
        ByteOrder::Little => push_digits(buf, value, width),
        ByteOrder::Big => {
            let mut digits: Vec<u8> = Vec::new();
            push_digits(&mut digits, value, width);
            assert(digits@ =~= le_digits(value as nat, width as nat));
            push_reversed(buf, &digits);
        },
    }
}

/// The number that `bytes` stand for in the given order.
pub fn take_uint(bytes: &[u8], order: ByteOrder) -> (value: u128)
    requires
        bytes@.len() <= 16,
    ensures
        value == uint_value(order, bytes@),
{
    let count: usize = bytes.len();
    let mut acc: u128 = 0;
    let mut seen: usize = 0;
    proof {
        lemma_radix_values();
    }
    while seen < count
        invariant
            count == bytes@.len(),
            count <= 16,
            seen <= count,
            acc < radix(seen as nat),
            radix(16) == 0x1_0000_0000_0000_0000_0000_0000_0000_0000,
            order == ByteOrder::Little ==> acc == le_value(
                bytes@.subrange(count - seen, count as int),
            ),
            order == ByteOrder::Big ==> acc == le_value(bytes@.subrange(0, seen as int).reverse()),
        decreases count - seen,
    {
        let at: usize = match order {
            ByteOrder::Little => count - seen - 1,
            ByteOrder::Big => seen,
        };
        let digit: u8 = bytes[at];
        proof {
            lemma_radix_monotonic((seen + 1) as nat, 16);
            assert(acc * 256 + digit < radix((seen + 1) as nat));
            let wider = match order {
                ByteOrder::Little => bytes@.subrange(count - seen - 1, count as int),
                ByteOrder::Big => bytes@.subrange(0, seen + 1).reverse(),
            };
            let narrower = match order {
                ByteOrder::Little => bytes@.subrange(count - seen, count as int),
                ByteOrder::Big => bytes@.subrange(0, seen as int).reverse(),
            };
            assert(wider[0] == digit);
            assert(wider.drop_first() =~= narrower);
        }
        acc = acc * 256 + digit as u128;
        seen = seen + 1;
    }
    proof {
        assert(bytes@.subrange(0, count as int) =~= bytes@);
    }
    acc
}

/// The unsigned number with the same bits as the signed `value` at a width of
/// `width` bytes.
pub fn signed_to_bits(value: i128, width: usize) -> (bits: u128)
    requires
        is_int_width(width as nat),
        fits_signed(value as int, width as nat),
    ensures
        bits == twos_complement(value as int, width as nat),
        bits < radix(width as nat),
{
    proof {
        lemma_radix_values();
    }
    if value >= 0 {
        value as u128
    } else if width == 16 {
        (value - i128::MIN) as u128 + 0x8000_0000_0000_0000_0000_0000_0000_0000u128
    } else {
        let modulus: i128 = if width == 1 {
            0x100
        } else if width == 2 {
            0x1_0000
        } else if width == 4 {
            0x1_0000_0000
        } else {
            0x1_0000_0000_0000_0000
        };
        (value + modulus) as u128
    }
}

/// The signed number with the same bits as the unsigned `bits` at a width of
/// `width` bytes.
pub fn bits_to_signed(bits: u128, width: usize) -> (value: i128)
    requires
        is_int_width(width as nat),
        bits < radix(width as nat),
    ensures
        value == from_twos_complement(bits as nat, width as nat),
        fits_signed(value as int, width as nat),
{
    proof {
        lemma_radix_values();
    }
    if width == 16 {
        if bits >= 0x8000_0000_0000_0000_0000_0000_0000_0000u128 {
            (bits - 0x8000_0000_0000_0000_0000_0000_0000_0000u128) as i128 + i128::MIN
        } else {
            bits as i128
        }
    } else {
        let modulus: i128 = if width == 1 {
            0x100
        } else if width == 2 {
            0x1_0000
        } else if width == 4 {
            0x1_0000_0000
        } else {
            0x1_0000_0000_0000_0000
        };
        let plain: i128 = bits as i128;
        if 2 * plain >= modulus {
            plain - modulus
        } else {
            plain
        }
    }
}

} // verus!
