use wire_codec::ser::Encoder;
use wire_codec::wire::ByteOrder;

fn little(buf: &mut Vec<u8>) -> Encoder<'_> {
    Encoder::with_order(buf, ByteOrder::Little)
}

fn big(buf: &mut Vec<u8>) -> Encoder<'_> {
    Encoder::with_order(buf, ByteOrder::Big)
}

#[test]
fn record_example_little_endian_bytes() {
    let mut buf = Vec::new();
    let enc = little(&mut buf);
    let enc = enc.serialize_struct("Record", 3);
    let enc = enc.serialize_u32(7);
    let enc = enc.serialize_str("ok");
    let enc = enc.serialize_some();
    let enc = enc.serialize_bool(true);
    enc.end();
    assert_eq!(
        buf,
        vec![0x07, 0x00, 0x00, 0x00, 0x02, 0x00, 0x00, 0x00, 0x6F, 0x6B, 0x01, 0x01]
    );
}

#[test]
fn record_example_big_endian_bytes() {
    let mut buf = Vec::new();
    let enc = big(&mut buf);
    let enc = enc.serialize_u32(7);
    let enc = enc.serialize_str("ok");
    let enc = enc.serialize_some();
    enc.serialize_bool(true);
    assert_eq!(
        buf,
        vec![0x00, 0x00, 0x00, 0x07, 0x00, 0x00, 0x00, 0x02, 0x6F, 0x6B, 0x01, 0x01]
    );
}

#[test]
fn native_encoder_writes_native_bytes() {
    let mut buf = Vec::new();
    let enc = Encoder::new(&mut buf);
    let enc = enc.serialize_u16(0x1234);
    let enc = enc.serialize_u32(0x1234_5678);
    let enc = enc.serialize_u64(0x0102_0304_0506_0708);
    let enc = enc.serialize_u128(0x0102_0304_0506_0708_090A_0B0C_0D0E_0F10);
    let enc = enc.serialize_i16(-2);
    let enc = enc.serialize_i32(i32::MIN);
    let enc = enc.serialize_i64(-3);
    enc.serialize_i128(i128::MIN + 5);
    let mut expected = Vec::new();
    expected.extend_from_slice(&0x1234u16.to_ne_bytes());
    expected.extend_from_slice(&0x1234_5678u32.to_ne_bytes());
    expected.extend_from_slice(&0x0102_0304_0506_0708u64.to_ne_bytes());
    expected.extend_from_slice(&0x0102_0304_0506_0708_090A_0B0C_0D0E_0F10u128.to_ne_bytes());
    expected.extend_from_slice(&(-2i16).to_ne_bytes());
    expected.extend_from_slice(&i32::MIN.to_ne_bytes());
    expected.extend_from_slice(&(-3i64).to_ne_bytes());
    expected.extend_from_slice(&(i128::MIN + 5).to_ne_bytes());
    assert_eq!(buf, expected);
}

#[test]
fn native_order_is_the_machines() {
    let probe = 1u16.to_ne_bytes();
    let expected = if probe[0] == 1 { ByteOrder::Little } else { ByteOrder::Big };
    assert_eq!(ByteOrder::native(), expected);
}

#[test]
fn order_of_a_probe() {
    assert_eq!(ByteOrder::of_probe([1, 0]), ByteOrder::Little);
    assert_eq!(ByteOrder::of_probe([0, 1]), ByteOrder::Big);
    assert_eq!(ByteOrder::of_probe(1u16.to_le_bytes()), ByteOrder::Little);
    assert_eq!(ByteOrder::of_probe(1u16.to_be_bytes()), ByteOrder::Big);
}

#[test]
fn unsigned_widths_little() {
    let mut buf = Vec::new();
    let enc = little(&mut buf);
    let enc = enc.serialize_u8(0xAB);
    let enc = enc.serialize_u16(0x0102);
    let enc = enc.serialize_u32(0x0304_0506);
    enc.serialize_u64(0x0708_090A_0B0C_0D0E);
    assert_eq!(
        buf,
        vec![0xAB, 0x02, 0x01, 0x06, 0x05, 0x04, 0x03, 0x0E, 0x0D, 0x0C, 0x0B, 0x0A, 0x09, 0x08, 0x07]
    );
}

#[test]
fn unsigned_widths_big() {
    let mut buf = Vec::new();
    let enc = big(&mut buf);
    let enc = enc.serialize_u8(0xAB);
    let enc = enc.serialize_u16(0x0102);
    let enc = enc.serialize_u32(0x0304_0506);
    enc.serialize_u64(0x0708_090A_0B0C_0D0E);
    assert_eq!(
        buf,
        vec![0xAB, 0x01, 0x02, 0x03, 0x04, 0x05, 0x06, 0x07, 0x08, 0x09, 0x0A, 0x0B, 0x0C, 0x0D, 0x0E]
    );
}

#[test]
fn u128_matches_std_in_both_orders() {
    let value = 0xFFEE_DDCC_BBAA_9988_7766_5544_3322_1100u128;
    let mut buf = Vec::new();
    little(&mut buf).serialize_u128(value);
    assert_eq!(buf, value.to_le_bytes().to_vec());
    let mut buf = Vec::new();
    big(&mut buf).serialize_u128(value);
    assert_eq!(buf, value.to_be_bytes().to_vec());
}

#[test]
fn signed_values_are_twos_complement() {
    let mut buf = Vec::new();
    let enc = little(&mut buf);
    let enc = enc.serialize_i8(-1);
    let enc = enc.serialize_i8(i8::MIN);
    let enc = enc.serialize_i16(-2);
    let enc = enc.serialize_i32(-1);
    enc.serialize_i64(i64::MIN);
    assert_eq!(
        buf,
        vec![
            0xFF, 0x80, 0xFE, 0xFF, 0xFF, 0xFF, 0xFF, 0xFF, 0x00, 0x00, 0x00, 0x00, 0x00, 0x00,
            0x00, 0x80
        ]
    );
}

#[test]
fn signed_boundaries_match_std() {
    for value in [i128::MIN, -1, 0, 1, i128::MAX] {
        let mut buf = Vec::new();
        little(&mut buf).serialize_i128(value);
        assert_eq!(buf, value.to_le_bytes().to_vec());
        let mut buf = Vec::new();
        big(&mut buf).serialize_i128(value);
        assert_eq!(buf, value.to_be_bytes().to_vec());
    }
    for value in [i64::MIN, -1, 0, 1, i64::MAX] {
        let mut buf = Vec::new();
        big(&mut buf).serialize_i64(value);
        assert_eq!(buf, value.to_be_bytes().to_vec());
    }
    for value in [i32::MIN, -1, 0, 1, i32::MAX] {
        let mut buf = Vec::new();
        little(&mut buf).serialize_i32(value);
        assert_eq!(buf, value.to_le_bytes().to_vec());
    }
    for value in [i16::MIN, -1, 0, 1, i16::MAX] {
        let mut buf = Vec::new();
        big(&mut buf).serialize_i16(value);
        assert_eq!(buf, value.to_be_bytes().to_vec());
    }
}

#[test]
fn bool_is_one_byte() {
    let mut buf = Vec::new();
    let enc = little(&mut buf);
    let enc = enc.serialize_bool(false);
    enc.serialize_bool(true);
    assert_eq!(buf, vec![0, 1]);
}

#[test]
fn char_is_four_byte_code_point() {
    let mut buf = Vec::new();
    let enc = little(&mut buf);
    let enc = enc.serialize_char('A');
    enc.serialize_char('\u{10FFFF}');
    assert_eq!(buf, vec![0x41, 0, 0, 0, 0xFF, 0xFF, 0x10, 0x00]);
}

#[test]
fn bytes_have_a_length_prefix() {
    let mut buf = Vec::new();
    let enc = little(&mut buf);
    let enc = enc.serialize_bytes(&[9, 8, 7]);
    enc.serialize_bytes(&[]);
    assert_eq!(buf, vec![3, 0, 0, 0, 9, 8, 7, 0, 0, 0, 0]);
}

#[test]
fn str_is_its_utf8_bytes_with_a_length_prefix() {
    let mut buf = Vec::new();
    let enc = big(&mut buf);
    let enc = enc.serialize_str("h\u{e9}");
    enc.serialize_str("");
    assert_eq!(buf, vec![0, 0, 0, 3, 0x68, 0xC3, 0xA9, 0, 0, 0, 0]);
}

#[test]
fn unit_shapes_write_nothing() {
    let mut buf = vec![5u8];
    let enc = little(&mut buf);
    let enc = enc.serialize_unit();
    let enc = enc.serialize_unit_struct("Marker");
    let enc = enc.serialize_tuple(2);
    let enc = enc.serialize_tuple_struct("Pair", 2);
    let enc = enc.serialize_struct("Record", 0);
    enc.end();
    assert_eq!(buf, vec![5]);
}

#[test]
fn optional_tags() {
    let mut buf = Vec::new();
    let enc = little(&mut buf);
    let enc = enc.serialize_none();
    let enc = enc.serialize_some();
    enc.serialize_u8(0x2A);
    assert_eq!(buf, vec![0, 1, 0x2A]);
}

#[test]
fn sequence_and_map_write_their_count() {
    let mut buf = Vec::new();
    let enc = little(&mut buf);
    let enc = enc.serialize_seq(Some(2));
    let enc = enc.serialize_u8(10);
    let enc = enc.serialize_u8(20);
    let enc = enc.end();
    let enc = enc.serialize_map(Some(1));
    let enc = enc.serialize_u8(1);
    let enc = enc.serialize_bool(true);
    let enc = enc.end();
    let enc = enc.serialize_seq(Some(0));
    enc.serialize_map(Some(0));
    assert_eq!(
        buf,
        vec![2, 0, 0, 0, 10, 20, 1, 0, 0, 0, 1, 1, 0, 0, 0, 0, 0, 0, 0, 0]
    );
}

#[test]
fn serialize_len_writes_four_bytes() {
    let mut buf = Vec::new();
    let enc = big(&mut buf);
    let enc = enc.serialize_len(0);
    let enc = enc.serialize_len(258);
    enc.serialize_len(u32::MAX as usize);
    assert_eq!(buf, vec![0, 0, 0, 0, 0, 0, 1, 2, 0xFF, 0xFF, 0xFF, 0xFF]);
}

#[test]
fn variants_write_their_index_first() {
    let mut buf = Vec::new();
    let enc = little(&mut buf);
    let enc = enc.serialize_unit_variant("Shape", 0, "Empty");
    let enc = enc.serialize_newtype_variant("Shape", 1, "One");
    let enc = enc.serialize_u8(7);
    let enc = enc.serialize_tuple_variant("Shape", 2, "Pair", 2);
    let enc = enc.serialize_u8(8);
    let enc = enc.serialize_u8(9);
    let enc = enc.end();
    let enc = enc.serialize_struct_variant("Shape", 3, "Named", 1);
    let enc = enc.serialize_bool(true);
    enc.end();
    assert_eq!(
        buf,
        vec![0, 0, 0, 0, 1, 0, 0, 0, 7, 2, 0, 0, 0, 8, 9, 3, 0, 0, 0, 1]
    );
}

#[test]
fn prior_contents_stay_in_front() {
    let mut buf = vec![0xAA, 0xBB];
    Encoder::with_order(&mut buf, ByteOrder::Little).serialize_u16(1);
    assert_eq!(buf, vec![0xAA, 0xBB, 1, 0]);
    Encoder::new(&mut buf).serialize_u8(3);
    assert_eq!(buf, vec![0xAA, 0xBB, 1, 0, 3]);
}

#[test]
fn reborrow_writes_through_the_same_buffer() {
    let mut buf = Vec::new();
    let mut enc = big(&mut buf);
    enc.reborrow().serialize_u16(0x0102);
    enc.reborrow().serialize_bool(true);
    let enc = enc.serialize_u8(0x2A);
    enc.end();
    assert_eq!(buf, vec![1, 2, 1, 0x2A]);
}

#[test]
fn encoder_is_not_human_readable() {
    let mut buf = Vec::new();
    let enc = Encoder::new(&mut buf);
    assert!(!enc.is_human_readable());
}

#[test]
fn floats_travel_as_their_bit_patterns() {
    let mut buf = Vec::new();
    let enc = Encoder::new(&mut buf);
    let enc = enc.serialize_u32(1.5f32.to_bits());
    enc.serialize_u64(f64::NEG_INFINITY.to_bits());
    let mut expected = Vec::new();
    expected.extend_from_slice(&1.5f32.to_ne_bytes());
    expected.extend_from_slice(&f64::NEG_INFINITY.to_ne_bytes());
    assert_eq!(buf, expected);
}
