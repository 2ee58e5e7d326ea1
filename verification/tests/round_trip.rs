use wire_codec::de::Decoder;
use wire_codec::error::Error;
use wire_codec::ser::Encoder;
use wire_codec::wire::ByteOrder;

const ORDERS: [ByteOrder; 2] = [ByteOrder::Little, ByteOrder::Big];

#[derive(Debug, PartialEq)]
struct Record {
    id: u32,
    name: String,
    tag: Option<bool>,
}

fn write_record<'a>(enc: Encoder<'a>, record: &Record) -> Encoder<'a> {
    let enc = enc.serialize_struct("Record", 3);
    let enc = enc.serialize_u32(record.id);
    let enc = enc.serialize_str(&record.name);
    let enc = match record.tag {
        None => enc.serialize_none(),
        Some(flag) => enc.serialize_some().serialize_bool(flag),
    };
    enc.end()
}

fn read_record(dec: &mut Decoder<'_>) -> Result<Record, Error> {
    let mut fields = dec.deserialize_struct("Record", &["id", "name", "tag"]);
    let id = fields.next_element_seed().unwrap().decode_u32()?;
    let name = fields.next_element_seed().unwrap().deserialize_string()?;
    let slot = fields.next_element_seed().unwrap();
    let tag = if slot.deserialize_option()? { Some(slot.deserialize_bool()?) } else { None };
    assert!(fields.next_element_seed().is_none());
    Ok(Record { id, name, tag })
}

#[derive(Debug, PartialEq)]
enum Shape {
    Empty,
    One(u16),
    Pair(u8, i8),
    Named { wide: bool },
}

fn write_shape<'a>(enc: Encoder<'a>, shape: &Shape) -> Encoder<'a> {
    match shape {
        Shape::Empty => enc.serialize_unit_variant("Shape", 0, "Empty"),
        Shape::One(v) => enc.serialize_newtype_variant("Shape", 1, "One").serialize_u16(*v),
        Shape::Pair(a, b) => enc
            .serialize_tuple_variant("Shape", 2, "Pair", 2)
            .serialize_u8(*a)
            .serialize_i8(*b)
            .end(),
        Shape::Named { wide } => enc
            .serialize_struct_variant("Shape", 3, "Named", 1)
            .serialize_bool(*wide)
            .end(),
    }
}

fn read_shape(dec: &mut Decoder<'_>) -> Result<Shape, Error> {
    match dec.variant_seed()? {
        0 => {
            dec.unit_variant();
            Ok(Shape::Empty)
        }
        1 => Ok(Shape::One(dec.decode_u16()?)),
        2 => {
            let mut fields = dec.tuple_variant(2);
            let a = fields.next_element_seed().unwrap().decode_u8()?;
            let b = fields.next_element_seed().unwrap().decode_i8()?;
            Ok(Shape::Pair(a, b))
        }
        3 => {
            let mut fields = dec.struct_variant(&["wide"]);
            let wide = fields.next_element_seed().unwrap().deserialize_bool()?;
            Ok(Shape::Named { wide })
        }
        other => Err(Error::Custom(format!("no variant {other}"))),
    }
}

#[test]
fn record_example_round_trip() {
    let record = Record { id: 7, name: String::from("ok"), tag: Some(true) };
    for order in ORDERS {
        let mut buf = Vec::new();
        write_record(Encoder::with_order(&mut buf, order), &record);
        let mut dec = Decoder::with_order(&buf, order);
        assert_eq!(read_record(&mut dec).unwrap(), record);
        assert!(dec.buf.is_empty());
    }
    let mut buf = Vec::new();
    write_record(Encoder::new(&mut buf), &record);
    assert_eq!(read_record(&mut Decoder::new(&buf)).unwrap(), record);
}

#[test]
fn record_truncated_anywhere_is_missing_data() {
    let records = [
        Record { id: 7, name: String::from("ok"), tag: Some(true) },
        Record { id: u32::MAX, name: String::new(), tag: None },
    ];
    for record in &records {
        for order in ORDERS {
            let mut buf = Vec::new();
            write_record(Encoder::with_order(&mut buf, order), record);
            for kept in 0..buf.len() {
                let mut dec = Decoder::with_order(&buf[..kept], order);
                assert!(matches!(read_record(&mut dec), Err(Error::MissingData)));
            }
        }
    }
}

#[test]
fn variant_two_of_four_round_trip() {
    for order in ORDERS {
        let mut buf = Vec::new();
        write_shape(Encoder::with_order(&mut buf, order), &Shape::Pair(8, -9));
        assert_eq!(buf.len(), 6);
        let mut dec = Decoder::with_order(&buf, order);
        assert_eq!(read_shape(&mut dec).unwrap(), Shape::Pair(8, -9));
        assert!(dec.buf.is_empty());
    }
}

#[test]
fn every_variant_round_trip() {
    let shapes =
        [Shape::Empty, Shape::One(0xBEEF), Shape::Pair(0, i8::MIN), Shape::Named { wide: true }];
    for shape in &shapes {
        for order in ORDERS {
            let mut buf = Vec::new();
            write_shape(Encoder::with_order(&mut buf, order), shape);
            let mut dec = Decoder::with_order(&buf, order);
            assert_eq!(&read_shape(&mut dec).unwrap(), shape);
            for kept in 0..buf.len() {
                let mut dec = Decoder::with_order(&buf[..kept], order);
                assert!(matches!(read_shape(&mut dec), Err(Error::MissingData)));
            }
        }
    }
}

#[test]
fn unknown_variant_index_is_the_callers_error() {
    let mut buf = Vec::new();
    Encoder::with_order(&mut buf, ByteOrder::Little).serialize_unit_variant("Other", 4, "Fifth");
    let mut dec = Decoder::with_order(&buf, ByteOrder::Little);
    match read_shape(&mut dec) {
        Err(Error::Custom(text)) => assert_eq!(text, "no variant 4"),
        other => panic!("unexpected outcome {other:?}"),
    }
}

#[test]
fn unsigned_round_trip_at_the_boundaries() {
    for order in ORDERS {
        let mut buf = Vec::new();
        let enc = Encoder::with_order(&mut buf, order);
        let enc = enc.serialize_u8(0).serialize_u8(u8::MAX);
        let enc = enc.serialize_u16(0).serialize_u16(u16::MAX);
        let enc = enc.serialize_u32(0).serialize_u32(u32::MAX);
        let enc = enc.serialize_u64(0).serialize_u64(u64::MAX);
        enc.serialize_u128(0).serialize_u128(u128::MAX).serialize_u128(1 << 127);
        let mut dec = Decoder::with_order(&buf, order);
        assert_eq!(dec.decode_u8().unwrap(), 0);
        assert_eq!(dec.decode_u8().unwrap(), u8::MAX);
        assert_eq!(dec.decode_u16().unwrap(), 0);
        assert_eq!(dec.decode_u16().unwrap(), u16::MAX);
        assert_eq!(dec.decode_u32().unwrap(), 0);
        assert_eq!(dec.decode_u32().unwrap(), u32::MAX);
        assert_eq!(dec.decode_u64().unwrap(), 0);
        assert_eq!(dec.decode_u64().unwrap(), u64::MAX);
        assert_eq!(dec.decode_u128().unwrap(), 0);
        assert_eq!(dec.decode_u128().unwrap(), u128::MAX);
        assert_eq!(dec.decode_u128().unwrap(), 1 << 127);
        assert!(dec.buf.is_empty());
    }
}

#[test]
fn signed_round_trip_at_the_boundaries() {
    for order in ORDERS {
        let mut buf = Vec::new();
        let enc = Encoder::with_order(&mut buf, order);
        let enc = enc.serialize_i8(i8::MIN).serialize_i8(-1).serialize_i8(0).serialize_i8(i8::MAX);
        let enc = enc.serialize_i16(i16::MIN).serialize_i16(-1).serialize_i16(i16::MAX);
        let enc = enc.serialize_i32(i32::MIN).serialize_i32(-1).serialize_i32(i32::MAX);
        let enc = enc.serialize_i64(i64::MIN).serialize_i64(-1).serialize_i64(i64::MAX);
        enc.serialize_i128(i128::MIN).serialize_i128(-1).serialize_i128(0).serialize_i128(i128::MAX);
        let mut dec = Decoder::with_order(&buf, order);
        assert_eq!(dec.decode_i8().unwrap(), i8::MIN);
        assert_eq!(dec.decode_i8().unwrap(), -1);
        assert_eq!(dec.decode_i8().unwrap(), 0);
        assert_eq!(dec.decode_i8().unwrap(), i8::MAX);
        assert_eq!(dec.decode_i16().unwrap(), i16::MIN);
        assert_eq!(dec.decode_i16().unwrap(), -1);
        assert_eq!(dec.decode_i16().unwrap(), i16::MAX);
        assert_eq!(dec.decode_i32().unwrap(), i32::MIN);
        assert_eq!(dec.decode_i32().unwrap(), -1);
        assert_eq!(dec.decode_i32().unwrap(), i32::MAX);
        assert_eq!(dec.decode_i64().unwrap(), i64::MIN);
        assert_eq!(dec.decode_i64().unwrap(), -1);
        assert_eq!(dec.decode_i64().unwrap(), i64::MAX);
        assert_eq!(dec.decode_i128().unwrap(), i128::MIN);
        assert_eq!(dec.decode_i128().unwrap(), -1);
        assert_eq!(dec.decode_i128().unwrap(), 0);
        assert_eq!(dec.decode_i128().unwrap(), i128::MAX);
        assert!(dec.buf.is_empty());
    }
}

#[test]
fn float_bit_patterns_round_trip() {
    let singles = [0.0f32, -0.0, 1.5, f32::INFINITY, f32::NEG_INFINITY, f32::NAN, f32::MIN, f32::MAX];
    let doubles = [0.0f64, -0.0, 2.5, f64::INFINITY, f64::NEG_INFINITY, f64::NAN, f64::MIN, f64::MAX];
    let odd_nan = f32::from_bits(0x7FC0_1234);
    for order in ORDERS {
        let mut buf = Vec::new();
        let mut enc = Encoder::with_order(&mut buf, order);
        for v in singles {
            enc = enc.serialize_u32(v.to_bits());
        }
        for v in doubles {
            enc = enc.serialize_u64(v.to_bits());
        }
        enc.serialize_u32(odd_nan.to_bits());
        let mut dec = Decoder::with_order(&buf, order);
        for v in singles {
            assert_eq!(f32::from_bits(dec.decode_u32().unwrap()).to_bits(), v.to_bits());
        }
        for v in doubles {
            assert_eq!(f64::from_bits(dec.decode_u64().unwrap()).to_bits(), v.to_bits());
        }
        assert_eq!(dec.decode_u32().unwrap(), 0x7FC0_1234);
        assert!(dec.buf.is_empty());
    }
}

#[test]
fn bool_char_and_strings_round_trip() {
    let texts = ["", "ok", "h\u{e9}llo \u{4e16}\u{754c} \u{1F600}"];
    let chars = ['\0', 'z', '\u{7FF}', '\u{D7FF}', '\u{E000}', '\u{FFFF}', '\u{10000}', '\u{10FFFF}'];
    for order in ORDERS {
        let mut buf = Vec::new();
        let mut enc = Encoder::with_order(&mut buf, order);
        enc = enc.serialize_bool(true).serialize_bool(false);
        for c in chars {
            enc = enc.serialize_char(c);
        }
        for t in texts {
            enc = enc.serialize_str(t);
            enc = enc.serialize_bytes(t.as_bytes());
        }
        enc.serialize_bytes(&[0xFF, 0x00, 0x80]);
        let mut dec = Decoder::with_order(&buf, order);
        assert_eq!(dec.deserialize_bool().unwrap(), true);
        assert_eq!(dec.deserialize_bool().unwrap(), false);
        for c in chars {
            assert_eq!(dec.deserialize_char().unwrap(), c);
        }
        for t in texts {
            assert_eq!(dec.deserialize_str().unwrap(), t);
            assert_eq!(dec.deserialize_byte_buf().unwrap(), t.as_bytes().to_vec());
        }
        assert_eq!(dec.deserialize_bytes().unwrap(), &[0xFF, 0x00, 0x80]);
        assert!(dec.buf.is_empty());
    }
}

#[test]
fn strings_truncated_anywhere_are_missing_data() {
    for order in ORDERS {
        let mut buf = Vec::new();
        Encoder::with_order(&mut buf, order).serialize_str("h\u{e9}llo");
        for kept in 0..buf.len() {
            let cut = &buf[..kept];
            assert!(matches!(Decoder::with_order(cut, order).deserialize_str(), Err(Error::MissingData)));
            assert!(matches!(Decoder::with_order(cut, order).deserialize_string(), Err(Error::MissingData)));
            assert!(matches!(Decoder::with_order(cut, order).deserialize_bytes(), Err(Error::MissingData)));
            assert!(matches!(Decoder::with_order(cut, order).deserialize_byte_buf(), Err(Error::MissingData)));
        }
    }
}

#[test]
fn numbers_truncated_anywhere_are_missing_data() {
    for order in ORDERS {
        let mut buf = Vec::new();
        Encoder::with_order(&mut buf, order).serialize_u128(u128::MAX);
        for kept in 0..buf.len() {
            let cut = &buf[..kept];
            assert!(matches!(Decoder::with_order(cut, order).decode_u128(), Err(Error::MissingData)));
            assert!(matches!(Decoder::with_order(cut, order).decode_i128(), Err(Error::MissingData)));
            if kept < 8 {
                assert!(matches!(Decoder::with_order(cut, order).decode_u64(), Err(Error::MissingData)));
                assert!(matches!(Decoder::with_order(cut, order).decode_i64(), Err(Error::MissingData)));
            }
            if kept < 4 {
                assert!(matches!(Decoder::with_order(cut, order).decode_u32(), Err(Error::MissingData)));
                assert!(matches!(Decoder::with_order(cut, order).deserialize_char(), Err(Error::MissingData)));
            }
            if kept < 2 {
                assert!(matches!(Decoder::with_order(cut, order).decode_i16(), Err(Error::MissingData)));
            }
        }
    }
}

#[test]
fn nested_sequence_of_optionals_round_trip() {
    let values: Vec<Option<u16>> = vec![Some(1), None, Some(0xFFFF)];
    for order in ORDERS {
        let mut buf = Vec::new();
        let mut enc = Encoder::with_order(&mut buf, order).serialize_seq(Some(values.len()));
        for v in &values {
            match v {
                None => {
                    enc.reborrow().serialize_none().end();
                }
                Some(x) => {
                    enc.reborrow().serialize_some().serialize_u16(*x);
                }
            }
        }
        enc.end();
        let mut dec = Decoder::with_order(&buf, order);
        let mut elements = dec.deserialize_seq().unwrap();
        let mut seen = Vec::new();
        while let Some(slot) = elements.next_element_seed() {
            let present = slot.deserialize_option().unwrap();
            seen.push(if present { Some(slot.decode_u16().unwrap()) } else { None });
        }
        assert_eq!(seen, values);
        assert!(dec.buf.is_empty());
        for kept in 0..buf.len() {
            let mut dec = Decoder::with_order(&buf[..kept], order);
            let outcome = (|| -> Result<(), Error> {
                let mut elements = dec.deserialize_seq()?;
                while let Some(slot) = elements.next_element_seed() {
                    if slot.deserialize_option()? {
                        slot.decode_u16()?;
                    }
                }
                Ok(())
            })();
            assert!(matches!(outcome, Err(Error::MissingData)));
        }
    }
}

#[test]
fn map_round_trip() {
    let pairs: Vec<(u8, String)> = vec![(1, String::from("one")), (2, String::from("two"))];
    for order in ORDERS {
        let mut buf = Vec::new();
        let mut enc = Encoder::with_order(&mut buf, order).serialize_map(Some(pairs.len()));
        for (k, v) in &pairs {
            enc = enc.serialize_u8(*k).serialize_str(v);
        }
        enc.end();
        let mut dec = Decoder::with_order(&buf, order);
        let mut access = dec.deserialize_map().unwrap();
        let mut seen = Vec::new();
        while let Some(key_slot) = access.next_key_seed() {
            let k = key_slot.decode_u8().unwrap();
            let v = access.next_value_seed().deserialize_string().unwrap();
            seen.push((k, v));
        }
        assert_eq!(seen, pairs);
        assert!(dec.buf.is_empty());
    }
}
