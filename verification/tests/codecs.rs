use bytes::{Bytes, BytesMut};
use proto_rw::codec::{duplicate_all, Codec, VariantCodec};
use proto_rw::decode::{decode, decode_all, decode_repeat, find_variant, same_number};
use proto_rw::encode::{encode, encode_into, encode_to_vec, mismatch_error};
use proto_rw::error::ProtoRwError;
use proto_rw::types::endian::{Endianness, Width};
use proto_rw::types::integer::{Integer, WireIntKind};
use proto_rw::value::Value;

fn unsigned(n: u128) -> Value {
    Value::Int(Integer::Unsigned(n))
}

fn byte() -> Codec {
    Codec::Int(WireIntKind::Byte)
}

fn var_u32() -> WireIntKind {
    WireIntKind::VarInt { width: Width::W32, signed: false }
}

fn two_variant_union() -> Codec {
    Codec::Union {
        name: "U".to_string(),
        discriminant: WireIntKind::Byte,
        variants: vec![
            VariantCodec { discriminant: Integer::Unsigned(0), fields: vec![] },
            VariantCodec { discriminant: Integer::Unsigned(1), fields: vec![byte()] },
        ],
    }
}

fn mismatch() -> ProtoRwError {
    ProtoRwError::Error("value does not match the codec".to_string())
}

#[test]
fn sequence_scenario() {
    let codec = Codec::Sequence { count: var_u32(), element: Box::new(byte()) };
    let value = Value::List(vec![unsigned(1), unsigned(2), unsigned(3), unsigned(4)]);
    assert_eq!(encode_to_vec(&codec, &value), Ok(vec![4, 1, 2, 3, 4]));
    let mut buf = Bytes::from(vec![4, 1, 2, 3, 4, 99]);
    assert_eq!(decode(&codec, &mut buf), Ok(value));
    assert_eq!(&buf[..], &[99]);
}

#[test]
fn union_scenario() {
    let codec = two_variant_union();
    let b9 = Value::Variant { discriminant: Integer::Unsigned(1), fields: vec![unsigned(9)] };
    assert_eq!(encode_to_vec(&codec, &b9), Ok(vec![0x01, 0x09]));
    let a = Value::Variant { discriminant: Integer::Unsigned(0), fields: vec![] };
    assert_eq!(encode_to_vec(&codec, &a), Ok(vec![0x00]));
    let mut buf = Bytes::from(vec![0x01, 0x09]);
    assert_eq!(decode(&codec, &mut buf), Ok(b9));
    let mut buf = Bytes::from(vec![0x05, 0x09, 0x08]);
    assert_eq!(
        decode(&codec, &mut buf),
        Err(ProtoRwError::UnknownDiscriminant(Integer::Unsigned(5)))
    );
    // only the discriminant was taken
    assert_eq!(&buf[..], &[0x09, 0x08]);
}

#[test]
fn round_trip_of_a_nested_value() {
    let codec = Codec::Record {
        name: "R".to_string(),
        fields: vec![
            Codec::Text,
            Codec::Sequence {
                count: WireIntKind::FixedWidth {
                    endianness: Endianness::Big,
                    width: Width::W16,
                    signed: true,
                },
                element: Box::new(Codec::Tuple {
                    elements: vec![
                        Codec::Bool,
                        Codec::Int(WireIntKind::VarInt { width: Width::W64, signed: true }),
                    ],
                }),
            },
            Codec::Array { element: Box::new(two_variant_union()), length: 2 },
            Codec::Float { endianness: Endianness::Little, width: Width::W32 },
            Codec::Converted { name: "Id".to_string(), wire: Box::new(byte()) },
        ],
    };
    let make = || Value::List(vec![
        Value::Text("h\u{e9}".to_string()),
        Value::List(vec![
            Value::List(vec![Value::Bool(true), Value::Int(Integer::Signed(-5))]),
            Value::List(vec![Value::Bool(false), Value::Int(Integer::Signed(i64::MIN as i128))]),
        ]),
        Value::List(vec![
            Value::Variant { discriminant: Integer::Unsigned(1), fields: vec![unsigned(7)] },
            Value::Variant { discriminant: Integer::Unsigned(0), fields: vec![] },
        ]),
        unsigned(1.5f32.to_bits() as u128),
        Value::Opaque { name: "Id".to_string(), wire: Box::new(unsigned(3)) },
    ]);
    let value = make();
    let bytes = encode_to_vec(&codec, &value).unwrap();
    let mut expected = vec![3, b'h', 0xC3, 0xA9, 0, 2, 1, 9, 0];
    expected.extend_from_slice(&[0xFF, 0xFF, 0xFF, 0xFF, 0xFF, 0xFF, 0xFF, 0xFF, 0xFF, 0x01]);
    expected.extend_from_slice(&[1, 7, 0]);
    expected.extend_from_slice(&1.5f32.to_le_bytes());
    expected.push(3);
    assert_eq!(bytes, expected);
    let mut buf = Bytes::from(bytes.clone());
    assert_eq!(decode(&codec, &mut buf), Ok(make()));
    assert_eq!(buf.len(), 0);
    // every proper prefix is reported as truncated
    for cut in 0..bytes.len() {
        let mut buf = Bytes::from(bytes[..cut].to_vec());
        assert_eq!(decode(&codec, &mut buf), Err(ProtoRwError::TruncatedInput), "cut {}", cut);
    }
    // a copy of the codec behaves alike
    let copy = codec.duplicate();
    assert_eq!(copy, codec);
    assert_eq!(encode_to_vec(&copy, &value), Ok(bytes));
    assert_eq!(duplicate_all(&vec![byte(), Codec::Bool]), vec![byte(), Codec::Bool]);
}

#[test]
fn encode_appends_and_leaves_the_buffer_on_error() {
    let codec = Codec::Tuple { elements: vec![byte(), Codec::Bool] };
    let mut buf = BytesMut::new();
    buf.extend_from_slice(&[7]);
    encode(&codec, &Value::List(vec![unsigned(1), Value::Bool(true)]), &mut buf).unwrap();
    assert_eq!(&buf[..], &[7, 1, 1]);
    let wrong = Value::List(vec![unsigned(1), unsigned(1)]);
    assert_eq!(encode(&codec, &wrong, &mut buf), Err(mismatch()));
    assert_eq!(&buf[..], &[7, 1, 1]);
    let mut out = vec![5];
    encode_into(&byte(), &unsigned(6), &mut out).unwrap();
    assert_eq!(out, vec![5, 6]);
}

#[test]
fn arity_mismatch_on_fixed_size_collections() {
    let array = Codec::Array { element: Box::new(byte()), length: 3 };
    let two = Value::List(vec![unsigned(1), unsigned(2)]);
    assert_eq!(encode_to_vec(&array, &two), Err(ProtoRwError::ArityMismatch { expected: 3 }));
    let tuple = Codec::Tuple { elements: vec![byte()] };
    assert_eq!(encode_to_vec(&tuple, &two), Err(ProtoRwError::ArityMismatch { expected: 1 }));
    let record = Codec::Record { name: "R".to_string(), fields: vec![] };
    assert_eq!(encode_to_vec(&record, &two), Err(ProtoRwError::ArityMismatch { expected: 0 }));
    let union = two_variant_union();
    let fat = Value::Variant { discriminant: Integer::Unsigned(0), fields: vec![unsigned(1)] };
    assert_eq!(encode_to_vec(&union, &fat), Err(ProtoRwError::ArityMismatch { expected: 0 }));
    let three = Value::List(vec![unsigned(1), unsigned(2), unsigned(3)]);
    assert_eq!(encode_to_vec(&array, &three), Ok(vec![1, 2, 3]));
    let empty = Codec::Array { element: Box::new(byte()), length: 0 };
    assert_eq!(encode_to_vec(&empty, &Value::List(vec![])), Ok(vec![]));
    let mut buf = Bytes::new();
    assert_eq!(decode(&empty, &mut buf), Ok(Value::List(vec![])));
}

#[test]
fn length_overflow_on_sequences() {
    let codec = Codec::Sequence { count: WireIntKind::Byte, element: Box::new(Codec::Bool) };
    let long = Value::List((0..256).map(|_| Value::Bool(true)).collect());
    assert_eq!(encode_to_vec(&codec, &long), Err(ProtoRwError::LengthOverflow));
    let fits = Value::List((0..255).map(|_| Value::Bool(true)).collect());
    assert_eq!(encode_to_vec(&codec, &fits).unwrap().len(), 256);
    // a negative count cannot be a number of elements
    let signed = Codec::Sequence {
        count: WireIntKind::VarInt { width: Width::W16, signed: true },
        element: Box::new(Codec::Bool),
    };
    let mut buf = Bytes::from(vec![0x01, 0x01]);
    assert_eq!(decode(&signed, &mut buf), Err(ProtoRwError::LengthOverflow));
    let mut buf = Bytes::from(vec![0x02, 0x01]);
    assert_eq!(decode(&signed, &mut buf), Ok(Value::List(vec![Value::Bool(true)])));
}

#[test]
fn mismatched_values_are_refused() {
    assert_eq!(encode_to_vec(&byte(), &Value::Bool(true)), Err(mismatch()));
    assert_eq!(encode_to_vec(&byte(), &unsigned(256)), Err(mismatch()));
    assert_eq!(encode_to_vec(&Codec::Bool, &unsigned(1)), Err(mismatch()));
    assert_eq!(encode_to_vec(&Codec::Text, &unsigned(1)), Err(mismatch()));
    let float = Codec::Float { endianness: Endianness::Big, width: Width::W32 };
    assert_eq!(encode_to_vec(&float, &unsigned(1 << 32)), Err(mismatch()));
    let seq = Codec::Sequence { count: var_u32(), element: Box::new(byte()) };
    assert_eq!(encode_to_vec(&seq, &unsigned(1)), Err(mismatch()));
    let conv = Codec::Converted { name: "A".to_string(), wire: Box::new(byte()) };
    let other = Value::Opaque { name: "B".to_string(), wire: Box::new(unsigned(1)) };
    assert_eq!(encode_to_vec(&conv, &other), Err(mismatch()));
    assert_eq!(encode_to_vec(&conv, &unsigned(1)), Err(mismatch()));
    let union = two_variant_union();
    let unknown = Value::Variant { discriminant: Integer::Unsigned(2), fields: vec![] };
    assert_eq!(encode_to_vec(&union, &unknown), Err(mismatch()));
    assert_eq!(encode_to_vec(&union, &unsigned(0)), Err(mismatch()));
    assert_eq!(mismatch_error(), mismatch());
    // the first error in writing order is the one reported
    let pair = Codec::Tuple { elements: vec![byte(), Codec::Text] };
    let both_wrong = Value::List(vec![Value::Bool(true), unsigned(1)]);
    assert_eq!(encode_to_vec(&pair, &both_wrong), Err(mismatch()));
}

#[test]
fn decode_errors_pass_through() {
    let codec = Codec::Tuple { elements: vec![Codec::Bool, Codec::Text] };
    let mut buf = Bytes::from(vec![2]);
    assert_eq!(decode(&codec, &mut buf), Err(ProtoRwError::InvalidBoolValue(2)));
    let mut buf = Bytes::from(vec![1, 1, 0xFF]);
    assert_eq!(decode(&codec, &mut buf), Err(ProtoRwError::InvalidUtf8));
    let mut buf = Bytes::from(vec![1, 0x80, 0x80, 0x80, 0x80, 0x80]);
    assert_eq!(decode(&codec, &mut buf), Err(ProtoRwError::VarIntOverflow));
}

#[test]
fn lists_of_codecs_and_values() {
    let mut buf = Bytes::from(vec![1, 0, 1]);
    assert_eq!(
        decode_repeat(&Codec::Bool, 3, &mut buf),
        Ok(vec![Value::Bool(true), Value::Bool(false), Value::Bool(true)])
    );
    let mut buf = Bytes::from(vec![1, 5]);
    assert_eq!(
        decode_all(&vec![Codec::Bool, byte()], &mut buf),
        Ok(vec![Value::Bool(true), unsigned(5)])
    );
}

#[test]
fn a_failed_write_leaves_the_output_as_it_was() {
    let codec = Codec::Tuple { elements: vec![byte(), Codec::Text, Codec::Bool] };
    let wrong = Value::List(vec![unsigned(1), Value::Text("ab".to_string()), unsigned(1)]);
    let mut out = vec![9, 9];
    assert_eq!(encode_into(&codec, &wrong, &mut out), Err(mismatch()));
    assert_eq!(out, vec![9, 9]);
    let right = Value::List(vec![unsigned(1), Value::Text("ab".to_string()), Value::Bool(true)]);
    assert_eq!(encode_into(&codec, &right, &mut out), Ok(()));
    assert_eq!(out, vec![9, 9, 1, 2, b'a', b'b', 1]);
}

#[test]
fn a_failed_read_stops_where_it_failed() {
    let codec = Codec::Tuple { elements: vec![byte(), Codec::Bool, Codec::Text] };
    // the byte of the boolean has been looked at
    let mut buf = Bytes::from(vec![1, 7, 5, 6]);
    assert_eq!(decode(&codec, &mut buf), Err(ProtoRwError::InvalidBoolValue(7)));
    assert_eq!(&buf[..], &[5, 6]);
    // the length of the text was read, its bytes are not all there
    let mut buf = Bytes::from(vec![1, 1, 3, b'a']);
    assert_eq!(decode(&codec, &mut buf), Err(ProtoRwError::TruncatedInput));
    assert_eq!(&buf[..], &[b'a']);
    // the bytes of the text were taken and are not UTF-8
    let mut buf = Bytes::from(vec![1, 1, 1, 0xFF, 4]);
    assert_eq!(decode(&codec, &mut buf), Err(ProtoRwError::InvalidUtf8));
    assert_eq!(&buf[..], &[4]);
    // a count that is no number of elements
    let seq = Codec::Sequence {
        count: WireIntKind::VarInt { width: Width::W16, signed: true },
        element: Box::new(Codec::Bool),
    };
    let mut buf = Bytes::from(vec![0x01, 0x01]);
    assert_eq!(decode(&seq, &mut buf), Err(ProtoRwError::LengthOverflow));
    assert_eq!(&buf[..], &[0x01]);
}

#[test]
fn discriminants_are_compared_as_numbers() {
    assert!(same_number(Integer::Unsigned(5), Integer::Signed(5)));
    assert!(same_number(Integer::Signed(-5), Integer::Signed(-5)));
    assert!(!same_number(Integer::Signed(-1), Integer::Unsigned(u128::MAX)));
    assert!(!same_number(Integer::Unsigned(4), Integer::Unsigned(5)));
    let variants = vec![
        VariantCodec { discriminant: Integer::Signed(7), fields: vec![] },
        VariantCodec { discriminant: Integer::Signed(-3), fields: vec![] },
        VariantCodec { discriminant: Integer::Unsigned(7), fields: vec![byte()] },
    ];
    assert_eq!(find_variant(&variants, Integer::Unsigned(7)), Some(0));
    assert_eq!(find_variant(&variants, Integer::Signed(-3)), Some(1));
    assert_eq!(find_variant(&variants, Integer::Signed(3)), None);
    // a union with discriminants that are not contiguous
    let union = Codec::Union {
        name: "U".to_string(),
        discriminant: WireIntKind::VarInt { width: Width::W32, signed: true },
        variants,
    };
    let v = Value::Variant { discriminant: Integer::Signed(-3), fields: vec![] };
    assert_eq!(encode_to_vec(&union, &v), Ok(vec![5]));
    let mut buf = Bytes::from(vec![5]);
    assert_eq!(decode(&union, &mut buf), Ok(v));
    let mut buf = Bytes::from(vec![3]);
    assert_eq!(
        decode(&union, &mut buf),
        Err(ProtoRwError::UnknownDiscriminant(Integer::Signed(-2)))
    );
}
