use bytes::{Bytes, BytesMut};
use proto_rw::error::ProtoRwError;
use proto_rw::types::endian::{fixed_from_vec, fixed_to_vec, read_fixed, reversed, Endianness, Width};
use proto_rw::types::integer::{Integer, WireIntKind};
use proto_rw::types::var::{read_varint, varint_to_vec};
use proto_rw::types::{Var, BE, LE};
use proto_rw::ProtoRw;

fn written<T: ProtoRw>(value: &T) -> Vec<u8> {
    let mut buf = BytesMut::new();
    value.write_proto(&mut buf).unwrap();
    buf.to_vec()
}

#[test]
fn big_endian_i16_scenario() {
    assert_eq!(written(&BE::<i16>(-123)), vec![0xFF, 0x85]);
    let mut buf = Bytes::from(vec![0xFF, 0x85]);
    assert_eq!(BE::<i16>::read_proto(&mut buf).unwrap().0, -123);
    assert_eq!(buf.len(), 0);
}

#[test]
fn little_endian_is_the_reverse_of_big_endian() {
    assert_eq!(written(&LE::<u32>(0x0102_0304)), vec![4, 3, 2, 1]);
    assert_eq!(written(&BE::<u32>(0x0102_0304)), vec![1, 2, 3, 4]);
    assert_eq!(written(&LE::<i16>(-123)), vec![0x85, 0xFF]);
    assert_eq!(reversed(&vec![1, 2, 3]), vec![3, 2, 1]);
}

#[test]
fn fixed_width_extremes_round_trip() {
    let mut buf = BytesMut::new();
    LE::<u128>(u128::MAX).write_proto(&mut buf).unwrap();
    BE::<i128>(i128::MIN).write_proto(&mut buf).unwrap();
    BE::<i128>(-1).write_proto(&mut buf).unwrap();
    LE::<i64>(i64::MIN).write_proto(&mut buf).unwrap();
    BE::<u16>(u16::MAX).write_proto(&mut buf).unwrap();
    LE::<i32>(i32::MAX).write_proto(&mut buf).unwrap();
    assert_eq!(buf.len(), 16 + 16 + 16 + 8 + 2 + 4);
    let mut buf = buf.freeze();
    assert_eq!(LE::<u128>::read_proto(&mut buf).unwrap().0, u128::MAX);
    assert_eq!(BE::<i128>::read_proto(&mut buf).unwrap().0, i128::MIN);
    assert_eq!(BE::<i128>::read_proto(&mut buf).unwrap().0, -1);
    assert_eq!(LE::<i64>::read_proto(&mut buf).unwrap().0, i64::MIN);
    assert_eq!(BE::<u16>::read_proto(&mut buf).unwrap().0, u16::MAX);
    assert_eq!(LE::<i32>::read_proto(&mut buf).unwrap().0, i32::MAX);
}

#[test]
fn fixed_width_vectors() {
    assert_eq!(fixed_to_vec(Endianness::Little, 2, 0xABCD), vec![0xCD, 0xAB]);
    assert_eq!(fixed_to_vec(Endianness::Big, 2, 0xABCD), vec![0xAB, 0xCD]);
    assert_eq!(fixed_to_vec(Endianness::Big, 0, 7), Vec::<u8>::new());
    assert_eq!(fixed_from_vec(Endianness::Little, &vec![0xCD, 0xAB]), 0xABCD);
    assert_eq!(fixed_from_vec(Endianness::Big, &vec![0xCD, 0xAB]), 0xCDAB);
    assert_eq!(Width::W64.byte_count(), 8);
}

#[test]
fn fixed_width_truncated_leaves_the_stream() {
    let mut buf = Bytes::from(vec![1, 2, 3]);
    assert_eq!(read_fixed(&mut buf, Endianness::Big, 4), Err(ProtoRwError::TruncatedInput));
    assert_eq!(buf.len(), 3);
    assert_eq!(LE::<u32>::read_proto(&mut buf).err(), Some(ProtoRwError::TruncatedInput));
    assert_eq!(read_fixed(&mut buf, Endianness::Big, 3), Ok(0x010203));
}

#[test]
fn varint_u32_scenario() {
    assert_eq!(written(&Var::<u32>(12345)), vec![0xB9, 0x60]);
    let mut buf = Bytes::from(vec![0xB9, 0x60]);
    assert_eq!(Var::<u32>::read_proto(&mut buf).unwrap().0, 12345);
}

#[test]
fn varint_small_values_take_one_byte() {
    for n in 0u128..128 {
        assert_eq!(varint_to_vec(n), vec![n as u8]);
    }
    assert_eq!(varint_to_vec(128), vec![0x80, 0x01]);
    assert_eq!(varint_to_vec(300), vec![0xAC, 0x02]);
}

#[test]
fn varint_encoding_is_minimal() {
    for n in [0u128, 1, 127, 128, 16383, 16384, u64::MAX as u128, u128::MAX] {
        let bytes = varint_to_vec(n);
        let (last, front) = bytes.split_last().unwrap();
        assert!(front.iter().all(|b| b & 0x80 != 0));
        assert!(last & 0x80 == 0);
        assert!(*last != 0 || bytes.len() == 1);
    }
    assert_eq!(varint_to_vec(u128::MAX).len(), 19);
}

#[test]
fn zigzag_maps_small_magnitudes_to_small_codes() {
    assert_eq!(written(&Var::<i32>(0)), vec![0]);
    assert_eq!(written(&Var::<i32>(-1)), vec![1]);
    assert_eq!(written(&Var::<i32>(1)), vec![2]);
    assert_eq!(written(&Var::<i32>(-2)), vec![3]);
    assert_eq!(written(&Var::<i32>(2)), vec![4]);
    assert_eq!(written(&Var::<i16>(i16::MIN)), vec![0xFF, 0xFF, 0x03]);
}

#[test]
fn zigzag_round_trips_on_the_whole_i16_range() {
    for v in i16::MIN..=i16::MAX {
        let mut buf = BytesMut::new();
        Var::<i16>(v).write_proto(&mut buf).unwrap();
        let mut buf = buf.freeze();
        assert_eq!(Var::<i16>::read_proto(&mut buf).unwrap().0, v);
        assert_eq!(buf.len(), 0);
    }
}

#[test]
fn varint_extremes_round_trip() {
    let mut buf = BytesMut::new();
    Var::<u128>(u128::MAX).write_proto(&mut buf).unwrap();
    Var::<i128>(i128::MIN).write_proto(&mut buf).unwrap();
    Var::<i128>(i128::MAX).write_proto(&mut buf).unwrap();
    Var::<u64>(u64::MAX).write_proto(&mut buf).unwrap();
    Var::<i64>(i64::MIN).write_proto(&mut buf).unwrap();
    Var::<u16>(u16::MAX).write_proto(&mut buf).unwrap();
    let mut buf = buf.freeze();
    assert_eq!(Var::<u128>::read_proto(&mut buf).unwrap().0, u128::MAX);
    assert_eq!(Var::<i128>::read_proto(&mut buf).unwrap().0, i128::MIN);
    assert_eq!(Var::<i128>::read_proto(&mut buf).unwrap().0, i128::MAX);
    assert_eq!(Var::<u64>::read_proto(&mut buf).unwrap().0, u64::MAX);
    assert_eq!(Var::<i64>::read_proto(&mut buf).unwrap().0, i64::MIN);
    assert_eq!(Var::<u16>::read_proto(&mut buf).unwrap().0, u16::MAX);
    assert_eq!(buf.len(), 0);
}

#[test]
fn varint_overflow_is_an_error() {
    // three continuation bytes: the chain is longer than 16 bits allow
    let mut buf = Bytes::from(vec![0x80, 0x80, 0x80, 0x00]);
    assert_eq!(Var::<u16>::read_proto(&mut buf).err(), Some(ProtoRwError::VarIntOverflow));
    // the third byte carries bits beyond the sixteenth
    let mut buf = Bytes::from(vec![0xFF, 0xFF, 0x04]);
    assert_eq!(Var::<u16>::read_proto(&mut buf).err(), Some(ProtoRwError::VarIntOverflow));
    let mut buf = Bytes::from(vec![0xFF, 0xFF, 0x03]);
    assert_eq!(Var::<u16>::read_proto(&mut buf).unwrap().0, u16::MAX);
    let mut buf = Bytes::from(vec![0xFF; 12]);
    assert_eq!(Var::<u64>::read_proto(&mut buf).err(), Some(ProtoRwError::VarIntOverflow));
    // the ten bytes that a 64-bit number may take were looked at
    assert_eq!(buf.len(), 2);
    let mut buf = Bytes::from(vec![0xFF, 0xFF, 0xFF, 0xFF, 0x0F]);
    assert_eq!(read_varint(&mut buf, 5, 16), Ok(u32::MAX as u128));
}

#[test]
fn varint_truncated_is_an_error() {
    let mut buf = Bytes::from(vec![0xB9]);
    assert_eq!(Var::<u32>::read_proto(&mut buf).err(), Some(ProtoRwError::TruncatedInput));
    let mut buf = Bytes::new();
    assert_eq!(Var::<u32>::read_proto(&mut buf).err(), Some(ProtoRwError::TruncatedInput));
    // a longer encoding of a small number is read all the same
    let mut buf = Bytes::from(vec![0x81, 0x00]);
    assert_eq!(Var::<u32>::read_proto(&mut buf).unwrap().0, 1);
}

#[test]
fn bytes_round_trip() {
    let mut buf = BytesMut::new();
    200u8.write_proto(&mut buf).unwrap();
    (-2i8).write_proto(&mut buf).unwrap();
    i8::MIN.write_proto(&mut buf).unwrap();
    i8::MAX.write_proto(&mut buf).unwrap();
    assert_eq!(buf.to_vec(), vec![200, 0xFE, 0x80, 0x7F]);
    let mut buf = buf.freeze();
    assert_eq!(u8::read_proto(&mut buf).unwrap(), 200);
    assert_eq!(i8::read_proto(&mut buf).unwrap(), -2);
    assert_eq!(i8::read_proto(&mut buf).unwrap(), i8::MIN);
    assert_eq!(i8::read_proto(&mut buf).unwrap(), i8::MAX);
    assert_eq!(u8::read_proto(&mut buf).err(), Some(ProtoRwError::TruncatedInput));
    assert_eq!(i8::read_proto(&mut buf).err(), Some(ProtoRwError::TruncatedInput));
}

#[test]
fn bool_round_trip_and_errors() {
    assert_eq!(written(&true), vec![1]);
    assert_eq!(written(&false), vec![0]);
    let mut buf = Bytes::from(vec![1, 0, 2]);
    assert_eq!(bool::read_proto(&mut buf), Ok(true));
    assert_eq!(bool::read_proto(&mut buf), Ok(false));
    assert_eq!(bool::read_proto(&mut buf), Err(ProtoRwError::InvalidBoolValue(2)));
    assert_eq!(bool::read_proto(&mut buf), Err(ProtoRwError::TruncatedInput));
}

#[test]
fn string_round_trip_and_errors() {
    assert_eq!(written(&"hello".to_string()), vec![5, b'h', b'e', b'l', b'l', b'o']);
    assert_eq!(written(&String::new()), vec![0]);
    let text = "h\u{e9}llo \u{1F600}".to_string();
    let mut buf = Bytes::from(written(&text));
    assert_eq!(String::read_proto(&mut buf), Ok(text));
    let long = "x".repeat(300);
    let bytes = written(&long);
    assert_eq!(&bytes[..2], &[0xAC, 0x02]);
    let mut buf = Bytes::from(bytes);
    assert_eq!(String::read_proto(&mut buf), Ok(long));
    let mut buf = Bytes::from(vec![3, b'a', b'b']);
    assert_eq!(String::read_proto(&mut buf), Err(ProtoRwError::TruncatedInput));
    let mut buf = Bytes::from(vec![2, 0xC3, 0x28]);
    assert_eq!(String::read_proto(&mut buf), Err(ProtoRwError::InvalidUtf8));
    let mut buf = Bytes::from(vec![0x80]);
    assert_eq!(String::read_proto(&mut buf), Err(ProtoRwError::TruncatedInput));
}

#[test]
fn integer_kinds_check_their_range() {
    let byte = WireIntKind::Byte;
    assert!(byte.can_hold(Integer::Unsigned(255)));
    assert!(byte.can_hold(Integer::Signed(0)));
    assert!(!byte.can_hold(Integer::Unsigned(256)));
    assert!(!byte.can_hold(Integer::Signed(-1)));
    let short = WireIntKind::FixedWidth {
        endianness: Endianness::Big,
        width: Width::W16,
        signed: true,
    };
    assert!(short.can_hold(Integer::Signed(-32768)));
    assert!(short.can_hold(Integer::Unsigned(32767)));
    assert!(!short.can_hold(Integer::Signed(-32769)));
    assert!(!short.can_hold(Integer::Unsigned(32768)));
    let wide = WireIntKind::VarInt { width: Width::W128, signed: false };
    assert!(wide.can_hold(Integer::Unsigned(u128::MAX)));
    assert!(!wide.can_hold(Integer::Signed(-1)));
    let wide = WireIntKind::VarInt { width: Width::W128, signed: true };
    assert!(wide.can_hold(Integer::Signed(i128::MIN)));
    assert!(!wide.can_hold(Integer::Unsigned(1 << 127)));
    assert_eq!(short.to_vec(Integer::Signed(-123)), vec![0xFF, 0x85]);
    let mut buf = Bytes::from(vec![0xFF, 0x85]);
    assert_eq!(short.read(&mut buf), Ok(Integer::Signed(-123)));
    let mut buf = Bytes::from(vec![0xFF, 0x85]);
    assert_eq!(short.read_signed(&mut buf), Ok(-123));
    let mut buf = Bytes::from(vec![0x07]);
    assert_eq!(byte.read_unsigned(&mut buf), Ok(7));
}

#[test]
fn wrappers_convert_to_and_from_their_numbers() {
    let le: LE<u32> = 7u32.into();
    assert_eq!(le, LE(7));
    let be = BE::from(-3i64);
    assert_eq!(be, BE(-3));
    let var: Var<u16> = Var::from(9u16);
    assert_eq!(var.0, 9);
    assert_eq!(u32::from(le), 7);
    assert_eq!(i64::from(be), -3);
    assert_eq!(u16::from(var), 9);
    let wide: u128 = Var(u128::MAX).into();
    assert_eq!(wide, u128::MAX);
    let narrow: i16 = LE(i16::MIN).into();
    assert_eq!(narrow, i16::MIN);
}
