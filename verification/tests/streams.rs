use bytes::{Bytes, BytesMut};
use proto_rw::codec::{Codec, VariantCodec};
use proto_rw::error::ProtoRwError;
use proto_rw::stream::{read_exact, write_all};
use proto_rw::types::endian::{Endianness, Width};
use proto_rw::types::integer::{write_integer, Integer, WireIntKind};
use proto_rw::types::text::{append_slice, read_text, text_to_vec};
use proto_rw::types::boolean::{bool_to_byte, read_bool};
use proto_rw::wire_type::WireType;

#[test]
fn exactly_the_bytes_asked_for_are_taken() {
    let mut buf = Bytes::from(vec![1, 2, 3, 4, 5]);
    assert_eq!(read_exact(&mut buf, 2), Ok(vec![1, 2]));
    assert_eq!(read_exact(&mut buf, 0), Ok(vec![]));
    assert_eq!(read_exact(&mut buf, 4), Err(ProtoRwError::TruncatedInput));
    assert_eq!(&buf[..], &[3, 4, 5]);
    assert_eq!(read_exact(&mut buf, 3), Ok(vec![3, 4, 5]));
    assert_eq!(buf.len(), 0);
}

#[test]
fn all_the_bytes_given_are_appended() {
    let mut buf = BytesMut::new();
    write_all(&mut buf, &vec![1, 2]);
    write_all(&mut buf, &vec![]);
    write_all(&mut buf, &vec![3]);
    assert_eq!(&buf[..], &[1, 2, 3]);
    write_integer(WireIntKind::Byte, Integer::Signed(4), &mut buf);
    assert_eq!(&buf[..], &[1, 2, 3, 4]);
    let mut out = vec![9];
    append_slice(&mut out, &[8, 7]);
    assert_eq!(out, vec![9, 8, 7]);
}

#[test]
fn text_and_booleans_as_plain_functions() {
    assert_eq!(text_to_vec("ab"), Ok(vec![2, b'a', b'b']));
    let mut buf = Bytes::from(vec![2, b'a', b'b', 1]);
    assert_eq!(read_text(&mut buf), Ok("ab".to_string()));
    assert_eq!(read_bool(&mut buf), Ok(true));
    assert_eq!(bool_to_byte(true), 1);
    assert_eq!(bool_to_byte(false), 0);
}

#[test]
fn codecs_name_their_in_memory_types() {
    let int = |width, signed| Box::new(WireType::Int { width, signed });
    let codec = Codec::Tuple {
        elements: vec![
            Codec::Int(WireIntKind::Byte),
            Codec::Int(WireIntKind::VarInt { width: Width::W64, signed: true }),
            Codec::Float { endianness: Endianness::Big, width: Width::W32 },
            Codec::Sequence {
                count: WireIntKind::Byte,
                element: Box::new(Codec::Int(WireIntKind::FixedWidth {
                    endianness: Endianness::Little,
                    width: Width::W16,
                    signed: false,
                })),
            },
            Codec::Array { element: Box::new(Codec::Bool), length: 3 },
            Codec::Text,
            Codec::Converted { name: "Id".to_string(), wire: Box::new(Codec::Bool) },
            Codec::Record { name: "R".to_string(), fields: vec![Codec::Bool] },
            Codec::Union {
                name: "U".to_string(),
                discriminant: WireIntKind::Byte,
                variants: vec![VariantCodec { discriminant: Integer::Unsigned(0), fields: vec![] }],
            },
        ],
    };
    assert_eq!(
        codec.wire_type(),
        WireType::Tuple(vec![
            WireType::Byte,
            *int(Width::W64, true),
            WireType::Float { width: Width::W32 },
            WireType::List(int(Width::W16, false)),
            WireType::Array { element: Box::new(WireType::Bool), length: 3 },
            WireType::Text,
            WireType::Named("Id".to_string()),
            WireType::Named("R".to_string()),
            WireType::Named("U".to_string()),
        ])
    );
}
