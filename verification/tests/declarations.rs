use proto_rw::directives::{check_meta, field_spec, handle_convert, handle_length, Meta, MetaEntry};
use proto_rw::error::ProtoRwError;
use proto_rw::schema::{DirectiveQueues, FieldId, FieldSpec, TypeDescriptor};
use proto_rw::syntax::{
    describe_type, describe_types, extract_discriminant_type, extract_generic_type,
    extract_length_type, PathSegment, TypeExpr,
};
use proto_rw::types::endian::{Endianness, Width};
use proto_rw::types::integer::WireIntKind;
use std::collections::VecDeque;

fn segment(name: &str, argument: Option<TypeExpr>) -> PathSegment {
    PathSegment { ident: name.to_string(), argument: argument.map(Box::new) }
}

fn path(name: &str) -> TypeExpr {
    TypeExpr::Path(segment(name, None))
}

fn generic(name: &str, argument: TypeExpr) -> TypeExpr {
    TypeExpr::Path(segment(name, Some(argument)))
}

fn opaque(name: &str) -> TypeDescriptor {
    TypeDescriptor::Opaque { name: name.to_string() }
}

fn violation(message: &str) -> ProtoRwError {
    ProtoRwError::SchemaViolation(message.to_string())
}

const ARGUMENT: &str = "LE, BE and Var take a number type, Vec takes a type";
const LENGTH: &str = "a length type is LE, BE or Var of an integer";
const DISCRIMINANT: &str = "a discriminant type is u8 or LE, BE or Var of an integer";
const ENTRY: &str = "convert takes types with an index, length takes types without";

#[test]
fn type_arguments_are_found() {
    let with = segment("Vec", Some(path("u8")));
    assert_eq!(extract_generic_type(&with), Some(&path("u8")));
    assert_eq!(extract_generic_type(&segment("u8", None)), None);
}

#[test]
fn types_are_described() {
    assert_eq!(describe_type(&path("u8")), Ok(TypeDescriptor::Byte));
    assert_eq!(describe_type(&path("bool")), Ok(opaque("bool")));
    assert_eq!(describe_type(&generic("Option", path("u8"))), Ok(opaque("Option")));
    assert_eq!(
        describe_type(&generic("LE", path("u32"))),
        Ok(TypeDescriptor::FixedWidth {
            endianness: Endianness::Little,
            width: Width::W32,
            signed: false,
            is_float: false,
        })
    );
    assert_eq!(
        describe_type(&generic("BE", path("i128"))),
        Ok(TypeDescriptor::FixedWidth {
            endianness: Endianness::Big,
            width: Width::W128,
            signed: true,
            is_float: false,
        })
    );
    assert_eq!(
        describe_type(&generic("BE", path("f64"))),
        Ok(TypeDescriptor::FixedWidth {
            endianness: Endianness::Big,
            width: Width::W64,
            signed: true,
            is_float: true,
        })
    );
    assert_eq!(
        describe_type(&generic("Var", path("i16"))),
        Ok(TypeDescriptor::VarInt { width: Width::W16, signed: true })
    );
    let nested = TypeExpr::Tuple(vec![
        generic("Vec", generic("Vec", path("u8"))),
        TypeExpr::Array { element: Box::new(path("Foo")), length: 3 },
        TypeExpr::Tuple(vec![]),
    ]);
    assert_eq!(
        describe_type(&nested),
        Ok(TypeDescriptor::Tuple {
            elements: vec![
                TypeDescriptor::Sequence {
                    element: Box::new(TypeDescriptor::Sequence {
                        element: Box::new(TypeDescriptor::Byte),
                    }),
                },
                TypeDescriptor::FixedArray { element: Box::new(opaque("Foo")), length: 3 },
                TypeDescriptor::Tuple { elements: vec![] },
            ],
        })
    );
    assert_eq!(
        describe_types(&vec![path("u8"), path("X")]),
        Ok(vec![TypeDescriptor::Byte, opaque("X")])
    );
}

#[test]
fn malformed_types_are_schema_violations() {
    assert_eq!(describe_type(&path("LE")), Err(violation(ARGUMENT)));
    assert_eq!(describe_type(&generic("BE", path("u8"))), Err(violation(ARGUMENT)));
    assert_eq!(describe_type(&generic("Var", path("f32"))), Err(violation(ARGUMENT)));
    assert_eq!(describe_type(&generic("Var", TypeExpr::Tuple(vec![]))), Err(violation(ARGUMENT)));
    assert_eq!(describe_type(&path("Vec")), Err(violation(ARGUMENT)));
    assert_eq!(
        describe_type(&TypeExpr::Other),
        Err(violation("unsupported type: a path, a tuple or an array is expected"))
    );
    assert_eq!(
        describe_type(&TypeExpr::Tuple(vec![path("u8"), path("Vec"), TypeExpr::Other])),
        Err(violation(ARGUMENT))
    );
    assert_eq!(
        describe_type(&generic("Vec", TypeExpr::Other)),
        Err(violation("unsupported type: a path, a tuple or an array is expected"))
    );
}

#[test]
fn length_and_discriminant_types() {
    assert_eq!(
        extract_length_type(&generic("Var", path("u32"))),
        Ok(WireIntKind::VarInt { width: Width::W32, signed: false })
    );
    assert_eq!(
        extract_length_type(&generic("BE", path("u16"))),
        Ok(WireIntKind::FixedWidth {
            endianness: Endianness::Big,
            width: Width::W16,
            signed: false,
        })
    );
    assert_eq!(
        extract_length_type(&generic("LE", path("i64"))),
        Ok(WireIntKind::FixedWidth {
            endianness: Endianness::Little,
            width: Width::W64,
            signed: true,
        })
    );
    assert_eq!(extract_length_type(&path("u8")), Err(violation(LENGTH)));
    assert_eq!(extract_length_type(&path("Var")), Err(violation(LENGTH)));
    assert_eq!(extract_length_type(&generic("LE", path("f32"))), Err(violation(LENGTH)));
    assert_eq!(extract_length_type(&generic("Vec", path("u16"))), Err(violation(LENGTH)));
    assert_eq!(extract_length_type(&TypeExpr::Tuple(vec![])), Err(violation(LENGTH)));
    assert_eq!(extract_discriminant_type(&path("u8")), Ok(WireIntKind::Byte));
    assert_eq!(
        extract_discriminant_type(&generic("Var", path("i32"))),
        Ok(WireIntKind::VarInt { width: Width::W32, signed: true })
    );
    assert_eq!(extract_discriminant_type(&path("u16")), Err(violation(DISCRIMINANT)));
    assert_eq!(extract_discriminant_type(&TypeExpr::Other), Err(violation(DISCRIMINANT)));
}

#[test]
fn conversions_are_placed_at_their_positions() {
    let mut props = DirectiveQueues::new();
    handle_convert(vec![(opaque("A"), 1), (opaque("B"), 4)], &mut props);
    assert_eq!(
        props.conversions,
        VecDeque::from(vec![None, Some(opaque("A")), None, None, Some(opaque("B"))])
    );
    handle_convert(vec![(opaque("A"), 0)], &mut props);
    assert_eq!(props.conversions, VecDeque::from(vec![Some(opaque("A"))]));
    // a position that is taken already: the conversion goes to the end
    handle_convert(vec![(opaque("A"), 2), (opaque("B"), 1), (opaque("C"), 2)], &mut props);
    assert_eq!(
        props.conversions,
        VecDeque::from(vec![None, None, Some(opaque("A")), Some(opaque("B")), Some(opaque("C"))])
    );
    handle_convert(vec![], &mut props);
    assert_eq!(props, DirectiveQueues::new());
}

#[test]
fn lengths_are_queued_in_order() {
    let mut props = DirectiveQueues::new();
    handle_convert(vec![(opaque("A"), 0)], &mut props);
    let kinds = vec![WireIntKind::Byte, WireIntKind::VarInt { width: Width::W16, signed: false }];
    handle_length(&kinds, &mut props);
    assert_eq!(props.lengths, VecDeque::from(kinds));
    assert_eq!(props.conversions, VecDeque::from(vec![Some(opaque("A"))]));
    handle_length(&vec![], &mut props);
    assert_eq!(props.lengths, VecDeque::new());
}

fn list(name: &str, entries: Vec<(TypeExpr, Option<usize>)>) -> Meta {
    Meta::List {
        name: name.to_string(),
        entries: entries.into_iter().map(|(ty, index)| MetaEntry { ty, index }).collect(),
    }
}

#[test]
fn attributes_fill_the_queues() {
    let mut props = DirectiveQueues::new();
    assert_eq!(check_meta(&mut props, &Meta::Plain), Ok(()));
    assert_eq!(props, DirectiveQueues::new());
    let convert = list("convert", vec![(path("bool"), Some(1)), (generic("LE", path("u16")), Some(2))]);
    assert_eq!(check_meta(&mut props, &convert), Ok(()));
    let length = list("length", vec![(generic("Var", path("u32")), None)]);
    assert_eq!(check_meta(&mut props, &length), Ok(()));
    let expected = DirectiveQueues {
        conversions: VecDeque::from(vec![
            None,
            Some(opaque("bool")),
            Some(TypeDescriptor::FixedWidth {
                endianness: Endianness::Little,
                width: Width::W16,
                signed: false,
                is_float: false,
            }),
        ]),
        lengths: VecDeque::from(vec![WireIntKind::VarInt { width: Width::W32, signed: false }]),
    };
    assert_eq!(props, expected);
    // a violation leaves the queues as they were
    let unknown = list("skip", vec![]);
    assert_eq!(
        check_meta(&mut props, &unknown),
        Err(violation("unsupported attribute: convert or length is expected"))
    );
    let no_index = list("convert", vec![(path("bool"), Some(0)), (path("bool"), None)]);
    assert_eq!(check_meta(&mut props, &no_index), Err(violation(ENTRY)));
    let indexed = list("length", vec![(generic("Var", path("u32")), Some(0))]);
    assert_eq!(check_meta(&mut props, &indexed), Err(violation(ENTRY)));
    let bad_length = list("length", vec![(path("u8"), None)]);
    assert_eq!(check_meta(&mut props, &bad_length), Err(violation(LENGTH)));
    let bad_convert = list("convert", vec![(path("Vec"), Some(0))]);
    assert_eq!(check_meta(&mut props, &bad_convert), Err(violation(ARGUMENT)));
    assert_eq!(props, expected);
}

#[test]
fn fields_are_made_from_their_declarations() {
    let metas = vec![
        Meta::Plain,
        list("length", vec![(generic("BE", path("u16")), None)]),
        list("length", vec![(generic("Var", path("u32")), None)]),
    ];
    let made = field_spec(FieldId::Index(3), &generic("Vec", path("u8")), &metas);
    assert_eq!(
        made,
        Ok(FieldSpec {
            id: FieldId::Index(3),
            descriptor: TypeDescriptor::Sequence { element: Box::new(TypeDescriptor::Byte) },
            // the later attribute replaces the earlier one
            queues: DirectiveQueues {
                conversions: VecDeque::new(),
                lengths: VecDeque::from(vec![WireIntKind::VarInt {
                    width: Width::W32,
                    signed: false,
                }]),
            },
        })
    );
    // the attributes are looked at before the type
    let both_wrong = field_spec(FieldId::Index(0), &TypeExpr::Other, &vec![list("x", vec![])]);
    assert_eq!(
        both_wrong,
        Err(violation("unsupported attribute: convert or length is expected"))
    );
    assert_eq!(
        field_spec(FieldId::Name("a".to_string()), &TypeExpr::Other, &vec![]),
        Err(violation("unsupported type: a path, a tuple or an array is expected"))
    );
}
