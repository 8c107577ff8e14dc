use proto_rw::codec::{Codec, VariantCodec};
use proto_rw::enums::{build_enum, handle_unit};
use proto_rw::error::ProtoRwError;
use proto_rw::resolver::{build_type_quotes, find_entity, is_called, schema_violation};
use proto_rw::schema::{
    DirectiveQueues, Entity, FieldId, FieldSpec, Payload, RecordSpec, TypeDescriptor, UnionSpec,
    VariantSpec,
};
use proto_rw::structs::{build_struct, handle_named_fields, handle_unnamed_fields};
use proto_rw::types::endian::{Endianness, Width};
use proto_rw::types::integer::{Integer, WireIntKind};
use std::collections::VecDeque;

fn opaque(name: &str) -> TypeDescriptor {
    TypeDescriptor::Opaque { name: name.to_string() }
}

fn sequence(element: TypeDescriptor) -> TypeDescriptor {
    TypeDescriptor::Sequence { element: Box::new(element) }
}

fn var(width: Width) -> WireIntKind {
    WireIntKind::VarInt { width, signed: false }
}

fn le_u32() -> TypeDescriptor {
    TypeDescriptor::FixedWidth {
        endianness: Endianness::Little,
        width: Width::W32,
        signed: false,
        is_float: false,
    }
}

fn queues(conversions: Vec<Option<TypeDescriptor>>, lengths: Vec<WireIntKind>) -> DirectiveQueues {
    DirectiveQueues { conversions: VecDeque::from(conversions), lengths: VecDeque::from(lengths) }
}

fn violation(message: &str) -> ProtoRwError {
    ProtoRwError::SchemaViolation(message.to_string())
}

fn converted(name: &str, wire: Codec) -> Codec {
    Codec::Converted { name: name.to_string(), wire: Box::new(wire) }
}

#[test]
fn numbers_resolve_to_their_codecs() {
    let mut props = DirectiveQueues::new();
    let registry = Vec::new();
    assert_eq!(
        build_type_quotes(&TypeDescriptor::Byte, &mut props, &registry, true),
        Ok(Codec::Int(WireIntKind::Byte))
    );
    assert_eq!(
        build_type_quotes(&le_u32(), &mut props, &registry, true),
        Ok(Codec::Int(WireIntKind::FixedWidth {
            endianness: Endianness::Little,
            width: Width::W32,
            signed: false,
        }))
    );
    let var = TypeDescriptor::VarInt { width: Width::W64, signed: true };
    assert_eq!(
        build_type_quotes(&var, &mut props, &registry, true),
        Ok(Codec::Int(WireIntKind::VarInt { width: Width::W64, signed: true }))
    );
    let float = |width| TypeDescriptor::FixedWidth {
        endianness: Endianness::Big,
        width,
        signed: true,
        is_float: true,
    };
    assert_eq!(
        build_type_quotes(&float(Width::W64), &mut props, &registry, true),
        Ok(Codec::Float { endianness: Endianness::Big, width: Width::W64 })
    );
    assert_eq!(
        build_type_quotes(&float(Width::W16), &mut props, &registry, true),
        Err(violation("a float is 32 or 64 bits wide"))
    );
    assert_eq!(props, DirectiveQueues::new());
}

#[test]
fn sequences_take_lengths_in_the_order_they_are_met() {
    // ((Vec<Vec<u8>>, Vec<bool>), Vec<u8>)
    let ty = TypeDescriptor::Tuple {
        elements: vec![
            TypeDescriptor::Tuple {
                elements: vec![sequence(sequence(TypeDescriptor::Byte)), sequence(opaque("bool"))],
            },
            sequence(TypeDescriptor::Byte),
        ],
    };
    let mut props = queues(
        vec![],
        vec![var(Width::W16), var(Width::W32), var(Width::W64), var(Width::W128), WireIntKind::Byte],
    );
    let codec = build_type_quotes(&ty, &mut props, &Vec::new(), true).unwrap();
    let byte = || Box::new(Codec::Int(WireIntKind::Byte));
    assert_eq!(
        codec,
        Codec::Tuple {
            elements: vec![
                Codec::Tuple {
                    elements: vec![
                        Codec::Sequence {
                            count: var(Width::W16),
                            element: Box::new(Codec::Sequence {
                                count: var(Width::W32),
                                element: byte(),
                            }),
                        },
                        Codec::Sequence { count: var(Width::W64), element: Box::new(Codec::Bool) },
                    ],
                },
                Codec::Sequence { count: var(Width::W128), element: byte() },
            ],
        }
    );
    // one kind is left over
    assert_eq!(props, queues(vec![], vec![WireIntKind::Byte]));
}

#[test]
fn a_sequence_without_a_length_is_a_schema_violation() {
    let ty = TypeDescriptor::Tuple {
        elements: vec![sequence(TypeDescriptor::Byte), sequence(TypeDescriptor::Byte)],
    };
    let mut props = queues(vec![Some(opaque("X")), None, None], vec![var(Width::W16)]);
    assert_eq!(
        build_type_quotes(&ty, &mut props, &Vec::new(), true),
        Err(violation("no length directive is left for a sequence"))
    );
    // what was used before the violation was met is gone from the queues
    assert_eq!(props, queues(vec![None, None], vec![]));
    let mut props = DirectiveQueues::new();
    assert_eq!(
        props.pop_length(),
        Err(violation("no length directive is left for a sequence"))
    );
    let mut props = queues(vec![], vec![var(Width::W16), WireIntKind::Byte]);
    assert_eq!(props.pop_length(), Ok(var(Width::W16)));
    assert_eq!(props.pop_length(), Ok(WireIntKind::Byte));
}

#[test]
fn conversions_go_by_the_position_of_the_leaf() {
    // (LE<u32>, A, [B; 2], Vec<C>, D): leaves 0 to 4
    let ty = TypeDescriptor::Tuple {
        elements: vec![
            le_u32(),
            opaque("A"),
            TypeDescriptor::FixedArray { element: Box::new(opaque("B")), length: 2 },
            sequence(opaque("C")),
            opaque("bool"),
        ],
    };
    let mut props = queues(
        vec![
            Some(opaque("bool")),
            Some(TypeDescriptor::Byte),
            None,
            Some(sequence(opaque("String"))),
        ],
        vec![var(Width::W16), var(Width::W32)],
    );
    let registry = vec![Entity { name: "B".to_string(), codec: Codec::Text }];
    let codec = build_type_quotes(&ty, &mut props, &registry, true).unwrap();
    assert_eq!(
        codec,
        Codec::Tuple {
            elements: vec![
                // the entry at a number is passed over
                Codec::Int(WireIntKind::FixedWidth {
                    endianness: Endianness::Little,
                    width: Width::W32,
                    signed: false,
                }),
                converted("A", Codec::Int(WireIntKind::Byte)),
                // a gap: the entity of that name
                Codec::Array { element: Box::new(Codec::Text), length: 2 },
                // the conversion type takes a length after the sequence around it
                Codec::Sequence {
                    count: var(Width::W16),
                    element: Box::new(converted(
                        "C",
                        Codec::Sequence { count: var(Width::W32), element: Box::new(Codec::Text) },
                    )),
                },
                // past the end of the queue: no conversion
                Codec::Bool,
            ],
        }
    );
    assert_eq!(props, DirectiveQueues::new());
}

#[test]
fn conversions_do_not_apply_within_a_conversion_type() {
    let mut props = queues(vec![Some(opaque("Inner")), Some(opaque("bool"))], vec![]);
    let registry = vec![Entity { name: "Inner".to_string(), codec: Codec::Text }];
    let codec = build_type_quotes(&opaque("Outer"), &mut props, &registry, true).unwrap();
    assert_eq!(codec, converted("Outer", Codec::Text));
    assert_eq!(props, queues(vec![Some(opaque("bool"))], vec![]));
    let mut props = queues(vec![Some(opaque("bool"))], vec![]);
    assert_eq!(props.pop_conversion(false), None);
    assert_eq!(props.pop_conversion(true), Some(opaque("bool")));
    assert_eq!(props.pop_conversion(true), None);
    // with conversions switched off the queue is not touched
    let mut props = queues(vec![Some(opaque("bool"))], vec![]);
    let codec = build_type_quotes(&opaque("Inner"), &mut props, &registry, false).unwrap();
    assert_eq!(codec, Codec::Text);
    assert_eq!(props, queues(vec![Some(opaque("bool"))], vec![]));
}

#[test]
fn opaque_types_are_built_in_or_compiled_before() {
    let registry = vec![
        Entity { name: "E".to_string(), codec: Codec::Bool },
        Entity { name: "E".to_string(), codec: Codec::Text },
    ];
    let mut props = DirectiveQueues::new();
    assert_eq!(build_type_quotes(&opaque("bool"), &mut props, &registry, true), Ok(Codec::Bool));
    assert_eq!(build_type_quotes(&opaque("String"), &mut props, &registry, true), Ok(Codec::Text));
    assert_eq!(build_type_quotes(&opaque("E"), &mut props, &registry, true), Ok(Codec::Bool));
    assert_eq!(
        build_type_quotes(&opaque("F"), &mut props, &registry, true),
        Err(violation("an opaque type is neither built in nor compiled before"))
    );
    assert_eq!(find_entity(&registry, &"E".to_string()), Some(0));
    assert_eq!(find_entity(&registry, &"e".to_string()), None);
    assert!(is_called(&"bool".to_string(), "bool"));
    assert!(!is_called(&"bool".to_string(), "Bool"));
    assert_eq!(schema_violation("x"), violation("x"));
}

fn field(id: FieldId, descriptor: TypeDescriptor, lengths: Vec<WireIntKind>) -> FieldSpec {
    FieldSpec { id, descriptor, queues: queues(vec![], lengths) }
}

fn name(text: &str) -> FieldId {
    FieldId::Name(text.to_string())
}

#[test]
fn records_compile_field_by_field() {
    let spec = RecordSpec {
        name: "R".to_string(),
        fields: Payload::Named(vec![
            field(name("a"), sequence(TypeDescriptor::Byte), vec![var(Width::W32)]),
            field(name("b"), sequence(opaque("bool")), vec![WireIntKind::Byte]),
        ]),
    };
    assert_eq!(
        build_struct(spec, &Vec::new()),
        Ok(Codec::Record {
            name: "R".to_string(),
            fields: vec![
                Codec::Sequence {
                    count: var(Width::W32),
                    element: Box::new(Codec::Int(WireIntKind::Byte)),
                },
                Codec::Sequence { count: WireIntKind::Byte, element: Box::new(Codec::Bool) },
            ],
        })
    );
    // a field does not see the directives of the field before it
    let spec = RecordSpec {
        name: "R".to_string(),
        fields: Payload::Tuple(vec![
            field(
                FieldId::Index(0),
                sequence(TypeDescriptor::Byte),
                vec![var(Width::W32), var(Width::W32)],
            ),
            field(FieldId::Index(1), sequence(TypeDescriptor::Byte), vec![]),
        ]),
    };
    assert_eq!(
        build_struct(spec, &Vec::new()),
        Err(violation("no length directive is left for a sequence"))
    );
}

#[test]
fn malformed_records_are_schema_violations() {
    let unit = RecordSpec { name: "R".to_string(), fields: Payload::Unit };
    assert_eq!(
        build_struct(unit, &Vec::new()),
        Err(violation("a record without fields is not supported"))
    );
    let misnamed = "a field is not named or numbered as its group asks";
    assert_eq!(
        handle_named_fields(vec![field(FieldId::Index(0), TypeDescriptor::Byte, vec![])], &vec![]),
        Err(violation(misnamed))
    );
    assert_eq!(
        handle_unnamed_fields(vec![field(name("a"), TypeDescriptor::Byte, vec![])], &vec![]),
        Err(violation(misnamed))
    );
    assert_eq!(
        handle_unnamed_fields(
            vec![
                field(FieldId::Index(0), TypeDescriptor::Byte, vec![]),
                field(FieldId::Index(2), TypeDescriptor::Byte, vec![]),
            ],
            &vec![]
        ),
        Err(violation(misnamed))
    );
    assert_eq!(
        handle_unnamed_fields(
            vec![
                field(FieldId::Index(0), TypeDescriptor::Byte, vec![]),
                field(FieldId::Index(1), opaque("bool"), vec![]),
            ],
            &vec![]
        ),
        Ok(vec![Codec::Int(WireIntKind::Byte), Codec::Bool])
    );
    assert_eq!(handle_named_fields(vec![], &vec![]), Ok(vec![]));
    // the first violation in the order of the fields is the one reported
    assert_eq!(
        handle_named_fields(
            vec![
                field(name("a"), opaque("Missing"), vec![]),
                field(FieldId::Index(1), TypeDescriptor::Byte, vec![]),
            ],
            &vec![]
        ),
        Err(violation("an opaque type is neither built in nor compiled before"))
    );
}

fn variant(discriminant: i128, payload: Payload) -> VariantSpec {
    VariantSpec { discriminant: Integer::Signed(discriminant), payload }
}

#[test]
fn unions_compile_variant_by_variant() {
    let spec = UnionSpec {
        name: "U".to_string(),
        discriminant: WireIntKind::Byte,
        variants: vec![
            variant(0, Payload::Unit),
            variant(7, Payload::Tuple(vec![field(FieldId::Index(0), TypeDescriptor::Byte, vec![])])),
            variant(
                200,
                Payload::Named(vec![
                    field(name("x"), opaque("bool"), vec![]),
                    field(name("y"), opaque("String"), vec![]),
                ]),
            ),
        ],
    };
    assert_eq!(
        build_enum(spec, &Vec::new()),
        Ok(Codec::Union {
            name: "U".to_string(),
            discriminant: WireIntKind::Byte,
            variants: vec![
                VariantCodec { discriminant: Integer::Signed(0), fields: vec![] },
                VariantCodec {
                    discriminant: Integer::Signed(7),
                    fields: vec![Codec::Int(WireIntKind::Byte)],
                },
                VariantCodec {
                    discriminant: Integer::Signed(200),
                    fields: vec![Codec::Bool, Codec::Text],
                },
            ],
        })
    );
    assert_eq!(
        handle_unit(Integer::Unsigned(4)),
        VariantCodec { discriminant: Integer::Unsigned(4), fields: vec![] }
    );
    let empty = UnionSpec { name: "U".to_string(), discriminant: WireIntKind::Byte, variants: vec![] };
    assert_eq!(
        build_enum(empty, &Vec::new()),
        Ok(Codec::Union { name: "U".to_string(), discriminant: WireIntKind::Byte, variants: vec![] })
    );
}

#[test]
fn malformed_unions_are_schema_violations() {
    let union = |variants| UnionSpec {
        name: "U".to_string(),
        discriminant: WireIntKind::Byte,
        variants,
    };
    assert_eq!(
        build_enum(union(vec![variant(1, Payload::Unit), variant(1, Payload::Unit)]), &vec![]),
        Err(violation("two variants have the same discriminant"))
    );
    // the same number in another variant of `Integer` is a duplicate too
    let twice = vec![
        VariantSpec { discriminant: Integer::Unsigned(3), payload: Payload::Unit },
        VariantSpec { discriminant: Integer::Signed(3), payload: Payload::Unit },
    ];
    assert_eq!(
        build_enum(union(twice), &vec![]),
        Err(violation("two variants have the same discriminant"))
    );
    assert_eq!(
        build_enum(union(vec![variant(256, Payload::Unit)]), &vec![]),
        Err(violation("a discriminant does not fit the integer kind of the union"))
    );
    assert_eq!(
        build_enum(union(vec![variant(-1, Payload::Unit)]), &vec![]),
        Err(violation("a discriminant does not fit the integer kind of the union"))
    );
    let bad_field = Payload::Tuple(vec![field(FieldId::Index(0), opaque("Missing"), vec![])]);
    assert_eq!(
        build_enum(union(vec![variant(1, bad_field)]), &vec![]),
        Err(violation("an opaque type is neither built in nor compiled before"))
    );
    assert_eq!(
        proto_rw::enums::handle_named_fields(
            Integer::Signed(1),
            vec![field(FieldId::Index(0), TypeDescriptor::Byte, vec![])],
            &vec![]
        ),
        Err(violation("a field is not named or numbered as its group asks"))
    );
    assert_eq!(
        proto_rw::enums::handle_unnamed_fields(
            Integer::Signed(1),
            vec![field(FieldId::Index(0), TypeDescriptor::Byte, vec![])],
            &vec![]
        ),
        Ok(VariantCodec {
            discriminant: Integer::Signed(1),
            fields: vec![Codec::Int(WireIntKind::Byte)],
        })
    );
}
