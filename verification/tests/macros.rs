use bytes::BytesMut;
use proto_rw::codec::Codec;
use proto_rw::decode::decode;
use proto_rw::directives::{field_spec, Meta, MetaEntry};
use proto_rw::encode::encode;
use proto_rw::enums::build_enum;
use proto_rw::schema::{Entity, FieldId, FieldSpec, Payload, RecordSpec, UnionSpec, VariantSpec};
use proto_rw::structs::build_struct;
use proto_rw::syntax::{extract_discriminant_type, PathSegment, TypeExpr};
use proto_rw::types::integer::Integer;
use proto_rw::value::Value;

fn path(name: &str) -> TypeExpr {
    TypeExpr::Path(PathSegment { ident: name.to_string(), argument: None })
}

fn generic(name: &str, argument: TypeExpr) -> TypeExpr {
    TypeExpr::Path(PathSegment { ident: name.to_string(), argument: Some(Box::new(argument)) })
}

fn length(types: Vec<TypeExpr>) -> Meta {
    Meta::List {
        name: "length".to_string(),
        entries: types.into_iter().map(|ty| MetaEntry { ty, index: None }).collect(),
    }
}

fn convert(types: Vec<(TypeExpr, usize)>) -> Meta {
    Meta::List {
        name: "convert".to_string(),
        entries: types.into_iter().map(|(ty, i)| MetaEntry { ty, index: Some(i) }).collect(),
    }
}

fn named(name: &str, ty: TypeExpr, metas: Vec<Meta>) -> FieldSpec {
    field_spec(FieldId::Name(name.to_string()), &ty, &metas).unwrap()
}

fn positional(index: usize, ty: TypeExpr) -> FieldSpec {
    field_spec(FieldId::Index(index), &ty, &Vec::new()).unwrap()
}

fn example_enum() -> Codec {
    let kind = extract_discriminant_type(&generic("BE", path("i32"))).unwrap();
    let variants = (0..3)
        .map(|d| VariantSpec { discriminant: Integer::Signed(d), payload: Payload::Unit })
        .collect();
    let spec = UnionSpec { name: "ExampleEnum".to_string(), discriminant: kind, variants };
    build_enum(spec, &Vec::new()).unwrap()
}

fn example_convert() -> Codec {
    let spec = RecordSpec {
        name: "ExampleConvert".to_string(),
        fields: Payload::Tuple(vec![positional(0, path("bool"))]),
    };
    build_struct(spec, &Vec::new()).unwrap()
}

fn advanced_enum() -> Codec {
    let kind = extract_discriminant_type(&generic("Var", path("i32"))).unwrap();
    let variants = vec![
        VariantSpec {
            discriminant: Integer::Signed(0),
            payload: Payload::Tuple(vec![positional(0, path("u8"))]),
        },
        VariantSpec {
            discriminant: Integer::Signed(1),
            payload: Payload::Tuple(vec![
                positional(0, generic("LE", path("u16"))),
                positional(1, generic("LE", path("u32"))),
            ]),
        },
        VariantSpec {
            discriminant: Integer::Signed(2),
            payload: Payload::Tuple(vec![positional(0, path("String"))]),
        },
        VariantSpec {
            discriminant: Integer::Signed(3),
            payload: Payload::Named(vec![
                named("a", path("u8"), vec![]),
                named("b", generic("BE", path("u16")), vec![]),
            ]),
        },
    ];
    let spec = UnionSpec { name: "AdvancedEnum".to_string(), discriminant: kind, variants };
    build_enum(spec, &Vec::new()).unwrap()
}

fn example_struct(registry: &Vec<Entity>) -> Codec {
    let var_u32 = || generic("Var", path("u32"));
    let fields = vec![
        named("a", path("u8"), vec![]),
        named("b", path("String"), vec![]),
        named("c", generic("BE", path("i16")), vec![]),
        named("d", generic("LE", path("u32")), vec![]),
        named("e", generic("Var", path("u64")), vec![]),
        named("f", path("ExampleEnum"), vec![]),
        named("g", generic("Vec", path("u8")), vec![length(vec![var_u32()])]),
        named(
            "h",
            generic("Vec", path("ExampleEnum")),
            vec![length(vec![generic("BE", path("u16"))])],
        ),
        named(
            "i",
            generic("Vec", generic("Vec", path("u8"))),
            vec![length(vec![var_u32(), generic("Var", path("u16"))])],
        ),
        named("j", TypeExpr::Tuple(vec![generic("LE", path("i32")), path("bool")]), vec![]),
        named(
            "k",
            TypeExpr::Tuple(vec![generic("Vec", path("u8")), generic("BE", path("u16"))]),
            vec![length(vec![var_u32()])],
        ),
        named(
            "l",
            TypeExpr::Tuple(vec![
                path("bool"),
                TypeExpr::Tuple(vec![path("bool"), path("String")]),
            ]),
            vec![],
        ),
        named("m", TypeExpr::Array { element: Box::new(path("u8")), length: 4 }, vec![]),
        named("n", path("ExampleConvert"), vec![convert(vec![(path("bool"), 0)])]),
        named(
            "o",
            TypeExpr::Tuple(vec![
                path("String"),
                path("ExampleConvert"),
                generic("Vec", path("ExampleConvert")),
            ]),
            vec![
                length(vec![var_u32()]),
                convert(vec![(path("bool"), 1), (path("bool"), 2)]),
            ],
        ),
        named(
            "p",
            TypeExpr::Array { element: Box::new(path("ExampleConvert")), length: 3 },
            vec![convert(vec![(path("bool"), 0)])],
        ),
        named("q", path("AdvancedEnum"), vec![]),
    ];
    let spec = RecordSpec { name: "ExampleStruct".to_string(), fields: Payload::Named(fields) };
    build_struct(spec, registry).unwrap()
}

fn unsigned(n: u128) -> Value {
    Value::Int(Integer::Unsigned(n))
}

fn signed(n: i128) -> Value {
    Value::Int(Integer::Signed(n))
}

fn bytes(items: &[u8]) -> Value {
    Value::List(items.iter().map(|b| unsigned(*b as u128)).collect())
}

fn text(s: &str) -> Value {
    Value::Text(s.to_string())
}

fn unit(d: i128) -> Value {
    Value::Variant { discriminant: Integer::Signed(d), fields: vec![] }
}

fn converted(b: bool) -> Value {
    Value::Opaque { name: "ExampleConvert".to_string(), wire: Box::new(Value::Bool(b)) }
}

#[test]
fn macros() {
    let registry = vec![
        Entity { name: "ExampleEnum".to_string(), codec: example_enum() },
        Entity { name: "ExampleConvert".to_string(), codec: example_convert() },
        Entity { name: "AdvancedEnum".to_string(), codec: advanced_enum() },
    ];
    let codec = example_struct(&registry);

    let example = Value::List(vec![
        unsigned(42),
        text("hello"),
        signed(-100),
        unsigned(1000),
        unsigned(123456),
        unit(1),
        bytes(&[1, 2, 3, 4]),
        Value::List(vec![unit(0), unit(1), unit(2)]),
        Value::List(vec![bytes(&[1, 2, 3]), bytes(&[4, 5, 6])]),
        Value::List(vec![signed(123), Value::Bool(true)]),
        Value::List(vec![bytes(&[1, 2, 3]), unsigned(1000)]),
        Value::List(vec![
            Value::Bool(true),
            Value::List(vec![Value::Bool(false), text("world")]),
        ]),
        bytes(&[1, 2, 3, 4]),
        converted(true),
        Value::List(vec![
            text("world"),
            converted(false),
            Value::List(vec![converted(true), converted(false)]),
        ]),
        Value::List(vec![converted(true), converted(false), converted(true)]),
        Value::Variant {
            discriminant: Integer::Signed(3),
            fields: vec![unsigned(42), unsigned(1000)],
        },
    ]);

    let mut buf = BytesMut::new();
    encode(&codec, &example, &mut buf).unwrap();

    let mut cursor = buf.freeze();
    let read_example = decode(&codec, &mut cursor).unwrap();

    assert_eq!(example, read_example);
    assert_eq!(cursor.len(), 0);
}
