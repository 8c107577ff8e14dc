//! Declarations as they are written: type expressions and field
//! attributes, and the schema model that they stand for.
//!
//! `LE<T>`, `BE<T>` and `Var<T>` name the numbers, `Vec<T>` a sequence, `u8`
//! a byte; every other name is an opaque type.

use crate::error::{ErrorView, ProtoRwError};
use crate::resolver::{is_called, schema_violation};
use crate::schema::{descriptors_view, lemma_tuple_view, DescriptorView, TypeDescriptor};
use crate::types::endian::{Endianness, Width};
use crate::types::integer::WireIntKind;
use vstd::prelude::*;

verus! {

/// The first segment of a type path: its name and its first type
/// argument, if it has one.
#[derive(Debug, PartialEq, Eq)]
pub struct PathSegment {
    pub ident: String,
    pub argument: Option<Box<TypeExpr>>,
}

/// A type as it is written in a declaration.
#[derive(Debug, PartialEq, Eq)]
pub enum TypeExpr {
    Path(PathSegment),
    Tuple(Vec<TypeExpr>),
    Array { element: Box<TypeExpr>, length: usize },
    /// Any other form of type: a reference, a function pointer and so on.
    Other,
}

/// The mathematical content of a [`PathSegment`].
pub struct PathSegmentView {
    pub ident: Seq<char>,
    pub argument: Option<Box<TypeExprView>>,
}

/// The mathematical content of a [`TypeExpr`].
pub enum TypeExprView {
    Path(PathSegmentView),
    Tuple(Seq<TypeExprView>),
    Array { element: Box<TypeExprView>, length: nat },
    Other,
}

impl PathSegment {
    /// The content of the segment; [`View::view`] gives the same.
    pub open spec fn model(&self) -> PathSegmentView
        decreases self,
    {
        PathSegmentView {
            ident: self.ident@,
            argument: match self.argument {
                Some(argument) => Some(Box::new(argument.model())),
                None => None,
            },
        }
    }
}

impl TypeExpr {
    /// The content of the expression; [`View::view`] gives the same.
    pub open spec fn model(&self) -> TypeExprView
        decreases self,
    {
        match self {
            TypeExpr::Path(segment) => TypeExprView::Path(segment.model()),
            TypeExpr::Tuple(elements) => TypeExprView::Tuple(
                Seq::new(
                    elements.len() as nat,
                    |i: int|
                        if 0 <= i < elements.len() {
                            elements[i].model()
                        } else {
                            TypeExprView::Other
                        },
                ),
            ),
            TypeExpr::Array { element, length } => TypeExprView::Array {
                element: Box::new(element.model()),
                length: *length as nat,
            },
            TypeExpr::Other => TypeExprView::Other,
        }
    }
}

impl View for PathSegment {
    type V = PathSegmentView;

    open spec fn view(&self) -> PathSegmentView {
        self.model()
    }
}

impl View for TypeExpr {
    type V = TypeExprView;

    open spec fn view(&self) -> TypeExprView {
        self.model()
    }
}

/// The contents of a vector of type expressions, one by one.
pub open spec fn exprs_view(items: Seq<TypeExpr>) -> Seq<TypeExprView> {
    Seq::new(items.len(), |i: int| items[i]@)
}

/// The content of a tuple expression is made of the contents of its
/// elements.
pub proof fn lemma_tuple_expr_view(elements: Vec<TypeExpr>)
    ensures
        TypeExpr::Tuple(elements)@ == TypeExprView::Tuple(exprs_view(elements@)),
{
    assert(TypeExpr::Tuple(elements).model()->Tuple_0 =~= exprs_view(elements@));
}

/// A number type by its width, its signedness and whether it is a float.
pub struct NumberType {
    pub width: Width,
    pub signed: bool,
    pub is_float: bool,
}

/// The message for `LE`, `BE`, `Var` or `Vec` without a fitting type
/// argument.
pub open spec fn argument_message() -> Seq<char> {
    "LE, BE and Var take a number type, Vec takes a type"@
}

/// The message for a type that is neither a path, a tuple nor an array.
pub open spec fn unsupported_type_message() -> Seq<char> {
    "unsupported type: a path, a tuple or an array is expected"@
}

/// The message for a length type that is not an integer in `LE`, `BE` or
/// `Var`.
pub open spec fn length_type_message() -> Seq<char> {
    "a length type is LE, BE or Var of an integer"@
}

/// The message for a discriminant type that is neither `u8` nor an
/// integer in `LE`, `BE` or `Var`.
pub open spec fn discriminant_type_message() -> Seq<char> {
    "a discriminant type is u8 or LE, BE or Var of an integer"@
}

/// The number type called `ident`, if `ident` names one.
pub open spec fn number_named(ident: Seq<char>) -> Option<NumberType> {
    if ident == "u16"@ {
        Some(NumberType { width: Width::W16, signed: false, is_float: false })
    } else if ident == "u32"@ {
        Some(NumberType { width: Width::W32, signed: false, is_float: false })
    } else if ident == "u64"@ {
        Some(NumberType { width: Width::W64, signed: false, is_float: false })
    } else if ident == "u128"@ {
        Some(NumberType { width: Width::W128, signed: false, is_float: false })
    } else if ident == "i16"@ {
        Some(NumberType { width: Width::W16, signed: true, is_float: false })
    } else if ident == "i32"@ {
        Some(NumberType { width: Width::W32, signed: true, is_float: false })
    } else if ident == "i64"@ {
        Some(NumberType { width: Width::W64, signed: true, is_float: false })
    } else if ident == "i128"@ {
        Some(NumberType { width: Width::W128, signed: true, is_float: false })
    } else if ident == "f32"@ {
        Some(NumberType { width: Width::W32, signed: true, is_float: true })
    } else if ident == "f64"@ {
        Some(NumberType { width: Width::W64, signed: true, is_float: true })
    } else {
        None
    }
}

/// The number type that is the type argument of a segment, if it is one.
pub open spec fn argument_number(segment: PathSegmentView) -> Option<NumberType> {
    match segment.argument {
        Some(argument) => match *argument {
            TypeExprView::Path(inner) => number_named(inner.ident),
            _ => None,
        },
        None => None,
    }
}

/// The integer kind that an `LE`, `BE` or `Var` segment names, if it names
/// one.
pub open spec fn wrapper_kind(segment: PathSegmentView) -> Option<WireIntKind> {
    match argument_number(segment) {
        Some(number) => if number.is_float {
            None
        } else if segment.ident == "LE"@ {
            Some(
                WireIntKind::FixedWidth {
                    endianness: Endianness::Little,
                    width: number.width,
                    signed: number.signed,
                },
            )
        } else if segment.ident == "BE"@ {
            Some(
                WireIntKind::FixedWidth {
                    endianness: Endianness::Big,
                    width: number.width,
                    signed: number.signed,
                },
            )
        } else if segment.ident == "Var"@ {
            Some(WireIntKind::VarInt { width: number.width, signed: number.signed })
        } else {
            None
        },
        None => None,
    }
}

/// The integer kind that a length directive names.
pub open spec fn length_kind(expr: TypeExprView) -> Result<WireIntKind, ErrorView> {
    match expr {
        TypeExprView::Path(segment) => match wrapper_kind(segment) {
            Some(kind) => Ok(kind),
            None => Err(ErrorView::SchemaViolation(length_type_message())),
        },
        _ => Err(ErrorView::SchemaViolation(length_type_message())),
    }
}

/// The integer kind that the discriminant type of a union names.
pub open spec fn discriminant_kind(expr: TypeExprView) -> Result<WireIntKind, ErrorView> {
    match expr {
        TypeExprView::Path(segment) => if segment.ident == "u8"@ {
            Ok(WireIntKind::Byte)
        } else {
            match wrapper_kind(segment) {
                Some(kind) => Ok(kind),
                None => Err(ErrorView::SchemaViolation(discriminant_type_message())),
            }
        },
        _ => Err(ErrorView::SchemaViolation(discriminant_type_message())),
    }
}

/// The descriptors described so far followed by those described next, or
/// the error of what is described next.
pub open spec fn described_after(
    done: Seq<DescriptorView>,
    next: Result<Seq<DescriptorView>, ErrorView>,
) -> Result<Seq<DescriptorView>, ErrorView> {
    match next {
        Ok(more) => Ok(done + more),
        Err(e) => Err(e),
    }
}

/// The descriptor of a type expression, or the first schema violation
/// from the left.
pub open spec fn describe(expr: TypeExprView) -> Result<DescriptorView, ErrorView>
    decreases expr, 0nat,
{
    match expr {
        TypeExprView::Path(segment) => if segment.ident == "LE"@ || segment.ident == "BE"@ {
            match argument_number(segment) {
                Some(number) => Ok(
                    DescriptorView::FixedWidth {
                        endianness: if segment.ident == "LE"@ {
                            Endianness::Little
                        } else {
                            Endianness::Big
                        },
                        width: number.width,
                        signed: number.signed,
                        is_float: number.is_float,
                    },
                ),
                None => Err(ErrorView::SchemaViolation(argument_message())),
            }
        } else if segment.ident == "Var"@ {
            match argument_number(segment) {
                Some(number) => if number.is_float {
                    Err(ErrorView::SchemaViolation(argument_message()))
                } else {
                    Ok(DescriptorView::VarInt { width: number.width, signed: number.signed })
                },
                None => Err(ErrorView::SchemaViolation(argument_message())),
            }
        } else if segment.ident == "Vec"@ {
            match segment.argument {
                Some(argument) => match describe(*argument) {
                    Ok(element) => Ok(DescriptorView::Sequence { element: Box::new(element) }),
                    Err(e) => Err(e),
                },
                None => Err(ErrorView::SchemaViolation(argument_message())),
            }
        } else if segment.ident == "u8"@ {
            Ok(DescriptorView::Byte)
        } else {
            Ok(DescriptorView::Opaque { name: segment.ident })
        },
        TypeExprView::Tuple(elements) => match describe_all(elements) {
            Ok(elements) => Ok(DescriptorView::Tuple { elements }),
            Err(e) => Err(e),
        },
        TypeExprView::Array { element, length } => match describe(*element) {
            Ok(element) => Ok(DescriptorView::FixedArray { element: Box::new(element), length }),
            Err(e) => Err(e),
        },
        TypeExprView::Other => Err(ErrorView::SchemaViolation(unsupported_type_message())),
    }
}

/// The descriptors of several type expressions, or the first schema
/// violation from the left.
pub open spec fn describe_all(exprs: Seq<TypeExprView>) -> Result<Seq<DescriptorView>, ErrorView>
    decreases exprs, 0nat,
{
    if exprs.len() == 0 {
        Ok(Seq::empty())
    } else {
        match describe(exprs[0]) {
            Ok(first) => described_after(seq![first], describe_all(exprs.skip(1))),
            Err(e) => Err(e),
        }
    }
}

/// The first type argument of a path segment, if it has one.
pub fn extract_generic_type(segment: &PathSegment) -> (r: Option<&TypeExpr>)
    ensures
        match segment.argument {
            Some(argument) => r == Some(&*argument),
            None => r is None,
        },
{
    match &segment.argument {
        Some(argument) => Some(&**argument),
        None => None,
    }
}

/// The number type called `ident`, if `ident` names one.
fn number_of(ident: &String) -> (r: Option<NumberType>)
    ensures
        r == number_named(ident@),
{
    if is_called(ident, "u16") {
        Some(NumberType { width: Width::W16, signed: false, is_float: false })
    } else if is_called(ident, "u32") {
        Some(NumberType { width: Width::W32, signed: false, is_float: false })
    } else if is_called(ident, "u64") {
        Some(NumberType { width: Width::W64, signed: false, is_float: false })
    } else if is_called(ident, "u128") {
        Some(NumberType { width: Width::W128, signed: false, is_float: false })
    } else if is_called(ident, "i16") {
        Some(NumberType { width: Width::W16, signed: true, is_float: false })
    } else if is_called(ident, "i32") {
        Some(NumberType { width: Width::W32, signed: true, is_float: false })
    } else if is_called(ident, "i64") {
        Some(NumberType { width: Width::W64, signed: true, is_float: false })
    } else if is_called(ident, "i128") {
        Some(NumberType { width: Width::W128, signed: true, is_float: false })
    } else if is_called(ident, "f32") {
        Some(NumberType { width: Width::W32, signed: true, is_float: true })
    } else if is_called(ident, "f64") {
        Some(NumberType { width: Width::W64, signed: true, is_float: true })
    } else {
        None
    }
}

/// The number type that is the type argument of `segment`, if it is one.
fn number_argument(segment: &PathSegment) -> (r: Option<NumberType>)
    ensures
        r == argument_number(segment@),
{
    proof {
        reveal_with_fuel(PathSegment::model, 2);
        reveal_with_fuel(TypeExpr::model, 2);
    }
    match &segment.argument {
        Some(argument) => match &**argument {
            TypeExpr::Path(inner) => number_of(&inner.ident),
            _ => None,
        },
        None => None,
    }
}

/// The integer kind that an `LE`, `BE` or `Var` segment names, if it names
/// one.
fn kind_of_wrapper(segment: &PathSegment) -> (r: Option<WireIntKind>)
    ensures
        r == wrapper_kind(segment@),
{
    let number = match number_argument(segment) {
        Some(number) => number,
        None => {
            return None;
        },
    };
    if number.is_float {
        None
    } else if is_called(&segment.ident, "LE") {
        Some(
            WireIntKind::FixedWidth {
                endianness: Endianness::Little,
                width: number.width,
                signed: number.signed,
            },
        )
    } else if is_called(&segment.ident, "BE") {
        Some(
            WireIntKind::FixedWidth {
                endianness: Endianness::Big,
                width: number.width,
                signed: number.signed,
            },
        )
    } else if is_called(&segment.ident, "Var") {
        Some(WireIntKind::VarInt { width: number.width, signed: number.signed })
    } else {
        None
    }
}

/// The integer kind that a length directive names: an integer in `LE`,
/// `BE` or `Var`.
pub fn extract_length_type(length_type: &TypeExpr) -> (r: Result<WireIntKind, ProtoRwError>)
    ensures
        match length_kind(length_type@) {
            Ok(kind) => r == Ok::<WireIntKind, ProtoRwError>(kind),
            Err(e) => r matches Err(x) && x@ == e,
        },
{
    proof {
        reveal_with_fuel(PathSegment::model, 2);
        reveal_with_fuel(TypeExpr::model, 2);
    }
    match length_type {
        TypeExpr::Path(segment) => match kind_of_wrapper(segment) {
            Some(kind) => Ok(kind),
            None => Err(schema_violation("a length type is LE, BE or Var of an integer")),
        },
        _ => Err(schema_violation("a length type is LE, BE or Var of an integer")),
    }
}

/// The integer kind that the discriminant type of a union names: `u8`, or
/// an integer in `LE`, `BE` or `Var`.
pub fn extract_discriminant_type(ty: &TypeExpr) -> (r: Result<WireIntKind, ProtoRwError>)
    ensures
        match discriminant_kind(ty@) {
            Ok(kind) => r == Ok::<WireIntKind, ProtoRwError>(kind),
            Err(e) => r matches Err(x) && x@ == e,
        },
{
    proof {
        reveal_with_fuel(PathSegment::model, 2);
        reveal_with_fuel(TypeExpr::model, 2);
    }
    match ty {
        TypeExpr::Path(segment) => {
            if is_called(&segment.ident, "u8") {
                return Ok(WireIntKind::Byte);
            }
            match kind_of_wrapper(segment) {
                Some(kind) => Ok(kind),
                None => Err(
                    schema_violation("a discriminant type is u8 or LE, BE or Var of an integer"),
                ),
            }
        },
        _ => Err(schema_violation("a discriminant type is u8 or LE, BE or Var of an integer")),
    }
}

/// The descriptor of a type expression.
pub fn describe_type(ty: &TypeExpr) -> (r: Result<TypeDescriptor, ProtoRwError>)
    ensures
        match describe(ty@) {
            Ok(descriptor) => r matches Ok(d) && d@ == descriptor,
            Err(e) => r matches Err(x) && x@ == e,
        },
    decreases ty, 0nat,
{
    proof {
        reveal_with_fuel(PathSegment::model, 2);
        reveal_with_fuel(TypeExpr::model, 2);
    }
    match ty {
        TypeExpr::Path(segment) => {
            let is_le = is_called(&segment.ident, "LE");
            if is_le || is_called(&segment.ident, "BE") {
                match number_argument(segment) {
                    Some(number) => Ok(
                        TypeDescriptor::FixedWidth {
                            endianness: if is_le {
                                Endianness::Little
                            } else {
                                Endianness::Big
                            },
                            width: number.width,
                            signed: number.signed,
                            is_float: number.is_float,
                        },
                    ),
                    None => Err(
                        schema_violation("LE, BE and Var take a number type, Vec takes a type"),
                    ),
                }
            } else if is_called(&segment.ident, "Var") {
                match number_argument(segment) {
                    Some(number) => if number.is_float {
                        Err(schema_violation("LE, BE and Var take a number type, Vec takes a type"))
                    } else {
                        Ok(TypeDescriptor::VarInt { width: number.width, signed: number.signed })
                    },
                    None => Err(
                        schema_violation("LE, BE and Var take a number type, Vec takes a type"),
                    ),
                }
            } else if is_called(&segment.ident, "Vec") {
                match extract_generic_type(segment) {
                    Some(argument) => {
                        assert(decreases_to!(*ty => ty->Path_0));
                        assert(decreases_to!(*segment => segment.argument));
                        assert(decreases_to!(segment.argument => segment.argument->Some_0));
                        match describe_type(argument) {
                            Ok(element) => Ok(
                                TypeDescriptor::Sequence { element: Box::new(element) },
                            ),
                            Err(e) => Err(e),
                        }
                    },
                    None => Err(
                        schema_violation("LE, BE and Var take a number type, Vec takes a type"),
                    ),
                }
            } else if is_called(&segment.ident, "u8") {
                Ok(TypeDescriptor::Byte)
            } else {
                Ok(TypeDescriptor::Opaque { name: segment.ident.clone() })
            }
        },
        TypeExpr::Tuple(elements) => {
            proof {
                lemma_tuple_expr_view(*elements);
            }
            match describe_types(elements) {
                Ok(elements) => {
                    proof {
                        lemma_tuple_view(elements);
                    }
                    Ok(TypeDescriptor::Tuple { elements })
                },
                Err(e) => Err(e),
            }
        },
        TypeExpr::Array { element, length } => match describe_type(element) {
            Ok(element) => Ok(
                TypeDescriptor::FixedArray { element: Box::new(element), length: *length },
            ),
            Err(e) => Err(e),
        },
        TypeExpr::Other => Err(
            schema_violation("unsupported type: a path, a tuple or an array is expected"),
        ),
    }
}

/// The descriptors of several type expressions.
pub fn describe_types(types: &Vec<TypeExpr>) -> (r: Result<Vec<TypeDescriptor>, ProtoRwError>)
    ensures
        match describe_all(exprs_view(types@)) {
            Ok(descriptors) => r matches Ok(d) && descriptors_view(d@) == descriptors,
            Err(e) => r matches Err(x) && x@ == e,
        },
    decreases types, 0nat,
{
    let ghost all = exprs_view(types@);
    let mut descriptors: Vec<TypeDescriptor> = Vec::new();
    let mut i: usize = 0;
    assert(all.skip(0) =~= all);
    assert(descriptors_view(descriptors@) =~= Seq::<DescriptorView>::empty());
    proof {
        if let Ok(more) = describe_all(all) {
            assert(Seq::<DescriptorView>::empty() + more =~= more);
        }
    }
    while i < types.len()
        invariant
            i <= types.len(),
            all == exprs_view(types@),
            describe_all(all) == described_after(
                descriptors_view(descriptors@),
                describe_all(all.skip(i as int)),
            ),
        decreases types.len() - i,
    {
        let ghost done = descriptors_view(descriptors@);
        proof {
            vstd::std_specs::vec::axiom_vec_index_decreases(*types, i as int);
            assert(all.skip(i as int)[0] == types[i as int]@);
            assert(all.skip(i as int).skip(1) =~= all.skip(i + 1));
        }
        match describe_type(&types[i]) {
            Ok(descriptor) => {
                descriptors.push(descriptor);
                proof {
                    assert(descriptors_view(descriptors@) =~= done + seq![descriptor@]);
                    if let Ok(more) = describe_all(all.skip(i + 1)) {
                        assert(descriptors_view(descriptors@) + more =~= done + (seq![
                            descriptor@,
                        ] + more));
                    }
                }
            },
            Err(e) => {
                return Err(e);
            },
        }
        i += 1;
    }
    assert(descriptors_view(descriptors@) + Seq::<DescriptorView>::empty() =~= descriptors_view(
        descriptors@,
    ));
    Ok(descriptors)
}

} // verus!
