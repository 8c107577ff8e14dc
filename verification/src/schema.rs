//! The schema model: type descriptors, the directive queues of a field,
//! and the records and unions that are compiled to codecs.

use crate::codec::{Codec, CodecView};
use crate::types::endian::{Endianness, Width};
use crate::types::integer::{Integer, WireIntKind};
use std::collections::VecDeque;
use vstd::prelude::*;

verus! {

/// The declared shape of a field.
#[derive(Debug, PartialEq, Eq)]
pub enum TypeDescriptor {
    /// One unsigned byte.
    Byte,
    /// An integer or a float of a fixed width in a given byte order.
    FixedWidth { endianness: Endianness, width: Width, signed: bool, is_float: bool },
    /// An integer in the variable-length form.
    VarInt { width: Width, signed: bool },
    /// Any number of elements, preceded by their count.
    Sequence { element: Box<TypeDescriptor> },
    /// A fixed number of elements.
    FixedArray { element: Box<TypeDescriptor>, length: usize },
    /// Elements of several types, in order.
    Tuple { elements: Vec<TypeDescriptor> },
    /// A type known by its name only: a built-in, a compiled entity, or a
    /// type that a conversion directive maps to another.
    Opaque { name: String },
}

/// The mathematical content of a [`TypeDescriptor`].
pub enum DescriptorView {
    Byte,
    FixedWidth { endianness: Endianness, width: Width, signed: bool, is_float: bool },
    VarInt { width: Width, signed: bool },
    Sequence { element: Box<DescriptorView> },
    FixedArray { element: Box<DescriptorView>, length: nat },
    Tuple { elements: Seq<DescriptorView> },
    Opaque { name: Seq<char> },
}

impl TypeDescriptor {
    /// The content of the descriptor; [`View::view`] gives the same.
    pub open spec fn model(&self) -> DescriptorView
        decreases self,
    {
        match self {
            TypeDescriptor::Byte => DescriptorView::Byte,
            TypeDescriptor::FixedWidth {
                endianness,
                width,
                signed,
                is_float,
            } => DescriptorView::FixedWidth {
                endianness: *endianness,
                width: *width,
                signed: *signed,
                is_float: *is_float,
            },
            TypeDescriptor::VarInt { width, signed } => DescriptorView::VarInt {
                width: *width,
                signed: *signed,
            },
            TypeDescriptor::Sequence { element } => DescriptorView::Sequence {
                element: Box::new(element.model()),
            },
            TypeDescriptor::FixedArray { element, length } => DescriptorView::FixedArray {
                element: Box::new(element.model()),
                length: *length as nat,
            },
            TypeDescriptor::Tuple { elements } => DescriptorView::Tuple {
                elements: Seq::new(
                    elements.len() as nat,
                    |i: int|
                        if 0 <= i < elements.len() {
                            elements[i].model()
                        } else {
                            DescriptorView::Byte
                        },
                ),
            },
            TypeDescriptor::Opaque { name } => DescriptorView::Opaque { name: name@ },
        }
    }
}

impl View for TypeDescriptor {
    type V = DescriptorView;

    open spec fn view(&self) -> DescriptorView {
        self.model()
    }
}

/// The contents of a vector of descriptors, one by one.
pub open spec fn descriptors_view(items: Seq<TypeDescriptor>) -> Seq<DescriptorView> {
    Seq::new(items.len(), |i: int| items[i]@)
}

/// The content of a tuple descriptor is made of the contents of its
/// elements.
pub proof fn lemma_tuple_view(elements: Vec<TypeDescriptor>)
    ensures
        (TypeDescriptor::Tuple { elements })@ == (DescriptorView::Tuple {
            elements: descriptors_view(elements@),
        }),
{
    assert((TypeDescriptor::Tuple { elements }).model()->Tuple_elements =~= descriptors_view(
        elements@,
    ));
}

/// The directives of one field, consumed while its type is resolved.
#[derive(Debug, PartialEq, Eq)]
pub struct DirectiveQueues {
    /// By position among the leaves of the field's type, in depth-first
    /// order from the left: the type that the leaf is converted to on the
    /// wire, if any. The front stands for the next leaf.
    pub conversions: VecDeque<Option<TypeDescriptor>>,
    /// The integer kinds of the counts of the sequences in the field's
    /// type, in the order in which the sequences are met.
    pub lengths: VecDeque<WireIntKind>,
}

/// The mathematical content of [`DirectiveQueues`].
pub struct QueuesView {
    pub conversions: Seq<Option<DescriptorView>>,
    pub lengths: Seq<WireIntKind>,
}

/// The content of an entry of the conversion queue.
pub open spec fn conversion_view(entry: Option<TypeDescriptor>) -> Option<DescriptorView> {
    match entry {
        Some(descriptor) => Some(descriptor@),
        None => None,
    }
}

/// The contents of the entries of a conversion queue, one by one.
pub open spec fn conversions_view(entries: Seq<Option<TypeDescriptor>>) -> Seq<
    Option<DescriptorView>,
> {
    Seq::new(entries.len(), |i: int| conversion_view(entries[i]))
}

impl View for DirectiveQueues {
    type V = QueuesView;

    open spec fn view(&self) -> QueuesView {
        QueuesView {
            conversions: conversions_view(self.conversions@),
            lengths: self.lengths@,
        }
    }
}

impl DirectiveQueues {
    /// Queues with no directive in them.
    pub fn new() -> (queues: DirectiveQueues)
        ensures
            queues@.conversions.len() == 0,
            queues@.lengths.len() == 0,
    {
        DirectiveQueues { conversions: VecDeque::new(), lengths: VecDeque::new() }
    }
}

/// A compiled record or union under its name, for later schemas to name.
#[derive(Debug, PartialEq, Eq)]
pub struct Entity {
    pub name: String,
    pub codec: Codec,
}

/// The mathematical content of an [`Entity`].
pub struct EntityView {
    pub name: Seq<char>,
    pub codec: CodecView,
}

impl View for Entity {
    type V = EntityView;

    open spec fn view(&self) -> EntityView {
        EntityView { name: self.name@, codec: self.codec@ }
    }
}

/// The contents of a vector of entities, one by one.
pub open spec fn registry_view(entities: Seq<Entity>) -> Seq<EntityView> {
    Seq::new(entities.len(), |i: int| entities[i]@)
}

/// How a field is told from the other fields of its group.
#[derive(Debug, PartialEq, Eq)]
pub enum FieldId {
    Name(String),
    Index(usize),
}

/// One field of a record or of a variant.
#[derive(Debug, PartialEq, Eq)]
pub struct FieldSpec {
    pub id: FieldId,
    pub descriptor: TypeDescriptor,
    /// The field's own directives; no other field reads them.
    pub queues: DirectiveQueues,
}

/// The fields of a record or of a variant.
#[derive(Debug, PartialEq, Eq)]
pub enum Payload {
    /// No field at all.
    Unit,
    /// Fields known by their position.
    Tuple(Vec<FieldSpec>),
    /// Fields known by their name.
    Named(Vec<FieldSpec>),
}

/// One variant of a union.
#[derive(Debug, PartialEq, Eq)]
pub struct VariantSpec {
    /// The number that announces the variant; any integer constant.
    pub discriminant: Integer,
    pub payload: Payload,
}

/// A record: fields in the order of their declaration.
#[derive(Debug, PartialEq, Eq)]
pub struct RecordSpec {
    pub name: String,
    pub fields: Payload,
}

/// A union: variants told apart by a discriminant of a given integer
/// kind. The discriminants are meant to differ from each other.
#[derive(Debug, PartialEq, Eq)]
pub struct UnionSpec {
    pub name: String,
    pub discriminant: WireIntKind,
    pub variants: Vec<VariantSpec>,
}

/// The mathematical content of a [`FieldId`].
pub enum FieldIdView {
    Name(Seq<char>),
    Index(nat),
}

impl View for FieldId {
    type V = FieldIdView;

    open spec fn view(&self) -> FieldIdView {
        match self {
            FieldId::Name(name) => FieldIdView::Name(name@),
            FieldId::Index(index) => FieldIdView::Index(*index as nat),
        }
    }
}

/// The mathematical content of a [`FieldSpec`].
pub struct FieldView {
    pub id: FieldIdView,
    pub descriptor: DescriptorView,
    pub queues: QueuesView,
}

impl View for FieldSpec {
    type V = FieldView;

    open spec fn view(&self) -> FieldView {
        FieldView { id: self.id@, descriptor: self.descriptor@, queues: self.queues@ }
    }
}

/// The contents of a vector of fields, one by one.
pub open spec fn fields_view(fields: Seq<FieldSpec>) -> Seq<FieldView> {
    Seq::new(fields.len(), |i: int| fields[i]@)
}

/// The mathematical content of a [`Payload`].
pub enum PayloadView {
    Unit,
    Tuple(Seq<FieldView>),
    Named(Seq<FieldView>),
}

impl View for Payload {
    type V = PayloadView;

    open spec fn view(&self) -> PayloadView {
        match self {
            Payload::Unit => PayloadView::Unit,
            Payload::Tuple(fields) => PayloadView::Tuple(fields_view(fields@)),
            Payload::Named(fields) => PayloadView::Named(fields_view(fields@)),
        }
    }
}

/// The mathematical content of a [`VariantSpec`].
pub struct VariantView {
    pub discriminant: int,
    pub payload: PayloadView,
}

impl View for VariantSpec {
    type V = VariantView;

    open spec fn view(&self) -> VariantView {
        VariantView { discriminant: self.discriminant@, payload: self.payload@ }
    }
}

/// The contents of a vector of variants, one by one.
pub open spec fn variant_specs_view(variants: Seq<VariantSpec>) -> Seq<VariantView> {
    Seq::new(variants.len(), |i: int| variants[i]@)
}

/// The mathematical content of a [`RecordSpec`].
pub struct RecordView {
    pub name: Seq<char>,
    pub fields: PayloadView,
}

impl View for RecordSpec {
    type V = RecordView;

    open spec fn view(&self) -> RecordView {
        RecordView { name: self.name@, fields: self.fields@ }
    }
}

/// The mathematical content of a [`UnionSpec`].
pub struct UnionView {
    pub name: Seq<char>,
    pub discriminant: WireIntKind,
    pub variants: Seq<VariantView>,
}

impl View for UnionSpec {
    type V = UnionView;

    open spec fn view(&self) -> UnionView {
        UnionView {
            name: self.name@,
            discriminant: self.discriminant,
            variants: variant_specs_view(self.variants@),
        }
    }
}

} // verus!
