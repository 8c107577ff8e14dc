//! The type that a codec leaves in memory: what is read, once any
//! conversion has been applied.

use crate::codec::{lemma_codec_views, Codec, CodecView};
use crate::types::endian::Width;
use crate::types::integer::WireIntKind;
use vstd::prelude::*;

verus! {

/// The in-memory type of what a codec carries.
#[derive(Debug, PartialEq, Eq)]
pub enum WireType {
    /// An unsigned byte.
    Byte,
    /// An integer of a given width.
    Int { width: Width, signed: bool },
    /// A float of a given width.
    Float { width: Width },
    Bool,
    Text,
    /// Any number of values of one type.
    List(Box<WireType>),
    /// A fixed number of values of one type.
    Array { element: Box<WireType>, length: usize },
    /// Values of several types, in order.
    Tuple(Vec<WireType>),
    /// A type known by its name: a record, a union, or the target of a
    /// conversion.
    Named(String),
}

/// The mathematical content of a [`WireType`].
pub enum WireTypeView {
    Byte,
    Int { width: Width, signed: bool },
    Float { width: Width },
    Bool,
    Text,
    List(Box<WireTypeView>),
    Array { element: Box<WireTypeView>, length: nat },
    Tuple(Seq<WireTypeView>),
    Named(Seq<char>),
}

impl WireType {
    /// The content of the type; [`View::view`] gives the same.
    pub open spec fn model(&self) -> WireTypeView
        decreases self,
    {
        match self {
            WireType::Byte => WireTypeView::Byte,
            WireType::Int { width, signed } => WireTypeView::Int { width: *width, signed: *signed },
            WireType::Float { width } => WireTypeView::Float { width: *width },
            WireType::Bool => WireTypeView::Bool,
            WireType::Text => WireTypeView::Text,
            WireType::List(element) => WireTypeView::List(Box::new(element.model())),
            WireType::Array { element, length } => WireTypeView::Array {
                element: Box::new(element.model()),
                length: *length as nat,
            },
            WireType::Tuple(elements) => WireTypeView::Tuple(
                Seq::new(
                    elements.len() as nat,
                    |i: int|
                        if 0 <= i < elements.len() {
                            elements[i].model()
                        } else {
                            WireTypeView::Bool
                        },
                ),
            ),
            WireType::Named(name) => WireTypeView::Named(name@),
        }
    }
}

impl View for WireType {
    type V = WireTypeView;

    open spec fn view(&self) -> WireTypeView {
        self.model()
    }
}

/// The in-memory type of an integer of the given kind.
pub open spec fn int_wire_type(kind: WireIntKind) -> WireTypeView {
    match kind {
        WireIntKind::Byte => WireTypeView::Byte,
        WireIntKind::FixedWidth { width, signed, .. } => WireTypeView::Int { width, signed },
        WireIntKind::VarInt { width, signed } => WireTypeView::Int { width, signed },
    }
}

impl CodecView {
    /// The in-memory type of what the codec carries. A number is held in
    /// the integer type of its width whatever its layout on the wire; a
    /// converted value is held in the type it is converted from and to.
    pub open spec fn wire_type(self) -> WireTypeView
        decreases self,
    {
        match self {
            CodecView::Int(kind) => int_wire_type(kind),
            CodecView::Float { endianness, width } => WireTypeView::Float { width },
            CodecView::Bool => WireTypeView::Bool,
            CodecView::Text => WireTypeView::Text,
            CodecView::Sequence { count: length, element } => WireTypeView::List(
                Box::new(element.wire_type()),
            ),
            CodecView::Array { element, length } => WireTypeView::Array {
                element: Box::new(element.wire_type()),
                length,
            },
            CodecView::Tuple { elements } => WireTypeView::Tuple(
                Seq::new(
                    elements.len(),
                    |i: int|
                        if 0 <= i < elements.len() {
                            elements[i].wire_type()
                        } else {
                            WireTypeView::Bool
                        },
                ),
            ),
            CodecView::Converted { name, wire } => WireTypeView::Named(name),
            CodecView::Record { name, fields } => WireTypeView::Named(name),
            CodecView::Union { name, discriminant, variants } => WireTypeView::Named(name),
        }
    }
}

impl Codec {
    /// The in-memory type of what the codec carries.
    pub fn wire_type(&self) -> (ty: WireType)
        ensures
            ty@ == self@.wire_type(),
        decreases self,
    {
        proof {
            lemma_codec_views(self);
        }
        match self {
            Codec::Int(kind) => match kind {
                WireIntKind::Byte => WireType::Byte,
                WireIntKind::FixedWidth { width, signed, .. } => WireType::Int {
                    width: *width,
                    signed: *signed,
                },
                WireIntKind::VarInt { width, signed } => WireType::Int {
                    width: *width,
                    signed: *signed,
                },
            },
            Codec::Float { width, .. } => WireType::Float { width: *width },
            Codec::Bool => WireType::Bool,
            Codec::Text => WireType::Text,
            Codec::Sequence { element, .. } => WireType::List(Box::new(element.wire_type())),
            Codec::Array { element, length } => WireType::Array {
                element: Box::new(element.wire_type()),
                length: *length,
            },
            Codec::Tuple { elements } => {
                let mut types: Vec<WireType> = Vec::new();
                let mut i: usize = 0;
                while i < elements.len()
                    invariant
                        i <= elements.len(),
                        self matches Codec::Tuple { elements: e } && e == elements,
                        types.len() == i,
                        forall|j: int|
                            0 <= j < i ==> (#[trigger] types[j])@ == elements[j]@.wire_type(),
                    decreases elements.len() - i,
                {
                    proof {
                        vstd::std_specs::vec::axiom_vec_index_decreases(*elements, i as int);
                        assert(decreases_to!(*self => self->Tuple_elements));
                    }
                    types.push(elements[i].wire_type());
                    i += 1;
                }
                let ty = WireType::Tuple(types);
                assert(ty.model()->Tuple_0 =~= self@.wire_type()->Tuple_0);
                ty
            },
            Codec::Converted { name, .. } => WireType::Named(name.clone()),
            Codec::Record { name, .. } => WireType::Named(name.clone()),
            Codec::Union { name, .. } => WireType::Named(name.clone()),
        }
    }
}

} // verus!
