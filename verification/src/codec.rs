//! Resolved codecs: what is read and written for a type, node by node.

use crate::types::endian::{Endianness, Width};
use crate::types::integer::{Integer, WireIntKind};
use vstd::prelude::*;

verus! {

/// One variant of a union codec.
#[derive(Debug, PartialEq, Eq)]
pub struct VariantCodec {
    /// The number that announces the variant on the wire.
    pub discriminant: Integer,
    /// The codecs of the variant's fields, in order; none for a unit.
    pub fields: Vec<Codec>,
}

/// The read and write procedure of a type. Reading and writing follow the
/// same tree, so the two mirror each other.
#[derive(Debug, PartialEq, Eq)]
pub enum Codec {
    /// An integer of the given kind.
    Int(WireIntKind),
    /// A float of 32 or 64 bits, carried as its bit pattern.
    Float { endianness: Endianness, width: Width },
    /// A boolean in one byte.
    Bool,
    /// A string with its length before it.
    Text,
    /// A count of the given kind, then that many elements.
    Sequence { count: WireIntKind, element: Box<Codec> },
    /// Exactly `length` elements, with no count.
    Array { element: Box<Codec>, length: usize },
    /// The elements one after the other.
    Tuple { elements: Vec<Codec> },
    /// A value of the type `name`, converted to and from what `wire` carries.
    Converted { name: String, wire: Box<Codec> },
    /// The fields of the record `name`, one after the other.
    Record { name: String, fields: Vec<Codec> },
    /// The discriminant of one variant of the union `name`, then the fields
    /// of that variant.
    Union { name: String, discriminant: WireIntKind, variants: Vec<VariantCodec> },
}

/// The mathematical content of a [`VariantCodec`].
pub struct VariantCodecView {
    pub discriminant: int,
    pub fields: Seq<CodecView>,
}

/// The mathematical content of a [`Codec`].
pub enum CodecView {
    Int(WireIntKind),
    Float { endianness: Endianness, width: Width },
    Bool,
    Text,
    Sequence { count: WireIntKind, element: Box<CodecView> },
    Array { element: Box<CodecView>, length: nat },
    Tuple { elements: Seq<CodecView> },
    Converted { name: Seq<char>, wire: Box<CodecView> },
    Record { name: Seq<char>, fields: Seq<CodecView> },
    Union { name: Seq<char>, discriminant: WireIntKind, variants: Seq<VariantCodecView> },
}

impl VariantCodec {
    /// The content of the variant; [`View::view`] gives the same.
    pub open spec fn model(&self) -> VariantCodecView
        decreases self,
    {
        VariantCodecView {
            discriminant: self.discriminant@,
            fields: Seq::new(
                self.fields.len() as nat,
                |i: int|
                    if 0 <= i < self.fields.len() {
                        self.fields[i].model()
                    } else {
                        CodecView::Bool
                    },
            ),
        }
    }
}

impl Codec {
    /// The content of the codec; [`View::view`] gives the same.
    pub open spec fn model(&self) -> CodecView
        decreases self,
    {
        match self {
            Codec::Int(kind) => CodecView::Int(*kind),
            Codec::Float { endianness, width } => CodecView::Float {
                endianness: *endianness,
                width: *width,
            },
            Codec::Bool => CodecView::Bool,
            Codec::Text => CodecView::Text,
            Codec::Sequence { count: length, element } => CodecView::Sequence {
                count: *length,
                element: Box::new(element.model()),
            },
            Codec::Array { element, length } => CodecView::Array {
                element: Box::new(element.model()),
                length: *length as nat,
            },
            Codec::Tuple { elements } => CodecView::Tuple {
                elements: Seq::new(
                    elements.len() as nat,
                    |i: int|
                        if 0 <= i < elements.len() {
                            elements[i].model()
                        } else {
                            CodecView::Bool
                        },
                ),
            },
            Codec::Converted { name, wire } => CodecView::Converted {
                name: name@,
                wire: Box::new(wire.model()),
            },
            Codec::Record { name, fields } => CodecView::Record {
                name: name@,
                fields: Seq::new(
                    fields.len() as nat,
                    |i: int|
                        if 0 <= i < fields.len() {
                            fields[i].model()
                        } else {
                            CodecView::Bool
                        },
                ),
            },
            Codec::Union { name, discriminant, variants } => CodecView::Union {
                name: name@,
                discriminant: *discriminant,
                variants: Seq::new(
                    variants.len() as nat,
                    |i: int|
                        if 0 <= i < variants.len() {
                            variants[i].model()
                        } else {
                            VariantCodecView { discriminant: 0, fields: Seq::empty() }
                        },
                ),
            },
        }
    }
}

impl View for VariantCodec {
    type V = VariantCodecView;

    open spec fn view(&self) -> VariantCodecView {
        self.model()
    }
}

impl View for Codec {
    type V = CodecView;

    open spec fn view(&self) -> CodecView {
        self.model()
    }
}

/// The contents of a vector of codecs, one by one.
pub open spec fn codecs_view(items: Seq<Codec>) -> Seq<CodecView> {
    Seq::new(items.len(), |i: int| items[i]@)
}

/// The contents of a vector of variants, one by one.
pub open spec fn variants_view(items: Seq<VariantCodec>) -> Seq<VariantCodecView> {
    Seq::new(items.len(), |i: int| items[i]@)
}

/// The content of each node that holds a vector is made of the contents of
/// the vector's items.
pub proof fn lemma_codec_views(codec: &Codec)
    ensures
        codec matches Codec::Tuple { elements } ==> codec@ == (CodecView::Tuple {
            elements: codecs_view(elements@),
        }),
        codec matches Codec::Record { name, fields } ==> codec@ == (CodecView::Record {
            name: name@,
            fields: codecs_view(fields@),
        }),
        codec matches Codec::Union { name, discriminant, variants } ==> codec@
            == (CodecView::Union {
            name: name@,
            discriminant: *discriminant,
            variants: variants_view(variants@),
        }),
{
    match codec {
        Codec::Tuple { elements } => {
            assert(codec.model()->Tuple_elements =~= codecs_view(elements@));
        },
        Codec::Record { name, fields } => {
            assert(codec.model()->Record_fields =~= codecs_view(fields@));
        },
        Codec::Union { name, discriminant, variants } => {
            assert(codec.model()->Union_variants =~= variants_view(variants@));
        },
        _ => {},
    }
}

/// The content of a variant is its discriminant and the contents of its
/// field codecs.
pub proof fn lemma_variant_codec_view(variant: &VariantCodec)
    ensures
        variant@ == (VariantCodecView {
            discriminant: variant.discriminant@,
            fields: codecs_view(variant.fields@),
        }),
{
    assert(variant.model().fields =~= codecs_view(variant.fields@));
}

impl Codec {
    /// A codec with the same content.
    pub fn duplicate(&self) -> (copy: Codec)
        ensures
            copy@ == self@,
        decreases self, 0nat,
    {
        proof {
            lemma_codec_views(self);
        }
        let copy = match self {
            Codec::Int(kind) => Codec::Int(*kind),
            Codec::Float { endianness, width } => Codec::Float {
                endianness: *endianness,
                width: *width,
            },
            Codec::Bool => Codec::Bool,
            Codec::Text => Codec::Text,
            Codec::Sequence { count: length, element } => Codec::Sequence {
                count: *length,
                element: Box::new(element.duplicate()),
            },
            Codec::Array { element, length } => Codec::Array {
                element: Box::new(element.duplicate()),
                length: *length,
            },
            Codec::Tuple { elements } => Codec::Tuple { elements: duplicate_all(elements) },
            Codec::Converted { name, wire } => Codec::Converted {
                name: name.clone(),
                wire: Box::new(wire.duplicate()),
            },
            Codec::Record { name, fields } => Codec::Record {
                name: name.clone(),
                fields: duplicate_all(fields),
            },
            Codec::Union { name, discriminant, variants } => {
                let mut copies: Vec<VariantCodec> = Vec::new();
                let mut i: usize = 0;
                while i < variants.len()
                    invariant
                        i <= variants.len(),
                        self matches Codec::Union { variants: v, .. } && v == variants,
                        copies.len() == i,
                        forall|j: int| 0 <= j < i ==> (#[trigger] copies[j])@ == variants[j]@,
                    decreases variants.len() - i,
                {
                    proof {
                        vstd::std_specs::vec::axiom_vec_index_decreases(*variants, i as int);
                        assert(decreases_to!(*self => self->Union_variants));
                        assert(decreases_to!(variants[i as int] => variants[i as int].fields));
                        lemma_variant_codec_view(&variants[i as int]);
                    }
                    let copy = VariantCodec {
                        discriminant: variants[i].discriminant,
                        fields: duplicate_all(&variants[i].fields),
                    };
                    proof {
                        lemma_variant_codec_view(&copy);
                    }
                    copies.push(copy);
                    i += 1;
                }
                assert(variants_view(copies@) =~= variants_view(variants@));
                Codec::Union { name: name.clone(), discriminant: *discriminant, variants: copies }
            },
        };
        proof {
            lemma_codec_views(&copy);
        }
        copy
    }
}

/// Codecs with the same contents, in the same order.
pub fn duplicate_all(items: &Vec<Codec>) -> (copies: Vec<Codec>)
    ensures
        codecs_view(copies@) == codecs_view(items@),
    decreases items, 0nat,
{
    let mut copies: Vec<Codec> = Vec::new();
    let mut i: usize = 0;
    while i < items.len()
        invariant
            i <= items.len(),
            copies.len() == i,
            forall|j: int| 0 <= j < i ==> (#[trigger] copies[j])@ == items[j]@,
        decreases items.len() - i,
    {
        proof {
            vstd::std_specs::vec::axiom_vec_index_decreases(*items, i as int);
        }
        copies.push(items[i].duplicate());
        i += 1;
    }
    assert(codecs_view(copies@) =~= codecs_view(items@));
    copies
}

} // verus!
