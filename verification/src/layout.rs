//! What a codec writes for a value and what it reads from a stream, as
//! mathematical functions on byte sequences.

use crate::codec::{CodecView, VariantCodecView};
use crate::error::ErrorView;
use crate::types::boolean::{bool_parse, bool_wire};
use crate::types::endian::{Endianness, Width};
use crate::types::integer::WireIntKind;
use crate::types::text::{text_parse, text_wire};
use crate::value::ValueView;
use vstd::prelude::*;

verus! {

/// The message of the error for a value that is not of the codec's type.
pub open spec fn mismatch_message() -> Seq<char> {
    "value does not match the codec"@
}

/// The error for a value that is not of the codec's type.
pub open spec fn mismatch() -> ErrorView {
    ErrorView::Error(mismatch_message())
}

/// The integer kind that carries the bit pattern of a float.
pub open spec fn float_kind(endianness: Endianness, width: Width) -> WireIntKind {
    WireIntKind::FixedWidth { endianness, width, signed: false }
}

/// The position of the first variant with the discriminant `tag`, or -1
/// when there is none.
pub open spec fn variant_index(variants: Seq<VariantCodecView>, tag: int) -> int
    decreases variants.len(),
{
    if variants.len() == 0 {
        -1
    } else if variants.last().discriminant == tag && variant_index(variants.drop_last(), tag)
        < 0 {
        variants.len() - 1
    } else {
        variant_index(variants.drop_last(), tag)
    }
}

/// What an integer codec writes for a value.
pub open spec fn int_wire(kind: WireIntKind, value: ValueView) -> Result<Seq<u8>, ErrorView> {
    match value {
        ValueView::Int(n) => if kind.fits(n) {
            Ok(kind.wire(n))
        } else {
            Err(mismatch())
        },
        _ => Err(mismatch()),
    }
}

/// What an integer codec reads from a stream.
pub open spec fn int_parse(kind: WireIntKind, stream: Seq<u8>) -> (
    Result<ValueView, ErrorView>,
    Seq<u8>,
) {
    let (number, left) = kind.parse(stream);
    match number {
        Ok(n) => (Ok(ValueView::Int(n)), left),
        Err(e) => (Err(e), left),
    }
}

/// What was read as a list of items, or the error, with the stream as it
/// was left.
pub open spec fn as_list(read: (Result<Seq<ValueView>, ErrorView>, Seq<u8>)) -> (
    Result<ValueView, ErrorView>,
    Seq<u8>,
) {
    match read.0 {
        Ok(items) => (Ok(ValueView::List(items)), read.1),
        Err(e) => (Err(e), read.1),
    }
}

/// The bytes written so far followed by what is written next, or the
/// error of what is written next.
pub open spec fn after(written: Seq<u8>, next: Result<Seq<u8>, ErrorView>) -> Result<
    Seq<u8>,
    ErrorView,
> {
    match next {
        Ok(bytes) => Ok(written + bytes),
        Err(e) => Err(e),
    }
}

/// The values read so far followed by those read next, or the error of
/// what is read next, with the stream as that leaves it.
pub open spec fn following(
    done: Seq<ValueView>,
    next: (Result<Seq<ValueView>, ErrorView>, Seq<u8>),
) -> (Result<Seq<ValueView>, ErrorView>, Seq<u8>) {
    match next.0 {
        Ok(items) => (Ok(done + items), next.1),
        Err(e) => (Err(e), next.1),
    }
}

impl CodecView {
    /// The bytes that the codec writes for `value`, or the error: the
    /// mismatch error when the value is not of the codec's type,
    /// `ArityMismatch` when a fixed-size collection has another number of
    /// items, `LengthOverflow` when a count does not fit its integer kind
    /// or the machine's address range.
    /// The first error in writing order is the one reported.
    pub open spec fn wire(self, value: ValueView) -> Result<Seq<u8>, ErrorView>
        decreases self, 0nat,
    {
        match self {
            CodecView::Int(kind) => int_wire(kind, value),
            CodecView::Float { endianness, width } => int_wire(
                float_kind(endianness, width),
                value,
            ),
            CodecView::Bool => match value {
                ValueView::Bool(b) => Ok(bool_wire(b)),
                _ => Err(mismatch()),
            },
            CodecView::Text => match value {
                ValueView::Text(text) => text_wire(text),
                _ => Err(mismatch()),
            },
            CodecView::Sequence { count: length, element } => match value {
                ValueView::List(items) => if !length.fits(items.len() as int) || items.len()
                    > usize::MAX {
                    Err(ErrorView::LengthOverflow)
                } else {
                    after(length.wire(items.len() as int), wire_each(*element, items))
                },
                _ => Err(mismatch()),
            },
            CodecView::Array { element, length } => match value {
                ValueView::List(items) => if items.len() != length {
                    Err(ErrorView::ArityMismatch { expected: length })
                } else {
                    wire_each(*element, items)
                },
                _ => Err(mismatch()),
            },
            CodecView::Tuple { elements } => match value {
                ValueView::List(items) => if items.len() != elements.len() {
                    Err(ErrorView::ArityMismatch { expected: elements.len() })
                } else {
                    wire_all(elements, items)
                },
                _ => Err(mismatch()),
            },
            CodecView::Converted { name, wire } => match value {
                ValueView::Opaque { name: given, wire: inner } => if given == name {
                    wire.wire(*inner)
                } else {
                    Err(mismatch())
                },
                _ => Err(mismatch()),
            },
            CodecView::Record { name, fields } => match value {
                ValueView::List(items) => if items.len() != fields.len() {
                    Err(ErrorView::ArityMismatch { expected: fields.len() })
                } else {
                    wire_all(fields, items)
                },
                _ => Err(mismatch()),
            },
            CodecView::Union { name, discriminant, variants } => match value {
                ValueView::Variant { discriminant: tag, fields } => {
                    let i = variant_index(variants, tag);
                    if 0 <= i < variants.len() {
                        if !discriminant.fits(tag) {
                            Err(mismatch())
                        } else if fields.len() != variants[i].fields.len() {
                            Err(ErrorView::ArityMismatch { expected: variants[i].fields.len() })
                        } else {
                            after(discriminant.wire(tag), wire_all(variants[i].fields, fields))
                        }
                    } else {
                        Err(mismatch())
                    }
                },
                _ => Err(mismatch()),
            },
        }
    }

    /// What the codec reads from `stream`: the value, or the first error in
    /// reading order; and the stream after the bytes that were looked at,
    /// which on an error is as the part that failed left it.
    pub open spec fn parse(self, stream: Seq<u8>) -> (Result<ValueView, ErrorView>, Seq<u8>)
        decreases self, 0nat,
    {
        match self {
            CodecView::Int(kind) => int_parse(kind, stream),
            CodecView::Float { endianness, width } => int_parse(
                float_kind(endianness, width),
                stream,
            ),
            CodecView::Bool => {
                let (value, left) = bool_parse(stream);
                match value {
                    Ok(b) => (Ok(ValueView::Bool(b)), left),
                    Err(e) => (Err(e), left),
                }
            },
            CodecView::Text => {
                let (value, left) = text_parse(stream);
                match value {
                    Ok(text) => (Ok(ValueView::Text(text)), left),
                    Err(e) => (Err(e), left),
                }
            },
            CodecView::Sequence { count: length, element } => {
                let (count, rest) = length.parse(stream);
                match count {
                    Ok(count) => if count < 0 || count > usize::MAX {
                        (Err(ErrorView::LengthOverflow), rest)
                    } else {
                        as_list(parse_repeat(*element, count as nat, rest))
                    },
                    Err(e) => (Err(e), rest),
                }
            },
            CodecView::Array { element, length } => as_list(
                parse_repeat(*element, length, stream),
            ),
            CodecView::Tuple { elements } => as_list(parse_all(elements, stream)),
            CodecView::Converted { name, wire } => {
                let (inner, left) = wire.parse(stream);
                match inner {
                    Ok(inner) => (Ok(ValueView::Opaque { name, wire: Box::new(inner) }), left),
                    Err(e) => (Err(e), left),
                }
            },
            CodecView::Record { name, fields } => as_list(parse_all(fields, stream)),
            CodecView::Union { name, discriminant, variants } => {
                let (tag, rest) = discriminant.parse(stream);
                match tag {
                    Ok(tag) => {
                        let i = variant_index(variants, tag);
                        if 0 <= i < variants.len() {
                            let (fields, left) = parse_all(variants[i].fields, rest);
                            match fields {
                                Ok(fields) => (
                                    Ok(ValueView::Variant { discriminant: tag, fields }),
                                    left,
                                ),
                                Err(e) => (Err(e), left),
                            }
                        } else {
                            (Err(ErrorView::UnknownDiscriminant(tag)), rest)
                        }
                    },
                    Err(e) => (Err(e), rest),
                }
            },
        }
    }
}

/// What is written for `items`, each by the same codec, one after the other.
pub open spec fn wire_each(codec: CodecView, items: Seq<ValueView>) -> Result<Seq<u8>, ErrorView>
    decreases codec, items.len() + 1,
{
    if items.len() == 0 {
        Ok(Seq::empty())
    } else {
        match codec.wire(items[0]) {
            Ok(first) => after(first, wire_each(codec, items.skip(1))),
            Err(e) => Err(e),
        }
    }
}

/// What is written for `items`, each by the codec at its position, one
/// after the other. There are as many items as codecs.
pub open spec fn wire_all(codecs: Seq<CodecView>, items: Seq<ValueView>) -> Result<
    Seq<u8>,
    ErrorView,
>
    decreases codecs, 0nat,
{
    if codecs.len() == 0 {
        Ok(Seq::empty())
    } else {
        match codecs[0].wire(items[0]) {
            Ok(first) => after(first, wire_all(codecs.skip(1), items.skip(1))),
            Err(e) => Err(e),
        }
    }
}

/// What is written for the items of a group with the given codecs:
/// `ArityMismatch` where there are not as many items as codecs, else what
/// is written for each item by the codec at its position.
pub open spec fn wire_group(codecs: Seq<CodecView>, items: Seq<ValueView>) -> Result<
    Seq<u8>,
    ErrorView,
> {
    if items.len() != codecs.len() {
        Err(ErrorView::ArityMismatch { expected: codecs.len() })
    } else {
        wire_all(codecs, items)
    }
}

/// What reading `count` values by the same codec makes of a stream.
pub open spec fn parse_repeat(codec: CodecView, count: nat, stream: Seq<u8>) -> (
    Result<Seq<ValueView>, ErrorView>,
    Seq<u8>,
)
    decreases codec, count + 1,
{
    if count == 0 {
        (Ok(Seq::empty()), stream)
    } else {
        let (first, rest) = codec.parse(stream);
        match first {
            Ok(first) => following(seq![first], parse_repeat(codec, (count - 1) as nat, rest)),
            Err(e) => (Err(e), rest),
        }
    }
}

/// What reading one value by each codec in order makes of a stream.
pub open spec fn parse_all(codecs: Seq<CodecView>, stream: Seq<u8>) -> (
    Result<Seq<ValueView>, ErrorView>,
    Seq<u8>,
)
    decreases codecs, 0nat,
{
    if codecs.len() == 0 {
        (Ok(Seq::empty()), stream)
    } else {
        let (first, rest) = codecs[0].parse(stream);
        match first {
            Ok(first) => following(seq![first], parse_all(codecs.skip(1), rest)),
            Err(e) => (Err(e), rest),
        }
    }
}

/// What [`variant_index`] finds: the first variant with the discriminant,
/// and -1 exactly when no variant has it.
pub proof fn lemma_variant_index(variants: Seq<VariantCodecView>, tag: int)
    ensures
        -1 <= variant_index(variants, tag) < variants.len(),
        variant_index(variants, tag) >= 0 ==> variants[variant_index(
            variants,
            tag,
        )].discriminant == tag,
        forall|j: int|
            0 <= j < variants.len() && (j < variant_index(variants, tag) || variant_index(
                variants,
                tag,
            ) < 0) ==> (#[trigger] variants[j]).discriminant != tag,
    decreases variants.len(),
{
    if variants.len() > 0 {
        let front = variants.drop_last();
        lemma_variant_index(front, tag);
        assert forall|j: int|
            0 <= j < variants.len() && (j < variant_index(variants, tag) || variant_index(
                variants,
                tag,
            ) < 0) implies (#[trigger] variants[j]).discriminant != tag by {
            if j < front.len() {
                assert(front[j] == variants[j]);
            }
        }
    }
}

/// A variant with the discriminant that no earlier variant has is the one
/// that [`variant_index`] finds.
pub proof fn lemma_variant_index_is(variants: Seq<VariantCodecView>, tag: int, i: int)
    requires
        0 <= i < variants.len(),
        variants[i].discriminant == tag,
        forall|j: int| 0 <= j < i ==> (#[trigger] variants[j]).discriminant != tag,
    ensures
        variant_index(variants, tag) == i,
{
    lemma_variant_index(variants, tag);
}

/// No variant with the discriminant: [`variant_index`] finds none.
pub proof fn lemma_variant_index_none(variants: Seq<VariantCodecView>, tag: int)
    requires
        forall|j: int| 0 <= j < variants.len() ==> (#[trigger] variants[j]).discriminant != tag,
    ensures
        variant_index(variants, tag) == -1,
{
    lemma_variant_index(variants, tag);
}

} // verus!
