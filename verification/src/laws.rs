//! What holds of every codec: reading gives back what was written, and a
//! stream cut short is reported as such.

use crate::codec::{CodecView, VariantCodecView};
use crate::error::ErrorView;
use crate::layout::{
    float_kind, lemma_variant_index, parse_all, parse_repeat, variant_index, wire_all, wire_each,
};
use crate::types::boolean::lemma_bool_round_trip;
use crate::types::integer::WireIntKind;
use crate::types::text::{lemma_text_round_trip, lemma_text_truncated};
use crate::value::ValueView;
use vstd::prelude::*;

verus! {

/// Round trip: whatever a codec writes for a value, it reads back as that
/// value, and leaves what followed the value's bytes untouched.
pub proof fn lemma_round_trip(codec: CodecView, value: ValueView, tail: Seq<u8>)
    requires
        codec.wire(value) is Ok,
    ensures
        codec.parse(codec.wire(value)->Ok_0 + tail) == (Ok::<ValueView, ErrorView>(value), tail),
    decreases codec, 0nat,
{
    let bytes = codec.wire(value)->Ok_0;
    match codec {
        CodecView::Int(kind) => {
            kind.lemma_round_trip(value->Int_0, tail);
        },
        CodecView::Float { endianness, width } => {
            float_kind(endianness, width).lemma_round_trip(value->Int_0, tail);
        },
        CodecView::Bool => {
            lemma_bool_round_trip(value->Bool_0, tail);
        },
        CodecView::Text => {
            lemma_text_round_trip(value->Text_0, tail);
        },
        CodecView::Sequence { count: length, element } => {
            let items = value->List_0;
            let head = length.wire(items.len() as int);
            let body = wire_each(*element, items)->Ok_0;
            length.lemma_round_trip(items.len() as int, body + tail);
            assert(head + body + tail =~= head + (body + tail));
            lemma_round_trip_each(*element, items, tail);
        },
        CodecView::Array { element, length } => {
            lemma_round_trip_each(*element, value->List_0, tail);
        },
        CodecView::Tuple { elements } => {
            lemma_round_trip_all(elements, value->List_0, tail);
        },
        CodecView::Converted { name, wire } => {
            lemma_round_trip(*wire, *value->Opaque_wire, tail);
        },
        CodecView::Record { name, fields } => {
            lemma_round_trip_all(fields, value->List_0, tail);
        },
        CodecView::Union { name, discriminant, variants } => {
            let tag = value->Variant_discriminant;
            let fields = value->Variant_fields;
            let i = variant_index(variants, tag);
            let head = discriminant.wire(tag);
            let body = wire_all(variants[i].fields, fields)->Ok_0;
            discriminant.lemma_round_trip(tag, body + tail);
            assert(head + body + tail =~= head + (body + tail));
            lemma_round_trip_all(variants[i].fields, fields, tail);
        },
    }
}

/// Round trip for items written one after the other by the same codec.
pub proof fn lemma_round_trip_each(codec: CodecView, items: Seq<ValueView>, tail: Seq<u8>)
    requires
        wire_each(codec, items) is Ok,
    ensures
        parse_repeat(codec, items.len(), wire_each(codec, items)->Ok_0 + tail) == (
            Ok::<Seq<ValueView>, ErrorView>(items),
            tail,
        ),
    decreases codec, items.len() + 1,
{
    if items.len() == 0 {
        assert(Seq::<u8>::empty() + tail =~= tail);
        assert(items =~= Seq::empty());
    } else {
        let first = codec.wire(items[0])->Ok_0;
        let more = wire_each(codec, items.skip(1))->Ok_0;
        lemma_round_trip(codec, items[0], more + tail);
        lemma_round_trip_each(codec, items.skip(1), tail);
        assert(first + more + tail =~= first + (more + tail));
        assert(seq![items[0]] + items.skip(1) =~= items);
    }
}

/// Round trip for items written one after the other, each by the codec at
/// its position.
pub proof fn lemma_round_trip_all(codecs: Seq<CodecView>, items: Seq<ValueView>, tail: Seq<u8>)
    requires
        codecs.len() == items.len(),
        wire_all(codecs, items) is Ok,
    ensures
        parse_all(codecs, wire_all(codecs, items)->Ok_0 + tail) == (
            Ok::<Seq<ValueView>, ErrorView>(items),
            tail,
        ),
    decreases codecs, 0nat,
{
    if codecs.len() == 0 {
        assert(Seq::<u8>::empty() + tail =~= tail);
        assert(items =~= Seq::empty());
    } else {
        let first = codecs[0].wire(items[0])->Ok_0;
        let more = wire_all(codecs.skip(1), items.skip(1))->Ok_0;
        lemma_round_trip(codecs[0], items[0], more + tail);
        lemma_round_trip_all(codecs.skip(1), items.skip(1), tail);
        assert(first + more + tail =~= first + (more + tail));
        assert(seq![items[0]] + items.skip(1) =~= items);
    }
}

/// Truncation: a stream that ends within the bytes of a value is reported
/// as `TruncatedInput`, whatever the codec and the value.
pub proof fn lemma_truncated(codec: CodecView, value: ValueView, cut: int)
    requires
        codec.wire(value) is Ok,
        0 <= cut < codec.wire(value)->Ok_0.len(),
    ensures
        codec.parse(codec.wire(value)->Ok_0.subrange(0, cut)).0 == Err::<ValueView, ErrorView>(
            ErrorView::TruncatedInput,
        ),
    decreases codec, 0nat,
{
    let bytes = codec.wire(value)->Ok_0;
    match codec {
        CodecView::Int(kind) => {
            kind.lemma_truncated(value->Int_0, cut);
        },
        CodecView::Float { endianness, width } => {
            float_kind(endianness, width).lemma_truncated(value->Int_0, cut);
        },
        CodecView::Bool => {},
        CodecView::Text => {
            lemma_text_truncated(value->Text_0, cut);
        },
        CodecView::Sequence { count: length, element } => {
            let items = value->List_0;
            let head = length.wire(items.len() as int);
            let body = wire_each(*element, items)->Ok_0;
            lemma_truncated_after_head(length, items.len() as int, body, cut);
            if cut >= head.len() {
                lemma_truncated_each(*element, items, cut - head.len());
            }
        },
        CodecView::Array { element, length } => {
            lemma_truncated_each(*element, value->List_0, cut);
        },
        CodecView::Tuple { elements } => {
            lemma_truncated_all(elements, value->List_0, cut);
        },
        CodecView::Converted { name, wire } => {
            lemma_truncated(*wire, *value->Opaque_wire, cut);
        },
        CodecView::Record { name, fields } => {
            lemma_truncated_all(fields, value->List_0, cut);
        },
        CodecView::Union { name, discriminant, variants } => {
            let tag = value->Variant_discriminant;
            let fields = value->Variant_fields;
            let i = variant_index(variants, tag);
            let head = discriminant.wire(tag);
            let body = wire_all(variants[i].fields, fields)->Ok_0;
            lemma_truncated_after_head(discriminant, tag, body, cut);
            if cut >= head.len() {
                lemma_truncated_all(variants[i].fields, fields, cut - head.len());
            }
        },
    }
}

/// Of a number followed by a body, cut short: within the number, reading
/// the number reports the truncation; after it, the number is read and the
/// cut body is left.
proof fn lemma_truncated_after_head(kind: WireIntKind, number: int, body: Seq<u8>, cut: int)
    requires
        kind.fits(number),
        0 <= cut < (kind.wire(number) + body).len(),
    ensures
        cut < kind.wire(number).len() ==> kind.parse(
            (kind.wire(number) + body).subrange(0, cut),
        ).0 == Err::<int, ErrorView>(ErrorView::TruncatedInput),
        cut >= kind.wire(number).len() ==> kind.parse(
            (kind.wire(number) + body).subrange(0, cut),
        ) == (Ok::<int, ErrorView>(number), body.subrange(0, cut - kind.wire(number).len())),
{
    let head = kind.wire(number);
    if cut < head.len() {
        kind.lemma_truncated(number, cut);
        assert((head + body).subrange(0, cut) =~= head.subrange(0, cut));
    } else {
        let part = body.subrange(0, cut - head.len());
        kind.lemma_round_trip(number, part);
        assert((head + body).subrange(0, cut) =~= head + part);
    }
}

/// Truncation for items written one after the other by the same codec.
pub proof fn lemma_truncated_each(codec: CodecView, items: Seq<ValueView>, cut: int)
    requires
        wire_each(codec, items) is Ok,
        0 <= cut < wire_each(codec, items)->Ok_0.len(),
    ensures
        parse_repeat(codec, items.len(), wire_each(codec, items)->Ok_0.subrange(0, cut)).0
            == Err::<Seq<ValueView>, ErrorView>(ErrorView::TruncatedInput),
    decreases codec, items.len() + 1,
{
    if items.len() > 0 {
        let first = codec.wire(items[0])->Ok_0;
        let more = wire_each(codec, items.skip(1))->Ok_0;
        if cut < first.len() {
            lemma_truncated(codec, items[0], cut);
            assert((first + more).subrange(0, cut) =~= first.subrange(0, cut));
        } else {
            let part = more.subrange(0, cut - first.len());
            lemma_round_trip(codec, items[0], part);
            assert((first + more).subrange(0, cut) =~= first + part);
            lemma_truncated_each(codec, items.skip(1), cut - first.len());
        }
    }
}

/// Truncation for items written one after the other, each by the codec at
/// its position.
pub proof fn lemma_truncated_all(codecs: Seq<CodecView>, items: Seq<ValueView>, cut: int)
    requires
        codecs.len() == items.len(),
        wire_all(codecs, items) is Ok,
        0 <= cut < wire_all(codecs, items)->Ok_0.len(),
    ensures
        parse_all(codecs, wire_all(codecs, items)->Ok_0.subrange(0, cut)).0 == Err::<
            Seq<ValueView>,
            ErrorView,
        >(ErrorView::TruncatedInput),
    decreases codecs, 0nat,
{
    if codecs.len() > 0 {
        let first = codecs[0].wire(items[0])->Ok_0;
        let more = wire_all(codecs.skip(1), items.skip(1))->Ok_0;
        if cut < first.len() {
            lemma_truncated(codecs[0], items[0], cut);
            assert((first + more).subrange(0, cut) =~= first.subrange(0, cut));
        } else {
            let part = more.subrange(0, cut - first.len());
            lemma_round_trip(codecs[0], items[0], part);
            assert((first + more).subrange(0, cut) =~= first + part);
            lemma_truncated_all(codecs.skip(1), items.skip(1), cut - first.len());
        }
    }
}

/// Unknown discriminant: where the number read for a union is the
/// discriminant of none of its variants, reading reports it as
/// `UnknownDiscriminant`, and has taken the bytes of the number and none of
/// what follows them.
pub proof fn lemma_unknown_discriminant(
    name: Seq<char>,
    discriminant: WireIntKind,
    variants: Seq<VariantCodecView>,
    stream: Seq<u8>,
)
    requires
        discriminant.parse(stream).0 is Ok,
        forall|j: int|
            0 <= j < variants.len() ==> (#[trigger] variants[j]).discriminant
                != discriminant.parse(stream).0->Ok_0,
    ensures
        (CodecView::Union { name, discriminant, variants }).parse(stream) == (
            Err::<ValueView, ErrorView>(
                ErrorView::UnknownDiscriminant(discriminant.parse(stream).0->Ok_0),
            ),
            discriminant.parse(stream).1,
        ),
{
    lemma_variant_index(variants, discriminant.parse(stream).0->Ok_0);
}

} // verus!
