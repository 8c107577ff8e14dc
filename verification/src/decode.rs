//! Reading values from a stream by a codec.

use crate::codec::{
    codecs_view, lemma_codec_views, lemma_variant_codec_view, variants_view, Codec, VariantCodec,
};
use crate::error::ProtoRwError;
use crate::layout::{
    following, lemma_variant_index_is, lemma_variant_index_none, parse_all, parse_repeat,
    variant_index,
};
use crate::stream::unread;
use crate::types::boolean::read_bool;
use crate::types::integer::{Integer, WireIntKind};
use crate::types::text::read_text;
use crate::value::{lemma_list_view, lemma_variant_view, values_view, Value, ValueView};
use bytes::Bytes;
use vstd::prelude::*;

verus! {

/// Whether two integers are the same number.
pub fn same_number(a: Integer, b: Integer) -> (same: bool)
    ensures
        same == (a@ == b@),
{
    match (a, b) {
        (Integer::Unsigned(x), Integer::Unsigned(y)) => x == y,
        (Integer::Signed(x), Integer::Signed(y)) => x == y,
        (Integer::Unsigned(x), Integer::Signed(y)) => y >= 0 && (y as u128) == x,
        (Integer::Signed(x), Integer::Unsigned(y)) => x >= 0 && (x as u128) == y,
    }
}

/// The position of the first variant with the discriminant `tag`, if any.
pub fn find_variant(variants: &Vec<VariantCodec>, tag: Integer) -> (found: Option<usize>)
    ensures
        match found {
            Some(i) => i < variants.len() && variant_index(variants_view(variants@), tag@) == i,
            None => variant_index(variants_view(variants@), tag@) == -1,
        },
{
    let mut i: usize = 0;
    while i < variants.len()
        invariant
            i <= variants.len(),
            forall|j: int|
                0 <= j < i ==> (#[trigger] variants_view(variants@)[j]).discriminant != tag@,
        decreases variants.len() - i,
    {
        proof {
            lemma_variant_codec_view(&variants[i as int]);
        }
        if same_number(variants[i].discriminant, tag) {
            proof {
                lemma_variant_index_is(variants_view(variants@), tag@, i as int);
            }
            return Some(i);
        }
        i += 1;
    }
    proof {
        lemma_variant_index_none(variants_view(variants@), tag@);
    }
    None
}

/// The number of elements that a count read from the wire stands for.
fn element_count(count: Integer) -> (n: Option<usize>)
    ensures
        match n {
            Some(n) => n == count@,
            None => count@ < 0 || count@ > usize::MAX,
        },
{
    match count {
        Integer::Unsigned(c) => if c <= usize::MAX as u128 {
            Some(c as usize)
        } else {
            None
        },
        Integer::Signed(c) => if 0 <= c && c <= usize::MAX as i128 {
            Some(c as usize)
        } else {
            None
        },
    }
}

/// Reads one value from `buf` by `codec`.
///
/// On success the stream has moved past the bytes of the value. On an
/// error it has moved as far as the part that failed took it: past the
/// discriminant and no further, for one, when the discriminant of a union
/// names no variant.
pub fn decode(codec: &Codec, buf: &mut Bytes) -> (r: Result<Value, ProtoRwError>)
    ensures
        unread(*final(buf)) == codec@.parse(unread(*old(buf))).1,
        match codec@.parse(unread(*old(buf))).0 {
            Ok(value) => r matches Ok(v) && v@ == value,
            Err(e) => r matches Err(x) && x@ == e,
        },
    decreases codec, 0nat,
{
    proof {
        lemma_codec_views(codec);
    }
    match codec {
        Codec::Int(kind) => match kind.read(buf) {
            Ok(n) => Ok(Value::Int(n)),
            Err(e) => Err(e),
        },
        Codec::Float { endianness, width } => {
            let kind = WireIntKind::FixedWidth {
                endianness: *endianness,
                width: *width,
                signed: false,
            };
            match kind.read(buf) {
                Ok(n) => Ok(Value::Int(n)),
                Err(e) => Err(e),
            }
        },
        Codec::Bool => match read_bool(buf) {
            Ok(b) => Ok(Value::Bool(b)),
            Err(e) => Err(e),
        },
        Codec::Text => match read_text(buf) {
            Ok(text) => Ok(Value::Text(text)),
            Err(e) => Err(e),
        },
        Codec::Sequence { count: length, element } => {
            let count = match length.read(buf) {
                Ok(count) => count,
                Err(e) => {
                    return Err(e);
                },
            };
            let count = match element_count(count) {
                Some(count) => count,
                None => {
                    return Err(ProtoRwError::LengthOverflow);
                },
            };
            match decode_repeat(element, count, buf) {
                Ok(items) => {
                    proof {
                        lemma_list_view(items);
                    }
                    Ok(Value::List(items))
                },
                Err(e) => Err(e),
            }
        },
        Codec::Array { element, length } => match decode_repeat(element, *length, buf) {
            Ok(items) => {
                proof {
                    lemma_list_view(items);
                }
                Ok(Value::List(items))
            },
            Err(e) => Err(e),
        },
        Codec::Tuple { elements } => match decode_all(elements, buf) {
            Ok(items) => {
                proof {
                    lemma_list_view(items);
                }
                Ok(Value::List(items))
            },
            Err(e) => Err(e),
        },
        Codec::Converted { name, wire } => match decode(wire, buf) {
            Ok(inner) => Ok(Value::Opaque { name: name.clone(), wire: Box::new(inner) }),
            Err(e) => Err(e),
        },
        Codec::Record { name, fields } => match decode_all(fields, buf) {
            Ok(items) => {
                proof {
                    lemma_list_view(items);
                }
                Ok(Value::List(items))
            },
            Err(e) => Err(e),
        },
        Codec::Union { name, discriminant, variants } => {
            let tag = match discriminant.read(buf) {
                Ok(tag) => tag,
                Err(e) => {
                    return Err(e);
                },
            };
            match find_variant(variants, tag) {
                None => Err(ProtoRwError::UnknownDiscriminant(tag)),
                Some(i) => {
                    proof {
                        lemma_variant_codec_view(&variants[i as int]);
                        vstd::std_specs::vec::axiom_vec_index_decreases(*variants, i as int);
                        assert(decreases_to!(*codec => codec->Union_variants));
                        assert(decreases_to!(variants[i as int] => variants[i as int].fields));
                    }
                    match decode_all(&variants[i].fields, buf) {
                        Ok(fields) => {
                            proof {
                                lemma_variant_view(tag, fields);
                            }
                            Ok(Value::Variant { discriminant: tag, fields })
                        },
                        Err(e) => Err(e),
                    }
                },
            }
        },
    }
}

/// Reads `count` values from `buf`, each by `codec`.
pub fn decode_repeat(codec: &Codec, count: usize, buf: &mut Bytes) -> (r: Result<
    Vec<Value>,
    ProtoRwError,
>)
    ensures
        unread(*final(buf)) == parse_repeat(codec@, count as nat, unread(*old(buf))).1,
        match parse_repeat(codec@, count as nat, unread(*old(buf))).0 {
            Ok(items) => r matches Ok(v) && values_view(v@) == items,
            Err(e) => r matches Err(x) && x@ == e,
        },
    decreases codec, 1nat,
{
    let mut items: Vec<Value> = Vec::new();
    let mut i: usize = 0;
    assert(values_view(items@) + Seq::<ValueView>::empty() =~= Seq::empty());
    while i < count
        invariant
            i <= count,
            parse_repeat(codec@, count as nat, unread(*old(buf))) == following(
                values_view(items@),
                parse_repeat(codec@, (count - i) as nat, unread(*buf)),
            ),
        decreases count - i,
    {
        let ghost done = values_view(items@);
        let ghost stream = unread(*buf);
        match decode(codec, buf) {
            Ok(item) => {
                items.push(item);
                proof {
                    let next = parse_repeat(codec@, (count - i - 1) as nat, unread(*buf));
                    assert(values_view(items@) =~= done + seq![item@]);
                    if let Ok(more) = next.0 {
                        assert(values_view(items@) + more =~= done + (seq![item@] + more));
                    }
                }
            },
            Err(e) => {
                return Err(e);
            },
        }
        i += 1;
    }
    assert(values_view(items@) + Seq::<ValueView>::empty() =~= values_view(items@));
    Ok(items)
}

/// Reads one value from `buf` by each of `codecs`, in order.
pub fn decode_all(codecs: &Vec<Codec>, buf: &mut Bytes) -> (r: Result<Vec<Value>, ProtoRwError>)
    ensures
        unread(*final(buf)) == parse_all(codecs_view(codecs@), unread(*old(buf))).1,
        match parse_all(codecs_view(codecs@), unread(*old(buf))).0 {
            Ok(items) => r matches Ok(v) && values_view(v@) == items,
            Err(e) => r matches Err(x) && x@ == e,
        },
    decreases codecs, 0nat,
{
    let mut items: Vec<Value> = Vec::new();
    let mut i: usize = 0;
    let ghost all = codecs_view(codecs@);
    assert(all.skip(0) =~= all);
    assert(values_view(items@) + Seq::<ValueView>::empty() =~= Seq::empty());
    while i < codecs.len()
        invariant
            i <= codecs.len(),
            all == codecs_view(codecs@),
            parse_all(all, unread(*old(buf))) == following(
                values_view(items@),
                parse_all(all.skip(i as int), unread(*buf)),
            ),
        decreases codecs.len() - i,
    {
        let ghost done = values_view(items@);
        proof {
            vstd::std_specs::vec::axiom_vec_index_decreases(*codecs, i as int);
            assert(all.skip(i as int)[0] == codecs[i as int]@);
            assert(all.skip(i as int).skip(1) =~= all.skip(i + 1));
        }
        match decode(&codecs[i], buf) {
            Ok(item) => {
                items.push(item);
                proof {
                    let next = parse_all(all.skip(i + 1), unread(*buf));
                    assert(values_view(items@) =~= done + seq![item@]);
                    if let Ok(more) = next.0 {
                        assert(values_view(items@) + more =~= done + (seq![item@] + more));
                    }
                }
            },
            Err(e) => {
                return Err(e);
            },
        }
        i += 1;
    }
    assert(values_view(items@) + Seq::<ValueView>::empty() =~= values_view(items@));
    Ok(items)
}

} // verus!
