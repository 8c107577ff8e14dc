//! Writing values by a codec.

use crate::codec::{codecs_view, lemma_codec_views, lemma_variant_codec_view, Codec};
use crate::decode::find_variant;
use crate::error::ProtoRwError;
use crate::layout::{after, int_wire, mismatch, wire_all, wire_each, wire_group};
use crate::stream::{write_all, written};
use crate::types::boolean::{bool_to_byte, bool_wire};
use crate::types::integer::{Integer, WireIntKind};
use crate::types::text::text_to_vec;
use crate::value::{lemma_list_view, lemma_variant_view, values_view, Value};
use bytes::BytesMut;
use vstd::prelude::*;

verus! {

/// The error for a value that is not of the codec's type.
pub fn mismatch_error() -> (e: ProtoRwError)
    ensures
        e@ == mismatch(),
{
    ProtoRwError::Error("value does not match the codec".to_owned())
}

/// Appends to `out` what an integer codec writes for `value`.
fn encode_int(kind: WireIntKind, value: &Value, out: &mut Vec<u8>) -> (r: Result<
    (),
    ProtoRwError,
>)
    ensures
        match int_wire(kind, value@) {
            Ok(bytes) => r is Ok && final(out)@ == old(out)@ + bytes,
            Err(e) => r matches Err(x) && x@ == e && final(out)@ == old(out)@,
        },
{
    match value {
        Value::Int(n) => {
            if kind.can_hold(*n) {
                let mut bytes = kind.to_vec(*n);
                out.append(&mut bytes);
                Ok(())
            } else {
                Err(mismatch_error())
            }
        },
        _ => Err(mismatch_error()),
    }
}

/// Whether `now` is `before` with something appended.
pub open spec fn extends(now: Seq<u8>, before: Seq<u8>) -> bool {
    before.len() <= now.len() && now.subrange(0, before.len() as int) == before
}

proof fn lemma_extends_itself(now: Seq<u8>)
    ensures
        extends(now, now),
{
    assert(now.subrange(0, now.len() as int) =~= now);
}

proof fn lemma_extends_appended(before: Seq<u8>, added: Seq<u8>)
    ensures
        extends(before + added, before),
{
    assert((before + added).subrange(0, before.len() as int) =~= before);
}

proof fn lemma_extends_further(now: Seq<u8>, middle: Seq<u8>, before: Seq<u8>)
    requires
        extends(now, middle),
        extends(middle, before),
    ensures
        extends(now, before),
{
    assert(now.subrange(0, before.len() as int) =~= middle.subrange(0, before.len() as int));
}

/// Appends to `out` what `codec` writes for `value`. On an error, what was
/// written before the error was met stays appended.
fn write_value(codec: &Codec, value: &Value, out: &mut Vec<u8>) -> (r: Result<(), ProtoRwError>)
    ensures
        match codec@.wire(value@) {
            Ok(bytes) => r is Ok && final(out)@ == old(out)@ + bytes,
            Err(e) => r matches Err(x) && x@ == e && extends(final(out)@, old(out)@),
        },
    decreases codec, 0nat,
{
    proof {
        lemma_codec_views(codec);
        lemma_extends_itself(out@);
    }
    match codec {
        Codec::Int(kind) => encode_int(*kind, value, out),
        Codec::Float { endianness, width } => encode_int(
            WireIntKind::FixedWidth { endianness: *endianness, width: *width, signed: false },
            value,
            out,
        ),
        Codec::Bool => match value {
            Value::Bool(b) => {
                out.push(bool_to_byte(*b));
                assert(final(out)@ =~= old(out)@ + bool_wire(*b));
                Ok(())
            },
            _ => Err(mismatch_error()),
        },
        Codec::Text => match value {
            Value::Text(text) => match text_to_vec(text.as_str()) {
                Ok(mut bytes) => {
                    out.append(&mut bytes);
                    Ok(())
                },
                Err(e) => Err(e),
            },
            _ => Err(mismatch_error()),
        },
        Codec::Sequence { count: length, element } => match value {
            Value::List(items) => {
                proof {
                    lemma_list_view(*items);
                }
                let count = Integer::Unsigned(items.len() as u128);
                if !length.can_hold(count) {
                    return Err(ProtoRwError::LengthOverflow);
                }
                let mut head = length.to_vec(count);
                let ghost head_bytes = head@;
                out.append(&mut head);
                let ghost middle = out@;
                match write_each(element, items, out) {
                    Ok(()) => {
                        proof {
                            let body = wire_each(element@, values_view(items@))->Ok_0;
                            assert(middle + body =~= old(out)@ + (head_bytes + body));
                        }
                        Ok(())
                    },
                    Err(e) => {
                        proof {
                            lemma_extends_appended(old(out)@, head_bytes);
                            lemma_extends_further(out@, middle, old(out)@);
                        }
                        Err(e)
                    },
                }
            },
            _ => Err(mismatch_error()),
        },
        Codec::Array { element, length } => match value {
            Value::List(items) => {
                proof {
                    lemma_list_view(*items);
                }
                if items.len() != *length {
                    return Err(ProtoRwError::ArityMismatch { expected: *length });
                }
                write_each(element, items, out)
            },
            _ => Err(mismatch_error()),
        },
        Codec::Tuple { elements } => match value {
            Value::List(items) => {
                proof {
                    lemma_list_view(*items);
                }
                write_group(elements, items, out)
            },
            _ => Err(mismatch_error()),
        },
        Codec::Converted { name, wire } => match value {
            Value::Opaque { name: given, wire: inner } => {
                if *given == *name {
                    write_value(wire, inner, out)
                } else {
                    Err(mismatch_error())
                }
            },
            _ => Err(mismatch_error()),
        },
        Codec::Record { name, fields } => match value {
            Value::List(items) => {
                proof {
                    lemma_list_view(*items);
                }
                write_group(fields, items, out)
            },
            _ => Err(mismatch_error()),
        },
        Codec::Union { name, discriminant, variants } => match value {
            Value::Variant { discriminant: tag, fields } => {
                proof {
                    lemma_variant_view(*tag, *fields);
                }
                let i = match find_variant(variants, *tag) {
                    Some(i) => i,
                    None => {
                        return Err(mismatch_error());
                    },
                };
                proof {
                    lemma_variant_codec_view(&variants[i as int]);
                    vstd::std_specs::vec::axiom_vec_index_decreases(*variants, i as int);
                    assert(decreases_to!(*codec => codec->Union_variants));
                    assert(decreases_to!(variants[i as int] => variants[i as int].fields));
                }
                if !discriminant.can_hold(*tag) {
                    return Err(mismatch_error());
                }
                if fields.len() != variants[i].fields.len() {
                    return Err(
                        ProtoRwError::ArityMismatch { expected: variants[i].fields.len() },
                    );
                }
                let mut head = discriminant.to_vec(*tag);
                let ghost head_bytes = head@;
                out.append(&mut head);
                let ghost middle = out@;
                match write_group(&variants[i].fields, fields, out) {
                    Ok(()) => {
                        proof {
                            let body = wire_all(
                                codecs_view(variants[i as int].fields@),
                                values_view(fields@),
                            )->Ok_0;
                            assert(middle + body =~= old(out)@ + (head_bytes + body));
                        }
                        Ok(())
                    },
                    Err(e) => {
                        proof {
                            lemma_extends_appended(old(out)@, head_bytes);
                            lemma_extends_further(out@, middle, old(out)@);
                        }
                        Err(e)
                    },
                }
            },
            _ => Err(mismatch_error()),
        },
    }
}

/// Appends to `out` what `codec` writes for each of `items`, in order. On
/// an error, what was written before the error was met stays appended.
fn write_each(codec: &Codec, items: &Vec<Value>, out: &mut Vec<u8>) -> (r: Result<
    (),
    ProtoRwError,
>)
    ensures
        match wire_each(codec@, values_view(items@)) {
            Ok(bytes) => r is Ok && final(out)@ == old(out)@ + bytes,
            Err(e) => r matches Err(x) && x@ == e && extends(final(out)@, old(out)@),
        },
    decreases codec, 1nat,
{
    let ghost all = values_view(items@);
    let ghost mut done: Seq<u8> = Seq::empty();
    let mut i: usize = 0;
    assert(all.skip(0) =~= all);
    assert(out@ + done =~= out@);
    assert(done + Seq::<u8>::empty() =~= done);
    while i < items.len()
        invariant
            i <= items.len(),
            all == values_view(items@),
            out@ == old(out)@ + done,
            wire_each(codec@, all) == after(done, wire_each(codec@, all.skip(i as int))),
        decreases items.len() - i,
    {
        let ghost before = out@;
        proof {
            assert(all.skip(i as int)[0] == items[i as int]@);
            assert(all.skip(i as int).skip(1) =~= all.skip(i + 1));
            lemma_extends_appended(old(out)@, done);
        }
        match write_value(codec, &items[i], out) {
            Ok(()) => {
                proof {
                    let piece = codec@.wire(items[i as int]@)->Ok_0;
                    let next = wire_each(codec@, all.skip(i + 1));
                    if let Ok(more) = next {
                        assert(done + piece + more =~= done + (piece + more));
                    }
                    assert(out@ =~= old(out)@ + (done + piece));
                    done = done + piece;
                }
            },
            Err(e) => {
                proof {
                    lemma_extends_further(out@, before, old(out)@);
                }
                return Err(e);
            },
        }
        i += 1;
    }
    assert(done + Seq::<u8>::empty() =~= done);
    Ok(())
}

/// Appends to `out` what each of `codecs` writes for the item at its
/// position. Where there are not as many items as codecs, nothing is
/// written. On an error, what was written before the error was met stays
/// appended.
fn write_group(codecs: &Vec<Codec>, items: &Vec<Value>, out: &mut Vec<u8>) -> (r: Result<
    (),
    ProtoRwError,
>)
    ensures
        match wire_group(codecs_view(codecs@), values_view(items@)) {
            Ok(bytes) => r is Ok && final(out)@ == old(out)@ + bytes,
            Err(e) => r matches Err(x) && x@ == e && extends(final(out)@, old(out)@),
        },
    decreases codecs, 0nat,
{
    proof {
        lemma_extends_itself(out@);
    }
    if items.len() != codecs.len() {
        return Err(ProtoRwError::ArityMismatch { expected: codecs.len() });
    }
    let ghost all = values_view(items@);
    let ghost plan = codecs_view(codecs@);
    let ghost mut done: Seq<u8> = Seq::empty();
    let mut i: usize = 0;
    assert(all.skip(0) =~= all);
    assert(plan.skip(0) =~= plan);
    assert(out@ + done =~= out@);
    while i < codecs.len()
        invariant
            i <= codecs.len(),
            codecs.len() == items.len(),
            all == values_view(items@),
            plan == codecs_view(codecs@),
            out@ == old(out)@ + done,
            wire_all(plan, all) == after(
                done,
                wire_all(plan.skip(i as int), all.skip(i as int)),
            ),
        decreases codecs.len() - i,
    {
        let ghost before = out@;
        proof {
            vstd::std_specs::vec::axiom_vec_index_decreases(*codecs, i as int);
            lemma_extends_appended(old(out)@, done);
            assert(all.skip(i as int)[0] == items[i as int]@);
            assert(plan.skip(i as int)[0] == codecs[i as int]@);
            assert(all.skip(i as int).skip(1) =~= all.skip(i + 1));
            assert(plan.skip(i as int).skip(1) =~= plan.skip(i + 1));
        }
        match write_value(&codecs[i], &items[i], out) {
            Ok(()) => {
                proof {
                    let piece = codecs[i as int]@.wire(items[i as int]@)->Ok_0;
                    let next = wire_all(plan.skip(i + 1), all.skip(i + 1));
                    if let Ok(more) = next {
                        assert(done + piece + more =~= done + (piece + more));
                    }
                    assert(out@ =~= old(out)@ + (done + piece));
                    done = done + piece;
                }
            },
            Err(e) => {
                proof {
                    lemma_extends_further(out@, before, old(out)@);
                }
                return Err(e);
            },
        }
        i += 1;
    }
    assert(done + Seq::<u8>::empty() =~= done);
    Ok(())
}

/// Appends to `out` what `codec` writes for `value`. On an error `out` is
/// left as it was.
pub fn encode_into(codec: &Codec, value: &Value, out: &mut Vec<u8>) -> (r: Result<
    (),
    ProtoRwError,
>)
    ensures
        match codec@.wire(value@) {
            Ok(bytes) => r is Ok && final(out)@ == old(out)@ + bytes,
            Err(e) => r matches Err(x) && x@ == e && final(out)@ == old(out)@,
        },
{
    let start = out.len();
    match write_value(codec, value, out) {
        Ok(()) => Ok(()),
        Err(e) => {
            out.truncate(start);
            Err(e)
        },
    }
}

/// The bytes that `codec` writes for `value`.
pub fn encode_to_vec(codec: &Codec, value: &Value) -> (r: Result<Vec<u8>, ProtoRwError>)
    ensures
        match codec@.wire(value@) {
            Ok(bytes) => r matches Ok(out) && out@ == bytes,
            Err(e) => r matches Err(x) && x@ == e,
        },
{
    let mut out: Vec<u8> = Vec::new();
    match write_value(codec, value, &mut out) {
        Ok(()) => {
            assert(out@ =~= codec@.wire(value@)->Ok_0);
            Ok(out)
        },
        Err(e) => Err(e),
    }
}

/// Appends to `buf` what `codec` writes for `value`. On an error `buf` is
/// left as it was.
pub fn encode(codec: &Codec, value: &Value, buf: &mut BytesMut) -> (r: Result<(), ProtoRwError>)
    ensures
        match codec@.wire(value@) {
            Ok(bytes) => r is Ok && written(*final(buf)) == written(*old(buf)) + bytes,
            Err(e) => r matches Err(x) && x@ == e && written(*final(buf)) == written(*old(buf)),
        },
{
    match encode_to_vec(codec, value) {
        Ok(bytes) => {
            write_all(buf, &bytes);
            Ok(())
        },
        Err(e) => Err(e),
    }
}

} // verus!
