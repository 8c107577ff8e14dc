//! The union compiler: the integer kind of the discriminant, and for each
//! variant its discriminant and the codecs of its fields.

use crate::codec::{
    codecs_view, lemma_codec_views, lemma_variant_codec_view, variants_view, Codec, CodecView,
    VariantCodec, VariantCodecView,
};
use crate::decode::find_variant;
use crate::error::{ErrorView, ProtoRwError};
use crate::layout::{lemma_variant_index, variant_index};
use crate::resolver::schema_violation;
use crate::schema::{
    fields_view, registry_view, variant_specs_view, Entity, EntityView, FieldSpec, Payload,
    PayloadView, UnionSpec, UnionView, VariantSpec, VariantView,
};
use crate::structs::compile_fields;
use crate::types::integer::{Integer, WireIntKind};
use vstd::prelude::*;

verus! {

/// The message for a discriminant outside the range of the union's
/// integer kind.
pub open spec fn discriminant_range_message() -> Seq<char> {
    "a discriminant does not fit the integer kind of the union"@
}

/// The message for a discriminant that an earlier variant has.
pub open spec fn duplicate_discriminant_message() -> Seq<char> {
    "two variants have the same discriminant"@
}

/// The codecs of the fields of a payload, in order.
pub open spec fn compile_payload(payload: PayloadView, registry: Seq<EntityView>) -> Result<
    Seq<CodecView>,
    ErrorView,
> {
    match payload {
        PayloadView::Unit => Ok(Seq::empty()),
        PayloadView::Tuple(fields) => compile_fields(fields, registry, false),
        PayloadView::Named(fields) => compile_fields(fields, registry, true),
    }
}

/// The compiled variants of a union, in order, or the first schema
/// violation in that order: a discriminant that does not fit `kind`, a
/// discriminant that an earlier variant has, or a violation in a field.
pub open spec fn compile_variants(
    variants: Seq<VariantView>,
    kind: WireIntKind,
    registry: Seq<EntityView>,
) -> Result<Seq<VariantCodecView>, ErrorView>
    decreases variants.len(),
{
    if variants.len() == 0 {
        Ok(Seq::empty())
    } else {
        match compile_variants(variants.drop_last(), kind, registry) {
            Err(e) => Err(e),
            Ok(done) => {
                let variant = variants.last();
                if !kind.fits(variant.discriminant) {
                    Err(ErrorView::SchemaViolation(discriminant_range_message()))
                } else if variant_index(done, variant.discriminant) >= 0 {
                    Err(ErrorView::SchemaViolation(duplicate_discriminant_message()))
                } else {
                    match compile_payload(variant.payload, registry) {
                        Ok(fields) => Ok(
                            done.push(
                                VariantCodecView { discriminant: variant.discriminant, fields },
                            ),
                        ),
                        Err(e) => Err(e),
                    }
                }
            },
        }
    }
}

/// The codec of a union, or the first schema violation.
pub open spec fn compile_union(union: UnionView, registry: Seq<EntityView>) -> Result<
    CodecView,
    ErrorView,
> {
    match compile_variants(union.variants, union.discriminant, registry) {
        Ok(variants) => Ok(
            CodecView::Union { name: union.name, discriminant: union.discriminant, variants },
        ),
        Err(e) => Err(e),
    }
}

/// Whether the discriminants of the variants fit `kind` and differ from
/// each other.
pub open spec fn discriminants_sound(variants: Seq<VariantCodecView>, kind: WireIntKind) -> bool {
    &&& forall|i: int| 0 <= i < variants.len() ==> kind.fits((#[trigger] variants[i]).discriminant)
    &&& forall|i: int, j: int|
        0 <= i < j < variants.len() ==> (#[trigger] variants[i]).discriminant
            != (#[trigger] variants[j]).discriminant
}

/// A compiled union has one variant for each variant declared, with the
/// declared discriminant; the discriminants fit the union's integer kind
/// and differ from each other.
pub proof fn lemma_compiled_variants(
    variants: Seq<VariantView>,
    kind: WireIntKind,
    registry: Seq<EntityView>,
)
    requires
        compile_variants(variants, kind, registry) is Ok,
    ensures
        compile_variants(variants, kind, registry)->Ok_0.len() == variants.len(),
        forall|i: int|
            0 <= i < variants.len() ==> (#[trigger] compile_variants(
                variants,
                kind,
                registry,
            )->Ok_0[i]).discriminant == variants[i].discriminant,
        discriminants_sound(compile_variants(variants, kind, registry)->Ok_0, kind),
    decreases variants.len(),
{
    if variants.len() > 0 {
        let done = compile_variants(variants.drop_last(), kind, registry)->Ok_0;
        let all = compile_variants(variants, kind, registry)->Ok_0;
        lemma_compiled_variants(variants.drop_last(), kind, registry);
        lemma_variant_index(done, variants.last().discriminant);
        assert forall|i: int| 0 <= i < variants.len() implies (#[trigger] all[i]).discriminant
            == variants[i].discriminant && kind.fits(all[i].discriminant) by {
            if i < done.len() {
                assert(all[i] == done[i]);
                assert(variants.drop_last()[i] == variants[i]);
            }
        }
        assert forall|i: int, j: int| 0 <= i < j < all.len() implies (#[trigger] all[i]).discriminant
            != (#[trigger] all[j]).discriminant by {
            assert(all[i] == done[i]);
            if j < done.len() {
                assert(all[j] == done[j]);
            }
        }
    }
}

/// A schema violation among the first variants of a union is the
/// violation of the whole union.
pub proof fn lemma_compile_variants_prefix_error(
    variants: Seq<VariantView>,
    kind: WireIntKind,
    registry: Seq<EntityView>,
    upto: int,
)
    requires
        0 <= upto <= variants.len(),
        compile_variants(variants.take(upto), kind, registry) is Err,
    ensures
        compile_variants(variants, kind, registry) == compile_variants(
            variants.take(upto),
            kind,
            registry,
        ),
    decreases variants.len(),
{
    if upto < variants.len() {
        assert(variants.drop_last().take(upto) =~= variants.take(upto));
        lemma_compile_variants_prefix_error(variants.drop_last(), kind, registry, upto);
    } else {
        assert(variants.take(upto) =~= variants);
    }
}

/// Compiles a union: the codec that writes the discriminant of a value's
/// variant and then the variant's fields, and that reads a discriminant
/// and then the fields of the variant that has it.
///
/// In a union that compiles, the discriminants fit the union's integer
/// kind and differ from each other.
pub fn build_enum(data: UnionSpec, registry: &Vec<Entity>) -> (r: Result<Codec, ProtoRwError>)
    ensures
        match compile_union(data@, registry_view(registry@)) {
            Ok(codec) => r matches Ok(c) && c@ == codec,
            Err(e) => r matches Err(x) && x@ == e,
        },
        r matches Ok(c) ==> c@ matches CodecView::Union { discriminant, variants, .. }
            && discriminants_sound(variants, discriminant),
{
    let ghost all = variant_specs_view(data.variants@);
    let ghost reg = registry_view(registry@);
    let UnionSpec { name, discriminant, variants } = data;
    let kind = discriminant;
    let count = variants.len();
    let mut pending = variants;
    let mut compiled: Vec<VariantCodec> = Vec::new();
    let mut i: usize = 0;
    assert(all.skip(0) =~= all);
    assert(all.take(0) =~= Seq::<VariantView>::empty());
    assert(variants_view(compiled@) =~= Seq::<VariantCodecView>::empty());
    while i < count
        invariant
            i <= count,
            count == all.len(),
            all == data@.variants,
            kind == data@.discriminant,
            reg == registry_view(registry@),
            variant_specs_view(pending@) == all.skip(i as int),
            compile_variants(all.take(i as int), kind, reg) == Ok::<
                Seq<VariantCodecView>,
                ErrorView,
            >(variants_view(compiled@)),
        decreases count - i,
    {
        let ghost done = variants_view(compiled@);
        let ghost rest = pending@;
        assert(variant_specs_view(pending@).len() == count - i);
        let variant = pending.remove(0);
        proof {
            assert(variant@ == all.skip(i as int)[0]);
            assert(variant_specs_view(pending@) =~= all.skip(i + 1)) by {
                assert forall|j: int| 0 <= j < pending@.len() implies variant_specs_view(
                    pending@,
                )[j] == all.skip(i + 1)[j] by {
                    assert(pending@[j] == rest[j + 1]);
                    assert(all.skip(i as int)[j + 1] == rest[j + 1]@);
                }
            }
            assert(all.take(i + 1).drop_last() =~= all.take(i as int));
            assert(all.take(i + 1).last() == variant@);
        }
        let VariantSpec { discriminant: tag, payload } = variant;
        if !kind.can_hold(tag) {
            proof {
                lemma_compile_variants_prefix_error(all, kind, reg, i + 1);
            }
            return Err(
                schema_violation("a discriminant does not fit the integer kind of the union"),
            );
        }
        if find_variant(&compiled, tag).is_some() {
            proof {
                lemma_compile_variants_prefix_error(all, kind, reg, i + 1);
            }
            return Err(schema_violation("two variants have the same discriminant"));
        }
        let next = match payload {
            Payload::Named(fields) => handle_named_fields(tag, fields, registry),
            Payload::Tuple(fields) => handle_unnamed_fields(tag, fields, registry),
            Payload::Unit => Ok(handle_unit(tag)),
        };
        match next {
            Ok(next) => {
                compiled.push(next);
                assert(variants_view(compiled@) =~= done.push(next@));
            },
            Err(e) => {
                proof {
                    lemma_compile_variants_prefix_error(all, kind, reg, i + 1);
                }
                return Err(e);
            },
        }
        i += 1;
    }
    assert(all.take(count as int) =~= all);
    proof {
        lemma_compiled_variants(all, kind, reg);
    }
    let codec = Codec::Union { name, discriminant: kind, variants: compiled };
    proof {
        lemma_codec_views(&codec);
    }
    Ok(codec)
}

/// Compiles a variant with named fields.
pub fn handle_named_fields(value: Integer, fields: Vec<FieldSpec>, registry: &Vec<Entity>) -> (r:
    Result<VariantCodec, ProtoRwError>)
    ensures
        match compile_fields(fields_view(fields@), registry_view(registry@), true) {
            Ok(codecs) => r matches Ok(v) && v@ == (VariantCodecView {
                discriminant: value@,
                fields: codecs,
            }),
            Err(e) => r matches Err(x) && x@ == e,
        },
{
    match crate::structs::handle_named_fields(fields, registry) {
        Ok(codecs) => {
            let variant = VariantCodec { discriminant: value, fields: codecs };
            proof {
                lemma_variant_codec_view(&variant);
            }
            Ok(variant)
        },
        Err(e) => Err(e),
    }
}

/// Compiles a variant with positional fields.
pub fn handle_unnamed_fields(value: Integer, fields: Vec<FieldSpec>, registry: &Vec<Entity>) -> (r:
    Result<VariantCodec, ProtoRwError>)
    ensures
        match compile_fields(fields_view(fields@), registry_view(registry@), false) {
            Ok(codecs) => r matches Ok(v) && v@ == (VariantCodecView {
                discriminant: value@,
                fields: codecs,
            }),
            Err(e) => r matches Err(x) && x@ == e,
        },
{
    match crate::structs::handle_unnamed_fields(fields, registry) {
        Ok(codecs) => {
            let variant = VariantCodec { discriminant: value, fields: codecs };
            proof {
                lemma_variant_codec_view(&variant);
            }
            Ok(variant)
        },
        Err(e) => Err(e),
    }
}

/// Compiles a variant without fields: the discriminant is all of it.
pub fn handle_unit(value: Integer) -> (variant: VariantCodec)
    ensures
        variant@ == (VariantCodecView { discriminant: value@, fields: Seq::empty() }),
{
    let variant = VariantCodec { discriminant: value, fields: Vec::new() };
    proof {
        lemma_variant_codec_view(&variant);
        assert(codecs_view(variant.fields@) =~= Seq::<CodecView>::empty());
    }
    variant
}

} // verus!
