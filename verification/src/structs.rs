//! The record compiler: the fields of a record, resolved in the order of
//! their declaration, each with its own directive queues.

use crate::codec::{codecs_view, lemma_codec_views, Codec, CodecView};
use crate::error::{ErrorView, ProtoRwError};
use crate::resolver::{build_type_quotes, resolve, schema_violation};
use crate::schema::{
    fields_view, registry_view, Entity, EntityView, FieldId, FieldIdView, FieldSpec, FieldView,
    Payload, PayloadView, RecordSpec, RecordView,
};
use vstd::prelude::*;

verus! {

/// The message for a record without fields.
pub open spec fn unit_record_message() -> Seq<char> {
    "a record without fields is not supported"@
}

/// The message for a field whose identifier does not suit its group.
pub open spec fn field_id_message() -> Seq<char> {
    "a field is not named or numbered as its group asks"@
}

/// Whether the identifier suits a field at `position` of a group: a name
/// in a group of named fields, the position itself in a group of
/// positional fields.
pub open spec fn field_id_suits(id: FieldIdView, position: nat, named: bool) -> bool {
    match id {
        FieldIdView::Name(_) => named,
        FieldIdView::Index(index) => !named && index == position,
    }
}

/// The codec of one field: its type resolved with its own queues.
pub open spec fn compile_field(field: FieldView, registry: Seq<EntityView>) -> Result<
    CodecView,
    ErrorView,
> {
    match resolve(field.descriptor, field.queues, registry, true) {
        Ok((codec, left)) => Ok(codec),
        Err(e) => Err(e),
    }
}

/// The codecs of the fields of a group, in order, or the first schema
/// violation in that order.
pub open spec fn compile_fields(fields: Seq<FieldView>, registry: Seq<EntityView>, named: bool)
    -> Result<Seq<CodecView>, ErrorView>
    decreases fields.len(),
{
    if fields.len() == 0 {
        Ok(Seq::empty())
    } else {
        match compile_fields(fields.drop_last(), registry, named) {
            Err(e) => Err(e),
            Ok(codecs) => if !field_id_suits(
                fields.last().id,
                (fields.len() - 1) as nat,
                named,
            ) {
                Err(ErrorView::SchemaViolation(field_id_message()))
            } else {
                match compile_field(fields.last(), registry) {
                    Ok(codec) => Ok(codecs.push(codec)),
                    Err(e) => Err(e),
                }
            },
        }
    }
}

/// The codec of a record, or the first schema violation.
pub open spec fn compile_record(record: RecordView, registry: Seq<EntityView>) -> Result<
    CodecView,
    ErrorView,
> {
    match record.fields {
        PayloadView::Unit => Err(ErrorView::SchemaViolation(unit_record_message())),
        PayloadView::Tuple(fields) => match compile_fields(fields, registry, false) {
            Ok(codecs) => Ok(CodecView::Record { name: record.name, fields: codecs }),
            Err(e) => Err(e),
        },
        PayloadView::Named(fields) => match compile_fields(fields, registry, true) {
            Ok(codecs) => Ok(CodecView::Record { name: record.name, fields: codecs }),
            Err(e) => Err(e),
        },
    }
}

/// A compiled group has one codec for each field.
pub proof fn lemma_compile_fields_len(
    fields: Seq<FieldView>,
    registry: Seq<EntityView>,
    named: bool,
)
    ensures
        compile_fields(fields, registry, named) matches Ok(codecs) ==> codecs.len()
            == fields.len(),
    decreases fields.len(),
{
    if fields.len() > 0 {
        lemma_compile_fields_len(fields.drop_last(), registry, named);
    }
}

/// Compiles a record: the codec that reads and writes its fields in the
/// order of their declaration.
pub fn build_struct(data: RecordSpec, registry: &Vec<Entity>) -> (r: Result<Codec, ProtoRwError>)
    ensures
        match compile_record(data@, registry_view(registry@)) {
            Ok(codec) => r matches Ok(c) && c@ == codec,
            Err(e) => r matches Err(x) && x@ == e,
        },
{
    let RecordSpec { name, fields } = data;
    let codecs = match fields {
        Payload::Named(fields) => handle_named_fields(fields, registry),
        Payload::Tuple(fields) => handle_unnamed_fields(fields, registry),
        Payload::Unit => Err(schema_violation("a record without fields is not supported")),
    };
    match codecs {
        Ok(codecs) => {
            let codec = Codec::Record { name, fields: codecs };
            proof {
                lemma_codec_views(&codec);
            }
            Ok(codec)
        },
        Err(e) => Err(e),
    }
}

/// Compiles a group of named fields.
pub fn handle_named_fields(fields: Vec<FieldSpec>, registry: &Vec<Entity>) -> (r: Result<
    Vec<Codec>,
    ProtoRwError,
>)
    ensures
        match compile_fields(fields_view(fields@), registry_view(registry@), true) {
            Ok(codecs) => r matches Ok(c) && codecs_view(c@) == codecs,
            Err(e) => r matches Err(x) && x@ == e,
        },
{
    handle_fields(fields, registry, true)
}

/// Compiles a group of positional fields.
pub fn handle_unnamed_fields(fields: Vec<FieldSpec>, registry: &Vec<Entity>) -> (r: Result<
    Vec<Codec>,
    ProtoRwError,
>)
    ensures
        match compile_fields(fields_view(fields@), registry_view(registry@), false) {
            Ok(codecs) => r matches Ok(c) && codecs_view(c@) == codecs,
            Err(e) => r matches Err(x) && x@ == e,
        },
{
    handle_fields(fields, registry, false)
}

/// Whether the identifier suits a field at `position` of a group.
fn id_suits(id: &FieldId, position: usize, named: bool) -> (suits: bool)
    ensures
        suits == field_id_suits(id@, position as nat, named),
{
    match id {
        FieldId::Name(_) => named,
        FieldId::Index(index) => !named && *index == position,
    }
}

/// Compiles the fields of a group one after the other. Each field's type
/// is resolved with the field's own queues, which no other field sees.
fn handle_fields(fields: Vec<FieldSpec>, registry: &Vec<Entity>, named: bool) -> (r: Result<
    Vec<Codec>,
    ProtoRwError,
>)
    ensures
        match compile_fields(fields_view(fields@), registry_view(registry@), named) {
            Ok(codecs) => r matches Ok(c) && codecs_view(c@) == codecs,
            Err(e) => r matches Err(x) && x@ == e,
        },
{
    let ghost all = fields_view(fields@);
    let ghost reg = registry_view(registry@);
    let count = fields.len();
    let mut pending = fields;
    let mut codecs: Vec<Codec> = Vec::new();
    let mut i: usize = 0;
    assert(all.skip(0) =~= all);
    assert(all.take(0) =~= Seq::<FieldView>::empty());
    assert(codecs_view(codecs@) =~= Seq::<CodecView>::empty());
    while i < count
        invariant
            i <= count,
            count == all.len(),
            all == fields_view(fields@),
            reg == registry_view(registry@),
            fields_view(pending@) == all.skip(i as int),
            compile_fields(all.take(i as int), reg, named) == Ok::<Seq<CodecView>, ErrorView>(
                codecs_view(codecs@),
            ),
        decreases count - i,
    {
        let ghost done = codecs_view(codecs@);
        let ghost rest = pending@;
        assert(fields_view(pending@).len() == count - i);
        let field = pending.remove(0);
        proof {
            assert(field@ == all.skip(i as int)[0]);
            assert(fields_view(pending@) =~= all.skip(i + 1)) by {
                assert forall|j: int| 0 <= j < pending@.len() implies fields_view(pending@)[j]
                    == all.skip(i + 1)[j] by {
                    assert(pending@[j] == rest[j + 1]);
                    assert(all.skip(i as int)[j + 1] == rest[j + 1]@);
                }
            }
            assert(all.take(i + 1).drop_last() =~= all.take(i as int));
            assert(all.take(i + 1).last() == field@);
        }
        let FieldSpec { id, descriptor, queues } = field;
        if !id_suits(&id, i, named) {
            proof {
                lemma_compile_fields_prefix_error(all, reg, named, i + 1);
            }
            return Err(schema_violation("a field is not named or numbered as its group asks"));
        }
        let mut queues = queues;
        match build_type_quotes(&descriptor, &mut queues, registry, true) {
            Ok(codec) => {
                codecs.push(codec);
                assert(codecs_view(codecs@) =~= done.push(codec@));
            },
            Err(e) => {
                proof {
                    lemma_compile_fields_prefix_error(all, reg, named, i + 1);
                }
                return Err(e);
            },
        }
        i += 1;
    }
    assert(all.take(count as int) =~= all);
    Ok(codecs)
}

/// A schema violation among the first fields of a group is the violation
/// of the whole group.
pub proof fn lemma_compile_fields_prefix_error(
    fields: Seq<FieldView>,
    registry: Seq<EntityView>,
    named: bool,
    upto: int,
)
    requires
        0 <= upto <= fields.len(),
        compile_fields(fields.take(upto), registry, named) is Err,
    ensures
        compile_fields(fields, registry, named) == compile_fields(
            fields.take(upto),
            registry,
            named,
        ),
    decreases fields.len(),
{
    if upto < fields.len() {
        assert(fields.drop_last().take(upto) =~= fields.take(upto));
        lemma_compile_fields_prefix_error(fields.drop_last(), registry, named, upto);
    } else {
        assert(fields.take(upto) =~= fields);
    }
}

} // verus!
