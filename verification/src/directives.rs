//! The directives of a field: how its attributes fill the two queues that
//! type resolution consumes.
//!
//! `convert(T[i], ..)` names the wire type `T` of the leaf at position `i`;
//! `length(K, ..)` names the integer kinds of the counts of the field's
//! sequences, in order.

use crate::error::{ErrorView, ProtoRwError};
use crate::resolver::{is_called, schema_violation};
use crate::schema::{
    conversions_view, DescriptorView, DirectiveQueues, FieldId, FieldIdView, FieldSpec, FieldView,
    QueuesView, TypeDescriptor,
};
use crate::syntax::{
    describe, describe_type, extract_length_type, length_kind, TypeExpr, TypeExprView,
};
use crate::types::integer::WireIntKind;
use std::collections::VecDeque;
use vstd::prelude::*;

verus! {

/// One argument of a list attribute: a type, and the index written in
/// brackets behind it where there is one.
#[derive(Debug, PartialEq, Eq)]
pub struct MetaEntry {
    pub ty: TypeExpr,
    pub index: Option<usize>,
}

/// An attribute of a field.
#[derive(Debug, PartialEq, Eq)]
pub enum Meta {
    /// An attribute that is no list: it carries no directive.
    Plain,
    /// `name(arguments)`.
    List { name: String, entries: Vec<MetaEntry> },
}

/// The mathematical content of a [`MetaEntry`].
pub struct MetaEntryView {
    pub ty: TypeExprView,
    pub index: Option<nat>,
}

/// The mathematical content of a [`Meta`].
pub enum MetaView {
    Plain,
    List { name: Seq<char>, entries: Seq<MetaEntryView> },
}

impl View for MetaEntry {
    type V = MetaEntryView;

    open spec fn view(&self) -> MetaEntryView {
        MetaEntryView {
            ty: self.ty@,
            index: match self.index {
                Some(index) => Some(index as nat),
                None => None,
            },
        }
    }
}

/// The contents of a vector of entries, one by one.
pub open spec fn entries_view(entries: Seq<MetaEntry>) -> Seq<MetaEntryView> {
    Seq::new(entries.len(), |i: int| entries[i]@)
}

impl View for Meta {
    type V = MetaView;

    open spec fn view(&self) -> MetaView {
        match self {
            Meta::Plain => MetaView::Plain,
            Meta::List { name, entries } => MetaView::List {
                name: name@,
                entries: entries_view(entries@),
            },
        }
    }
}

/// The message for an attribute that is neither `convert` nor `length`.
pub open spec fn unsupported_meta_message() -> Seq<char> {
    "unsupported attribute: convert or length is expected"@
}

/// The message for a `convert` argument without an index, or a `length`
/// argument with one.
pub open spec fn meta_entry_message() -> Seq<char> {
    "convert takes types with an index, length takes types without"@
}

/// The contents of a vector of conversions with their positions.
pub open spec fn placements_view(list: Seq<(TypeDescriptor, usize)>) -> Seq<(DescriptorView, nat)> {
    Seq::new(list.len(), |i: int| (list[i].0@, list[i].1 as nat))
}

/// `queue`, filled up with gaps to the length `index` where it is shorter.
pub open spec fn padded(queue: Seq<Option<DescriptorView>>, index: nat) -> Seq<
    Option<DescriptorView>,
> {
    if queue.len() >= index {
        queue
    } else {
        queue + Seq::new((index - queue.len()) as nat, |i: int| None::<DescriptorView>)
    }
}

/// The conversion queue that a list of conversions with their positions
/// makes: each conversion in turn is put at its position where the queue
/// is shorter than that, with gaps before it, and at the end of the queue
/// where it is not.
pub open spec fn conversion_queue(list: Seq<(DescriptorView, nat)>) -> Seq<Option<DescriptorView>>
    decreases list.len(),
{
    if list.len() == 0 {
        Seq::empty()
    } else {
        padded(conversion_queue(list.drop_last()), list.last().1).push(Some(list.last().0))
    }
}

/// Whether the positions of the list grow from each conversion to the
/// next.
pub open spec fn positions_ascend(list: Seq<(DescriptorView, nat)>) -> bool {
    forall|i: int, j: int| 0 <= i < j < list.len() ==> list[i].1 < list[j].1
}

/// Where the positions grow along the list, the queue is a map from
/// positions to conversions: each conversion stands at its position, every
/// other position is a gap, and the queue ends with the last conversion.
pub proof fn lemma_conversion_queue_ascending(list: Seq<(DescriptorView, nat)>)
    requires
        positions_ascend(list),
    ensures
        list.len() == 0 ==> conversion_queue(list).len() == 0,
        list.len() > 0 ==> conversion_queue(list).len() == list.last().1 + 1,
        forall|i: int|
            0 <= i < list.len() ==> conversion_queue(list)[(#[trigger] list[i]).1 as int] == Some(
                list[i].0,
            ),
        forall|p: int|
            0 <= p < conversion_queue(list).len() && (forall|i: int|
                0 <= i < list.len() ==> (#[trigger] list[i]).1 != p) ==> conversion_queue(list)[p]
                is None,
    decreases list.len(),
{
    if list.len() > 0 {
        let front = list.drop_last();
        let before = conversion_queue(front);
        let queue = conversion_queue(list);
        assert(positions_ascend(front)) by {
            assert forall|i: int, j: int| 0 <= i < j < front.len() implies front[i].1
                < front[j].1 by {
                assert(front[i] == list[i] && front[j] == list[j]);
            }
        }
        lemma_conversion_queue_ascending(front);
        if front.len() > 0 {
            assert(front.last() == list[list.len() - 2]);
        }
        assert(before.len() <= list.last().1);
        assert forall|i: int| 0 <= i < list.len() implies queue[(#[trigger] list[i]).1 as int]
            == Some(list[i].0) by {
            if i < front.len() {
                assert(front[i] == list[i]);
                assert(before[front[i].1 as int] == Some(front[i].0));
            }
        }
        assert forall|p: int|
            0 <= p < queue.len() && (forall|i: int|
                0 <= i < list.len() ==> (#[trigger] list[i]).1 != p) implies queue[p] is None by {
            if p < before.len() {
                assert forall|i: int| 0 <= i < front.len() implies (#[trigger] front[i]).1
                    != p by {
                    assert(front[i] == list[i]);
                }
                assert(queue[p] == before[p]);
            } else {
                assert(list[list.len() - 1].1 != p);
            }
        }
    }
}

/// Makes the conversion queue of `props` from a list of conversions with
/// their positions. What the queue held before is dropped.
pub fn handle_convert(list: Vec<(TypeDescriptor, usize)>, props: &mut DirectiveQueues)
    ensures
        final(props)@.conversions == conversion_queue(placements_view(list@)),
        final(props)@.lengths == old(props)@.lengths,
{
    let ghost all = placements_view(list@);
    let count = list.len();
    let mut pending = list;
    let mut queue: VecDeque<Option<TypeDescriptor>> = VecDeque::new();
    let mut i: usize = 0;
    assert(all.take(0) =~= Seq::<(DescriptorView, nat)>::empty());
    assert(conversions_view(queue@) =~= Seq::<Option<DescriptorView>>::empty());
    while i < count
        invariant
            i <= count,
            count == all.len(),
            placements_view(pending@) == all.skip(i as int),
            conversions_view(queue@) == conversion_queue(all.take(i as int)),
        decreases count - i,
    {
        let ghost rest = pending@;
        let ghost before = conversions_view(queue@);
        assert(placements_view(pending@).len() == count - i);
        let (ty, index) = pending.remove(0);
        proof {
            assert((ty@, index as nat) == all.skip(i as int)[0]);
            assert(placements_view(pending@) =~= all.skip(i + 1)) by {
                assert forall|j: int| 0 <= j < pending@.len() implies placements_view(pending@)[j]
                    == all.skip(i + 1)[j] by {
                    assert(pending@[j] == rest[j + 1]);
                    assert(all.skip(i as int)[j + 1] == (rest[j + 1].0@, rest[j + 1].1 as nat));
                }
            }
            assert(all.take(i + 1).drop_last() =~= all.take(i as int));
            assert(all.take(i + 1).last() == (ty@, index as nat));
        }
        while queue.len() < index
            invariant
                queue@.len() <= index || queue@.len() == before.len(),
                queue@.len() >= before.len(),
                conversions_view(queue@) == before + Seq::new(
                    (queue@.len() - before.len()) as nat,
                    |k: int| None::<DescriptorView>,
                ),
            decreases index - queue.len(),
        {
            let ghost earlier = conversions_view(queue@);
            queue.push_back(None);
            assert(conversions_view(queue@) =~= earlier.push(None));
            assert(conversions_view(queue@) =~= before + Seq::new(
                (queue@.len() - before.len()) as nat,
                |k: int| None::<DescriptorView>,
            ));
        }
        assert(conversions_view(queue@) =~= padded(before, index as nat));
        let ghost filled = conversions_view(queue@);
        queue.push_back(Some(ty));
        assert(conversions_view(queue@) =~= filled.push(Some(ty@)));
        i += 1;
    }
    assert(all.take(count as int) =~= all);
    props.conversions = queue;
}

/// Makes the length queue of `props` from a list of integer kinds. What
/// the queue held before is dropped.
pub fn handle_length(list: &Vec<WireIntKind>, props: &mut DirectiveQueues)
    ensures
        final(props)@.lengths == list@,
        final(props)@.conversions == old(props)@.conversions,
{
    let mut queue: VecDeque<WireIntKind> = VecDeque::new();
    let mut i: usize = 0;
    while i < list.len()
        invariant
            i <= list.len(),
            queue@ == list@.take(i as int),
        decreases list.len() - i,
    {
        queue.push_back(list[i]);
        assert(queue@ =~= list@.take(i + 1));
        i += 1;
    }
    assert(list@.take(list.len() as int) =~= list@);
    props.lengths = queue;
}

/// The conversions with their positions that the arguments of a `convert`
/// attribute name, or the first schema violation among them.
pub open spec fn convert_placements(entries: Seq<MetaEntryView>) -> Result<
    Seq<(DescriptorView, nat)>,
    ErrorView,
>
    decreases entries.len(),
{
    if entries.len() == 0 {
        Ok(Seq::empty())
    } else {
        match convert_placements(entries.drop_last()) {
            Err(e) => Err(e),
            Ok(done) => match entries.last().index {
                None => Err(ErrorView::SchemaViolation(meta_entry_message())),
                Some(index) => match describe(entries.last().ty) {
                    Ok(descriptor) => Ok(done.push((descriptor, index))),
                    Err(e) => Err(e),
                },
            },
        }
    }
}

/// The integer kinds that the arguments of a `length` attribute name, or
/// the first schema violation among them.
pub open spec fn length_kinds(entries: Seq<MetaEntryView>) -> Result<Seq<WireIntKind>, ErrorView>
    decreases entries.len(),
{
    if entries.len() == 0 {
        Ok(Seq::empty())
    } else {
        match length_kinds(entries.drop_last()) {
            Err(e) => Err(e),
            Ok(done) => if entries.last().index is Some {
                Err(ErrorView::SchemaViolation(meta_entry_message()))
            } else {
                match length_kind(entries.last().ty) {
                    Ok(kind) => Ok(done.push(kind)),
                    Err(e) => Err(e),
                }
            },
        }
    }
}

/// The queues of a field once an attribute of the field has been taken
/// in, or the schema violation of the attribute.
pub open spec fn meta_effect(queues: QueuesView, meta: MetaView) -> Result<QueuesView, ErrorView> {
    match meta {
        MetaView::Plain => Ok(queues),
        MetaView::List { name, entries } => if name == "convert"@ {
            match convert_placements(entries) {
                Ok(list) => Ok(
                    QueuesView { conversions: conversion_queue(list), lengths: queues.lengths },
                ),
                Err(e) => Err(e),
            }
        } else if name == "length"@ {
            match length_kinds(entries) {
                Ok(kinds) => Ok(QueuesView { conversions: queues.conversions, lengths: kinds }),
                Err(e) => Err(e),
            }
        } else {
            Err(ErrorView::SchemaViolation(unsupported_meta_message()))
        },
    }
}

/// A schema violation among the first arguments of a `convert` attribute
/// is the violation of the whole attribute.
proof fn lemma_convert_prefix_error(entries: Seq<MetaEntryView>, upto: int)
    requires
        0 <= upto <= entries.len(),
        convert_placements(entries.take(upto)) is Err,
    ensures
        convert_placements(entries) == convert_placements(entries.take(upto)),
    decreases entries.len(),
{
    if upto < entries.len() {
        assert(entries.drop_last().take(upto) =~= entries.take(upto));
        lemma_convert_prefix_error(entries.drop_last(), upto);
    } else {
        assert(entries.take(upto) =~= entries);
    }
}

/// A schema violation among the first arguments of a `length` attribute
/// is the violation of the whole attribute.
proof fn lemma_length_prefix_error(entries: Seq<MetaEntryView>, upto: int)
    requires
        0 <= upto <= entries.len(),
        length_kinds(entries.take(upto)) is Err,
    ensures
        length_kinds(entries) == length_kinds(entries.take(upto)),
    decreases entries.len(),
{
    if upto < entries.len() {
        assert(entries.drop_last().take(upto) =~= entries.take(upto));
        lemma_length_prefix_error(entries.drop_last(), upto);
    } else {
        assert(entries.take(upto) =~= entries);
    }
}

/// The conversions with their positions that the arguments of a `convert`
/// attribute name.
fn placements_of(entries: &Vec<MetaEntry>) -> (r: Result<
    Vec<(TypeDescriptor, usize)>,
    ProtoRwError,
>)
    ensures
        match convert_placements(entries_view(entries@)) {
            Ok(list) => r matches Ok(l) && placements_view(l@) == list,
            Err(e) => r matches Err(x) && x@ == e,
        },
{
    let ghost all = entries_view(entries@);
    let mut list: Vec<(TypeDescriptor, usize)> = Vec::new();
    let mut i: usize = 0;
    assert(all.take(0) =~= Seq::<MetaEntryView>::empty());
    assert(placements_view(list@) =~= Seq::<(DescriptorView, nat)>::empty());
    while i < entries.len()
        invariant
            i <= entries.len(),
            all == entries_view(entries@),
            convert_placements(all.take(i as int)) == Ok::<Seq<(DescriptorView, nat)>, ErrorView>(
                placements_view(list@),
            ),
        decreases entries.len() - i,
    {
        let ghost done = placements_view(list@);
        proof {
            assert(all.take(i + 1).drop_last() =~= all.take(i as int));
            assert(all.take(i + 1).last() == entries[i as int]@);
        }
        let index = match entries[i].index {
            Some(index) => index,
            None => {
                proof {
                    lemma_convert_prefix_error(all, i + 1);
                }
                return Err(
                    schema_violation(
                        "convert takes types with an index, length takes types without",
                    ),
                );
            },
        };
        match describe_type(&entries[i].ty) {
            Ok(descriptor) => {
                list.push((descriptor, index));
                assert(placements_view(list@) =~= done.push((descriptor@, index as nat)));
            },
            Err(e) => {
                proof {
                    lemma_convert_prefix_error(all, i + 1);
                }
                return Err(e);
            },
        }
        i += 1;
    }
    assert(all.take(entries.len() as int) =~= all);
    Ok(list)
}

/// The integer kinds that the arguments of a `length` attribute name.
fn kinds_of(entries: &Vec<MetaEntry>) -> (r: Result<Vec<WireIntKind>, ProtoRwError>)
    ensures
        match length_kinds(entries_view(entries@)) {
            Ok(kinds) => r matches Ok(k) && k@ == kinds,
            Err(e) => r matches Err(x) && x@ == e,
        },
{
    let ghost all = entries_view(entries@);
    let mut kinds: Vec<WireIntKind> = Vec::new();
    let mut i: usize = 0;
    assert(all.take(0) =~= Seq::<MetaEntryView>::empty());
    while i < entries.len()
        invariant
            i <= entries.len(),
            all == entries_view(entries@),
            length_kinds(all.take(i as int)) == Ok::<Seq<WireIntKind>, ErrorView>(kinds@),
        decreases entries.len() - i,
    {
        proof {
            assert(all.take(i + 1).drop_last() =~= all.take(i as int));
            assert(all.take(i + 1).last() == entries[i as int]@);
        }
        if entries[i].index.is_some() {
            proof {
                lemma_length_prefix_error(all, i + 1);
            }
            return Err(
                schema_violation("convert takes types with an index, length takes types without"),
            );
        }
        match extract_length_type(&entries[i].ty) {
            Ok(kind) => {
                kinds.push(kind);
            },
            Err(e) => {
                proof {
                    lemma_length_prefix_error(all, i + 1);
                }
                return Err(e);
            },
        }
        i += 1;
    }
    assert(all.take(entries.len() as int) =~= all);
    Ok(kinds)
}

/// Takes one attribute of a field into the field's queues: `convert`
/// makes the conversion queue, `length` the length queue, an attribute
/// that is no list changes nothing, and any other list is a schema
/// violation. On an error the queues are left as they were.
pub fn check_meta(props: &mut DirectiveQueues, meta: &Meta) -> (r: Result<(), ProtoRwError>)
    ensures
        match meta_effect(old(props)@, meta@) {
            Ok(queues) => r is Ok && final(props)@ == queues,
            Err(e) => r matches Err(x) && x@ == e && final(props)@ == old(props)@,
        },
{
    match meta {
        Meta::Plain => Ok(()),
        Meta::List { name, entries } => {
            if is_called(name, "convert") {
                match placements_of(entries) {
                    Ok(list) => {
                        handle_convert(list, props);
                        Ok(())
                    },
                    Err(e) => Err(e),
                }
            } else if is_called(name, "length") {
                match kinds_of(entries) {
                    Ok(kinds) => {
                        handle_length(&kinds, props);
                        Ok(())
                    },
                    Err(e) => Err(e),
                }
            } else {
                Err(schema_violation("unsupported attribute: convert or length is expected"))
            }
        },
    }
}

/// The contents of a vector of attributes, one by one.
pub open spec fn metas_view(metas: Seq<Meta>) -> Seq<MetaView> {
    Seq::new(metas.len(), |i: int| metas[i]@)
}

/// The queues of a field with the given attributes, taken in one after
/// the other from empty queues, or the first schema violation.
pub open spec fn queues_of(metas: Seq<MetaView>) -> Result<QueuesView, ErrorView>
    decreases metas.len(),
{
    if metas.len() == 0 {
        Ok(QueuesView { conversions: Seq::empty(), lengths: Seq::empty() })
    } else {
        match queues_of(metas.drop_last()) {
            Ok(queues) => meta_effect(queues, metas.last()),
            Err(e) => Err(e),
        }
    }
}

/// The field with the given identifier, declared type and attributes, or
/// the first schema violation: of the attributes in their order, then of
/// the type.
pub open spec fn field_of(id: FieldIdView, ty: TypeExprView, metas: Seq<MetaView>) -> Result<
    FieldView,
    ErrorView,
> {
    match queues_of(metas) {
        Err(e) => Err(e),
        Ok(queues) => match describe(ty) {
            Ok(descriptor) => Ok(FieldView { id, descriptor, queues }),
            Err(e) => Err(e),
        },
    }
}

/// A schema violation among the first attributes of a field is the
/// violation of all of them.
proof fn lemma_queues_prefix_error(metas: Seq<MetaView>, upto: int)
    requires
        0 <= upto <= metas.len(),
        queues_of(metas.take(upto)) is Err,
    ensures
        queues_of(metas) == queues_of(metas.take(upto)),
    decreases metas.len(),
{
    if upto < metas.len() {
        assert(metas.drop_last().take(upto) =~= metas.take(upto));
        lemma_queues_prefix_error(metas.drop_last(), upto);
    } else {
        assert(metas.take(upto) =~= metas);
    }
}

/// Makes the schema of a field from its declaration: fresh queues filled
/// from the field's attributes, and the descriptor of its declared type.
pub fn field_spec(id: FieldId, ty: &TypeExpr, metas: &Vec<Meta>) -> (r: Result<
    FieldSpec,
    ProtoRwError,
>)
    ensures
        match field_of(id@, ty@, metas_view(metas@)) {
            Ok(field) => r matches Ok(f) && f@ == field,
            Err(e) => r matches Err(x) && x@ == e,
        },
{
    let ghost all = metas_view(metas@);
    let mut props = DirectiveQueues::new();
    let mut i: usize = 0;
    assert(all.take(0) =~= Seq::<MetaView>::empty());
    assert(props@.conversions =~= Seq::empty() && props@.lengths =~= Seq::empty());
    while i < metas.len()
        invariant
            i <= metas.len(),
            all == metas_view(metas@),
            queues_of(all.take(i as int)) == Ok::<QueuesView, ErrorView>(props@),
        decreases metas.len() - i,
    {
        proof {
            assert(all.take(i + 1).drop_last() =~= all.take(i as int));
            assert(all.take(i + 1).last() == metas[i as int]@);
        }
        match check_meta(&mut props, &metas[i]) {
            Ok(()) => {},
            Err(e) => {
                proof {
                    lemma_queues_prefix_error(all, i + 1);
                }
                return Err(e);
            },
        }
        i += 1;
    }
    assert(all.take(metas.len() as int) =~= all);
    match describe_type(ty) {
        Ok(descriptor) => Ok(FieldSpec { id, descriptor, queues: props }),
        Err(e) => Err(e),
    }
}

} // verus!
