//! Type resolution: from the declared shape of a field and the field's
//! directive queues to the codec of the field.
//!
//! The shape is walked depth first, from the left. Each sequence met takes
//! the next integer kind from the length queue for its count. Each leaf met
//! (a byte, a fixed-width or variable-length number, an opaque type) takes
//! the front entry from the conversion queue, so that the entries stand for
//! the leaves by position; an entry that names a type turns an opaque leaf
//! into a conversion to that type, and is ignored at any other leaf. The
//! type named by a conversion is resolved in turn, with the same length
//! queue, but conversions do not apply within it.

use crate::codec::{codecs_view, lemma_codec_views, Codec, CodecView};
use crate::error::{ErrorView, ProtoRwError};
use crate::schema::{
    conversion_view, conversions_view, descriptors_view, lemma_tuple_view, registry_view,
    DescriptorView, DirectiveQueues, Entity, EntityView, QueuesView, TypeDescriptor,
};
use crate::types::endian::Width;
use crate::types::integer::WireIntKind;
use vstd::prelude::*;

verus! {

/// The message for a sequence that finds the length queue empty.
pub open spec fn missing_length_message() -> Seq<char> {
    "no length directive is left for a sequence"@
}

/// The message for a float of a width other than 32 or 64 bits.
pub open spec fn float_width_message() -> Seq<char> {
    "a float is 32 or 64 bits wide"@
}

/// The message for an opaque type that nothing is known of.
pub open spec fn unresolved_message() -> Seq<char> {
    "an opaque type is neither built in nor compiled before"@
}

/// The name of the built-in boolean type.
pub open spec fn bool_name() -> Seq<char> {
    "bool"@
}

/// The name of the built-in string type.
pub open spec fn string_name() -> Seq<char> {
    "String"@
}

/// The position of the first entity called `name`, or -1 when there is
/// none.
pub open spec fn entity_index(registry: Seq<EntityView>, name: Seq<char>) -> int
    decreases registry.len(),
{
    if registry.len() == 0 {
        -1
    } else if registry.last().name == name && entity_index(registry.drop_last(), name) < 0 {
        registry.len() - 1
    } else {
        entity_index(registry.drop_last(), name)
    }
}

/// What [`entity_index`] finds: the first entity with the name, and -1
/// exactly when no entity has it.
pub proof fn lemma_entity_index(registry: Seq<EntityView>, name: Seq<char>)
    ensures
        -1 <= entity_index(registry, name) < registry.len(),
        entity_index(registry, name) >= 0 ==> registry[entity_index(registry, name)].name == name,
        forall|j: int|
            0 <= j < registry.len() && (j < entity_index(registry, name) || entity_index(
                registry,
                name,
            ) < 0) ==> (#[trigger] registry[j]).name != name,
    decreases registry.len(),
{
    if registry.len() > 0 {
        let front = registry.drop_last();
        lemma_entity_index(front, name);
        assert forall|j: int|
            0 <= j < registry.len() && (j < entity_index(registry, name) || entity_index(
                registry,
                name,
            ) < 0) implies (#[trigger] registry[j]).name != name by {
            if j < front.len() {
                assert(front[j] == registry[j]);
            }
        }
    }
}

/// The codec of a numeric leaf.
pub open spec fn numeric(desc: DescriptorView) -> Result<CodecView, ErrorView> {
    match desc {
        DescriptorView::FixedWidth { endianness, width, signed, is_float } => if is_float {
            if width == Width::W32 || width == Width::W64 {
                Ok(CodecView::Float { endianness, width })
            } else {
                Err(ErrorView::SchemaViolation(float_width_message()))
            }
        } else {
            Ok(CodecView::Int(WireIntKind::FixedWidth { endianness, width, signed }))
        },
        DescriptorView::VarInt { width, signed } => Ok(
            CodecView::Int(WireIntKind::VarInt { width, signed }),
        ),
        _ => Ok(CodecView::Int(WireIntKind::Byte)),
    }
}

/// The codec of an opaque type that is not converted: a built-in, or the
/// first entity of that name.
pub open spec fn named(registry: Seq<EntityView>, name: Seq<char>) -> Result<
    CodecView,
    ErrorView,
> {
    if name == bool_name() {
        Ok(CodecView::Bool)
    } else if name == string_name() {
        Ok(CodecView::Text)
    } else if entity_index(registry, name) >= 0 {
        Ok(registry[entity_index(registry, name)].codec)
    } else {
        Err(ErrorView::SchemaViolation(unresolved_message()))
    }
}

/// How many levels of resolving lie below: resolving the type that a
/// conversion names is one level below resolving with conversions.
pub open spec fn levels(convertible: bool) -> nat {
    if convertible {
        1
    } else {
        0
    }
}

/// The conversion that the next leaf finds at the front of the queue.
pub open spec fn front_conversion(queues: QueuesView, convertible: bool) -> Option<
    DescriptorView,
> {
    if convertible && queues.conversions.len() > 0 {
        queues.conversions[0]
    } else {
        None
    }
}

/// The queues once a leaf has taken the front of the conversion queue.
pub open spec fn after_leaf(queues: QueuesView, convertible: bool) -> QueuesView {
    if convertible && queues.conversions.len() > 0 {
        QueuesView { conversions: queues.conversions.skip(1), lengths: queues.lengths }
    } else {
        queues
    }
}

/// The queues once a sequence has taken the front of the length queue.
pub open spec fn after_length(queues: QueuesView) -> QueuesView {
    QueuesView { conversions: queues.conversions, lengths: queues.lengths.skip(1) }
}

/// The codecs resolved so far followed by those resolved next, or the
/// error of what is resolved next.
pub open spec fn resolved_after(
    done: Seq<CodecView>,
    next: Result<(Seq<CodecView>, QueuesView), ErrorView>,
) -> Result<(Seq<CodecView>, QueuesView), ErrorView> {
    match next {
        Ok((codecs, queues)) => Ok((done + codecs, queues)),
        Err(e) => Err(e),
    }
}

/// The codec of a type and the queues as resolving the type leaves them,
/// or the first schema violation met. `convertible` says whether the
/// conversion queue applies.
pub open spec fn resolve(
    desc: DescriptorView,
    queues: QueuesView,
    registry: Seq<EntityView>,
    convertible: bool,
) -> Result<(CodecView, QueuesView), ErrorView>
    decreases levels(convertible), desc, 0nat,
{
    match desc {
        DescriptorView::Sequence { element } => if queues.lengths.len() == 0 {
            Err(ErrorView::SchemaViolation(missing_length_message()))
        } else {
            match resolve(*element, after_length(queues), registry, convertible) {
                Ok((codec, left)) => Ok(
                    (
                        CodecView::Sequence { count: queues.lengths[0], element: Box::new(codec) },
                        left,
                    ),
                ),
                Err(e) => Err(e),
            }
        },
        DescriptorView::FixedArray { element, length } => match resolve(
            *element,
            queues,
            registry,
            convertible,
        ) {
            Ok((codec, left)) => Ok((CodecView::Array { element: Box::new(codec), length }, left)),
            Err(e) => Err(e),
        },
        DescriptorView::Tuple { elements } => match resolve_all(
            elements,
            queues,
            registry,
            convertible,
        ) {
            Ok((codecs, left)) => Ok((CodecView::Tuple { elements: codecs }, left)),
            Err(e) => Err(e),
        },
        DescriptorView::Opaque { name } => if convertible && queues.conversions.len() > 0
            && queues.conversions[0] is Some {
            match resolve(
                queues.conversions[0]->Some_0,
                after_leaf(queues, convertible),
                registry,
                false,
            ) {
                Ok((codec, left)) => Ok(
                    (CodecView::Converted { name, wire: Box::new(codec) }, left),
                ),
                Err(e) => Err(e),
            }
        } else {
            match named(registry, name) {
                Ok(codec) => Ok((codec, after_leaf(queues, convertible))),
                Err(e) => Err(e),
            }
        },
        _ => match numeric(desc) {
            Ok(codec) => Ok((codec, after_leaf(queues, convertible))),
            Err(e) => Err(e),
        },
    }
}

/// The codecs of several types resolved one after the other, each with
/// the queues as the one before left them.
pub open spec fn resolve_all(
    elements: Seq<DescriptorView>,
    queues: QueuesView,
    registry: Seq<EntityView>,
    convertible: bool,
) -> Result<(Seq<CodecView>, QueuesView), ErrorView>
    decreases levels(convertible), elements, 0nat,
{
    if elements.len() == 0 {
        Ok((Seq::empty(), queues))
    } else {
        match resolve(elements[0], queues, registry, convertible) {
            Ok((codec, left)) => resolved_after(
                seq![codec],
                resolve_all(elements.skip(1), left, registry, convertible),
            ),
            Err(e) => Err(e),
        }
    }
}

/// Whether `left` is what is left of the queues `before` once directives
/// have been taken from their fronts.
pub open spec fn drained(left: QueuesView, before: QueuesView) -> bool {
    is_rest_of(left.lengths, before.lengths) && is_rest_of(left.conversions, before.conversions)
}

/// Whether `r` and the queues `left` are what `expected` says of resolving
/// with the queues `before`: the codec and the queues left, or the schema
/// violation, with the directives that were used up to there taken from
/// the queues.
pub open spec fn resolved(
    expected: Result<(CodecView, QueuesView), ErrorView>,
    r: Result<Codec, ProtoRwError>,
    before: QueuesView,
    left: QueuesView,
) -> bool {
    match expected {
        Ok((codec, queues)) => r matches Ok(c) && c@ == codec && left == queues,
        Err(e) => r matches Err(x) && x@ == e && drained(left, before),
    }
}

/// A schema violation with the given message.
pub fn schema_violation(message: &str) -> (e: ProtoRwError)
    ensures
        e@ == ErrorView::SchemaViolation(message@),
{
    ProtoRwError::SchemaViolation(message.to_owned())
}

/// Whether `name` is the given text.
pub fn is_called(name: &String, text: &str) -> (same: bool)
    ensures
        same == (name@ == text@),
{
    let other = text.to_owned();
    *name == other
}

/// The position of the first entity called `name`, if any.
pub fn find_entity(registry: &Vec<Entity>, name: &String) -> (found: Option<usize>)
    ensures
        match found {
            Some(i) => i < registry.len() && entity_index(registry_view(registry@), name@) == i,
            None => entity_index(registry_view(registry@), name@) == -1,
        },
{
    let mut i: usize = 0;
    while i < registry.len()
        invariant
            i <= registry.len(),
            forall|j: int| 0 <= j < i ==> (#[trigger] registry_view(registry@)[j]).name != name@,
        decreases registry.len() - i,
    {
        if registry[i].name == *name {
            proof {
                let reg = registry_view(registry@);
                lemma_entity_index(reg, name@);
                assert(reg[i as int].name == name@);
                let found = entity_index(reg, name@);
                assert(found >= 0);
                assert(reg[found].name == name@);
            }
            return Some(i);
        }
        i += 1;
    }
    proof {
        lemma_entity_index(registry_view(registry@), name@);
    }
    None
}

impl DirectiveQueues {
    /// Takes the entry of the next leaf from the front of the conversion
    /// queue: the type that the leaf is converted to, if the entry names
    /// one. Where conversions do not apply or the queue is empty, nothing
    /// is taken.
    pub fn pop_conversion(&mut self, convertible: bool) -> (taken: Option<TypeDescriptor>)
        ensures
            final(self)@ == after_leaf(old(self)@, convertible),
            conversion_view(taken) == front_conversion(old(self)@, convertible),
    {
        if !convertible {
            return None;
        }
        let ghost before = self.conversions@;
        match self.conversions.pop_front() {
            Some(entry) => {
                assert(conversions_view(self.conversions@) =~= conversions_view(before).skip(1));
                entry
            },
            None => None,
        }
    }

    /// Takes the integer kind of the next sequence's count from the front
    /// of the length queue. An empty queue is a schema violation, and is
    /// left as it is.
    pub fn pop_length(&mut self) -> (r: Result<WireIntKind, ProtoRwError>)
        ensures
            match r {
                Ok(kind) => old(self)@.lengths.len() > 0 && kind == old(self)@.lengths[0]
                    && final(self)@ == after_length(old(self)@),
                Err(e) => old(self)@.lengths.len() == 0 && e@ == ErrorView::SchemaViolation(
                    missing_length_message(),
                ) && final(self)@ == old(self)@,
            },
    {
        let ghost before = self.lengths@;
        match self.lengths.pop_front() {
            Some(length) => {
                assert(self.lengths@ =~= before.skip(1));
                Ok(length)
            },
            None => Err(schema_violation("no length directive is left for a sequence")),
        }
    }
}

/// Resolves the type `ty` of a field with the field's directive queues
/// `props`, which are drained as the directives are used. Opaque types that
/// are not built in are looked up in `registry`. `convertible` says whether
/// the conversion queue applies: it does for a field's type, and does not
/// within the type that a conversion names.
pub fn build_type_quotes(
    ty: &TypeDescriptor,
    props: &mut DirectiveQueues,
    registry: &Vec<Entity>,
    convertible: bool,
) -> (r: Result<Codec, ProtoRwError>)
    ensures
        resolved(
            resolve(ty@, old(props)@, registry_view(registry@), convertible),
            r,
            old(props)@,
            final(props)@,
        ),
    decreases levels(convertible), ty, 1nat,
{
    match ty {
        TypeDescriptor::Tuple { elements } => {
            proof {
                lemma_tuple_view(*elements);
            }
            handle_tuple_type(elements, props, registry, convertible)
        },
        TypeDescriptor::FixedArray { element, length } => handle_array_type(
            element,
            *length,
            props,
            registry,
            convertible,
        ),
        _ => handle_path_type(ty, props, registry, convertible),
    }
}

/// Resolves a type that is neither a tuple nor an array: a number, a
/// sequence, or an opaque type.
fn handle_path_type(
    ty: &TypeDescriptor,
    props: &mut DirectiveQueues,
    registry: &Vec<Entity>,
    convertible: bool,
) -> (r: Result<Codec, ProtoRwError>)
    requires
        !(ty is Tuple),
        !(ty is FixedArray),
    ensures
        resolved(
            resolve(ty@, old(props)@, registry_view(registry@), convertible),
            r,
            old(props)@,
            final(props)@,
        ),
    decreases levels(convertible), ty, 0nat, 1nat,
{
    match ty {
        TypeDescriptor::Sequence { element } => handle_vec_type(
            element,
            props,
            registry,
            convertible,
        ),
        _ => handle_default_type(ty, props, registry, convertible),
    }
}

/// The codec of a number: a byte, a fixed-width integer or float, or a
/// variable-length integer.
fn handle_numeric_type(ty: &TypeDescriptor) -> (r: Result<Codec, ProtoRwError>)
    requires
        ty is Byte || ty is FixedWidth || ty is VarInt,
    ensures
        match numeric(ty@) {
            Ok(codec) => r matches Ok(c) && c@ == codec,
            Err(e) => r matches Err(x) && x@ == e,
        },
{
    match ty {
        TypeDescriptor::FixedWidth { endianness, width, signed, is_float } => {
            if *is_float {
                match width {
                    Width::W32 | Width::W64 => Ok(
                        Codec::Float { endianness: *endianness, width: *width },
                    ),
                    _ => Err(schema_violation("a float is 32 or 64 bits wide")),
                }
            } else {
                Ok(
                    Codec::Int(
                        WireIntKind::FixedWidth {
                            endianness: *endianness,
                            width: *width,
                            signed: *signed,
                        },
                    ),
                )
            }
        },
        TypeDescriptor::VarInt { width, signed } => Ok(
            Codec::Int(WireIntKind::VarInt { width: *width, signed: *signed }),
        ),
        _ => Ok(Codec::Int(WireIntKind::Byte)),
    }
}

/// Resolves a sequence of `element`: takes the integer kind of its count
/// from the length queue, then resolves the element type with what is
/// left.
fn handle_vec_type(
    element: &TypeDescriptor,
    props: &mut DirectiveQueues,
    registry: &Vec<Entity>,
    convertible: bool,
) -> (r: Result<Codec, ProtoRwError>)
    ensures
        resolved(
            resolve(
                DescriptorView::Sequence { element: Box::new(element@) },
                old(props)@,
                registry_view(registry@),
                convertible,
            ),
            r,
            old(props)@,
            final(props)@,
        ),
    decreases levels(convertible), element, 2nat,
{
    proof {
        lemma_pops_drain(props@, convertible);
        lemma_drained_itself(props@);
    }
    let length = match props.pop_length() {
        Ok(length) => length,
        Err(e) => {
            return Err(e);
        },
    };
    match build_type_quotes(element, props, registry, convertible) {
        Ok(inner) => Ok(Codec::Sequence { count: length, element: Box::new(inner) }),
        Err(e) => {
            proof {
                lemma_drained_further(props@, after_length(old(props)@), old(props)@);
            }
            Err(e)
        },
    }
}

/// Resolves a leaf: takes the front of the conversion queue, which stands
/// for this leaf. An opaque type is resolved as a conversion where the
/// entry taken names a type, else as a built-in or a compiled entity. A
/// number is resolved as it is.
fn handle_default_type(
    ty: &TypeDescriptor,
    props: &mut DirectiveQueues,
    registry: &Vec<Entity>,
    convertible: bool,
) -> (r: Result<Codec, ProtoRwError>)
    requires
        !(ty is Tuple),
        !(ty is FixedArray),
        !(ty is Sequence),
    ensures
        resolved(
            resolve(ty@, old(props)@, registry_view(registry@), convertible),
            r,
            old(props)@,
            final(props)@,
        ),
    decreases levels(convertible), ty, 0nat, 0nat,
{
    proof {
        lemma_pops_drain(props@, convertible);
    }
    let taken = props.pop_conversion(convertible);
    match ty {
        TypeDescriptor::Opaque { name } => {
            if let Some(target) = taken {
                return match build_type_quotes(&target, props, registry, false) {
                    Ok(inner) => Ok(
                        Codec::Converted { name: name.clone(), wire: Box::new(inner) },
                    ),
                    Err(e) => {
                        proof {
                            lemma_drained_further(
                                props@,
                                after_leaf(old(props)@, convertible),
                                old(props)@,
                            );
                        }
                        Err(e)
                    },
                };
            }
            if is_called(name, "bool") {
                Ok(Codec::Bool)
            } else if is_called(name, "String") {
                Ok(Codec::Text)
            } else {
                match find_entity(registry, name) {
                    Some(i) => Ok(registry[i].codec.duplicate()),
                    None => Err(
                        schema_violation("an opaque type is neither built in nor compiled before"),
                    ),
                }
            }
        },
        _ => handle_numeric_type(ty),
    }
}

/// Resolves a tuple of `elements`: from the left, each with the queues as
/// the one before left them.
fn handle_tuple_type(
    elements: &Vec<TypeDescriptor>,
    props: &mut DirectiveQueues,
    registry: &Vec<Entity>,
    convertible: bool,
) -> (r: Result<Codec, ProtoRwError>)
    ensures
        resolved(
            resolve(
                DescriptorView::Tuple { elements: descriptors_view(elements@) },
                old(props)@,
                registry_view(registry@),
                convertible,
            ),
            r,
            old(props)@,
            final(props)@,
        ),
    decreases levels(convertible), elements, 2nat,
{
    let ghost all = descriptors_view(elements@);
    let ghost reg = registry_view(registry@);
    let mut codecs: Vec<Codec> = Vec::new();
    let mut i: usize = 0;
    assert(all.skip(0) =~= all);
    assert(codecs_view(codecs@) =~= Seq::<CodecView>::empty());
    proof {
        lemma_drained_itself(props@);
        let next = resolve_all(all, props@, reg, convertible);
        if let Ok((more, left)) = next {
            assert(Seq::<CodecView>::empty() + more =~= more);
        }
    }
    while i < elements.len()
        invariant
            i <= elements.len(),
            all == descriptors_view(elements@),
            reg == registry_view(registry@),
            drained(props@, old(props)@),
            resolve_all(all, old(props)@, reg, convertible) == resolved_after(
                codecs_view(codecs@),
                resolve_all(all.skip(i as int), props@, reg, convertible),
            ),
        decreases elements.len() - i,
    {
        let ghost done = codecs_view(codecs@);
        let ghost before = props@;
        proof {
            vstd::std_specs::vec::axiom_vec_index_decreases(*elements, i as int);
            assert(all.skip(i as int)[0] == elements[i as int]@);
            assert(all.skip(i as int).skip(1) =~= all.skip(i + 1));
        }
        match build_type_quotes(&elements[i], props, registry, convertible) {
            Ok(codec) => {
                codecs.push(codec);
                proof {
                    lemma_resolve_drains(elements[i as int]@, before, reg, convertible);
                    lemma_drained_further(props@, before, old(props)@);
                    let next = resolve_all(all.skip(i + 1), props@, reg, convertible);
                    assert(codecs_view(codecs@) =~= done + seq![codec@]);
                    if let Ok((more, left)) = next {
                        assert(codecs_view(codecs@) + more =~= done + (seq![codec@] + more));
                    }
                }
            },
            Err(e) => {
                proof {
                    lemma_drained_further(props@, before, old(props)@);
                }
                return Err(e);
            },
        }
        i += 1;
    }
    assert(codecs_view(codecs@) + Seq::<CodecView>::empty() =~= codecs_view(codecs@));
    let codec = Codec::Tuple { elements: codecs };
    proof {
        lemma_codec_views(&codec);
    }
    Ok(codec)
}

/// Resolves an array of `length` elements: the element type, once, for all
/// the elements.
fn handle_array_type(
    element: &TypeDescriptor,
    length: usize,
    props: &mut DirectiveQueues,
    registry: &Vec<Entity>,
    convertible: bool,
) -> (r: Result<Codec, ProtoRwError>)
    ensures
        resolved(
            resolve(
                DescriptorView::FixedArray { element: Box::new(element@), length: length as nat },
                old(props)@,
                registry_view(registry@),
                convertible,
            ),
            r,
            old(props)@,
            final(props)@,
        ),
    decreases levels(convertible), element, 2nat,
{
    match build_type_quotes(element, props, registry, convertible) {
        Ok(inner) => Ok(Codec::Array { element: Box::new(inner), length }),
        Err(e) => Err(e),
    }
}

/// The number of leaves of a type: its numbers and opaque types, each
/// element type counted once.
pub open spec fn leaf_count(desc: DescriptorView) -> nat
    decreases desc, 0nat,
{
    match desc {
        DescriptorView::Sequence { element } => leaf_count(*element),
        DescriptorView::FixedArray { element, length } => leaf_count(*element),
        DescriptorView::Tuple { elements } => leaf_count_all(elements),
        _ => 1,
    }
}

/// The number of leaves of several types together.
pub open spec fn leaf_count_all(elements: Seq<DescriptorView>) -> nat
    decreases elements, 0nat,
{
    if elements.len() == 0 {
        0
    } else {
        leaf_count(elements[0]) + leaf_count_all(elements.skip(1))
    }
}

/// `queue` without its first `count` entries, or empty where it has fewer.
pub open spec fn dropped<T>(queue: Seq<T>, count: nat) -> Seq<T> {
    if count <= queue.len() {
        queue.skip(count as int)
    } else {
        Seq::empty()
    }
}

/// Whether `rest` is what is left of `queue` once some entries have been
/// taken from its front.
pub open spec fn is_rest_of<T>(rest: Seq<T>, queue: Seq<T>) -> bool {
    rest.len() <= queue.len() && rest == queue.skip(queue.len() - rest.len())
}

proof fn lemma_rest_of_rest<T>(a: Seq<T>, b: Seq<T>, c: Seq<T>)
    requires
        is_rest_of(b, a),
        is_rest_of(c, b),
    ensures
        is_rest_of(c, a),
{
    assert(c =~= a.skip(a.len() - c.len()));
}

proof fn lemma_dropped_twice<T>(queue: Seq<T>, first: nat, second: nat)
    ensures
        dropped(dropped(queue, first), second) == dropped(queue, first + second),
{
    assert(dropped(dropped(queue, first), second) =~= dropped(queue, first + second));
}

/// How resolving a type uses the queues. Directives are taken from the
/// front only: the length queue left is a rest of the one given. Where
/// conversions apply, exactly one entry of the conversion queue is taken
/// for each leaf of the type, as far as the queue goes; where they do not,
/// the conversion queue is left as it is.
pub proof fn lemma_resolve_queues(
    desc: DescriptorView,
    queues: QueuesView,
    registry: Seq<EntityView>,
    convertible: bool,
)
    requires
        resolve(desc, queues, registry, convertible) is Ok,
    ensures
        is_rest_of(resolve(desc, queues, registry, convertible)->Ok_0.1.lengths, queues.lengths),
        resolve(desc, queues, registry, convertible)->Ok_0.1.conversions == if convertible {
            dropped(queues.conversions, leaf_count(desc))
        } else {
            queues.conversions
        },
    decreases levels(convertible), desc, 0nat,
{
    let left = resolve(desc, queues, registry, convertible)->Ok_0.1;
    assert(queues.lengths =~= queues.lengths.skip(0));
    match desc {
        DescriptorView::Sequence { element } => {
            let popped = after_length(queues);
            lemma_resolve_queues(*element, popped, registry, convertible);
            lemma_rest_of_rest(queues.lengths, popped.lengths, left.lengths);
        },
        DescriptorView::FixedArray { element, length } => {
            lemma_resolve_queues(*element, queues, registry, convertible);
        },
        DescriptorView::Tuple { elements } => {
            lemma_resolve_all_queues(elements, queues, registry, convertible);
        },
        DescriptorView::Opaque { name } => {
            if convertible && queues.conversions.len() > 0 && queues.conversions[0] is Some {
                lemma_resolve_queues(
                    queues.conversions[0]->Some_0,
                    after_leaf(queues, convertible),
                    registry,
                    false,
                );
            }
            assert(dropped(queues.conversions, 1) =~= after_leaf(queues, true).conversions);
        },
        _ => {
            assert(dropped(queues.conversions, 1) =~= after_leaf(queues, true).conversions);
        },
    }
}

/// How resolving several types one after the other uses the queues: as
/// resolving one type does, with the leaves of all of them.
pub proof fn lemma_resolve_all_queues(
    elements: Seq<DescriptorView>,
    queues: QueuesView,
    registry: Seq<EntityView>,
    convertible: bool,
)
    requires
        resolve_all(elements, queues, registry, convertible) is Ok,
    ensures
        is_rest_of(
            resolve_all(elements, queues, registry, convertible)->Ok_0.1.lengths,
            queues.lengths,
        ),
        resolve_all(elements, queues, registry, convertible)->Ok_0.1.conversions
            == if convertible {
            dropped(queues.conversions, leaf_count_all(elements))
        } else {
            queues.conversions
        },
        resolve_all(elements, queues, registry, convertible)->Ok_0.0.len() == elements.len(),
    decreases levels(convertible), elements, 0nat,
{
    assert(queues.lengths =~= queues.lengths.skip(0));
    assert(dropped(queues.conversions, 0) =~= queues.conversions);
    if elements.len() > 0 {
        let middle = resolve(elements[0], queues, registry, convertible)->Ok_0.1;
        let left = resolve_all(elements, queues, registry, convertible)->Ok_0.1;
        lemma_resolve_queues(elements[0], queues, registry, convertible);
        lemma_resolve_all_queues(elements.skip(1), middle, registry, convertible);
        lemma_rest_of_rest(queues.lengths, middle.lengths, left.lengths);
        lemma_dropped_twice(
            queues.conversions,
            leaf_count(elements[0]),
            leaf_count_all(elements.skip(1)),
        );
    }
}

proof fn lemma_drained_itself(queues: QueuesView)
    ensures
        drained(queues, queues),
{
    assert(queues.lengths =~= queues.lengths.skip(0));
    assert(queues.conversions =~= queues.conversions.skip(0));
}

proof fn lemma_drained_further(left: QueuesView, middle: QueuesView, before: QueuesView)
    requires
        drained(left, middle),
        drained(middle, before),
    ensures
        drained(left, before),
{
    lemma_rest_of_rest(before.lengths, middle.lengths, left.lengths);
    lemma_rest_of_rest(before.conversions, middle.conversions, left.conversions);
}

proof fn lemma_pops_drain(queues: QueuesView, convertible: bool)
    ensures
        drained(after_leaf(queues, convertible), queues),
        queues.lengths.len() > 0 ==> drained(after_length(queues), queues),
{
    lemma_drained_itself(queues);
}

/// Resolving takes directives from the fronts of the queues only.
pub proof fn lemma_resolve_drains(
    desc: DescriptorView,
    queues: QueuesView,
    registry: Seq<EntityView>,
    convertible: bool,
)
    requires
        resolve(desc, queues, registry, convertible) is Ok,
    ensures
        drained(resolve(desc, queues, registry, convertible)->Ok_0.1, queues),
{
    lemma_resolve_queues(desc, queues, registry, convertible);
    lemma_drained_itself(queues);
    let count = leaf_count(desc);
    if count <= queues.conversions.len() {
        assert(dropped(queues.conversions, count) =~= queues.conversions.skip(
            queues.conversions.len() - (queues.conversions.len() - count),
        ));
    } else {
        assert(dropped(queues.conversions, count) =~= queues.conversions.skip(
            queues.conversions.len() as int,
        ));
    }
}

} // verus!
