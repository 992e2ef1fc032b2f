//! What the builder does, step by step: the registry as it is seen from
//! outside, and what each schema gives in it.

use crate::builder::reach::{
    lemma_followed, lemma_pointers_of_one, lemma_remaining_opened, lemma_remaining_part, remaining,
};
use crate::document::{child, child_text, Node};
use crate::error::{failure, ErrorKind, ErrorView};
use crate::model::{read_shape, Shape};
use crate::reference::{no_schema_text, resolve};
use crate::text::{decimal, split};
use crate::utils::casing::{field_label, type_label};
use crate::utils::unique::{name_given, numbered};
use vstd::prelude::*;

verus! {

/// What a declaration says: the identifier, and the text of the definition.
/// The definition of a property is the type of the field; that of a model is
/// the declaration of the type.
pub struct Declaration {
    pub identifier: Seq<char>,
    pub definition: Seq<char>,
}

/// What a schema has given.
pub enum Generated {
    Property(Declaration),
    Model(Declaration),
}

/// A pointer and the model that is registered under it.
pub struct EntryView {
    pub pointer: Seq<char>,
    pub model: Declaration,
}

/// A pointer that is being followed, with the identifier of the model that is
/// being built under it, if one is.
pub struct PendingView {
    pub pointer: Seq<char>,
    pub identifier: Option<Seq<char>>,
}

/// A pointer that has been followed, and what it gave.
pub struct AnswerView {
    pub pointer: Seq<char>,
    pub generated: Generated,
}

/// What a registry holds: the models in the order in which they were
/// registered, what the pointers that were followed have given, and the
/// pointers that are pending, the innermost last.
pub struct RegistryView {
    pub entries: Seq<EntryView>,
    pub answers: Seq<AnswerView>,
    pub pending: Seq<PendingView>,
}

/// The result of a step of the builder, and the registry after it.
pub struct Outcome {
    pub result: Result<Generated, ErrorView>,
    pub state: RegistryView,
}

/// The text of the members that a model has so far, or the error that ended
/// the step, and the registry after it.
pub struct MembersOutcome {
    pub result: Result<Seq<char>, ErrorView>,
    pub state: RegistryView,
}

/// The place of the first of `entries`, from `from` on, that is registered
/// under `pointer`; the length of `entries` where none is.
pub open spec fn entry_index(entries: Seq<EntryView>, pointer: Seq<char>, from: int) -> int
    decreases entries.len() - from,
{
    if 0 <= from < entries.len() && entries[from].pointer != pointer {
        entry_index(entries, pointer, from + 1)
    } else {
        from
    }
}

/// The model registered under `pointer`, if one is.
pub open spec fn lookup(state: RegistryView, pointer: Seq<char>) -> Option<Declaration> {
    let at = entry_index(state.entries, pointer, 0);
    if 0 <= at < state.entries.len() {
        Some(state.entries[at].model)
    } else {
        None
    }
}

/// The place of the first of `answers`, from `from` on, that is the answer
/// to `pointer`; the length of `answers` where none is.
pub open spec fn answer_index(answers: Seq<AnswerView>, pointer: Seq<char>, from: int) -> int
    decreases answers.len() - from,
{
    if 0 <= from < answers.len() && answers[from].pointer != pointer {
        answer_index(answers, pointer, from + 1)
    } else {
        from
    }
}

/// What `pointer` gave when it was followed, if it was.
pub open spec fn answer(state: RegistryView, pointer: Seq<char>) -> Option<Generated> {
    let at = answer_index(state.answers, pointer, 0);
    if 0 <= at < state.answers.len() {
        Some(state.answers[at].generated)
    } else {
        None
    }
}

/// One more than the place of the last of the first `upto` of `pending` that
/// holds `pointer`; zero where none does.
pub open spec fn pending_index(pending: Seq<PendingView>, pointer: Seq<char>, upto: int) -> int
    decreases upto,
{
    if 0 < upto <= pending.len() && pending[upto - 1].pointer != pointer {
        pending_index(pending, pointer, upto - 1)
    } else {
        upto
    }
}

/// The innermost pending entry of `pointer`, if the pointer is pending.
pub open spec fn pending_of(state: RegistryView, pointer: Seq<char>) -> Option<PendingView> {
    let at = pending_index(state.pending, pointer, state.pending.len() as int);
    if 0 < at <= state.pending.len() {
        Some(state.pending[at - 1])
    } else {
        None
    }
}

/// The place of the first of `entries`, from `from` on, whose model is called
/// `identifier`; the length of `entries` where none is.
pub open spec fn entry_named(entries: Seq<EntryView>, identifier: Seq<char>, from: int) -> int
    decreases entries.len() - from,
{
    if 0 <= from < entries.len() && entries[from].model.identifier != identifier {
        entry_named(entries, identifier, from + 1)
    } else {
        from
    }
}

/// The place of the first of `pending`, from `from` on, under which a model
/// called `identifier` is being built; the length of `pending` where none is.
pub open spec fn pending_named(pending: Seq<PendingView>, identifier: Seq<char>, from: int) -> int
    decreases pending.len() - from,
{
    if 0 <= from < pending.len() && pending[from].identifier != Some(identifier) {
        pending_named(pending, identifier, from + 1)
    } else {
        from
    }
}

/// Whether a model called `identifier` is registered or being built.
pub open spec fn taken(state: RegistryView, identifier: Seq<char>) -> bool {
    entry_named(state.entries, identifier, 0) < state.entries.len() || pending_named(
        state.pending,
        identifier,
        0,
    ) < state.pending.len()
}

/// The registry with `pointer` pending on top.
pub open spec fn opened(
    state: RegistryView,
    pointer: Seq<char>,
    identifier: Option<Seq<char>>,
) -> RegistryView {
    RegistryView {
        entries: state.entries,
        answers: state.answers,
        pending: state.pending.push(PendingView { pointer, identifier }),
    }
}

/// The registry `state` with the pointers of `pending` pending.
pub open spec fn with_pending(state: RegistryView, pending: Seq<PendingView>) -> RegistryView {
    RegistryView { entries: state.entries, answers: state.answers, pending }
}

/// Registering `model` under `pointer`. What is registered stays: under a
/// pointer that has a model already, that model is the answer.
pub open spec fn registered(state: RegistryView, pointer: Seq<char>, model: Declaration) -> Outcome {
    match lookup(state, pointer) {
        Some(earlier) => Outcome { result: Ok(Generated::Model(earlier)), state },
        None => Outcome {
            result: Ok(Generated::Model(model)),
            state: RegistryView {
                entries: state.entries.push(EntryView { pointer, model }),
                answers: state.answers,
                pending: state.pending,
            },
        },
    }
}

/// Remembering that `pointer` gave `generated`. What is remembered stays: for
/// a pointer that has an answer already, that one is the answer.
pub open spec fn remembered(
    state: RegistryView,
    pointer: Seq<char>,
    generated: Generated,
) -> Outcome {
    match answer(state, pointer) {
        Some(earlier) => Outcome { result: Ok(earlier), state },
        None => Outcome {
            result: Ok(generated),
            state: RegistryView {
                entries: state.entries,
                answers: state.answers.push(AnswerView { pointer, generated }),
                pending: state.pending,
            },
        },
    }
}

/// The type by which a field refers to what was declared.
pub open spec fn type_of(generated: Generated) -> Seq<char> {
    match generated {
        Generated::Property(property) => property.definition,
        Generated::Model(model) => model.identifier,
    }
}

/// The name that the schema under the pointer `pointer` is given: the text
/// under `name` in the `xml` member of `node`, where one stands there, and
/// else the last segment of the pointer.
pub open spec fn schema_name(node: Node, pointer: Seq<char>) -> Seq<char> {
    let hint = match child(node, "xml"@) {
        Some(xml) => child_text(xml, "name"@),
        None => None,
    };
    match hint {
        Some(name) => name,
        None => split(pointer, '/').last(),
    }
}

/// The text from which the identifier of a type is made: its name, qualified
/// by the name of what encloses it.
pub open spec fn qualified(base: Seq<char>, name: Seq<char>) -> Seq<char> {
    base + seq!['_'] + name
}

/// How many models are registered or being built, at most.
pub open spec fn name_count(state: RegistryView) -> nat {
    state.entries.len() + state.pending.len()
}

/// The first of `stem` with `k`, `k + 1`, ... after it that is not taken; the
/// one with `limit + 1` where all up to `limit` are.
pub open spec fn first_free(state: RegistryView, stem: Seq<char>, k: nat, limit: nat) -> Seq<char>
    decreases limit + 1 - k,
{
    if k > limit || !taken(state, numbered(stem, k)) {
        numbered(stem, k)
    } else {
        first_free(state, stem, k + 1, limit)
    }
}

/// The identifier of the model of the schema `name` at the pointer `at`,
/// inside `base`: the type name of its qualified name; where that is taken,
/// the type name of the pointer; and where that is taken too, the first with a
/// number from 2 on after it that is not taken. There are more such numbers to
/// try than names are taken.
pub open spec fn chosen_identifier(
    state: RegistryView,
    at: Seq<char>,
    base: Seq<char>,
    name: Seq<char>,
) -> Seq<char> {
    let natural = type_label(qualified(base, name));
    let by_pointer = type_label(at);
    if !taken(state, natural) {
        natural
    } else if !taken(state, by_pointer) {
        by_pointer
    } else {
        first_free(state, natural, 2, name_count(state) + 2)
    }
}

pub open spec fn is_composite(target: Shape) -> bool {
    target is Record || target is OneOf || target is AnyOf || target is AllOf
}

/// The schemas that a composite schema is made of.
pub open spec fn member_shapes(target: Shape) -> Seq<Shape> {
    match target {
        Shape::Record(_, shapes) => shapes,
        Shape::OneOf(shapes) => shapes,
        Shape::AnyOf(shapes) => shapes,
        Shape::AllOf(shapes) => shapes,
        _ => Seq::empty(),
    }
}

/// The word under which the members of a composite schema stand in the
/// document.
pub open spec fn member_keyword(target: Shape) -> Seq<char> {
    match target {
        Shape::Record(_, _) => "properties"@,
        Shape::OneOf(_) => "oneOf"@,
        Shape::AnyOf(_) => "anyOf"@,
        _ => "allOf"@,
    }
}

/// The name of the member `i` of a composite schema called `name`: the name
/// of the property, or the name of the union with the place of the
/// alternative after it.
pub open spec fn member_label(target: Shape, name: Seq<char>, i: int) -> Seq<char> {
    match target {
        Shape::Record(names, _) => if 0 <= i < names.len() {
            names[i]
        } else {
            Seq::empty()
        },
        _ => name + seq!['_'] + decimal(i as nat),
    }
}

/// The segment by which the pointer of the member `i` goes on after the
/// keyword.
pub open spec fn member_segment(target: Shape, i: int) -> Seq<char> {
    match target {
        Shape::Record(names, _) => if 0 <= i < names.len() {
            names[i]
        } else {
            Seq::empty()
        },
        _ => decimal(i as nat),
    }
}

/// The pointer of the member `i` of the composite schema at `at`.
pub open spec fn member_pointer(target: Shape, at: Seq<char>, i: int) -> Seq<char> {
    at + seq!['/'] + member_keyword(target) + seq!['/'] + member_segment(target, i)
}

/// Whether a composite schema is declared as a choice between its members
/// rather than as a record of them.
pub open spec fn is_choice(target: Shape) -> bool {
    target is OneOf || target is AnyOf
}

/// The name that the member `i` of a composite schema called `name` would
/// have by itself: its label as a type identifier for a variant of a choice,
/// and as a field identifier for a field of a record.
pub open spec fn member_stem(target: Shape, name: Seq<char>, i: int) -> Seq<char> {
    if is_choice(target) {
        type_label(member_label(target, name, i))
    } else {
        field_label(member_label(target, name, i))
    }
}

pub open spec fn member_stems(target: Shape, name: Seq<char>) -> Seq<Seq<char>> {
    Seq::new(member_shapes(target).len(), |i: int| member_stem(target, name, i))
}

/// The identifier of the member `i` of a composite schema called `name`. The
/// members of one model are kept apart: where the name of a member is used by
/// one before it, it gets a number.
pub open spec fn member_identifier(target: Shape, name: Seq<char>, i: int) -> Seq<char> {
    name_given(Seq::empty(), member_stems(target, name), i)
}

/// The text of one member of a model: a field of a record, or a variant of a
/// choice.
pub open spec fn member_text(target: Shape, identifier: Seq<char>, type_text: Seq<char>) -> Seq<
    char,
> {
    if is_choice(target) {
        identifier + "("@ + type_text + "), "@
    } else {
        "pub "@ + identifier + ": "@ + type_text + ", "@
    }
}

/// The text of the declaration of a model.
pub open spec fn model_text(target: Shape, identifier: Seq<char>, members: Seq<char>) -> Seq<char> {
    if is_choice(target) {
        "pub enum "@ + identifier + " { "@ + members + "}"@
    } else {
        "pub struct "@ + identifier + " { "@ + members + "}"@
    }
}

pub open spec fn boxed(identifier: Seq<char>) -> Seq<char> {
    "Box<"@ + identifier + ">"@
}

pub open spec fn sequence_of(element: Seq<char>) -> Seq<char> {
    "Vec<"@ + element + ">"@
}

pub open spec fn not_schema_text() -> Seq<char> {
    "'not' schema"@
}

/// A property called by `name` whose fields have the type `type_text`.
pub open spec fn property(name: Seq<char>, type_text: Seq<char>) -> Generated {
    Generated::Property(Declaration { identifier: field_label(name), definition: type_text })
}

/// What the schema `target` gives.
///
/// `at` is the pointer of the schema, `name` the name under which it is met,
/// and `base` the name of what encloses it. What a pointer names is enclosed
/// by nothing but `prefix`, whoever points to it.
///
/// A pointer is answered by what it gave before, or by the model that is
/// registered under it. A pointer that is pending is not followed: it is
/// answered by a property that holds the model being built in a `Box`, and
/// where no model is being built under it, it is invalid. Any other pointer is
/// followed: while what it names is declared it is pending, and what it gives
/// is remembered.
///
/// The pointers that are pending when a step begins are pending when it
/// ends.
pub open spec fn declare(
    root: Node,
    state: RegistryView,
    target: Shape,
    at: Seq<char>,
    prefix: Seq<char>,
    base: Seq<char>,
    name: Seq<char>,
) -> Outcome
    decreases remaining(root, state.pending, target), target, 2int, 0int,
{
    match target {
        Shape::Reference(pointer) => {
            if answer(state, pointer) is Some {
                Outcome { result: Ok(answer(state, pointer)->Some_0), state }
            } else if lookup(state, pointer) is Some {
                Outcome { result: Ok(Generated::Model(lookup(state, pointer)->Some_0)), state }
            } else if pending_of(state, pointer) is Some {
                match pending_of(state, pointer)->Some_0.identifier {
                    Some(identifier) => Outcome {
                        result: Ok(property(name, boxed(identifier))),
                        state,
                    },
                    None => Outcome {
                        result: Err(failure(ErrorKind::InvalidReference, pointer)),
                        state,
                    },
                }
            } else {
                match resolve(root, pointer) {
                    Err(error) => Outcome { result: Err(error), state },
                    Ok(node) => match read_shape(node) {
                        None => Outcome {
                            result: Err(failure(ErrorKind::InvalidInput, no_schema_text())),
                            state,
                        },
                        Some(shape) => {
                            proof {
                                lemma_followed(root, state, pointer);
                            }
                            let inner = declare(
                                root,
                                opened(state, pointer, None),
                                shape,
                                pointer,
                                prefix,
                                prefix,
                                schema_name(node, pointer),
                            );
                            let after = with_pending(inner.state, state.pending);
                            match inner.result {
                                Ok(generated) => remembered(after, pointer, generated),
                                Err(error) => Outcome { result: Err(error), state: after },
                            }
                        },
                    },
                }
            }
        },
        Shape::Text => Outcome { result: Ok(property(name, "String"@)), state },
        Shape::Number => Outcome { result: Ok(property(name, "i32"@)), state },
        Shape::Integer => Outcome { result: Ok(property(name, "i32"@)), state },
        Shape::Boolean => Outcome { result: Ok(property(name, "bool"@)), state },
        Shape::Array(items) => {
            proof {
                lemma_remaining_part(root, state.pending, target, *items);
            }
            let inner = declare(root, state, *items, at + "/items"@, prefix, base, name);
            let after = with_pending(inner.state, state.pending);
            match inner.result {
                Ok(element) => Outcome {
                    result: Ok(property(name, sequence_of(type_of(element)))),
                    state: after,
                },
                Err(error) => Outcome { result: Err(error), state: after },
            }
        },
        Shape::Not(_) => Outcome {
            result: Err(failure(ErrorKind::UnimplementedFeature, not_schema_text())),
            state,
        },
        _ => match lookup(state, at) {
            Some(model) => Outcome { result: Ok(Generated::Model(model)), state },
            None => compose(
                root,
                state,
                target,
                at,
                prefix,
                chosen_identifier(state, at, base, name),
                name,
            ),
        },
    }
}

/// The model called `identifier` that the composite schema `target` gives.
/// While its members are declared the pointer of the schema is pending, and
/// afterwards the model is registered under it.
pub open spec fn compose(
    root: Node,
    state: RegistryView,
    target: Shape,
    at: Seq<char>,
    prefix: Seq<char>,
    identifier: Seq<char>,
    name: Seq<char>,
) -> Outcome
    decreases remaining(root, state.pending, target), target, 1int, 0int,
{
    proof {
        lemma_remaining_opened(
            root,
            state.pending,
            target,
            PendingView { pointer: at, identifier: Some(identifier) },
        );
    }
    let members = members_from(
        root,
        opened(state, at, Some(identifier)),
        target,
        at,
        prefix,
        identifier,
        name,
        0,
        Seq::empty(),
    );
    let after = with_pending(members.state, state.pending);
    match members.result {
        Err(error) => Outcome { result: Err(error), state: after },
        Ok(text) => registered(
            after,
            at,
            Declaration { identifier, definition: model_text(target, identifier, text) },
        ),
    }
}

/// The text of the members of the composite schema `target` from the member
/// `i` on, after `so_far`. The members are declared in order, each inside the
/// model, and the first that fails ends the step.
pub open spec fn members_from(
    root: Node,
    state: RegistryView,
    target: Shape,
    at: Seq<char>,
    prefix: Seq<char>,
    identifier: Seq<char>,
    name: Seq<char>,
    i: int,
    so_far: Seq<char>,
) -> MembersOutcome
    decreases remaining(root, state.pending, target), target, 0int, member_shapes(target).len() - i,
{
    let shapes = member_shapes(target);
    if !(0 <= i < shapes.len()) {
        MembersOutcome { result: Ok(so_far), state }
    } else {
        proof {
            lemma_pointers_of_one(shapes, i);
            lemma_remaining_part(root, state.pending, target, shapes[i]);
        }
        let label = member_label(target, name, i);
        let member = declare(
            root,
            state,
            shapes[i],
            member_pointer(target, at, i),
            prefix,
            identifier,
            label,
        );
        let after = with_pending(member.state, state.pending);
        match member.result {
            Err(error) => MembersOutcome { result: Err(error), state: after },
            Ok(generated) => members_from(
                root,
                after,
                target,
                at,
                prefix,
                identifier,
                name,
                i + 1,
                so_far + member_text(
                    target,
                    member_identifier(target, name, i),
                    type_of(generated),
                ),
            ),
        }
    }
}

/// What the schema under the pointer `schema_path` gives, inside `base`.
pub open spec fn generated_at(
    root: Node,
    state: RegistryView,
    schema_path: Seq<char>,
    base: Seq<char>,
) -> Outcome {
    declare(root, state, Shape::Reference(schema_path), schema_path, base, base, Seq::empty())
}

} // verus!
