//! What holds of the builder whatever the document: a pointer gives the same
//! declaration each time it is asked for, and no pointer is registered twice.

use crate::builder::rules::{
    answer, answer_index, chosen_identifier, compose, declare, entry_index, entry_named,
    first_free, name_count,
    generated_at, lookup, member_label,
    member_identifier, member_pointer, member_shapes, member_stems, member_text, members_from, model_text, not_schema_text, opened,
    pending_index, pending_named, pending_of, registered, remembered, schema_name, taken, type_of, with_pending,
    AnswerView, Declaration, EntryView, Outcome, PendingView, RegistryView,
};
use crate::builder::{lemma_declare_pending, lemma_members_pending};
use crate::builder::reach::{
    lemma_followed, lemma_pointers_of_one, lemma_remaining_opened, lemma_remaining_part, remaining,
};
use crate::error::{failure, ErrorKind};
use crate::utils::casing_laws::lemma_field_label_is_identifier;
use crate::utils::unique::{
    lemma_decimal_injective, lemma_names_given, lemma_numbered_is_identifier, names_given, numbered,
};
use crate::text::decimal;
use crate::utils::casing::{is_identifier, is_type_identifier};
use crate::utils::casing_laws::lemma_type_label_is_identifier;
use crate::document::Node;
use crate::model::{read_shape, Shape};
use crate::reference::{resolve, resolve_schema};
use vstd::prelude::*;

verus! {

/// No two of `entries` are registered under one pointer.
pub open spec fn distinct_pointers(entries: Seq<EntryView>) -> bool {
    forall|i: int, j: int|
        0 <= i < j < entries.len() ==> (#[trigger] entries[i]).pointer != (
        #[trigger] entries[j]).pointer
}

/// `after` holds everything that `before` holds, in the same places, and is
/// in the same step of the same run.
pub open spec fn grown_from(after: RegistryView, before: RegistryView) -> bool {
    &&& before.entries.is_prefix_of(after.entries)
    &&& before.answers.is_prefix_of(after.answers)
    &&& after.pending == before.pending
    &&& distinct_pointers(before.entries) ==> distinct_pointers(after.entries)
}

proof fn lemma_answer_index(answers: Seq<AnswerView>, pointer: Seq<char>, from: int)
    requires
        0 <= from <= answers.len(),
    ensures
        from <= answer_index(answers, pointer, from) <= answers.len(),
        answer_index(answers, pointer, from) < answers.len() ==> answers[answer_index(
            answers,
            pointer,
            from,
        )].pointer == pointer,
        forall|k: int| from <= k < answer_index(answers, pointer, from) ==> (#[trigger] answers[k]).pointer != pointer,
    decreases answers.len() - from,
{
    if from < answers.len() && answers[from].pointer != pointer {
        lemma_answer_index(answers, pointer, from + 1);
    }
}

/// An answer that is added to a registry without one is found there.
proof fn lemma_answer_added(answers: Seq<AnswerView>, added: AnswerView, from: int)
    requires
        0 <= from <= answers.len(),
        answer_index(answers, added.pointer, from) >= answers.len(),
    ensures
        answer_index(answers.push(added), added.pointer, from) == answers.len(),
    decreases answers.len() - from,
{
    let longer = answers.push(added);
    if from < answers.len() {
        assert(longer[from] == answers[from]);
        lemma_answer_index(answers, added.pointer, from);
        lemma_answer_added(answers, added, from + 1);
    } else {
        assert(longer[from] == added);
    }
}

proof fn lemma_entry_index(entries: Seq<EntryView>, pointer: Seq<char>, from: int)
    requires
        0 <= from <= entries.len(),
    ensures
        from <= entry_index(entries, pointer, from) <= entries.len(),
        forall|k: int| from <= k < entry_index(entries, pointer, from) ==> (#[trigger] entries[k]).pointer != pointer,
    decreases entries.len() - from,
{
    if from < entries.len() && entries[from].pointer != pointer {
        lemma_entry_index(entries, pointer, from + 1);
    }
}

proof fn lemma_registered_grows(state: RegistryView, pointer: Seq<char>, model: Declaration)
    ensures
        grown_from(registered(state, pointer, model).state, state),
{
    let after = registered(state, pointer, model).state;
    if lookup(state, pointer) is None {
        lemma_entry_index(state.entries, pointer, 0);
        if distinct_pointers(state.entries) {
            assert forall|i: int, j: int| 0 <= i < j < after.entries.len() implies (
            #[trigger] after.entries[i]).pointer != (#[trigger] after.entries[j]).pointer by {
                assert(after.entries[i] == state.entries[i]);
                if j < state.entries.len() {
                    assert(after.entries[j] == state.entries[j]);
                }
            }
        }
    }
}

proof fn lemma_grown_twice(last: RegistryView, middle: RegistryView, first: RegistryView)
    requires
        grown_from(last, middle),
        grown_from(middle, first),
    ensures
        grown_from(last, first),
{
    assert(first.entries.is_prefix_of(last.entries)) by {
        assert(first.entries =~= last.entries.subrange(0, first.entries.len() as int));
    }
    assert(first.answers.is_prefix_of(last.answers)) by {
        assert(first.answers =~= last.answers.subrange(0, first.answers.len() as int));
    }
}

/// A step that opens a pointer, declares, and puts the pending pointers back
/// as they were, has only grown the registry.
proof fn lemma_restored_grows(
    inner: RegistryView,
    state: RegistryView,
    pointer: Seq<char>,
    identifier: Option<Seq<char>>,
)
    requires
        grown_from(inner, opened(state, pointer, identifier)),
    ensures
        grown_from(with_pending(inner, state.pending), state),
{
}

/// Whatever a schema gives, the registry afterwards holds all that it held,
/// the same pointers are pending, and no pointer has come to be registered
/// twice.
pub proof fn lemma_declare_grows(
    root: Node,
    state: RegistryView,
    target: Shape,
    at: Seq<char>,
    prefix: Seq<char>,
    base: Seq<char>,
    name: Seq<char>,
)
    ensures
        grown_from(declare(root, state, target, at, prefix, base, name).state, state),
    decreases remaining(root, state.pending, target), target, 2int, 0int,
{
    let out = declare(root, state, target, at, prefix, base, name);
    match target {
        Shape::Reference(pointer) => {
            if answer(state, pointer) is None && lookup(state, pointer) is None && pending_of(
                state,
                pointer,
            ) is None {
                if resolve(root, pointer) is Ok {
                    let node = resolve(root, pointer)->Ok_0;
                    if read_shape(node) is Some {
                        let shape = read_shape(node)->Some_0;
                        let start = opened(state, pointer, None);
                        lemma_followed(root, state, pointer);
                        lemma_declare_grows(
                            root,
                            start,
                            shape,
                            pointer,
                            prefix,
                            prefix,
                            schema_name(node, pointer),
                        );
                        let inner = declare(
                            root,
                            start,
                            shape,
                            pointer,
                            prefix,
                            prefix,
                            schema_name(node, pointer),
                        );
                        lemma_restored_grows(inner.state, state, pointer, None);
                        if inner.result is Ok {
                            let middle = with_pending(inner.state, state.pending);
                            assert(grown_from(out.state, middle)) by {
                                if answer(middle, pointer) is None {
                                    assert(middle.answers.is_prefix_of(out.state.answers));
                                }
                            }
                            lemma_grown_twice(out.state, middle, state);
                        }
                    }
                }
            }
        },
        Shape::Array(items) => {
            lemma_remaining_part(root, state.pending, target, *items);
            lemma_declare_grows(root, state, *items, at + "/items"@, prefix, base, name);
        },
        Shape::Text | Shape::Number | Shape::Integer | Shape::Boolean | Shape::Not(_) => {},
        _ => {
            if lookup(state, at) is None {
                lemma_compose_grows(
                    root,
                    state,
                    target,
                    at,
                    prefix,
                    chosen_identifier(state, at, base, name),
                    name,
                );
            }
        },
    }
}

proof fn lemma_compose_grows(
    root: Node,
    state: RegistryView,
    target: Shape,
    at: Seq<char>,
    prefix: Seq<char>,
    identifier: Seq<char>,
    name: Seq<char>,
)
    ensures
        grown_from(compose(root, state, target, at, prefix, identifier, name).state, state),
    decreases remaining(root, state.pending, target), target, 1int, 0int,
{
    let start = opened(state, at, Some(identifier));
    lemma_remaining_opened(
        root,
        state.pending,
        target,
        PendingView { pointer: at, identifier: Some(identifier) },
    );
    lemma_members_grow(root, start, target, at, prefix, identifier, name, 0, Seq::empty());
    let members = members_from(root, start, target, at, prefix, identifier, name, 0, Seq::empty());
    lemma_restored_grows(members.state, state, at, Some(identifier));
    let middle = with_pending(members.state, state.pending);
    if members.result is Ok {
        let model = Declaration {
            identifier,
            definition: model_text(target, identifier, members.result->Ok_0),
        };
        lemma_registered_grows(middle, at, model);
        lemma_grown_twice(registered(middle, at, model).state, middle, state);
    }
}

proof fn lemma_members_grow(
    root: Node,
    state: RegistryView,
    target: Shape,
    at: Seq<char>,
    prefix: Seq<char>,
    identifier: Seq<char>,
    name: Seq<char>,
    i: int,
    so_far: Seq<char>,
)
    ensures
        grown_from(
            members_from(root, state, target, at, prefix, identifier, name, i, so_far).state,
            state,
        ),
    decreases remaining(root, state.pending, target), target, 0int, member_shapes(target).len() - i,
{
    let shapes = member_shapes(target);
    if 0 <= i < shapes.len() {
        let label = member_label(target, name, i);
        lemma_pointers_of_one(shapes, i);
        lemma_remaining_part(root, state.pending, target, shapes[i]);
        lemma_declare_grows(
            root,
            state,
            shapes[i],
            member_pointer(target, at, i),
            prefix,
            identifier,
            label,
        );
        let member = declare(
            root,
            state,
            shapes[i],
            member_pointer(target, at, i),
            prefix,
            identifier,
            label,
        );
        let after = with_pending(member.state, state.pending);
        assert(after == member.state);
        if member.result is Ok {
            let next = so_far + member_text(
                target,
                member_identifier(target, name, i),
                type_of(member.result->Ok_0),
            );
            lemma_members_grow(root, after, target, at, prefix, identifier, name, i + 1, next);
            lemma_grown_twice(
                members_from(root, after, target, at, prefix, identifier, name, i + 1, next).state,
                after,
                state,
            );
        }
    }
}

/// Asking for a pointer again gives the same declaration and leaves the
/// registry as it is: where the schema under `schema_path` has given
/// something, it gives that again, whatever was registered.
pub proof fn lemma_generated_twice(
    root: Node,
    state: RegistryView,
    schema_path: Seq<char>,
    base: Seq<char>,
)
    ensures
        generated_at(root, state, schema_path, base).result is Ok ==> generated_at(
            root,
            generated_at(root, state, schema_path, base).state,
            schema_path,
            base,
        ) == generated_at(root, state, schema_path, base),
{
    let first = generated_at(root, state, schema_path, base);
    if first.result is Ok && first.state != state {
        // the pointer was followed, and what it gave is remembered
        let node = resolve(root, schema_path)->Ok_0;
        let shape = read_shape(node)->Some_0;
        let inner = declare(
            root,
            opened(state, schema_path, None),
            shape,
            schema_path,
            base,
            base,
            schema_name(node, schema_path),
        );
        let middle = with_pending(inner.state, state.pending);
        assert(first == remembered(middle, schema_path, inner.result->Ok_0));
        if answer(middle, schema_path) is None {
            lemma_answer_index(middle.answers, schema_path, 0);
            lemma_answer_added(
                middle.answers,
                AnswerView { pointer: schema_path, generated: inner.result->Ok_0 },
                0,
            );
            assert(answer(first.state, schema_path) == Some(inner.result->Ok_0));
        }
    }
}

/// Declaring what a pointer names leaves all that was registered where it
/// was, and registers no pointer twice.
pub proof fn lemma_generated_grows(
    root: Node,
    state: RegistryView,
    schema_path: Seq<char>,
    base: Seq<char>,
)
    ensures
        grown_from(generated_at(root, state, schema_path, base).state, state),
{
    lemma_declare_grows(
        root,
        state,
        Shape::Reference(schema_path),
        schema_path,
        base,
        base,
        Seq::empty(),
    );
}

/// No two models, registered or being built, are called the same.
pub open spec fn distinct_names(state: RegistryView) -> bool {
    &&& forall|i: int, j: int|
        0 <= i < j < state.entries.len() ==> (#[trigger] state.entries[i]).model.identifier != (
        #[trigger] state.entries[j]).model.identifier
    &&& forall|i: int, j: int|
        0 <= i < state.entries.len() && 0 <= j < state.pending.len() ==> (
        #[trigger] state.pending[j]).identifier != Some(
            (#[trigger] state.entries[i]).model.identifier,
        )
    &&& forall|i: int, j: int|
        0 <= i < j < state.pending.len() && state.pending[i].identifier is Some ==> (
        #[trigger] state.pending[i]).identifier != (#[trigger] state.pending[j]).identifier
}

proof fn lemma_entry_named(entries: Seq<EntryView>, identifier: Seq<char>, from: int)
    requires
        0 <= from <= entries.len(),
    ensures
        from <= entry_named(entries, identifier, from) <= entries.len(),
        forall|k: int|
            from <= k < entry_named(entries, identifier, from) ==> (
            #[trigger] entries[k]).model.identifier != identifier,
    decreases entries.len() - from,
{
    if from < entries.len() && entries[from].model.identifier != identifier {
        lemma_entry_named(entries, identifier, from + 1);
    }
}

proof fn lemma_pending_named(pending: Seq<PendingView>, identifier: Seq<char>, from: int)
    requires
        0 <= from <= pending.len(),
    ensures
        from <= pending_named(pending, identifier, from) <= pending.len(),
        forall|k: int|
            from <= k < pending_named(pending, identifier, from) ==> (
            #[trigger] pending[k]).identifier != Some(identifier),
    decreases pending.len() - from,
{
    if from < pending.len() && pending[from].identifier != Some(identifier) {
        lemma_pending_named(pending, identifier, from + 1);
    }
}

/// A pointer can be opened under a name that is not taken, or under none.
proof fn lemma_opened_names(state: RegistryView, pointer: Seq<char>, identifier: Option<Seq<char>>)
    requires
        distinct_names(state),
        identifier is Some ==> !taken(state, identifier->Some_0),
    ensures
        distinct_names(opened(state, pointer, identifier)),
{
    let after = opened(state, pointer, identifier);
    let last = state.pending.len() as int;
    if identifier is Some {
        lemma_entry_named(state.entries, identifier->Some_0, 0);
        lemma_pending_named(state.pending, identifier->Some_0, 0);
    }
    assert forall|i: int, j: int|
        0 <= i < after.entries.len() && 0 <= j < after.pending.len() implies (
    #[trigger] after.pending[j]).identifier != Some(
        (#[trigger] after.entries[i]).model.identifier,
    ) by {
        if j < last {
            assert(after.pending[j] == state.pending[j]);
        }
    }
    assert forall|i: int, j: int|
        0 <= i < j < after.pending.len() && after.pending[i].identifier is Some implies (
    #[trigger] after.pending[i]).identifier != (#[trigger] after.pending[j]).identifier by {
        assert(after.pending[i] == state.pending[i]);
        if j < last {
            assert(after.pending[j] == state.pending[j]);
        }
    }
}

/// Putting the pending pointers back as they were takes no name.
proof fn lemma_restored_names(inner: RegistryView, pending: Seq<PendingView>, added: PendingView)
    requires
        distinct_names(inner),
        inner.pending == pending.push(added),
    ensures
        distinct_names(with_pending(inner, pending)),
{
    let after = with_pending(inner, pending);
    assert forall|i: int, j: int|
        0 <= i < after.entries.len() && 0 <= j < after.pending.len() implies (
    #[trigger] after.pending[j]).identifier != Some(
        (#[trigger] after.entries[i]).model.identifier,
    ) by {
        assert(after.pending[j] == inner.pending[j]);
    }
    assert forall|i: int, j: int|
        0 <= i < j < after.pending.len() && after.pending[i].identifier is Some implies (
    #[trigger] after.pending[i]).identifier != (#[trigger] after.pending[j]).identifier by {
        assert(after.pending[i] == inner.pending[i]);
        assert(after.pending[j] == inner.pending[j]);
    }
}

/// The model that was being built under the innermost pending pointer can
/// be registered under its name.
proof fn lemma_registered_names(
    inner: RegistryView,
    pending: Seq<PendingView>,
    pointer: Seq<char>,
    model: Declaration,
)
    requires
        distinct_names(inner),
        inner.pending == pending.push(
            PendingView { pointer, identifier: Some(model.identifier) },
        ),
    ensures
        distinct_names(registered(with_pending(inner, pending), pointer, model).state),
{
    let added = PendingView { pointer, identifier: Some(model.identifier) };
    lemma_restored_names(inner, pending, added);
    let middle = with_pending(inner, pending);
    let after = registered(middle, pointer, model).state;
    let top = pending.len() as int;
    assert(inner.pending[top] == added);
    if lookup(middle, pointer) is None {
        assert forall|i: int, j: int| 0 <= i < j < after.entries.len() implies (
        #[trigger] after.entries[i]).model.identifier != (
        #[trigger] after.entries[j]).model.identifier by {
            assert(after.entries[i] == inner.entries[i]);
            if j < inner.entries.len() {
                assert(after.entries[j] == inner.entries[j]);
            } else {
                assert(inner.pending[top].identifier != Some(inner.entries[i].model.identifier));
            }
        }
        assert forall|i: int, j: int|
            0 <= i < after.entries.len() && 0 <= j < after.pending.len() implies (
        #[trigger] after.pending[j]).identifier != Some(
            (#[trigger] after.entries[i]).model.identifier,
        ) by {
            assert(after.pending[j] == inner.pending[j]);
            if i < inner.entries.len() {
                assert(after.entries[i] == inner.entries[i]);
            } else {
                if inner.pending[j].identifier is Some {
                    assert(inner.pending[j].identifier != inner.pending[top].identifier);
                }
            }
        }
        assert forall|i: int, j: int|
            0 <= i < j < after.pending.len() && after.pending[i].identifier is Some implies (
        #[trigger] after.pending[i]).identifier != (#[trigger] after.pending[j]).identifier by {
            assert(after.pending[i] == inner.pending[i]);
            assert(after.pending[j] == inner.pending[j]);
        }
    }
}

/// Whatever a schema gives, no two models have come to be called the same.
pub proof fn lemma_declare_names(
    root: Node,
    state: RegistryView,
    target: Shape,
    at: Seq<char>,
    prefix: Seq<char>,
    base: Seq<char>,
    name: Seq<char>,
)
    requires
        distinct_names(state),
    ensures
        distinct_names(declare(root, state, target, at, prefix, base, name).state),
    decreases remaining(root, state.pending, target), target, 2int, 0int,
{
    match target {
        Shape::Reference(pointer) => {
            if answer(state, pointer) is None && lookup(state, pointer) is None && pending_of(
                state,
                pointer,
            ) is None {
                if resolve(root, pointer) is Ok {
                    let node = resolve(root, pointer)->Ok_0;
                    if read_shape(node) is Some {
                        let shape = read_shape(node)->Some_0;
                        let start = opened(state, pointer, None);
                        lemma_opened_names(state, pointer, None);
                        lemma_followed(root, state, pointer);
                        lemma_declare_names(
                            root,
                            start,
                            shape,
                            pointer,
                            prefix,
                            prefix,
                            schema_name(node, pointer),
                        );
                        lemma_declare_pending(
                            root,
                            start,
                            shape,
                            pointer,
                            prefix,
                            prefix,
                            schema_name(node, pointer),
                        );
                        let inner = declare(
                            root,
                            start,
                            shape,
                            pointer,
                            prefix,
                            prefix,
                            schema_name(node, pointer),
                        );
                        lemma_restored_names(
                            inner.state,
                            state.pending,
                            PendingView { pointer, identifier: None },
                        );
                    }
                }
            }
        },
        Shape::Array(items) => {
            lemma_remaining_part(root, state.pending, target, *items);
            lemma_declare_names(root, state, *items, at + "/items"@, prefix, base, name);
            lemma_declare_pending(root, state, *items, at + "/items"@, prefix, base, name);
            let inner = declare(root, state, *items, at + "/items"@, prefix, base, name);
            assert(with_pending(inner.state, state.pending) == inner.state);
        },
        Shape::Text | Shape::Number | Shape::Integer | Shape::Boolean | Shape::Not(_) => {},
        _ => {
            if lookup(state, at) is None {
                lemma_chosen_is_identifier(state, at, base, name);
                lemma_compose_names(
                    root,
                    state,
                    target,
                    at,
                    prefix,
                    chosen_identifier(state, at, base, name),
                    name,
                );
            }
        },
    }
}

proof fn lemma_compose_names(
    root: Node,
    state: RegistryView,
    target: Shape,
    at: Seq<char>,
    prefix: Seq<char>,
    identifier: Seq<char>,
    name: Seq<char>,
)
    requires
        distinct_names(state),
        !taken(state, identifier),
    ensures
        distinct_names(compose(root, state, target, at, prefix, identifier, name).state),
    decreases remaining(root, state.pending, target), target, 1int, 0int,
{
    let start = opened(state, at, Some(identifier));
    let added = PendingView { pointer: at, identifier: Some(identifier) };
    lemma_opened_names(state, at, Some(identifier));
    lemma_remaining_opened(root, state.pending, target, added);
    lemma_members_names(root, start, target, at, prefix, identifier, name, 0, Seq::empty());
    lemma_members_pending(root, start, target, at, prefix, identifier, name, 0, Seq::empty());
    let members = members_from(root, start, target, at, prefix, identifier, name, 0, Seq::empty());
    if members.result is Ok {
        let model = Declaration {
            identifier,
            definition: model_text(target, identifier, members.result->Ok_0),
        };
        lemma_registered_names(members.state, state.pending, at, model);
    } else {
        lemma_restored_names(members.state, state.pending, added);
    }
}

proof fn lemma_members_names(
    root: Node,
    state: RegistryView,
    target: Shape,
    at: Seq<char>,
    prefix: Seq<char>,
    identifier: Seq<char>,
    name: Seq<char>,
    i: int,
    so_far: Seq<char>,
)
    requires
        distinct_names(state),
    ensures
        distinct_names(
            members_from(root, state, target, at, prefix, identifier, name, i, so_far).state,
        ),
    decreases remaining(root, state.pending, target), target, 0int, member_shapes(target).len() - i,
{
    let shapes = member_shapes(target);
    if 0 <= i < shapes.len() {
        let label = member_label(target, name, i);
        lemma_pointers_of_one(shapes, i);
        lemma_remaining_part(root, state.pending, target, shapes[i]);
        lemma_declare_names(
            root,
            state,
            shapes[i],
            member_pointer(target, at, i),
            prefix,
            identifier,
            label,
        );
        lemma_declare_pending(
            root,
            state,
            shapes[i],
            member_pointer(target, at, i),
            prefix,
            identifier,
            label,
        );
        let member = declare(
            root,
            state,
            shapes[i],
            member_pointer(target, at, i),
            prefix,
            identifier,
            label,
        );
        let after = with_pending(member.state, state.pending);
        assert(after == member.state);
        if member.result is Ok {
            lemma_members_names(
                root,
                after,
                target,
                at,
                prefix,
                identifier,
                name,
                i + 1,
                so_far + member_text(
                target,
                member_identifier(target, name, i),
                type_of(member.result->Ok_0),
            ),
            );
        }
    }
}

/// Declaring what a pointer names leaves no two models called the same.
pub proof fn lemma_generated_names(
    root: Node,
    state: RegistryView,
    schema_path: Seq<char>,
    base: Seq<char>,
)
    requires
        distinct_names(state),
    ensures
        distinct_names(generated_at(root, state, schema_path, base).state),
{
    lemma_declare_names(
        root,
        state,
        Shape::Reference(schema_path),
        schema_path,
        base,
        base,
        Seq::empty(),
    );
}

/// A schema that negates another is never declared: it is refused, and the
/// registry stays as it is.
pub proof fn lemma_not_is_refused(
    root: Node,
    state: RegistryView,
    negated: Shape,
    at: Seq<char>,
    prefix: Seq<char>,
    base: Seq<char>,
    name: Seq<char>,
)
    ensures
        declare(root, state, Shape::Not(Box::new(negated)), at, prefix, base, name) == (
        Outcome {
            result: Err(failure(ErrorKind::UnimplementedFeature, not_schema_text())),
            state,
        }),
{
}

/// Every model, registered or being built, is called by an identifier.
pub open spec fn valid_names(state: RegistryView) -> bool {
    &&& forall|i: int|
        0 <= i < state.entries.len() ==> is_type_identifier(
            (#[trigger] state.entries[i]).model.identifier,
        )
    &&& forall|j: int|
        0 <= j < state.pending.len() && (#[trigger] state.pending[j]).identifier is Some
            ==> is_type_identifier(state.pending[j].identifier->Some_0)
}

/// The names that are taken, one for each model that is registered or being
/// built.
pub open spec fn taken_names(state: RegistryView) -> Seq<Seq<char>> {
    Seq::new(
        name_count(state),
        |i: int|
            if i < state.entries.len() {
                state.entries[i].model.identifier
            } else {
                match state.pending[i - state.entries.len()].identifier {
                    Some(identifier) => identifier,
                    None => Seq::empty(),
                }
            },
    )
}

proof fn lemma_taken_is_listed(state: RegistryView, identifier: Seq<char>)
    requires
        taken(state, identifier),
    ensures
        taken_names(state).contains(identifier),
{
    lemma_entry_named(state.entries, identifier, 0);
    lemma_pending_named(state.pending, identifier, 0);
    let i = entry_named(state.entries, identifier, 0);
    if i < state.entries.len() {
        lemma_entry_named_found(state.entries, identifier, 0);
        assert(taken_names(state)[i] == identifier);
    } else {
        let j = pending_named(state.pending, identifier, 0);
        lemma_pending_named_found(state.pending, identifier, 0);
        assert(taken_names(state)[state.entries.len() + j] == identifier);
    }
}

proof fn lemma_entry_named_found(entries: Seq<EntryView>, identifier: Seq<char>, from: int)
    requires
        0 <= from <= entries.len(),
        entry_named(entries, identifier, from) < entries.len(),
    ensures
        entries[entry_named(entries, identifier, from)].model.identifier == identifier,
    decreases entries.len() - from,
{
    if from < entries.len() && entries[from].model.identifier != identifier {
        lemma_entry_named_found(entries, identifier, from + 1);
    }
}

proof fn lemma_pending_named_found(pending: Seq<PendingView>, identifier: Seq<char>, from: int)
    requires
        0 <= from <= pending.len(),
        pending_named(pending, identifier, from) < pending.len(),
    ensures
        pending[pending_named(pending, identifier, from)].identifier == Some(identifier),
    decreases pending.len() - from,
{
    if from < pending.len() && pending[from].identifier != Some(identifier) {
        lemma_pending_named_found(pending, identifier, from + 1);
    }
}

/// Among the numbers from 2 to two more than there are names taken, one
/// gives a name that is not taken: there is one number more than names.
proof fn lemma_some_number_is_free(state: RegistryView, stem: Seq<char>)
    ensures
        exists|k: nat| 2 <= k <= name_count(state) + 2 && !taken(state, #[trigger] numbered(stem, k)),
{
    let n = name_count(state);
    let candidates = Seq::new(n + 1, |i: int| numbered(stem, (i + 2) as nat));
    if forall|k: nat| 2 <= k <= n + 2 ==> taken(state, #[trigger] numbered(stem, k)) {
        assert(candidates.no_duplicates()) by {
            assert forall|i: int, j: int|
                0 <= i < candidates.len() && 0 <= j < candidates.len() && i != j implies candidates[i]
                != candidates[j] by {
                if candidates[i] == candidates[j] {
                    let a = decimal((i + 2) as nat);
                    let b = decimal((j + 2) as nat);
                    assert(a == (stem + a).subrange(stem.len() as int, (stem + a).len() as int));
                    assert(b == (stem + b).subrange(stem.len() as int, (stem + b).len() as int));
                    lemma_decimal_injective((i + 2) as nat, (j + 2) as nat);
                }
            }
        }
        candidates.unique_seq_to_set();
        let names = taken_names(state);
        names.lemma_cardinality_of_set();
        vstd::seq_lib::seq_to_set_is_finite(names);
        assert(candidates.to_set().subset_of(names.to_set())) by {
            assert forall|x: Seq<char>| candidates.to_set().contains(x) implies names.to_set().contains(
                x,
            ) by {
                let i = choose|i: int| 0 <= i < candidates.len() && candidates[i] == x;
                assert(taken(state, numbered(stem, (i + 2) as nat)));
                lemma_taken_is_listed(state, x);
            }
        }
        vstd::set_lib::lemma_len_subset(candidates.to_set(), names.to_set());
    }
}

/// The first free number is found where there is one.
proof fn lemma_first_free(state: RegistryView, stem: Seq<char>, k: nat, limit: nat, free: nat)
    requires
        k <= free <= limit,
        !taken(state, numbered(stem, free)),
    ensures
        !taken(state, first_free(state, stem, k, limit)),
        exists|found: nat| k <= found <= limit && first_free(state, stem, k, limit) == numbered(
            stem,
            found,
        ),
    decreases limit + 1 - k,
{
    if taken(state, numbered(stem, k)) {
        lemma_first_free(state, stem, (k + 1) as nat, limit, free);
        let found = choose|found: nat| k + 1 <= found <= limit && first_free(state, stem, (k + 1) as nat, limit) == numbered(stem, found);
        assert(first_free(state, stem, k, limit) == numbered(stem, found));
    } else {
        assert(first_free(state, stem, k, limit) == numbered(stem, k));
    }
}

/// The identifier that is chosen for a model is an identifier, and it is not
/// taken: whatever is registered, there is a name for the next model.
pub proof fn lemma_chosen_is_identifier(
    state: RegistryView,
    at: Seq<char>,
    base: Seq<char>,
    name: Seq<char>,
)
    ensures
        is_type_identifier(chosen_identifier(state, at, base, name)),
        !taken(state, chosen_identifier(state, at, base, name)),
{
    let natural = crate::utils::casing::type_label(crate::builder::rules::qualified(base, name));
    lemma_type_label_is_identifier(crate::builder::rules::qualified(base, name));
    lemma_type_label_is_identifier(at);
    if taken(state, natural) && taken(state, crate::utils::casing::type_label(at)) {
        lemma_some_number_is_free(state, natural);
        let free = choose|k: nat| 2 <= k <= name_count(state) + 2 && !taken(state, #[trigger] numbered(natural, k));
        lemma_first_free(state, natural, 2, name_count(state) + 2, free);
        let found = choose|found: nat| 2 <= found <= name_count(state) + 2 && first_free(state, natural, 2, name_count(state) + 2) == numbered(natural, found);
        lemma_numbered_is_identifier(natural, found);
    }
}

/// Whatever a schema gives, every model is called by an identifier.
pub proof fn lemma_declare_valid(
    root: Node,
    state: RegistryView,
    target: Shape,
    at: Seq<char>,
    prefix: Seq<char>,
    base: Seq<char>,
    name: Seq<char>,
)
    requires
        valid_names(state),
    ensures
        valid_names(declare(root, state, target, at, prefix, base, name).state),
    decreases remaining(root, state.pending, target), target, 2int, 0int,
{
    match target {
        Shape::Reference(pointer) => {
            if answer(state, pointer) is None && lookup(state, pointer) is None && pending_of(
                state,
                pointer,
            ) is None {
                if resolve(root, pointer) is Ok {
                    let node = resolve(root, pointer)->Ok_0;
                    if read_shape(node) is Some {
                        let shape = read_shape(node)->Some_0;
                        let start = opened(state, pointer, None);
                        assert(valid_names(start)) by {
                            assert forall|j: int|
                                0 <= j < start.pending.len() && (
                                #[trigger] start.pending[j]).identifier is Some implies is_type_identifier(
                                start.pending[j].identifier->Some_0,
                            ) by {
                                assert(start.pending[j] == state.pending[j]);
                            }
                        }
                        lemma_followed(root, state, pointer);
                        lemma_declare_valid(
                            root,
                            start,
                            shape,
                            pointer,
                            prefix,
                            prefix,
                            schema_name(node, pointer),
                        );
                    }
                }
            }
        },
        Shape::Array(items) => {
            lemma_remaining_part(root, state.pending, target, *items);
            lemma_declare_valid(root, state, *items, at + "/items"@, prefix, base, name);
        },
        Shape::Text | Shape::Number | Shape::Integer | Shape::Boolean | Shape::Not(_) => {},
        _ => {
            if lookup(state, at) is None {
                lemma_chosen_is_identifier(state, at, base, name);
                lemma_compose_valid(
                    root,
                    state,
                    target,
                    at,
                    prefix,
                    chosen_identifier(state, at, base, name),
                    name,
                );
            }
        },
    }
}

proof fn lemma_compose_valid(
    root: Node,
    state: RegistryView,
    target: Shape,
    at: Seq<char>,
    prefix: Seq<char>,
    identifier: Seq<char>,
    name: Seq<char>,
)
    requires
        valid_names(state),
        is_type_identifier(identifier),
    ensures
        valid_names(compose(root, state, target, at, prefix, identifier, name).state),
    decreases remaining(root, state.pending, target), target, 1int, 0int,
{
    let start = opened(state, at, Some(identifier));
    let added = PendingView { pointer: at, identifier: Some(identifier) };
    assert(valid_names(start)) by {
        assert forall|j: int|
            0 <= j < start.pending.len() && (
            #[trigger] start.pending[j]).identifier is Some implies is_type_identifier(
            start.pending[j].identifier->Some_0,
        ) by {
            if j < state.pending.len() {
                assert(start.pending[j] == state.pending[j]);
            }
        }
    }
    lemma_remaining_opened(root, state.pending, target, added);
    lemma_members_valid(root, start, target, at, prefix, identifier, name, 0, Seq::empty());
    let members = members_from(root, start, target, at, prefix, identifier, name, 0, Seq::empty());
    let middle = with_pending(members.state, state.pending);
    if members.result is Ok {
        let model = Declaration {
            identifier,
            definition: model_text(target, identifier, members.result->Ok_0),
        };
        let after = registered(middle, at, model).state;
        assert forall|i: int| 0 <= i < after.entries.len() implies is_type_identifier(
            (#[trigger] after.entries[i]).model.identifier,
        ) by {
            if i < middle.entries.len() {
                assert(after.entries[i] == members.state.entries[i]);
            }
        }
    }
}

proof fn lemma_members_valid(
    root: Node,
    state: RegistryView,
    target: Shape,
    at: Seq<char>,
    prefix: Seq<char>,
    identifier: Seq<char>,
    name: Seq<char>,
    i: int,
    so_far: Seq<char>,
)
    requires
        valid_names(state),
    ensures
        valid_names(
            members_from(root, state, target, at, prefix, identifier, name, i, so_far).state,
        ),
    decreases remaining(root, state.pending, target), target, 0int, member_shapes(target).len() - i,
{
    let shapes = member_shapes(target);
    if 0 <= i < shapes.len() {
        let label = member_label(target, name, i);
        lemma_pointers_of_one(shapes, i);
        lemma_remaining_part(root, state.pending, target, shapes[i]);
        lemma_declare_valid(
            root,
            state,
            shapes[i],
            member_pointer(target, at, i),
            prefix,
            identifier,
            label,
        );
        let member = declare(
            root,
            state,
            shapes[i],
            member_pointer(target, at, i),
            prefix,
            identifier,
            label,
        );
        if member.result is Ok {
            lemma_members_valid(
                root,
                with_pending(member.state, state.pending),
                target,
                at,
                prefix,
                identifier,
                name,
                i + 1,
                so_far + member_text(
                target,
                member_identifier(target, name, i),
                type_of(member.result->Ok_0),
            ),
            );
        }
    }
}

/// Declaring what a pointer names leaves every model called by an
/// identifier.
pub proof fn lemma_generated_valid(
    root: Node,
    state: RegistryView,
    schema_path: Seq<char>,
    base: Seq<char>,
)
    requires
        valid_names(state),
    ensures
        valid_names(generated_at(root, state, schema_path, base).state),
{
    lemma_declare_valid(
        root,
        state,
        Shape::Reference(schema_path),
        schema_path,
        base,
        base,
        Seq::empty(),
    );
}

/// A registry as the builder keeps it: no pointer is registered twice, no
/// two models are called the same, and each is called by an identifier.
pub open spec fn sound(state: RegistryView) -> bool {
    &&& distinct_pointers(state.entries)
    &&& distinct_names(state)
    &&& valid_names(state)
}

/// Declaring what a pointer names keeps the registry as the builder keeps
/// it, and takes nothing from it.
pub proof fn lemma_generated_sound(
    root: Node,
    state: RegistryView,
    schema_path: Seq<char>,
    base: Seq<char>,
)
    ensures
        grown_from(generated_at(root, state, schema_path, base).state, state),
        sound(state) ==> sound(generated_at(root, state, schema_path, base).state),
{
    lemma_generated_grows(root, state, schema_path, base);
    if sound(state) {
        lemma_generated_names(root, state, schema_path, base);
        lemma_generated_valid(root, state, schema_path, base);
    }
}

/// The members of one model can stand side by side: each is called by an
/// identifier, and no two are called the same.
pub proof fn lemma_members_well_named(target: Shape, name: Seq<char>)
    ensures
        forall|i: int|
            0 <= i < member_shapes(target).len() ==> is_identifier(
                #[trigger] member_identifier(target, name, i),
            ),
        forall|i: int, j: int|
            0 <= i < j < member_shapes(target).len() ==> #[trigger] member_identifier(
                target,
                name,
                i,
            ) != #[trigger] member_identifier(target, name, j),
{
    let stems = member_stems(target, name);
    let n = stems.len() as int;
    lemma_names_given(Seq::empty(), stems, n);
    let given = names_given(Seq::empty(), stems, n);
    assert forall|i: int| 0 <= i < n implies is_identifier(
        #[trigger] member_identifier(target, name, i),
    ) by {
        lemma_field_label_is_identifier(crate::builder::rules::member_label(target, name, i));
        lemma_type_label_is_identifier(crate::builder::rules::member_label(target, name, i));
        assert(given[i] == member_identifier(target, name, i));
    }
    assert forall|i: int, j: int| 0 <= i < j < n implies #[trigger] member_identifier(
        target,
        name,
        i,
    ) != #[trigger] member_identifier(target, name, j) by {
        assert(given[i] == member_identifier(target, name, i));
        assert(given[j] == member_identifier(target, name, j));
    }
}

/// The pointer `pointer` leads to a negation in `hops` steps: it names a
/// schema that negates another, or a pointer that leads to one in one step
/// fewer.
pub open spec fn leads_to_not(root: Node, pointer: Seq<char>, hops: nat) -> bool
    decreases hops,
{
    match resolve_schema(root, pointer) {
        Ok(Shape::Not(_)) => hops == 0,
        Ok(Shape::Reference(next)) => hops > 0 && leads_to_not(root, next, (hops - 1) as nat),
        _ => false,
    }
}

/// The registry holds nothing for `pointer` nor for the pointers that it
/// leads through in `hops` steps: none has given anything, none has a model,
/// and none is pending.
pub open spec fn holds_nothing(
    root: Node,
    state: RegistryView,
    pointer: Seq<char>,
    hops: nat,
) -> bool
    decreases hops,
{
    &&& answer(state, pointer) is None
    &&& lookup(state, pointer) is None
    &&& pending_of(state, pointer) is None
    &&& hops > 0 ==> match resolve_schema(root, pointer) {
        Ok(Shape::Reference(next)) => holds_nothing(root, state, next, (hops - 1) as nat),
        _ => true,
    }
}

/// A pointer leads to a negation in one number of steps only.
proof fn lemma_leads_in_one_way(root: Node, pointer: Seq<char>, a: nat, b: nat)
    requires
        leads_to_not(root, pointer, a),
        leads_to_not(root, pointer, b),
    ensures
        a == b,
    decreases a,
{
    match resolve_schema(root, pointer) {
        Ok(Shape::Reference(next)) => {
            lemma_leads_in_one_way(root, next, (a - 1) as nat, (b - 1) as nat);
        },
        _ => {},
    }
}

proof fn lemma_pending_index_pushed(
    pending: Seq<PendingView>,
    added: PendingView,
    pointer: Seq<char>,
    upto: int,
)
    requires
        0 <= upto <= pending.len(),
    ensures
        pending_index(pending.push(added), pointer, upto) == pending_index(pending, pointer, upto),
    decreases upto,
{
    if upto > 0 {
        assert(pending.push(added)[upto - 1] == pending[upto - 1]);
        if pending[upto - 1].pointer != pointer {
            lemma_pending_index_pushed(pending, added, pointer, upto - 1);
        }
    }
}

/// Where a pointer that leads further to the negation becomes pending, the
/// registry still holds nothing for the pointers that are nearer to it.
proof fn lemma_holds_nothing_opened(
    root: Node,
    state: RegistryView,
    opened_pointer: Seq<char>,
    far: nat,
    pointer: Seq<char>,
    hops: nat,
)
    requires
        leads_to_not(root, opened_pointer, far),
        leads_to_not(root, pointer, hops),
        hops < far,
        holds_nothing(root, state, pointer, hops),
    ensures
        holds_nothing(root, opened(state, opened_pointer, None), pointer, hops),
    decreases hops,
{
    let after = opened(state, opened_pointer, None);
    let added = PendingView { pointer: opened_pointer, identifier: None };
    if pointer == opened_pointer {
        lemma_leads_in_one_way(root, pointer, hops, far);
    }
    assert(pending_of(after, pointer) is None) by {
        assert(after.pending[state.pending.len() as int] == added);
        lemma_pending_index_pushed(state.pending, added, pointer, state.pending.len() as int);
        crate::builder::reach::lemma_pending_bounds(
            state.pending,
            pointer,
            state.pending.len() as int,
        );
    }
    if hops > 0 {
        match resolve_schema(root, pointer) {
            Ok(Shape::Reference(next)) => {
                lemma_holds_nothing_opened(
                    root,
                    state,
                    opened_pointer,
                    far,
                    next,
                    (hops - 1) as nat,
                );
            },
            _ => {},
        }
    }
}

/// A pointer that leads to a negation is never declared, however many
/// pointers stand between: where the registry holds nothing for the pointers
/// on the way, the step fails as the negation itself does, and the registry
/// stays as it is.
pub proof fn lemma_pointer_to_not_is_refused(
    root: Node,
    state: RegistryView,
    pointer: Seq<char>,
    hops: nat,
    at: Seq<char>,
    prefix: Seq<char>,
    base: Seq<char>,
    name: Seq<char>,
)
    requires
        leads_to_not(root, pointer, hops),
        holds_nothing(root, state, pointer, hops),
    ensures
        declare(root, state, Shape::Reference(pointer), at, prefix, base, name) == (Outcome {
            result: Err(failure(ErrorKind::UnimplementedFeature, not_schema_text())),
            state,
        }),
    decreases hops,
{
    let node = resolve(root, pointer)->Ok_0;
    let shape = read_shape(node)->Some_0;
    let start = opened(state, pointer, None);
    let inner = declare(root, start, shape, pointer, prefix, prefix, schema_name(node, pointer));
    assert(start.pending.drop_last() == state.pending);
    assert(with_pending(start, state.pending) == state);
    match shape {
        Shape::Reference(next) => {
            lemma_holds_nothing_opened(root, state, pointer, hops, next, (hops - 1) as nat);
            lemma_pointer_to_not_is_refused(
                root,
                start,
                next,
                (hops - 1) as nat,
                pointer,
                prefix,
                prefix,
                schema_name(node, pointer),
            );
        },
        _ => {},
    }
    assert(inner.state == start);
}

/// Asking for a pointer that leads to a negation fails, and leaves the
/// registry as it is.
pub proof fn lemma_generated_not_is_refused(
    root: Node,
    state: RegistryView,
    schema_path: Seq<char>,
    base: Seq<char>,
    hops: nat,
)
    requires
        leads_to_not(root, schema_path, hops),
        holds_nothing(root, state, schema_path, hops),
    ensures
        generated_at(root, state, schema_path, base) == (Outcome {
            result: Err(failure(ErrorKind::UnimplementedFeature, not_schema_text())),
            state,
        }),
{
    lemma_pointer_to_not_is_refused(
        root,
        state,
        schema_path,
        hops,
        schema_path,
        base,
        base,
        Seq::empty(),
    );
}

} // verus!
