//! How far the builder can go: the pointers that a document can send it to
//! are among the texts that the document holds, and those are finitely many.

use crate::builder::rules::{opened, pending_index, pending_of, PendingView, RegistryView};
use crate::document::{child, child_text, lemma_member_index, member_index, Member, Node};
use crate::model::{
    read_alternatives, read_basic, read_member_shapes, read_shape, read_shapes, read_union, Shape,
};
use crate::reference::{resolve, walk};
use vstd::prelude::*;
use vstd::set_lib::lemma_len_subset;

verus! {

/// The texts that stand anywhere in `node`.
pub open spec fn texts_in(node: Node) -> Set<Seq<char>>
    decreases node, 1int,
{
    match node {
        Node::Text(text) => set![text@],
        Node::Array(items) => texts_in_items(items@),
        Node::Object(members) => texts_in_members(members@),
        _ => Set::empty(),
    }
}

pub open spec fn texts_in_items(items: Seq<Node>) -> Set<Seq<char>>
    decreases items, 0int,
{
    if items.len() == 0 {
        Set::empty()
    } else {
        texts_in_items(items.drop_last()).union(texts_in(items.last()))
    }
}

pub open spec fn texts_in_members(members: Seq<Member>) -> Set<Seq<char>>
    decreases members, 0int,
{
    if members.len() == 0 {
        Set::empty()
    } else {
        texts_in_members(members.drop_last()).union(texts_in(members.last().value))
    }
}

/// The pointers that stand anywhere in `shape`.
pub open spec fn pointers_in(shape: Shape) -> Set<Seq<char>>
    decreases shape, 1int,
{
    match shape {
        Shape::Reference(pointer) => set![pointer],
        Shape::Array(items) => pointers_in(*items),
        Shape::Not(negated) => pointers_in(*negated),
        Shape::Record(_, shapes) => pointers_in_all(shapes),
        Shape::OneOf(shapes) => pointers_in_all(shapes),
        Shape::AnyOf(shapes) => pointers_in_all(shapes),
        Shape::AllOf(shapes) => pointers_in_all(shapes),
        _ => Set::empty(),
    }
}

pub open spec fn pointers_in_all(shapes: Seq<Shape>) -> Set<Seq<char>>
    decreases shapes, 0int,
{
    if shapes.len() == 0 {
        Set::empty()
    } else {
        pointers_in_all(shapes.drop_last()).union(pointers_in(shapes.last()))
    }
}

/// The pointers that are pending.
pub open spec fn pending_pointers(pending: Seq<PendingView>) -> Set<Seq<char>> {
    Set::new(|pointer: Seq<char>| exists|i: int| 0 <= i < pending.len() && #[trigger] pending[i].pointer == pointer)
}

/// How many pointers the builder can still follow, one inside the other,
/// while it declares `target`: those that the document or the schema holds
/// and that are not pending.
pub open spec fn remaining(root: Node, pending: Seq<PendingView>, target: Shape) -> nat {
    texts_in(root).union(pointers_in(target)).difference(pending_pointers(pending)).len()
}

pub(crate) proof fn lemma_texts_finite(node: Node)
    ensures
        texts_in(node).finite(),
    decreases node, 1int,
{
    match node {
        Node::Array(items) => lemma_texts_in_items_finite(items@),
        Node::Object(members) => lemma_texts_in_members_finite(members@),
        _ => {},
    }
}

proof fn lemma_texts_in_items_finite(items: Seq<Node>)
    ensures
        texts_in_items(items).finite(),
    decreases items, 0int,
{
    if items.len() > 0 {
        lemma_texts_in_items_finite(items.drop_last());
        lemma_texts_finite(items.last());
    }
}

proof fn lemma_texts_in_members_finite(members: Seq<Member>)
    ensures
        texts_in_members(members).finite(),
    decreases members, 0int,
{
    if members.len() > 0 {
        lemma_texts_in_members_finite(members.drop_last());
        lemma_texts_finite(members.last().value);
    }
}

pub(crate) proof fn lemma_pointers_finite(shape: Shape)
    ensures
        pointers_in(shape).finite(),
    decreases shape, 1int,
{
    match shape {
        Shape::Array(items) => lemma_pointers_finite(*items),
        Shape::Not(negated) => lemma_pointers_finite(*negated),
        Shape::Record(_, shapes) => lemma_pointers_in_all_finite(shapes),
        Shape::OneOf(shapes) => lemma_pointers_in_all_finite(shapes),
        Shape::AnyOf(shapes) => lemma_pointers_in_all_finite(shapes),
        Shape::AllOf(shapes) => lemma_pointers_in_all_finite(shapes),
        _ => {},
    }
}

proof fn lemma_pointers_in_all_finite(shapes: Seq<Shape>)
    ensures
        pointers_in_all(shapes).finite(),
    decreases shapes, 0int,
{
    if shapes.len() > 0 {
        lemma_pointers_in_all_finite(shapes.drop_last());
        lemma_pointers_finite(shapes.last());
    }
}

/// What one of the schemas of a list holds, the list holds.
pub proof fn lemma_pointers_of_one(shapes: Seq<Shape>, i: int)
    requires
        0 <= i < shapes.len(),
    ensures
        pointers_in(shapes[i]).subset_of(pointers_in_all(shapes)),
    decreases shapes.len(),
{
    if i < shapes.len() - 1 {
        lemma_pointers_of_one(shapes.drop_last(), i);
        assert(shapes.drop_last()[i] == shapes[i]);
    }
}

proof fn lemma_texts_of_item(items: Seq<Node>, i: int)
    requires
        0 <= i < items.len(),
    ensures
        texts_in(items[i]).subset_of(texts_in_items(items)),
    decreases items.len(),
{
    if i < items.len() - 1 {
        lemma_texts_of_item(items.drop_last(), i);
        assert(items.drop_last()[i] == items[i]);
    }
}

proof fn lemma_texts_of_member(members: Seq<Member>, i: int)
    requires
        0 <= i < members.len(),
    ensures
        texts_in(members[i].value).subset_of(texts_in_members(members)),
    decreases members.len(),
{
    if i < members.len() - 1 {
        lemma_texts_of_member(members.drop_last(), i);
        assert(members.drop_last()[i] == members[i]);
    }
}

/// What stands under a key of a node holds no text that the node does not
/// hold.
pub(crate) proof fn lemma_texts_of_child(node: Node, key: Seq<char>)
    requires
        child(node, key) is Some,
    ensures
        texts_in(child(node, key)->Some_0).subset_of(texts_in(node)),
{
    match node {
        Node::Object(members) => {
            lemma_member_index(members@, key, 0);
            lemma_texts_of_member(members@, member_index(members@, key, 0));
        },
        _ => {},
    }
}

proof fn lemma_text_of_child(node: Node, key: Seq<char>)
    requires
        child_text(node, key) is Some,
    ensures
        texts_in(node).contains(child_text(node, key)->Some_0),
{
    lemma_texts_of_child(node, key);
    let found = child(node, key)->Some_0;
    assert(texts_in(found).contains(child_text(node, key)->Some_0));
}

/// A node that a path leads to holds no text that the root does not hold.
pub(crate) proof fn lemma_texts_of_walk(root: Node, path: Seq<Seq<char>>)
    requires
        walk(root, path) is Some,
    ensures
        texts_in(walk(root, path)->Some_0).subset_of(texts_in(root)),
    decreases path.len(),
{
    if path.len() > 0 {
        let next = child(root, path[0])->Some_0;
        lemma_texts_of_child(root, path[0]);
        lemma_texts_of_walk(next, path.drop_first());
    }
}

/// The pointers of a schema are texts of the node that it is read from.
pub(crate) proof fn lemma_pointers_of_read(node: Node)
    requires
        read_shape(node) is Some,
    ensures
        pointers_in(read_shape(node)->Some_0).subset_of(texts_in(node)),
    decreases node, 4int,
{
    if child(node, "not"@) is Some {
        let negated = child(node, "not"@)->Some_0;
        lemma_texts_of_child(node, "not"@);
        lemma_pointers_of_read(negated);
    } else if read_basic(node) is Some {
        lemma_pointers_of_basic(node);
    } else if read_union(node) is Some {
        lemma_pointers_of_union(node);
    } else {
        lemma_text_of_child(node, "$ref"@);
    }
}

proof fn lemma_pointers_of_basic(node: Node)
    requires
        read_basic(node) is Some,
    ensures
        pointers_in(read_basic(node)->Some_0).subset_of(texts_in(node)),
    decreases node, 2int,
{
    let kind = child_text(node, "type"@)->Some_0;
    if kind == "string"@ || kind == "number"@ || kind == "integer"@ || kind == "boolean"@ {
    } else if kind == "array"@ {
        let items = child(node, "items"@)->Some_0;
        lemma_texts_of_child(node, "items"@);
        lemma_pointers_of_read(items);
    } else {
        lemma_texts_of_child(node, "properties"@);
        match child(node, "properties"@) {
            Some(Node::Object(members)) => {
                lemma_pointers_of_members(members@);
            },
            _ => {},
        }
    }
}

proof fn lemma_pointers_of_alternatives(node: Node, key: Seq<char>)
    requires
        read_alternatives(node, key) is Some,
    ensures
        pointers_in_all(read_alternatives(node, key)->Some_0).subset_of(texts_in(node)),
    decreases node, 2int,
{
    lemma_texts_of_child(node, key);
    match child(node, key) {
        Some(Node::Array(items)) => {
            lemma_pointers_of_list(items@);
        },
        _ => {},
    }
}

proof fn lemma_pointers_of_union(node: Node)
    requires
        read_union(node) is Some,
    ensures
        pointers_in(read_union(node)->Some_0).subset_of(texts_in(node)),
    decreases node, 3int,
{
    if read_alternatives(node, "oneOf"@) is Some {
        lemma_pointers_of_alternatives(node, "oneOf"@);
    } else if read_alternatives(node, "anyOf"@) is Some {
        lemma_pointers_of_alternatives(node, "anyOf"@);
    } else {
        lemma_pointers_of_alternatives(node, "allOf"@);
    }
}

proof fn lemma_pointers_of_list(nodes: Seq<Node>)
    requires
        read_shapes(nodes) is Some,
    ensures
        pointers_in_all(read_shapes(nodes)->Some_0).subset_of(texts_in_items(nodes)),
    decreases nodes, 1int,
{
    if nodes.len() > 0 {
        lemma_pointers_of_list(nodes.drop_last());
        lemma_pointers_of_read(nodes.last());
        let shapes = read_shapes(nodes)->Some_0;
        assert(shapes.drop_last() == read_shapes(nodes.drop_last())->Some_0);
    }
}

proof fn lemma_pointers_of_members(members: Seq<Member>)
    requires
        read_member_shapes(members) is Some,
    ensures
        pointers_in_all(read_member_shapes(members)->Some_0).subset_of(texts_in_members(members)),
    decreases members, 1int,
{
    if members.len() > 0 {
        lemma_pointers_of_members(members.drop_last());
        lemma_pointers_of_read(members.last().value);
        let shapes = read_member_shapes(members)->Some_0;
        assert(shapes.drop_last() == read_member_shapes(members.drop_last())->Some_0);
    }
}

/// A pointer that is pending nowhere is none of the pending pointers.
pub(crate) proof fn lemma_not_pending(pending: Seq<PendingView>, pointer: Seq<char>, upto: int)
    requires
        0 <= upto <= pending.len(),
        pending_index(pending, pointer, upto) <= 0,
    ensures
        forall|i: int| 0 <= i < upto ==> (#[trigger] pending[i]).pointer != pointer,
    decreases upto,
{
    if upto > 0 {
        lemma_not_pending(pending, pointer, upto - 1);
    }
}

proof fn lemma_universe_finite(root: Node, pending: Seq<PendingView>, target: Shape)
    ensures
        texts_in(root).union(pointers_in(target)).finite(),
        texts_in(root).union(pointers_in(target)).difference(pending_pointers(pending)).finite(),
{
    lemma_texts_finite(root);
    lemma_pointers_finite(target);
}

/// A part of a schema leaves no more to follow than the schema.
pub proof fn lemma_remaining_part(root: Node, pending: Seq<PendingView>, target: Shape, part: Shape)
    requires
        pointers_in(part).subset_of(pointers_in(target)),
    ensures
        remaining(root, pending, part) <= remaining(root, pending, target),
{
    lemma_universe_finite(root, pending, target);
    lemma_len_subset(
        texts_in(root).union(pointers_in(part)).difference(pending_pointers(pending)),
        texts_in(root).union(pointers_in(target)).difference(pending_pointers(pending)),
    );
}

/// One more pending pointer leaves no more to follow.
pub proof fn lemma_remaining_opened(
    root: Node,
    pending: Seq<PendingView>,
    target: Shape,
    added: PendingView,
)
    ensures
        remaining(root, pending.push(added), target) <= remaining(root, pending, target),
{
    lemma_universe_finite(root, pending, target);
    let longer = pending.push(added);
    assert(pending_pointers(pending).subset_of(pending_pointers(longer))) by {
        assert forall|pointer: Seq<char>| pending_pointers(pending).contains(pointer) implies pending_pointers(longer).contains(pointer) by {
            let i = choose|i: int| 0 <= i < pending.len() && #[trigger] pending[i].pointer == pointer;
            assert(longer[i].pointer == pointer);
        }
    }
    lemma_len_subset(
        texts_in(root).union(pointers_in(target)).difference(pending_pointers(longer)),
        texts_in(root).union(pointers_in(target)).difference(pending_pointers(pending)),
    );
}

/// Following a pointer that is not pending, to a schema of the document,
/// leaves less to follow.
pub(crate) proof fn lemma_remaining_followed(
    root: Node,
    pending: Seq<PendingView>,
    pointer: Seq<char>,
    added: PendingView,
    shape: Shape,
)
    requires
        added.pointer == pointer,
        forall|i: int| 0 <= i < pending.len() ==> (#[trigger] pending[i]).pointer != pointer,
        pointers_in(shape).subset_of(texts_in(root)),
    ensures
        remaining(root, pending.push(added), shape) < remaining(
            root,
            pending,
            Shape::Reference(pointer),
        ),
{
    let target = Shape::Reference(pointer);
    lemma_universe_finite(root, pending, target);
    let longer = pending.push(added);
    let before = texts_in(root).union(pointers_in(target)).difference(pending_pointers(pending));
    let after = texts_in(root).union(pointers_in(shape)).difference(pending_pointers(longer));
    assert(longer[pending.len() as int].pointer == pointer);
    assert(pending_pointers(longer).contains(pointer));
    assert(before.contains(pointer));
    assert(after.subset_of(before.remove(pointer))) by {
        assert forall|p: Seq<char>| after.contains(p) implies before.remove(pointer).contains(p) by {
            if pending_pointers(pending).contains(p) {
                let i = choose|i: int| 0 <= i < pending.len() && #[trigger] pending[i].pointer == p;
                assert(longer[i].pointer == p);
            }
        }
    }
    lemma_len_subset(after, before.remove(pointer));
}

/// Following a pointer that is not pending to the schema that it names in
/// the document leaves less to follow.
pub proof fn lemma_followed(root: Node, state: RegistryView, pointer: Seq<char>)
    requires
        pending_of(state, pointer) is None,
        resolve(root, pointer) is Ok,
        read_shape(resolve(root, pointer)->Ok_0) is Some,
    ensures
        remaining(
            root,
            opened(state, pointer, None).pending,
            read_shape(resolve(root, pointer)->Ok_0)->Some_0,
        ) < remaining(root, state.pending, Shape::Reference(pointer)),
{
    let node = resolve(root, pointer)->Ok_0;
    let shape = read_shape(node)->Some_0;
    lemma_pending_bounds(state.pending, pointer, state.pending.len() as int);
    lemma_not_pending(state.pending, pointer, state.pending.len() as int);
    lemma_texts_of_walk(root, crate::path::segments(pointer));
    lemma_pointers_of_read(node);
    lemma_remaining_followed(
        root,
        state.pending,
        pointer,
        PendingView { pointer, identifier: None },
        shape,
    );
}

pub(crate) proof fn lemma_pending_bounds(pending: Seq<PendingView>, pointer: Seq<char>, upto: int)
    requires
        0 <= upto <= pending.len(),
    ensures
        0 <= pending_index(pending, pointer, upto) <= upto,
    decreases upto,
{
    if 0 < upto && pending[upto - 1].pointer != pointer {
        lemma_pending_bounds(pending, pointer, upto - 1);
    }
}

} // verus!
