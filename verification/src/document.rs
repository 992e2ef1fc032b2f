//! The document: a tree of objects, arrays and scalars, as it was written.

use crate::text::text_eq;
use vstd::prelude::*;

verus! {

/// A member of an object: a name and the value that stands under it.
#[derive(Debug, PartialEq)]
pub struct Member {
    pub name: String,
    pub value: Node,
}

/// A node of the document. The members of an object stand in the order in
/// which they were written; a number is held as it is written in decimal.
#[derive(Debug, PartialEq)]
pub enum Node {
    Null,
    Bool(bool),
    Number(String),
    Text(String),
    Array(Vec<Node>),
    Object(Vec<Member>),
}

/// The place of the first of `members`, from `from` on, that is named `key`;
/// the length of `members` where none is.
pub open spec fn member_index(members: Seq<Member>, key: Seq<char>, from: int) -> int
    decreases members.len() - from,
{
    if 0 <= from < members.len() && members[from].name@ != key {
        member_index(members, key, from + 1)
    } else {
        from
    }
}

/// What stands under `key` in `node`: the value of the first member of that
/// name, if `node` is an object that has one.
pub open spec fn child(node: Node, key: Seq<char>) -> Option<Node> {
    match node {
        Node::Object(members) => {
            let at = member_index(members@, key, 0);
            if 0 <= at < members@.len() {
                Some(members@[at].value)
            } else {
                None
            }
        },
        _ => None,
    }
}

/// The text under `key` in `node`, if a text stands there.
pub open spec fn child_text(node: Node, key: Seq<char>) -> Option<Seq<char>> {
    match child(node, key) {
        Some(Node::Text(text)) => Some(text@),
        _ => None,
    }
}

pub(crate) proof fn lemma_member_index(members: Seq<Member>, key: Seq<char>, from: int)
    requires
        0 <= from <= members.len(),
    ensures
        from <= member_index(members, key, from) <= members.len(),
        member_index(members, key, from) < members.len() ==> members[member_index(
            members,
            key,
            from,
        )].name@ == key,
    decreases members.len() - from,
{
    if from < members.len() && members[from].name@ != key {
        lemma_member_index(members, key, from + 1);
    }
}

impl Node {
    /// What stands under `key`, if this is an object with a member of that
    /// name. Of several members of one name the first counts.
    pub fn get(&self, key: &str) -> (found: Option<&Node>)
        ensures
            match found {
                Some(value) => child(*self, key@) == Some(*value),
                None => child(*self, key@) is None,
            },
    {
        match self {
            Node::Object(members) => {
                let mut i: usize = 0;
                while i < members.len()
                    invariant
                        i <= members.len(),
                        *self == Node::Object(*members),
                        member_index(members@, key@, 0) == member_index(members@, key@, i as int),
                    decreases members.len() - i,
                {
                    if text_eq(members[i].name.as_str(), key) {
                        assert(member_index(members@, key@, i as int) == i);
                        return Some(&members[i].value);
                    }
                    i += 1;
                }
                None
            },
            _ => None,
        }
    }

    /// The text that stands under `key`, if one does.
    pub fn get_text(&self, key: &str) -> (found: Option<&str>)
        ensures
            match found {
                Some(text) => child_text(*self, key@) == Some(text@),
                None => child_text(*self, key@) is None,
            },
    {
        match self.get(key) {
            Some(Node::Text(text)) => Some(text.as_str()),
            _ => None,
        }
    }
}

/// `serde_json::Value`: a JSON value as the parser holds it.
#[verifier::external_type_specification]
#[verifier::external_body]
pub struct ExJsonValue(serde_json::Value);

/// The tree that a JSON text stands for, where the text is JSON: what
/// `serde_json::from_str` reads from it, as a tree of nodes.
pub uninterp spec fn json_tree(text: Seq<char>) -> Option<Node>;

/// The tree of nodes that holds what a `serde_json::Value` holds.
pub uninterp spec fn tree_of(value: serde_json::Value) -> Node;

/// `serde_json::from_str` for a `serde_json::Value`. The value depends on
/// the text alone: a text that is JSON gives the value of its tree, any other
/// text gives none. Why a text is no JSON is not kept.
#[verifier::external_body]
fn parse_value(text: &str) -> (result: Option<serde_json::Value>)
    ensures
        match result {
            Some(value) => json_tree(text@) == Some(tree_of(value)),
            None => json_tree(text@) is None,
        },
{
    serde_json::from_str::<serde_json::Value>(text).ok()
}

/// Copies a `serde_json::Value` into a tree of nodes, variant by variant:
/// the members of an object in the order in which the value holds them, a
/// number as `serde_json` prints it.
#[verifier::external_body]
fn node_of(value: &serde_json::Value) -> (node: Node)
    ensures
        node == tree_of(*value),
{
    match value {
        serde_json::Value::Null => Node::Null,
        serde_json::Value::Bool(flag) => Node::Bool(*flag),
        serde_json::Value::Number(number) => Node::Number(number.to_string()),
        serde_json::Value::String(text) => Node::Text(text.clone()),
        serde_json::Value::Array(items) => Node::Array(items.iter().map(node_of).collect()),
        serde_json::Value::Object(members) => Node::Object(
            members.iter().map(|(name, value)| Member { name: name.clone(), value: node_of(value) })
                .collect(),
        ),
    }
}

/// Reads `text` as JSON.
pub fn parse_document(text: &str) -> (result: Option<Node>)
    ensures
        result == json_tree(text@),
{
    match parse_value(text) {
        Some(value) => Some(node_of(&value)),
        None => None,
    }
}

} // verus!
