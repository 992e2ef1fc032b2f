//! How a document has to be written: a member that the generator reads is
//! either absent or of the kind that the grammar gives it. A document that
//! holds something else in its place is malformed, and is not read as if the
//! member were absent.

use crate::agnostic::document::{verb, verb_count, verb_text};
use crate::agnostic::operation::DocumentVersion;
use crate::document::{child, child_text, Member, Node};
use crate::text::{begins_with, starts_with_char};
use vstd::prelude::*;

verus! {

/// Nothing stands under `key` in `node`, or a text does.
pub open spec fn text_or_absent(node: Node, key: Seq<char>) -> bool {
    match child(node, key) {
        None => true,
        Some(Node::Text(_)) => true,
        Some(_) => false,
    }
}

/// Nothing stands under `key` in `node`, or a truth value does.
pub open spec fn flag_or_absent(node: Node, key: Seq<char>) -> bool {
    match child(node, key) {
        None => true,
        Some(Node::Bool(_)) => true,
        Some(_) => false,
    }
}

/// Whether `node` is written as an operation is: an object whose summary,
/// description and identifier are texts and whose deprecation is a truth
/// value, each where it is there, and whose external documentation, where it
/// is there, names a URL.
pub open spec fn is_operation(node: Node) -> bool {
    &&& node is Object
    &&& text_or_absent(node, "summary"@)
    &&& text_or_absent(node, "description"@)
    &&& text_or_absent(node, "operationId"@)
    &&& flag_or_absent(node, "deprecated"@)
    &&& match child(node, "externalDocs"@) {
        None => true,
        Some(docs) => child_text(docs, "url"@) is Some,
    }
}

/// Whether what `item` declares under the methods from the one in place `k`
/// on are operations.
pub open spec fn verbs_written(grammar: DocumentVersion, item: Node, k: int) -> bool
    decreases verb_count(grammar) - k,
{
    if !(0 <= k < verb_count(grammar)) {
        true
    } else {
        &&& match child(item, verb(k)) {
            Some(operation) => is_operation(operation),
            None => true,
        }
        &&& verbs_written(grammar, item, k + 1)
    }
}

/// Whether the paths `paths[from..]` are written as paths are: what stands
/// under a name that begins with `/` is an object, and what it declares under
/// a method is an operation. Other names are left to whoever extends the
/// grammar.
pub open spec fn paths_written(grammar: DocumentVersion, paths: Seq<Member>, from: int) -> bool
    decreases paths.len() - from,
{
    if !(0 <= from < paths.len()) {
        true
    } else {
        &&& begins_with(paths[from].name@, '/') ==> paths[from].value is Object && verbs_written(
            grammar,
            paths[from].value,
            0,
        )
        &&& paths_written(grammar, paths, from + 1)
    }
}

pub(crate) fn check_text_or_absent(node: &Node, key: &str) -> (fine: bool)
    ensures
        fine == text_or_absent(*node, key@),
{
    match node.get(key) {
        None => true,
        Some(Node::Text(_)) => true,
        Some(_) => false,
    }
}

fn check_flag_or_absent(node: &Node, key: &str) -> (fine: bool)
    ensures
        fine == flag_or_absent(*node, key@),
{
    match node.get(key) {
        None => true,
        Some(Node::Bool(_)) => true,
        Some(_) => false,
    }
}

/// Whether `node` is written as an operation is.
pub fn check_operation(node: &Node) -> (fine: bool)
    ensures
        fine == is_operation(*node),
{
    let is_object = match node {
        Node::Object(_) => true,
        _ => false,
    };
    let docs = match node.get("externalDocs") {
        None => true,
        Some(docs) => docs.get_text("url").is_some(),
    };
    is_object && check_text_or_absent(node, "summary") && check_text_or_absent(node, "description")
        && check_text_or_absent(node, "operationId") && check_flag_or_absent(node, "deprecated")
        && docs
}

fn check_verbs(grammar: DocumentVersion, item: &Node) -> (fine: bool)
    ensures
        fine == verbs_written(grammar, *item, 0),
{
    let count: usize = match grammar {
        DocumentVersion::V2 => 7,
        DocumentVersion::V3 => 8,
    };
    let mut k: usize = 0;
    while k < count
        invariant
            k <= count,
            count == verb_count(grammar),
            verbs_written(grammar, *item, 0) == verbs_written(grammar, *item, k as int),
        decreases count - k,
    {
        if let Some(operation) = item.get(verb_text(k)) {
            if !check_operation(operation) {
                return false;
            }
        }
        k += 1;
    }
    true
}

pub(crate) fn check_paths(grammar: DocumentVersion, paths: &Vec<Member>) -> (fine: bool)
    ensures
        fine == paths_written(grammar, paths@, 0),
{
    let mut i: usize = 0;
    while i < paths.len()
        invariant
            i <= paths.len(),
            paths_written(grammar, paths@, 0) == paths_written(grammar, paths@, i as int),
        decreases paths.len() - i,
    {
        if starts_with_char(paths[i].name.as_str(), '/') {
            let fine = match &paths[i].value {
                Node::Object(_) => check_verbs(grammar, &paths[i].value),
                _ => false,
            };
            if !fine {
                return false;
            }
        }
        i += 1;
    }
    true
}

} // verus!
