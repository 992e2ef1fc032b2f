//! The reference resolver: from a pointer to the node that it names.

use crate::document::{child, Node};
use crate::error::{failure, ErrorKind, ErrorView, MacroError};
use crate::model::{read_schema, read_shape, RefOrObject, Schema, Shape};
use crate::path::{pointer_of, pointer_segments};
use crate::text::{begins_with, views};
use vstd::prelude::*;

verus! {

/// The node reached from `node` by going down the members named in `path`.
pub open spec fn walk(node: Node, path: Seq<Seq<char>>) -> Option<Node>
    decreases path.len(),
{
    if path.len() == 0 {
        Some(node)
    } else {
        match child(node, path[0]) {
            Some(next) => walk(next, path.drop_first()),
            None => None,
        }
    }
}

/// What the pointer `reference` names in the document `root`.
///
/// A reference that is no pointer fails as [`pointer_of`] says: one that
/// leads out of the document is not followed, and one that is written in
/// another way than `#` or `#/a/b/c` is invalid. The segments of a pointer are
/// walked through nested objects; where one is missing, or the walk has come
/// to something that is no object, the pointer is invalid, and the error
/// carries the pointer as it was written.
pub open spec fn resolve(root: Node, reference: Seq<char>) -> Result<Node, ErrorView> {
    match pointer_of(reference) {
        Err(error) => Err(error),
        Ok(path) => match walk(root, path) {
            Some(node) => Ok(node),
            None => Err(failure(ErrorKind::InvalidReference, reference)),
        },
    }
}

/// Follows the pointer `reference` from `root_node` to the node that it names.
pub fn expand_reference<'a>(root_node: &'a Node, reference: &str) -> (result: Result<
    &'a Node,
    MacroError,
>)
    ensures
        match result {
            Ok(node) => resolve(*root_node, reference@) == Ok::<Node, ErrorView>(*node),
            Err(error) => resolve(*root_node, reference@) == Err::<Node, ErrorView>(error@),
        },
{
    let parts = pointer_segments(reference)?;
    let ghost path = views(parts@);
    let mut current_node = root_node;
    let mut i: usize = 0;
    assert(path.skip(0) == path);
    while i < parts.len()
        invariant
            i <= parts.len(),
            path == views(parts@),
            pointer_of(reference@) == Ok::<Seq<Seq<char>>, ErrorView>(path),
            walk(*root_node, path) == walk(*current_node, path.skip(i as int)),
        decreases parts.len() - i,
    {
        proof {
            let rest = path.skip(i as int);
            assert(rest.len() > 0);
            assert(rest[0] == parts[i as int]@);
            assert(rest.drop_first() == path.skip(i + 1));
        }
        match current_node.get(parts[i].as_str()) {
            Some(next) => {
                current_node = next;
            },
            None => {
                assert(walk(*current_node, path.skip(i as int)) is None);
                return Err(MacroError::new(ErrorKind::InvalidReference, reference));
            },
        }
        i += 1;
    }
    assert(path.skip(i as int).len() == 0);
    Ok(current_node)
}

/// What is said of a node that is no schema.
pub open spec fn no_schema_text() -> Seq<char> {
    "data did not match any variant of untagged enum RefOrObject"@
}

/// The schema that the pointer `reference` names in the document `root`:
/// what is read from the node that it names. A node that is no schema is
/// invalid input.
pub open spec fn resolve_schema(root: Node, reference: Seq<char>) -> Result<Shape, ErrorView> {
    match resolve(root, reference) {
        Err(error) => Err(error),
        Ok(node) => match read_shape(node) {
            Some(shape) => Ok(shape),
            None => Err(failure(ErrorKind::InvalidInput, no_schema_text())),
        },
    }
}

/// Follows the pointer `reference` from `root_node` and reads the schema
/// that stands there.
pub fn expand_typed_reference(root_node: &Node, reference: &str) -> (result: Result<
    RefOrObject<Schema>,
    MacroError,
>)
    ensures
        match result {
            Ok(schema) => resolve_schema(*root_node, reference@) == Ok::<Shape, ErrorView>(schema@),
            Err(error) => resolve_schema(*root_node, reference@) == Err::<Shape, ErrorView>(error@),
        },
{
    let expanded = expand_reference(root_node, reference)?;
    match read_schema(expanded) {
        Some(schema) => Ok(schema),
        None => Err(
            MacroError::new(
                ErrorKind::InvalidInput,
                "data did not match any variant of untagged enum RefOrObject",
            ),
        ),
    }
}

/// A reference that begins with `#` and names nothing is invalid, whether it
/// is written in another way than a pointer is or one of its segments is
/// missing, and the error names the reference as it was written.
pub proof fn lemma_failure_names_the_pointer(root: Node, reference: Seq<char>)
    requires
        begins_with(reference, '#'),
        resolve(root, reference) is Err,
    ensures
        resolve(root, reference) == Err::<Node, ErrorView>(
            failure(ErrorKind::InvalidReference, reference),
        ),
{
}

} // verus!
