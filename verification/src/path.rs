//! Pointers as lists of segments.

use crate::error::{failure, ErrorKind, ErrorView, MacroError};
use crate::model::RefOrObject;
use crate::text::{begins_with, chars_of, split, split_chars, text_eq, views};
use vstd::prelude::*;

verus! {

/// The segments of a local pointer, from the root of the document down.
#[derive(Debug, Clone, Default, PartialEq, Eq, PartialOrd, Ord)]
pub struct Path(pub Vec<String>);

impl View for Path {
    type V = Seq<Seq<char>>;

    open spec fn view(&self) -> Seq<Seq<char>> {
        views(self.0@)
    }
}

/// The segments that the pointer `reference` names: what stands between its
/// `/`, without what stands in front of the first one.
pub open spec fn segments(reference: Seq<char>) -> Seq<Seq<char>> {
    split(reference, '/').drop_first()
}

/// What is said of a pointer into another document.
pub open spec fn non_local_text() -> Seq<char> {
    "non-local references are unsupported"@
}

/// Whether `reference` is written as a pointer into the document: `#` alone,
/// which names the root, or `#/` with the segments after it.
pub open spec fn is_pointer(reference: Seq<char>) -> bool {
    begins_with(reference, '#') && (reference.len() == 1 || reference[1] == '/')
}

/// The path that `reference` names, by the way it is written. A reference
/// that does not begin with `#` leads out of the document and is refused. One
/// that begins with `#` and is no pointer is invalid, and the error carries it
/// as it was written: nothing in front of the first `/` is passed over.
pub open spec fn pointer_of(reference: Seq<char>) -> Result<Seq<Seq<char>>, ErrorView> {
    if !begins_with(reference, '#') {
        Err(failure(ErrorKind::UnimplementedFeature, non_local_text()))
    } else if !is_pointer(reference) {
        Err(failure(ErrorKind::InvalidReference, reference))
    } else {
        Ok(segments(reference))
    }
}

/// Reads the segments of the pointer `reference`.
pub fn pointer_segments(reference: &str) -> (result: Result<Vec<String>, MacroError>)
    ensures
        match result {
            Ok(parts) => pointer_of(reference@) == Ok::<Seq<Seq<char>>, ErrorView>(views(parts@)),
            Err(error) => pointer_of(reference@) == Err::<Seq<Seq<char>>, ErrorView>(error@),
        },
{
    let chars = chars_of(reference);
    if chars.len() == 0 || chars[0] != '#' {
        return Err(
            MacroError::new(
                ErrorKind::UnimplementedFeature,
                "non-local references are unsupported",
            ),
        );
    }
    if chars.len() > 1 && chars[1] != '/' {
        return Err(MacroError::new(ErrorKind::InvalidReference, reference));
    }
    let mut parts = split_chars(&chars, '/');
    let ghost all = parts@;
    parts.remove(0);
    assert(views(parts@) == views(all).drop_first());
    Ok(parts)
}

impl Path {
    /// The path of the pointer `reference`.
    pub fn from_ref(reference: &str) -> (result: Result<Self, MacroError>)
        ensures
            match result {
                Ok(path) => pointer_of(reference@) == Ok::<Seq<Seq<char>>, ErrorView>(path@),
                Err(error) => pointer_of(reference@) == Err::<Seq<Seq<char>>, ErrorView>(error@),
            },
    {
        match pointer_segments(reference) {
            Ok(parts) => Ok(Path(parts)),
            Err(error) => Err(error),
        }
    }

    /// The path one segment longer.
    pub fn push(self, part: &str) -> (longer: Self)
        ensures
            longer@ == self@.push(part@),
    {
        let mut parts = self.0;
        parts.push(String::from_str(part));
        Path(parts)
    }

    /// How many segments the path has.
    pub fn len(&self) -> (n: usize)
        ensures
            n == self@.len(),
    {
        self.0.len()
    }
}

/// A path and what stands under it: an item, or a pointer to another path.
pub struct PathEntry<T> {
    pub path: Path,
    pub target: RefOrObject<T>,
}

/// An index from paths to items and pointers. Of several entries of one path
/// the first counts.
pub struct PathMap<T> {
    pub entries: Vec<PathEntry<T>>,
}

/// The place of the first of `entries`, from `from` on, that stands under
/// `path`; the length of `entries` where none does.
pub open spec fn path_index<T>(entries: Seq<PathEntry<T>>, path: Seq<Seq<char>>, from: int) -> int
    decreases entries.len() - from,
{
    if 0 <= from < entries.len() && entries[from].path@ != path {
        path_index(entries, path, from + 1)
    } else {
        from
    }
}

/// How many of the entries of an index have not been visited.
pub open spec fn unvisited(visited: Seq<bool>) -> nat
    decreases visited.len(),
{
    if visited.len() == 0 {
        0
    } else {
        unvisited(visited.drop_last()) + if visited.last() {
            0nat
        } else {
            1nat
        }
    }
}

/// The item that `reference` leads to in `index`, where the entries marked
/// in `visited` have been gone through already.
///
/// An item stands for itself. A pointer is followed to what stands under its
/// path. A reference that is no pointer fails as [`pointer_of`] says. A
/// pointer whose path is not in the index is invalid, and so is one that leads
/// back to an entry that has been gone through: such a chain of pointers leads
/// to no item. The error carries the pointer as it was written.
pub open spec fn chased<T>(
    index: Seq<PathEntry<T>>,
    reference: RefOrObject<T>,
    visited: Seq<bool>,
) -> Result<T, ErrorView>
    decreases unvisited(visited),
{
    match reference {
        RefOrObject::Object(item) => Ok(item),
        RefOrObject::Ref { ref_path } => match pointer_of(ref_path@) {
            Err(error) => Err(error),
            Ok(path) => {
                let at = path_index(index, path, 0);
                if !(0 <= at < index.len() && at < visited.len()) || visited[at] {
                    Err(failure(ErrorKind::InvalidReference, ref_path@))
                } else {
                    proof {
                        lemma_visit(visited, at);
                    }
                    chased(index, index[at].target, visited.update(at, true))
                }
            },
        },
    }
}

/// The item that `reference` leads to in `index`.
pub open spec fn followed<T>(index: Seq<PathEntry<T>>, reference: RefOrObject<T>) -> Result<
    T,
    ErrorView,
> {
    chased(index, reference, Seq::new(index.len(), |i: int| false))
}

/// Visiting an entry leaves one fewer to visit.
pub proof fn lemma_visit(visited: Seq<bool>, at: int)
    requires
        0 <= at < visited.len(),
        !visited[at],
    ensures
        unvisited(visited.update(at, true)) < unvisited(visited),
    decreases visited.len(),
{
    let after = visited.update(at, true);
    if at == visited.len() - 1 {
        assert(after.drop_last() == visited.drop_last());
    } else {
        assert(after.drop_last() == visited.drop_last().update(at, true));
        lemma_visit(visited.drop_last(), at);
    }
}

proof fn lemma_path_index<T>(entries: Seq<PathEntry<T>>, path: Seq<Seq<char>>, from: int)
    requires
        0 <= from <= entries.len(),
    ensures
        from <= path_index(entries, path, from) <= entries.len(),
    decreases entries.len() - from,
{
    if from < entries.len() && entries[from].path@ != path {
        lemma_path_index(entries, path, from + 1);
    }
}

impl Path {
    /// Whether two paths have the same segments.
    pub fn same(&self, other: &Path) -> (same: bool)
        ensures
            same == (self@ == other@),
    {
        if self.0.len() != other.0.len() {
            return false;
        }
        let mut i: usize = 0;
        while i < self.0.len()
            invariant
                i <= self.0.len(),
                self.0.len() == other.0.len(),
                self@.take(i as int) == other@.take(i as int),
            decreases self.0.len() - i,
        {
            if !text_eq(self.0[i].as_str(), other.0[i].as_str()) {
                assert(self@[i as int] != other@[i as int]);
                return false;
            }
            assert(self@.take(i + 1) == self@.take(i as int).push(self@[i as int]));
            assert(other@.take(i + 1) == other@.take(i as int).push(other@[i as int]));
            i += 1;
        }
        assert(self@.take(self.0.len() as int) == self@);
        assert(other@.take(other.0.len() as int) == other@);
        true
    }
}

impl<T> PathMap<T> {
    /// An index without entries.
    pub fn new() -> (index: Self)
        ensures
            index.entries@.len() == 0,
    {
        PathMap { entries: Vec::new() }
    }

    /// The place of what stands under `path`, if anything does.
    pub fn position(&self, path: &Path) -> (found: Option<usize>)
        ensures
            match found {
                Some(at) => at == path_index(self.entries@, path@, 0) && at < self.entries@.len(),
                None => path_index(self.entries@, path@, 0) >= self.entries@.len(),
            },
    {
        let mut i: usize = 0;
        while i < self.entries.len()
            invariant
                i <= self.entries.len(),
                path_index(self.entries@, path@, 0) == path_index(self.entries@, path@, i as int),
            decreases self.entries.len() - i,
        {
            if self.entries[i].path.same(path) {
                return Some(i);
            }
            i += 1;
        }
        None
    }

    /// What stands under `path`, if anything does.
    pub fn get(&self, path: &Path) -> (found: Option<&RefOrObject<T>>)
        ensures
            match found {
                Some(target) => path_index(self.entries@, path@, 0) < self.entries@.len()
                    && *target == self.entries@[path_index(self.entries@, path@, 0)].target,
                None => path_index(self.entries@, path@, 0) >= self.entries@.len(),
            },
    {
        match self.position(path) {
            Some(at) => Some(&self.entries[at].target),
            None => None,
        }
    }
}

/// Follows `reference` through `index` to the item that it leads to.
pub fn expand_reference<'a, T>(index: &'a PathMap<T>, reference: &'a RefOrObject<T>) -> (result:
    Result<&'a T, MacroError>)
    ensures
        match result {
            Ok(item) => followed(index.entries@, *reference) == Ok::<T, ErrorView>(*item),
            Err(error) => followed(index.entries@, *reference) == Err::<T, ErrorView>(error@),
        },
{
    let mut visited: Vec<bool> = Vec::new();
    while visited.len() < index.entries.len()
        invariant
            visited.len() <= index.entries.len(),
            forall|i: int| 0 <= i < visited.len() ==> !visited@[i],
        decreases index.entries.len() - visited.len(),
    {
        visited.push(false);
    }
    assert(visited@ == Seq::new(index.entries@.len(), |i: int| false));
    let mut current = reference;
    loop
        invariant
            visited.len() == index.entries@.len(),
            followed(index.entries@, *reference) == chased(index.entries@, *current, visited@),
        decreases unvisited(visited@),
    {
        match current {
            RefOrObject::Object(it) => {
                return Ok(it);
            },
            RefOrObject::Ref { ref_path } => {
                let path = match Path::from_ref(ref_path.as_str()) {
                    Ok(path) => path,
                    Err(error) => {
                        return Err(error);
                    },
                };
                match index.position(&path) {
                    Some(at) => {
                        if visited[at] {
                            return Err(
                                MacroError::new(ErrorKind::InvalidReference, ref_path.as_str()),
                            );
                        }
                        proof {
                            lemma_visit(visited@, at as int);
                        }
                        visited.set(at, true);
                        current = &index.entries[at].target;
                    },
                    None => {
                        proof {
                            lemma_path_index(index.entries@, path@, 0);
                        }
                        return Err(
                            MacroError::new(ErrorKind::InvalidReference, ref_path.as_str()),
                        );
                    },
                }
            },
        }
    }
}

} // verus!
