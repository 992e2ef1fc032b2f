//! Operations, whichever grammar declares them, and the names and methods
//! that they are given.

use crate::document::{child, child_text, Node};
use crate::text::{after, before, cut, literal, literal_text, split, split_text, views};
use crate::utils::casing::{
    field_identifier, field_label, join, join_texts, lower_text, to_lower_text, to_upper_text,
    upper_text,
};
use crate::agnostic::form::{check_operation, is_operation};
use vstd::prelude::*;

verus! {

/// The grammar in which a document is written.
#[derive(Clone, Copy, Debug, PartialEq, Eq, Structural)]
pub enum DocumentVersion {
    V2,
    V3,
}

/// An operation as the generator sees it.
#[derive(Debug, PartialEq)]
pub struct VersionAgnosticOperation {
    pub summary: Option<String>,
    pub description: Option<String>,
    pub external_docs: Option<String>,
    pub operation_id: Option<String>,
    pub deprecated: bool,
}

/// What an operation says.
pub struct OperationView {
    pub summary: Option<Seq<char>>,
    pub description: Option<Seq<char>>,
    pub external_docs: Option<Seq<char>>,
    pub operation_id: Option<Seq<char>>,
    pub deprecated: bool,
}

pub open spec fn optional_view(text: Option<String>) -> Option<Seq<char>> {
    match text {
        Some(text) => Some(text@),
        None => None,
    }
}

impl View for VersionAgnosticOperation {
    type V = OperationView;

    open spec fn view(&self) -> OperationView {
        OperationView {
            summary: optional_view(self.summary),
            description: optional_view(self.description),
            external_docs: optional_view(self.external_docs),
            operation_id: optional_view(self.operation_id),
            deprecated: self.deprecated,
        }
    }
}

/// The link to further documentation that the operation `node` names.
pub open spec fn external_docs_of(node: Node) -> Option<Seq<char>> {
    match child(node, "externalDocs"@) {
        Some(docs) => child_text(docs, "url"@),
        None => None,
    }
}

/// The operation that `node` declares. The two grammars write an operation
/// alike in what is read of it here. An operation is deprecated only where
/// the document says so.
pub open spec fn operation_of(node: Node) -> OperationView {
    OperationView {
        summary: child_text(node, "summary"@),
        description: child_text(node, "description"@),
        external_docs: external_docs_of(node),
        operation_id: child_text(node, "operationId"@),
        deprecated: child(node, "deprecated"@) == Some(Node::Bool(true)),
    }
}

fn owned(text: Option<&str>) -> (held: Option<String>)
    ensures
        match text {
            Some(text) => optional_view(held) == Some(text@),
            None => held is None,
        },
{
    match text {
        Some(text) => Some(String::from_str(text)),
        None => None,
    }
}

impl VersionAgnosticOperation {
    /// Reads the operation that `it` declares, if it is written as an
    /// operation is.
    pub fn read(it: &Node) -> (operation: Option<Self>)
        ensures
            match operation {
                Some(operation) => is_operation(*it) && operation@ == operation_of(*it),
                None => !is_operation(*it),
            },
    {
        if check_operation(it) {
            Some(Self::from(it))
        } else {
            None
        }
    }

    /// Reads what `it` says as an operation: of what an operation is made
    /// of, that which `it` holds. Whether `it` is written as an operation
    /// is, [`VersionAgnosticOperation::read`] tells.
    pub fn from(it: &Node) -> (operation: Self)
        ensures
            operation@ == operation_of(*it),
    {
        let external_docs = match it.get("externalDocs") {
            Some(docs) => owned(docs.get_text("url")),
            None => None,
        };
        let deprecated = match it.get("deprecated") {
            Some(Node::Bool(flag)) => *flag,
            _ => false,
        };
        Self {
            summary: owned(it.get_text("summary")),
            description: owned(it.get_text("description")),
            external_docs,
            operation_id: owned(it.get_text("operationId")),
            deprecated,
        }
    }
}

/// `parts` with `piece` after them, unless `piece` is empty.
pub open spec fn kept(parts: Seq<Seq<char>>, piece: Seq<char>) -> Seq<Seq<char>> {
    if piece.len() > 0 {
        parts.push(piece)
    } else {
        parts
    }
}

/// `parts` with the names of the parameters `parameters[from..]` after them.
/// The name of a parameter is what stands in front of its `=`.
pub open spec fn with_parameters(
    parts: Seq<Seq<char>>,
    parameters: Seq<Seq<char>>,
    from: int,
) -> Seq<Seq<char>>
    decreases parameters.len() - from,
{
    if !(0 <= from < parameters.len()) {
        parts
    } else {
        with_parameters(kept(parts, before(parameters[from], '=')), parameters, from + 1)
    }
}

/// `parts` with what the segment `segment` of a path adds to a name: the
/// segment itself, or, where it holds a query, what stands in front of the `?`
/// and then the name of each parameter.
pub open spec fn with_segment(parts: Seq<Seq<char>>, segment: Seq<char>) -> Seq<Seq<char>> {
    match after(segment, '?') {
        None => kept(parts, segment),
        Some(query) => with_parameters(kept(parts, before(segment, '?')), split(query, '&'), 0),
    }
}

pub open spec fn with_segments(
    parts: Seq<Seq<char>>,
    segments: Seq<Seq<char>>,
    from: int,
) -> Seq<Seq<char>>
    decreases segments.len() - from,
{
    if !(0 <= from < segments.len()) {
        parts
    } else {
        with_segments(with_segment(parts, segments[from]), segments, from + 1)
    }
}

/// What the name of an operation without an identifier is made of: the
/// method in lower case, then what each segment of the path adds. Nothing
/// empty is among them.
pub open spec fn fallback_parts(method: Seq<char>, path: Seq<char>) -> Seq<Seq<char>> {
    with_segments(kept(Seq::empty(), lower_text(method)), split(path, '/'), 0)
}

/// The name of an operation: its identifier, or, where it has none, the
/// parts made from its method and path, joined by `_`.
pub open spec fn operation_name(
    operation_id: Option<Seq<char>>,
    method: Seq<char>,
    path: Seq<char>,
) -> Seq<char> {
    match operation_id {
        Some(identifier) => identifier,
        None => join(fallback_parts(method, path), seq!['_']),
    }
}

fn keep(parts: &mut Vec<String>, piece: String)
    ensures
        views(final(parts)@) == kept(views(old(parts)@), piece@),
{
    if !piece.as_str().is_empty() {
        parts.push(piece);
        assert(views(final(parts)@) == views(old(parts)@).push(piece@));
    }
}

fn add_segment(parts: &mut Vec<String>, segment: &str)
    ensures
        views(final(parts)@) == with_segment(views(old(parts)@), segment@),
{
    let (head, query) = cut(segment, '?');
    match query {
        None => {
            proof {
                crate::text::lemma_index_of_from(segment@, '?', 0);
                assert(segment@.subrange(0, segment@.len() as int) == segment@);
            }
            keep(parts, head);
        },
        Some(query) => {
            keep(parts, head);
            let parameters = split_text(query.as_str(), '&');
            let ghost start = views(parts@);
            let mut k: usize = 0;
            while k < parameters.len()
                invariant
                    k <= parameters.len(),
                    with_parameters(start, views(parameters@), 0) == with_parameters(
                        views(parts@),
                        views(parameters@),
                        k as int,
                    ),
                decreases parameters.len() - k,
            {
                let (name, _) = cut(parameters[k].as_str(), '=');
                keep(parts, name);
                k += 1;
            }
        },
    }
}

/// The parts of the name of an operation that has no identifier.
pub fn fallback_components(method: &str, path: &str) -> (parts: Vec<String>)
    ensures
        views(parts@) == fallback_parts(method@, path@),
{
    let mut parts: Vec<String> = Vec::new();
    assert(views(parts@) == Seq::<Seq<char>>::empty());
    keep(&mut parts, to_lower_text(method));
    let segments = split_text(path, '/');
    let ghost start = views(parts@);
    let mut i: usize = 0;
    while i < segments.len()
        invariant
            i <= segments.len(),
            with_segments(start, views(segments@), 0) == with_segments(
                views(parts@),
                views(segments@),
                i as int,
            ),
        decreases segments.len() - i,
    {
        add_segment(&mut parts, segments[i].as_str());
        i += 1;
    }
    parts
}

/// The name of the operation `operation_id`, or of the one that `method` and
/// `path` describe where it has no identifier.
pub fn name_operation(operation_id: &Option<String>, method: &str, path: &str) -> (name: String)
    ensures
        name@ == operation_name(optional_view(*operation_id), method@, path@),
{
    match operation_id {
        Some(identifier) => identifier.clone(),
        None => {
            proof {
                reveal_strlit("_");
                assert("_"@ == seq!['_']);
            }
            join_texts(&fallback_components(method, path), "_")
        },
    }
}

pub open spec fn or_empty(text: Option<Seq<char>>) -> Seq<char> {
    match text {
        Some(text) => text,
        None => Seq::empty(),
    }
}

/// The documentation of a method: the summary, the description and the link
/// of the operation, with an empty line between each two.
pub open spec fn method_docs(operation: OperationView) -> Seq<char> {
    or_empty(operation.summary) + "\n\n"@ + or_empty(operation.description) + "\n\n"@ + or_empty(
        operation.external_docs,
    )
}

pub open spec fn deprecation(deprecated: bool) -> Seq<char> {
    if deprecated {
        "#[deprecated] "@
    } else {
        Seq::empty()
    }
}

/// The declaration of the method called `identifier` that sends the
/// request of an operation: it carries `docs`, is marked where the operation
/// is deprecated, sends the request with the method in upper case to the path
/// behind the base URL, and gives the text of the answer.
pub open spec fn request_text(
    path: Seq<char>,
    http_method: Seq<char>,
    docs: Seq<char>,
    deprecated: bool,
    identifier: Seq<char>,
) -> Seq<char> {
    deprecation(deprecated) + "#[doc = "@ + literal(docs) + "] pub async fn "@ + identifier
        + "(&self) -> Result<String, Error> { let res = self.inner.request(reqwest::Method::"@
        + upper_text(http_method) + ", format!(\"{}{}\", &self.base_url, "@ + literal(path)
        + ")).send().await.map_err(|_| Error::Unknown)?; let text = res.text().await.map_err(|_| Error::Unknown)?; Ok(text) }"@
}

/// The declaration of the method for the operation `operation` on `path`:
/// the request, with the summary, the description and the link of the
/// operation as its documentation, called by the name of the operation as a
/// field identifier.
pub open spec fn method_text(path: Seq<char>, http_method: Seq<char>, operation: OperationView) -> Seq<
    char,
> {
    request_text(
        path,
        http_method,
        method_docs(operation),
        operation.deprecated,
        field_label(operation_name(operation.operation_id, http_method, path)),
    )
}

/// Writes the declaration of the method called `identifier` that sends the
/// request of an operation.
pub fn write_request(
    path: &str,
    http_method: &str,
    docs: &str,
    deprecated: bool,
    identifier: &str,
) -> (declaration: String)
    ensures
        declaration@ == request_text(path@, http_method@, docs@, deprecated, identifier@),
{
    let http_method_name = to_upper_text(http_method);
    let mut result = String::new();
    if deprecated {
        result.append("#[deprecated] ");
    }
    result.append("#[doc = ");
    result.append(literal_text(docs).as_str());
    result.append("] pub async fn ");
    result.append(identifier);
    result.append(
        "(&self) -> Result<String, Error> { let res = self.inner.request(reqwest::Method::",
    );
    result.append(http_method_name.as_str());
    result.append(", format!(\"{}{}\", &self.base_url, ");
    result.append(literal_text(path).as_str());
    result.append(
        ")).send().await.map_err(|_| Error::Unknown)?; let text = res.text().await.map_err(|_| Error::Unknown)?; Ok(text) }",
    );
    result
}

fn text_or_empty(text: &Option<String>) -> (held: &str)
    ensures
        held@ == or_empty(optional_view(*text)),
{
    match text {
        Some(text) => text.as_str(),
        None => {
            proof {
                reveal_strlit("");
            }
            ""
        },
    }
}

/// Writes the declaration of the method for `operation`.
pub fn build_operation_method(
    path: &str,
    http_method: &str,
    operation: VersionAgnosticOperation,
) -> (declaration: String)
    ensures
        declaration@ == method_text(path@, http_method@, operation@),
{
    let mut docs = String::from_str(text_or_empty(&operation.summary));
    docs.append("\n\n");
    docs.append(text_or_empty(&operation.description));
    docs.append("\n\n");
    docs.append(text_or_empty(&operation.external_docs));

    let operation_name = name_operation(&operation.operation_id, http_method, path);
    let method_name = field_identifier(operation_name.as_str());
    write_request(path, http_method, docs.as_str(), operation.deprecated, method_name.as_str())
}

} // verus!
