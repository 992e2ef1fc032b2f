//! The normalizer: from a document of either grammar to its operations, what
//! it says of itself, the URL of its server, and the pointers of its schemas.

use crate::agnostic::form::{check_paths, check_text_or_absent, paths_written, text_or_absent};
use crate::agnostic::operation::{
    operation_of, DocumentVersion, OperationView, VersionAgnosticOperation,
};
use crate::document::{child, child_text, Member, Node};
use crate::documentation::{DocumentInfo, InfoView};
use crate::error::{failure, ErrorKind, ErrorView, MacroError};
use crate::text::{chain, has_prefix, starts_with, text_eq, views};
use vstd::prelude::*;

verus! {

/// An operation with the path and the method under which it is declared.
#[derive(Debug, PartialEq)]
pub struct OperationEntry {
    pub path: String,
    pub method: String,
    pub operation: VersionAgnosticOperation,
}

pub struct OperationEntryView {
    pub path: Seq<char>,
    pub method: Seq<char>,
    pub operation: OperationView,
}

impl View for OperationEntry {
    type V = OperationEntryView;

    open spec fn view(&self) -> OperationEntryView {
        OperationEntryView { path: self.path@, method: self.method@, operation: self.operation@ }
    }
}

/// A document in the one model that the generator works on.
#[derive(Debug, PartialEq)]
pub struct ApiDocument {
    pub version: DocumentVersion,
    pub info: DocumentInfo,
    pub base_url: String,
    pub operations: Vec<OperationEntry>,
    pub schemas: Vec<String>,
}

pub struct ApiView {
    pub version: DocumentVersion,
    pub info: InfoView,
    pub base_url: Seq<char>,
    pub operations: Seq<OperationEntryView>,
    pub schemas: Seq<Seq<char>>,
}

/// What the entries of `operations` say, in order.
pub open spec fn entry_views(operations: Seq<OperationEntry>) -> Seq<OperationEntryView> {
    Seq::new(operations.len(), |i: int| operations[i]@)
}

impl View for ApiDocument {
    type V = ApiView;

    open spec fn view(&self) -> ApiView {
        ApiView {
            version: self.version,
            info: self.info@,
            base_url: self.base_url@,
            operations: entry_views(self.operations@),
            schemas: views(self.schemas@),
        }
    }
}

pub open spec fn unsupported_text() -> Seq<char> {
    "OpenAPI documentation provided is of an unsupported format/version or malformed."@
}

pub open spec fn no_base_url_text() -> Seq<char> {
    "no base URL can be derived from the document; supply a base URL explicitly"@
}

pub open spec fn web_socket_text() -> Seq<char> {
    "WebSocket scheme"@
}

/// The grammar of the document `root`: 3.0 where `openapi` begins with `3.0`,
/// 2.x where `swagger` begins with `2.`.
pub open spec fn grammar_of(root: Node) -> Option<DocumentVersion> {
    if child_text(root, "openapi"@) is Some && has_prefix(
        child_text(root, "openapi"@)->Some_0,
        "3.0"@,
    ) {
        Some(DocumentVersion::V3)
    } else if child_text(root, "swagger"@) is Some && has_prefix(
        child_text(root, "swagger"@)->Some_0,
        "2."@,
    ) {
        Some(DocumentVersion::V2)
    } else {
        None
    }
}

/// What the document says of itself, if it names its title and its version,
/// and if its description and its terms of service are texts where it has
/// them.
pub open spec fn info_of(root: Node) -> Option<InfoView> {
    match child(root, "info"@) {
        Some(info) => match (child_text(info, "title"@), child_text(info, "version"@)) {
            (Some(title), Some(version)) => if text_or_absent(info, "description"@)
                && text_or_absent(info, "termsOfService"@) {
                Some(
                    InfoView {
                        title,
                        version,
                        description: child_text(info, "description"@),
                        terms_of_service: child_text(info, "termsOfService"@),
                    },
                )
            } else {
                None
            },
            _ => None,
        },
        None => None,
    }
}

pub open spec fn is_web_socket(scheme: Seq<char>) -> bool {
    scheme == "ws"@ || scheme == "wss"@
}

/// The place of the first of `schemes`, from `from` on, that is a text and no
/// WebSocket scheme; the length of `schemes` where none is.
pub open spec fn scheme_index(schemes: Seq<Node>, from: int) -> int
    decreases schemes.len() - from,
{
    if 0 <= from < schemes.len() && !(schemes[from] is Text && !is_web_socket(
        schemes[from]->Text_0@,
    )) {
        scheme_index(schemes, from + 1)
    } else {
        from
    }
}

/// The place of the first of `schemes`, from `from` on, that is no text; the
/// length of `schemes` where all are texts.
pub open spec fn odd_scheme_index(schemes: Seq<Node>, from: int) -> int
    decreases schemes.len() - from,
{
    if 0 <= from < schemes.len() && schemes[from] is Text {
        odd_scheme_index(schemes, from + 1)
    } else {
        from
    }
}

/// The scheme under which a 2.x document is served: the first that it
/// declares which is no WebSocket scheme, and `https` where it declares none.
/// A document that declares WebSocket schemes only cannot be served. One whose
/// `schemes` are no list, or hold anything but texts, is malformed.
pub open spec fn scheme_of(root: Node) -> Result<Seq<char>, ErrorView> {
    match child(root, "schemes"@) {
        None => Ok("https"@),
        Some(Node::Array(schemes)) => {
            let odd = odd_scheme_index(schemes@, 0);
            let at = scheme_index(schemes@, 0);
            if 0 <= odd < schemes@.len() {
                Err(failure(ErrorKind::InvalidInput, unsupported_text()))
            } else if schemes@.len() == 0 {
                Ok("https"@)
            } else if 0 <= at < schemes@.len() {
                Ok(schemes@[at]->Text_0@)
            } else {
                Err(failure(ErrorKind::UnimplementedFeature, web_socket_text()))
            }
        },
        Some(_) => Err(failure(ErrorKind::InvalidInput, unsupported_text())),
    }
}

/// The URL in front of every path of the document. A 3.0 document names it
/// in its first server; for a 2.x document it is made of the scheme, the host
/// and the base path. Where the document names no server, or no host, the
/// configuration is incomplete. Where it holds something else in the place of
/// the servers, of the URL of the first, of the host or of the base path, it
/// is malformed.
pub open spec fn base_url_of(grammar: DocumentVersion, root: Node) -> Result<Seq<char>, ErrorView> {
    match grammar {
        DocumentVersion::V3 => match child(root, "servers"@) {
            None => Err(failure(ErrorKind::ConfigurationIncomplete, no_base_url_text())),
            Some(Node::Array(servers)) => if servers@.len() == 0 {
                Err(failure(ErrorKind::ConfigurationIncomplete, no_base_url_text()))
            } else if child_text(servers@[0], "url"@) is Some {
                Ok(child_text(servers@[0], "url"@)->Some_0)
            } else {
                Err(failure(ErrorKind::InvalidInput, unsupported_text()))
            },
            Some(_) => Err(failure(ErrorKind::InvalidInput, unsupported_text())),
        },
        DocumentVersion::V2 => if !text_or_absent(root, "host"@) || !text_or_absent(
            root,
            "basePath"@,
        ) {
            Err(failure(ErrorKind::InvalidInput, unsupported_text()))
        } else {
            match child_text(root, "host"@) {
                None => Err(failure(ErrorKind::ConfigurationIncomplete, no_base_url_text())),
                Some(host) => match scheme_of(root) {
                    Err(error) => Err(error),
                    Ok(scheme) => Ok(
                        scheme + "://"@ + host + match child_text(root, "basePath"@) {
                            Some(base_path) => base_path,
                            None => Seq::empty(),
                        },
                    ),
                },
            }
        },
    }
}

/// The methods that a path can declare, in the order in which their
/// operations are listed.
pub open spec fn verb(k: int) -> Seq<char> {
    if k == 0 {
        "get"@
    } else if k == 1 {
        "put"@
    } else if k == 2 {
        "post"@
    } else if k == 3 {
        "delete"@
    } else if k == 4 {
        "options"@
    } else if k == 5 {
        "head"@
    } else if k == 6 {
        "patch"@
    } else {
        "trace"@
    }
}

/// How many methods a path can declare: the 3.0 grammar has `trace`, the 2.x
/// grammar has not.
pub open spec fn verb_count(grammar: DocumentVersion) -> int {
    match grammar {
        DocumentVersion::V2 => 7,
        DocumentVersion::V3 => 8,
    }
}

/// `found` with the operations that `item` declares for `path` under the
/// methods from the one in place `k` on.
pub open spec fn with_verbs(
    found: Seq<OperationEntryView>,
    grammar: DocumentVersion,
    path: Seq<char>,
    item: Node,
    k: int,
) -> Seq<OperationEntryView>
    decreases verb_count(grammar) - k,
{
    if !(0 <= k < verb_count(grammar)) {
        found
    } else {
        with_verbs(
            match child(item, verb(k)) {
                Some(operation) => found.push(
                    OperationEntryView {
                        path,
                        method: verb(k),
                        operation: operation_of(operation),
                    },
                ),
                None => found,
            },
            grammar,
            path,
            item,
            k + 1,
        )
    }
}

/// `found` with the operations of the paths `paths[from..]`, path by path.
pub open spec fn with_paths(
    found: Seq<OperationEntryView>,
    grammar: DocumentVersion,
    paths: Seq<Member>,
    from: int,
) -> Seq<OperationEntryView>
    decreases paths.len() - from,
{
    if !(0 <= from < paths.len()) {
        found
    } else {
        with_paths(
            with_verbs(found, grammar, paths[from].name@, paths[from].value, 0),
            grammar,
            paths,
            from + 1,
        )
    }
}

/// The operations of the document, if it has paths and they are written as
/// paths are: for each path in the order of the document, one for each method
/// that the path declares.
pub open spec fn operations_of(grammar: DocumentVersion, root: Node) -> Option<
    Seq<OperationEntryView>,
> {
    match child(root, "paths"@) {
        Some(Node::Object(paths)) => if paths_written(grammar, paths@, 0) {
            Some(with_paths(Seq::empty(), grammar, paths@, 0))
        } else {
            None
        },
        _ => None,
    }
}

/// The pointer in front of the names of the schemas of a document.
pub open spec fn schema_prefix(grammar: DocumentVersion) -> Seq<char> {
    match grammar {
        DocumentVersion::V2 => "#/definitions/"@,
        DocumentVersion::V3 => "#/components/schemas/"@,
    }
}

/// Where a document keeps its named schemas.
pub open spec fn schema_container(grammar: DocumentVersion, root: Node) -> Option<Node> {
    match grammar {
        DocumentVersion::V2 => child(root, "definitions"@),
        DocumentVersion::V3 => match child(root, "components"@) {
            Some(components) => child(components, "schemas"@),
            None => None,
        },
    }
}

/// The pointers of the named schemas of the document, in its order: none
/// where it keeps no schemas. A document that keeps something else than an
/// object where its schemas belong is malformed, and has no index.
pub open spec fn schema_index_of(grammar: DocumentVersion, root: Node) -> Option<Seq<Seq<char>>> {
    match schema_container(grammar, root) {
        None => Some(Seq::empty()),
        Some(Node::Object(schemas)) => Some(
            Seq::new(schemas@.len(), |i: int| schema_prefix(grammar) + schemas@[i].name@),
        ),
        Some(_) => None,
    }
}

/// The document `root` in the one model, or the reason for which it has none:
/// its grammar is not one of the two, it does not say what it is, no base URL
/// can be derived, it has no paths, or what it holds in the place of something
/// that the generator reads is of another kind than the grammar gives it.
pub open spec fn normalized(root: Node) -> Result<ApiView, ErrorView> {
    match grammar_of(root) {
        None => Err(failure(ErrorKind::InvalidInput, unsupported_text())),
        Some(version) => match info_of(root) {
            None => Err(failure(ErrorKind::InvalidInput, unsupported_text())),
            Some(info) => match base_url_of(version, root) {
                Err(error) => Err(error),
                Ok(base_url) => match (
                    operations_of(version, root),
                    schema_index_of(version, root),
                ) {
                    (Some(operations), Some(schemas)) => Ok(
                        ApiView { version, info, base_url, operations, schemas },
                    ),
                    _ => Err(failure(ErrorKind::InvalidInput, unsupported_text())),
                },
            },
        },
    }
}

fn malformed() -> (error: MacroError)
    ensures
        error@ == failure(ErrorKind::InvalidInput, unsupported_text()),
{
    MacroError::new(
        ErrorKind::InvalidInput,
        "OpenAPI documentation provided is of an unsupported format/version or malformed.",
    )
}

fn incomplete() -> (error: MacroError)
    ensures
        error@ == failure(ErrorKind::ConfigurationIncomplete, no_base_url_text()),
{
    MacroError::new(
        ErrorKind::ConfigurationIncomplete,
        "no base URL can be derived from the document; supply a base URL explicitly",
    )
}

/// Finds the grammar of the document `root`.
pub fn detect_version(root: &Node) -> (version: Option<DocumentVersion>)
    ensures
        version == grammar_of(*root),
{
    if let Some(openapi) = root.get_text("openapi") {
        if starts_with(openapi, "3.0") {
            return Some(DocumentVersion::V3);
        }
    }
    if let Some(swagger) = root.get_text("swagger") {
        if starts_with(swagger, "2.") {
            return Some(DocumentVersion::V2);
        }
    }
    None
}

fn held(text: Option<&str>) -> (kept: Option<String>)
    ensures
        match text {
            Some(text) => crate::agnostic::operation::optional_view(kept) == Some(text@),
            None => kept is None,
        },
{
    match text {
        Some(text) => Some(String::from_str(text)),
        None => None,
    }
}

/// Reads what the document `root` says of itself.
pub fn read_info(root: &Node) -> (info: Option<DocumentInfo>)
    ensures
        match info {
            Some(info) => info_of(*root) == Some(info@),
            None => info_of(*root) is None,
        },
{
    let node = match root.get("info") {
        Some(node) => node,
        None => {
            return None;
        },
    };
    if !check_text_or_absent(node, "description") || !check_text_or_absent(
        node,
        "termsOfService",
    ) {
        return None;
    }
    match (node.get_text("title"), node.get_text("version")) {
        (Some(title), Some(version)) => Some(
            DocumentInfo {
                title: String::from_str(title),
                version: String::from_str(version),
                description: held(node.get_text("description")),
                terms_of_service: held(node.get_text("termsOfService")),
            },
        ),
        _ => None,
    }
}

fn read_scheme(root: &Node) -> (result: Result<String, MacroError>)
    ensures
        match result {
            Ok(scheme) => scheme_of(*root) == Ok::<Seq<char>, ErrorView>(scheme@),
            Err(error) => scheme_of(*root) == Err::<Seq<char>, ErrorView>(error@),
        },
{
    match root.get("schemes") {
        None => Ok(String::from_str("https")),
        Some(Node::Array(schemes)) => {
            let mut k: usize = 0;
            while k < schemes.len()
                invariant
                    k <= schemes.len(),
                    child(*root, "schemes"@) == Some(Node::Array(*schemes)),
                    odd_scheme_index(schemes@, 0) == odd_scheme_index(schemes@, k as int),
                decreases schemes.len() - k,
            {
                match &schemes[k] {
                    Node::Text(_) => {},
                    _ => {
                        return Err(malformed());
                    },
                }
                k += 1;
            }
            if schemes.len() == 0 {
                return Ok(String::from_str("https"));
            }
            let mut i: usize = 0;
            while i < schemes.len()
                invariant
                    i <= schemes.len(),
                    schemes.len() > 0,
                    child(*root, "schemes"@) == Some(Node::Array(*schemes)),
                    odd_scheme_index(schemes@, 0) >= schemes.len(),
                    scheme_index(schemes@, 0) == scheme_index(schemes@, i as int),
                decreases schemes.len() - i,
            {
                if let Node::Text(scheme) = &schemes[i] {
                    if !(text_eq(scheme.as_str(), "ws") || text_eq(scheme.as_str(), "wss")) {
                        return Ok(scheme.clone());
                    }
                }
                i += 1;
            }
            Err(MacroError::new(ErrorKind::UnimplementedFeature, "WebSocket scheme"))
        },
        Some(_) => Err(malformed()),
    }
}

/// Derives the URL in front of every path of the document `root`.
pub fn derive_base_url(grammar: DocumentVersion, root: &Node) -> (result: Result<
    String,
    MacroError,
>)
    ensures
        match result {
            Ok(url) => base_url_of(grammar, *root) == Ok::<Seq<char>, ErrorView>(url@),
            Err(error) => base_url_of(grammar, *root) == Err::<Seq<char>, ErrorView>(error@),
        },
{
    match grammar {
        DocumentVersion::V3 => {
            match root.get("servers") {
                None => Err(incomplete()),
                Some(Node::Array(servers)) => {
                    if servers.len() == 0 {
                        return Err(incomplete());
                    }
                    match servers[0].get_text("url") {
                        Some(url) => Ok(String::from_str(url)),
                        None => Err(malformed()),
                    }
                },
                Some(_) => Err(malformed()),
            }
        },
        DocumentVersion::V2 => {
            if !check_text_or_absent(root, "host") || !check_text_or_absent(root, "basePath") {
                return Err(malformed());
            }
            let host = match root.get_text("host") {
                Some(host) => host,
                None => {
                    return Err(incomplete());
                },
            };
            let mut url = read_scheme(root)?;
            url.append("://");
            url.append(host);
            match root.get_text("basePath") {
                Some(base_path) => {
                    url.append(base_path);
                },
                None => {
                    assert(url@ + Seq::<char>::empty() == url@);
                },
            }
            Ok(url)
        },
    }
}

pub(crate) fn verb_text(k: usize) -> (text: &'static str)
    ensures
        text@ == verb(k as int),
{
    if k == 0 {
        "get"
    } else if k == 1 {
        "put"
    } else if k == 2 {
        "post"
    } else if k == 3 {
        "delete"
    } else if k == 4 {
        "options"
    } else if k == 5 {
        "head"
    } else if k == 6 {
        "patch"
    } else {
        "trace"
    }
}

fn add_operations(
    found: &mut Vec<OperationEntry>,
    grammar: DocumentVersion,
    path: &str,
    item: &Node,
)
    ensures
        entry_views(final(found)@) == with_verbs(entry_views(old(found)@), grammar, path@, *item, 0),
{
    let count: usize = match grammar {
        DocumentVersion::V2 => 7,
        DocumentVersion::V3 => 8,
    };
    let ghost start = entry_views(found@);
    let mut k: usize = 0;
    while k < count
        invariant
            k <= count,
            count == verb_count(grammar),
            with_verbs(start, grammar, path@, *item, 0) == with_verbs(
                entry_views(found@),
                grammar,
                path@,
                *item,
                k as int,
            ),
        decreases count - k,
    {
        let method = verb_text(k);
        if let Some(node) = item.get(method) {
            let entry = OperationEntry {
                path: String::from_str(path),
                method: String::from_str(method),
                operation: VersionAgnosticOperation::from(node),
            };
            proof {
                assert(entry_views(found@.push(entry)) == entry_views(found@).push(entry@));
            }
            found.push(entry);
        }
        k += 1;
    }
}

/// Lists the operations of the document `root`.
pub fn list_operations(grammar: DocumentVersion, root: &Node) -> (found: Option<
    Vec<OperationEntry>,
>)
    ensures
        match found {
            Some(operations) => operations_of(grammar, *root) == Some(entry_views(operations@)),
            None => operations_of(grammar, *root) is None,
        },
{
    match root.get("paths") {
        Some(Node::Object(paths)) => {
            if !check_paths(grammar, paths) {
                return None;
            }
            let mut found: Vec<OperationEntry> = Vec::new();
            assert(entry_views(found@) == Seq::<OperationEntryView>::empty());
            let mut i: usize = 0;
            while i < paths.len()
                invariant
                    i <= paths.len(),
                    child(*root, "paths"@) == Some(Node::Object(*paths)),
                    paths_written(grammar, paths@, 0),
                    with_paths(Seq::empty(), grammar, paths@, 0) == with_paths(
                        entry_views(found@),
                        grammar,
                        paths@,
                        i as int,
                    ),
                decreases paths.len() - i,
            {
                add_operations(&mut found, grammar, paths[i].name.as_str(), &paths[i].value);
                i += 1;
            }
            Some(found)
        },
        _ => None,
    }
}

/// Lists the pointers of the named schemas of the document `root`.
pub fn list_schemas(grammar: DocumentVersion, root: &Node) -> (found: Option<Vec<String>>)
    ensures
        match found {
            Some(pointers) => schema_index_of(grammar, *root) == Some(views(pointers@)),
            None => schema_index_of(grammar, *root) is None,
        },
{
    let container = match grammar {
        DocumentVersion::V2 => root.get("definitions"),
        DocumentVersion::V3 => match root.get("components") {
            Some(components) => components.get("schemas"),
            None => None,
        },
    };
    let prefix = match grammar {
        DocumentVersion::V2 => "#/definitions/",
        DocumentVersion::V3 => "#/components/schemas/",
    };
    let mut pointers: Vec<String> = Vec::new();
    match container {
        None => {
            assert(views(pointers@) =~= Seq::<Seq<char>>::empty());
            Some(pointers)
        },
        Some(Node::Object(schemas)) => {
            let mut i: usize = 0;
            while i < schemas.len()
                invariant
                    i <= schemas.len(),
                    prefix@ == schema_prefix(grammar),
                    pointers.len() == i,
                    forall|k: int|
                        0 <= k < i ==> (#[trigger] pointers@[k])@ == schema_prefix(grammar)
                            + schemas@[k].name@,
                decreases schemas.len() - i,
            {
                pointers.push(chain(prefix, schemas[i].name.as_str()));
                i += 1;
            }
            assert(views(pointers@) =~= schema_index_of(grammar, *root)->Some_0);
            Some(pointers)
        },
        Some(_) => None,
    }
}

/// Brings the document `root` into the one model.
pub fn normalize(root: &Node) -> (result: Result<ApiDocument, MacroError>)
    ensures
        match result {
            Ok(document) => normalized(*root) == Ok::<ApiView, ErrorView>(document@),
            Err(error) => normalized(*root) == Err::<ApiView, ErrorView>(error@),
        },
{
    let version = match detect_version(root) {
        Some(version) => version,
        None => {
            return Err(malformed());
        },
    };
    let info = match read_info(root) {
        Some(info) => info,
        None => {
            return Err(malformed());
        },
    };
    let base_url = derive_base_url(version, root)?;
    let operations = match list_operations(version, root) {
        Some(operations) => operations,
        None => {
            return Err(malformed());
        },
    };
    let schemas = match list_schemas(version, root) {
        Some(schemas) => schemas,
        None => {
            return Err(malformed());
        },
    };
    Ok(ApiDocument { version, info, base_url, operations, schemas })
}

} // verus!
