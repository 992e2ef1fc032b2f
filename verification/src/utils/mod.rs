//! Helpers of the generator: the naming engine, and how a resource is named.

pub mod casing;
pub mod casing_laws;
pub mod keywords;
pub mod unique;

use crate::error::{failure, ErrorKind, ErrorView, MacroError};
use crate::text::{begins_with, chars_of, starts_with_char, string_of_range, text_eq};
use vstd::prelude::*;

verus! {

/// Where a document is read from.
#[derive(Debug, PartialEq)]
pub enum ResourceLocation {
    /// A resource that is fetched; `url` is the URI as it was given.
    Remote { url: String },
    /// A file; `path` is what stands behind `file://`.
    File { path: String },
}

pub enum LocationView {
    Remote { url: Seq<char> },
    File { path: Seq<char> },
}

impl View for ResourceLocation {
    type V = LocationView;

    open spec fn view(&self) -> LocationView {
        match self {
            ResourceLocation::Remote { url } => LocationView::Remote { url: url@ },
            ResourceLocation::File { path } => LocationView::File { path: path@ },
        }
    }
}

/// The first place at or after `from` where `://` stands in `s`; the length
/// of `s` where it stands nowhere.
pub open spec fn separator_index(s: Seq<char>, from: int) -> int
    decreases s.len() - from,
{
    if !(0 <= from && from + 3 <= s.len()) {
        s.len() as int
    } else if s[from] == ':' && s[from + 1] == '/' && s[from + 2] == '/' {
        from
    } else {
        separator_index(s, from + 1)
    }
}

pub open spec fn no_separator_text() -> Seq<char> {
    "Resource URI must contain '://' splitting protocol and path"@
}

/// What the URI `uri` names. In front of the first `://` stands the
/// protocol, behind it the path: a URI without `://` is malformed, the
/// protocols `http` and `https` name a resource to fetch, `file` names a file,
/// and no other protocol is supported.
pub open spec fn location_of(uri: Seq<char>) -> Result<LocationView, ErrorView> {
    let at = separator_index(uri, 0);
    if !(0 <= at < uri.len()) {
        Err(failure(ErrorKind::InvalidInput, no_separator_text()))
    } else {
        let protocol = uri.subrange(0, at);
        let path = uri.subrange(at + 3, uri.len() as int);
        if protocol == "http"@ || protocol == "https"@ {
            Ok(LocationView::Remote { url: uri })
        } else if protocol == "file"@ {
            Ok(LocationView::File { path })
        } else {
            Err(failure(ErrorKind::UnsupportedProtocol, protocol))
        }
    }
}

/// Finds what the URI `uri` names.
pub fn locate_resource(uri: &str) -> (result: Result<ResourceLocation, MacroError>)
    ensures
        match result {
            Ok(location) => location_of(uri@) == Ok::<LocationView, ErrorView>(location@),
            Err(error) => location_of(uri@) == Err::<LocationView, ErrorView>(error@),
        },
{
    // Seperating the protocol and path from the uri
    let chars = chars_of(uri);
    let mut at: usize = 0;
    while at < chars.len() && !(chars.len() - at >= 3 && chars[at] == ':' && chars[at + 1] == '/'
        && chars[at + 2] == '/')
        invariant
            at <= chars.len(),
            separator_index(chars@, 0) == separator_index(chars@, at as int),
        decreases chars.len() - at,
    {
        proof {
            if !(at + 3 <= chars.len()) {
                lemma_no_separator(chars@, at as int);
            }
        }
        at += 1;
    }
    if at >= chars.len() {
        return Err(
            MacroError::new(
                ErrorKind::InvalidInput,
                "Resource URI must contain '://' splitting protocol and path",
            ),
        );
    }
    let protocol = string_of_range(&chars, 0, at);
    let path = string_of_range(&chars, at + 3, chars.len());

    // Telling by the protocol how the contents are read
    if text_eq(protocol.as_str(), "http") || text_eq(protocol.as_str(), "https") {
        Ok(ResourceLocation::Remote { url: String::from_str(uri) })
    } else if text_eq(protocol.as_str(), "file") {
        Ok(ResourceLocation::File { path })
    } else {
        Err(MacroError::new(ErrorKind::UnsupportedProtocol, protocol.as_str()))
    }
}

/// Behind a place from which fewer than three characters are left, `://`
/// stands nowhere.
proof fn lemma_no_separator(s: Seq<char>, from: int)
    requires
        0 <= from <= s.len(),
        from + 3 > s.len(),
    ensures
        separator_index(s, from) == s.len(),
{
}

/// The file that `path` names, seen from the directory `project_root`: a
/// path that begins with `/` stands for itself, every other one is looked for
/// under the root.
pub open spec fn file_path_of(project_root: Seq<char>, path: Seq<char>) -> Seq<char> {
    if begins_with(path, '/') {
        "/"@ + path
    } else {
        project_root + "/"@ + path
    }
}

/// Names the file that `path` stands for.
pub fn resource_file_path(project_root: &str, path: &str) -> (file: String)
    ensures
        file@ == file_path_of(project_root@, path@),
{
    let mut base_dir = String::new();
    if !starts_with_char(path, '/') {
        base_dir.append(project_root);
    }
    base_dir.append("/");
    base_dir.append(path);
    base_dir
}

} // verus!
