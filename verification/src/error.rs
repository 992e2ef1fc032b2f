//! The reasons for which generation stops, and how they are reported.

use vstd::prelude::*;

verus! {

/// The kind of a [`MacroError`], without its detail.
#[derive(Clone, Copy, Debug, PartialEq, Eq, Structural)]
pub enum ErrorKind {
    InvalidInput,
    InvalidReference,
    UnsupportedProtocol,
    ResourceLoadingFailed,
    UnimplementedFeature,
    ConfigurationIncomplete,
    Unknown,
}

/// What an error says: its kind and the text that goes with it.
pub struct ErrorView {
    pub kind: ErrorKind,
    pub detail: Seq<char>,
}

/// A failure of generation. Each one ends the run: there is no partial output.
#[derive(Debug, PartialEq)]
pub enum MacroError {
    /// A literal or the document text is malformed.
    InvalidInput(String),
    /// A reference is written in another way than a pointer is, or names
    /// nothing; the text is the reference as it was written.
    InvalidReference(String),
    /// The scheme of a resource URI is not one that can be read.
    UnsupportedProtocol(String),
    /// The document could not be read.
    ResourceLoadingFailed(String),
    /// A construct that is recognised and deliberately not supported.
    UnimplementedFeature(String),
    /// No base URL can be derived from the document.
    ConfigurationIncomplete(String),
    Unknown,
}

/// A failure of a generated client at run time.
#[derive(Clone, Copy, Debug, PartialEq, Eq, Structural)]
pub enum Error {
    Unknown,
}

impl View for MacroError {
    type V = ErrorView;

    open spec fn view(&self) -> ErrorView {
        match self {
            MacroError::InvalidInput(detail) => ErrorView {
                kind: ErrorKind::InvalidInput,
                detail: detail@,
            },
            MacroError::InvalidReference(detail) => ErrorView {
                kind: ErrorKind::InvalidReference,
                detail: detail@,
            },
            MacroError::UnsupportedProtocol(detail) => ErrorView {
                kind: ErrorKind::UnsupportedProtocol,
                detail: detail@,
            },
            MacroError::ResourceLoadingFailed(detail) => ErrorView {
                kind: ErrorKind::ResourceLoadingFailed,
                detail: detail@,
            },
            MacroError::UnimplementedFeature(detail) => ErrorView {
                kind: ErrorKind::UnimplementedFeature,
                detail: detail@,
            },
            MacroError::ConfigurationIncomplete(detail) => ErrorView {
                kind: ErrorKind::ConfigurationIncomplete,
                detail: detail@,
            },
            MacroError::Unknown => ErrorView { kind: ErrorKind::Unknown, detail: Seq::empty() },
        }
    }
}

/// The error of a given kind and detail.
pub open spec fn failure(kind: ErrorKind, detail: Seq<char>) -> ErrorView {
    ErrorView { kind, detail: if kind == ErrorKind::Unknown { Seq::empty() } else { detail } }
}

/// The sentence with which an error is reported.
pub open spec fn message_text(error: ErrorView) -> Seq<char> {
    match error.kind {
        ErrorKind::InvalidInput => "Invalid input was provided. "@ + error.detail,
        ErrorKind::InvalidReference => "The reference ($ref) '"@ + error.detail + "' is invalid."@,
        ErrorKind::UnsupportedProtocol => "The protocol '"@ + error.detail + "' is unsupported"@,
        ErrorKind::ResourceLoadingFailed => "Failed to load resource. "@ + error.detail,
        ErrorKind::UnimplementedFeature => "The "@ + error.detail
            + " feature of the OpenAPI spec is currently unimplemented in AutoAPI"@,
        ErrorKind::ConfigurationIncomplete => "The configuration is incomplete. "@ + error.detail,
        ErrorKind::Unknown => "An unknown error ocurred"@,
    }
}

/// The sentence with which a run-time failure is reported.
pub open spec fn runtime_message_text() -> Seq<char> {
    "An unknown error ocurred"@
}

impl MacroError {
    /// The error of the given kind that carries `detail`.
    pub fn new(kind: ErrorKind, detail: &str) -> (error: MacroError)
        ensures
            error@ == failure(kind, detail@),
    {
        let detail = String::from_str(detail);
        match kind {
            ErrorKind::InvalidInput => MacroError::InvalidInput(detail),
            ErrorKind::InvalidReference => MacroError::InvalidReference(detail),
            ErrorKind::UnsupportedProtocol => MacroError::UnsupportedProtocol(detail),
            ErrorKind::ResourceLoadingFailed => MacroError::ResourceLoadingFailed(detail),
            ErrorKind::UnimplementedFeature => MacroError::UnimplementedFeature(detail),
            ErrorKind::ConfigurationIncomplete => MacroError::ConfigurationIncomplete(detail),
            ErrorKind::Unknown => MacroError::Unknown,
        }
    }

    pub fn kind(&self) -> (kind: ErrorKind)
        ensures
            kind == self@.kind,
    {
        match self {
            MacroError::InvalidInput(_) => ErrorKind::InvalidInput,
            MacroError::InvalidReference(_) => ErrorKind::InvalidReference,
            MacroError::UnsupportedProtocol(_) => ErrorKind::UnsupportedProtocol,
            MacroError::ResourceLoadingFailed(_) => ErrorKind::ResourceLoadingFailed,
            MacroError::UnimplementedFeature(_) => ErrorKind::UnimplementedFeature,
            MacroError::ConfigurationIncomplete(_) => ErrorKind::ConfigurationIncomplete,
            MacroError::Unknown => ErrorKind::Unknown,
        }
    }

    /// The text that the error carries; empty for [`MacroError::Unknown`].
    pub fn detail(&self) -> (detail: &str)
        ensures
            detail@ == self@.detail,
    {
        match self {
            MacroError::InvalidInput(detail) => detail.as_str(),
            MacroError::InvalidReference(detail) => detail.as_str(),
            MacroError::UnsupportedProtocol(detail) => detail.as_str(),
            MacroError::ResourceLoadingFailed(detail) => detail.as_str(),
            MacroError::UnimplementedFeature(detail) => detail.as_str(),
            MacroError::ConfigurationIncomplete(detail) => detail.as_str(),
            MacroError::Unknown => {
                proof {
                    reveal_strlit("");
                }
                ""
            },
        }
    }

    /// The sentence with which the error is reported.
    pub fn message(&self) -> (message: String)
        ensures
            message@ == message_text(self@),
    {
        match self {
            MacroError::InvalidInput(detail) => {
                String::from_str("Invalid input was provided. ").concat(detail.as_str())
            },
            MacroError::InvalidReference(detail) => {
                String::from_str("The reference ($ref) '").concat(detail.as_str()).concat(
                    "' is invalid.",
                )
            },
            MacroError::UnsupportedProtocol(detail) => {
                String::from_str("The protocol '").concat(detail.as_str()).concat(
                    "' is unsupported",
                )
            },
            MacroError::ResourceLoadingFailed(detail) => {
                String::from_str("Failed to load resource. ").concat(detail.as_str())
            },
            MacroError::UnimplementedFeature(detail) => {
                String::from_str("The ").concat(detail.as_str()).concat(
                    " feature of the OpenAPI spec is currently unimplemented in AutoAPI",
                )
            },
            MacroError::ConfigurationIncomplete(detail) => {
                String::from_str("The configuration is incomplete. ").concat(detail.as_str())
            },
            MacroError::Unknown => String::from_str("An unknown error ocurred"),
        }
    }
}

impl Error {
    /// The sentence with which the failure is reported.
    pub fn message(&self) -> (message: String)
        ensures
            message@ == runtime_message_text(),
    {
        String::from_str("An unknown error ocurred")
    }
}

/// How a failure is shown to whoever asked for the client: the literal that
/// named the document, the sentence of the error, and what may help.
#[derive(Debug, PartialEq)]
pub struct Diagnostic {
    pub subject: String,
    pub message: String,
    pub note: Option<String>,
    pub help: Option<String>,
}

pub struct DiagnosticView {
    pub subject: Seq<char>,
    pub message: Seq<char>,
    pub note: Option<Seq<char>>,
    pub help: Option<Seq<char>>,
}

pub open spec fn held_text(text: Option<String>) -> Option<Seq<char>> {
    match text {
        Some(text) => Some(text@),
        None => None,
    }
}

impl View for Diagnostic {
    type V = DiagnosticView;

    open spec fn view(&self) -> DiagnosticView {
        DiagnosticView {
            subject: self.subject@,
            message: self.message@,
            note: held_text(self.note),
            help: held_text(self.help),
        }
    }
}

/// What is noted beside an error of the kind `kind`.
pub open spec fn note_text(kind: ErrorKind) -> Option<Seq<char>> {
    match kind {
        ErrorKind::ResourceLoadingFailed | ErrorKind::UnsupportedProtocol => Some(
            "If you are using a remote resource an internet connection is required to compile"@,
        ),
        ErrorKind::InvalidInput => Some("Auto API supports OpenAPI versions 2.x and 3.0"@),
        _ => None,
    }
}

/// What is advised beside an error of the kind `kind` on the document named
/// by `uri`.
pub open spec fn help_text(kind: ErrorKind, uri: Seq<char>) -> Option<Seq<char>> {
    match kind {
        ErrorKind::InvalidInput => Some(
            "Try opening "@ + uri
                + " in a web browser to verify it's responding with the correct documentation"@,
        ),
        ErrorKind::ConfigurationIncomplete => Some("Supply a base URL explicitly"@),
        _ => None,
    }
}

/// How `error` is shown for the document named by `uri`.
pub open spec fn diagnosis(error: ErrorView, uri: Seq<char>) -> DiagnosticView {
    DiagnosticView {
        subject: uri,
        message: message_text(error),
        note: note_text(error.kind),
        help: help_text(error.kind, uri),
    }
}

/// Writes how `error` is shown for the document named by `uri`.
pub fn diagnose(error: &MacroError, uri: &str) -> (shown: Diagnostic)
    ensures
        shown@ == diagnosis(error@, uri@),
{
    let note = match error.kind() {
        ErrorKind::ResourceLoadingFailed | ErrorKind::UnsupportedProtocol => Some(
            String::from_str(
                "If you are using a remote resource an internet connection is required to compile",
            ),
        ),
        ErrorKind::InvalidInput => Some(
            String::from_str("Auto API supports OpenAPI versions 2.x and 3.0"),
        ),
        _ => None,
    };
    let help = match error.kind() {
        ErrorKind::InvalidInput => Some(
            String::from_str("Try opening ").concat(uri).concat(
                " in a web browser to verify it's responding with the correct documentation",
            ),
        ),
        ErrorKind::ConfigurationIncomplete => Some(String::from_str("Supply a base URL explicitly")),
        _ => None,
    };
    Diagnostic { subject: String::from_str(uri), message: error.message(), note, help }
}

} // verus!
