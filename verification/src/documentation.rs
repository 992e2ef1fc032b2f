//! The documentation that the generated module and its methods carry.

use crate::agnostic::operation::{OperationView, VersionAgnosticOperation};
use vstd::prelude::*;

verus! {

/// What a document says of itself.
#[derive(Debug, PartialEq)]
pub struct DocumentInfo {
    pub title: String,
    pub version: String,
    pub description: Option<String>,
    pub terms_of_service: Option<String>,
}

pub struct InfoView {
    pub title: Seq<char>,
    pub version: Seq<char>,
    pub description: Option<Seq<char>>,
    pub terms_of_service: Option<Seq<char>>,
}

impl View for DocumentInfo {
    type V = InfoView;

    open spec fn view(&self) -> InfoView {
        InfoView {
            title: self.title@,
            version: self.version@,
            description: crate::agnostic::operation::optional_view(self.description),
            terms_of_service: crate::agnostic::operation::optional_view(self.terms_of_service),
        }
    }
}

/// A paragraph: the text with an empty line after it, or nothing where
/// there is no text.
pub open spec fn paragraph(text: Option<Seq<char>>) -> Seq<char> {
    match text {
        Some(text) => text + "\n\n"@,
        None => Seq::empty(),
    }
}

/// The link to the terms of service, where the document names them.
pub open spec fn terms_link(terms: Option<Seq<char>>) -> Seq<char> {
    match terms {
        Some(terms) => "**[Terms of Service]("@ + terms + ")**"@,
        None => Seq::empty(),
    }
}

/// The note that a deprecated operation carries.
pub open spec fn deprecation_note(deprecated: bool) -> Seq<char> {
    if deprecated {
        "**This operation is deprecated**"@
    } else {
        Seq::empty()
    }
}

/// The documentation of the module: a heading with the title and the
/// version, then the description, then a link to the terms of service, each
/// where the document has it.
pub open spec fn module_docs(info: InfoView) -> Seq<char> {
    "# "@ + info.title + " (Version "@ + info.version + ")"@ + "\n\n"@ + paragraph(
        info.description,
    ) + terms_link(info.terms_of_service)
}

/// The documentation of an operation: its summary, its description, and a
/// note where it is deprecated.
pub open spec fn operation_docs(operation: OperationView) -> Seq<char> {
    paragraph(operation.summary) + paragraph(operation.description) + deprecation_note(
        operation.deprecated,
    )
}

pub fn generate_api_module_docs(api_info: &DocumentInfo) -> (result: String)
    ensures
        result@ == module_docs(api_info@),
{
    let mut result = String::new();

    // Adding on the title & version
    result.append("# ");
    result.append(api_info.title.as_str());
    result.append(" (Version ");
    result.append(api_info.version.as_str());
    result.append(")");
    result.append("\n\n");

    // Adding on the description, if available
    if let Some(description) = &api_info.description {
        result.append(description.as_str());
        result.append("\n\n");
    }

    // Adding the terms of service, if available
    if let Some(terms_of_service) = &api_info.terms_of_service {
        result.append("**[Terms of Service](");
        result.append(terms_of_service.as_str());
        result.append(")**");
    }

    result
}

pub fn generate_api_operation_docs(operation: &VersionAgnosticOperation) -> (result: String)
    ensures
        result@ == operation_docs(operation@),
{
    let mut result = String::new();

    // Adding on the summary
    if let Some(summary) = &operation.summary {
        result.append(summary.as_str());
        result.append("\n\n");
    }

    // Adding on the description
    if let Some(description) = &operation.description {
        result.append(description.as_str());
        result.append("\n\n");
    }

    // Adding info if the function is deprecated
    if operation.deprecated {
        result.append("**This operation is deprecated**");
    }

    result
}

} // verus!
