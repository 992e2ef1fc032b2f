//! Front end of a client generator for OpenAPI documents: it resolves
//! in-document references, brings the 2.x and 3.0 grammars into one model of
//! operations and schemas, turns schemas into a deduplicated set of type
//! declarations, and derives the identifiers under which they are emitted.
//!
//! Everything here is a pure function of the document text; reading the
//! document and emitting the declarations is left to the caller.

pub mod error;
pub mod text;
pub mod utils;
pub mod client;
pub mod path;
pub mod petstore;
pub mod document;
pub mod reference;
pub mod model;
pub mod builder;

pub mod agnostic;
pub mod documentation;
pub mod operation;
pub mod assembly;
