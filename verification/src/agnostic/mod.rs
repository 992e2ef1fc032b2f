//! One model for the documents of both grammars, 2.x and 3.0.

pub mod document;
pub mod form;
pub mod operation;
