//! What every generated client is built on.

pub mod base;
