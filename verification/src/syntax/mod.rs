//! Syntax trees of documents, and the errors found in them.

pub mod context;
pub mod error;
pub mod node;
pub mod range;
pub mod walker;
