//! Verified core of a language server for the WebAssembly text formats.

pub mod document;
pub mod error;
pub mod language;
pub mod text;
pub mod lsp;
pub mod util;
pub mod syntax;
pub mod elaborator;
pub mod auditor;
pub mod xtask;
pub mod analyzer;
pub mod database;
pub mod synchronizer;
pub mod placement;
pub mod rules;
