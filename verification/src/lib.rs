//! Verified core of a language server for easl, a Lisp-like shader language.

pub mod pattern;
pub mod tokens;
pub mod encoding;
pub mod hover;
pub mod store;
pub mod position;
pub mod diagnostics;
pub mod commands;
