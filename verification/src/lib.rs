//! A linter for structlog log calls in Python source.
//!
//! The library models the parts of a Python module that the rules read,
//! finds the log calls in it, and checks each call against the rules
//! SL001 to SL009, with per-rule selection, severity overrides and
//! inline `# noqa` suppression.

pub mod text;
pub mod models;
pub mod ast;
pub mod ast_walker;
pub mod expr_helpers;
pub mod rules;
pub mod globs;
pub mod config;
pub mod noqa;
pub mod display;
pub mod analyzer;
pub mod runner;
pub mod python_types;
pub mod python;
