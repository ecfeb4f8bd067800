//! A configurable style-checking engine.
//!
//! Given a set of source files selected by glob patterns, the engine
//! applies three line-level checks — maximum line length, forbidden
//! content patterns, and indentation style — and reports every violation
//! with file, position and message.
//!
//! The engine itself performs no I/O: the caller loads the configuration,
//! walks the filesystem, and reads file contents; the library selects the
//! files, runs the checks, and returns the full error list in a fixed,
//! deterministic order.

pub mod check;
pub mod config;
pub mod globs;
pub mod regexes;
pub mod text;
