//! A directive-driven text template compiler.
//!
//! Source text is scanned for bracket-delimited directives such as
//! `[var html title]` or `[require raw header.html]`; directives expand to
//! variable values or to the compiled contents of other files, with optional
//! HTML escaping, cycle detection on file recursion, and scope isolation of
//! variable assignments made inside nested files.
//!
//! The compiler works on an injected model of its surroundings: a [`context::Context`]
//! carries the file contents and the environment variables as plain string
//! maps, so that every step of compilation is deterministic and fully
//! specified. The intended meaning of compilation is written down as the
//! spec functions in [`semantics`], and each executable function is proved
//! to return exactly what those spec functions say.
//!
//! Deliberate choices where a design could go either way: the vocabulary has
//! one assignment directive (`set <name> <value>`, visible to the rest of the
//! same file and to nested files, never to enclosing files); an unrecognized
//! directive always fails (there is no lenient mode); end of input never
//! closes a directive; and inclusion nesting is bounded by an explicit depth
//! with its own error kind.

mod chars;
pub mod context;
pub mod engine;
pub mod error;
pub mod escape;
pub mod laws;
pub mod paths;
pub mod semantics;
pub mod strmap;
