//! The error vocabulary of the compiler.

use vstd::prelude::*;

verus! {

/// What went wrong during a compile. Every failure is terminal for the
/// top-level file whose compile raised it: no partial output is returned.
#[derive(Clone, Copy, Debug, PartialEq, Eq, Structural)]
pub enum ErrorKind {
    /// A file was missing or unreadable where one was required.
    IOError,
    /// A `require` target was already mid-compile (an inclusion cycle).
    CyclicInclude,
    /// A `let` lookup found nothing, in the variable store or the environment.
    MissingVariable,
    /// A `[` was opened with no unescaped `]` before the end of the input.
    UnterminatedDirective,
    /// A directive body that matches no known keyword and modifier.
    InvalidDirective,
    /// File recursion went deeper than the explicit depth guard allows.
    RecursionLimit,
}

/// A compile error: the kind that decides control flow, and a human-readable
/// detail string (the offending path, variable name or directive text).
/// Contracts speak only of the kind; the detail carries context for people.
#[derive(Debug)]
pub struct Error {
    pub kind: ErrorKind,
    pub detail: String,
}

impl Error {
    /// Builds an error of `kind` whose detail is `what` followed by `subject`.
    pub fn new(kind: ErrorKind, what: &str, subject: &str) -> (r: Error)
        ensures
            r.kind == kind,
    {
        let detail = String::from_str(what).concat(subject);
        Error { kind, detail }
    }

    /// The detail string, for display by unverified callers.
    pub fn message(&self) -> (r: &str)
        ensures
            r@ == self.detail@,
    {
        self.detail.as_str()
    }
}

} // verus!
