//! Fatal translation errors. The run aborts as soon as one is raised: an
//! incomplete or malformed instruction stream is worse than no output.

use vstd::prelude::*;

verus! {

/// The kind of a fatal translation error.
#[derive(Clone, Copy, Debug, PartialEq, Eq, Structural)]
pub enum ErrorKind {
    /// Unrecognized operator or segment name.
    SyntaxError,
    /// Missing or non-numeric operand where one is required.
    ArityError,
    /// Accessor invoked for a command kind that does not support it.
    ContextError,
}

/// A fatal translation error, carrying the offending source text.
#[derive(Clone, Debug, PartialEq, Eq)]
pub struct TranslateError {
    pub kind: ErrorKind,
    /// The offending command text; empty when no command was held.
    pub text: String,
}

/// Holds when `r` is an error of kind `kind` whose text reads `text`.
pub open spec fn err_is<T>(r: Result<T, TranslateError>, kind: ErrorKind, text: Seq<char>) -> bool {
    match r {
        Err(e) => e.kind == kind && e.text@ == text,
        Ok(_) => false,
    }
}

/// Holds when `r` carries a string reading `text`.
pub open spec fn ok_str_is(r: Result<String, TranslateError>, text: Seq<char>) -> bool {
    match r {
        Ok(s) => s@ == text,
        Err(_) => false,
    }
}

} // verus!
