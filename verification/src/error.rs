//! Error kinds surfaced by the front end.
//!
//! Detection is local and aborts the whole call: there is no partial
//! result and no resynchronization.

use vstd::prelude::*;

verus! {

/// Failures of tokenization.
#[derive(Debug, Clone, Copy, PartialEq, Eq, Structural)]
pub enum LexError {
    /// The source text was empty.
    EmptyInput,
    /// A word survived every classification step; the internal
    /// unclassified sentinel would otherwise escape.
    UnclassifiableWord,
    /// The defensive cap on the emitted token count was exceeded.
    TooManyTokens,
}

/// Failures of parsing.
#[derive(Debug, Clone, Copy, PartialEq, Eq, Structural)]
pub enum ParseError {
    /// The token sequence was empty.
    EmptyInput,
    /// A function name was required but the next token was not an
    /// identifier.
    ExpectedIdentifier,
}

} // verus!
