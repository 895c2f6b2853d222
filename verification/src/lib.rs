//! Lexical and early syntactic front end of a small statically typed
//! language: source text is turned into a flat, spanned token stream,
//! and the token stream is folded into a linear sequence of AST nodes
//! delimited by explicit start and end markers.

pub mod ast;
pub mod error;
pub mod lex;
pub mod parse;
pub mod token;

use vstd::prelude::*;

use crate::error::LexError;

verus! {

/// Development entry point; no collaborator is wired up to the front
/// end yet.
pub fn dev() -> (r: Result<(), LexError>)
    ensures
        r is Ok,
{
    Ok(())
}

} // verus!
