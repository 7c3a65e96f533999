//! A source-to-source code generator over token trees.
//!
//! Given a header naming a loop variable and a bounded integer range,
//! and a templated block of tokens, the engine expands the block once per
//! index in the range. Inside the block, occurrences of the loop variable
//! are replaced by the index, `prefix~var` splices the index onto an
//! identifier, and `#( ... )*` marks a sub-region to repeat in place.

use vstd::prelude::*;

pub mod digits;
pub mod expand;
pub mod laws;
pub mod marker;
pub mod parse;
pub mod subst;
pub mod token;

use crate::expand::{InvocationV, expand, expansion};
use crate::parse::{ExpandError, parse_invocation, parse_spec};
use crate::token::{Token, view_tokens};

verus! {

/// Runs one invocation end to end: parses the header and expands the
/// body. A failed parse is fatal: the single error is returned and no
/// output tokens are produced.
pub fn expand_tokens(tokens: &Vec<Token>) -> (r: Result<Vec<Token>, ExpandError>)
    ensures
        match r {
            Ok(out) => (parse_spec(view_tokens(tokens@)) matches Ok(inv) && view_tokens(out@)
                == expansion(inv)),
            Err(e) => parse_spec(view_tokens(tokens@)) == Err::<InvocationV, ExpandError>(e),
        },
{
    match parse_invocation(tokens) {
        Ok(inv) => Ok(expand(&inv)),
        Err(e) => Err(e),
    }
}

} // verus!
