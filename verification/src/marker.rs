//! The repetition-region detector: a recursive scan of a token tree for
//! the marker pattern `# ( ... ) *` at any nesting depth. Its boolean
//! result alone selects the expansion mode for a whole invocation.

use vstd::prelude::*;
use crate::token::{Delim, Token, TokenV, view_tokens, lemma_view_tokens};

verus! {

/// A marker is an exact three-token run in a sibling sequence: the
/// punctuation `#`, a parenthesized group, and the punctuation `*`.
pub open spec fn is_marker_at(ts: Seq<TokenV>, i: int) -> bool {
    &&& 0 <= i
    &&& i + 3 <= ts.len()
    &&& ts[i] matches TokenV::Punct { ch: pound, .. } && pound == '#'
    &&& ts[i + 1] matches TokenV::Group { delim, .. } && delim == Delim::Parenthesis
    &&& ts[i + 2] matches TokenV::Punct { ch: star, .. } && star == '*'
}

/// Whether a marker occurs anywhere in the tree: among the top-level
/// siblings, or inside any group at any depth.
pub open spec fn has_marker(ts: Seq<TokenV>) -> bool
    decreases ts,
{
    exists|i: int|
        #![trigger ts[i]]
        0 <= i < ts.len() && (is_marker_at(ts, i) || (ts[i] is Group && has_marker(
            ts[i]->tokens,
        )))
}

/// Scans `tokens` for the marker pattern `# ( ... ) *`, descending into
/// every group. The search order does not affect the result: the answer is
/// whether any marker exists anywhere in the tree.
pub fn contains_marker(tokens: &Vec<Token>) -> (found: bool)
    ensures
        found == has_marker(view_tokens(tokens@)),
    decreases tokens@,
{
    let ghost vt = view_tokens(tokens@);
    proof {
        lemma_view_tokens(tokens@);
    }
    let n = tokens.len();
    let mut i: usize = 0;
    while i < n
        invariant
            vt == view_tokens(tokens@),
            n == tokens@.len(),
            vt.len() == n,
            i <= n,
            forall|j: int|
                #![trigger vt[j]]
                0 <= j < i ==> !is_marker_at(vt, j) && !(vt[j] is Group && has_marker(
                    vt[j]->tokens,
                )),
        decreases n - i,
    {
        proof {
            lemma_view_tokens(tokens@);
        }
        if n - i > 2 {
            let is_pound = match &tokens[i] {
                Token::Punct { ch, .. } => *ch == '#',
                _ => false,
            };
            let is_paren = match &tokens[i + 1] {
                Token::Group { delim, .. } => *delim == Delim::Parenthesis,
                _ => false,
            };
            let is_star = match &tokens[i + 2] {
                Token::Punct { ch, .. } => *ch == '*',
                _ => false,
            };
            if is_pound && is_paren && is_star {
                proof {
                    assert(is_marker_at(vt, i as int));
                }
                return true;
            }
        }
        if let Token::Group { tokens: inner, .. } = &tokens[i] {
            if contains_marker(inner) {
                proof {
                    assert(vt[i as int] is Group && has_marker(vt[i as int]->tokens));
                }
                return true;
            }
        }
        proof {
            assert(!is_marker_at(vt, i as int));
            assert(!(vt[i as int] is Group && has_marker(vt[i as int]->tokens)));
        }
        i += 1;
    }
    false
}

} // verus!
