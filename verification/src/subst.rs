//! The substitution engine: a single left-to-right pass over each sibling
//! sequence with a three-token lookahead window, rewriting occurrences of
//! the loop variable for one concrete index.
//!
//! At each position, in order of priority: the splice pattern
//! `ident ~ var` becomes one identifier with the decimal index appended;
//! a lone identifier equal to the loop variable becomes a numeric literal;
//! a group is rewritten recursively; anything else passes through
//! unchanged. Matched windows are consumed whole, so matches never
//! overlap.

use vstd::prelude::*;
use vstd::string::StringExecFns;
use crate::digits::{dec_str, dec_string};
use crate::token::{Token, TokenV, view_tokens, lemma_view_tokens, lemma_view_tokens_push};

verus! {

/// The splice pattern at position `i`: an identifier, the punctuation `~`,
/// and an identifier equal to the loop variable.
pub open spec fn splice_at(var: Seq<char>, ts: Seq<TokenV>, i: int) -> bool {
    &&& 0 <= i
    &&& i + 3 <= ts.len()
    &&& ts[i] is Ident
    &&& ts[i + 1] matches TokenV::Punct { ch, .. } && ch == '~'
    &&& ts[i + 2] matches TokenV::Ident { text } && text == var
}

/// The bare-variable pattern at position `i`: an identifier equal to the
/// loop variable.
pub open spec fn bare_at(var: Seq<char>, ts: Seq<TokenV>, i: int) -> bool {
    &&& 0 <= i < ts.len()
    &&& ts[i] matches TokenV::Ident { text } && text == var
}

/// The rewriting of one sibling sequence for loop variable `var` at index
/// `idx`. The splice pattern takes priority over the bare-variable pattern
/// at a given position; a matched window is consumed whole.
pub open spec fn subst(var: Seq<char>, idx: u64, ts: Seq<TokenV>) -> Seq<TokenV>
    decreases ts,
{
    if ts.len() == 0 {
        Seq::empty()
    } else if splice_at(var, ts, 0) {
        seq![TokenV::Ident { text: ts[0]->Ident_text + dec_str(idx as nat) }] + subst(
            var,
            idx,
            ts.subrange(3, ts.len() as int),
        )
    } else if bare_at(var, ts, 0) {
        seq![TokenV::Lit { text: dec_str(idx as nat), value: Some(idx) }] + subst(
            var,
            idx,
            ts.subrange(1, ts.len() as int),
        )
    } else if ts[0] is Group {
        seq![TokenV::Group { delim: ts[0]->delim, tokens: subst(var, idx, ts[0]->tokens) }]
            + subst(var, idx, ts.subrange(1, ts.len() as int))
    } else {
        seq![ts[0]] + subst(var, idx, ts.subrange(1, ts.len() as int))
    }
}

/// Rewrites `tokens` for loop variable `var` at index `idx`, producing a
/// fresh tree; the input is left untouched.
pub fn substitute(var: &String, idx: u64, tokens: &Vec<Token>) -> (out: Vec<Token>)
    ensures
        view_tokens(out@) == subst(var@, idx, view_tokens(tokens@)),
    decreases tokens@,
{
    let ghost vt = view_tokens(tokens@);
    proof {
        lemma_view_tokens(tokens@);
    }
    let n = tokens.len();
    let mut out: Vec<Token> = Vec::new();
    let mut i: usize = 0;
    proof {
        assert(vt.subrange(0, n as int) =~= vt);
        assert(view_tokens(out@) + subst(var@, idx, vt) =~= subst(var@, idx, vt));
    }
    while i < n
        invariant
            vt == view_tokens(tokens@),
            n == tokens@.len(),
            vt.len() == n,
            i <= n,
            subst(var@, idx, vt) == view_tokens(out@) + subst(
                var@,
                idx,
                vt.subrange(i as int, n as int),
            ),
        decreases n - i,
    {
        proof {
            lemma_view_tokens(tokens@);
        }
        let ghost rest = vt.subrange(i as int, n as int);
        let ghost out0 = out@;
        let is_splice = n - i > 2 && tokens[i].is_ident() && tokens[i + 1].is_punct_char('~')
            && tokens[i + 2].ident_matches(var);
        if is_splice {
            let mut text = tokens[i].ident_text().clone();
            let d = dec_string(idx);
            text.append(d.as_str());
            out.push(Token::Ident { text });
            proof {
                assert(splice_at(var@, rest, 0));
                assert(rest.subrange(3, rest.len() as int) =~= vt.subrange(
                    i + 3,
                    n as int,
                ));
                lemma_view_tokens_push(out0, out@[out0.len() as int]);
                assert(view_tokens(out@) + subst(var@, idx, vt.subrange(i + 3, n as int))
                    =~= view_tokens(out0) + subst(var@, idx, rest));
            }
            i += 3;
        } else if tokens[i].ident_matches(var) {
            out.push(Token::Lit { text: dec_string(idx), value: Some(idx) });
            proof {
                assert(!splice_at(var@, rest, 0));
                assert(bare_at(var@, rest, 0));
                assert(rest.subrange(1, rest.len() as int) =~= vt.subrange(
                    i + 1,
                    n as int,
                ));
                lemma_view_tokens_push(out0, out@[out0.len() as int]);
                assert(view_tokens(out@) + subst(var@, idx, vt.subrange(i + 1, n as int))
                    =~= view_tokens(out0) + subst(var@, idx, rest));
            }
            i += 1;
        } else if let Token::Group { delim, tokens: inner } = &tokens[i] {
            let sub = substitute(var, idx, inner);
            out.push(Token::Group { delim: *delim, tokens: sub });
            proof {
                assert(!splice_at(var@, rest, 0));
                assert(!bare_at(var@, rest, 0));
                assert(rest[0] is Group);
                assert(rest.subrange(1, rest.len() as int) =~= vt.subrange(
                    i + 1,
                    n as int,
                ));
                lemma_view_tokens_push(out0, out@[out0.len() as int]);
                assert(view_tokens(out@) + subst(var@, idx, vt.subrange(i + 1, n as int))
                    =~= view_tokens(out0) + subst(var@, idx, rest));
            }
            i += 1;
        } else {
            out.push(tokens[i].dup());
            proof {
                assert(!splice_at(var@, rest, 0));
                assert(!bare_at(var@, rest, 0));
                assert(!(rest[0] is Group));
                assert(rest.subrange(1, rest.len() as int) =~= vt.subrange(
                    i + 1,
                    n as int,
                ));
                lemma_view_tokens_push(out0, out@[out0.len() as int]);
                assert(view_tokens(out@) + subst(var@, idx, vt.subrange(i + 1, n as int))
                    =~= view_tokens(out0) + subst(var@, idx, rest));
            }
            i += 1;
        }
    }
    proof {
        assert(vt.subrange(n as int, n as int) =~= Seq::<TokenV>::empty());
        assert(view_tokens(out@) + subst(var@, idx, vt.subrange(n as int, n as int))
            =~= view_tokens(out@));
    }
    out
}

} // verus!
