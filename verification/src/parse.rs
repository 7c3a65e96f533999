//! The header parser: turns the raw token sequence of an invocation site
//! into an [`Invocation`], or reports a single error tied to the offending
//! token's position.
//!
//! The grammar, in order: one identifier (the loop variable), the keyword
//! `in`, an unsigned integer literal, either `..` (exclusive) or `..=`
//! (inclusive), an unsigned integer literal, and one brace-delimited group
//! whose interior becomes the body. Nothing may follow the group.

use vstd::prelude::*;
use vstd::string::StrSliceExecFns;
use crate::digits::{all_dec_digits, is_dec_digit};
use crate::expand::{Invocation, InvocationV};
use crate::token::{Delim, Spacing, Token, TokenV, dup_tokens, view_tokens, lemma_view_tokens};

verus! {

/// What went wrong with an invocation.
#[derive(Clone, Copy, PartialEq, Eq, Structural, Debug)]
pub enum ErrorKind {
    /// The header does not match the invocation grammar.
    Syntax,
    /// A range bound is a decimal integer too large for the supported
    /// width.
    IntegerRange,
}

/// A fatal expansion error: no output is produced. `pos` is the index of
/// the offending token in the invocation's top-level token sequence (its
/// length, when the input ends too early).
#[derive(Clone, Copy, PartialEq, Eq, Structural, Debug)]
pub struct ExpandError {
    pub kind: ErrorKind,
    pub pos: usize,
}

/// The error for a token standing where a range bound is expected: a
/// decimal integer literal whose value is missing is out of range; any
/// other token is a syntax error.
pub open spec fn bound_err(t: TokenV, pos: usize) -> ExpandError {
    if t matches TokenV::Lit { text, value } && value is None && all_dec_digits(text) {
        ExpandError { kind: ErrorKind::IntegerRange, pos }
    } else {
        ExpandError { kind: ErrorKind::Syntax, pos }
    }
}

/// The rest of the header after the range dots: the end bound at position
/// `p`, a brace-delimited body at `p + 1`, and nothing after it.
pub open spec fn parse_tail(
    ts: Seq<TokenV>,
    p: int,
    loop_var: Seq<char>,
    start: u64,
    inclusive: bool,
) -> Result<InvocationV, ExpandError> {
    if !(ts.len() > p && ts[p] is Lit) {
        Err(ExpandError { kind: ErrorKind::Syntax, pos: p as usize })
    } else if ts[p]->value is None {
        Err(bound_err(ts[p], p as usize))
    } else if !(ts.len() > p + 1 && (ts[p + 1] matches TokenV::Group { delim, .. } && delim
        == Delim::Brace)) {
        Err(ExpandError { kind: ErrorKind::Syntax, pos: (p + 1) as usize })
    } else if ts.len() != p + 2 {
        Err(ExpandError { kind: ErrorKind::Syntax, pos: (p + 2) as usize })
    } else {
        Ok(
            InvocationV {
                loop_var,
                start,
                end: ts[p]->value->0,
                inclusive,
                body: ts[p + 1]->tokens,
            },
        )
    }
}

/// The header grammar as a function of the invocation's token sequence:
/// either the parsed invocation, or the single error that the parser
/// reports for it.
pub open spec fn parse_spec(ts: Seq<TokenV>) -> Result<InvocationV, ExpandError> {
    if !(ts.len() > 0 && ts[0] is Ident) {
        Err(ExpandError { kind: ErrorKind::Syntax, pos: 0 })
    } else if !(ts.len() > 1 && (ts[1] matches TokenV::Ident { text } && text == "in"@)) {
        Err(ExpandError { kind: ErrorKind::Syntax, pos: 1 })
    } else if !(ts.len() > 2 && ts[2] is Lit) {
        Err(ExpandError { kind: ErrorKind::Syntax, pos: 2 })
    } else if ts[2]->value is None {
        Err(bound_err(ts[2], 2))
    } else if !(ts.len() > 3 && (ts[3] matches TokenV::Punct { ch, spacing } && ch == '.'
        && spacing == Spacing::Joint)) {
        Err(ExpandError { kind: ErrorKind::Syntax, pos: 3 })
    } else if !(ts.len() > 4 && (ts[4] matches TokenV::Punct { ch, .. } && ch == '.')) {
        Err(ExpandError { kind: ErrorKind::Syntax, pos: 4 })
    } else if ts[4]->spacing == Spacing::Joint {
        if !(ts.len() > 5 && (ts[5] matches TokenV::Punct { ch, .. } && ch == '=')) {
            Err(ExpandError { kind: ErrorKind::Syntax, pos: 5 })
        } else {
            parse_tail(ts, 6, ts[0]->Ident_text, ts[2]->value->0, true)
        }
    } else {
        parse_tail(ts, 5, ts[0]->Ident_text, ts[2]->value->0, false)
    }
}

/// Whether every character of `s` is a decimal digit, and `s` is not
/// empty.
fn is_all_digits(s: &String) -> (r: bool)
    ensures
        r == all_dec_digits(s@),
{
    let st = s.as_str();
    let m = st.unicode_len();
    if m == 0 {
        return false;
    }
    let mut i: usize = 0;
    while i < m
        invariant
            m == st@.len(),
            st@ == s@,
            i <= m,
            forall|j: int| 0 <= j < i ==> is_dec_digit(#[trigger] s@[j]),
        decreases m - i,
    {
        let c = st.get_char(i);
        let u = c as u32;
        if !(48 <= u && u <= 57) {
            return false;
        }
        i += 1;
    }
    true
}

/// Reads a range bound: the numeric value of an unsigned integer literal.
fn read_bound(t: &Token, pos: usize) -> (r: Result<u64, ExpandError>)
    ensures
        match r {
            Ok(v) => t@ matches TokenV::Lit { value, .. } && value == Some(v),
            Err(e) => (!(t@ is Lit) || t@->value is None) && e == bound_err(t@, pos),
        },
{
    match t {
        Token::Lit { value: Some(v), .. } => Ok(*v),
        Token::Lit { text, value: None } => {
            if is_all_digits(text) {
                Err(ExpandError { kind: ErrorKind::IntegerRange, pos })
            } else {
                Err(ExpandError { kind: ErrorKind::Syntax, pos })
            }
        },
        _ => Err(ExpandError { kind: ErrorKind::Syntax, pos }),
    }
}

/// Parses the invocation header `<var> in <start> ..[=] <end> { <body> }`
/// from the raw token sequence. On any deviation from the grammar it
/// returns the single error that [`parse_spec`] assigns to the input, and
/// no output is ever produced from a failed parse.
pub fn parse_invocation(tokens: &Vec<Token>) -> (r: Result<Invocation, ExpandError>)
    ensures
        match r {
            Ok(inv) => parse_spec(view_tokens(tokens@)) == Ok::<InvocationV, ExpandError>(inv@),
            Err(e) => parse_spec(view_tokens(tokens@)) == Err::<InvocationV, ExpandError>(e),
        },
{
    let ghost vt = view_tokens(tokens@);
    proof {
        lemma_view_tokens(tokens@);
    }
    let n = tokens.len();
    if !(n > 0 && tokens[0].is_ident()) {
        return Err(ExpandError { kind: ErrorKind::Syntax, pos: 0 });
    }
    let kw = "in".to_owned();
    if !(n > 1 && tokens[1].ident_matches(&kw)) {
        return Err(ExpandError { kind: ErrorKind::Syntax, pos: 1 });
    }
    if !(n > 2) {
        return Err(ExpandError { kind: ErrorKind::Syntax, pos: 2 });
    }
    let start = match read_bound(&tokens[2], 2) {
        Ok(v) => v,
        Err(e) => {
            return Err(e);
        },
    };
    if !(n > 3 && tokens[3].is_punct('.', Spacing::Joint)) {
        return Err(ExpandError { kind: ErrorKind::Syntax, pos: 3 });
    }
    if !(n > 4 && tokens[4].is_punct_char('.')) {
        return Err(ExpandError { kind: ErrorKind::Syntax, pos: 4 });
    }
    let inclusive = tokens[4].is_punct('.', Spacing::Joint);
    let p: usize = if inclusive {
        if !(n > 5 && tokens[5].is_punct_char('=')) {
            return Err(ExpandError { kind: ErrorKind::Syntax, pos: 5 });
        }
        6
    } else {
        5
    };
    if !(n > p) {
        return Err(ExpandError { kind: ErrorKind::Syntax, pos: p });
    }
    let end = match read_bound(&tokens[p], p) {
        Ok(v) => v,
        Err(e) => {
            return Err(e);
        },
    };
    if !(n > p + 1 && tokens[p + 1].is_group_delim(Delim::Brace)) {
        return Err(ExpandError { kind: ErrorKind::Syntax, pos: p + 1 });
    }
    if n != p + 2 {
        return Err(ExpandError { kind: ErrorKind::Syntax, pos: p + 2 });
    }
    let loop_var = tokens[0].ident_text().clone();
    let body = dup_tokens(tokens[p + 1].group_tokens());
    Ok(Invocation { loop_var, start, end, inclusive, body })
}

} // verus!
