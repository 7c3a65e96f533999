//! The expansion driver: selects one of the two expansion modes for a
//! whole invocation and assembles the output tree.
//!
//! Mode A (no marker in the body): the whole body is substituted once per
//! index in the range, ascending, and the results are concatenated.
//! Mode B (a marker somewhere in the body): a single recursive pass copies
//! the body; each marker window `# ( ... ) *` is replaced in place by an
//! invisible group holding the concatenated substitutions of its interior,
//! and no substitution happens outside marker regions.

use vstd::prelude::*;
use crate::marker::{has_marker, is_marker_at, contains_marker};
use crate::subst::{subst, substitute};
use crate::token::{
    Delim, Token, TokenV, view_tokens, lemma_view_tokens, lemma_view_tokens_push,
    lemma_view_tokens_concat,
};

verus! {

/// One invocation of the generator: the loop variable, the range bounds,
/// whether the end is inclusive, and the unparsed body. Constructed by the
/// header parser, consumed by the expansion driver.
#[derive(Debug)]
pub struct Invocation {
    pub loop_var: String,
    pub start: u64,
    pub end: u64,
    pub inclusive: bool,
    pub body: Vec<Token>,
}

/// The mathematical view of an invocation.
pub struct InvocationV {
    pub loop_var: Seq<char>,
    pub start: u64,
    pub end: u64,
    pub inclusive: bool,
    pub body: Seq<TokenV>,
}

impl View for Invocation {
    type V = InvocationV;

    open spec fn view(&self) -> InvocationV {
        InvocationV {
            loop_var: self.loop_var@,
            start: self.start,
            end: self.end,
            inclusive: self.inclusive,
            body: view_tokens(self.body@),
        }
    }
}

/// One past the last index of the range: `end` itself when the range is
/// half-open, `end + 1` when it is inclusive.
pub open spec fn range_hi(end: u64, inclusive: bool) -> int {
    if inclusive {
        end + 1
    } else {
        end as int
    }
}

/// The number of indices in the range.
pub open spec fn range_size(start: u64, end: u64, inclusive: bool) -> nat {
    if start as int <= range_hi(end, inclusive) {
        (range_hi(end, inclusive) - start) as nat
    } else {
        0
    }
}

/// The concatenation, for each index from `lo` (inclusive) to `hi`
/// (exclusive) in ascending order, of the body substituted at that index.
pub open spec fn repeat_subst(var: Seq<char>, lo: int, hi: int, body: Seq<TokenV>) -> Seq<TokenV>
    decreases hi - lo,
{
    if lo >= hi {
        Seq::empty()
    } else {
        subst(var, lo as u64, body) + repeat_subst(var, lo + 1, hi, body)
    }
}

/// The marked-region rewriting of one sibling sequence: each marker window
/// is replaced by one invisible group holding the repeated substitutions
/// of its interior; groups are searched recursively for their own markers;
/// every other token is kept exactly once, unsubstituted.
pub open spec fn expand_marked(var: Seq<char>, lo: int, hi: int, ts: Seq<TokenV>) -> Seq<TokenV>
    decreases ts,
{
    if ts.len() == 0 {
        Seq::empty()
    } else if is_marker_at(ts, 0) {
        seq![TokenV::Group { delim: Delim::Invisible, tokens: repeat_subst(var, lo, hi, ts[1]->tokens) }]
            + expand_marked(var, lo, hi, ts.subrange(3, ts.len() as int))
    } else if ts[0] is Group {
        seq![TokenV::Group { delim: ts[0]->delim, tokens: expand_marked(var, lo, hi, ts[0]->tokens) }]
            + expand_marked(var, lo, hi, ts.subrange(1, ts.len() as int))
    } else {
        seq![ts[0]] + expand_marked(var, lo, hi, ts.subrange(1, ts.len() as int))
    }
}

/// The output of one invocation: whole-body repetition when the body holds
/// no marker, marked-region repetition otherwise. The detector's boolean
/// result alone decides the mode; the two are mutually exclusive.
pub open spec fn expansion(inv: InvocationV) -> Seq<TokenV> {
    let hi = range_hi(inv.end, inv.inclusive);
    if has_marker(inv.body) {
        expand_marked(inv.loop_var, inv.start as int, hi, inv.body)
    } else {
        repeat_subst(inv.loop_var, inv.start as int, hi, inv.body)
    }
}

/// Extending the repetition by one index appends one more substitution.
pub proof fn lemma_repeat_subst_snoc(var: Seq<char>, lo: int, mid: int, body: Seq<TokenV>)
    requires
        lo <= mid,
    ensures
        repeat_subst(var, lo, mid + 1, body) == repeat_subst(var, lo, mid, body) + subst(
            var,
            mid as u64,
            body,
        ),
    decreases mid - lo,
{
    if lo == mid {
        assert(repeat_subst(var, mid + 1, mid + 1, body) =~= Seq::<TokenV>::empty());
        assert(repeat_subst(var, lo, mid, body) =~= Seq::<TokenV>::empty());
        assert(repeat_subst(var, lo, mid + 1, body) =~= repeat_subst(var, lo, mid, body) + subst(
            var,
            mid as u64,
            body,
        ));
    } else {
        lemma_repeat_subst_snoc(var, lo + 1, mid, body);
        assert(repeat_subst(var, lo, mid + 1, body) =~= repeat_subst(var, lo, mid, body) + subst(
            var,
            mid as u64,
            body,
        ));
    }
}

/// For each index in the range, ascending, substitutes the body at that
/// index and concatenates the results into one flat sequence.
pub fn repeat_substitute(var: &String, start: u64, end: u64, inclusive: bool, body: &Vec<Token>)
    -> (out: Vec<Token>)
    ensures
        view_tokens(out@) == repeat_subst(
            var@,
            start as int,
            range_hi(end, inclusive),
            view_tokens(body@),
        ),
{
    let ghost bv = view_tokens(body@);
    let ghost hi = range_hi(end, inclusive);
    let mut out: Vec<Token> = Vec::new();
    let mut idx = start;
    proof {
        assert(view_tokens(out@) =~= repeat_subst(var@, start as int, start as int, bv));
    }
    loop
        invariant_except_break
            start <= idx,
            idx as int <= hi || idx == start,
            hi == range_hi(end, inclusive),
            bv == view_tokens(body@),
            view_tokens(out@) == repeat_subst(var@, start as int, idx as int, bv),
        ensures
            view_tokens(out@) == repeat_subst(var@, start as int, hi, bv),
        decreases hi - idx,
    {
        let go = if inclusive {
            idx <= end
        } else {
            idx < end
        };
        if !go {
            proof {
                assert(repeat_subst(var@, start as int, idx as int, bv) == repeat_subst(
                    var@,
                    start as int,
                    hi,
                    bv,
                ));
            }
            break;
        }
        let mut piece = substitute(var, idx, body);
        proof {
            lemma_view_tokens_concat(out@, piece@);
            lemma_repeat_subst_snoc(var@, start as int, idx as int, bv);
        }
        out.append(&mut piece);
        if inclusive && idx == end {
            break;
        }
        idx += 1;
    }
    out
}

/// The marked-region pass: copies `tokens`, replacing each marker window
/// `# ( ... ) *` by one invisible group that holds the repeated
/// substitutions of the marker's interior, and descending into every other
/// group to expand its own markers. Tokens outside markers are not
/// substituted.
pub fn repeat_sections(var: &String, start: u64, end: u64, inclusive: bool, tokens: &Vec<Token>)
    -> (out: Vec<Token>)
    ensures
        view_tokens(out@) == expand_marked(
            var@,
            start as int,
            range_hi(end, inclusive),
            view_tokens(tokens@),
        ),
    decreases tokens@,
{
    let ghost vt = view_tokens(tokens@);
    let ghost hi = range_hi(end, inclusive);
    proof {
        lemma_view_tokens(tokens@);
    }
    let n = tokens.len();
    let mut out: Vec<Token> = Vec::new();
    let mut i: usize = 0;
    proof {
        assert(vt.subrange(0, n as int) =~= vt);
        assert(view_tokens(out@) + expand_marked(var@, start as int, hi, vt) =~= expand_marked(
            var@,
            start as int,
            hi,
            vt,
        ));
    }
    while i < n
        invariant
            vt == view_tokens(tokens@),
            n == tokens@.len(),
            vt.len() == n,
            i <= n,
            hi == range_hi(end, inclusive),
            expand_marked(var@, start as int, hi, vt) == view_tokens(out@) + expand_marked(
                var@,
                start as int,
                hi,
                vt.subrange(i as int, n as int),
            ),
        decreases n - i,
    {
        proof {
            lemma_view_tokens(tokens@);
        }
        let ghost rest = vt.subrange(i as int, n as int);
        let ghost out0 = out@;
        let is_marker = n - i > 2 && tokens[i].is_punct_char('#') && tokens[i + 1].is_group_delim(
            Delim::Parenthesis,
        ) && tokens[i + 2].is_punct_char('*');
        if is_marker {
            let inner = tokens[i + 1].group_tokens();
            let rep = repeat_substitute(var, start, end, inclusive, inner);
            out.push(Token::Group { delim: Delim::Invisible, tokens: rep });
            proof {
                assert(is_marker_at(rest, 0));
                assert(rest.subrange(3, rest.len() as int) =~= vt.subrange(i + 3, n as int));
                lemma_view_tokens_push(out0, out@[out0.len() as int]);
                assert(view_tokens(out@) + expand_marked(
                    var@,
                    start as int,
                    hi,
                    vt.subrange(i + 3, n as int),
                ) =~= view_tokens(out0) + expand_marked(var@, start as int, hi, rest));
            }
            i += 3;
        } else if let Token::Group { delim, tokens: inner } = &tokens[i] {
            let sub = repeat_sections(var, start, end, inclusive, inner);
            out.push(Token::Group { delim: *delim, tokens: sub });
            proof {
                assert(!is_marker_at(rest, 0));
                assert(rest[0] is Group);
                assert(rest.subrange(1, rest.len() as int) =~= vt.subrange(i + 1, n as int));
                lemma_view_tokens_push(out0, out@[out0.len() as int]);
                assert(view_tokens(out@) + expand_marked(
                    var@,
                    start as int,
                    hi,
                    vt.subrange(i + 1, n as int),
                ) =~= view_tokens(out0) + expand_marked(var@, start as int, hi, rest));
            }
            i += 1;
        } else {
            out.push(tokens[i].dup());
            proof {
                assert(!is_marker_at(rest, 0));
                assert(!(rest[0] is Group));
                assert(rest.subrange(1, rest.len() as int) =~= vt.subrange(i + 1, n as int));
                lemma_view_tokens_push(out0, out@[out0.len() as int]);
                assert(view_tokens(out@) + expand_marked(
                    var@,
                    start as int,
                    hi,
                    vt.subrange(i + 1, n as int),
                ) =~= view_tokens(out0) + expand_marked(var@, start as int, hi, rest));
            }
            i += 1;
        }
    }
    proof {
        assert(vt.subrange(n as int, n as int) =~= Seq::<TokenV>::empty());
        assert(view_tokens(out@) + expand_marked(
            var@,
            start as int,
            hi,
            vt.subrange(n as int, n as int),
        ) =~= view_tokens(out@));
    }
    out
}

/// Expands one invocation: detects whether the body holds a marker and
/// runs the matching mode over the whole range. The driver itself cannot
/// fail; all validation happens in the header parser.
pub fn expand(inv: &Invocation) -> (out: Vec<Token>)
    ensures
        view_tokens(out@) == expansion(inv@),
{
    if contains_marker(&inv.body) {
        repeat_sections(&inv.loop_var, inv.start, inv.end, inv.inclusive, &inv.body)
    } else {
        repeat_substitute(&inv.loop_var, inv.start, inv.end, inv.inclusive, &inv.body)
    }
}

} // verus!
