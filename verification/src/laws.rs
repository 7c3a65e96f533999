//! General properties of the engine, stated over the specification
//! functions and proved once for all inputs.

use vstd::prelude::*;
use crate::digits::dec_str;
use crate::expand::{expand_marked, range_hi, range_size, repeat_subst};
use crate::marker::{has_marker, is_marker_at};
use crate::subst::{bare_at, splice_at, subst};
use crate::token::TokenV;

verus! {

/// Which windows of a sibling sequence match, and so how many tokens each
/// substituted copy holds, depends only on the loop variable and the
/// token shapes, never on the index.
pub proof fn lemma_subst_len_index_free(var: Seq<char>, i: u64, j: u64, ts: Seq<TokenV>)
    ensures
        subst(var, i, ts).len() == subst(var, j, ts).len(),
    decreases ts,
{
    if ts.len() == 0 {
    } else if splice_at(var, ts, 0) {
        lemma_subst_len_index_free(var, i, j, ts.subrange(3, ts.len() as int));
    } else {
        lemma_subst_len_index_free(var, i, j, ts.subrange(1, ts.len() as int));
    }
}

/// The repetition of a body over `lo..hi` holds exactly `hi - lo` copies,
/// each as long as any one substituted copy.
pub proof fn lemma_repeat_subst_len(var: Seq<char>, lo: int, hi: int, body: Seq<TokenV>, k: u64)
    requires
        0 <= lo,
    ensures
        repeat_subst(var, lo, hi, body).len() == (if lo <= hi {
            hi - lo
        } else {
            0
        }) * subst(var, k, body).len(),
    decreases hi - lo,
{
    let copy_len = subst(var, k, body).len() as int;
    if lo >= hi {
    } else {
        lemma_subst_len_index_free(var, lo as u64, k, body);
        lemma_repeat_subst_len(var, lo + 1, hi, body, k);
        assert(repeat_subst(var, lo, hi, body).len() == copy_len + repeat_subst(
            var,
            lo + 1,
            hi,
            body,
        ).len());
        assert(repeat_subst(var, lo + 1, hi, body).len() == (hi - lo - 1) * copy_len);
        assert((hi - lo) * copy_len == copy_len + (hi - lo - 1) * copy_len) by (nonlinear_arith);
        assert(repeat_subst(var, lo, hi, body).len() == (hi - lo) * copy_len);
        assert((hi - lo) * copy_len == (hi - lo) * subst(var, k, body).len());
    }
}

/// Range size, mode A: the number of repeated body copies equals
/// `end - start` for an exclusive range, `end - start + 1` for an
/// inclusive one, and `0` when an exclusive range has `start == end`; the
/// whole output is exactly that many substituted copies long.
pub proof fn lemma_mode_a_copy_count(
    var: Seq<char>,
    start: u64,
    end: u64,
    inclusive: bool,
    body: Seq<TokenV>,
)
    ensures
        repeat_subst(var, start as int, range_hi(end, inclusive), body).len() == range_size(
            start,
            end,
            inclusive,
        ) * subst(var, start, body).len(),
        !inclusive ==> range_size(start, end, inclusive) == if start <= end {
            (end - start) as nat
        } else {
            0nat
        },
        inclusive ==> range_size(start, end, inclusive) == if start <= end {
            (end - start + 1) as nat
        } else {
            0nat
        },
        start == end && !inclusive ==> range_size(start, end, inclusive) == 0,
{
    lemma_repeat_subst_len(var, start as int, range_hi(end, inclusive), body, start);
}

/// A sibling sequence with no marker anywhere still has none after its
/// first token is dropped.
proof fn lemma_no_marker_tail(ts: Seq<TokenV>)
    requires
        !has_marker(ts),
        ts.len() > 0,
    ensures
        !has_marker(ts.subrange(1, ts.len() as int)),
{
    let tail = ts.subrange(1, ts.len() as int);
    if has_marker(tail) {
        let i = choose|i: int|
            #![trigger tail[i]]
            0 <= i < tail.len() && (is_marker_at(tail, i) || (tail[i] is Group && has_marker(
                tail[i]->tokens,
            )));
        assert(tail[i] == ts[i + 1]);
        if is_marker_at(tail, i) {
            assert(tail[i + 1] == ts[i + 2] && tail[i + 2] == ts[i + 3]);
            assert(is_marker_at(ts, i + 1));
        }
        assert(has_marker(ts));
    }
}

/// Marked-region repetition touches only markers: a subtree that holds no
/// marker at any depth is reproduced exactly once, token for token, with
/// no substitution, whatever the range is.
pub proof fn lemma_no_marker_identity(var: Seq<char>, lo: int, hi: int, ts: Seq<TokenV>)
    requires
        !has_marker(ts),
    ensures
        expand_marked(var, lo, hi, ts) == ts,
    decreases ts,
{
    if ts.len() == 0 {
        assert(expand_marked(var, lo, hi, ts) =~= ts);
    } else {
        let tail = ts.subrange(1, ts.len() as int);
        assert(!is_marker_at(ts, 0));
        lemma_no_marker_tail(ts);
        lemma_no_marker_identity(var, lo, hi, tail);
        if ts[0] is Group {
            assert(!has_marker(ts[0]->tokens));
            lemma_no_marker_identity(var, lo, hi, ts[0]->tokens);
        }
        assert(expand_marked(var, lo, hi, ts) =~= ts);
    }
}

/// Non-overlap of matches: two adjacent identifiers both equal to the
/// loop variable are each replaced independently by the index literal;
/// they are never merged into a splice.
pub proof fn lemma_adjacent_bare_vars(var: Seq<char>, idx: u64)
    ensures
        subst(
            var,
            idx,
            seq![TokenV::Ident { text: var }, TokenV::Ident { text: var }],
        ) == seq![
            TokenV::Lit { text: dec_str(idx as nat), value: Some(idx) },
            TokenV::Lit { text: dec_str(idx as nat), value: Some(idx) },
        ],
{
    let ts = seq![TokenV::Ident { text: var }, TokenV::Ident { text: var }];
    let lit = TokenV::Lit { text: dec_str(idx as nat), value: Some(idx) };
    assert(!splice_at(var, ts, 0));
    assert(bare_at(var, ts, 0));
    let tail = ts.subrange(1, 2);
    assert(tail =~= seq![TokenV::Ident { text: var }]);
    assert(tail.subrange(1, 1) =~= Seq::<TokenV>::empty());
    assert(subst(var, idx, Seq::<TokenV>::empty()) =~= Seq::<TokenV>::empty());
    assert(subst(var, idx, tail) =~= seq![lit]);
    assert(subst(var, idx, ts) =~= seq![lit, lit]);
}

} // verus!
