use seq_expand::expand_tokens;
use seq_expand::marker::contains_marker;
use seq_expand::subst::substitute;
use seq_expand::token::{Delim, Spacing, Token, tokens_equal};

fn ident(s: &str) -> Token {
    Token::Ident { text: s.to_string() }
}

fn lit_num(n: u64) -> Token {
    Token::Lit { text: n.to_string(), value: Some(n) }
}

fn punct(c: char) -> Token {
    Token::Punct { ch: c, spacing: Spacing::Alone }
}

fn punct_joint(c: char) -> Token {
    Token::Punct { ch: c, spacing: Spacing::Joint }
}

fn group(delim: Delim, tokens: Vec<Token>) -> Token {
    Token::Group { delim, tokens }
}

/// `<var> in <start>..<end> { body }`, or `..=` when `inclusive`.
fn header(var: &str, start: u64, end: u64, inclusive: bool, body: Vec<Token>) -> Vec<Token> {
    let mut v = vec![ident(var), ident("in"), lit_num(start), punct_joint('.')];
    if inclusive {
        v.push(punct_joint('.'));
        v.push(punct('='));
    } else {
        v.push(punct('.'));
    }
    v.push(lit_num(end));
    v.push(group(Delim::Brace, body));
    v
}

fn expand_ok(input: Vec<Token>) -> Vec<Token> {
    expand_tokens(&input).expect("expansion should succeed")
}

#[test]
fn bare_substitution_exclusive_range() {
    let out = expand_ok(header("N", 0, 3, false, vec![ident("N")]));
    let expected = vec![lit_num(0), lit_num(1), lit_num(2)];
    assert!(tokens_equal(&out, &expected));
}

#[test]
fn splice_substitution() {
    let body = vec![ident("field"), punct('~'), ident("N"), punct(':'), ident("u8"), punct(',')];
    let out = expand_ok(header("N", 0, 3, false, body));
    let mut expected = Vec::new();
    for i in 0..3u64 {
        expected.push(ident(&format!("field{}", i)));
        expected.push(punct(':'));
        expected.push(ident("u8"));
        expected.push(punct(','));
    }
    assert!(tokens_equal(&out, &expected));
}

#[test]
fn range_size_counts_copies() {
    // A body with no occurrence of the loop variable: every copy is
    // identical, so the output length counts the copies directly.
    let body = || vec![ident("a"), punct(';')];
    let out = expand_ok(header("N", 2, 5, false, body()));
    assert_eq!(out.len(), (5 - 2) * body().len());
    let out = expand_ok(header("N", 2, 5, true, body()));
    assert_eq!(out.len(), (5 - 2 + 1) * body().len());
    let out = expand_ok(header("N", 7, 7, false, body()));
    assert_eq!(out.len(), 0);
}

#[test]
fn inclusive_range_single_index() {
    let out = expand_ok(header("N", 5, 5, true, vec![ident("N")]));
    assert!(tokens_equal(&out, &vec![lit_num(5)]));
}

#[test]
fn inclusive_range_start_above_end_is_empty() {
    let out = expand_ok(header("N", 5, 3, true, vec![ident("N")]));
    assert!(out.is_empty());
}

#[test]
fn exclusive_range_start_above_end_is_empty() {
    let out = expand_ok(header("N", 9, 2, false, vec![ident("N")]));
    assert!(out.is_empty());
}

#[test]
fn largest_index_inclusive() {
    let out = expand_ok(header("N", u64::MAX, u64::MAX, true, vec![ident("N")]));
    assert!(tokens_equal(&out, &vec![lit_num(u64::MAX)]));
    assert_eq!(
        match &out[0] {
            Token::Lit { text, .. } => text.clone(),
            _ => panic!("expected a literal"),
        },
        "18446744073709551615"
    );
}

#[test]
fn substitution_recurses_into_groups() {
    let body = vec![group(Delim::Parenthesis, vec![ident("N")])];
    let out = expand_ok(header("N", 1, 3, false, body));
    let expected = vec![
        group(Delim::Parenthesis, vec![lit_num(1)]),
        group(Delim::Parenthesis, vec![lit_num(2)]),
    ];
    assert!(tokens_equal(&out, &expected));
}

#[test]
fn marker_nested_two_groups_deep() {
    // x ( [ #( N )* ] ) -- the marker sits two groups deep; `x` and the
    // enclosing groups appear exactly once, unsubstituted.
    let marker = vec![punct('#'), group(Delim::Parenthesis, vec![ident("N")]), punct('*')];
    let body = vec![
        ident("x"),
        group(Delim::Parenthesis, vec![group(Delim::Bracket, marker)]),
    ];
    let out = expand_ok(header("N", 0, 2, false, body));
    let expected = vec![
        ident("x"),
        group(
            Delim::Parenthesis,
            vec![group(
                Delim::Bracket,
                vec![group(Delim::Invisible, vec![lit_num(0), lit_num(1)])],
            )],
        ),
    ];
    assert!(tokens_equal(&out, &expected));
}

#[test]
fn adjacent_loop_variables_stay_separate() {
    let out = expand_ok(header("N", 0, 1, false, vec![ident("N"), ident("N")]));
    assert!(tokens_equal(&out, &vec![lit_num(0), lit_num(0)]));
}

#[test]
fn mode_exclusivity_leaves_outside_tokens_alone() {
    // One marker in the body: the body is never repeated whole, and the
    // loop variable outside the marker is not substituted.
    let body = vec![
        ident("N"),
        punct('#'),
        group(Delim::Parenthesis, vec![ident("N")]),
        punct('*'),
    ];
    let out = expand_ok(header("N", 0, 3, false, body));
    let expected = vec![
        ident("N"),
        group(Delim::Invisible, vec![lit_num(0), lit_num(1), lit_num(2)]),
    ];
    assert!(tokens_equal(&out, &expected));
}

#[test]
fn two_markers_expand_independently() {
    let body = vec![
        punct('#'),
        group(Delim::Parenthesis, vec![ident("N")]),
        punct('*'),
        punct(';'),
        punct('#'),
        group(Delim::Parenthesis, vec![ident("a"), punct('~'), ident("N")]),
        punct('*'),
    ];
    let out = expand_ok(header("N", 1, 3, false, body));
    let expected = vec![
        group(Delim::Invisible, vec![lit_num(1), lit_num(2)]),
        punct(';'),
        group(Delim::Invisible, vec![ident("a1"), ident("a2")]),
    ];
    assert!(tokens_equal(&out, &expected));
}

#[test]
fn empty_range_erases_marker_but_keeps_surroundings() {
    let body = vec![
        ident("x"),
        punct('#'),
        group(Delim::Parenthesis, vec![ident("N")]),
        punct('*'),
    ];
    let out = expand_ok(header("N", 5, 5, false, body));
    let expected = vec![ident("x"), group(Delim::Invisible, vec![])];
    assert!(tokens_equal(&out, &expected));
}

#[test]
fn marker_requires_parenthesized_group() {
    // `# { ... } *` is not a marker: the body has none, so the whole body
    // repeats (mode A).
    let body = vec![punct('#'), group(Delim::Brace, vec![ident("N")]), punct('*')];
    assert!(!contains_marker(&body));
    let out = expand_ok(header("N", 0, 2, false, body));
    let expected = vec![
        punct('#'),
        group(Delim::Brace, vec![lit_num(0)]),
        punct('*'),
        punct('#'),
        group(Delim::Brace, vec![lit_num(1)]),
        punct('*'),
    ];
    assert!(tokens_equal(&out, &expected));
}

#[test]
fn detector_sees_nested_markers_only() {
    let no_marker = vec![ident("a"), group(Delim::Brace, vec![punct('#'), punct('*')])];
    assert!(!contains_marker(&no_marker));
    let nested = vec![group(
        Delim::Brace,
        vec![group(
            Delim::Bracket,
            vec![punct('#'), group(Delim::Parenthesis, vec![]), punct('*')],
        )],
    )];
    assert!(contains_marker(&nested));
}

#[test]
fn splice_takes_priority_over_bare_variable() {
    // `N ~ N` is a splice window: the first identifier keeps its text and
    // the index is appended to it.
    let var = "N".to_string();
    let out = substitute(&var, 0, &vec![ident("N"), punct('~'), ident("N")]);
    assert!(tokens_equal(&out, &vec![ident("N0")]));
}

#[test]
fn splice_ignores_tilde_spacing() {
    let var = "N".to_string();
    let out = substitute(&var, 7, &vec![ident("f"), punct_joint('~'), ident("N")]);
    assert!(tokens_equal(&out, &vec![ident("f7")]));
}

#[test]
fn splice_needs_matching_variable() {
    // `f ~ M` with loop variable `N`: no splice; every token passes
    // through, `~` and `M` included.
    let var = "N".to_string();
    let input = vec![ident("f"), punct('~'), ident("M")];
    let out = substitute(&var, 3, &input);
    assert!(tokens_equal(&out, &input));
}

#[test]
fn substitution_renders_large_indices() {
    let var = "N".to_string();
    let out = substitute(&var, 4294967295, &vec![ident("f"), punct('~'), ident("N")]);
    assert!(tokens_equal(&out, &vec![ident("f4294967295")]));
}

#[test]
fn marker_detection_ignores_punct_spacing() {
    let body = vec![
        punct_joint('#'),
        group(Delim::Parenthesis, vec![ident("N")]),
        punct_joint('*'),
    ];
    assert!(contains_marker(&body));
    let out = expand_ok(header("N", 0, 2, false, body));
    let expected = vec![group(Delim::Invisible, vec![lit_num(0), lit_num(1)])];
    assert!(tokens_equal(&out, &expected));
}

#[test]
fn invisible_groups_keep_their_delimiter() {
    let body = vec![group(Delim::Invisible, vec![ident("N")])];
    let out = expand_ok(header("N", 3, 4, false, body));
    let expected = vec![group(Delim::Invisible, vec![lit_num(3)])];
    assert!(tokens_equal(&out, &expected));
}

#[test]
fn empty_body_yields_empty_output() {
    let out = expand_ok(header("N", 0, 3, false, vec![]));
    assert!(out.is_empty());
}

#[test]
fn three_adjacent_variables_all_replaced() {
    // The splice lookahead sees `N N N` but finds no `~`, so each window
    // falls back to the bare-variable pattern.
    let var = "N".to_string();
    let out = substitute(&var, 4, &vec![ident("N"), ident("N"), ident("N")]);
    assert!(tokens_equal(&out, &vec![lit_num(4), lit_num(4), lit_num(4)]));
}

#[test]
fn generated_output_does_not_reparse() {
    // Re-parsing the generated output finds no range header: expansion is
    // never re-triggered, the re-parse fails instead.
    let out = expand_ok(header("N", 0, 3, false, vec![ident("N")]));
    assert!(expand_tokens(&out).is_err());

    let body = vec![ident("field"), punct('~'), ident("N"), punct(':'), ident("u8"), punct(',')];
    let out = expand_ok(header("N", 0, 3, false, body));
    assert!(expand_tokens(&out).is_err());
}
