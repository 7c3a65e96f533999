//! The token tree model: the uninterpreted tree of lexical tokens that the
//! rest of the engine operates on, together with its mathematical view.

use vstd::prelude::*;

verus! {

/// The delimiter of a token group.
///
/// `Invisible` is used only for synthetic groups produced by expansion; it
/// renders as if the delimiter were absent, so expanded content splices
/// transparently into its parent's token sequence.
#[derive(Clone, Copy, PartialEq, Eq, Structural, Debug)]
pub enum Delim {
    Parenthesis,
    Brace,
    Bracket,
    Invisible,
}

/// Whether a punctuation character is immediately followed by another
/// punctuation character of the same operator (`Joint`) or stands on its
/// own (`Alone`). It carries no weight here beyond pattern matching of
/// multi-character operators such as `..=`.
#[derive(Clone, Copy, PartialEq, Eq, Structural, Debug)]
pub enum Spacing {
    Joint,
    Alone,
}

/// The mathematical view of a token: the same tree shape as [`Token`],
/// with texts as character sequences. All contracts speak of this type.
pub enum TokenV {
    Ident { text: Seq<char> },
    Lit { text: Seq<char>, value: Option<u64> },
    Punct { ch: char, spacing: Spacing },
    Group { delim: Delim, tokens: Seq<TokenV> },
}

/// An immutable lexical token: an identifier, a literal, a punctuation
/// character, or a delimited group owning its children exclusively.
///
/// A `Lit` stores its rendered text and, when it is an unsigned integer
/// that fits the supported width, its numeric value.
#[derive(Debug)]
pub enum Token {
    Ident { text: String },
    Lit { text: String, value: Option<u64> },
    Punct { ch: char, spacing: Spacing },
    Group { delim: Delim, tokens: Vec<Token> },
}

/// The view of one token.
pub open spec fn view_token(t: Token) -> TokenV
    decreases t,
{
    match t {
        Token::Ident { text } => TokenV::Ident { text: text@ },
        Token::Lit { text, value } => TokenV::Lit { text: text@, value },
        Token::Punct { ch, spacing } => TokenV::Punct { ch, spacing },
        Token::Group { delim, tokens } => TokenV::Group {
            delim,
            tokens: view_tokens(tokens@),
        },
    }
}

/// The view of a sibling sequence of tokens, element by element.
pub open spec fn view_tokens(ts: Seq<Token>) -> Seq<TokenV>
    decreases ts,
{
    if ts.len() == 0 {
        Seq::empty()
    } else {
        seq![view_token(ts[0])] + view_tokens(ts.subrange(1, ts.len() as int))
    }
}

impl View for Token {
    type V = TokenV;

    open spec fn view(&self) -> TokenV {
        view_token(*self)
    }
}

impl Token {
    /// Whether this token is punctuation with the given character.
    pub fn is_punct_char(&self, c: char) -> (r: bool)
        ensures
            r == (self@ matches TokenV::Punct { ch, .. } && ch == c),
    {
        match self {
            Token::Punct { ch, .. } => *ch == c,
            _ => false,
        }
    }

    /// Whether this token is punctuation with the given character and
    /// spacing.
    pub fn is_punct(&self, c: char, s: Spacing) -> (r: bool)
        ensures
            r == (self@ matches TokenV::Punct { ch, spacing } && ch == c && spacing == s),
    {
        match self {
            Token::Punct { ch, spacing } => *ch == c && *spacing == s,
            _ => false,
        }
    }

    /// Whether this token is an identifier whose text equals `name`.
    pub fn ident_matches(&self, name: &String) -> (r: bool)
        ensures
            r == (self@ matches TokenV::Ident { text } && text == name@),
    {
        match self {
            Token::Ident { text } => text.eq(name),
            _ => false,
        }
    }

    /// Whether this token is an identifier.
    pub fn is_ident(&self) -> (r: bool)
        ensures
            r == (self@ is Ident),
    {
        match self {
            Token::Ident { .. } => true,
            _ => false,
        }
    }

    /// The text of an identifier token.
    pub fn ident_text(&self) -> (r: &String)
        requires
            self@ is Ident,
        ensures
            r@ == self@->Ident_text,
    {
        match self {
            Token::Ident { text } => text,
            _ => vstd::pervasive::unreached(),
        }
    }

    /// Whether this token is a group with the given delimiter.
    pub fn is_group_delim(&self, d: Delim) -> (r: bool)
        ensures
            r == (self@ matches TokenV::Group { delim, .. } && delim == d),
    {
        match self {
            Token::Group { delim, .. } => *delim == d,
            _ => false,
        }
    }

    /// The children of a group token.
    pub fn group_tokens(&self) -> (r: &Vec<Token>)
        requires
            self@ is Group,
        ensures
            view_tokens(r@) == self@->tokens,
    {
        match self {
            Token::Group { tokens, .. } => tokens,
            _ => vstd::pervasive::unreached(),
        }
    }

    /// A fresh, independently owned copy of this token tree, equal to it
    /// under the view.
    pub fn dup(&self) -> (r: Token)
        ensures
            r@ == self@,
        decreases *self,
    {
        match self {
            Token::Ident { text } => Token::Ident { text: text.clone() },
            Token::Lit { text, value } => Token::Lit { text: text.clone(), value: *value },
            Token::Punct { ch, spacing } => Token::Punct { ch: *ch, spacing: *spacing },
            Token::Group { delim, tokens } => Token::Group {
                delim: *delim,
                tokens: dup_tokens(tokens),
            },
        }
    }
}

/// A fresh copy of a sibling sequence, equal to it under the view.
pub fn dup_tokens(ts: &Vec<Token>) -> (r: Vec<Token>)
    ensures
        view_tokens(r@) == view_tokens(ts@),
    decreases ts@,
{
    broadcast use lemma_view_tokens;

    let mut r: Vec<Token> = Vec::new();
    let n = ts.len();
    let mut i: usize = 0;
    while i < n
        invariant
            n == ts@.len(),
            i <= n,
            r@.len() == i,
            forall|j: int| 0 <= j < i ==> r@[j]@ == ts@[j]@,
        decreases n - i,
    {
        r.push(ts[i].dup());
        i += 1;
    }
    proof {
        assert(view_tokens(r@) =~= view_tokens(ts@));
    }
    r
}

/// `view_tokens` maps the view over the sequence: it keeps the length and
/// views each element in place.
pub broadcast proof fn lemma_view_tokens(ts: Seq<Token>)
    ensures
        #[trigger] view_tokens(ts).len() == ts.len(),
        forall|i: int| 0 <= i < ts.len() ==> view_tokens(ts)[i] == ts[i]@,
    decreases ts,
{
    if ts.len() > 0 {
        lemma_view_tokens(ts.subrange(1, ts.len() as int));
    }
}

/// Whether two tokens are structurally equal: same kind, same texts and
/// values, and, for groups, the same delimiter and pairwise equal
/// children.
pub fn token_equal(a: &Token, b: &Token) -> (r: bool)
    ensures
        r == (a@ == b@),
    decreases *a,
{
    match (a, b) {
        (Token::Ident { text: ta }, Token::Ident { text: tb }) => ta.eq(tb),
        (Token::Lit { text: ta, value: va }, Token::Lit { text: tb, value: vb }) => {
            let values_eq = match (va, vb) {
                (Some(p), Some(q)) => *p == *q,
                (None, None) => true,
                _ => false,
            };
            ta.eq(tb) && values_eq
        },
        (Token::Punct { ch: ca, spacing: sa }, Token::Punct { ch: cb, spacing: sb }) => *ca == *cb
            && *sa == *sb,
        (Token::Group { delim: da, tokens: ta }, Token::Group { delim: db, tokens: tb }) => *da
            == *db && tokens_equal(ta, tb),
        _ => false,
    }
}

/// Whether two sibling sequences are structurally equal, element by
/// element.
pub fn tokens_equal(a: &Vec<Token>, b: &Vec<Token>) -> (r: bool)
    ensures
        r == (view_tokens(a@) == view_tokens(b@)),
    decreases a@,
{
    proof {
        lemma_view_tokens(a@);
        lemma_view_tokens(b@);
    }
    if a.len() != b.len() {
        return false;
    }
    let n = a.len();
    let mut i: usize = 0;
    while i < n
        invariant
            n == a@.len(),
            n == b@.len(),
            i <= n,
            forall|j: int| 0 <= j < i ==> a@[j]@ == b@[j]@,
        decreases n - i,
    {
        proof {
            lemma_view_tokens(a@);
            lemma_view_tokens(b@);
        }
        if !token_equal(&a[i], &b[i]) {
            proof {
                assert(view_tokens(a@)[i as int] != view_tokens(b@)[i as int]);
            }
            return false;
        }
        i += 1;
    }
    proof {
        assert(view_tokens(a@) =~= view_tokens(b@));
    }
    true
}

/// The view of a concatenation is the concatenation of the views.
pub proof fn lemma_view_tokens_concat(a: Seq<Token>, b: Seq<Token>)
    ensures
        view_tokens(a + b) == view_tokens(a) + view_tokens(b),
{
    lemma_view_tokens(a);
    lemma_view_tokens(b);
    lemma_view_tokens(a + b);
    assert(view_tokens(a + b) =~= view_tokens(a) + view_tokens(b));
}

/// Appending one token to a sibling sequence appends its view.
pub proof fn lemma_view_tokens_push(ts: Seq<Token>, t: Token)
    ensures
        view_tokens(ts.push(t)) == view_tokens(ts) + seq![t@],
{
    lemma_view_tokens(ts);
    lemma_view_tokens(ts.push(t));
    assert(view_tokens(ts.push(t)) =~= view_tokens(ts) + seq![t@]);
}

} // verus!
