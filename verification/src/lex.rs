//! The tokens of a text, as the lexer of `proc-macro2` cuts them. This is
//! the lexer that the parser runs first; here it is run to look at a text
//! before the parser gets it. `lex_text` and `lower_token` are believed, not
//! proved.

use vstd::prelude::*;

verus! {

/// A token.
#[derive(Debug, PartialEq, Eq)]
pub enum Lexeme {
    /// What stands between a pair of brackets of any kind.
    Group(Vec<Lexeme>),
    /// A word, keywords among them, as it is written; a raw one keeps its
    /// `r#`.
    Ident(String),
    /// One character of punctuation.
    Punct(char),
    /// A literal; what it holds is not kept.
    Literal,
}

/// The view of a [`Lexeme`].
pub enum LexemeView {
    Group(Seq<LexemeView>),
    Ident(Seq<char>),
    Punct(char),
    Literal,
}

/// The view of a token.
pub open spec fn lexeme_view(token: Lexeme) -> LexemeView
    decreases token,
{
    match token {
        Lexeme::Group(tokens) => LexemeView::Group(lexemes_view(tokens@)),
        Lexeme::Ident(name) => LexemeView::Ident(name@),
        Lexeme::Punct(c) => LexemeView::Punct(c),
        Lexeme::Literal => LexemeView::Literal,
    }
}

/// The views of a sequence of tokens, in order.
pub open spec fn lexemes_view(tokens: Seq<Lexeme>) -> Seq<LexemeView>
    decreases tokens,
{
    Seq::new(
        tokens.len(),
        |i: int|
            if 0 <= i < tokens.len() {
                lexeme_view(tokens[i])
            } else {
                arbitrary()
            },
    )
}

impl View for Lexeme {
    type V = LexemeView;

    open spec fn view(&self) -> LexemeView {
        lexeme_view(*self)
    }
}

/// `proc_macro2::TokenTree`, opaque to the verifier.
#[verifier::external_type_specification]
#[verifier::external_body]
pub struct ExTokenTree(proc_macro2::TokenTree);

/// What the lexer makes of a text: its tokens, or nothing where it fails.
pub uninterp spec fn lexed(text: Seq<char>) -> Option<Seq<LexemeView>>;

/// Calls `<proc_macro2::TokenStream as FromStr>::from_str` and hands back
/// the tokens of the stream, each converted by `lower_token`. Believed: the
/// result is the one that `lexed` names, so the same text always gives the
/// same tokens. Nothing is claimed about which texts the lexer takes.
#[verifier::external_body]
fn lex_text(text: &str) -> (r: Option<Vec<Lexeme>>)
    ensures
        match r {
            Some(tokens) => lexed(text@) == Some(lexemes_view(tokens@)),
            None => lexed(text@) is None,
        },
{
    match text.parse::<proc_macro2::TokenStream>() {
        Ok(stream) => Some(stream.into_iter().map(lower_token).collect()),
        Err(_) => None,
    }
}

/// Converts a `proc_macro2::TokenTree`: of a `Group`, the tokens of its
/// stream; of an `Ident`, its text; of a `Punct`, its character; of a
/// `Literal`, nothing.
#[verifier::external_body]
fn lower_token(token: proc_macro2::TokenTree) -> Lexeme {
    match token {
        proc_macro2::TokenTree::Group(group) => {
            Lexeme::Group(group.stream().into_iter().map(lower_token).collect())
        },
        proc_macro2::TokenTree::Ident(ident) => Lexeme::Ident(ident.to_string()),
        proc_macro2::TokenTree::Punct(punct) => Lexeme::Punct(punct.as_char()),
        proc_macro2::TokenTree::Literal(_) => Lexeme::Literal,
    }
}

/// The tokens of a text, or nothing where the lexer fails on it.
pub fn lex(text: &str) -> (r: Option<Vec<Lexeme>>)
    ensures
        match r {
            Some(tokens) => lexed(text@) == Some(lexemes_view(tokens@)),
            None => lexed(text@) is None,
        },
{
    lex_text(text)
}

} // verus!
