//! Which texts are handed to the parser.
//!
//! The parser does not return on every text. Where a type starts with a
//! `for<..>` binder and goes on with `dyn` and a lifetime, as in
//! `for<'a> dyn 'a + Send`, it takes the first bound after `dyn` for a
//! trait and panics. Such a text is refused here, before the parser is
//! called.
//!
//! The test is made on the tokens that the parser will see: the text
//! without a byte order mark and a first line that starts with `#!`, cut by
//! the lexer that the parser runs. A text is refused where `for`, `<`, the
//! tokens up to the next `>`, `dyn` and an apostrophe follow each other. The
//! tokens of an attribute and of a macro invocation are not looked at: the
//! parser keeps them as they are. The test refuses a little more than
//! it must: it does not tell a binder in front of a type from one in a
//! `where` clause, nor a type where a bound is missing after the lifetime,
//! on which the parser fails without a panic, from one that is complete.

use vstd::prelude::*;
use vstd::string::StrSliceExecFns;
use crate::lex::{Lexeme, LexemeView, lex, lexed, lexeme_view, lexemes_view};

verus! {

/// The place of the first line feed at or after `from`, or the length of the
/// text where there is none.
pub open spec fn line_end(text: Seq<char>, from: int) -> int
    decreases text.len() - from,
{
    if from < 0 || from >= text.len() || text[from] == '\n' {
        from
    } else {
        line_end(text, from + 1)
    }
}

/// Where the part of a text begins that the parser reads. A byte order mark
/// at the start is passed over. If what follows starts with `#!` but not
/// with `#![`, its first line is passed over too, up to the line feed.
pub open spec fn parser_start(text: Seq<char>) -> int {
    let mark: int = if text.len() > 0 && text[0] == '\u{feff}' {
        1
    } else {
        0
    };
    if text.len() >= mark + 2 && text[mark] == '#' && text[mark + 1] == '!' && !(text.len() >= mark
        + 3 && text[mark + 2] == '[') {
        line_end(text, mark)
    } else {
        mark
    }
}

/// The part of a text that the parser reads.
pub open spec fn parser_text(text: Seq<char>) -> Seq<char> {
    text.subrange(parser_start(text), text.len() as int)
}

/// Whether `name` is a word that cannot be a name: the reserved words and
/// `_`.
pub open spec fn reserved(name: Seq<char>) -> bool {
    ||| name == "_"@
    ||| name == "abstract"@
    ||| name == "as"@
    ||| name == "become"@
    ||| name == "box"@
    ||| name == "break"@
    ||| name == "const"@
    ||| name == "continue"@
    ||| name == "crate"@
    ||| name == "do"@
    ||| name == "else"@
    ||| name == "enum"@
    ||| name == "extern"@
    ||| name == "false"@
    ||| name == "final"@
    ||| name == "fn"@
    ||| name == "for"@
    ||| name == "if"@
    ||| name == "impl"@
    ||| name == "in"@
    ||| name == "let"@
    ||| name == "loop"@
    ||| name == "macro"@
    ||| name == "match"@
    ||| name == "mod"@
    ||| name == "move"@
    ||| name == "mut"@
    ||| name == "override"@
    ||| name == "priv"@
    ||| name == "pub"@
    ||| name == "ref"@
    ||| name == "return"@
    ||| name == "Self"@
    ||| name == "self"@
    ||| name == "static"@
    ||| name == "struct"@
    ||| name == "super"@
    ||| name == "trait"@
    ||| name == "true"@
    ||| name == "type"@
    ||| name == "typeof"@
    ||| name == "unsafe"@
    ||| name == "unsized"@
    ||| name == "use"@
    ||| name == "virtual"@
    ||| name == "where"@
    ||| name == "while"@
    ||| name == "yield"@
}

/// Whether the token at `at` is the punctuation `c`.
pub open spec fn punct_at(tokens: Seq<LexemeView>, at: int, c: char) -> bool {
    0 <= at < tokens.len() && tokens[at] == LexemeView::Punct(c)
}

/// Whether the token at `at` is the word `name`.
pub open spec fn word_at(tokens: Seq<LexemeView>, at: int, name: Seq<char>) -> bool {
    0 <= at < tokens.len() && tokens[at] == LexemeView::Ident(name)
}

/// Whether the token at `at` is a name: a word that is not reserved and
/// that is not the name of a lifetime or a label.
pub open spec fn name_at(tokens: Seq<LexemeView>, at: int) -> bool {
    &&& 0 <= at < tokens.len()
    &&& tokens[at] matches LexemeView::Ident(name)
    &&& !reserved(name)
    &&& !punct_at(tokens, at - 1, '\'')
}

/// The place of the first `>` at or after `from`, or the number of tokens
/// where there is none.
pub open spec fn close_of(tokens: Seq<LexemeView>, from: int) -> int
    decreases tokens.len() - from,
{
    if from < 0 || from >= tokens.len() || tokens[from] == LexemeView::Punct('>') {
        from
    } else {
        close_of(tokens, from + 1)
    }
}

/// Whether a binder starts at `at` and `dyn` with a lifetime comes right
/// after it: `for`, `<`, the tokens up to the next `>`, `dyn`, `'`.
pub open spec fn binder_before_dyn(tokens: Seq<LexemeView>, at: int) -> bool {
    &&& word_at(tokens, at, "for"@)
    &&& punct_at(tokens, at + 1, '<')
    &&& word_at(tokens, close_of(tokens, at + 2) + 1, "dyn"@)
    &&& punct_at(tokens, close_of(tokens, at + 2) + 2, '\'')
}

/// Whether the token at `at` is a word, reserved or not.
pub open spec fn any_word_at(tokens: Seq<LexemeView>, at: int) -> bool {
    0 <= at < tokens.len() && tokens[at] is Ident
}

/// Whether the group at `at` holds tokens that the parser keeps as they
/// are: those of an attribute, after `#` or `#!`, and those of a macro
/// invocation, after a name and `!`, or after a name, `!` and one more
/// word.
pub open spec fn kept_whole(tokens: Seq<LexemeView>, at: int) -> bool {
    ||| punct_at(tokens, at - 1, '#')
    ||| punct_at(tokens, at - 1, '!') && punct_at(tokens, at - 2, '#')
    ||| punct_at(tokens, at - 1, '!') && name_at(tokens, at - 2)
    ||| any_word_at(tokens, at - 1) && punct_at(tokens, at - 2, '!') && name_at(tokens, at - 3)
}

/// Whether a text is refused for what stands at `at`: a binder before `dyn`
/// and a lifetime there, or a group there that the parser reads and that
/// is refused for what stands at some place in it.
pub open spec fn refused_at(tokens: Seq<LexemeView>, at: int) -> bool
    decreases tokens, 0int,
{
    ||| binder_before_dyn(tokens, at)
    ||| {
        &&& 0 <= at < tokens.len()
        &&& tokens[at] matches LexemeView::Group(inner)
        &&& !kept_whole(tokens, at)
        &&& refused_before(inner, inner.len() as int)
    }
}

/// Whether a sequence of tokens is refused for what stands at some place
/// before `end`.
pub open spec fn refused_before(tokens: Seq<LexemeView>, end: int) -> bool
    decreases tokens, end,
{
    if end <= 0 {
        false
    } else {
        refused_before(tokens, end - 1) || refused_at(tokens, end - 1)
    }
}

/// Whether a sequence of tokens is refused for what stands at some place
/// in it.
pub open spec fn refused_tokens(tokens: Seq<LexemeView>) -> bool {
    refused_before(tokens, tokens.len() as int)
}

/// What is refused before `end` is refused for what stands at one of the
/// places before `end`, and the other way round.
pub proof fn lemma_refused_before(tokens: Seq<LexemeView>, end: int)
    ensures
        refused_before(tokens, end) <==> exists|at: int| 0 <= at < end && refused_at(tokens, at),
    decreases end,
{
    reveal_with_fuel(refused_before, 2);
    if end > 0 {
        lemma_refused_before(tokens, end - 1);
        if refused_before(tokens, end) {
            if refused_at(tokens, end - 1) {
                assert(0 <= end - 1 < end && refused_at(tokens, end - 1));
            } else {
                let at = choose|at: int| 0 <= at < end - 1 && refused_at(tokens, at);
                assert(0 <= at < end && refused_at(tokens, at));
            }
        }
        if exists|at: int| 0 <= at < end && refused_at(tokens, at) {
            let at = choose|at: int| 0 <= at < end && refused_at(tokens, at);
            if at < end - 1 {
                assert(0 <= at < end - 1 && refused_at(tokens, at));
            }
        }
    }
}

/// A sequence of tokens is refused exactly if it is refused for what stands
/// at one of its places.
pub proof fn lemma_refused_somewhere(tokens: Seq<LexemeView>)
    ensures
        refused_tokens(tokens) <==> exists|at: int| refused_at(tokens, at),
{
    lemma_refused_before(tokens, tokens.len() as int);
    if exists|at: int| refused_at(tokens, at) {
        let at = choose|at: int| refused_at(tokens, at);
        assert(0 <= at < tokens.len() && refused_at(tokens, at));
    }
    if refused_tokens(tokens) {
        let at = choose|at: int| 0 <= at < tokens.len() && refused_at(tokens, at);
        assert(refused_at(tokens, at));
    }
}

/// What is refused before one place is refused before any later one.
pub proof fn lemma_refused_grows(tokens: Seq<LexemeView>, end: int, later: int)
    requires
        end <= later,
        refused_before(tokens, end),
    ensures
        refused_before(tokens, later),
    decreases later - end,
{
    if end < later {
        lemma_refused_grows(tokens, end, later - 1);
    }
}

/// Whether a text is handed to the parser. One on which the lexer fails
/// is: the parser fails on it in the same way.
pub open spec fn accepted(text: Seq<char>) -> bool {
    match lexed(parser_text(text)) {
        Some(tokens) => !refused_tokens(tokens),
        None => true,
    }
}

/// The characters of a text, one by one.
pub fn characters(src: &str) -> (chars: Vec<char>)
    ensures
        chars@ == src@,
{
    let mut chars: Vec<char> = Vec::new();
    for c in it: src.chars()
        invariant
            chars@ == it.seq().take(it.index() as int),
    {
        chars.push(c);
    }
    chars
}

/// The part of a text that the parser reads.
pub fn strip(src: &str) -> (rest: &str)
    ensures
        rest@ == parser_text(src@),
{
    let chars = characters(src);
    let n: usize = chars.len();
    let mark: usize = if n > 0 && chars[0] == '\u{feff}' {
        1
    } else {
        0
    };
    let mut start: usize = mark;
    if n - mark >= 2 && chars[mark] == '#' && chars[mark + 1] == '!' && !(n - mark >= 3
        && chars[mark + 2] == '[') {
        while start < n && chars[start] != '\n'
            invariant
                n == chars.len(),
                mark <= start <= n,
                line_end(chars@, mark as int) == line_end(chars@, start as int),
            decreases n - start,
        {
            start += 1;
        }
    }
    src.substring_char(start, n)
}

/// Whether a word is `name`.
fn is_word(token: &Lexeme, name: &str) -> (b: bool)
    ensures
        b == (token@ == LexemeView::Ident(name@)),
{
    match token {
        Lexeme::Ident(word) => {
            let other = name.to_owned();
            *word == other
        },
        _ => false,
    }
}

/// Whether a token is the punctuation `c`.
fn is_punct(token: &Lexeme, c: char) -> (b: bool)
    ensures
        b == (token@ == LexemeView::Punct(c)),
{
    match token {
        Lexeme::Punct(found) => *found == c,
        _ => false,
    }
}

/// Decides [`reserved`] of a word, and says no of any other token.
fn is_reserved(token: &Lexeme) -> (b: bool)
    ensures
        b == (token@ matches LexemeView::Ident(name) && reserved(name)),
{
    is_word(token, "_") || is_word(token, "abstract") || is_word(token, "as") || is_word(
        token,
        "become",
    ) || is_word(token, "box") || is_word(token, "break") || is_word(token, "const") || is_word(
        token,
        "continue",
    ) || is_word(token, "crate") || is_word(token, "do") || is_word(token, "else") || is_word(
        token,
        "enum",
    ) || is_word(token, "extern") || is_word(token, "false") || is_word(token, "final") || is_word(
        token,
        "fn",
    ) || is_word(token, "for") || is_word(token, "if") || is_word(token, "impl") || is_word(
        token,
        "in",
    ) || is_word(token, "let") || is_word(token, "loop") || is_word(token, "macro") || is_word(
        token,
        "match",
    ) || is_word(token, "mod") || is_word(token, "move") || is_word(token, "mut") || is_word(
        token,
        "override",
    ) || is_word(token, "priv") || is_word(token, "pub") || is_word(token, "ref") || is_word(
        token,
        "return",
    ) || is_word(token, "Self") || is_word(token, "self") || is_word(token, "static") || is_word(
        token,
        "struct",
    ) || is_word(token, "super") || is_word(token, "trait") || is_word(token, "true") || is_word(
        token,
        "type",
    ) || is_word(token, "typeof") || is_word(token, "unsafe") || is_word(token, "unsized")
        || is_word(token, "use") || is_word(token, "virtual") || is_word(token, "where") || is_word(
        token,
        "while",
    ) || is_word(token, "yield")
}

/// Decides [`name_at`].
fn is_name_at(tokens: &Vec<Lexeme>, at: usize) -> (b: bool)
    requires
        at < tokens.len(),
    ensures
        b == name_at(lexemes_view(tokens@), at as int),
{
    match &tokens[at] {
        Lexeme::Ident(_) => !is_reserved(&tokens[at]) && !(at >= 1 && is_punct(
            &tokens[at - 1],
            '\'',
        )),
        _ => false,
    }
}

/// Decides [`kept_whole`].
fn is_kept_whole(tokens: &Vec<Lexeme>, at: usize) -> (b: bool)
    requires
        at < tokens.len(),
    ensures
        b == kept_whole(lexemes_view(tokens@), at as int),
{
    if at >= 1 && is_punct(&tokens[at - 1], '#') {
        true
    } else if at >= 2 && is_punct(&tokens[at - 1], '!') {
        is_punct(&tokens[at - 2], '#') || is_name_at(tokens, at - 2)
    } else if at >= 3 && is_punct(&tokens[at - 2], '!') {
        match &tokens[at - 1] {
            Lexeme::Ident(_) => is_name_at(tokens, at - 3),
            _ => false,
        }
    } else {
        false
    }
}

/// Decides [`binder_before_dyn`].
fn is_binder_before_dyn(tokens: &Vec<Lexeme>, at: usize) -> (b: bool)
    requires
        at < tokens.len(),
    ensures
        b == binder_before_dyn(lexemes_view(tokens@), at as int),
{
    let n: usize = tokens.len();
    if n - at < 2 || !is_word(&tokens[at], "for") || !is_punct(&tokens[at + 1], '<') {
        return false;
    }
    let mut close: usize = at + 2;
    while close < n && !is_punct(&tokens[close], '>')
        invariant
            n == tokens.len(),
            at + 2 <= close <= n,
            close_of(lexemes_view(tokens@), at + 2) == close_of(
                lexemes_view(tokens@),
                close as int,
            ),
        decreases n - close,
    {
        close += 1;
    }
    n - close > 2 && is_word(&tokens[close + 1], "dyn") && is_punct(&tokens[close + 2], '\'')
}

/// Decides [`refused_tokens`].
pub fn refuses(tokens: &Vec<Lexeme>) -> (b: bool)
    ensures
        b == refused_tokens(lexemes_view(tokens@)),
    decreases tokens,
{
    let ghost view = lexemes_view(tokens@);
    let n: usize = tokens.len();
    let mut at: usize = 0;
    while at < n
        invariant
            n == tokens.len(),
            view == lexemes_view(tokens@),
            0 <= at <= n,
            !refused_before(view, at as int),
        decreases n - at,
    {
        assert(view[at as int] == lexeme_view(tokens@[at as int]));
        proof {
            reveal_with_fuel(refused_before, 2);
        }
        if is_binder_before_dyn(tokens, at) {
            proof {
                lemma_refused_grows(view, at + 1, n as int);
            }
            return true;
        }
        match &tokens[at] {
            Lexeme::Group(inner) => {
                if !is_kept_whole(tokens, at) && refuses(inner) {
                    proof {
                        assert(view[at as int]->Group_0 == lexemes_view(inner@));
                        lemma_refused_grows(view, at + 1, n as int);
                    }
                    return true;
                }
            },
            _ => {},
        }
        at += 1;
    }
    false
}

/// Decides [`accepted`].
pub fn accepts(src: &str) -> (ok: bool)
    ensures
        ok == accepted(src@),
{
    match lex(strip(src)) {
        Some(tokens) => !refuses(&tokens),
        None => true,
    }
}

} // verus!
