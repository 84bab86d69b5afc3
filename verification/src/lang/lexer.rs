//! The tokens of the class definition language.
//!
//! White space separates tokens. A comment runs from `//` through the end of
//! its line; comments stand before and after tokens, and count as part of the
//! token's span. The text is read as far as it is made of tokens: what
//! follows the last token that could be read is left alone.

use vstd::prelude::*;
use std::ops::Range;
use crate::text::{chars_of, is_digit, is_space, string_from};

verus! {

/// The span of a token: the positions, counted in characters, where it
/// starts and where it ends.
pub type Span = Range<usize>;

/// A token.
#[derive(Debug, Clone, PartialEq, Eq)]
pub enum Token {
    Bool(bool),
    Number(String),
    Str(String),
    Op(String),
    Property(String),
    LParen,
    RParen,
    LBracket,
    RBracket,
    Colon,
    Dot,
    Comma,
    Class,
    Var,
    Has,
    On,
    Action,
    Parameter,
    Function,
    If,
    Else,
    For,
    Ident(String),
}

/// A token as a mathematical value.
pub enum TokenView {
    Bool(bool),
    Number(Seq<char>),
    Str(Seq<char>),
    Op(Seq<char>),
    Property(Seq<char>),
    LParen,
    RParen,
    LBracket,
    RBracket,
    Colon,
    Dot,
    Comma,
    Class,
    Var,
    Has,
    On,
    Action,
    Parameter,
    Function,
    If,
    Else,
    For,
    Ident(Seq<char>),
}

impl View for Token {
    type V = TokenView;

    open spec fn view(&self) -> TokenView {
        match self {
            Token::Bool(b) => TokenView::Bool(*b),
            Token::Number(s) => TokenView::Number(s@),
            Token::Str(s) => TokenView::Str(s@),
            Token::Op(s) => TokenView::Op(s@),
            Token::Property(s) => TokenView::Property(s@),
            Token::LParen => TokenView::LParen,
            Token::RParen => TokenView::RParen,
            Token::LBracket => TokenView::LBracket,
            Token::RBracket => TokenView::RBracket,
            Token::Colon => TokenView::Colon,
            Token::Dot => TokenView::Dot,
            Token::Comma => TokenView::Comma,
            Token::Class => TokenView::Class,
            Token::Var => TokenView::Var,
            Token::Has => TokenView::Has,
            Token::On => TokenView::On,
            Token::Action => TokenView::Action,
            Token::Parameter => TokenView::Parameter,
            Token::Function => TokenView::Function,
            Token::If => TokenView::If,
            Token::Else => TokenView::Else,
            Token::For => TokenView::For,
            Token::Ident(s) => TokenView::Ident(s@),
        }
    }
}

/// A token with its span, as a mathematical value.
pub struct Spanned {
    pub token: TokenView,
    pub start: int,
    pub end: int,
}

/// The views of tokens with their spans.
pub open spec fn spanned_view(toks: Seq<(Token, Span)>) -> Seq<Spanned> {
    toks.map_values(
        |t: (Token, Span)| Spanned { token: t.0@, start: t.1.start as int, end: t.1.end as int },
    )
}

/// One of the characters that operators are made of.
pub open spec fn is_op_char(c: char) -> bool {
    c == '+' || c == '-' || c == '*' || c == '/' || c == '!' || c == '=' || c == '<' || c == '>'
}

/// A letter of the Latin alphabet.
pub open spec fn is_alpha(c: char) -> bool {
    ('a' <= c <= 'z') || ('A' <= c <= 'Z')
}

/// A character that an identifier starts with.
pub open spec fn is_ident_start(c: char) -> bool {
    is_alpha(c) || c == '_'
}

/// A character that an identifier goes on with.
pub open spec fn is_ident_part(c: char) -> bool {
    is_alpha(c) || is_digit(c) || c == '_'
}

/// The end of the run of white space that starts at `p`.
pub open spec fn space_end(text: Seq<char>, p: int) -> int
    decreases text.len() - p,
{
    if p < 0 || p >= text.len() || !is_space(text[p]) {
        p
    } else {
        space_end(text, p + 1)
    }
}

/// The end of the run of digits that starts at `p`.
pub open spec fn digits_end(text: Seq<char>, p: int) -> int
    decreases text.len() - p,
{
    if p < 0 || p >= text.len() || !is_digit(text[p]) {
        p
    } else {
        digits_end(text, p + 1)
    }
}

/// The end of the run of operator characters that starts at `p`.
pub open spec fn op_end(text: Seq<char>, p: int) -> int
    decreases text.len() - p,
{
    if p < 0 || p >= text.len() || !is_op_char(text[p]) {
        p
    } else {
        op_end(text, p + 1)
    }
}

/// The end of the run of identifier characters that starts at `p`.
pub open spec fn ident_end(text: Seq<char>, p: int) -> int
    decreases text.len() - p,
{
    if p < 0 || p >= text.len() || !is_ident_part(text[p]) {
        p
    } else {
        ident_end(text, p + 1)
    }
}

/// The position of the first character `c` from `p` on, or the end of the
/// text.
pub open spec fn find(text: Seq<char>, c: char, p: int) -> int
    decreases text.len() - p,
{
    if p < 0 || p >= text.len() || text[p] == c {
        p
    } else {
        find(text, c, p + 1)
    }
}

/// The end of the comment that stands at `p`, with the white space before
/// and after it: `//`, the rest of the line and the line end. `None` where
/// no comment stands there, or the line does not end.
pub open spec fn comment_at(text: Seq<char>, p: int) -> Option<int> {
    let q = space_end(text, p);
    if 0 <= q && q + 1 < text.len() && text[q] == '/' && text[q + 1] == '/' && find(
        text,
        '\n',
        q + 2,
    ) < text.len() {
        Some(space_end(text, find(text, '\n', q + 2) + 1))
    } else {
        None
    }
}

/// The end of the comments that stand at `p`, one after the other.
pub open spec fn comments_end(text: Seq<char>, p: int) -> int
    decreases text.len() - p,
{
    match comment_at(text, p) {
        Some(r) => if p < r <= text.len() {
            comments_end(text, r)
        } else {
            p
        },
        None => p,
    }
}

/// The end of the number that starts at `p` with a digit. The whole part is
/// a single `0`, or digits of which the first is not `0`. A fraction
/// follows where a point and at least one digit do.
pub open spec fn number_end(text: Seq<char>, p: int) -> int {
    let a = if text[p] == '0' {
        p + 1
    } else {
        digits_end(text, p + 1)
    };
    if 0 <= a && a + 1 < text.len() && text[a] == '.' && is_digit(text[a + 1]) {
        digits_end(text, a + 1)
    } else {
        a
    }
}

/// The token that a word is: the keyword that it spells, or an identifier.
pub open spec fn word_token(word: Seq<char>) -> TokenView {
    if word == "class"@ {
        TokenView::Class
    } else if word == "var"@ {
        TokenView::Var
    } else if word == "has"@ {
        TokenView::Has
    } else if word == "on"@ {
        TokenView::On
    } else if word == "action"@ {
        TokenView::Action
    } else if word == "parameter"@ {
        TokenView::Parameter
    } else if word == "function"@ {
        TokenView::Function
    } else if word == "for"@ {
        TokenView::For
    } else if word == "if"@ {
        TokenView::If
    } else if word == "else"@ {
        TokenView::Else
    } else if word == "true"@ {
        TokenView::Bool(true)
    } else if word == "false"@ {
        TokenView::Bool(false)
    } else {
        TokenView::Ident(word)
    }
}

/// The token that starts at `p`, and the position after it. The kinds are
/// tried in this order: a number, a string between double quotes, an
/// operator, a bracket or a mark, a word.
pub open spec fn token_at(text: Seq<char>, p: int) -> Option<(TokenView, int)> {
    if p < 0 || p >= text.len() {
        None
    } else if is_digit(text[p]) {
        Some((TokenView::Number(text.subrange(p, number_end(text, p))), number_end(text, p)))
    } else if text[p] == '"' {
        if find(text, '"', p + 1) < text.len() {
            Some(
                (
                    TokenView::Str(text.subrange(p + 1, find(text, '"', p + 1))),
                    find(text, '"', p + 1) + 1,
                ),
            )
        } else {
            None
        }
    } else if is_op_char(text[p]) {
        Some((TokenView::Op(text.subrange(p, op_end(text, p))), op_end(text, p)))
    } else if text[p] == '(' {
        Some((TokenView::LParen, p + 1))
    } else if text[p] == ')' {
        Some((TokenView::RParen, p + 1))
    } else if text[p] == '{' {
        Some((TokenView::LBracket, p + 1))
    } else if text[p] == '}' {
        Some((TokenView::RBracket, p + 1))
    } else if text[p] == ':' {
        Some((TokenView::Colon, p + 1))
    } else if text[p] == '.' {
        Some((TokenView::Dot, p + 1))
    } else if text[p] == ',' {
        Some((TokenView::Comma, p + 1))
    } else if is_ident_start(text[p]) {
        Some((word_token(text.subrange(p, ident_end(text, p + 1))), ident_end(text, p + 1)))
    } else {
        None
    }
}

/// The token that is read from `p`, with its span, and the position after
/// it and the white space that follows. White space is skipped; the span
/// starts there, covers the comments, the token and the comments after it,
/// and ends there.
pub open spec fn spanned_at(text: Seq<char>, p: int) -> Option<(Spanned, int)> {
    let start = space_end(text, p);
    match token_at(text, comments_end(text, start)) {
        Some((token, after)) => Some(
            (
                Spanned { token, start, end: comments_end(text, after) },
                space_end(text, comments_end(text, after)),
            ),
        ),
        None => None,
    }
}

/// The tokens that are read from `p` on, as many as stand there.
pub open spec fn tokens_at(text: Seq<char>, p: int) -> Seq<Spanned>
    decreases text.len() - p,
{
    match spanned_at(text, p) {
        Some((t, next)) => if p < next <= text.len() {
            seq![t] + tokens_at(text, next)
        } else {
            seq![t]
        },
        None => Seq::empty(),
    }
}

/// Whether `c` is an operator character.
fn op_char(c: char) -> (b: bool)
    ensures
        b == is_op_char(c),
{
    c == '+' || c == '-' || c == '*' || c == '/' || c == '!' || c == '=' || c == '<' || c == '>'
}

/// Whether `c` is a digit.
fn numeral(c: char) -> (b: bool)
    ensures
        b == is_digit(c),
{
    '0' <= c && c <= '9'
}

/// Whether an identifier can start with `c`.
fn ident_start(c: char) -> (b: bool)
    ensures
        b == is_ident_start(c),
{
    ('a' <= c && c <= 'z') || ('A' <= c && c <= 'Z') || c == '_'
}

/// Whether an identifier can go on with `c`.
fn ident_part(c: char) -> (b: bool)
    ensures
        b == is_ident_part(c),
{
    ident_start(c) || numeral(c)
}

/// The end of the run of white space that starts at `p`.
fn skip_space(text: &Vec<char>, p: usize) -> (e: usize)
    requires
        p <= text@.len(),
    ensures
        e == space_end(text@, p as int),
        p <= e <= text@.len(),
{
    let mut e = p;
    while e < text.len() && text[e].is_whitespace()
        invariant
            p <= e <= text@.len(),
            space_end(text@, p as int) == space_end(text@, e as int),
        decreases text@.len() - e,
    {
        e = e + 1;
    }
    e
}

/// The end of the run of digits that starts at `p`.
fn skip_digits(text: &Vec<char>, p: usize) -> (e: usize)
    requires
        p <= text@.len(),
    ensures
        e == digits_end(text@, p as int),
        p <= e <= text@.len(),
{
    let mut e = p;
    while e < text.len() && numeral(text[e])
        invariant
            p <= e <= text@.len(),
            digits_end(text@, p as int) == digits_end(text@, e as int),
        decreases text@.len() - e,
    {
        e = e + 1;
    }
    e
}

/// The end of the run of operator characters that starts at `p`.
fn skip_op(text: &Vec<char>, p: usize) -> (e: usize)
    requires
        p <= text@.len(),
    ensures
        e == op_end(text@, p as int),
        p <= e <= text@.len(),
{
    let mut e = p;
    while e < text.len() && op_char(text[e])
        invariant
            p <= e <= text@.len(),
            op_end(text@, p as int) == op_end(text@, e as int),
        decreases text@.len() - e,
    {
        e = e + 1;
    }
    e
}

/// The end of the run of identifier characters that starts at `p`.
fn skip_ident(text: &Vec<char>, p: usize) -> (e: usize)
    requires
        p <= text@.len(),
    ensures
        e == ident_end(text@, p as int),
        p <= e <= text@.len(),
{
    let mut e = p;
    while e < text.len() && ident_part(text[e])
        invariant
            p <= e <= text@.len(),
            ident_end(text@, p as int) == ident_end(text@, e as int),
        decreases text@.len() - e,
    {
        e = e + 1;
    }
    e
}

/// The position of the first `c` from `p` on, or the end of the text.
fn seek(text: &Vec<char>, c: char, p: usize) -> (e: usize)
    requires
        p <= text@.len(),
    ensures
        e == find(text@, c, p as int),
        p <= e <= text@.len(),
{
    let mut e = p;
    while e < text.len() && text[e] != c
        invariant
            p <= e <= text@.len(),
            find(text@, c, p as int) == find(text@, c, e as int),
        decreases text@.len() - e,
    {
        e = e + 1;
    }
    e
}

/// The end of the comment that stands at `p`, with the white space around
/// it.
fn comment(text: &Vec<char>, p: usize) -> (r: Option<usize>)
    requires
        p <= text@.len(),
    ensures
        r matches Some(e) ==> comment_at(text@, p as int) == Some(e as int) && p < e
            <= text@.len(),
        r is None ==> comment_at(text@, p as int) is None,
{
    let q = skip_space(text, p);
    if q < text.len() && text.len() - q >= 2 && text[q] == '/' && text[q + 1] == '/' {
        let n = seek(text, '\n', q + 2);
        if n < text.len() {
            return Some(skip_space(text, n + 1));
        }
    }
    None
}

/// The end of the comments that stand at `p`.
fn skip_comments(text: &Vec<char>, p: usize) -> (e: usize)
    requires
        p <= text@.len(),
    ensures
        e == comments_end(text@, p as int),
        p <= e <= text@.len(),
{
    let mut e = p;
    loop
        invariant
            p <= e <= text@.len(),
            comments_end(text@, p as int) == comments_end(text@, e as int),
        ensures
            comment_at(text@, e as int) is None,
        decreases text@.len() - e,
    {
        match comment(text, e) {
            Some(r) => {
                e = r;
            },
            None => {
                break;
            },
        }
    }
    e
}

/// Whether the word of `text` from `from` up to `to` is `word`.
fn spells(text: &Vec<char>, from: usize, to: usize, word: &str) -> (b: bool)
    requires
        from <= to <= text@.len(),
    ensures
        b == (text@.subrange(from as int, to as int) == word@),
{
    let n = word.unicode_len();
    if to - from != n {
        return false;
    }
    let mut i: usize = 0;
    while i < n
        invariant
            i <= n,
            n == word@.len(),
            to - from == n,
            to <= text@.len(),
            forall|k: int| 0 <= k < i ==> text@[from + k] == word@[k],
        decreases n - i,
    {
        if text[from + i] != word.get_char(i) {
            assert(text@.subrange(from as int, to as int)[i as int] != word@[i as int]);
            return false;
        }
        i = i + 1;
    }
    assert(text@.subrange(from as int, to as int) =~= word@);
    true
}

/// The token that the word of `text` from `from` up to `to` is.
fn word(text: &Vec<char>, from: usize, to: usize) -> (t: Token)
    requires
        from <= to <= text@.len(),
    ensures
        t@ == word_token(text@.subrange(from as int, to as int)),
{
    if spells(text, from, to, "class") {
        Token::Class
    } else if spells(text, from, to, "var") {
        Token::Var
    } else if spells(text, from, to, "has") {
        Token::Has
    } else if spells(text, from, to, "on") {
        Token::On
    } else if spells(text, from, to, "action") {
        Token::Action
    } else if spells(text, from, to, "parameter") {
        Token::Parameter
    } else if spells(text, from, to, "function") {
        Token::Function
    } else if spells(text, from, to, "for") {
        Token::For
    } else if spells(text, from, to, "if") {
        Token::If
    } else if spells(text, from, to, "else") {
        Token::Else
    } else if spells(text, from, to, "true") {
        Token::Bool(true)
    } else if spells(text, from, to, "false") {
        Token::Bool(false)
    } else {
        Token::Ident(string_from(text, from, to))
    }
}

/// The token that starts at position `p` of `text`, and the position after
/// it; `None` where no token starts there.
pub fn token(text: &Vec<char>, p: usize) -> (r: Option<(Token, usize)>)
    requires
        p <= text@.len(),
    ensures
        r matches Some((t, q)) ==> token_at(text@, p as int) == Some((t@, q as int)) && p < q
            <= text@.len(),
        r is None ==> token_at(text@, p as int) is None,
{
    if p >= text.len() {
        return None;
    }
    let c = text[p];
    if numeral(c) {
        let a = if c == '0' {
            p + 1
        } else {
            skip_digits(text, p + 1)
        };
        let e = if a < text.len() && text.len() - a >= 2 && text[a] == '.' && numeral(text[a + 1]) {
            skip_digits(text, a + 1)
        } else {
            a
        };
        Some((Token::Number(string_from(text, p, e)), e))
    } else if c == '"' {
        let b = seek(text, '"', p + 1);
        if b < text.len() {
            Some((Token::Str(string_from(text, p + 1, b)), b + 1))
        } else {
            None
        }
    } else if op_char(c) {
        let e = skip_op(text, p + 1);
        assert(op_end(text@, p as int) == e);
        Some((Token::Op(string_from(text, p, e)), e))
    } else if c == '(' {
        Some((Token::LParen, p + 1))
    } else if c == ')' {
        Some((Token::RParen, p + 1))
    } else if c == '{' {
        Some((Token::LBracket, p + 1))
    } else if c == '}' {
        Some((Token::RBracket, p + 1))
    } else if c == ':' {
        Some((Token::Colon, p + 1))
    } else if c == '.' {
        Some((Token::Dot, p + 1))
    } else if c == ',' {
        Some((Token::Comma, p + 1))
    } else if ident_start(c) {
        let e = skip_ident(text, p + 1);
        Some((word(text, p, e), e))
    } else {
        None
    }
}

/// The tokens of `src` with their spans, as far as `src` is made of tokens.
pub fn lexer(src: &str) -> (toks: Vec<(Token, Span)>)
    ensures
        spanned_view(toks@) == tokens_at(src@, 0),
{
    let text = chars_of(src);
    let mut toks: Vec<(Token, Span)> = Vec::new();
    let mut pos: usize = 0;
    assert(spanned_view(toks@) =~= Seq::empty());
    loop
        invariant
            pos <= text@.len(),
            text@ == src@,
            tokens_at(src@, 0) == spanned_view(toks@) + tokens_at(text@, pos as int),
        ensures
            tokens_at(text@, pos as int) == Seq::<Spanned>::empty(),
        decreases text@.len() - pos,
    {
        let start = skip_space(&text, pos);
        let first = skip_comments(&text, start);
        match token(&text, first) {
            None => {
                break;
            },
            Some((t, after)) => {
                let end = skip_comments(&text, after);
                let next = skip_space(&text, end);
                let ghost before = spanned_view(toks@);
                let ghost item = Spanned { token: t@, start: start as int, end: end as int };
                toks.push((t, start..end));
                assert(spanned_view(toks@) =~= before.push(item));
                assert(before + (seq![item] + tokens_at(text@, next as int)) =~= spanned_view(
                    toks@,
                ) + tokens_at(text@, next as int));
                pos = next;
            },
        }
    }
    assert(spanned_view(toks@) + Seq::<Spanned>::empty() =~= spanned_view(toks@));
    toks
}

} // verus!
