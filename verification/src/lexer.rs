//! The tokenizer of the expression language.
//!
//! Blanks, that is spaces and line ends, separate tokens. A word runs up to
//! the next terminal character: `;`, `)`, a blank, or the end of the text.
//! The tokenizer looks one character ahead; at the end of the text and after
//! it the character ahead counts as a line end. Reading a character moves the
//! position on by one, also where the end of the text is behind it.

use vstd::prelude::*;
use crate::text::{chars_of, decimal, digit, digit_value, is_digit, push_decimal, push_str, string_from};

verus! {

/// Why the text could not be tokenized: the message.
#[derive(Debug, Clone, PartialEq, Eq)]
pub struct LexerError(pub String);

/// A token.
#[derive(Debug, Clone, PartialEq, Eq)]
pub enum Token {
    /// `(`
    LParen,
    /// `)`
    RParen,
    /// `[`
    LBrace,
    /// `]`
    RBrace,
    /// `{`
    LBracket,
    /// `}`
    RBracket,
    /// A word that starts with a capital letter.
    Symbol(String),
    /// A word that starts with a small letter or an operator character.
    Message(String),
    /// A number without a decimal point.
    Integer(isize),
    /// A number with a decimal point: its text.
    Float(String),
    /// `.`
    Dot,
    /// A comment: the text between the `;` that opens it and the character
    /// that ends it.
    Comment(String),
    /// The end of the text.
    EOF,
}

/// A token as a mathematical value.
pub enum TokenView {
    LParen,
    RParen,
    LBrace,
    RBrace,
    LBracket,
    RBracket,
    Symbol(Seq<char>),
    Message(Seq<char>),
    Integer(int),
    Float(Seq<char>),
    Dot,
    Comment(Seq<char>),
    EOF,
}

impl View for Token {
    type V = TokenView;

    open spec fn view(&self) -> TokenView {
        match self {
            Token::LParen => TokenView::LParen,
            Token::RParen => TokenView::RParen,
            Token::LBrace => TokenView::LBrace,
            Token::RBrace => TokenView::RBrace,
            Token::LBracket => TokenView::LBracket,
            Token::RBracket => TokenView::RBracket,
            Token::Symbol(s) => TokenView::Symbol(s@),
            Token::Message(s) => TokenView::Message(s@),
            Token::Integer(n) => TokenView::Integer(*n as int),
            Token::Float(s) => TokenView::Float(s@),
            Token::Dot => TokenView::Dot,
            Token::Comment(s) => TokenView::Comment(s@),
            Token::EOF => TokenView::EOF,
        }
    }
}

/// The views of a sequence of tokens.
pub open spec fn tokens_view(toks: Seq<Token>) -> Seq<TokenView> {
    toks.map_values(|t: Token| t@)
}

/// The view of the result of one step.
pub open spec fn step_view(r: Result<Token, LexerError>) -> Result<TokenView, Seq<char>> {
    match r {
        Ok(t) => Ok(t@),
        Err(e) => Err(e.0@),
    }
}

/// The view of the result of a whole run.
pub open spec fn run_view(r: Result<Vec<Token>, LexerError>) -> Result<Seq<TokenView>, Seq<char>> {
    match r {
        Ok(toks) => Ok(tokens_view(toks@)),
        Err(e) => Err(e.0@),
    }
}

/// A space or a line end.
pub open spec fn is_blank(c: char) -> bool {
    c == ' ' || c == '\n'
}

/// A character that ends a word.
pub open spec fn is_terminal(c: char) -> bool {
    c == ';' || c == ')' || c == ' ' || c == '\n'
}

/// A character that ends a comment.
pub open spec fn is_comment_terminal(c: char) -> bool {
    c == '\n' || c == ';'
}

/// A character that a message starts with: a small letter before `z`, or an
/// operator character.
pub open spec fn is_message_start(c: char) -> bool {
    ('a' <= c < 'z') || c == '*' || c == '+' || c == '-' || c == '/'
}

/// A character that a symbol starts with: a capital letter before `Z`.
pub open spec fn is_symbol_start(c: char) -> bool {
    'A' <= c < 'Z'
}

/// A character that a number starts with: a digit before `9`.
pub open spec fn is_number_start(c: char) -> bool {
    '0' <= c < '9'
}

/// The character at position `p`; at the end of the text, a line end.
pub open spec fn cur_at(text: Seq<char>, p: int) -> char {
    if 0 <= p < text.len() {
        text[p]
    } else {
        '\n'
    }
}

/// The end of the word that holds position `p`: the first position from `p`
/// on that holds a terminal character, or the end of the text.
pub open spec fn word_end(text: Seq<char>, p: int) -> int
    decreases text.len() - p,
{
    if p < 0 || p >= text.len() || is_terminal(text[p]) {
        p
    } else {
        word_end(text, p + 1)
    }
}

/// The end of the comment that holds position `p`.
pub open spec fn comment_end(text: Seq<char>, p: int) -> int
    decreases text.len() - p,
{
    if p < 0 || p >= text.len() || is_comment_terminal(text[p]) {
        p
    } else {
        comment_end(text, p + 1)
    }
}

/// Where the next token starts once a blank was read, with `q` the position
/// ahead: the first character of the token, and the position after it. Each
/// step reads the character ahead and moves on by one. It stops without a
/// character where the position is then at the end of the text or after it,
/// whatever was read.
pub open spec fn after_blanks(text: Seq<char>, q: int) -> (Option<char>, int)
    decreases text.len() - q,
{
    if q < 0 || q + 1 >= text.len() {
        (None, q + 1)
    } else if is_blank(text[q]) {
        after_blanks(text, q + 1)
    } else {
        (Some(text[q]), q + 1)
    }
}

/// Where the next token starts, seen from position `p`: its first character,
/// if the end of the text is not met first, and the position after what was
/// read. At the end of the text and after it, two characters are read.
pub open spec fn token_start(text: Seq<char>, p: int) -> (Option<char>, int) {
    if !is_blank(cur_at(text, p)) {
        (Some(cur_at(text, p)), p + 1)
    } else {
        after_blanks(text, p + 1)
    }
}

/// Why a word is no integer.
pub enum IntFault {
    /// A character of the word is no digit.
    InvalidDigit,
    /// The digits read so far give a number above the largest `isize`.
    Overflow,
}

/// The integer that the digits of `word` from position `i` on give, after
/// the digits before gave `acc`. The word is read from left to right, and the
/// first character that is no digit, or that takes the number above the
/// largest `isize`, stops the reading.
pub open spec fn scan_integer(word: Seq<char>, i: int, acc: int) -> Result<int, IntFault>
    decreases word.len() - i,
{
    if i < 0 || i >= word.len() {
        Ok(acc)
    } else if !is_digit(word[i]) {
        Err(IntFault::InvalidDigit)
    } else if acc * 10 + digit_value(word[i]) > isize::MAX {
        Err(IntFault::Overflow)
    } else {
        scan_integer(word, i + 1, acc * 10 + digit_value(word[i]))
    }
}

/// The end of the run of digits that starts at position `i`.
pub open spec fn digits_end(s: Seq<char>, i: int) -> int
    decreases s.len() - i,
{
    if i < 0 || i >= s.len() || !is_digit(s[i]) {
        i
    } else {
        digits_end(s, i + 1)
    }
}

/// Where the digits of an exponent start, for an exponent mark at position
/// `b`: after the mark and after the sign, if there is one.
pub open spec fn exponent_digits(s: Seq<char>, b: int) -> int {
    if b + 1 < s.len() && (s[b + 1] == '+' || s[b + 1] == '-') {
        b + 2
    } else {
        b + 1
    }
}

/// Whether `s` is the text of a number with a decimal point: digits, a
/// point, digits if any, and then an exponent if any, which is `e` or `E`, a
/// sign if any, and digits.
pub open spec fn is_float_text(s: Seq<char>) -> bool {
    let a = digits_end(s, 0);
    let b = digits_end(s, a + 1);
    let c = exponent_digits(s, b);
    &&& 1 <= a < s.len()
    &&& s[a] == '.'
    &&& (b == s.len() || ((s[b] == 'e' || s[b] == 'E') && c < s.len() && digits_end(s, c)
        == s.len()))
}

/// The message of a failure at position `pos`.
pub open spec fn fault_text(pos: int, reason: Seq<char>) -> Seq<char> {
    "Lexer error at "@ + decimal(pos as nat) + ": "@ + reason
}

/// The reason given for a word that is no integer.
pub open spec fn integer_reason(fault: IntFault) -> Seq<char> {
    match fault {
        IntFault::InvalidDigit => "invalid digit found in string"@,
        IntFault::Overflow => "number too large to fit in target type"@,
    }
}

/// The token of a number word that ends at position `end`, or the failure.
/// A word with a point is a float where it has the form of one. A word
/// without is an integer where it is made of digits and fits.
pub open spec fn number_token(word: Seq<char>, end: int) -> Result<TokenView, Seq<char>> {
    if word.contains('.') {
        if is_float_text(word) {
            Ok(TokenView::Float(word))
        } else {
            Err(fault_text(end, "invalid float literal"@))
        }
    } else {
        match scan_integer(word, 0, 0) {
            Ok(n) => Ok(TokenView::Integer(n)),
            Err(fault) => Err(fault_text(end, integer_reason(fault))),
        }
    }
}

/// The token that starts with the character `c`, the position after which
/// is `q`, and the position after the token.
pub open spec fn token_at(text: Seq<char>, c: char, q: int) -> (Result<TokenView, Seq<char>>, int) {
    if c == '(' {
        (Ok(TokenView::LParen), q)
    } else if c == ')' {
        (Ok(TokenView::RParen), q)
    } else if c == '[' {
        (Ok(TokenView::LBrace), q)
    } else if c == ']' {
        (Ok(TokenView::RBrace), q)
    } else if c == '{' {
        (Ok(TokenView::LBracket), q)
    } else if c == '}' {
        (Ok(TokenView::RBracket), q)
    } else if c == '.' {
        (Ok(TokenView::Dot), q)
    } else if is_message_start(c) {
        (Ok(TokenView::Message(text.subrange(q - 1, word_end(text, q)))), word_end(text, q))
    } else if is_symbol_start(c) {
        (Ok(TokenView::Symbol(text.subrange(q - 1, word_end(text, q)))), word_end(text, q))
    } else if is_number_start(c) {
        (number_token(text.subrange(q - 1, word_end(text, q)), word_end(text, q)), word_end(text, q))
    } else if c == ';' {
        (
            Ok(TokenView::Comment(text.subrange(q, comment_end(text, q)))),
            comment_end(text, q) + 1,
        )
    } else {
        (Err(fault_text(q, "invalid char "@.push(c))), q)
    }
}

/// One step of the tokenizer from position `p`: the token or the failure,
/// and the position after it. Where the end of the text is met before a
/// token starts, the token is `EOF`.
pub open spec fn next_token(text: Seq<char>, p: int) -> (Result<TokenView, Seq<char>>, int) {
    match token_start(text, p) {
        (None, q) => (Ok(TokenView::EOF), q),
        (Some(c), q) => token_at(text, c, q),
    }
}

/// The position after the tokens of the text from position `p` on were
/// read: the position after the `EOF` or the failure that ends them.
pub open spec fn tokens_end(text: Seq<char>, p: int) -> int
    decreases text.len() + 1 - p,
{
    match next_token(text, p) {
        (Err(e), q) => q,
        (Ok(TokenView::EOF), q) => q,
        (Ok(t), q) => if p < q <= text.len() + 1 {
            tokens_end(text, q)
        } else {
            q
        },
    }
}

/// The tokens of the text from position `p` on, up to the end of the text,
/// or the first failure.
pub open spec fn tokens_from(text: Seq<char>, p: int) -> Result<Seq<TokenView>, Seq<char>>
    decreases text.len() + 1 - p,
{
    match next_token(text, p) {
        (Err(e), _) => Err(e),
        (Ok(TokenView::EOF), _) => Ok(Seq::empty()),
        (Ok(t), q) => if p < q <= text.len() + 1 {
            match tokens_from(text, q) {
                Ok(rest) => Ok(seq![t] + rest),
                Err(e) => Err(e),
            }
        } else {
            Ok(seq![t])
        },
    }
}

/// The end of a word is not before its start and not after the end of the
/// text, and no character of the word is a terminal.
pub proof fn lemma_word_end(text: Seq<char>, p: int)
    requires
        0 <= p <= text.len(),
    ensures
        p <= word_end(text, p) <= text.len(),
        word_end(text, p) < text.len() ==> is_terminal(text[word_end(text, p)]),
        forall|i: int| p <= i < word_end(text, p) ==> !is_terminal(#[trigger] text[i]),
    decreases text.len() - p,
{
    if p < text.len() && !is_terminal(text[p]) {
        lemma_word_end(text, p + 1);
    }
}

/// The same, of a comment.
pub proof fn lemma_comment_end(text: Seq<char>, p: int)
    requires
        0 <= p <= text.len(),
    ensures
        p <= comment_end(text, p) <= text.len(),
        comment_end(text, p) < text.len() ==> is_comment_terminal(text[comment_end(text, p)]),
        forall|i: int| p <= i < comment_end(text, p) ==> !is_comment_terminal(#[trigger] text[i]),
    decreases text.len() - p,
{
    if p < text.len() && !is_comment_terminal(text[p]) {
        lemma_comment_end(text, p + 1);
    }
}

/// The search for the start of a token moves forward. A token starts within
/// the text, with a character that is no blank. Where none starts, the search
/// ends at the end of the text or after it: one position after the text
/// where it began within the text, two positions on where it did not.
pub proof fn lemma_token_start(text: Seq<char>, p: int)
    requires
        0 <= p,
    ensures
        p < token_start(text, p).1,
        token_start(text, p) matches (Some(c), q) ==> p < text.len() && q <= text.len() && c
            == text[q - 1] && !is_blank(c),
        token_start(text, p) matches (None, q) ==> text.len() <= q && q <= (if p < text.len() {
            text.len() as int + 1
        } else {
            p + 2
        }),
{
    if is_blank(cur_at(text, p)) {
        lemma_after_blanks(text, p + 1);
    }
}

/// The same, once a blank was read.
proof fn lemma_after_blanks(text: Seq<char>, q: int)
    requires
        0 <= q,
    ensures
        q < after_blanks(text, q).1,
        after_blanks(text, q) matches (Some(c), r) ==> q + 1 < text.len() && r <= text.len() && c
            == text[r - 1] && !is_blank(c),
        after_blanks(text, q) matches (None, r) ==> text.len() <= r && r <= (if q < text.len() {
            text.len() as int
        } else {
            q + 1
        }),
    decreases text.len() - q,
{
    if q + 1 < text.len() && is_blank(text[q]) {
        lemma_after_blanks(text, q + 1);
    }
}

/// Every step moves the position forward. A step that begins within the
/// text ends at most one position after the text; a step that begins at the
/// end of the text or after it gives `EOF` and ends two positions on. A
/// token other than `EOF`, and a failure, come only of a step that begins
/// within the text.
pub proof fn lemma_next_token_advances(text: Seq<char>, p: int)
    requires
        0 <= p,
    ensures
        p < next_token(text, p).1,
        p < text.len() ==> next_token(text, p).1 <= text.len() + 1,
        p >= text.len() ==> next_token(text, p) == (
            Ok::<TokenView, Seq<char>>(TokenView::EOF),
            p + 2,
        ),
{
    lemma_token_start(text, p);
    match token_start(text, p) {
        (None, q) => {},
        (Some(c), q) => {
            lemma_word_end(text, q);
            lemma_comment_end(text, q);
        },
    }
}

/// The integer that the digits of `chars` from `from` up to `to` give, or
/// why they give none.
pub fn integer_of(chars: &Vec<char>, from: usize, to: usize) -> (r: Result<isize, IntFault>)
    requires
        from <= to <= chars@.len(),
    ensures
        match scan_integer(chars@.subrange(from as int, to as int), 0, 0) {
            Ok(n) => r is Ok && r->Ok_0 == n,
            Err(fault) => r == Err::<isize, IntFault>(fault),
        },
{
    let ghost word = chars@.subrange(from as int, to as int);
    let mut acc: isize = 0;
    let mut i: usize = from;
    while i < to
        invariant
            from <= i <= to,
            to <= chars@.len(),
            word == chars@.subrange(from as int, to as int),
            0 <= acc,
            scan_integer(word, 0, 0) == scan_integer(word, i - from, acc as int),
        decreases to - i,
    {
        assert(word[i - from] == chars@[i as int]);
        match digit(chars[i]) {
            None => {
                return Err(IntFault::InvalidDigit);
            },
            Some(d) => {
                let shifted = match acc.checked_mul(10) {
                    Some(m) => m,
                    None => {
                        return Err(IntFault::Overflow);
                    },
                };
                acc = match shifted.checked_add(d as isize) {
                    Some(n) => n,
                    None => {
                        return Err(IntFault::Overflow);
                    },
                };
            },
        }
        i = i + 1;
    }
    Ok(acc)
}

/// A tokenizer over a program text.
#[derive(Debug)]
pub struct Lexer {
    program: Vec<char>,
    cur_idx: usize,
}

impl Lexer {
    /// The characters of the program.
    pub closed spec fn text(&self) -> Seq<char> {
        self.program@
    }

    /// The position of the character ahead.
    pub closed spec fn pos(&self) -> int {
        self.cur_idx as int
    }

    /// The machine can count as far as a step may go: two positions on from
    /// where the tokenizer is, and three after the text.
    pub open spec fn fits(&self) -> bool {
        self.pos() + 2 <= usize::MAX && self.text().len() + 3 <= usize::MAX
    }

    /// A tokenizer at the start of `program`.
    pub fn new(program: String) -> (l: Self)
        ensures
            l.text() == program@,
            l.pos() == 0,
    {
        Self { program: chars_of(program.as_str()), cur_idx: 0 }
    }

    /// The position of the character ahead.
    pub fn position(&self) -> (p: usize)
        ensures
            p == self.pos(),
    {
        self.cur_idx
    }

    /// Whether the machine can count as far as a step may go.
    pub fn within_limits(&self) -> (b: bool)
        ensures
            b == self.fits(),
    {
        self.cur_idx <= usize::MAX - 2 && self.program.len() <= usize::MAX - 3
    }

    /// The failure with the message `msg`, at the position where the
    /// tokenizer is.
    fn error(&self, msg: String) -> (e: LexerError)
        ensures
            e.0@ == fault_text(self.pos(), msg@),
    {
        let mut s = String::new();
        push_str(&mut s, "Lexer error at ");
        push_decimal(&mut s, self.cur_idx);
        push_str(&mut s, ": ");
        push_str(&mut s, msg.as_str());
        assert(s@ =~= fault_text(self.pos(), msg@));
        LexerError(s)
    }

    /// The character ahead.
    fn cur(&self) -> (c: char)
        ensures
            c == cur_at(self.text(), self.pos()),
    {
        if self.ended() {
            '\n'
        } else {
            self.program[self.cur_idx]
        }
    }

    /// Reads the character ahead and moves on by one.
    fn chomp(&mut self) -> (c: char)
        requires
            old(self).pos() < usize::MAX,
        ensures
            final(self).text() == old(self).text(),
            c == cur_at(old(self).text(), old(self).pos()),
            final(self).pos() == old(self).pos() + 1,
    {
        let c = self.cur();
        self.cur_idx += 1;
        c
    }

    /// Whether the end of the text is reached.
    fn ended(&self) -> (b: bool)
        ensures
            b == (self.pos() >= self.text().len()),
    {
        self.cur_idx >= self.program.len()
    }

    /// Whether a word ends here.
    fn terminal_char(&self) -> (b: bool)
        ensures
            b == (self.pos() >= self.text().len() || is_terminal(
                cur_at(self.text(), self.pos()),
            )),
    {
        if self.ended() {
            true
        } else {
            let c = self.cur();
            c == ';' || c == ')' || c == ' ' || c == '\n'
        }
    }

    /// Whether a comment ends here.
    fn comment_terminal(&self) -> (b: bool)
        ensures
            b == (self.pos() >= self.text().len() || is_comment_terminal(
                cur_at(self.text(), self.pos()),
            )),
    {
        if self.ended() {
            true
        } else {
            let c = self.cur();
            c == '\n' || c == ';'
        }
    }

    /// Reads on to the end of the word whose first character was just read,
    /// and gives the word.
    fn word(&mut self) -> (w: String)
        requires
            1 <= old(self).pos() <= old(self).text().len(),
        ensures
            final(self).text() == old(self).text(),
            final(self).pos() == word_end(old(self).text(), old(self).pos()),
            w@ == old(self).text().subrange(
                old(self).pos() - 1,
                word_end(old(self).text(), old(self).pos()),
            ),
    {
        let start = self.cur_idx - 1;
        proof {
            lemma_word_end(self.text(), self.pos());
        }
        assert(self.program.len() <= usize::MAX);
        while !self.terminal_char()
            invariant
                self.text() == old(self).text(),
                self.text().len() <= usize::MAX,
                old(self).pos() <= self.pos() <= self.text().len(),
                word_end(self.text(), self.pos()) == word_end(old(self).text(), old(self).pos()),
            decreases self.text().len() - self.pos(),
        {
            self.chomp();
        }
        string_from(&self.program, start, self.cur_idx)
    }

    /// The integer that the digits of the program from `from` up to `to`
    /// give.
    fn integer(&self, from: usize, to: usize) -> (r: Result<isize, IntFault>)
        requires
            from <= to <= self.text().len(),
        ensures
            match scan_integer(self.text().subrange(from as int, to as int), 0, 0) {
                Ok(n) => r is Ok && r->Ok_0 == n,
                Err(fault) => r == Err::<isize, IntFault>(fault),
            },
    {
        integer_of(&self.program, from, to)
    }

    /// The end of the run of digits of the program that starts at `i`,
    /// within the word that ends at `to`.
    fn digits(&self, from: usize, i: usize, to: usize) -> (e: usize)
        requires
            from <= i <= to <= self.text().len(),
        ensures
            i <= e <= to,
            e - from == digits_end(self.text().subrange(from as int, to as int), i - from),
    {
        let ghost word = self.text().subrange(from as int, to as int);
        let mut e: usize = i;
        while e < to
            invariant
                from <= i <= e <= to,
                to <= self.text().len(),
                word == self.text().subrange(from as int, to as int),
                digits_end(word, i - from) == digits_end(word, e - from),
            decreases to - e,
        {
            assert(word[e - from] == self.text()[e as int]);
            if digit(self.program[e]).is_none() {
                return e;
            }
            e = e + 1;
        }
        e
    }

    /// Whether the word of the program from `from` up to `to` is the text of
    /// a number with a decimal point.
    fn float_text(&self, from: usize, to: usize) -> (b: bool)
        requires
            from <= to <= self.text().len(),
        ensures
            b == is_float_text(self.text().subrange(from as int, to as int)),
    {
        let ghost word = self.text().subrange(from as int, to as int);
        let a = self.digits(from, from, to);
        if a == from || a >= to {
            return false;
        }
        assert(word[a - from] == self.text()[a as int]);
        if self.program[a] != '.' {
            return false;
        }
        let b = self.digits(from, a + 1, to);
        if b == to {
            return true;
        }
        assert(word[b - from] == self.text()[b as int]);
        if self.program[b] != 'e' && self.program[b] != 'E' {
            return false;
        }
        let mut c = b + 1;
        if c < to {
            assert(word[c - from] == self.text()[c as int]);
            if self.program[c] == '+' || self.program[c] == '-' {
                c = c + 1;
            }
        }
        if c >= to {
            return false;
        }
        self.digits(from, c, to) == to
    }

    /// Whether the program holds a point from `from` up to `to`.
    fn has_point(&self, from: usize, to: usize) -> (b: bool)
        requires
            from <= to <= self.text().len(),
        ensures
            b == self.text().subrange(from as int, to as int).contains('.'),
    {
        let ghost word = self.text().subrange(from as int, to as int);
        let mut i: usize = from;
        while i < to
            invariant
                from <= i <= to,
                to <= self.text().len(),
                word == self.text().subrange(from as int, to as int),
                forall|k: int| 0 <= k < i - from ==> word[k] != '.',
            decreases to - i,
        {
            assert(word[i - from] == self.text()[i as int]);
            if self.program[i] == '.' {
                assert(word.contains('.'));
                return true;
            }
            i = i + 1;
        }
        false
    }

    /// The token of the number whose first character was just read.
    fn number(&mut self) -> (r: Result<Token, LexerError>)
        requires
            1 <= old(self).pos() <= old(self).text().len(),
        ensures
            final(self).text() == old(self).text(),
            final(self).pos() == word_end(old(self).text(), old(self).pos()),
            step_view(r) == number_token(
                old(self).text().subrange(
                    old(self).pos() - 1,
                    word_end(old(self).text(), old(self).pos()),
                ),
                word_end(old(self).text(), old(self).pos()),
            ),
    {
        let from = self.cur_idx - 1;
        proof {
            lemma_word_end(self.text(), self.pos());
        }
        let text = self.word();
        let to = self.cur_idx;
        if self.has_point(from, to) {
            if self.float_text(from, to) {
                Ok(Token::Float(text))
            } else {
                let mut reason = String::new();
                push_str(&mut reason, "invalid float literal");
                Err(self.error(reason))
            }
        } else {
            match self.integer(from, to) {
                Ok(n) => Ok(Token::Integer(n)),
                Err(fault) => {
                    let mut reason = String::new();
                    match fault {
                        IntFault::InvalidDigit => push_str(
                            &mut reason,
                            "invalid digit found in string",
                        ),
                        IntFault::Overflow => push_str(
                            &mut reason,
                            "number too large to fit in target type",
                        ),
                    }
                    Err(self.error(reason))
                },
            }
        }
    }

    /// One step: the next token, or the failure. Where the end of the text
    /// is met before a token starts, the token is `EOF`. The position moves
    /// forward in every case, also at the end of the text and after it.
    pub fn next(&mut self) -> (r: Result<Token, LexerError>)
        requires
            old(self).fits(),
        ensures
            final(self).text() == old(self).text(),
            (step_view(r), final(self).pos()) == next_token(old(self).text(), old(self).pos()),
            final(self).pos() > old(self).pos(),
    {
        proof {
            lemma_token_start(old(self).text(), old(self).pos());
            lemma_next_token_advances(old(self).text(), old(self).pos());
        }
        let mut c = self.chomp();
        while c == ' ' || c == '\n'
            invariant
                self.text() == old(self).text(),
                old(self).fits(),
                self.pos() == old(self).pos() + 1 || self.pos() < self.text().len(),
                c == ' ' || c == '\n' ==> token_start(old(self).text(), old(self).pos())
                    == after_blanks(self.text(), self.pos()),
                !(c == ' ' || c == '\n') ==> token_start(old(self).text(), old(self).pos()) == (
                    Some(c),
                    self.pos(),
                ),
            decreases self.text().len() - self.pos(),
        {
            c = self.chomp();
            if self.ended() {
                return Ok(Token::EOF);
            }
        }
        proof {
            lemma_comment_end(self.text(), self.pos());
            lemma_word_end(self.text(), self.pos());
        }
        match c {
            '(' => Ok(Token::LParen),
            ')' => Ok(Token::RParen),
            '[' => Ok(Token::LBrace),
            ']' => Ok(Token::RBrace),
            '{' => Ok(Token::LBracket),
            '}' => Ok(Token::RBracket),
            '.' => Ok(Token::Dot),
            'a'..='y' | '*' | '+' | '-' | '/' => Ok(Token::Message(self.word())),
            'A'..='Y' => Ok(Token::Symbol(self.word())),
            '0'..='8' => self.number(),
            ';' => {
                let start = self.cur_idx;
                while !self.comment_terminal()
                    invariant
                        self.text() == old(self).text(),
                        self.text().len() < usize::MAX,
                        start <= self.pos() <= self.text().len(),
                        comment_end(self.text(), self.pos()) == comment_end(
                            self.text(),
                            start as int,
                        ),
                    decreases self.text().len() - self.pos(),
                {
                    self.chomp();
                }
                let comment = string_from(&self.program, start, self.cur_idx);
                self.chomp();
                Ok(Token::Comment(comment))
            },
            _ => {
                let mut reason = String::new();
                push_str(&mut reason, "invalid char ");
                reason.push(c);
                Err(self.error(reason))
            },
        }
    }

    /// The tokens from where the tokenizer is up to the end of the text, or
    /// the first failure.
    pub fn tokens(&mut self) -> (r: Result<Vec<Token>, LexerError>)
        requires
            old(self).fits(),
        ensures
            final(self).text() == old(self).text(),
            run_view(r) == tokens_from(old(self).text(), old(self).pos()),
            final(self).pos() == tokens_end(old(self).text(), old(self).pos()),
            final(self).pos() > old(self).pos(),
    {
        let mut toks: Vec<Token> = Vec::new();
        loop
            invariant
                self.text() == old(self).text(),
                self.fits(),
                old(self).pos() <= self.pos(),
                tokens_end(old(self).text(), old(self).pos()) == tokens_end(
                    self.text(),
                    self.pos(),
                ),
                tokens_from(old(self).text(), old(self).pos()) == (match tokens_from(
                    self.text(),
                    self.pos(),
                ) {
                    Ok(rest) => Ok::<Seq<TokenView>, Seq<char>>(tokens_view(toks@) + rest),
                    Err(e) => Err(e),
                }),
            decreases self.text().len() + 1 - self.pos(),
        {
            proof {
                lemma_next_token_advances(self.text(), self.pos());
            }
            let ghost before = tokens_view(toks@);
            match self.next() {
                Err(e) => {
                    return Err(e);
                },
                Ok(Token::EOF) => {
                    assert(tokens_view(toks@) + Seq::<TokenView>::empty() =~= tokens_view(toks@));
                    return Ok(toks);
                },
                Ok(tok) => {
                    toks.push(tok);
                    assert(tokens_view(toks@) =~= before.push(tok@));
                    assert forall|rest: Seq<TokenView>|
                        before + (seq![tok@] + rest) =~= tokens_view(toks@) + rest by {}
                },
            }
        }
    }
}

} // verus!
