//! The syntax of model definitions.

use vstd::prelude::*;
use crate::text::{chars_of, is_digit, string_from};

verus! {

/// A node of a model definition.
#[derive(Debug, Clone, PartialEq, Eq)]
pub enum AST {
    Agent,
    Name(String),
}

/// A node as a mathematical value.
pub enum AstView {
    Agent,
    Name(Seq<char>),
}

impl View for AST {
    type V = AstView;

    open spec fn view(&self) -> AstView {
        match self {
            AST::Agent => AstView::Agent,
            AST::Name(s) => AstView::Name(s@),
        }
    }
}

/// One of the 52 letters of the Latin alphabet.
pub open spec fn is_letter(c: char) -> bool {
    ('a' <= c <= 'z') || ('A' <= c <= 'Z')
}

/// A character that an identifier starts with: a letter or a low line.
pub open spec fn is_identifier_start(c: char) -> bool {
    is_letter(c) || c == '_'
}

/// A character that an identifier goes on with: a letter, a digit or a low
/// line.
pub open spec fn is_identifier_part(c: char) -> bool {
    is_letter(c) || is_digit(c) || c == '_'
}

/// The end of the run of identifier characters that starts at position `i`.
pub open spec fn identifier_end(s: Seq<char>, i: int) -> int
    decreases s.len() - i,
{
    if i < 0 || i >= s.len() || !is_identifier_part(s[i]) {
        i
    } else {
        identifier_end(s, i + 1)
    }
}

/// The length of the identifier that `s` starts with: 0 where it starts with
/// none, else the length of the longest run of identifier characters at its
/// start.
pub open spec fn identifier_len(s: Seq<char>) -> int {
    if s.len() > 0 && is_identifier_start(s[0]) {
        identifier_end(s, 1)
    } else {
        0
    }
}

/// Whether `c` is a letter.
fn letter(c: char) -> (b: bool)
    ensures
        b == is_letter(c),
{
    ('a' <= c && c <= 'z') || ('A' <= c && c <= 'Z')
}

/// Whether `c` can stand in an identifier after its first character.
fn part(c: char) -> (b: bool)
    ensures
        b == is_identifier_part(c),
{
    letter(c) || c == '_' || ('0' <= c && c <= '9')
}

/// Reads an identifier at the start of `input`: a letter or a low line, and
/// then as many letters, digits and low lines as follow. Gives the rest of
/// the input and the name read, or `None` where the input starts with no
/// identifier.
pub fn identifier(input: &str) -> (r: Option<(String, AST)>)
    ensures
        identifier_len(input@) == 0 ==> r is None,
        identifier_len(input@) > 0 ==> (r matches Some((rest, name)) && rest@ == input@.skip(
            identifier_len(input@),
        ) && name@ == AstView::Name(input@.take(identifier_len(input@)))),
{
    let chars = chars_of(input);
    if chars.len() == 0 {
        return None;
    }
    let first = chars[0];
    if !(letter(first) || first == '_') {
        return None;
    }
    let mut end: usize = 1;
    while end < chars.len() && part(chars[end])
        invariant
            1 <= end <= chars.len(),
            identifier_end(chars@, 1) == identifier_end(chars@, end as int),
        decreases chars.len() - end,
    {
        end = end + 1;
    }
    let name = string_from(&chars, 0, end);
    let rest = string_from(&chars, end, chars.len());
    assert(name@ =~= input@.take(end as int));
    assert(rest@ =~= input@.skip(end as int));
    Some((rest, AST::Name(name)))
}

} // verus!
