//! Characters and strings: conversions, digits and decimal numerals.

use vstd::prelude::*;

verus! {

/// `String::push` appends the character to the end of the string.
pub assume_specification[ std::string::String::push ](s: &mut std::string::String, ch: char)
    ensures
        final(s)@ == old(s)@.push(ch),
;

/// Whether a character beyond the ASCII range is white space, as
/// `char::is_whitespace` tells it: by the Unicode property `White_Space`.
pub uninterp spec fn white_space(c: char) -> bool;

/// The white space of the ASCII range: the space, and the characters from
/// the tabulator through the carriage return.
pub open spec fn is_ascii_space(c: char) -> bool {
    c == ' ' || ('\t' <= c <= '\r')
}

/// Whether a character is white space: in the ASCII range one of the six
/// characters that are, beyond it a character with the Unicode property
/// `White_Space`.
pub open spec fn is_space(c: char) -> bool {
    if c <= '\x7f' {
        is_ascii_space(c)
    } else {
        white_space(c)
    }
}

/// `char::is_whitespace` tells whether the character has the Unicode
/// property `White_Space`. The result depends on the character alone. In the
/// ASCII range the space and the characters U+0009 through U+000D have the
/// property, and no other character has.
pub assume_specification[ char::is_whitespace ](c: char) -> (b: bool)
    ensures
        b == white_space(c),
        c <= '\x7f' ==> b == is_ascii_space(c),
;

/// The characters of a string, in order.
pub fn chars_of(s: &str) -> (v: Vec<char>)
    ensures
        v@ == s@,
{
    let mut v: Vec<char> = Vec::new();
    for c in it: s.chars()
        invariant
            v@ == it.seq().take(it.index() as int),
            it.seq() == s@,
    {
        v.push(c);
        assert(v@ =~= it.seq().take(it.index() + 1));
    }
    assert(s@.take(s@.len() as int) =~= s@);
    v
}

/// The string of the characters of `chars` from position `from` up to, not
/// including, position `to`.
pub fn string_from(chars: &Vec<char>, from: usize, to: usize) -> (s: String)
    requires
        from <= to <= chars@.len(),
    ensures
        s@ == chars@.subrange(from as int, to as int),
{
    let mut s = String::new();
    let mut i: usize = from;
    while i < to
        invariant
            from <= i <= to,
            to <= chars@.len(),
            s@ == chars@.subrange(from as int, i as int),
        decreases to - i,
    {
        s.push(chars[i]);
        assert(s@ =~= chars@.subrange(from as int, i + 1));
        i = i + 1;
    }
    s
}

/// Whether `c` is one of the ten decimal digits.
pub open spec fn is_digit(c: char) -> bool {
    '0' <= c <= '9'
}

/// The value of a decimal digit.
pub open spec fn digit_value(c: char) -> int {
    c as int - '0' as int
}

/// The decimal digit of a value below ten.
pub open spec fn digit_of(d: int) -> char {
    if d == 0 {
        '0'
    } else if d == 1 {
        '1'
    } else if d == 2 {
        '2'
    } else if d == 3 {
        '3'
    } else if d == 4 {
        '4'
    } else if d == 5 {
        '5'
    } else if d == 6 {
        '6'
    } else if d == 7 {
        '7'
    } else if d == 8 {
        '8'
    } else {
        '9'
    }
}

/// The decimal numeral of `n`, without leading zeros.
pub open spec fn decimal(n: nat) -> Seq<char>
    decreases n,
{
    if n < 10 {
        seq![digit_of(n as int)]
    } else {
        decimal(n / 10).push(digit_of((n % 10) as int))
    }
}

/// The value of the decimal digit `c`, or `None` where `c` is no digit.
pub fn digit(c: char) -> (r: Option<u8>)
    ensures
        is_digit(c) ==> r is Some && r->0 == digit_value(c),
        !is_digit(c) ==> r is None,
{
    match c {
        '0' => Some(0),
        '1' => Some(1),
        '2' => Some(2),
        '3' => Some(3),
        '4' => Some(4),
        '5' => Some(5),
        '6' => Some(6),
        '7' => Some(7),
        '8' => Some(8),
        '9' => Some(9),
        _ => None,
    }
}

/// The decimal digit of `d`.
pub fn digit_char(d: usize) -> (c: char)
    requires
        d < 10,
    ensures
        c == digit_of(d as int),
{
    if d == 0 {
        '0'
    } else if d == 1 {
        '1'
    } else if d == 2 {
        '2'
    } else if d == 3 {
        '3'
    } else if d == 4 {
        '4'
    } else if d == 5 {
        '5'
    } else if d == 6 {
        '6'
    } else if d == 7 {
        '7'
    } else if d == 8 {
        '8'
    } else {
        '9'
    }
}

/// Appends the decimal numeral of `n` to `s`.
pub fn push_decimal(s: &mut String, n: usize)
    ensures
        final(s)@ == old(s)@ + decimal(n as nat),
    decreases n,
{
    if n >= 10 {
        push_decimal(s, n / 10);
    }
    s.push(digit_char(n % 10));
    assert(s@ =~= old(s)@ + decimal(n as nat));
}

/// Appends the characters of `t` to `s`.
pub fn push_str(s: &mut String, t: &str)
    ensures
        final(s)@ == old(s)@ + t@,
{
    let ghost start = s@;
    for c in it: t.chars()
        invariant
            s@ == start + it.seq().take(it.index() as int),
            it.seq() == t@,
    {
        s.push(c);
        assert(s@ =~= start + it.seq().take(it.index() + 1));
    }
    assert(t@.take(t@.len() as int) =~= t@);
}

} // verus!
