//! The grammar of the expression language, as functions on a text.
//!
//! Each function reads one construct at a position of the text and gives what
//! it read and the position after it, or `None` where the construct does not
//! stand there. Alternatives are tried in order and the first that succeeds
//! is taken; a repetition takes as many elements as it can get and is not
//! shortened afterwards.

use vstd::prelude::*;
use crate::parser::Expr;
use crate::text::{decimal, is_digit};

verus! {

/// A space or a line end.
pub open spec fn is_ws(c: char) -> bool {
    c == ' ' || c == '\n'
}

/// A capital letter.
pub open spec fn is_upper(c: char) -> bool {
    'A' <= c <= 'Z'
}

/// A small letter.
pub open spec fn is_lower(c: char) -> bool {
    'a' <= c <= 'z'
}

/// A character of the body of a symbol: a letter or a digit.
pub open spec fn is_symbol_char(c: char) -> bool {
    is_upper(c) || is_lower(c) || is_digit(c)
}

/// The end of the run of blanks that starts at `p`.
pub open spec fn ws_end(text: Seq<char>, p: int) -> int
    decreases text.len() - p,
{
    if p < 0 || p >= text.len() || !is_ws(text[p]) {
        p
    } else {
        ws_end(text, p + 1)
    }
}

/// The end of the run of letters and digits that starts at `p`.
pub open spec fn symbol_chars_end(text: Seq<char>, p: int) -> int
    decreases text.len() - p,
{
    if p < 0 || p >= text.len() || !is_symbol_char(text[p]) {
        p
    } else {
        symbol_chars_end(text, p + 1)
    }
}

/// The end of the body of a symbol that starts at `p`: letters and digits,
/// and then one `!` if there is one.
pub open spec fn symbody_end(text: Seq<char>, p: int) -> int {
    let a = symbol_chars_end(text, p);
    if 0 <= a < text.len() && text[a] == '!' {
        a + 1
    } else {
        a
    }
}

/// The end of the run of digits that starts at `p`.
pub open spec fn digit_run_end(text: Seq<char>, p: int) -> int
    decreases text.len() - p,
{
    if p < 0 || p >= text.len() || !is_digit(text[p]) {
        p
    } else {
        digit_run_end(text, p + 1)
    }
}

/// The end of the number that starts at `p` with a digit: digits, and then,
/// if a point follows, the point and the digits after it.
pub open spec fn number_end(text: Seq<char>, p: int) -> int {
    let a = digit_run_end(text, p);
    if 0 <= a < text.len() && text[a] == '.' {
        digit_run_end(text, a + 1)
    } else {
        a
    }
}

/// The position of the first quote from `p` on, or the end of the text.
pub open spec fn quote_at(text: Seq<char>, p: int) -> int
    decreases text.len() - p,
{
    if p < 0 || p >= text.len() || text[p] == '\'' {
        p
    } else {
        quote_at(text, p + 1)
    }
}

/// The key under which a keyed expression is held: the name of the message,
/// after a `$` where the message is quoted.
pub open spec fn mapkey(name: Seq<char>, vau: bool) -> Seq<char> {
    if vau {
        seq!['$'] + name
    } else {
        name
    }
}

/// The position of the key `key` among the pairs from position `i` on.
pub open spec fn key_index(pairs: Seq<(Seq<char>, Expr)>, key: Seq<char>, i: int) -> Option<int>
    decreases pairs.len() - i,
{
    if i < 0 || i >= pairs.len() {
        None
    } else if pairs[i].0 == key {
        Some(i)
    } else {
        key_index(pairs, key, i + 1)
    }
}

/// The keyed expressions after `value` was put under `key`: where the key is
/// held already, its expression is replaced, else the pair is added at the
/// end.
pub open spec fn put(pairs: Seq<(Seq<char>, Expr)>, key: Seq<char>, value: Expr) -> Seq<
    (Seq<char>, Expr),
> {
    match key_index(pairs, key, 0) {
        Some(i) => pairs.update(i, (key, value)),
        None => pairs.push((key, value)),
    }
}

/// The keyed expressions that hold, for each key of `raw`, the expression
/// that was written last under it, in the order in which the keys first
/// occur.
pub open spec fn map_of(raw: Seq<(Seq<char>, Expr)>) -> Seq<(Seq<char>, Expr)>
    decreases raw.len(),
{
    if raw.len() == 0 {
        Seq::empty()
    } else {
        put(map_of(raw.drop_last()), raw.last().0, raw.last().1)
    }
}

/// A message at `p`: an operator character, a name that starts with a small
/// letter, or `$` and such a name.
pub open spec fn message_at(text: Seq<char>, p: int) -> Option<(Expr, int)> {
    if p < 0 || p >= text.len() {
        None
    } else if text[p] == '*' || text[p] == '+' {
        Some((Expr::Message(seq![text[p]], false), p + 1))
    } else if is_lower(text[p]) {
        Some(
            (
                Expr::Message(text.subrange(p, symbody_end(text, p + 1)), false),
                symbody_end(text, p + 1),
            ),
        )
    } else if text[p] == '$' && p + 1 < text.len() && is_lower(text[p + 1]) {
        Some(
            (
                Expr::Message(text.subrange(p + 1, symbody_end(text, p + 2)), true),
                symbody_end(text, p + 2),
            ),
        )
    } else {
        None
    }
}

/// An expression at `p`. The first character decides which construct it
/// is: `[` a list, `{` an object, `(` a send, a capital letter the name of a
/// type, a small letter a message, `$` a quoted message, a quote a string, a
/// digit a number.
pub open spec fn expression_at(text: Seq<char>, p: int) -> Option<(Expr, int)>
    decreases text.len() - p, 0nat,
{
    if p < 0 || p >= text.len() {
        None
    } else if text[p] == '[' {
        list_at(text, p + 1)
    } else if text[p] == '{' {
        object_at(text, p + 1)
    } else if text[p] == '(' {
        send_at(text, p + 1)
    } else if is_upper(text[p]) {
        Some((Expr::Type(text.subrange(p, symbody_end(text, p + 1))), symbody_end(text, p + 1)))
    } else if is_lower(text[p]) || text[p] == '$' {
        message_at(text, p)
    } else if text[p] == '\'' {
        if quote_at(text, p + 1) < text.len() {
            Some(
                (
                    Expr::String(text.subrange(p + 1, quote_at(text, p + 1))),
                    quote_at(text, p + 1) + 1,
                ),
            )
        } else {
            None
        }
    } else if is_digit(text[p]) {
        Some((Expr::Number(text.subrange(p, number_end(text, p))), number_end(text, p)))
    } else {
        None
    }
}

/// Expressions separated by blanks, from `p` on: as many as stand there, and
/// the position after the last of them.
pub open spec fn items_at(text: Seq<char>, p: int) -> (Seq<Expr>, int)
    decreases text.len() - p, 2nat,
{
    match expression_at(text, p) {
        Some((e, q)) => if p < q <= text.len() {
            (seq![e] + more_items_at(text, q).0, more_items_at(text, q).1)
        } else {
            (Seq::empty(), p)
        },
        None => (Seq::empty(), p),
    }
}

/// The expressions that follow one that ended at `q`, each after blanks. A
/// run of blanks that no expression follows is not read.
pub open spec fn more_items_at(text: Seq<char>, q: int) -> (Seq<Expr>, int)
    decreases text.len() - q, 1nat,
{
    if q < ws_end(text, q) <= text.len() {
        match expression_at(text, ws_end(text, q)) {
            Some((e, r)) => if ws_end(text, q) < r <= text.len() {
                (seq![e] + more_items_at(text, r).0, more_items_at(text, r).1)
            } else {
                (Seq::empty(), q)
            },
            None => (Seq::empty(), q),
        }
    } else {
        (Seq::empty(), q)
    }
}

/// A keyed expression at `p`: a message, blanks, and an expression.
pub open spec fn pair_at(text: Seq<char>, p: int) -> Option<((Seq<char>, Expr), int)>
    decreases text.len() - p, 1nat,
{
    match message_at(text, p) {
        Some((Expr::Message(name, vau), q)) => if p < q < ws_end(text, q) <= text.len() {
            match expression_at(text, ws_end(text, q)) {
                Some((value, r)) => Some(((mapkey(name, vau), value), r)),
                None => None,
            }
        } else {
            None
        },
        _ => None,
    }
}

/// Keyed expressions separated by blanks, from `p` on, as they were written.
pub open spec fn pairs_at(text: Seq<char>, p: int) -> (Seq<(Seq<char>, Expr)>, int)
    decreases text.len() - p, 3nat,
{
    match pair_at(text, p) {
        Some((pair, q)) => if p < q <= text.len() {
            (seq![pair] + more_pairs_at(text, q).0, more_pairs_at(text, q).1)
        } else {
            (Seq::empty(), p)
        },
        None => (Seq::empty(), p),
    }
}

/// The keyed expressions that follow one that ended at `q`.
pub open spec fn more_pairs_at(text: Seq<char>, q: int) -> (Seq<(Seq<char>, Expr)>, int)
    decreases text.len() - q, 2nat,
{
    if q < ws_end(text, q) <= text.len() {
        match pair_at(text, ws_end(text, q)) {
            Some((pair, r)) => if ws_end(text, q) < r <= text.len() {
                (seq![pair] + more_pairs_at(text, r).0, more_pairs_at(text, r).1)
            } else {
                (Seq::empty(), q)
            },
            None => (Seq::empty(), q),
        }
    } else {
        (Seq::empty(), q)
    }
}

/// A list, from after its `[`: blanks if any, expressions separated by
/// blanks, blanks if any, and `]`.
pub open spec fn list_at(text: Seq<char>, p: int) -> Option<(Expr, int)>
    decreases text.len() - p, 3nat,
{
    if 0 <= p <= ws_end(text, p) <= text.len() {
        let (items, b) = items_at(text, ws_end(text, p));
        let c = ws_end(text, b);
        if 0 <= c < text.len() && text[c] == ']' {
            Some((Expr::List(items), c + 1))
        } else {
            None
        }
    } else {
        None
    }
}

/// An object, from after its `{`: blanks, the name of a type, then blanks
/// and keyed expressions if blanks follow, blanks if any, and `}`.
pub open spec fn object_at(text: Seq<char>, p: int) -> Option<(Expr, int)>
    decreases text.len() - p, 4nat,
{
    let a = ws_end(text, p);
    if 0 <= p < a < text.len() && is_upper(text[a]) {
        let b = symbody_end(text, a + 1);
        let (raw, c) = if a < b < ws_end(text, b) <= text.len() {
            pairs_at(text, ws_end(text, b))
        } else {
            (Seq::empty(), b)
        };
        let d = ws_end(text, c);
        if 0 <= d < text.len() && text[d] == '}' {
            Some((Expr::Object(Box::new(Expr::Type(text.subrange(a, b))), map_of(raw)), d + 1))
        } else {
            None
        }
    } else {
        None
    }
}

/// The argument of a send, after the message that ended at `c`: blanks and
/// an expression, if both stand there.
pub open spec fn argument_at(text: Seq<char>, c: int) -> (Option<Expr>, int)
    decreases text.len() - c, 1nat,
{
    if c < ws_end(text, c) <= text.len() {
        match expression_at(text, ws_end(text, c)) {
            Some((e, d)) => (Some(e), d),
            None => (None, c),
        }
    } else {
        (None, c)
    }
}

/// The keyed arguments of a send, after what ended at `d`: blanks and keyed
/// expressions, if blanks stand there.
pub open spec fn keyed_arguments_at(text: Seq<char>, d: int) -> (
    Option<Seq<(Seq<char>, Expr)>>,
    int,
)
    decreases text.len() - d, 4nat,
{
    if d < ws_end(text, d) <= text.len() {
        (Some(map_of(pairs_at(text, ws_end(text, d)).0)), pairs_at(text, ws_end(text, d)).1)
    } else {
        (None, d)
    }
}

/// A send, from after its `(`: blanks if any, the receiver, blanks, the
/// message, the argument if there is one, the keyed arguments if blanks
/// follow, and `)`.
pub open spec fn send_at(text: Seq<char>, p: int) -> Option<(Expr, int)>
    decreases text.len() - p, 5nat,
{
    if 0 <= p <= ws_end(text, p) <= text.len() {
        match expression_at(text, ws_end(text, p)) {
            Some((receiver, b)) => if p <= b < ws_end(text, b) {
                match message_at(text, ws_end(text, b)) {
                    Some((message, c)) => if b < c <= text.len() {
                        let (it, d) = argument_at(text, c);
                        if c <= d <= text.len() {
                            let (args, f) = keyed_arguments_at(text, d);
                            if 0 <= f < text.len() && text[f] == ')' {
                                Some(
                                    (
                                        Expr::Send(
                                            Box::new(receiver),
                                            Box::new(message),
                                            match it {
                                                Some(e) => Some(Box::new(e)),
                                                None => None,
                                            },
                                            args,
                                        ),
                                        f + 1,
                                    ),
                                )
                            } else {
                                None
                            }
                        } else {
                            None
                        }
                    } else {
                        None
                    },
                    None => None,
                }
            } else {
                None
            },
            None => None,
        }
    } else {
        None
    }
}

/// How far a text can be read as a program: the position after the
/// expressions that it starts with and the blanks that follow them.
pub open spec fn program_end(text: Seq<char>) -> int {
    ws_end(text, items_at(text, 0).1)
}

/// A program: expressions separated by blanks, and blanks if any, up to the
/// end of the text. `None` where the text is no program, that is where it
/// cannot be read to its end.
pub open spec fn program(text: Seq<char>) -> Option<Seq<Expr>> {
    if program_end(text) == text.len() {
        Some(items_at(text, 0).0)
    } else {
        None
    }
}

/// The text of the failure of a text that is no program and can be read up
/// to position `end`.
pub open spec fn failure_text(end: int) -> Seq<char> {
    "parse error at "@ + decimal(end as nat)
}

/// A run that starts within the text ends within it, not before its start.
pub proof fn lemma_runs(text: Seq<char>, p: int)
    requires
        0 <= p <= text.len(),
    ensures
        p <= ws_end(text, p) <= text.len(),
        p <= symbol_chars_end(text, p) <= text.len(),
        p <= symbody_end(text, p) <= text.len(),
        p <= digit_run_end(text, p) <= text.len(),
        p <= quote_at(text, p) <= text.len(),
        p < text.len() && is_digit(text[p]) ==> p < number_end(text, p) <= text.len(),
    decreases text.len() - p,
{
    if p < text.len() {
        lemma_runs(text, p + 1);
        let a = digit_run_end(text, p);
        if is_digit(text[p]) && a < text.len() {
            lemma_runs(text, a + 1);
        }
    }
}

/// A message that is read ends after its start, within the text.
pub proof fn lemma_message_at(text: Seq<char>, p: int)
    requires
        0 <= p <= text.len(),
    ensures
        message_at(text, p) matches Some((m, q)) ==> p < q <= text.len() && m is Message,
{
    if p < text.len() {
        lemma_runs(text, p + 1);
        if p + 1 < text.len() {
            lemma_runs(text, p + 2);
        }
    }
}

/// An expression that is read ends after its start, within the text. So the
/// bounds on positions that the grammar tests before it reads on always
/// hold.
pub proof fn lemma_expression_at(text: Seq<char>, p: int)
    requires
        0 <= p <= text.len(),
    ensures
        expression_at(text, p) matches Some((e, q)) ==> p < q <= text.len(),
    decreases text.len() - p, 0nat,
{
    if p < text.len() {
        lemma_runs(text, p + 1);
        lemma_runs(text, p);
        lemma_message_at(text, p);
        if text[p] == '[' {
            lemma_list_at(text, p + 1);
        } else if text[p] == '{' {
            lemma_object_at(text, p + 1);
        } else if text[p] == '(' {
            lemma_send_at(text, p + 1);
        }
    }
}

/// Expressions that are read end within the text, not before their start.
pub proof fn lemma_items_at(text: Seq<char>, p: int)
    requires
        0 <= p <= text.len(),
    ensures
        p <= items_at(text, p).1 <= text.len(),
        items_at(text, p) == (match expression_at(text, p) {
            Some((e, q)) => (seq![e] + more_items_at(text, q).0, more_items_at(text, q).1),
            None => (Seq::<Expr>::empty(), p),
        }),
    decreases text.len() - p, 2nat,
{
    lemma_expression_at(text, p);
    match expression_at(text, p) {
        Some((e, q)) => lemma_more_items_at(text, q),
        None => {},
    }
}

/// The same, of the expressions that follow one.
pub proof fn lemma_more_items_at(text: Seq<char>, q: int)
    requires
        0 <= q <= text.len(),
    ensures
        q <= more_items_at(text, q).1 <= text.len(),
    decreases text.len() - q, 1nat,
{
    lemma_runs(text, q);
    if q < ws_end(text, q) {
        lemma_expression_at(text, ws_end(text, q));
        match expression_at(text, ws_end(text, q)) {
            Some((e, r)) => lemma_more_items_at(text, r),
            None => {},
        }
    }
}

/// A keyed expression that is read ends after its start, within the text.
pub proof fn lemma_pair_at(text: Seq<char>, p: int)
    requires
        0 <= p <= text.len(),
    ensures
        pair_at(text, p) matches Some((pair, q)) ==> p < q <= text.len(),
    decreases text.len() - p, 1nat,
{
    lemma_message_at(text, p);
    match message_at(text, p) {
        Some((Expr::Message(name, vau), q)) => {
            lemma_runs(text, q);
            if q < ws_end(text, q) {
                lemma_expression_at(text, ws_end(text, q));
            }
        },
        _ => {},
    }
}

/// Keyed expressions that are read end within the text, not before their
/// start.
pub proof fn lemma_pairs_at(text: Seq<char>, p: int)
    requires
        0 <= p <= text.len(),
    ensures
        p <= pairs_at(text, p).1 <= text.len(),
    decreases text.len() - p, 3nat,
{
    lemma_pair_at(text, p);
    match pair_at(text, p) {
        Some((pair, q)) => lemma_more_pairs_at(text, q),
        None => {},
    }
}

/// The same, of the keyed expressions that follow one.
pub proof fn lemma_more_pairs_at(text: Seq<char>, q: int)
    requires
        0 <= q <= text.len(),
    ensures
        q <= more_pairs_at(text, q).1 <= text.len(),
    decreases text.len() - q, 2nat,
{
    lemma_runs(text, q);
    if q < ws_end(text, q) {
        lemma_pair_at(text, ws_end(text, q));
        match pair_at(text, ws_end(text, q)) {
            Some((pair, r)) => lemma_more_pairs_at(text, r),
            None => {},
        }
    }
}

/// A list that is read ends after its start, within the text.
pub proof fn lemma_list_at(text: Seq<char>, p: int)
    requires
        0 <= p <= text.len(),
    ensures
        list_at(text, p) matches Some((e, q)) ==> p < q <= text.len(),
    decreases text.len() - p, 3nat,
{
    lemma_runs(text, p);
    lemma_items_at(text, ws_end(text, p));
    lemma_runs(text, items_at(text, ws_end(text, p)).1);
}

/// An object that is read ends after its start, within the text.
pub proof fn lemma_object_at(text: Seq<char>, p: int)
    requires
        0 <= p <= text.len(),
    ensures
        object_at(text, p) matches Some((e, q)) ==> p < q <= text.len(),
    decreases text.len() - p, 4nat,
{
    lemma_runs(text, p);
    let a = ws_end(text, p);
    if p < a < text.len() && is_upper(text[a]) {
        lemma_runs(text, a + 1);
        let b = symbody_end(text, a + 1);
        lemma_runs(text, b);
        if b < ws_end(text, b) {
            lemma_pairs_at(text, ws_end(text, b));
            lemma_runs(text, pairs_at(text, ws_end(text, b)).1);
        }
    }
}

/// A send that is read ends after its start, within the text.
pub proof fn lemma_send_at(text: Seq<char>, p: int)
    requires
        0 <= p <= text.len(),
    ensures
        send_at(text, p) matches Some((e, q)) ==> p < q <= text.len(),
    decreases text.len() - p, 5nat,
{
    lemma_runs(text, p);
    lemma_expression_at(text, ws_end(text, p));
    match expression_at(text, ws_end(text, p)) {
        Some((receiver, b)) => {
            lemma_runs(text, b);
            if b < ws_end(text, b) {
                lemma_message_at(text, ws_end(text, b));
                match message_at(text, ws_end(text, b)) {
                    Some((message, c)) => {
                        lemma_runs(text, c);
                        if c < ws_end(text, c) {
                            lemma_expression_at(text, ws_end(text, c));
                        }
                        let d = argument_at(text, c).1;
                        lemma_runs(text, d);
                        if d < ws_end(text, d) {
                            lemma_pairs_at(text, ws_end(text, d));
                        }
                    },
                    None => {},
                }
            }
        },
        None => {},
    }
}

} // verus!
