//! The expression language: its syntax tree and its parser.

use vstd::prelude::*;
use crate::grammar::{
    argument_at, digit_run_end, expression_at, is_lower, is_upper, is_ws, items_at,
    key_index, keyed_arguments_at, list_at, map_of, mapkey, message_at, more_items_at,
    failure_text, more_pairs_at, number_end, object_at, pair_at, pairs_at, program_end, put,
    quote_at, send_at,
    symbody_end, symbol_chars_end, ws_end,
};
use crate::err::SlabErr;
use crate::lexer::{Token, TokenView, tokens_view};
use crate::text::{chars_of, is_digit, push_decimal, push_str, string_from};

verus! {

/// What a symbol of the source text names.
#[derive(Debug, Hash, PartialEq, Eq, Structural, Clone, Copy)]
pub enum SymbolKind {
    Type,
    Message,
    Vau,
}

/// A symbol of the source text, with its kind.
#[derive(Debug, Hash)]
pub struct Symbol {
    kind: SymbolKind,
    value: String,
}

impl View for Symbol {
    type V = (SymbolKind, Seq<char>);

    closed spec fn view(&self) -> (SymbolKind, Seq<char>) {
        (self.kind, self.value@)
    }
}

impl Symbol {
    /// The name of a type.
    pub fn typename(value: String) -> (s: Self)
        ensures
            s@ == (SymbolKind::Type, value@),
    {
        Self { kind: SymbolKind::Type, value }
    }

    /// The name of a message that is sent.
    pub fn message(value: String) -> (s: Self)
        ensures
            s@ == (SymbolKind::Message, value@),
    {
        Self { kind: SymbolKind::Message, value }
    }

    /// The name of a message that is quoted, not sent.
    pub fn vau(value: String) -> (s: Self)
        ensures
            s@ == (SymbolKind::Vau, value@),
    {
        Self { kind: SymbolKind::Vau, value }
    }

    /// The symbol's kind.
    pub fn kind(&self) -> (k: SymbolKind)
        ensures
            k == self@.0,
    {
        self.kind
    }

    /// The symbol's text.
    pub fn value(&self) -> (s: &str)
        ensures
            s@ == self@.1,
    {
        self.value.as_str()
    }

    /// Whether the two symbols have the same kind and the same text.
    pub fn same(&self, other: &Symbol) -> (b: bool)
        ensures
            b == (self@ == other@),
    {
        self.kind == other.kind && self.value == other.value
    }
}

impl PartialEq for Symbol {
    fn eq(&self, other: &Symbol) -> (b: bool) {
        self.same(other)
    }
}

impl Eq for Symbol {}

impl vstd::std_specs::cmp::PartialEqSpecImpl for Symbol {
    open spec fn obeys_eq_spec() -> bool {
        true
    }

    open spec fn eq_spec(&self, other: &Symbol) -> bool {
        self@ == other@
    }
}

/// A message name, and whether it is quoted.
#[derive(Debug, Hash, Clone)]
pub struct Message(String, bool);

impl View for Message {
    type V = (Seq<char>, bool);

    closed spec fn view(&self) -> (Seq<char>, bool) {
        (self.0@, self.1)
    }
}

impl Message {
    /// A message that is sent.
    pub fn call(name: String) -> (m: Self)
        ensures
            m@ == (name@, false),
    {
        Self(name, false)
    }

    /// A message that is quoted.
    pub fn vau(name: String) -> (m: Self)
        ensures
            m@ == (name@, true),
    {
        Self(name, true)
    }

    /// The message's name.
    pub fn name(&self) -> (s: &str)
        ensures
            s@ == self@.0,
    {
        self.0.as_str()
    }

    /// Whether the message is quoted.
    pub fn is_vau(&self) -> (b: bool)
        ensures
            b == self@.1,
    {
        self.1
    }

    /// Whether the two messages have the same name and are both quoted or both
    /// sent.
    pub fn same(&self, other: &Message) -> (b: bool)
        ensures
            b == (self@ == other@),
    {
        self.0 == other.0 && self.1 == other.1
    }

    /// A copy of this message.
    pub fn duplicate(&self) -> (m: Message)
        ensures
            m@ == self@,
    {
        Message(self.0.clone(), self.1)
    }
}

impl PartialEq for Message {
    fn eq(&self, other: &Message) -> (b: bool) {
        self.same(other)
    }
}

impl Eq for Message {}

impl vstd::std_specs::cmp::PartialEqSpecImpl for Message {
    open spec fn obeys_eq_spec() -> bool {
        true
    }

    open spec fn eq_spec(&self, other: &Message) -> bool {
        self@ == other@
    }
}

/// The keyed expressions of an object literal or of a send, in the order in
/// which they were written.
pub type KeyValueMap<T> = Vec<(String, T)>;

/// An expression, as a mathematical value.
pub enum Expr {
    String(Seq<char>),
    Number(Seq<char>),
    Type(Seq<char>),
    Message(Seq<char>, bool),
    Object(Box<Expr>, Seq<(Seq<char>, Expr)>),
    List(Seq<Expr>),
    Send(Box<Expr>, Box<Expr>, Option<Box<Expr>>, Option<Seq<(Seq<char>, Expr)>>),
}

/// An expression of the language.
#[derive(Debug)]
pub enum SourceExpression {
    /// A string literal, without its quotes.
    String(String),
    /// A number literal: its digits, with the decimal point where one was
    /// written.
    Number(String),
    /// The name of a type.
    Type(String),
    /// A message, sent or quoted.
    Message(Message),
    /// An object literal: the type, and the keyed expressions.
    Object(Box<SourceExpression>, KeyValueMap<SourceExpression>),
    /// A list of expressions.
    List(Vec<SourceExpression>),
    /// A send: the receiver, the message, the argument and the keyed
    /// arguments.
    Send(
        Box<SourceExpression>,
        Box<SourceExpression>,
        Option<Box<SourceExpression>>,
        Option<KeyValueMap<SourceExpression>>,
    ),
}

/// The mathematical values of a list of expressions.
pub open spec fn list_view(l: Vec<SourceExpression>) -> Seq<Expr>
    decreases l, 0nat,
{
    Seq::new(
        l.len() as nat,
        |i: int|
            if 0 <= i < l.len() {
                expr_view(l[i])
            } else {
                Expr::List(Seq::empty())
            },
    )
}

/// The mathematical values of keyed expressions.
pub open spec fn pairs_view(pairs: Vec<(String, SourceExpression)>) -> Seq<(Seq<char>, Expr)>
    decreases pairs, 0nat,
{
    Seq::new(
        pairs.len() as nat,
        |i: int|
            if 0 <= i < pairs.len() {
                (pairs[i].0@, expr_view(pairs[i].1))
            } else {
                (Seq::empty(), Expr::List(Seq::empty()))
            },
    )
}

/// The mathematical value of an expression.
pub open spec fn expr_view(e: SourceExpression) -> Expr
    decreases e, 1nat,
{
    match e {
        SourceExpression::String(s) => Expr::String(s@),
        SourceExpression::Number(s) => Expr::Number(s@),
        SourceExpression::Type(s) => Expr::Type(s@),
        SourceExpression::Message(m) => Expr::Message(m@.0, m@.1),
        SourceExpression::Object(t, pairs) => Expr::Object(
            Box::new(expr_view(*t)),
            pairs_view(pairs),
        ),
        SourceExpression::List(l) => Expr::List(list_view(l)),
        SourceExpression::Send(r, m, it, args) => Expr::Send(
            Box::new(expr_view(*r)),
            Box::new(expr_view(*m)),
            match it {
                Some(e) => Some(Box::new(expr_view(*e))),
                None => None,
            },
            match args {
                Some(pairs) => Some(pairs_view(pairs)),
                None => None,
            },
        ),
    }
}

impl View for SourceExpression {
    type V = Expr;

    open spec fn view(&self) -> Expr {
        expr_view(*self)
    }
}

impl Message {
    /// The key under which an expression keyed by this message is held: the
    /// name, after a `$` where the message is quoted.
    pub fn mapkey(&self) -> (k: String)
        ensures
            k@ == mapkey(self@.0, self@.1),
    {
        let mut k = String::new();
        if self.1 {
            k.push('$');
        }
        push_str(&mut k, self.0.as_str());
        assert(k@ =~= mapkey(self@.0, self@.1));
        k
    }
}

impl SourceExpression {
    /// A copy of the expression.
    pub fn duplicate(&self) -> (e: Self)
        ensures
            e@ == self@,
        decreases self, 0nat,
    {
        match self {
            SourceExpression::String(s) => SourceExpression::String(s.clone()),
            SourceExpression::Number(s) => SourceExpression::Number(s.clone()),
            SourceExpression::Type(s) => SourceExpression::Type(s.clone()),
            SourceExpression::Message(m) => SourceExpression::Message(m.duplicate()),
            SourceExpression::Object(t, pairs) => {
                let mut copy: Vec<(String, SourceExpression)> = Vec::new();
                Self::copy_pairs(pairs, 0, &mut copy);
                assert(pairs_view(copy) =~= pairs_view(*pairs));
                SourceExpression::Object(Box::new(t.duplicate()), copy)
            },
            SourceExpression::List(l) => {
                let mut copy: Vec<SourceExpression> = Vec::new();
                Self::copy_list(l, 0, &mut copy);
                assert(list_view(copy) =~= list_view(*l));
                SourceExpression::List(copy)
            },
            SourceExpression::Send(r, m, it, args) => {
                let it_copy = match it {
                    Some(e) => Some(Box::new(e.duplicate())),
                    None => None,
                };
                let args_copy = match args {
                    Some(pairs) => {
                        let mut copy: Vec<(String, SourceExpression)> = Vec::new();
                        Self::copy_pairs(pairs, 0, &mut copy);
                        assert(pairs_view(copy) =~= pairs_view(*pairs));
                        Some(copy)
                    },
                    None => None,
                };
                SourceExpression::Send(
                    Box::new(r.duplicate()),
                    Box::new(m.duplicate()),
                    it_copy,
                    args_copy,
                )
            },
        }
    }

    /// Appends copies of the expressions of `list` from position `i` on to
    /// `out`.
    fn copy_list(list: &Vec<SourceExpression>, i: usize, out: &mut Vec<SourceExpression>)
        requires
            i <= list.len(),
        ensures
            list_view(*final(out)) == list_view(*old(out)) + list_view(*list).skip(i as int),
        decreases list, list.len() - i,
    {
        if i < list.len() {
            let ghost before = list_view(*out);
            out.push(list[i].duplicate());
            assert(list_view(*out) =~= before.push(list_view(*list)[i as int]));
            Self::copy_list(list, i + 1, out);
            assert(list_view(*out) =~= before + list_view(*list).skip(i as int));
        } else {
            assert(list_view(*out) =~= list_view(*old(out)) + list_view(*list).skip(i as int));
        }
    }

    /// Appends copies of the keyed expressions of `pairs` from position `i`
    /// on to `out`.
    fn copy_pairs(
        pairs: &Vec<(String, SourceExpression)>,
        i: usize,
        out: &mut Vec<(String, SourceExpression)>,
    )
        requires
            i <= pairs.len(),
        ensures
            pairs_view(*final(out)) == pairs_view(*old(out)) + pairs_view(*pairs).skip(i as int),
        decreases pairs, pairs.len() - i,
    {
        if i < pairs.len() {
            let ghost before = pairs_view(*out);
            out.push((pairs[i].0.clone(), pairs[i].1.duplicate()));
            assert(pairs_view(*out) =~= before.push(pairs_view(*pairs)[i as int]));
            Self::copy_pairs(pairs, i + 1, out);
            assert(pairs_view(*out) =~= before + pairs_view(*pairs).skip(i as int));
        } else {
            assert(pairs_view(*out) =~= pairs_view(*old(out)) + pairs_view(*pairs).skip(i as int));
        }
    }

    /// The key that the expression gives, where it is a message.
    pub fn mapkey(&self) -> (k: Option<String>)
        ensures
            match self@ {
                Expr::Message(name, vau) => k is Some && k->0@ == mapkey(name, vau),
                _ => k is None,
            },
    {
        match self {
            SourceExpression::Message(m) => Some(m.mapkey()),
            _ => None,
        }
    }

    /// The message `name`, sent.
    pub fn call(name: String) -> (e: Self)
        ensures
            e@ == Expr::Message(name@, false),
    {
        SourceExpression::Message(Message::call(name))
    }

    /// The message `name`, quoted.
    pub fn vau(name: String) -> (e: Self)
        ensures
            e@ == Expr::Message(name@, true),
    {
        SourceExpression::Message(Message::vau(name))
    }
}

/// Whether `c` is a blank.
fn blank(c: char) -> (b: bool)
    ensures
        b == is_ws(c),
{
    c == ' ' || c == '\n'
}

/// Whether `c` is a capital letter.
fn upper(c: char) -> (b: bool)
    ensures
        b == is_upper(c),
{
    'A' <= c && c <= 'Z'
}

/// Whether `c` is a small letter.
fn lower(c: char) -> (b: bool)
    ensures
        b == is_lower(c),
{
    'a' <= c && c <= 'z'
}

/// Whether `c` is a digit.
fn numeral(c: char) -> (b: bool)
    ensures
        b == is_digit(c),
{
    '0' <= c && c <= '9'
}

/// The end of the run of blanks that starts at `p`.
fn ws(text: &Vec<char>, p: usize) -> (e: usize)
    requires
        p <= text@.len(),
    ensures
        e == ws_end(text@, p as int),
        p <= e <= text@.len(),
{
    let mut e = p;
    while e < text.len() && blank(text[e])
        invariant
            p <= e <= text@.len(),
            ws_end(text@, p as int) == ws_end(text@, e as int),
        decreases text@.len() - e,
    {
        e = e + 1;
    }
    e
}

/// The end of the run of digits that starts at `p`.
fn digit_run(text: &Vec<char>, p: usize) -> (e: usize)
    requires
        p <= text@.len(),
    ensures
        e == digit_run_end(text@, p as int),
        p <= e <= text@.len(),
{
    let mut e = p;
    while e < text.len() && numeral(text[e])
        invariant
            p <= e <= text@.len(),
            digit_run_end(text@, p as int) == digit_run_end(text@, e as int),
        decreases text@.len() - e,
    {
        e = e + 1;
    }
    e
}

/// The end of the body of a symbol that starts at `p`.
fn symbody(text: &Vec<char>, p: usize) -> (e: usize)
    requires
        p <= text@.len(),
    ensures
        e == symbody_end(text@, p as int),
        p <= e <= text@.len(),
{
    let mut e = p;
    while e < text.len() && (upper(text[e]) || lower(text[e]) || numeral(text[e]))
        invariant
            p <= e <= text@.len(),
            symbol_chars_end(text@, p as int) == symbol_chars_end(text@, e as int),
        decreases text@.len() - e,
    {
        e = e + 1;
    }
    if e < text.len() && text[e] == '!' {
        e + 1
    } else {
        e
    }
}

/// The end of the number that starts at `p` with a digit.
fn number(text: &Vec<char>, p: usize) -> (e: usize)
    requires
        p < text@.len(),
        is_digit(text@[p as int]),
    ensures
        e == number_end(text@, p as int),
        p < e <= text@.len(),
{
    assert(p < text.len());
    let a = digit_run(text, p + 1);
    assert(digit_run_end(text@, p as int) == a);
    if a < text.len() && text[a] == '.' {
        digit_run(text, a + 1)
    } else {
        a
    }
}

/// The position of the first quote from `p` on, or the end of the text.
fn quote(text: &Vec<char>, p: usize) -> (e: usize)
    requires
        p <= text@.len(),
    ensures
        e == quote_at(text@, p as int),
        p <= e <= text@.len(),
{
    let mut e = p;
    while e < text.len() && text[e] != '\''
        invariant
            p <= e <= text@.len(),
            quote_at(text@, p as int) == quote_at(text@, e as int),
        decreases text@.len() - e,
    {
        e = e + 1;
    }
    e
}

/// A message at `p`.
fn message(text: &Vec<char>, p: usize) -> (r: Option<(Message, usize)>)
    requires
        p <= text@.len(),
    ensures
        r matches Some((m, q)) ==> message_at(text@, p as int) == Some(
            (Expr::Message(m@.0, m@.1), q as int),
        ) && p < q <= text@.len(),
        r is None ==> message_at(text@, p as int) is None,
{
    if p >= text.len() {
        return None;
    }
    let c = text[p];
    if c == '*' || c == '+' {
        let name = string_from(text, p, p + 1);
        assert(name@ =~= seq![c]);
        Some((Message::call(name), p + 1))
    } else if lower(c) {
        let e = symbody(text, p + 1);
        Some((Message::call(string_from(text, p, e)), e))
    } else if c == '$' && p + 1 < text.len() && lower(text[p + 1]) {
        let e = symbody(text, p + 2);
        Some((Message::vau(string_from(text, p + 1, e)), e))
    } else {
        None
    }
}

/// Puts `value` under `key`: where the key is held already, its expression
/// is replaced, else the pair is added at the end.
fn put_pair(map: &mut Vec<(String, SourceExpression)>, key: String, value: SourceExpression)
    ensures
        pairs_view(*final(map)) == put(pairs_view(*old(map)), key@, value@),
{
    let ghost before = pairs_view(*map);
    let mut i: usize = 0;
    while i < map.len()
        invariant
            i <= map.len(),
            pairs_view(*map) == before,
            before == pairs_view(*old(map)),
            key_index(before, key@, 0) == key_index(before, key@, i as int),
        decreases map.len() - i,
    {
        assert(before[i as int].0 == map[i as int].0@);
        if map[i].0 == key {
            assert(key_index(before, key@, i as int) == Some(i as int));
            map.set(i, (key, value));
            assert(pairs_view(*map) =~= before.update(i as int, (key@, value@)));
            return;
        }
        i = i + 1;
    }
    map.push((key, value));
    assert(pairs_view(*map) =~= before.push((key@, value@)));
}

/// An expression at `p`.
fn expression(text: &Vec<char>, p: usize) -> (r: Option<(SourceExpression, usize)>)
    requires
        p <= text@.len(),
    ensures
        r matches Some((e, q)) ==> expression_at(text@, p as int) == Some((e@, q as int)) && p < q
            <= text@.len(),
        r is None ==> expression_at(text@, p as int) is None,
    decreases text@.len() - p, 0nat,
{
    if p >= text.len() {
        return None;
    }
    let c = text[p];
    if c == '[' {
        list(text, p + 1)
    } else if c == '{' {
        object(text, p + 1)
    } else if c == '(' {
        send(text, p + 1)
    } else if upper(c) {
        let e = symbody(text, p + 1);
        Some((SourceExpression::Type(string_from(text, p, e)), e))
    } else if lower(c) || c == '$' {
        match message(text, p) {
            Some((m, q)) => Some((SourceExpression::Message(m), q)),
            None => None,
        }
    } else if c == '\'' {
        let b = quote(text, p + 1);
        if b < text.len() {
            Some((SourceExpression::String(string_from(text, p + 1, b)), b + 1))
        } else {
            None
        }
    } else if numeral(c) {
        let e = number(text, p);
        Some((SourceExpression::Number(string_from(text, p, e)), e))
    } else {
        None
    }
}

/// Expressions separated by blanks, from `p` on.
fn items(text: &Vec<char>, p: usize) -> (r: (Vec<SourceExpression>, usize))
    requires
        p <= text@.len(),
    ensures
        items_at(text@, p as int) == (list_view(r.0), r.1 as int),
        p <= r.1 <= text@.len(),
    decreases text@.len() - p, 2nat,
{
    let mut found: Vec<SourceExpression> = Vec::new();
    let mut cur = p;
    match expression(text, p) {
        None => {
            assert(list_view(found) =~= Seq::empty());
            return (found, p);
        },
        Some((e, q)) => {
            found.push(e);
            cur = q;
            assert(list_view(found) =~= seq![e@]);
        },
    }
    assert(list_view(found) + more_items_at(text@, cur as int).0 =~= items_at(text@, p as int).0);
    loop
        invariant
            p < cur <= text@.len(),
            items_at(text@, p as int) == (
                list_view(found) + more_items_at(text@, cur as int).0,
                more_items_at(text@, cur as int).1,
            ),
        ensures
            more_items_at(text@, cur as int) == (Seq::<Expr>::empty(), cur as int),
        decreases text@.len() - cur,
    {
        let w = ws(text, cur);
        if w == cur {
            break;
        }
        match expression(text, w) {
            None => {
                break;
            },
            Some((e, r)) => {
                let ghost before = list_view(found);
                found.push(e);
                assert(list_view(found) =~= before.push(e@));
                assert(before + (seq![e@] + more_items_at(text@, r as int).0) =~= list_view(found)
                    + more_items_at(text@, r as int).0);
                cur = r;
            },
        }
    }
    assert(list_view(found) + Seq::<Expr>::empty() =~= list_view(found));
    (found, cur)
}

/// A keyed expression at `p`.
fn pair(text: &Vec<char>, p: usize) -> (r: Option<(String, SourceExpression, usize)>)
    requires
        p <= text@.len(),
    ensures
        r matches Some((k, v, q)) ==> pair_at(text@, p as int) == Some(((k@, v@), q as int)) && p
            < q <= text@.len(),
        r is None ==> pair_at(text@, p as int) is None,
    decreases text@.len() - p, 1nat,
{
    match message(text, p) {
        None => None,
        Some((m, q)) => {
            let w = ws(text, q);
            if w == q {
                return None;
            }
            match expression(text, w) {
                None => None,
                Some((value, r)) => Some((m.mapkey(), value, r)),
            }
        },
    }
}

/// Keyed expressions separated by blanks, from `p` on, each key holding
/// what was written last under it.
fn pairs(text: &Vec<char>, p: usize) -> (r: (Vec<(String, SourceExpression)>, usize))
    requires
        p <= text@.len(),
    ensures
        pairs_view(r.0) == map_of(pairs_at(text@, p as int).0),
        r.1 == pairs_at(text@, p as int).1,
        p <= r.1 <= text@.len(),
    decreases text@.len() - p, 3nat,
{
    let mut map: Vec<(String, SourceExpression)> = Vec::new();
    let mut cur = p;
    let ghost mut raw: Seq<(Seq<char>, Expr)> = Seq::empty();
    assert(pairs_view(map) =~= map_of(raw));
    match pair(text, p) {
        None => {
            return (map, p);
        },
        Some((k, v, q)) => {
            proof {
                raw = seq![(k@, v@)];
                assert(raw.drop_last() =~= Seq::empty());
            }
            put_pair(&mut map, k, v);
            cur = q;
        },
    }
    loop
        invariant
            p < cur <= text@.len(),
            pairs_view(map) == map_of(raw),
            pairs_at(text@, p as int) == (
                raw + more_pairs_at(text@, cur as int).0,
                more_pairs_at(text@, cur as int).1,
            ),
        ensures
            more_pairs_at(text@, cur as int) == (Seq::<(Seq<char>, Expr)>::empty(), cur as int),
        decreases text@.len() - cur,
    {
        let w = ws(text, cur);
        if w == cur {
            break;
        }
        match pair(text, w) {
            None => {
                break;
            },
            Some((k, v, r)) => {
                proof {
                    let grown = raw.push((k@, v@));
                    assert(grown.drop_last() =~= raw);
                    assert(raw + (seq![(k@, v@)] + more_pairs_at(text@, r as int).0) =~= grown
                        + more_pairs_at(text@, r as int).0);
                    raw = grown;
                }
                put_pair(&mut map, k, v);
                cur = r;
            },
        }
    }
    assert(raw + Seq::<(Seq<char>, Expr)>::empty() =~= raw);
    (map, cur)
}

/// A list, from after its `[`.
fn list(text: &Vec<char>, p: usize) -> (r: Option<(SourceExpression, usize)>)
    requires
        p <= text@.len(),
    ensures
        r matches Some((e, q)) ==> list_at(text@, p as int) == Some((e@, q as int)) && p < q
            <= text@.len(),
        r is None ==> list_at(text@, p as int) is None,
    decreases text@.len() - p, 3nat,
{
    let a = ws(text, p);
    let (found, b) = items(text, a);
    let c = ws(text, b);
    if c < text.len() && text[c] == ']' {
        Some((SourceExpression::List(found), c + 1))
    } else {
        None
    }
}

/// An object, from after its `{`.
fn object(text: &Vec<char>, p: usize) -> (r: Option<(SourceExpression, usize)>)
    requires
        p <= text@.len(),
    ensures
        r matches Some((e, q)) ==> object_at(text@, p as int) == Some((e@, q as int)) && p < q
            <= text@.len(),
        r is None ==> object_at(text@, p as int) is None,
    decreases text@.len() - p, 4nat,
{
    let a = ws(text, p);
    if a == p || a >= text.len() || !upper(text[a]) {
        return None;
    }
    let b = symbody(text, a + 1);
    let name = SourceExpression::Type(string_from(text, a, b));
    let w = ws(text, b);
    let (map, c) = if w > b {
        pairs(text, w)
    } else {
        let empty: Vec<(String, SourceExpression)> = Vec::new();
        assert(pairs_view(empty) =~= map_of(Seq::empty()));
        (empty, b)
    };
    let d = ws(text, c);
    if d < text.len() && text[d] == '}' {
        let e = SourceExpression::Object(Box::new(name), map);
        assert(e@ == Expr::Object(Box::new(name@), pairs_view(map)));
        assert(name@ == Expr::Type(text@.subrange(a as int, b as int)));
        Some((e, d + 1))
    } else {
        None
    }
}

/// A send, from after its `(`.
fn send(text: &Vec<char>, p: usize) -> (r: Option<(SourceExpression, usize)>)
    requires
        p <= text@.len(),
    ensures
        r matches Some((e, q)) ==> send_at(text@, p as int) == Some((e@, q as int)) && p < q
            <= text@.len(),
        r is None ==> send_at(text@, p as int) is None,
    decreases text@.len() - p, 5nat,
{
    let a = ws(text, p);
    let (receiver, b) = match expression(text, a) {
        Some(found) => found,
        None => {
            return None;
        },
    };
    let w = ws(text, b);
    if w == b {
        return None;
    }
    let (meth, c) = match message(text, w) {
        Some(found) => found,
        None => {
            return None;
        },
    };
    let w2 = ws(text, c);
    let mut it: Option<Box<SourceExpression>> = None;
    let mut d = c;
    if w2 > c {
        match expression(text, w2) {
            Some((e, after)) => {
                it = Some(Box::new(e));
                d = after;
            },
            None => {},
        }
    }
    let w3 = ws(text, d);
    let mut args: Option<Vec<(String, SourceExpression)>> = None;
    let mut f = d;
    if w3 > d {
        let (map, after) = pairs(text, w3);
        args = Some(map);
        f = after;
    }
    if f < text.len() && text[f] == ')' {
        let ghost it_view: Option<Box<Expr>> = if it is Some {
            Some(Box::new(it->0@))
        } else {
            None
        };
        let ghost args_view: Option<Seq<(Seq<char>, Expr)>> = if args is Some {
            Some(pairs_view(args->0))
        } else {
            None
        };
        let message = SourceExpression::Message(meth);
        let ghost receiver_view = receiver@;
        let ghost message_view = message@;
        let e = SourceExpression::Send(Box::new(receiver), Box::new(message), it, args);
        assert(e@ == Expr::Send(
            Box::new(receiver_view),
            Box::new(message_view),
            it_view,
            args_view,
        ));
        assert(argument_at(text@, c as int) == (
            match it_view {
                Some(b) => Some(*b),
                None => None,
            },
            d as int,
        ));
        assert(keyed_arguments_at(text@, d as int) == (args_view, f as int));
        Some((e, f + 1))
    } else {
        None
    }
}

/// Reads a program: expressions separated by blanks, up to the end of the
/// text, after which only blanks may stand. A text that is no program gives
/// a failure of parsing, which tells how far the text could be read.
pub fn parse(program: String) -> (r: Result<Vec<SourceExpression>, SlabErr>)
    ensures
        match crate::grammar::program(program@) {
            Some(found) => r matches Ok(read) && list_view(read) == found,
            None => r matches Err(SlabErr::Chumsky(t)) && t@ == failure_text(
                program_end(program@),
            ),
        },
{
    let text = chars_of(program.as_str());
    let (found, b) = items(&text, 0);
    let end = ws(&text, b);
    if end == text.len() {
        Ok(found)
    } else {
        let mut t = String::new();
        push_str(&mut t, "parse error at ");
        push_decimal(&mut t, end);
        assert(t@ =~= failure_text(end as int));
        Err(SlabErr::Chumsky(t))
    }
}

/// A parser over tokens: it holds the tokens that it is to read.
#[derive(Debug)]
pub struct Parser {
    tokens: Vec<Token>,
}

impl Parser {
    /// The tokens held, as mathematical values.
    pub closed spec fn held(&self) -> Seq<TokenView> {
        tokens_view(self.tokens@)
    }

    /// A parser over `tokens`.
    pub fn new(tokens: Vec<Token>) -> (p: Parser)
        ensures
            p.held() == tokens_view(tokens@),
    {
        Parser { tokens }
    }

    /// The number of tokens held.
    pub fn len(&self) -> (n: usize)
        ensures
            n == self.held().len(),
    {
        self.tokens.len()
    }

    /// The token at position `i`.
    pub fn token(&self, i: usize) -> (t: &Token)
        requires
            i < self.held().len(),
        ensures
            t@ == self.held()[i as int],
    {
        &self.tokens[i]
    }
}

} // verus!
