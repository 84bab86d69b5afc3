use simulabra::err::SlabErr;
use simulabra::lexer::{Lexer, Token};
use simulabra::parser::{parse, Message, Parser, SourceExpression, Symbol, SymbolKind};

fn call(name: &str) -> SourceExpression {
    SourceExpression::call(name.to_string())
}

fn vau(name: &str) -> SourceExpression {
    SourceExpression::vau(name.to_string())
}

fn typ(name: &str) -> SourceExpression {
    SourceExpression::Type(name.to_string())
}

fn number(text: &str) -> SourceExpression {
    SourceExpression::Number(text.to_string())
}

fn send(
    receiver: SourceExpression,
    message: SourceExpression,
    it: Option<SourceExpression>,
    args: Option<Vec<(&str, SourceExpression)>>,
) -> SourceExpression {
    SourceExpression::Send(
        Box::new(receiver),
        Box::new(message),
        it.map(Box::new),
        args.map(|pairs| pairs.into_iter().map(|(k, v)| (k.to_string(), v)).collect()),
    )
}

fn object(name: &str, pairs: Vec<(&str, SourceExpression)>) -> SourceExpression {
    SourceExpression::Object(
        Box::new(typ(name)),
        pairs.into_iter().map(|(k, v)| (k.to_string(), v)).collect(),
    )
}

/// What was read, shown in full; expressions are compared by what they show.
fn shown<T: std::fmt::Debug>(value: T) -> String {
    format!("{:?}", value)
}

fn one(text: &str) -> String {
    shown(parse(text.to_string()).ok().map(|mut all| {
        assert_eq!(all.len(), 1, "{}", text);
        all.pop().expect("one expression")
    }))
}

fn all(text: &str) -> String {
    shown(parse(text.to_string()).ok())
}

fn failure(text: &str) -> String {
    match parse(text.to_string()) {
        Err(SlabErr::Chumsky(t)) => t,
        other => panic!("{:?}", other),
    }
}

fn none() -> String {
    shown(None::<SourceExpression>)
}

#[test]
fn programs() {
    assert_eq!(all(""), shown(Some(Vec::<SourceExpression>::new())));
    assert_eq!(all("foo"), shown(Some(vec![call("foo")])));
    assert_eq!(all("Foo bar\n"), shown(Some(vec![typ("Foo"), call("bar")])));
    assert_eq!(all("a \n b  "), shown(Some(vec![call("a"), call("b")])));
    assert_eq!(all("  "), shown(Some(Vec::<SourceExpression>::new())));
}

#[test]
fn a_program_starts_with_an_expression() {
    assert_eq!(all(" a"), shown(None::<Vec<SourceExpression>>));
    assert_eq!(all("\na"), shown(None::<Vec<SourceExpression>>));
}

#[test]
fn text_that_is_no_program() {
    assert_eq!(all("*"), shown(None::<Vec<SourceExpression>>));
    assert_eq!(all("a)"), shown(None::<Vec<SourceExpression>>));
    assert_eq!(all("a,b"), shown(None::<Vec<SourceExpression>>));
    assert_eq!(all("'unclosed"), shown(None::<Vec<SourceExpression>>));
    assert_eq!(all("[a b"), shown(None::<Vec<SourceExpression>>));
    assert_eq!(all("12.x"), shown(None::<Vec<SourceExpression>>));
    assert_eq!(all("$Foo"), shown(None::<Vec<SourceExpression>>));
    assert_eq!(all("ab'c'"), shown(None::<Vec<SourceExpression>>));
}

#[test]
fn names() {
    assert_eq!(one("Point"), shown(Some(typ("Point"))));
    assert_eq!(one("P2p!"), shown(Some(typ("P2p!"))));
    assert_eq!(one("bump!"), shown(Some(call("bump!"))));
    assert_eq!(one("x"), shown(Some(call("x"))));
    assert_eq!(one("$later"), shown(Some(vau("later"))));
    assert_eq!(one("a!!"), none());
}

#[test]
fn literals() {
    assert_eq!(one("'hello world'"), shown(Some(SourceExpression::String("hello world".to_string()))));
    assert_eq!(one("''"), shown(Some(SourceExpression::String(String::new()))));
    assert_eq!(one("'a\nb'"), shown(Some(SourceExpression::String("a\nb".to_string()))));
    assert_eq!(one("12"), shown(Some(number("12"))));
    assert_eq!(one("12.5"), shown(Some(number("12.5"))));
    assert_eq!(one("12."), shown(Some(number("12."))));
    assert_eq!(one("007"), shown(Some(number("007"))));
    assert_eq!(one("1.2.3"), none());
}

#[test]
fn lists() {
    assert_eq!(one("[]"), shown(Some(SourceExpression::List(vec![]))));
    assert_eq!(one("[ \n ]"), shown(Some(SourceExpression::List(vec![]))));
    assert_eq!(one("[a B 3]"), shown(Some(SourceExpression::List(vec![call("a"), typ("B"), number("3")]))));
    assert_eq!(
        one("[ [a] [] ]"), shown(Some(SourceExpression::List(vec![
            SourceExpression::List(vec![call("a")]),
            SourceExpression::List(vec![]),
        ]))));
    assert_eq!(one("[a]b"), none());
}

#[test]
fn objects() {
    assert_eq!(one("{ Point }"), shown(Some(object("Point", vec![]))));
    assert_eq!(one("{ Point}"), shown(Some(object("Point", vec![]))));
    assert_eq!(
        one("{ Point x 1 y 2 }"), shown(Some(object("Point", vec![("x", number("1")), ("y", number("2"))]))));
    assert_eq!(
        one("{ P $k 1 k 2 + 3 }"), shown(Some(object("P", vec![("$k", number("1")), ("k", number("2")), ("+", number("3"))]))));
    assert_eq!(one("{Point}"), none());
    assert_eq!(one("{ point }"), none());
    assert_eq!(one("{ Point x }"), none());
}

#[test]
fn a_key_written_twice_holds_what_was_written_last() {
    assert_eq!(
        one("{ P x 1 y 2 x 3 }"), shown(Some(object("P", vec![("x", number("3")), ("y", number("2"))]))));
}

#[test]
fn sends() {
    assert_eq!(one("(a b)"), shown(Some(send(call("a"), call("b"), None, None))));
    assert_eq!(one("( a b)"), shown(Some(send(call("a"), call("b"), None, None))));
    assert_eq!(one("(a b c)"), shown(Some(send(call("a"), call("b"), Some(call("c")), None))));
    assert_eq!(
        one("(a b c d e)"), shown(Some(send(call("a"), call("b"), Some(call("c")), Some(vec![("d", call("e"))])))));
    assert_eq!(one("(a + 1)"), shown(Some(send(call("a"), call("+"), Some(number("1")), None))));
    assert_eq!(one("(Counter $new)"), shown(Some(send(typ("Counter"), vau("new"), None, None))));
    assert_eq!(one("(a B)"), none());
    assert_eq!(one("(a)"), none());
    assert_eq!(one("(a b c d)"), none());
}

#[test]
fn blanks_before_the_closing_bracket_of_a_send_start_keyed_arguments() {
    assert_eq!(one("(a b )"), shown(Some(send(call("a"), call("b"), None, Some(vec![])))));
    assert_eq!(one("(a b c )"), shown(Some(send(call("a"), call("b"), Some(call("c")), Some(vec![])))));
}

#[test]
fn nested_sends() {
    let read = send(call("self"), call("count"), None, None);
    let sum = send(read, call("+"), Some(number("1")), None);
    assert_eq!(
        one("(self count ((self count) + 1))"), shown(Some(send(call("self"), call("count"), Some(sum), None))));
}

#[test]
fn mapkey_of_messages() {
    assert_eq!(call("x").mapkey(), Some("x".to_string()));
    assert_eq!(vau("x").mapkey(), Some("$x".to_string()));
    assert_eq!(typ("X").mapkey(), None);
    assert_eq!(Message::vau("k".to_string()).mapkey(), "$k");
    assert!(Message::call("k".to_string()) != Message::vau("k".to_string()));
}

#[test]
fn symbols_have_a_kind() {
    let t = Symbol::typename("Point".to_string());
    let m = Symbol::message("move".to_string());
    let v = Symbol::vau("move".to_string());
    assert_eq!(t.kind(), SymbolKind::Type);
    assert_eq!(m.kind(), SymbolKind::Message);
    assert_eq!(v.kind(), SymbolKind::Vau);
    assert_eq!(m.value(), "move");
    assert!(m != v);
    assert!(m == Symbol::message("move".to_string()));
}

#[test]
fn a_text_that_is_no_program_is_a_failure_of_parsing() {
    assert_eq!(failure(" a"), "parse error at 1");
    assert_eq!(failure("a)"), "parse error at 1");
    assert_eq!(failure("a b  ,c"), "parse error at 5");
    assert_eq!(failure("(a b c d)"), "parse error at 0");
    assert_eq!(failure("[a] [b"), "parse error at 4");
    assert_eq!(failure("abcdefghij klm 'open"), "parse error at 15");
    match parse("a)".to_string()) {
        Err(e) => assert_eq!(e.message(), "parse error at 1"),
        Ok(read) => panic!("{:?}", read),
    }
}

#[test]
fn a_parser_holds_its_tokens() {
    let tokens = Lexer::new("(a 1)".to_string()).tokens().expect("tokens");
    let p = Parser::new(tokens);
    assert_eq!(p.len(), 4);
    assert_eq!(*p.token(0), Token::LParen);
    assert_eq!(*p.token(2), Token::Integer(1));
}
