use chumsky::prelude::{filter, just, one_of, take_until, Parser, Simple};
use chumsky::text::{self, TextParser};

use simulabra::lang::lexer::{lexer, token, Span, Token};

/// The tokens as the parser combinators read them.
fn reference() -> impl Parser<char, Vec<(Token, Span)>, Error = Simple<char>> {
    let num = text::int(10)
        .chain::<char, _, _>(just('.').chain(text::digits(10)).or_not().flatten())
        .collect::<String>()
        .map(Token::Number);

    let stre = just('"')
        .ignore_then(filter(|c| *c != '"').repeated())
        .then_ignore(just('"'))
        .collect::<String>()
        .map(Token::Str);

    let op = one_of("+-*/!=<>").repeated().at_least(1).collect::<String>().map(Token::Op);

    let lparen = just('(').map(|_| Token::LParen);
    let rparen = just(')').map(|_| Token::RParen);
    let lbracket = just('{').map(|_| Token::LBracket);
    let rbracket = just('}').map(|_| Token::RBracket);
    let colon = just(':').map(|_| Token::Colon);
    let dot = just('.').map(|_| Token::Dot);
    let comma = just(',').map(|_| Token::Comma);

    let ident = text::ident::<char, Simple<char>>().map(|ident: String| match ident.as_str() {
        "class" => Token::Class,
        "var" => Token::Var,
        "has" => Token::Has,
        "on" => Token::On,
        "action" => Token::Action,
        "parameter" => Token::Parameter,
        "function" => Token::Function,
        "for" => Token::For,
        "if" => Token::If,
        "else" => Token::Else,
        "true" => Token::Bool(true),
        "false" => Token::Bool(false),
        _ => Token::Ident(ident),
    });

    let token = num
        .or(stre)
        .or(op)
        .or(lparen)
        .or(rparen)
        .or(lbracket)
        .or(rbracket)
        .or(colon)
        .or(dot)
        .or(comma)
        .or(ident);

    let comment = just("//").then(take_until(just('\n'))).padded();

    token.padded_by(comment.repeated()).map_with_span(|tok, span| (tok, span)).padded().repeated()
}

fn ident(s: &str) -> Token {
    Token::Ident(s.to_string())
}

#[test]
fn a_class_definition() {
    let src = "class Wolf has Animal {\n  var energy: 10.5\n  on step(x, y) { move }\n}\n";
    let tokens: Vec<Token> = lexer(src).into_iter().map(|(t, _)| t).collect();
    assert_eq!(
        tokens,
        vec![
            Token::Class,
            ident("Wolf"),
            Token::Has,
            ident("Animal"),
            Token::LBracket,
            Token::Var,
            ident("energy"),
            Token::Colon,
            Token::Number("10.5".to_string()),
            Token::On,
            ident("step"),
            Token::LParen,
            ident("x"),
            Token::Comma,
            ident("y"),
            Token::RParen,
            Token::LBracket,
            ident("move"),
            Token::RBracket,
            Token::RBracket,
        ]
    );
}

#[test]
fn spans_count_characters() {
    assert_eq!(
        lexer("  if é_ \"ß\" <= 7"),
        vec![(Token::If, 2..4)],
    );
    assert_eq!(
        lexer("\"ßé\" x"),
        vec![(Token::Str("ßé".to_string()), 0..4), (ident("x"), 5..6)],
    );
}

#[test]
fn numbers_have_no_leading_zero() {
    assert_eq!(
        lexer("04 1. 2.5"),
        vec![
            (Token::Number("0".to_string()), 0..1),
            (Token::Number("4".to_string()), 1..2),
            (Token::Number("1".to_string()), 3..4),
            (Token::Dot, 4..5),
            (Token::Number("2.5".to_string()), 6..9),
        ],
    );
}

#[test]
fn comments_belong_to_the_span() {
    assert_eq!(
        lexer("a // one\n // two\n b"),
        vec![(ident("a"), 0..18), (ident("b"), 18..19)],
    );
    assert_eq!(lexer("// head\nx"), vec![(ident("x"), 0..9)]);
}

#[test]
fn a_comment_needs_its_line_end() {
    assert_eq!(
        lexer("a // b"),
        vec![(ident("a"), 0..1), (Token::Op("//".to_string()), 2..4), (ident("b"), 5..6)],
    );
}

#[test]
fn reading_stops_at_what_is_no_token() {
    assert_eq!(lexer("a b # c d"), vec![(ident("a"), 0..1), (ident("b"), 2..3)]);
    assert_eq!(lexer("x \"open"), vec![(ident("x"), 0..1)]);
    assert_eq!(lexer("// only a comment\n"), vec![]);
    assert_eq!(lexer(""), vec![]);
}

#[test]
fn keywords_and_words() {
    assert_eq!(
        lexer("true false truely for fore _if else"),
        vec![
            (Token::Bool(true), 0..4),
            (Token::Bool(false), 5..10),
            (ident("truely"), 11..17),
            (Token::For, 18..21),
            (ident("fore"), 22..26),
            (ident("_if"), 27..30),
            (Token::Else, 31..35),
        ],
    );
}

#[test]
fn tokens_agree_with_the_combinators() {
    let sources = [
        "",
        " ",
        "class Wolf has Animal {\n  var energy: 10.5\n  on step(x, y) { move }\n}\n",
        "a // one\n // two\n b",
        "// head\nx",
        "a // b",
        "a /// b\nc",
        "x+//y\nz",
        "04 1. 2.5 10.75.5 007 0.5 9 90 0",
        "\"str\" \"\" \"multi\nline\" \"open",
        "a b # c d",
        "action parameter function if else for true false on has var class",
        "+-*/!=<> <= >= != == a<b",
        "f(x,y):{z.w}",
        "  if é_ \"ß\" <= 7",
        "\u{a0}x\u{2003}y\u{3000}z\t\r\n\u{b}w\u{c}v\u{85}u",
        "_ __ _1 a1_ A Z9",
        "1.5e3 1e5 .5 5.",
        "x //\ny",
        "x//\n//\n\n//z\ny // w",
        "//\n",
        "//",
        "/ / x",
        "a\u{200b}b",
        "tab\tseparated\twords",
        "[brackets]",
        "1//c\n2",
        "\"a\"//c\n\"b\"",
    ];
    for src in sources {
        let (expected, errors) = reference().parse_recovery(src);
        assert!(errors.is_empty(), "{:?}", src);
        assert_eq!(Some(lexer(src)), expected, "{:?}", src);
    }
}

#[test]
fn one_token_at_a_position() {
    let text: Vec<char> = "class classy 10.5x \"s\" <=".chars().collect();
    assert_eq!(token(&text, 0), Some((Token::Class, 5)));
    assert_eq!(token(&text, 6), Some((ident("classy"), 12)));
    assert_eq!(token(&text, 13), Some((Token::Number("10.5".to_string()), 17)));
    assert_eq!(token(&text, 17), Some((ident("x"), 18)));
    assert_eq!(token(&text, 19), Some((Token::Str("s".to_string()), 22)));
    assert_eq!(token(&text, 23), Some((Token::Op("<=".to_string()), 25)));
    assert_eq!(token(&text, 5), None);
    assert_eq!(token(&text, 25), None);
}
