use simulabra::lexer::{Lexer, LexerError, Token};

fn lex(text: &str) -> Result<Vec<Token>, LexerError> {
    Lexer::new(text.to_string()).tokens()
}

fn message(s: &str) -> Token {
    Token::Message(s.to_string())
}

#[test]
fn brackets_and_words() {
    assert_eq!(
        lex("(a b)"),
        Ok(vec![Token::LParen, message("a"), message("b"), Token::RParen])
    );
    assert_eq!(
        lex("[ { . } ]\n"),
        Ok(vec![Token::LBrace, Token::LBracket, Token::Dot, Token::RBracket, Token::RBrace])
    );
}

#[test]
fn empty_text_has_no_tokens() {
    assert_eq!(lex(""), Ok(vec![]));
    assert_eq!(lex(" \n "), Ok(vec![]));
}

#[test]
fn next_gives_eof_at_the_end() {
    let mut lexer = Lexer::new(")".to_string());
    assert_eq!(lexer.next(), Ok(Token::RParen));
    assert_eq!(lexer.next(), Ok(Token::EOF));
    assert_eq!(lexer.next(), Ok(Token::EOF));
}

#[test]
fn every_step_moves_the_position_forward() {
    let mut lexer = Lexer::new(String::new());
    assert!(lexer.within_limits());
    assert_eq!(lexer.position(), 0);
    assert_eq!(lexer.next(), Ok(Token::EOF));
    assert_eq!(lexer.position(), 2);
    assert_eq!(lexer.next(), Ok(Token::EOF));
    assert_eq!(lexer.position(), 4);

    let mut lexer = Lexer::new("(ab  c) ;x".to_string());
    let mut positions = vec![];
    for _ in 0..7 {
        lexer.next().expect("a token");
        positions.push(lexer.position());
    }
    assert_eq!(positions, vec![1, 3, 6, 7, 11, 13, 15]);
}

#[test]
fn the_position_after_all_tokens() {
    let mut lexer = Lexer::new("a b".to_string());
    assert_eq!(lexer.tokens(), Ok(vec![message("a")]));
    assert_eq!(lexer.position(), 3);
    let mut lexer = Lexer::new("(a)".to_string());
    assert_eq!(lexer.tokens(), Ok(vec![Token::LParen, message("a"), Token::RParen]));
    assert_eq!(lexer.position(), 5);
    assert_eq!(lexer.tokens(), Ok(vec![]));
    assert_eq!(lexer.position(), 7);
    let mut lexer = Lexer::new("a @ b".to_string());
    assert!(lexer.tokens().is_err());
    assert_eq!(lexer.position(), 3);
}

#[test]
fn words_run_to_a_terminal() {
    assert_eq!(lex("foo-bar!)"), Ok(vec![message("foo-bar!"), Token::RParen]));
    assert_eq!(
        lex("Point + * /x;"),
        Ok(vec![
            Token::Symbol("Point".to_string()),
            message("+"),
            message("*"),
            message("/x"),
            Token::Comment(String::new()),
        ])
    );
}

#[test]
fn numbers() {
    assert_eq!(lex("12)"), Ok(vec![Token::Integer(12), Token::RParen]));
    assert_eq!(lex("0)"), Ok(vec![Token::Integer(0), Token::RParen]));
    assert_eq!(lex("3.5)"), Ok(vec![Token::Float("3.5".to_string()), Token::RParen]));
    assert_eq!(lex("1.)"), Ok(vec![Token::Float("1.".to_string()), Token::RParen]));
    assert_eq!(lex("1.5e-3)"), Ok(vec![Token::Float("1.5e-3".to_string()), Token::RParen]));
    assert_eq!(
        lex("Foo 12 3.5;"),
        Ok(vec![
            Token::Symbol("Foo".to_string()),
            Token::Integer(12),
            Token::Float("3.5".to_string()),
            Token::Comment(String::new()),
        ])
    );
}

#[test]
fn comments() {
    assert_eq!(
        lex("; hello\n(x)"),
        Ok(vec![Token::Comment(" hello".to_string()), Token::LParen, message("x"), Token::RParen])
    );
    assert_eq!(
        lex(";a;b)"),
        Ok(vec![Token::Comment("a".to_string()), message("b"), Token::RParen])
    );
}

#[test]
fn a_last_character_after_a_blank_is_not_read() {
    assert_eq!(lex("a b"), Ok(vec![message("a")]));
    assert_eq!(lex("a bc"), Ok(vec![message("a"), message("bc")]));
    assert_eq!(lex("a )"), Ok(vec![message("a")]));
}

#[test]
fn invalid_first_characters() {
    assert_eq!(lex("9"), Err(LexerError("Lexer error at 1: invalid char 9".to_string())));
    assert_eq!(lex("zebra)"), Err(LexerError("Lexer error at 1: invalid char z".to_string())));
    assert_eq!(lex("(Zed)"), Err(LexerError("Lexer error at 2: invalid char Z".to_string())));
    assert_eq!(lex("a  @)"), Err(LexerError("Lexer error at 4: invalid char @".to_string())));
}

#[test]
fn invalid_numbers() {
    assert_eq!(
        lex("12x)"),
        Err(LexerError("Lexer error at 3: invalid digit found in string".to_string()))
    );
    assert_eq!(
        lex("1.2.3)"),
        Err(LexerError("Lexer error at 5: invalid float literal".to_string()))
    );
    assert_eq!(
        lex("89999999999999999999999999)"),
        Err(LexerError("Lexer error at 26: number too large to fit in target type".to_string()))
    );
    assert_eq!(
        lex("(a 1e5)"),
        Err(LexerError("Lexer error at 6: invalid digit found in string".to_string()))
    );
}

#[test]
fn error_position_has_all_its_digits() {
    let text = format!("{}@", " ".repeat(120));
    assert_eq!(
        lex(&format!("{})", text)),
        Err(LexerError("Lexer error at 121: invalid char @".to_string()))
    );
}

/// The words that start a number, each followed by a terminal, are read as the
/// standard library reads them: the same integers, the same words accepted as
/// floats, and the same reasons for the others.
#[test]
fn numbers_agree_with_the_standard_library() {
    let words = [
        "0", "7", "12", "007", "123456789", "09223372036854775807", "09223372036854775808",
        "18446744073709551616", "1x", "1_000", "1e5", "1E5", "12abc", "1-2", "1+2",
        "1.", "1.0", "1.5", "0.25", "10.75e3", "1.e5", "1.5e", "1.5e+", "1.5e+7", "1.5E-7",
        "1.5e7x", "1..2", "1.2.3", "1.x", "1.5f", "3.14159265358979", "1.5e1000", "1.e", "1.e+",
        "8.8", "1.5e+-3", "1.5ee3", "1.5e3.2", "4.", "2.5E", "0.0e0",
    ];
    for word in words {
        let text = format!("{})", word);
        let end = word.chars().count();
        let got = lex(&text);
        if word.contains('.') {
            match word.parse::<f32>() {
                Ok(_) => assert_eq!(
                    got,
                    Ok(vec![Token::Float(word.to_string()), Token::RParen]),
                    "{}",
                    word
                ),
                Err(e) => assert_eq!(
                    got,
                    Err(LexerError(format!("Lexer error at {}: {}", end, e))),
                    "{}",
                    word
                ),
            }
        } else {
            match word.parse::<isize>() {
                Ok(n) => assert_eq!(got, Ok(vec![Token::Integer(n), Token::RParen]), "{}", word),
                Err(e) => assert_eq!(
                    got,
                    Err(LexerError(format!("Lexer error at {}: {}", end, e))),
                    "{}",
                    word
                ),
            }
        }
    }
}
