use nom::branch::alt;
use nom::bytes::complete::tag;
use nom::character::complete::{alpha1, alphanumeric1};
use nom::combinator::recognize;
use nom::multi::many0;
use nom::sequence::pair;
use nom::IResult;

use simulabra::model::syntax::{identifier, AST};

fn reference(input: &str) -> IResult<&str, &str> {
    recognize(pair(alt((alpha1, tag("_"))), many0(alt((alphanumeric1, tag("_"))))))(input)
}

#[test]
fn identifier_reads_a_name() {
    assert_eq!(
        identifier("agent_1 moves"),
        Some((" moves".to_string(), AST::Name("agent_1".to_string())))
    );
    assert_eq!(identifier("_x"), Some((String::new(), AST::Name("_x".to_string()))));
    assert_eq!(identifier("a"), Some((String::new(), AST::Name("a".to_string()))));
}

#[test]
fn identifier_needs_a_letter_or_a_low_line_first() {
    assert_eq!(identifier(""), None);
    assert_eq!(identifier("1abc"), None);
    assert_eq!(identifier(" abc"), None);
    assert_eq!(identifier("-a"), None);
}

#[test]
fn identifier_takes_ascii_letters_only() {
    assert_eq!(identifier("été"), None);
    assert_eq!(identifier("naïve"), Some(("ïve".to_string(), AST::Name("na".to_string()))));
}

#[test]
fn identifier_agrees_with_the_combinators() {
    let inputs = [
        "", "a", "_", "__", "_1", "a1_b2 rest", "abc.def", "Z9z", "9z", "a-b", "x y", "snake_case(",
        "é", "aé", "_é_", "A_B_C=1", "\n", "tab\tbed", "ends_", "0", "a0", "aA0_",
    ];
    for input in inputs {
        let got = identifier(input);
        match reference(input) {
            Ok((rest, name)) => {
                assert_eq!(got, Some((rest.to_string(), AST::Name(name.to_string()))), "{:?}", input)
            }
            Err(_) => assert_eq!(got, None, "{:?}", input),
        }
    }
}
