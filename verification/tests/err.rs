use simulabra::err::SlabErr;

#[test]
fn message_of_a_description() {
    assert_eq!(SlabErr::msg("Couldn't find setup function!").message(), "Couldn't find setup function!");
    assert_eq!(SlabErr::Msg(String::new()).message(), "");
}

#[test]
fn message_of_a_read_or_parse_failure() {
    assert_eq!(SlabErr::IO("No such file".to_string()).message(), "No such file");
    assert_eq!(
        SlabErr::Chumsky("found end of input".to_string()).message(),
        "found end of input"
    );
}

#[test]
fn message_of_a_list_joins_its_failures() {
    let inner = SlabErr::List(vec![
        Box::new(SlabErr::msg("b")),
        Box::new(SlabErr::List(vec![])),
        Box::new(SlabErr::IO("c".to_string())),
    ]);
    let all = SlabErr::List(vec![
        Box::new(SlabErr::msg("a")),
        Box::new(inner),
        Box::new(SlabErr::Chumsky("d".to_string())),
    ]);
    assert_eq!(all.message(), "abcd");
    assert_eq!(SlabErr::List(vec![]).message(), "");
}
