use bibparse::edition::Edition;

#[test]
fn parse_from_str() {
    // given
    vec![
        ("2", Edition::Numeric(2)),
        ("2.", Edition::Numeric(2)),
        ("Second", Edition::Literal(String::from("Second"))),
    ]
    .iter()
    .for_each(|(input, expected)| {
        // when
        let actual = Edition::parse(input);

        // then
        assert_eq!(actual, *expected);
    });
}

#[test]
fn parse_strips_one_trailing_dot_only() {
    assert_eq!(Edition::parse("3.."), Edition::Literal(String::from("3.")));
    assert_eq!(Edition::parse("Second."), Edition::Literal(String::from("Second")));
}
