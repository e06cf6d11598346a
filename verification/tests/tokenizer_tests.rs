use bibparse::literal::EntryLiteral;
use bibparse::tokenizer::{
    EntryToken, Position, Tokenizer, TokenizerError, TokenizerReadValueMode, TokenizerState,
};

fn tokenizer_for_str(input: &str) -> Tokenizer {
    Tokenizer::new(input.as_bytes().to_vec())
}

fn assert_error_message(actual: TokenizerError, expected: &str) {
    assert_eq!(actual.message(), expected);
}

#[test]
fn tokenize_bibtex_entry() {
    // given
    let input = r#"
            @book{beck-2004,
              title     = {Extreme Programming Explained: Embrace Change},
            }
            @online{malan-2008,
              title      = "Conway's Law",
              author     = "Malan, Ruth",
              year       = 2008
            }"#;

    let mut tokenizer = tokenizer_for_str(input);

    let expected = vec![
        EntryToken::Type(String::from("book")),
        EntryToken::Symbol(String::from("beck-2004")),
        EntryToken::FieldName(String::from("title")),
        EntryToken::Value(String::from("Extreme Programming Explained: Embrace Change")),
        EntryToken::Type(String::from("online")),
        EntryToken::Symbol(String::from("malan-2008")),
        EntryToken::FieldName(String::from("title")),
        EntryToken::Value(String::from("Conway's Law")),
        EntryToken::FieldName(String::from("author")),
        EntryToken::Value(String::from("Malan, Ruth")),
        EntryToken::FieldName(String::from("year")),
        EntryToken::Value(String::from("2008")),
    ];

    // when
    let actual: Vec<EntryToken> = tokenizer.tokenize().unwrap();

    // then
    assert_eq!(actual, expected);
}

#[test]
fn tokenizer_invalid_token() {
    // idle
    let mut tokenizer = tokenizer_for_str("abc");
    assert_error_message(
        tokenizer.idle().unwrap_err(),
        "Unexpected token: 'a'. Position: byte: 1 (line 1, column 1)",
    );

    // read_type
    let mut tokenizer = tokenizer_for_str("!");
    assert_error_message(
        tokenizer.read_type().unwrap_err(),
        "Unexpected token: '!'. Position: byte: 1 (line 1, column 1)",
    );

    // read_symbol
    let mut tokenizer = tokenizer_for_str("@");
    assert_error_message(
        tokenizer.read_symbol().unwrap_err(),
        "Unexpected token: '@'. Position: byte: 1 (line 1, column 1)",
    );

    // read_field_name
    let mut tokenizer = tokenizer_for_str("@");
    assert_error_message(
        tokenizer.read_field_name().unwrap_err(),
        "Unexpected token: '@'. Position: byte: 1 (line 1, column 1)",
    );

    // read_value
    let mut tokenizer = tokenizer_for_str("@");
    assert_error_message(
        tokenizer.read_value().unwrap_err(),
        "Unexpected token: '@'. Position: byte: 1 (line 1, column 1)",
    );
}

#[test]
fn valid_eof() {
    // given
    let input = " \t\n";
    fn consume_whitespace(tokenizer: &mut Tokenizer) {
        for _ in 0..3 {
            let _ = tokenizer.idle();
        }
    }
    let mut tokenizer = tokenizer_for_str(input);

    // when
    consume_whitespace(&mut tokenizer);
    let actual = tokenizer.idle().unwrap_err();

    // then
    assert!(matches!(actual, TokenizerError::FileEnded));
    assert_error_message(actual, "File ended");
}

#[test]
fn tokenizer_valid_token() {
    // idle
    let mut tokenizer = tokenizer_for_str("@abc");
    tokenizer.idle().unwrap();
    assert_eq!(tokenizer.state, TokenizerState::ReadType);

    // read_type
    let mut tokenizer = tokenizer_for_str("abc{");
    let expected = EntryToken::Type(String::from("abc"));
    for _ in 0..4 {
        tokenizer.read_type().unwrap();
    }
    let actual = tokenizer.tokens.first().unwrap();
    assert_eq!(*actual, expected);
    assert_eq!(tokenizer.state, TokenizerState::ReadSymbol);

    // read_symbol
    let mut tokenizer = tokenizer_for_str("a-1,");
    let expected = EntryToken::Symbol(String::from("a-1"));
    for _ in 0..4 {
        tokenizer.read_symbol().unwrap();
    }
    let actual = tokenizer.tokens.first().unwrap();
    assert_eq!(*actual, expected);
    assert_eq!(tokenizer.state, TokenizerState::ReadPropertyName);
}

#[test]
fn tokenizer_unexpected_eof() {
    let expected = "Unexpected EOF. Position: byte: 0 (line 1, column 0)";

    // read_type
    let mut tokenizer = tokenizer_for_str("");
    assert_error_message(tokenizer.read_type().unwrap_err(), expected);

    // read_symbol
    let mut tokenizer = tokenizer_for_str("");
    assert_error_message(tokenizer.read_symbol().unwrap_err(), expected);

    // read_field_name
    let mut tokenizer = tokenizer_for_str("");
    assert_error_message(tokenizer.read_field_name().unwrap_err(), expected);

    // read_value
    let mut tokenizer = tokenizer_for_str("");
    assert_error_message(tokenizer.read_value().unwrap_err(), expected);
}

#[test]
fn to_lower_case() {
    // given
    let input = "AbC{";
    let mut tokenizer = tokenizer_for_str(input);
    let expected = EntryToken::Type(String::from("abc"));

    // when
    for _ in 0..4 {
        tokenizer.read_type().unwrap();
    }
    let actual = tokenizer.tokens.first().unwrap();

    assert_eq!(*actual, expected);
    assert_eq!(tokenizer.state, TokenizerState::ReadSymbol)
}

#[test]
fn valid_transition_to_reading_value() {
    // given
    let input = "abc=";
    let mut tokenizer = tokenizer_for_str(input);
    let expected = EntryToken::FieldName(String::from("abc"));

    // when
    for _ in 0..4 {
        tokenizer.read_field_name().unwrap();
    }
    let actual = tokenizer.tokens.first().unwrap();

    // then
    assert_eq!(*actual, expected);
    assert_eq!(tokenizer.state, TokenizerState::ReadValue(TokenizerReadValueMode::Normal));
}

#[test]
fn tokenizer_valid_transition_to_end() {
    // read_field_name
    let mut tokenizer = tokenizer_for_str("}");
    tokenizer.read_field_name().unwrap();
    assert_eq!(tokenizer.state, TokenizerState::Idle);

    // read_value
    let mut tokenizer = tokenizer_for_str("}");
    tokenizer.read_value().unwrap();
    assert_eq!(tokenizer.state, TokenizerState::Idle);
}

#[test]
fn valid_transition_to_quoted() {
    // given
    let input = "\"";
    let mut tokenizer = tokenizer_for_str(input);

    // when
    tokenizer.read_value().unwrap();

    // then
    assert_eq!(
        tokenizer.state,
        TokenizerState::ReadValue(TokenizerReadValueMode::DoubleQuoted)
    );
}

#[test]
fn valid_transition_out_of_quoted() {
    // given
    let input = "\"";
    let mut tokenizer = tokenizer_for_str(input);

    // when
    tokenizer.read_value_quoted().unwrap();

    // then
    assert_eq!(tokenizer.state, TokenizerState::ReadValue(TokenizerReadValueMode::Normal))
}

#[test]
fn valid_special_char_handling() {
    // given
    let input = "a b@c";
    let mut tokenizer = tokenizer_for_str(input);
    let expected = "a b@c";

    // when
    for _ in 0..5 {
        tokenizer.read_value_quoted().unwrap();
    }
    let actual = tokenizer.current_token_value.as_str();

    assert_eq!(actual, expected);
}

#[test]
fn valid_transition_to_braced() {
    // given
    let input = "{";
    let mut tokenizer = tokenizer_for_str(input);

    // when
    tokenizer.read_value().unwrap();

    // then
    assert_eq!(
        tokenizer.state,
        TokenizerState::ReadValue(TokenizerReadValueMode::Braced(0))
    );
}

#[test]
fn valid_deeper_braced() {
    // given
    let input = "{{";
    let mut tokenizer = tokenizer_for_str(input);

    // when
    tokenizer.read_value().unwrap();
    tokenizer.read_value_braced().unwrap();

    // then
    assert_eq!(
        tokenizer.state,
        TokenizerState::ReadValue(TokenizerReadValueMode::Braced(1))
    );
}

#[test]
fn valid_transition_out_of_braced() {
    // given
    let input = "}";
    let mut tokenizer = tokenizer_for_str(input);

    // when
    tokenizer.read_value_braced().unwrap();

    // then
    assert_eq!(tokenizer.state, TokenizerState::ReadValue(TokenizerReadValueMode::Normal));
}

#[test]
fn valid_special_char_handling_multiple_braces() {
    // given
    let input = "a b{@}c";
    let mut tokenizer = tokenizer_for_str(input);
    let expected = "a b@c";

    // when
    for _ in 0..7 {
        tokenizer.read_value_braced().unwrap();
    }
    let actual = tokenizer.current_token_value.as_str();

    assert_eq!(actual, expected);
}

#[test]
fn literals() {
    vec![
        ("@", EntryLiteral::AtSign),
        ("\n", EntryLiteral::Newline),
        ("a", EntryLiteral::Alphabetic('a')),
        ("!", EntryLiteral::Other('!')),
        ("", EntryLiteral::EndOfFile),
    ]
    .iter()
    .for_each(|(input, expected)| {
        // given
        let mut tokenizer = tokenizer_for_str(input);

        // when
        let actual = tokenizer.next_literal().unwrap();

        // then
        assert_eq!(actual, *expected);
    });
}

#[test]
fn position() {
    vec![
        ("aaa", Position { byte: 3, line: 1, column: 3 }),
        ("a👌b", Position { byte: 6, line: 1, column: 3 }),
        ("a\nb", Position { byte: 3, line: 2, column: 1 }),
        ("👌\nb", Position { byte: 6, line: 2, column: 1 }),
    ]
    .iter()
    .for_each(|(input, expected)| {
        // given
        let mut tokenizer = tokenizer_for_str(input);

        // when
        for _ in 0..3 {
            let _ = tokenizer.next_char();
        }
        let actual = tokenizer.position;

        // then
        assert_eq!(actual, *expected);
    });
}

#[test]
fn utf8_next_char() {
    vec![("abc", Some('a')), ("👌", Some('👌')), ("", None)].iter().for_each(
        |(input, expected)| {
            // given
            let mut tokenizer = tokenizer_for_str(input);

            // when
            let actual = tokenizer.next_char().unwrap();

            // then
            assert_eq!(actual, *expected);
        },
    );
}

#[test]
fn non_valid_utf8_next_char() {
    // given
    let mut tokenizer = Tokenizer::new(vec![255, 254, 253, 252]);

    // when
    let actual = tokenizer.next_char().unwrap_err();

    // then
    assert_error_message(actual, "Cannot decode bytes to UTF-8. Bytes: [ff fe fd fc]");
}

#[test]
fn position_str_renders_coordinates() {
    let mut tokenizer = tokenizer_for_str("a\nbc");
    for _ in 0..4 {
        let _ = tokenizer.next_char();
    }
    assert_eq!(tokenizer.position_str(), "byte: 4 (line 2, column 2)");
}

#[test]
fn truncated_scalar_at_eof_reads_as_end() {
    // A multi-byte scalar cut off by the end of input consumes the
    // stray bytes and reports end of input, as a streaming reader does.
    let mut tokenizer = Tokenizer::new(vec![0xc3]);
    assert_eq!(tokenizer.next_char().unwrap(), None);
    assert_eq!(tokenizer.position.byte, 1);
}

#[test]
fn brace_value_keeps_nested_text() {
    let mut tokenizer = tokenizer_for_str("@book{k, series = {{XP} Series}}");
    let tokens = tokenizer.tokenize().unwrap();
    assert_eq!(
        tokens,
        vec![
            EntryToken::Type(String::from("book")),
            EntryToken::Symbol(String::from("k")),
            EntryToken::FieldName(String::from("series")),
            EntryToken::Value(String::from("XP Series")),
        ]
    );
}

#[test]
fn literal_classes_cover_digits_and_whitespace() {
    let mut tokenizer = tokenizer_for_str("1");
    assert_eq!(tokenizer.next_literal().unwrap(), EntryLiteral::Numeric('1'));
    let mut tokenizer = tokenizer_for_str("\t");
    assert_eq!(tokenizer.next_literal().unwrap(), EntryLiteral::Whitespace);
}
