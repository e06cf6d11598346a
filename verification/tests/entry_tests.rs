use bibparse::date::Date;
use bibparse::edition::Edition;
use bibparse::entry::{Entry, Parser};
use bibparse::entry_field::EntryField;
use bibparse::entry_type::EntryType;
use bibparse::pages::{Page, Pages};
use bibparse::person::Person;
use bibparse::tokenizer::Tokenizer;

fn parser_for_str(input: &str) -> Parser {
    Parser::new(Tokenizer::new(input.as_bytes().to_vec()))
}

#[test]
fn parse_entries() {
    // given
    let input = r#"
            @book{beck-2004,
                title     = {Extreme Programming Explained: Embrace Change},
                edition   = {2},
                isbn      = {978-0-13-405199-4},
                series    = {{XP} Series},
                pagetotal = {189},
                publisher = {Addison-Wesley Professional},
                author    = {Beck, Kent and Andres, Cynthia},
                date      = {2004},
            }
            @article{ieee-802-3-2018,
                journal={IEEE Std 802.3-2018 (Revision of IEEE Std 802.3-2015)},
                title={IEEE Standard for Ethernet},
                year={2018},
                doi={10.1109/IEEESTD.2018.8457469}
            }"#;
    let expected = Ok(vec![
        Entry {
            entry_type: EntryType::Book,
            symbol: String::from("beck-2004"),
            fields: vec![
                EntryField::Title(String::from("Extreme Programming Explained: Embrace Change")),
                EntryField::Edition(Edition::Numeric(2)),
                EntryField::Isbn(String::from("978-0-13-405199-4")),
                EntryField::Series(String::from("XP Series")),
                EntryField::PageTotal(189),
                EntryField::Publisher(String::from("Addison-Wesley Professional")),
                EntryField::Author(vec![
                    Person::FirstLast {
                        first_name: String::from("Kent"),
                        last_name: String::from("Beck"),
                    },
                    Person::FirstLast {
                        first_name: String::from("Cynthia"),
                        last_name: String::from("Andres"),
                    },
                ]),
                EntryField::Date(Date::Year(2004)),
            ],
        },
        Entry {
            entry_type: EntryType::Article,
            symbol: String::from("ieee-802-3-2018"),
            fields: vec![
                EntryField::Journal(String::from(
                    "IEEE Std 802.3-2018 (Revision of IEEE Std 802.3-2015)",
                )),
                EntryField::Title(String::from("IEEE Standard for Ethernet")),
                EntryField::Year(Date::Year(2018)),
                EntryField::Doi(String::from("10.1109/IEEESTD.2018.8457469")),
            ],
        },
    ]);

    // when
    let mut parser = parser_for_str(input);
    let actual = parser.parse();

    // then
    assert_eq!(actual, expected);
}

#[test]
fn parse_entries_err_on_invalid() {
    // given
    let without_symbol = r#"
            @online{
                title = "a",
            }
            "#;

    // when
    let mut parser = parser_for_str(without_symbol);
    let actual = parser.parse();

    // then
    assert!(actual.is_err());
}

#[test]
fn parse_quoted_and_bare_values() {
    // Quoted values keep apostrophes and inner spaces; a bare value
    // still reads as a year.
    let input = r#"@online{malan-2008, title = "Conway's Law", author = "Malan, Ruth", year = 2008}"#;
    let expected = Ok(vec![Entry {
        entry_type: EntryType::Online,
        symbol: String::from("malan-2008"),
        fields: vec![
            EntryField::Title(String::from("Conway's Law")),
            EntryField::Author(vec![Person::FirstLast {
                first_name: String::from("Ruth"),
                last_name: String::from("Malan"),
            }]),
            EntryField::Year(Date::Year(2008)),
        ],
    }]);

    let mut parser = parser_for_str(input);
    assert_eq!(parser.parse(), expected);
}

#[test]
fn parse_entry_type_case_insensitive() {
    for spelling in ["@book{k,}", "@BOOK{k,}", "@Book{k,}"] {
        let mut parser = parser_for_str(spelling);
        let actual = parser.parse().unwrap();
        assert_eq!(
            actual,
            vec![Entry {
                entry_type: EntryType::Book,
                symbol: String::from("k"),
                fields: vec![],
            }]
        );
    }
}

#[test]
fn parse_unknown_field_keeps_name() {
    let mut parser = parser_for_str("@misc{k, zzz = {ignored}}");
    let actual = parser.parse().unwrap();
    assert_eq!(
        actual,
        vec![Entry {
            entry_type: EntryType::Misc,
            symbol: String::from("k"),
            fields: vec![EntryField::Other(String::from("zzz"))],
        }]
    );
}

#[test]
fn parse_unknown_type_kept_verbatim() {
    let mut parser = parser_for_str("@webpage{k,}");
    let actual = parser.parse().unwrap();
    assert_eq!(
        actual,
        vec![Entry {
            entry_type: EntryType::Other(String::from("webpage")),
            symbol: String::from("k"),
            fields: vec![],
        }]
    );
}

#[test]
fn parse_stray_comma_in_field_name_errors() {
    let mut parser = parser_for_str("@book{k, j,}");
    assert_eq!(
        parser.parse().unwrap_err(),
        "Tokenization error: Unexpected token: ','. Position: byte: 11 (line 1, column 11)"
    );
}

#[test]
fn parse_invalid_pagetotal_errors() {
    let mut parser = parser_for_str("@book{k, title = {x}, pagetotal = {nine}}");
    assert_eq!(
        parser.parse().unwrap_err(),
        "Could not parse PageTotal value from 'nine'"
    );
}

#[test]
fn parse_pagetotal_and_pages_fields() {
    let mut parser = parser_for_str("@book{k, pages = {2--4, 7}, pagetotal = {12}}");
    let actual = parser.parse().unwrap();
    assert_eq!(
        actual,
        vec![Entry {
            entry_type: EntryType::Book,
            symbol: String::from("k"),
            fields: vec![
                EntryField::Pages(vec![
                    Pages::Range(Page::Numeric(2), Page::Numeric(4)),
                    Pages::Single(Page::Numeric(7)),
                ]),
                EntryField::PageTotal(12),
            ],
        }]
    );
}

#[test]
fn parse_tokenizer_error_is_wrapped() {
    let mut parser = parser_for_str("bare words");
    assert_eq!(
        parser.parse().unwrap_err(),
        "Tokenization error: Unexpected token: 'b'. Position: byte: 1 (line 1, column 1)"
    );
}

#[test]
fn parse_non_ascii_value_round_trip() {
    // A scalar that is no structural delimiter survives into the value.
    let mut parser = parser_for_str("@book{k, title = {Éé👌}}");
    let actual = parser.parse().unwrap();
    assert_eq!(
        actual,
        vec![Entry {
            entry_type: EntryType::Book,
            symbol: String::from("k"),
            fields: vec![EntryField::Title(String::from("Éé👌"))],
        }]
    );
}

#[test]
fn parse_eof_mid_entry_errors() {
    let mut parser = parser_for_str("@book{k,}@book");
    assert_eq!(
        parser.parse().unwrap_err(),
        "Tokenization error: Unexpected EOF. Position: byte: 14 (line 1, column 14)"
    );
}
