use bibparse::pages::{Page, Pages};

#[test]
fn parse_single_from_str() {
    // given
    vec![
        ("2", vec![Pages::Single(Page::Numeric(2))]),
        ("ii", vec![Pages::Single(Page::Literal(String::from("ii")))]),
    ]
    .iter()
    .for_each(|(input, expected)| {
        // when
        let actual = Pages::pages_from_str(input);

        // then
        assert_eq!(actual, *expected);
    });
}

#[test]
fn parse_numerical_range_from_str() {
    // given
    vec![
        "2-4", "2--4", "2---4", "2 - 4", "2 -- 4", "2 --- 4", "2–4", "2—4", "2 – 4", "2 — 4",
    ]
    .iter()
    .for_each(|input| {
        let expected = vec![Pages::Range(Page::Numeric(2), Page::Numeric(4))];

        // when
        let actual = Pages::pages_from_str(input);

        // then
        assert_eq!(actual, expected);
    });
}

#[test]
fn parse_literal_range_from_str() {
    // given
    let input = "ii - iv";
    let expected = vec![Pages::Range(
        Page::Literal(String::from("ii")),
        Page::Literal(String::from("iv")),
    )];

    // when
    let actual = Pages::pages_from_str(input);

    // then
    assert_eq!(actual, expected);
}

#[test]
fn parse_multiple_from_str() {
    // given
    let input = "ii--iv, 12";
    let expected = vec![
        Pages::Range(Page::Literal(String::from("ii")), Page::Literal(String::from("iv"))),
        Pages::Single(Page::Numeric(12)),
    ];

    // when
    let actual = Pages::pages_from_str(input);

    // then
    assert_eq!(actual, expected);
}

#[test]
fn parse_pages_single() {
    // given
    let input = "12";
    let expected = Pages::Single(Page::Numeric(12));

    // when
    let actual = Pages::single_or_range_from_str(input);

    // then
    assert_eq!(actual, expected);
}

#[test]
fn split_range() {
    // given
    vec![
        "2-4", "2--4", "2---4", "2 - 4", "2 -- 4", "2 --- 4", "2–4", "2—4", "2 – 4", "2 — 4",
    ]
    .iter()
    .for_each(|input| {
        let expected = vec![String::from("2"), String::from("4")];

        // when
        let actual = Pages::split_range(input);

        // then
        assert_eq!(actual, expected);
    });
}

#[test]
fn parse_numeric_page() {
    // given
    let input = "12";
    let expected = Page::Numeric(12);

    // when
    let actual = Pages::page_from_str(input);

    // then
    assert_eq!(actual, expected);
}

#[test]
fn mixed_separators_fall_back_to_single() {
    // A segment that two different separators both cut gives more than
    // two pieces, so it reads as a single literal page.
    let actual = Pages::pages_from_str("2-3–4");
    assert_eq!(
        actual,
        vec![Pages::Single(Page::Literal(String::from("2-3–4")))]
    );
}
