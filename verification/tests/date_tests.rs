use bibparse::date::Date;

#[test]
fn parse_date_full() {
    // given
    let input = "2004-03-02";
    let expected = Ok(Date::YearMonthDay(2004, 3, 2));

    // when
    let actual = Date::parse_date_from_str(input);

    // then
    assert_eq!(actual, expected);
}

#[test]
fn parse_date_year_month() {
    // given
    let input = "2004-03";
    let expected = Ok(Date::YearMonth(2004, 3));

    // when
    let actual = Date::parse_date_from_str(input);

    // then
    assert_eq!(actual, expected);
}

#[test]
fn parse_date_year_only() {
    // given
    let input = "2004";
    let expected = Ok(Date::Year(2004));

    // when
    let actual = Date::parse_date_from_str(input);

    // then
    assert_eq!(actual, expected);
}

#[test]
fn parse_date_month() {
    // given
    let expected = Ok(Date::Month(3));
    vec!["03", "3", "mar", "march", "Mar", "March"].iter().for_each(|input| {
        // when
        let actual = Date::parse_month_from_str(input);

        // then
        assert_eq!(actual, expected);
    });
}

#[test]
fn parse_date_invalid_month() {
    // given
    let input = "42";

    // when
    let actual = Date::parse_month_from_str(input);

    // then
    assert!(actual.is_err());
}

#[test]
fn merge() {
    // given
    vec![
        ((Date::Year(2004), Date::Month(3)), Date::YearMonth(2004, 3)),
        ((Date::Month(3), Date::Year(2004)), Date::YearMonth(2004, 3)),
        ((Date::YearMonth(2004, 3), Date::Year(2005)), Date::YearMonth(2004, 3)),
    ]
    .iter()
    .for_each(|((date1, date2), expected)| {
        // when
        let actual = Date::merge(*date1, *date2);

        // then
        assert_eq!(actual, *expected);
    });
}

#[test]
fn parse_date_errors_name_the_segment() {
    assert_eq!(
        Date::parse_year_from_str("two thousand").unwrap_err(),
        "Could not parse Year from 'two thousand'"
    );
    assert_eq!(
        Date::parse_month_from_str("smarch").unwrap_err(),
        "Could not parse Month from 'smarch'"
    );
    assert_eq!(
        Date::parse_date_from_str("2004-03-xx").unwrap_err(),
        "Could not parse Day from 'xx'"
    );
    assert_eq!(
        Date::parse_date_from_str("2004-03-02-01").unwrap_err(),
        "Could not parse Date from '2004-03-02-01'"
    );
}

#[test]
fn parse_date_day_upper_bound() {
    assert_eq!(
        Date::parse_date_from_str("2004-03-31"),
        Ok(Date::YearMonthDay(2004, 3, 31))
    );
    assert_eq!(
        Date::parse_date_from_str("2004-03-32").unwrap_err(),
        "Day must be at most 31, but was 32"
    );
}

#[test]
fn parse_month_full_names() {
    let cases = [
        ("january", 1u8),
        ("feb", 2),
        ("December", 12),
        ("jun", 6),
    ];
    for (name, number) in cases {
        assert_eq!(Date::parse_month_from_str(name), Ok(Date::Month(number)));
    }
}

#[test]
fn parse_year_negative() {
    assert_eq!(Date::parse_year_from_str("-44"), Ok(Date::Year(-44)));
}
