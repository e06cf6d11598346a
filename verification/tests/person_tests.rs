use bibparse::person::Person;

#[test]
fn create_vec_of_four_people_from_str() {
    // given
    let input = "Gamma, Erich and Helm, Richard and Johnson, Ralph E. and Vlissides, John M.";
    let expected = Ok(vec![
        Person::FirstLast {
            first_name: String::from("Erich"),
            last_name: String::from("Gamma"),
        },
        Person::FirstLast {
            first_name: String::from("Richard"),
            last_name: String::from("Helm"),
        },
        Person::FirstMiddleLast {
            first_name: String::from("Ralph"),
            middle_names: vec![String::from("E")],
            last_name: String::from("Johnson"),
        },
        Person::FirstMiddleLast {
            first_name: String::from("John"),
            middle_names: vec![String::from("M")],
            last_name: String::from("Vlissides"),
        },
    ]);

    // when
    let actual = Person::people_from_str(input);

    // then
    assert_eq!(actual, expected);
}

#[test]
fn create_vec_of_one_person_from_str() {
    // given
    let input = "Beck, Kent";
    let expected = Ok(vec![Person::FirstLast {
        first_name: String::from("Kent"),
        last_name: String::from("Beck"),
    }]);

    // when
    let actual = Person::people_from_str(input);

    // then
    assert_eq!(actual, expected);
}

#[test]
fn single_person_first_last_from_str() {
    let input = "Beck, Kent";
    let expected = Ok(Person::FirstLast {
        first_name: String::from("Kent"),
        last_name: String::from("Beck"),
    });

    // when
    let actual = Person::person_from_str(input);

    // then
    assert_eq!(actual, expected);
}

#[test]
fn single_person_first_middle_last_from_str() {
    let input = "Martin, Robert C.";
    let expected = Ok(Person::FirstMiddleLast {
        first_name: String::from("Robert"),
        middle_names: vec![String::from("C")],
        last_name: String::from("Martin"),
    });

    // when
    let actual = Person::person_from_str(input);

    // then
    assert_eq!(actual, expected);
}

#[test]
fn get_first_and_middle() {
    // given
    vec![
        ("Kent", ("Kent", vec![])),
        ("Robert Cecil", ("Robert", vec!["Cecil"])),
        ("Robert C.", ("Robert", vec!["C"])),
        ("R. C.", ("R", vec!["C"])),
        ("R.~C.", ("R", vec!["C"])),
        ("R.C.", ("R", vec!["C"])),
        ("J.R.R.", ("J", vec!["R", "R"])),
    ]
    .iter()
    .for_each(|(input, expected)| {
        // when
        let actual = Person::first_or_first_and_middle(input);

        // then
        let expected_owned: (String, Vec<String>) = (
            String::from(expected.0),
            expected.1.iter().map(|m| String::from(*m)).collect(),
        );
        assert_eq!(actual, expected_owned);
    });
}

#[test]
fn people_total_on_arbitrary_text() {
    // Any nonempty string parses; without a comma it is a full name.
    let actual = Person::people_from_str("{}=@# strange");
    assert_eq!(actual, Ok(vec![Person::FullName(String::from("{}=@# strange"))]));
}

#[test]
fn people_empty_gives_empty_list() {
    let actual = Person::people_from_str("");
    assert_eq!(actual, Ok(vec![]));
}
