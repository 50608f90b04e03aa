use declgen::CamelCase;
use declgen::Indent;
use declgen::ParseError;
use declgen::ScreamingSnakeCase;
use declgen::SnakeCase;
use declgen::StrConcat;

#[test]
fn camel_case_spaces_returns_error() {
    assert!(CamelCase::from_str("Nope Wont").is_err())
}

#[test]
fn camel_case_underscore_returns_error() {
    assert!(CamelCase::from_str("Nope_Wont").is_err())
}

#[test]
fn camel_case_empty_returns_error() {
    assert!(CamelCase::from_str("").is_err());
}

#[test]
fn camel_case_starts_lower_case_returns_error() {
    assert!(CamelCase::from_str("nope").is_err());
}

#[test]
fn camel_case_valid_input_returns_okay() {
    assert!(CamelCase::from_str("ValidInput").is_ok());
}

#[test]
fn snake_case_cannot_be_empty() {
    assert!(SnakeCase::from_str("").is_err())
}

#[test]
fn snake_case_cannot_contain_uppercase() {
    assert!(SnakeCase::from_str("upperCase").is_err());
}

#[test]
fn snake_case_cannot_contain_spaces() {
    assert!(SnakeCase::from_str("invalid case").is_err());
}

#[test]
fn snake_case_cannot_contain_double_underscores() {
    assert!(SnakeCase::from_str("invalid__case").is_err());
}

#[test]
fn snake_case_valid_input() {
    assert!(SnakeCase::from_str("valid_input").is_ok());
}

#[test]
fn screaming_snake_case_cannot_contain_lowercase() {
    assert!(ScreamingSnakeCase::from_str("NOPE_wont").is_err());
}

#[test]
fn screaming_snake_case_cannot_contain_spaces() {
    assert!(ScreamingSnakeCase::from_str("NOPE WONT").is_err());
}

#[test]
fn screaming_snake_case_cannot_contain_double_underscores() {
    assert!(ScreamingSnakeCase::from_str("NOPE__WONT").is_err());
}

#[test]
fn screaming_snake_valid_input() {
    assert!(ScreamingSnakeCase::from_str("VALID_INPUT").is_ok());
}

#[test]
fn to_snake_case() {
    let snake = SnakeCase::from_str("body_orbit").unwrap();
    let camel = CamelCase::from_str("BodyOrbit").unwrap();
    let screaming = ScreamingSnakeCase::from_str("BODY_ORBIT").unwrap();

    assert_eq!(snake, camel.to_snake_case());
    assert_eq!(snake, screaming.to_snake_case());
}

#[test]
fn to_screaming_snake_case() {
    let snake = SnakeCase::from_str("body_orbit").unwrap();
    let camel = CamelCase::from_str("BodyOrbit").unwrap();
    let screaming = ScreamingSnakeCase::from_str("BODY_ORBIT").unwrap();

    assert_eq!(screaming, camel.to_screaming_snake_case());
    assert_eq!(screaming, snake.to_screaming_snake_case());
}

#[test]
fn to_camel_case() {
    let snake = SnakeCase::from_str("body_orbit").unwrap();
    let camel = CamelCase::from_str("BodyOrbit").unwrap();
    let screaming = ScreamingSnakeCase::from_str("BODY_ORBIT").unwrap();

    assert_eq!(camel, snake.to_camel_case());
    assert_eq!(camel, screaming.to_camel_case());
}

#[test]
fn indent_zero_doesnt_indent() {
    assert_eq!("", Indent(0).render());
}

#[test]
fn indent_one_has_four_spaces() {
    assert_eq!("    ", Indent(1).render());
}

#[test]
fn str_concat_for_unique_references() {
    let items = vec!["A".to_string(), "B".to_string(), "C".to_string()];

    let concat = StrConcat {
        iter: items,
        left_bound: "(".to_string(),
        right_bound: ")".to_string(),
        item_prepend: "&mut ".to_string(),
        item_append: "-1".to_string(),
        join: ", ".to_string(),
    };

    assert_eq!("(&mut A-1, &mut B-1, &mut C-1)", concat.render());
}

#[test]
fn empty_input_gives_empty_input_error() {
    assert_eq!(Err(ParseError::EmptyInput), CamelCase::from_str(""));
    assert_eq!(Err(ParseError::EmptyInput), SnakeCase::from_str(""));
}

#[test]
fn space_gives_space_error() {
    assert_eq!(Err(ParseError::ContainsSpace), CamelCase::from_str("Nope Wont"));
    assert_eq!(Err(ParseError::ContainsSpace), SnakeCase::from_str("nope wont"));
    assert_eq!(Err(ParseError::ContainsSpace), ScreamingSnakeCase::from_str("NOPE WONT"));
}

#[test]
fn remaining_identifier_errors_are_exact() {
    assert_eq!(Err(ParseError::ContainsUnderscore), CamelCase::from_str("Nope_Wont"));
    assert_eq!(Err(ParseError::StartsLowercase), CamelCase::from_str("nope"));
    assert_eq!(Err(ParseError::ContainsUppercase), SnakeCase::from_str("upperCase"));
    assert_eq!(Err(ParseError::ContainsDoubleSeparator), SnakeCase::from_str("a__b"));
    assert_eq!(Err(ParseError::ContainsLowercase), ScreamingSnakeCase::from_str("NOPE_wont"));
    assert_eq!(Err(ParseError::ContainsDoubleSeparator), ScreamingSnakeCase::from_str("A__B"));
}

#[test]
fn empty_shouting_identifier_is_accepted() {
    assert!(ScreamingSnakeCase::from_str("").is_ok());
}

#[test]
fn conversion_round_trips_on_single_words() {
    let camel = CamelCase::from_str("Single").unwrap();
    assert_eq!(camel, camel.to_snake_case().to_camel_case());

    let snake = SnakeCase::from_str("three_word_name").unwrap();
    assert_eq!(snake, snake.to_screaming_snake_case().to_snake_case());
}

#[test]
fn conversion_handles_digits_and_consecutive_capitals() {
    let camel = CamelCase::from_str("Body2Orbit").unwrap();
    assert_eq!("body2_orbit", camel.to_snake_case().as_str());

    let camel = CamelCase::from_str("ABc").unwrap();
    assert_eq!("a_bc", camel.to_snake_case().as_str());
    assert_eq!("ABc", camel.to_snake_case().to_camel_case().as_str());
}

#[test]
fn error_messages_name_the_reason() {
    assert_eq!(
        "input must not be empty",
        CamelCase::from_str("").unwrap_err().message()
    );
    assert_eq!(
        "input must not contain spaces",
        CamelCase::from_str("Nope Wont").unwrap_err().message()
    );
}
