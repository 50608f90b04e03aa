use declgen::Generic;
use declgen::Generics;
use declgen::Lifetime;
use declgen::ParseError;
use declgen::Type;

#[test]
fn empty() {
    let g = Generics::none();

    assert_eq!("", g.render());
}

#[test]
fn one() {
    let g = Generics::two("ID", "T");

    assert_eq!("<ID, T>", g.render());
}

#[test]
fn from_str_none() {
    assert_eq!(Generics::from_str("").unwrap(), Generics::none());
}

#[test]
fn from_str_without_brackets_returns_err() {
    assert!(Generics::from_str("<A,B").is_err());
    assert!(Generics::from_str("A,B>").is_err());
}

#[test]
fn from_str_empty_entries_returns_err() {
    assert!(Generics::from_str("<A,>").is_err());
}

#[test]
fn from_str_brackets_with_no_entries_returns_err() {
    assert!(Generics::from_str("<>").is_err());
}

#[test]
fn from_str_input_cannot_have_spaces_within_entries() {
    assert!(Generics::from_str("<A, B C>").is_err());
}

#[test]
fn from_str_valid_input_returns_ok() {
    assert_eq!(Generics::from_str("<ID, T>").unwrap(), Generics::two("ID", "T"));
}

#[test]
fn generic_lifetime_from_str() {
    assert_eq!(Generic::Lifetime(Lifetime::new("a")), Generic::from_str("'a").unwrap());
}

#[test]
fn generic_type_from_str() {
    assert_eq!(Generic::Type(Type::new("u32")), Generic::from_str("u32").unwrap());
}

#[test]
fn with_lifetime() {
    assert_eq!(Generics::from_str("<'a, u32>").unwrap(), Generics::two("'a", "u32"));
}

#[test]
fn bracket_errors_are_exact() {
    assert_eq!(Err(ParseError::MalformedBrackets), Generics::from_str("<A,B"));
    assert_eq!(Err(ParseError::MalformedBrackets), Generics::from_str("A,B>"));
    assert_eq!(Err(ParseError::EmptyArgumentList), Generics::from_str("<>"));
    assert_eq!(Err(ParseError::EmptyArgumentList), Generics::from_str("<   >"));
    assert_eq!(Err(ParseError::UnparsableArgument), Generics::from_str("<A,>"));
    assert_eq!(Err(ParseError::UnparsableArgument), Generics::from_str("<A, B C>"));
}

#[test]
fn splitting_ignores_nested_commas() {
    let g = Generics::from_str("<Map<K, V>, T>").unwrap();
    assert_eq!(2, g.len());
    assert_eq!("<Map<K, V>, T>", g.render());
}

#[test]
fn arguments_are_trimmed() {
    let spaced = Generics::from_str("<  ID ,  T >").unwrap();
    assert_eq!(spaced, Generics::two("ID", "T"));
    assert_eq!("<ID, T>", spaced.render());
}

#[test]
fn pushing_grows_the_list() {
    let mut g = Generics::none();
    assert!(g.is_empty());
    g.push("A");
    g.push("'b");
    assert_eq!(2, g.len());
    assert!(!g.is_empty());
    assert_eq!("<A, 'b>", g.render());
}
