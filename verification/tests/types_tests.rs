use declgen::Generics;
use declgen::ParseError;
use declgen::Type;
use declgen::TypeName;

#[test]
pub fn parse_test() {
    let ty = Type::new("Test");

    assert_eq!(ty, Type { name: TypeName::new("Test"), types: Generics::none() })
}

#[test]
pub fn parse_test_with_generic() {
    let ty = Type::new("Test<ID, T>");

    assert_eq!(ty, Type { name: TypeName::new("Test"), types: Generics::two("ID", "T") })
}

#[test]
fn nested_generics() {
    let component = Type::from_str("Component<Self, Id<Body>>").unwrap();

    assert_eq!("Component<Self, Id<Body>>", component.render());
}

#[test]
fn parse_yields_name_and_arguments() {
    let ty = Type::from_str("Test<ID, T>").unwrap();

    assert_eq!("Test", ty.name.as_str());
    assert_eq!(2, ty.types.len());
    assert_eq!("Test<ID, T>", ty.render());
}

#[test]
fn type_name_rejects_spaces_and_emptiness() {
    assert_eq!(Err(ParseError::ContainsSpace), TypeName::from_str("a b"));
    assert_eq!(Err(ParseError::EmptyInput), TypeName::from_str(""));
    assert_eq!("Fine", TypeName::from_str("Fine").unwrap().as_str());
}

#[test]
fn type_with_empty_name_is_rejected() {
    assert_eq!(Err(ParseError::EmptyInput), Type::from_str(""));
    assert_eq!(Err(ParseError::EmptyInput), Type::from_str("<A>"));
}

#[test]
fn deeply_nested_render_round_trip() {
    let text = "Outer<Inner<Deep<A, B>, C>, 'x>";
    let ty = Type::from_str(text).unwrap();
    assert_eq!(text, ty.render());

    let again = Type::from_str(&ty.render()).unwrap();
    assert_eq!(text, again.render());
}
