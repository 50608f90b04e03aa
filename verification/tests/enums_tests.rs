use declgen::CodeLine;
use declgen::Derives;
use declgen::Enum;
use declgen::EnumOption;
use declgen::EnumType;
use declgen::Trait;
use declgen::TraitFunction;

#[test]
fn empty_enum() {
    let empty = Enum::new("Empty");

    let expected = "pub enum Empty {}\n";

    assert_eq!(expected, empty.render());
}

#[test]
fn empty_enum_with_debug() {
    let empty = Enum::new("Empty").with_derives(Derives::with_debug());

    let expected = "#[derive(Debug)]\npub enum Empty {}\n";

    assert_eq!(expected, empty.render());
}

#[test]
fn singular_enum_with_debug() {
    let single = Enum::new("Single")
        .with_derives(Derives::with_debug())
        .add_option(EnumOption::new("A", vec!["u32", "char"]));

    let expected = "#[derive(Debug)]\npub enum Single {\n    A(u32, char),\n}\n";

    assert_eq!(expected, single.render());
}

#[test]
fn complicated_example() {
    let my_enum = Enum::new("Complicated")
        .with_derives(Derives::with_debug_default_clone())
        .add_option(EnumOption::new("First", vec!["Vec<u32>"]))
        .add_option(EnumOption::new("Second", vec!["u32", "(f32, f32)"]));

    let expected = "#[derive(Debug, Default, Clone)]\npub enum Complicated {\n    First(Vec<u32>),\n    Second(u32, (f32, f32)),\n}\n";

    assert_eq!(expected, my_enum.render());
}

#[test]
fn option_with_no_values() {
    let option = Enum::new("Option")
        .add_option(EnumOption::new("Some", vec!["u32"]))
        .add_option(EnumOption::new("None", vec![]));

    let expected = "pub enum Option {\n    Some(u32),\n    None,\n}\n";

    assert_eq!(expected, option.render());
}

#[test]
fn enum_type() {
    let default = Trait::new("Default")
        .add_function_definition(TraitFunction::new("default").with_return("Self"));

    let base = Enum::new("Test")
        .with_derives(Derives::with_debug_default_clone())
        .add_option(EnumOption::new("Number", vec!["u32"]));

    let default_impl = default.impl_for(&base.typ).add_function(
        TraitFunction::new("default")
            .with_return("Self")
            .add_line(CodeLine::new(0, "Test::Number(0)")),
    );

    let enum_type = EnumType {
        base: base.clone(),
        enum_impl: None,
        enum_traits: vec![default_impl],
    };

    let expected = "#[derive(Debug, Default, Clone)]\npub enum Test {\n    Number(u32),\n}\n\nimpl Default for Test {\n    fn default() -> Self {\n        Test::Number(0)\n    }\n}\n\n";

    assert_eq!(expected, enum_type.render());
}
