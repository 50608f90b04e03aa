use declgen::CodeLine;
use declgen::Struct;
use declgen::Trait;
use declgen::TraitFunction;
use declgen::Type;
use declgen::TypeName;

#[test]
fn function_def_ends_with_semicolon() {
    let f = TraitFunction::new("with_thing").with_parameters("mut self");

    assert_eq!("    fn with_thing(mut self);\n", f.render());
}

#[test]
fn function_def_returning_self_ends_with_semicolon() {
    let f = TraitFunction::new("with_thing").with_parameters("mut self").with_return("Self");

    assert_eq!("    fn with_thing(mut self) -> Self;\n", f.render());
}

#[test]
fn function_def_with_default_implementation() {
    let f = TraitFunction::new("with_thing")
        .with_parameters("mut self")
        .add_line(CodeLine::new(0, "panic!()"));

    assert_eq!("    fn with_thing(mut self) {\n        panic!()\n    }\n", f.render());
}

#[test]
fn define_trait_empty() {
    let t = Trait::new("Test");

    assert_eq!("pub trait Test {}\n", t.render());
}

#[test]
fn define_trait_single_associated_type() {
    let t = Trait::new("Test").add_associated_type("Idx");

    assert_eq!("pub trait Test {\n    type Idx;\n}\n", t.render());
}

#[test]
fn define_trait_single_fn() {
    let t = Trait::new("Test").add_function_definition(TraitFunction::new("method"));

    assert_eq!("pub trait Test {\n    fn method();\n}\n", t.render());
}

#[test]
fn simple_trait_impl() {
    let t = Trait::new("Trait");
    let s = Struct::new("Struct");
    let i = t.impl_for(&s.typ);

    assert_eq!("impl Trait for Struct {}\n", i.render());
}

#[test]
fn implementation_with_associated_types() {
    let t = Trait::new("Trait").add_associated_type("Idx");
    let s = Struct::new("Struct");
    let i = t
        .impl_for(&s.typ)
        .add_associated_type(TypeName::from_str("Idx").unwrap(), Type::from_str("u32").unwrap());

    assert_eq!("impl Trait for Struct {\n    type Idx = u32;\n}\n", i.render());
}

#[test]
fn implementation_with_function() {
    let fn_def = TraitFunction::new("method").with_return("u32");

    let fn_impl = fn_def.clone().add_line(CodeLine::new(0, "1"));

    let t = Trait::new("Trait").add_function_definition(fn_def);
    let s = Struct::new("Struct");
    let i = t.impl_for(&s.typ).add_function(fn_impl);

    assert_eq!("impl Trait for Struct {\n    fn method() -> u32 {\n        1\n    }\n}\n", i.render());
}

#[test]
fn missing_required_type_is_invalid() {
    let t = Trait::new("Trait").add_associated_type("T");
    let s = Struct::new("Struct");

    assert!(!t.impl_for(&s.typ).is_valid());
}

#[test]
fn superfluous_type_is_invalid() {
    let t = Trait::new("Trait");
    let s = Struct::new("Struct");

    let i = t
        .impl_for(&s.typ)
        .add_associated_type(TypeName::from_str("T").unwrap(), Type::from_str("u32").unwrap());

    assert!(!i.is_valid());
}

#[test]
fn superfluous_function_is_invalid() {
    let t = Trait::new("Trait");
    let s = Struct::new("Struct");

    let i = t
        .impl_for(&s.typ)
        .add_function(TraitFunction::new("method").add_line(CodeLine::new(0, "panic!()")));

    assert!(!i.is_valid());
}

#[test]
fn missing_fn_without_default_def_is_invalid() {
    let t = Trait::new("Trait")
        .add_function_definition(TraitFunction::new("method").with_return("u32"));
    let s = Struct::new("Struct");
    let i = t.impl_for(&s.typ);

    assert!(!i.is_valid());
}

#[test]
fn fn_with_default_def_is_optional() {
    let t = Trait::new("Trait").add_function_definition(
        TraitFunction::new("method").with_return("u32").add_line(CodeLine::new(0, "1")),
    );
    let s = Struct::new("Struct");
    let i = t.impl_for(&s.typ);

    assert!(i.is_valid());
    assert_eq!("impl Trait for Struct {}\n", i.render());
}

#[test]
fn fully_matching_candidate_renders() {
    let fn_def = TraitFunction::new("method").with_return("u32");
    let t = Trait::new("Trait")
        .add_associated_type("Idx")
        .add_function_definition(fn_def.clone());
    let s = Struct::new("Struct");

    let i = t
        .impl_for(&s.typ)
        .add_associated_type(TypeName::from_str("Idx").unwrap(), Type::from_str("u32").unwrap())
        .add_function(fn_def.clone().add_line(CodeLine::new(0, "1")));

    assert!(i.is_valid());
    assert_eq!(
        "impl Trait for Struct {\n    type Idx = u32;\n    fn method() -> u32 {\n        1\n    }\n}\n",
        i.render()
    );
}

#[test]
fn rebinding_an_associated_type_replaces_it() {
    let t = Trait::new("Trait").add_associated_type("Idx");
    let s = Struct::new("Struct");
    let i = t
        .impl_for(&s.typ)
        .add_associated_type(TypeName::from_str("Idx").unwrap(), Type::from_str("u32").unwrap())
        .add_associated_type(TypeName::from_str("Idx").unwrap(), Type::from_str("u64").unwrap());

    assert!(i.is_valid());
    assert_eq!("impl Trait for Struct {\n    type Idx = u64;\n}\n", i.render());
}

#[test]
fn function_match_is_structural() {
    let t = Trait::new("Trait").add_function_definition(
        TraitFunction::new("method").with_parameters("x: u32").with_return("u32"),
    );
    let s = Struct::new("Struct");

    // same name, different parameter text: not a structural match
    let i = t.impl_for(&s.typ).add_function(
        TraitFunction::new("method").with_parameters("y: u32").with_return("u32"),
    );

    assert!(!i.is_valid());
}
