use declgen::CodeLine;
use declgen::Function;
use declgen::Generics;
use declgen::Impl;
use declgen::Type;
use declgen::Visibility;

#[test]
fn basic_impl() {
    let i = Impl::new("Test");

    println!("{}", i.render());
    assert_eq!("impl Test {}\n", i.render());
}

#[test]
fn simple_impl() {
    let i = Impl::new("Test").add_function(Function::new("test_fn"));

    let expected = "impl Test {\n    pub fn test_fn() {}\n}\n";

    println!("expected:\n\n{}", expected);
    println!("actual:\n\n{}", i.render());
    assert_eq!(expected, i.render());
}

#[test]
fn panic_impl() {
    let i = Impl::new("Test").add_function(
        Function::new("test_fn")
            .with_visibility(Visibility::Private)
            .add_line(CodeLine::new(0, "panic!()")),
    );

    let expected = "impl Test {\n    fn test_fn() {\n        panic!()\n    }\n}\n";

    println!("expected:\n\n{}", expected);
    println!("actual:\n\n{}", i.render());
    assert_eq!(expected, i.render());
}

#[test]
fn fn_with_return() {
    let i = Impl::new("Test").add_function(
        Function::new("test_fn")
            .with_return(String::from("u32"))
            .add_line(CodeLine::new(0, "panic!()")),
    );

    let expected = "impl Test {\n    pub fn test_fn() -> u32 {\n        panic!()\n    }\n}\n";

    println!("expected:\n\n{}", expected);
    println!("actual:\n\n{}", i.render());
    assert_eq!(expected, i.render());
}

#[test]
fn impl_with_two_functions() {
    let i = Impl::new("Test")
        .add_function(Function::new("method_1").add_line(CodeLine::new(0, "panic!()")))
        .add_function(Function::new("method_2").add_line(CodeLine::new(0, "panic!()")));

    assert_eq!(
        "impl Test {\n    pub fn method_1() {\n        panic!()\n    }\n\n    pub fn method_2() {\n        panic!()\n    }\n}\n",
        i.render()
    );
}

#[test]
fn from_type() {
    let ty = Type::new("Test");
    let im = Impl::from(&ty);

    assert_eq!("impl Test {}\n", im.render());
}

#[test]
fn fn_with_lifetime() {
    let generic_fn = Function::new("test").with_generics(Generics::one("'a"));

    assert_eq!("    pub fn test<'a>() {}\n", generic_fn.render());
}

#[test]
fn fn_with_parameters_and_generics() {
    let f = Function::new("convert")
        .with_generics(Generics::two("A", "B"))
        .with_parameters("a: A")
        .with_return(String::from("B"))
        .add_line(CodeLine::new(0, "a.into()"));

    assert_eq!(
        "    pub fn convert<A, B>(a: A) -> B {\n        a.into()\n    }\n",
        f.render()
    );
}

#[test]
fn code_line_nests_one_level_deeper() {
    let line = CodeLine::new(1, "x += 1;");

    assert_eq!("        x += 1;", line.render());
}
