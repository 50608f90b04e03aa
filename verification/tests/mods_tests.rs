use declgen::Field;
use declgen::Mod;
use declgen::Struct;
use declgen::Visibility;

#[test]
fn simple() {
    let s = Struct::new("Test").add_field(Field::new("value", "u32"));
    let m = Mod::new("test_mod", s.render());

    assert_eq!(
        "pub mod test_mod {\n    pub struct Test {\n        pub value: u32,\n    }\n}\n",
        m.render()
    );
}

#[test]
fn empty_body_wraps_nothing() {
    let m = Mod::new("empty_mod", String::new());

    assert_eq!("pub mod empty_mod {\n}\n", m.render());
}

#[test]
fn private_module_has_no_visibility_token() {
    let m = Mod::new("inner", String::from("fn f() {}")).with_visibility(Visibility::Private);

    assert_eq!("mod inner {\n    fn f() {}\n}\n", m.render());
}

#[test]
fn blank_lines_are_kept() {
    let m = Mod::new("spaced", String::from("a\n\nb"));

    assert_eq!("pub mod spaced {\n    a\n    \n    b\n}\n", m.render());
}
