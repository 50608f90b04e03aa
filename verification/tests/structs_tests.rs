use declgen::Derives;
use declgen::Field;
use declgen::Struct;
use declgen::Type;
use declgen::Visibility;

#[test]
fn private_struct_none() {
    let s = Struct::new("Test").with_visibility(Visibility::Private);

    assert_eq!("struct Test;\n", s.render());
}

#[test]
fn pub_struct_none() {
    let s = Struct::new("Test");

    assert_eq!("pub struct Test;\n", s.render());
}

#[test]
fn pub_crate_struct_none() {
    let s = Struct::new("Test").with_visibility(Visibility::PubCrate);

    assert_eq!("pub (crate) struct Test;\n", s.render());
}

#[test]
fn field_struct() {
    let s = Struct::new("Test").add_field(Field::new("field", "u32"));

    assert_eq!("pub struct Test {\n    pub field: u32,\n}\n", s.render());
}

#[test]
fn example() {
    let arena = Struct::new("System")
        .add_field(Field::new("name", "Component<Self, String>"))
        .add_field(Field::new("position", "Component<Self, Position>"));

    assert_eq!(
        "pub struct System {\n    pub name: Component<Self, String>,\n    pub position: Component<Self, Position>,\n}\n",
        arena.render()
    );
}

#[test]
fn struct_with_derives() {
    let s = Struct::new("Test").with_derives(Derives::with_debug_default());

    assert_eq!("#[derive(Debug, Default)]\npub struct Test;\n", s.render());
}

#[test]
fn struct_with_generics() {
    let s = Struct::new("Test<T>").with_derives(Derives::with_debug_default());

    assert_eq!("#[derive(Debug, Default)]\npub struct Test<T>;\n", s.render());
}

#[test]
fn struct_get_type_name() {
    let s = Struct::new("Id<T>");

    assert_eq!("Id<T>", s.typ.render());
}

#[test]
fn field_from_type_names_itself_after_the_type() {
    let f = Field::from_type(Type::new("BodyOrbit"));

    assert_eq!("body_orbit", f.name.as_str());
    assert_eq!("    pub body_orbit: BodyOrbit,", f.render());
}

#[test]
fn private_field_renders_without_visibility() {
    let f = Field::new("value", "u32").with_visibility(Visibility::Private);

    assert_eq!("    value: u32,", f.render());
}

#[test]
fn anonymous_field_drops_the_name() {
    let f = Field::new("value", "u32").into_anon();

    assert_eq!("pub u32", f.render());
}
