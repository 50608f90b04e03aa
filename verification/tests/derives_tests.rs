use declgen::Derive;
use declgen::Derives;
use declgen::TraitName;

#[test]
fn display_test() {
    assert_eq!(
        "#[derive(Debug, Default, Clone)]\n",
        Derives::with_debug_default_clone().render()
    );
}

#[test]
fn empty_displays_nothing() {
    let derives = Derives::new();
    assert_eq!("", derives.render());
}

#[test]
fn hash_implies_eq_and_partial_eq() {
    let mut hash = Derives::new();
    hash.insert(Derive::Hash);

    assert!(hash.contains(&Derive::Hash));
    assert!(hash.contains(&Derive::Eq));
    assert!(hash.contains(&Derive::PartialEq));
}

#[test]
fn ord_implies_partial_ord() {
    let mut set = Derives::new();
    set.insert(Derive::Ord);

    assert!(set.contains(&Derive::Ord));
    assert!(set.contains(&Derive::PartialOrd));
    assert!(!set.contains(&Derive::Eq));
    assert_eq!("#[derive(Ord, PartialOrd)]\n", set.render());
}

#[test]
fn copy_implies_clone() {
    let mut set = Derives::new();
    set.insert(Derive::Copy);

    assert!(set.contains(&Derive::Copy));
    assert!(set.contains(&Derive::Clone));
    assert_eq!("#[derive(Copy, Clone)]\n", set.render());
}

#[test]
fn hash_renders_whole_implied_chain_in_order() {
    let mut set = Derives::new();
    set.insert(Derive::Hash);

    assert_eq!("#[derive(Eq, PartialEq, Hash)]\n", set.render());
}

#[test]
fn reinserting_is_a_no_op() {
    let mut set = Derives::new();
    set.insert(Derive::Hash);
    let once = set.render();
    set.insert(Derive::Hash);
    set.insert(Derive::Eq);
    set.insert(Derive::PartialEq);

    assert_eq!(once, set.render());
}

#[test]
fn custom_derives_sort_lexically_after_built_ins() {
    let mut set = Derives::new();
    set.insert(Derive::Custom(TraitName::from_str("Zeta").unwrap()));
    set.insert(Derive::Debug);
    set.insert(Derive::Custom(TraitName::from_str("Alpha").unwrap()));

    assert_eq!("#[derive(Debug, Alpha, Zeta)]\n", set.render());
}

#[test]
fn insertion_order_does_not_matter() {
    let mut a = Derives::new();
    a.insert(Derive::Clone);
    a.insert(Derive::Debug);

    let mut b = Derives::new();
    b.insert(Derive::Debug);
    b.insert(Derive::Clone);

    assert_eq!(a.render(), b.render());
    assert_eq!("#[derive(Debug, Clone)]\n", a.render());
}
