use vstd::prelude::*;

verus! {

/// The visibility of an emitted declaration or member.
#[derive(Copy, Clone, Debug, PartialEq, Eq, Structural, Hash)]
pub enum Visibility {
    Pub,
    PubCrate,
    Private,
}

/// The token a visibility renders as, including its trailing space.
pub open spec fn vis_text(v: Visibility) -> Seq<char> {
    match v {
        Visibility::Private => ""@,
        Visibility::Pub => "pub "@,
        Visibility::PubCrate => "pub (crate) "@,
    }
}

impl Visibility {
    /// The visibility as its source token.
    pub fn render(&self) -> (r: &'static str)
        ensures
            r@ == vis_text(*self),
    {
        match self {
            Visibility::Private => "",
            Visibility::Pub => "pub ",
            Visibility::PubCrate => "pub (crate) ",
        }
    }
}

impl Default for Visibility {
    fn default() -> (r: Self)
        ensures
            r == Visibility::Pub,
    {
        Visibility::Pub
    }
}

} // verus!
