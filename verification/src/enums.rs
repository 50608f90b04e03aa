use vstd::prelude::*;
use vstd::string::StringExecFns;

use crate::derives::Derive;
use crate::derives::Derives;
use crate::formatting::is_camel;
use crate::formatting::join_wrapped;
use crate::formatting::CamelCase;
use crate::generics::clone_type;
use crate::generics::parse_type_str;
use crate::generics::render_type;
use crate::generics::spec_parse_type;
use crate::generics::type_view;
use crate::impls::impl_text;
use crate::impls::tv_text_of;
use crate::impls::Impl;
use crate::traits::conformant;
use crate::traits::trait_impl_text;
use crate::traits::TraitImplementation;
use crate::types::Type;
use crate::visibility::vis_text;
use crate::visibility::Visibility;

verus! {

// ----------------------------------------------------------------------------
// Enum variants.
// ----------------------------------------------------------------------------

/// One variant of an emitted sum type: a Pascal-style name and the raw texts
/// of its payload types, if any.
#[derive(Debug, PartialEq, Eq)]
pub struct EnumOption {
    pub name: CamelCase,
    pub option_types: Vec<String>,
}

/// The text of one variant line: the bare name, or the name applied to its
/// payload types.
pub open spec fn enum_option_text(o: EnumOption) -> Seq<char> {
    if o.option_types@.len() == 0 {
        o.name@ + ",\n"@
    } else {
        o.name@ + "("@ + join_wrapped(
            o.option_types.deep_view(),
            Seq::empty(),
            Seq::empty(),
            ", "@,
        ) + "),\n"@
    }
}

/// All variants, each indented one level.
pub open spec fn enum_options_text(os: Seq<EnumOption>) -> Seq<char>
    decreases os.len(),
{
    if os.len() == 0 {
        Seq::empty()
    } else {
        enum_options_text(os.subrange(0, os.len() - 1)) + "    "@ + enum_option_text(
            os[os.len() - 1],
        )
    }
}

impl Clone for EnumOption {
    fn clone(&self) -> (r: Self)
        ensures
            r.name == self.name,
            r.option_types@ == self.option_types@,
    {
        let mut option_types: Vec<String> = Vec::new();
        let n = self.option_types.len();
        let mut i: usize = 0;
        while i < n
            invariant
                n == self.option_types@.len(),
                0 <= i <= n,
                option_types@.len() == i,
                forall|j: int| 0 <= j < i ==> option_types@[j] == self.option_types@[j],
            decreases n - i,
        {
            let t = self.option_types[i].clone();
            option_types.push(t);
            i += 1;
        }
        proof {
            assert(option_types@ =~= self.option_types@);
        }
        EnumOption { name: self.name.clone(), option_types }
    }
}

impl EnumOption {
    /// A variant with the given name and payload type texts.
    pub fn new(name: &str, option_types: Vec<&str>) -> (r: Self)
        requires
            is_camel(name@),
        ensures
            r.name@ == name@,
            r.option_types.deep_view() == option_types.deep_view(),
    {
        let name = match CamelCase::from_str(name) {
            Ok(n) => n,
            Err(_) => vstd::pervasive::unreached(),
        };
        let n = option_types.len();
        let mut owned: Vec<String> = Vec::new();
        let mut i: usize = 0;
        while i < n
            invariant
                n == option_types@.len(),
                0 <= i <= n,
                owned@.len() == i,
                forall|j: int| 0 <= j < i ==> (#[trigger] owned@[j])@ == option_types@[j]@,
            decreases n - i,
        {
            let t = option_types[i].to_owned();
            owned.push(t);
            i += 1;
        }
        let r = EnumOption { name, option_types: owned };
        proof {
            assert(r.option_types.deep_view() =~= option_types.deep_view());
        }
        r
    }

    /// The variant as its source line, without the surrounding indentation.
    pub fn render(&self) -> (r: String)
        ensures
            r@ == enum_option_text(*self),
    {
        let ghost items = self.option_types.deep_view();
        let mut out = self.name.as_str().to_owned();
        let n = self.option_types.len();
        if n == 0 {
            out.append(",\n");
            proof {
                assert(out@ =~= enum_option_text(*self));
            }
            return out;
        }
        out.append("(");
        let ghost head = out@;
        let mut i: usize = 0;
        proof {
            assert(items.take(0) =~= Seq::<Seq<char>>::empty());
            assert(out@ =~= head + join_wrapped(
                items.take(0),
                Seq::empty(),
                Seq::empty(),
                ", "@,
            ));
        }
        while i < n
            invariant
                n == self.option_types@.len(),
                items == self.option_types.deep_view(),
                items.len() == n,
                0 <= i <= n,
                out@ == head + join_wrapped(items.take(i as int), Seq::empty(), Seq::empty(), ", "@),
            decreases n - i,
        {
            if i != 0 {
                out.append(", ");
            }
            out.append(self.option_types[i].as_str());
            proof {
                let tk = items.take(i + 1);
                assert(tk.subrange(0, tk.len() - 1) =~= items.take(i as int));
                assert(tk[tk.len() - 1] == items[i as int]);
                assert(items[i as int] == self.option_types@[i as int]@);
                assert(out@ =~= head + join_wrapped(tk, Seq::empty(), Seq::empty(), ", "@));
            }
            i += 1;
        }
        out.append("),\n");
        proof {
            assert(items.take(n as int) =~= items);
            assert(out@ =~= enum_option_text(*self));
        }
        out
    }
}

// ----------------------------------------------------------------------------
// Sum types.
// ----------------------------------------------------------------------------

/// An emitted sum type: its type, visibility, capability annotation and
/// variants, in order.
#[derive(Debug, PartialEq, Eq)]
pub struct Enum {
    pub typ: Type,
    pub visibility: Visibility,
    pub derives: Derives,
    pub options: Vec<EnumOption>,
}

/// The full text of a sum-type declaration.
pub open spec fn enum_text(e: Enum) -> Seq<char> {
    e.derives.text() + vis_text(e.visibility) + "enum "@ + tv_text_of(e.typ) + (
    if e.options@.len() == 0 {
        " {}\n"@
    } else {
        " {\n"@ + enum_options_text(e.options@) + "}\n"@
    })
}

impl Clone for Enum {
    fn clone(&self) -> (r: Self)
        ensures
            type_view(r.typ) == type_view(self.typ),
            r.visibility == self.visibility,
            r.derives@ == self.derives@,
            r.derives.list() == self.derives.list(),
            r.derives.wf() == self.derives.wf(),
            r.options@.len() == self.options@.len(),
            forall|i: int|
                0 <= i < self.options@.len() ==> enum_option_text(#[trigger] r.options@[i])
                    == enum_option_text(self.options@[i]),
    {
        let mut options: Vec<EnumOption> = Vec::new();
        let n = self.options.len();
        let mut i: usize = 0;
        while i < n
            invariant
                n == self.options@.len(),
                0 <= i <= n,
                options@.len() == i,
                forall|j: int|
                    0 <= j < i ==> enum_option_text(#[trigger] options@[j]) == enum_option_text(
                        self.options@[j],
                    ),
            decreases n - i,
        {
            let o = self.options[i].clone();
            proof {
                assert(enum_option_text(o) == enum_option_text(self.options@[i as int]));
            }
            options.push(o);
            i += 1;
        }
        Enum {
            typ: clone_type(&self.typ),
            visibility: self.visibility,
            derives: self.derives.clone(),
            options,
        }
    }
}

impl Enum {
    /// A public sum type with the given name and no variants.
    pub fn new(name: &str) -> (r: Self)
        requires
            spec_parse_type(name@) is Ok,
        ensures
            type_view(r.typ) == spec_parse_type(name@)->Ok_0,
            r.visibility == Visibility::Pub,
            r.derives@ == Set::<(int, Seq<char>)>::empty(),
            r.derives.wf(),
            r.derives.list() == Seq::<Derive>::empty(),
            r.options@ == Seq::<EnumOption>::empty(),
    {
        let typ = match parse_type_str(name) {
            Ok(t) => t,
            Err(_) => vstd::pervasive::unreached(),
        };
        let r = Enum {
            typ,
            visibility: Visibility::Pub,
            derives: Derives::new(),
            options: Vec::new(),
        };
        proof {
            assert(r.options@ =~= Seq::<EnumOption>::empty());
        }
        r
    }

    pub fn with_derives(self, derives: Derives) -> (r: Self)
        ensures
            r == (Enum { derives, ..self }),
    {
        Enum { derives, ..self }
    }

    pub fn with_visibility(self, visibility: Visibility) -> (r: Self)
        ensures
            r == (Enum { visibility, ..self }),
    {
        Enum { visibility, ..self }
    }

    pub fn add_option(self, option: EnumOption) -> (r: Self)
        ensures
            r.typ == self.typ,
            r.visibility == self.visibility,
            r.derives == self.derives,
            r.options@ == self.options@.push(option),
    {
        let mut options = self.options;
        options.push(option);
        Enum { typ: self.typ, visibility: self.visibility, derives: self.derives, options }
    }

    /// The sum-type declaration as text.
    pub fn render(&self) -> (r: String)
        ensures
            r@ == enum_text(*self),
    {
        let mut out = self.derives.render();
        out.append(self.visibility.render());
        out.append("enum ");
        let t = render_type(&self.typ);
        out.append(t.as_str());
        let n = self.options.len();
        if n == 0 {
            out.append(" {}\n");
            proof {
                assert(out@ =~= enum_text(*self));
            }
            return out;
        }
        out.append(" {\n");
        let ghost head = out@;
        let mut i: usize = 0;
        proof {
            assert(self.options@.subrange(0, 0) =~= Seq::<EnumOption>::empty());
            assert(out@ =~= head + enum_options_text(self.options@.subrange(0, 0)));
        }
        while i < n
            invariant
                n == self.options@.len(),
                0 <= i <= n,
                out@ == head + enum_options_text(self.options@.subrange(0, i as int)),
            decreases n - i,
        {
            out.append("    ");
            let o = self.options[i].render();
            out.append(o.as_str());
            proof {
                let tk = self.options@.subrange(0, i + 1);
                assert(tk.subrange(0, tk.len() - 1) =~= self.options@.subrange(0, i as int));
                assert(tk[tk.len() - 1] == self.options@[i as int]);
                assert(out@ =~= head + enum_options_text(tk));
            }
            i += 1;
        }
        out.append("}\n");
        proof {
            assert(self.options@.subrange(0, n as int) =~= self.options@);
            assert(out@ =~= enum_text(*self));
        }
        out
    }
}

// ----------------------------------------------------------------------------
// A sum type bundled with its implementations.
// ----------------------------------------------------------------------------

/// A sum type together with an optional inherent implementation block and any
/// number of contract implementations, rendered one after another.
#[derive(Debug)]
pub struct EnumType {
    pub base: Enum,
    pub enum_impl: Option<Impl>,
    pub enum_traits: Vec<TraitImplementation>,
}

/// Every contract implementation, each followed by a blank line.
pub open spec fn enum_traits_text(ts: Seq<TraitImplementation>) -> Seq<char>
    decreases ts.len(),
{
    if ts.len() == 0 {
        Seq::empty()
    } else {
        enum_traits_text(ts.subrange(0, ts.len() - 1)) + trait_impl_text(ts[ts.len() - 1]) + "\n"@
    }
}

/// The full text of the bundle.
pub open spec fn enum_type_text(et: EnumType) -> Seq<char> {
    enum_text(et.base) + "\n"@ + (match et.enum_impl {
        Some(i) => impl_text(i) + "\n"@,
        None => Seq::empty(),
    }) + enum_traits_text(et.enum_traits@)
}

impl EnumType {
    /// The whole bundle as text.  Every contract implementation must conform;
    /// rendering re-checks each one.
    pub fn render(&self) -> (r: String)
        requires
            forall|i: int|
                0 <= i < self.enum_traits@.len() ==> conformant(#[trigger] self.enum_traits@[i]),
        ensures
            r@ == enum_type_text(*self),
    {
        let mut out = self.base.render();
        out.append("\n");
        match &self.enum_impl {
            Some(i) => {
                let t = i.render();
                out.append(t.as_str());
                out.append("\n");
            },
            None => {},
        }
        let ghost head = out@;
        let n = self.enum_traits.len();
        let mut i: usize = 0;
        proof {
            assert(self.enum_traits@.subrange(0, 0) =~= Seq::<TraitImplementation>::empty());
            assert(out@ =~= head + enum_traits_text(self.enum_traits@.subrange(0, 0)));
        }
        while i < n
            invariant
                n == self.enum_traits@.len(),
                0 <= i <= n,
                forall|j: int|
                    0 <= j < n ==> conformant(#[trigger] self.enum_traits@[j]),
                out@ == head + enum_traits_text(self.enum_traits@.subrange(0, i as int)),
            decreases n - i,
        {
            let t = self.enum_traits[i].render();
            out.append(t.as_str());
            out.append("\n");
            proof {
                let tk = self.enum_traits@.subrange(0, i + 1);
                assert(tk.subrange(0, tk.len() - 1) =~= self.enum_traits@.subrange(0, i as int));
                assert(tk[tk.len() - 1] == self.enum_traits@[i as int]);
                assert(out@ =~= head + enum_traits_text(tk));
            }
            i += 1;
        }
        proof {
            assert(self.enum_traits@.subrange(0, n as int) =~= self.enum_traits@);
            assert(out@ =~= enum_type_text(*self));
        }
        out
    }
}

} // verus!
