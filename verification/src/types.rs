use vstd::prelude::*;
use vstd::string::StrSliceExecFns;

use crate::errors::ParseError;
use crate::generics::parse_type_str;
use crate::generics::render_type;
use crate::generics::spec_parse_type;
use crate::generics::tv_text;
use crate::generics::type_parse_matches;
use crate::generics::type_view;
use crate::generics::GenericV;
use crate::generics::Generics;
use crate::text::has_char;

verus! {

// ----------------------------------------------------------------------------
// Type names.
// ----------------------------------------------------------------------------

/// Exactly which outcome parsing a type name has: it must be non-empty and
/// free of spaces.
pub open spec fn type_name_parse(s: Seq<char>) -> Result<Seq<char>, ParseError> {
    if has_char(s, ' ') {
        Err(ParseError::ContainsSpace)
    } else if s.len() == 0 {
        Err(ParseError::EmptyInput)
    } else {
        Ok(s)
    }
}

/// An opaque, non-empty, space-free type identifier.
#[derive(Debug, PartialEq, Eq, Hash)]
pub struct TypeName(String);

impl View for TypeName {
    type V = Seq<char>;

    closed spec fn view(&self) -> Seq<char> {
        self.0@
    }
}

impl Clone for TypeName {
    fn clone(&self) -> (r: Self)
        ensures
            r == *self,
    {
        TypeName(self.0.clone())
    }
}

impl TypeName {
    pub open spec fn wf(self) -> bool {
        type_name_parse(self@) is Ok
    }

    /// Validate `s` as a type name.
    pub fn from_str(s: &str) -> (r: Result<TypeName, ParseError>)
        ensures
            match type_name_parse(s@) {
                Ok(n) => r is Ok && r->Ok_0@ == n && r->Ok_0.wf(),
                Err(e) => r == Err::<TypeName, ParseError>(e),
            },
    {
        if crate::text::contains_char(s, ' ') {
            return Err(ParseError::ContainsSpace);
        }
        if s.unicode_len() == 0 {
            return Err(ParseError::EmptyInput);
        }
        Ok(TypeName(s.to_owned()))
    }

    /// Wrap `s`, which must already be a valid type name.
    pub fn new(s: &str) -> (r: Self)
        requires
            type_name_parse(s@) is Ok,
        ensures
            r@ == s@,
            r.wf(),
    {
        match Self::from_str(s) {
            Ok(n) => n,
            Err(_) => vstd::pervasive::unreached(),
        }
    }

    pub fn as_str(&self) -> (r: &str)
        ensures
            r@ == self@,
    {
        self.0.as_str()
    }

}

// ----------------------------------------------------------------------------
// Type expressions.
// ----------------------------------------------------------------------------

/// A parsed type expression: a name together with an ordered, possibly empty
/// list of generic arguments, each itself a type expression or a lifetime.
#[derive(Debug, PartialEq, Eq, Hash)]
pub struct Type {
    pub name: TypeName,
    pub types: Generics,
}

/// The mathematical shape of a type expression.
pub struct TypeV {
    pub name: Seq<char>,
    pub args: Seq<GenericV>,
}

impl Clone for Type {
    fn clone(&self) -> (r: Self)
        ensures
            type_view(r) == type_view(*self),
    {
        Type { name: self.name.clone(), types: self.types.clone() }
    }
}

impl Type {
    /// Parse a textual type expression, possibly with nested generic
    /// arguments.
    pub fn from_str(s: &str) -> (r: Result<Type, ParseError>)
        ensures
            type_parse_matches(s@, r),
    {
        parse_type_str(s)
    }

    /// Parse `s`, which must already be a well-formed type expression.
    pub fn new(s: &str) -> (r: Type)
        requires
            spec_parse_type(s@) is Ok,
        ensures
            type_view(r) == spec_parse_type(s@)->Ok_0,
    {
        match parse_type_str(s) {
            Ok(t) => t,
            Err(_) => vstd::pervasive::unreached(),
        }
    }

    /// The textual form of this type expression.
    pub fn render(&self) -> (r: String)
        ensures
            r@ == tv_text(type_view(*self)),
    {
        render_type(self)
    }
}

} // verus!
