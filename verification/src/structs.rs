use vstd::prelude::*;
use vstd::string::StringExecFns;

use crate::derives::Derives;
use crate::formatting::camel_parse;
use crate::formatting::camel_to_snake_seq;
use crate::formatting::indent_text;
use crate::formatting::is_snake;
use crate::formatting::CamelCase;
use crate::formatting::Indent;
use crate::formatting::SnakeCase;
use crate::generics::parse_type_str;
use crate::generics::render_type;
use crate::generics::spec_parse_type;
use crate::generics::type_view;
use crate::impls::tv_text_of;
use crate::types::Type;
use crate::visibility::vis_text;
use crate::visibility::Visibility;

verus! {

// ----------------------------------------------------------------------------
// Fields.
// ----------------------------------------------------------------------------

/// A named field of an emitted record type.
#[derive(Debug, PartialEq, Eq, Hash)]
pub struct Field {
    pub visibility: Visibility,
    pub name: SnakeCase,
    pub field_type: Type,
}

/// A field of a tuple-like position: a visibility and a type, with no name.
#[derive(Debug, PartialEq, Eq, Hash)]
pub struct AnonField {
    pub visibility: Visibility,
    pub field_type: Type,
}

/// The text of one named field, as it stands inside a record body.
pub open spec fn field_text(f: Field) -> Seq<char> {
    indent_text(1) + vis_text(f.visibility) + f.name@ + ": "@ + tv_text_of(f.field_type) + ","@
}

/// The text of one anonymous field.
pub open spec fn anon_field_text(f: AnonField) -> Seq<char> {
    vis_text(f.visibility) + tv_text_of(f.field_type)
}

/// All fields, one per line.
pub open spec fn fields_text(fs: Seq<Field>) -> Seq<char>
    decreases fs.len(),
{
    if fs.len() == 0 {
        Seq::empty()
    } else {
        fields_text(fs.subrange(0, fs.len() - 1)) + field_text(fs[fs.len() - 1]) + "\n"@
    }
}

impl Field {
    /// A field named after its type, converted to snake style.
    pub fn from_type(typ: Type) -> (r: Self)
        requires
            camel_parse(typ.name@) is Ok,
        ensures
            r.visibility == Visibility::Pub,
            r.name@ == camel_to_snake_seq(typ.name@),
            r.field_type == typ,
    {
        let camel = match CamelCase::from_str(typ.name.as_str()) {
            Ok(c) => c,
            Err(_) => vstd::pervasive::unreached(),
        };
        let field_name = camel.to_snake_case();
        Field { visibility: Visibility::Pub, name: field_name, field_type: typ }
    }

    /// A public field with the given name and type, both given as text.
    pub fn new(name: &str, field_type: &str) -> (r: Self)
        requires
            is_snake(name@),
            spec_parse_type(field_type@) is Ok,
        ensures
            r.visibility == Visibility::Pub,
            r.name@ == name@,
            type_view(r.field_type) == spec_parse_type(field_type@)->Ok_0,
    {
        let name = match SnakeCase::from_str(name) {
            Ok(n) => n,
            Err(_) => vstd::pervasive::unreached(),
        };
        let field_type = match parse_type_str(field_type) {
            Ok(t) => t,
            Err(_) => vstd::pervasive::unreached(),
        };
        Field { visibility: Visibility::Pub, name, field_type }
    }

    pub fn with_visibility(self, visibility: Visibility) -> (r: Self)
        ensures
            r == (Field { visibility, ..self }),
    {
        Field { visibility, ..self }
    }

    /// The field as text.
    pub fn render(&self) -> (r: String)
        ensures
            r@ == field_text(*self),
    {
        let mut out = Indent::new(1).render();
        out.append(self.visibility.render());
        out.append(self.name.as_str());
        out.append(": ");
        let t = render_type(&self.field_type);
        out.append(t.as_str());
        out.append(",");
        out
    }

    /// Drop the name, keeping visibility and type.
    pub fn into_anon(self) -> (r: AnonField)
        ensures
            r.visibility == self.visibility,
            r.field_type == self.field_type,
    {
        AnonField { visibility: self.visibility, field_type: self.field_type }
    }
}

impl AnonField {
    /// The anonymous field as text.
    pub fn render(&self) -> (r: String)
        ensures
            r@ == anon_field_text(*self),
    {
        let mut out = self.visibility.render().to_owned();
        let t = render_type(&self.field_type);
        out.append(t.as_str());
        out
    }
}

// ----------------------------------------------------------------------------
// Record types.
// ----------------------------------------------------------------------------

/// An emitted record type: its type, visibility, capability annotation and
/// fields, in order.
#[derive(Debug, PartialEq, Eq)]
pub struct Struct {
    pub typ: Type,
    pub visibility: Visibility,
    pub derives: Derives,
    pub fields: Vec<Field>,
}

/// The full text of a record declaration: the capability line, the header,
/// then either a bare semicolon or the brace-wrapped field list.
pub open spec fn struct_text(s: Struct) -> Seq<char> {
    s.derives.text() + vis_text(s.visibility) + "struct "@ + tv_text_of(s.typ) + (
    if s.fields@.len() == 0 {
        ";\n"@
    } else {
        " {\n"@ + fields_text(s.fields@) + "}\n"@
    })
}

impl Struct {
    /// A public record type with the given name and no fields.
    pub fn new(ty: &str) -> (r: Self)
        requires
            spec_parse_type(ty@) is Ok,
        ensures
            type_view(r.typ) == spec_parse_type(ty@)->Ok_0,
            r.visibility == Visibility::Pub,
            r.derives@ == Set::<(int, Seq<char>)>::empty(),
            r.derives.wf(),
            r.derives.list() == Seq::<crate::derives::Derive>::empty(),
            r.fields@ == Seq::<Field>::empty(),
    {
        let typ = match parse_type_str(ty) {
            Ok(t) => t,
            Err(_) => vstd::pervasive::unreached(),
        };
        let r = Struct {
            typ,
            visibility: Visibility::Pub,
            derives: Derives::new(),
            fields: Vec::new(),
        };
        proof {
            assert(r.fields@ =~= Seq::<Field>::empty());
        }
        r
    }

    pub fn with_derives(self, derives: Derives) -> (r: Self)
        ensures
            r == (Struct { derives, ..self }),
    {
        Struct { derives, ..self }
    }

    pub fn add_field(self, field: Field) -> (r: Self)
        ensures
            r.typ == self.typ,
            r.visibility == self.visibility,
            r.derives == self.derives,
            r.fields@ == self.fields@.push(field),
    {
        let mut fields = self.fields;
        fields.push(field);
        Struct { typ: self.typ, visibility: self.visibility, derives: self.derives, fields }
    }

    pub fn with_visibility(self, visibility: Visibility) -> (r: Self)
        ensures
            r == (Struct { visibility, ..self }),
    {
        Struct { visibility, ..self }
    }

    /// The record declaration as text.
    pub fn render(&self) -> (r: String)
        ensures
            r@ == struct_text(*self),
    {
        let mut out = self.derives.render();
        out.append(self.visibility.render());
        out.append("struct ");
        let t = render_type(&self.typ);
        out.append(t.as_str());
        let n = self.fields.len();
        if n == 0 {
            out.append(";\n");
            proof {
                assert(out@ =~= struct_text(*self));
            }
            return out;
        }
        out.append(" {\n");
        let ghost head = out@;
        let mut i: usize = 0;
        proof {
            assert(self.fields@.subrange(0, 0) =~= Seq::<Field>::empty());
            assert(out@ =~= head + fields_text(self.fields@.subrange(0, 0)));
        }
        while i < n
            invariant
                n == self.fields@.len(),
                0 <= i <= n,
                out@ == head + fields_text(self.fields@.subrange(0, i as int)),
            decreases n - i,
        {
            let f = self.fields[i].render();
            out.append(f.as_str());
            out.append("\n");
            proof {
                let tk = self.fields@.subrange(0, i + 1);
                assert(tk.subrange(0, tk.len() - 1) =~= self.fields@.subrange(0, i as int));
                assert(tk[tk.len() - 1] == self.fields@[i as int]);
                assert(out@ =~= head + fields_text(tk));
            }
            i += 1;
        }
        out.append("}\n");
        proof {
            assert(self.fields@.subrange(0, n as int) =~= self.fields@);
            assert(out@ =~= struct_text(*self));
        }
        out
    }
}

} // verus!
