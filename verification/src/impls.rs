use vstd::prelude::*;
use vstd::string::StringExecFns;

use crate::formatting::indent_text;
use crate::formatting::is_snake;
use crate::formatting::Indent;
use crate::formatting::SnakeCase;
use crate::generics::args_text;
use crate::generics::generics_view;
use crate::generics::parse_type_str;
use crate::generics::render_generics;
use crate::generics::render_type;
use crate::generics::spec_parse_type;
use crate::generics::type_view;
use crate::generics::Generics;
use crate::generics::GenericV;
use crate::types::Type;
use crate::visibility::vis_text;
use crate::visibility::Visibility;

verus! {

// ----------------------------------------------------------------------------
// Code lines.
// ----------------------------------------------------------------------------

/// One line inside an emitted function body, with its own indentation.
#[derive(Debug, PartialEq, Eq, Hash)]
pub struct CodeLine {
    pub indent: Indent,
    pub text: String,
}

/// The text of one code line: its indentation, then its text.
pub open spec fn code_line_text(l: CodeLine) -> Seq<char> {
    indent_text(l.indent.0 as nat) + l.text@
}

/// Each line indented one extra level and ended by a line break.
pub open spec fn code_lines_text(ls: Seq<CodeLine>) -> Seq<char>
    decreases ls.len(),
{
    if ls.len() == 0 {
        Seq::empty()
    } else {
        code_lines_text(ls.subrange(0, ls.len() - 1)) + indent_text(1) + code_line_text(
            ls[ls.len() - 1],
        ) + "\n"@
    }
}

impl Clone for CodeLine {
    fn clone(&self) -> (r: Self)
        ensures
            r == *self,
    {
        CodeLine { indent: self.indent, text: self.text.clone() }
    }
}

impl CodeLine {
    /// A line of text one level deeper than the surrounding body.
    pub fn new(indent: u8, text: &str) -> (r: Self)
        requires
            indent < 255,
        ensures
            r.indent == Indent((indent + 1) as u8),
            r.text@ == text@,
    {
        CodeLine { indent: Indent::new(indent + 1), text: text.to_owned() }
    }

    /// The line as text.
    pub fn render(&self) -> (r: String)
        ensures
            r@ == code_line_text(*self),
    {
        let mut out = self.indent.render();
        out.append(self.text.as_str());
        out
    }
}

// ----------------------------------------------------------------------------
// Functions of an inherent implementation block.
// ----------------------------------------------------------------------------

/// A function of an implementation block: a snake-style name, generic
/// parameters, a visibility, raw parameter text, an optional return type and
/// the lines of its body.
#[derive(Debug, PartialEq, Eq, Hash)]
pub struct Function {
    pub name: SnakeCase,
    pub generics: Generics,
    pub visibility: Visibility,
    pub parameters: String,
    pub return_type: Option<String>,
    pub lines: Vec<CodeLine>,
}

/// The return-type suffix: nothing, or an arrow and the type.
pub open spec fn return_suffix_text(r: Option<String>) -> Seq<char> {
    match r {
        Some(t) => " -> "@ + t@,
        None => Seq::empty(),
    }
}

/// The full text of one function of an implementation block.
pub open spec fn function_text(f: Function) -> Seq<char> {
    indent_text(1) + vis_text(f.visibility) + "fn "@ + f.name@ + args_text(
        generics_view(f.generics),
    ) + "("@ + f.parameters@ + ")"@ + return_suffix_text(f.return_type) + " {"@ + (
    if f.lines@.len() == 0 {
        "}\n"@
    } else {
        "\n"@ + code_lines_text(f.lines@) + "    }\n"@
    })
}

impl Function {
    /// A public function with the given name and nothing else.
    pub fn new(name: &str) -> (r: Self)
        requires
            is_snake(name@),
        ensures
            r.name@ == name@,
            generics_view(r.generics) == Seq::<GenericV>::empty(),
            r.visibility == Visibility::Pub,
            r.parameters@ == Seq::<char>::empty(),
            r.return_type is None,
            r.lines@ == Seq::<CodeLine>::empty(),
    {
        let name = match SnakeCase::from_str(name) {
            Ok(n) => n,
            Err(_) => vstd::pervasive::unreached(),
        };
        let r = Function {
            name,
            generics: Generics::none(),
            visibility: Visibility::Pub,
            parameters: String::new(),
            return_type: None,
            lines: Vec::new(),
        };
        proof {
            assert(r.lines@ =~= Seq::<CodeLine>::empty());
        }
        r
    }

    pub fn with_generics(self, generics: Generics) -> (r: Self)
        ensures
            r == (Function { generics, ..self }),
    {
        Function { generics, ..self }
    }

    pub fn with_parameters(self, params: &str) -> (r: Self)
        ensures
            r.name == self.name,
            r.generics == self.generics,
            r.visibility == self.visibility,
            r.parameters@ == params@,
            r.return_type == self.return_type,
            r.lines == self.lines,
    {
        Function { parameters: params.to_owned(), ..self }
    }

    pub fn with_return(self, return_type: String) -> (r: Self)
        ensures
            r == (Function { return_type: Some(return_type), ..self }),
    {
        Function { return_type: Some(return_type), ..self }
    }

    pub fn with_visibility(self, visibility: Visibility) -> (r: Self)
        ensures
            r == (Function { visibility, ..self }),
    {
        Function { visibility, ..self }
    }

    pub fn add_line(self, line: CodeLine) -> (r: Self)
        ensures
            r.name == self.name,
            r.generics == self.generics,
            r.visibility == self.visibility,
            r.parameters == self.parameters,
            r.return_type == self.return_type,
            r.lines@ == self.lines@.push(line),
    {
        let mut lines = self.lines;
        lines.push(line);
        Function {
            name: self.name,
            generics: self.generics,
            visibility: self.visibility,
            parameters: self.parameters,
            return_type: self.return_type,
            lines,
        }
    }

    /// The function as text.
    pub fn render(&self) -> (r: String)
        ensures
            r@ == function_text(*self),
    {
        let mut out = Indent::new(1).render();
        out.append(self.visibility.render());
        out.append("fn ");
        out.append(self.name.as_str());
        let gens = render_generics(&self.generics);
        out.append(gens.as_str());
        out.append("(");
        out.append(self.parameters.as_str());
        out.append(")");
        match &self.return_type {
            Some(t) => {
                out.append(" -> ");
                out.append(t.as_str());
            },
            None => {},
        }
        out.append(" {");
        if self.lines.len() == 0 {
            out.append("}\n");
            proof {
                assert(out@ =~= function_text(*self));
            }
            return out;
        }
        out.append("\n");
        append_code_lines(&mut out, &self.lines);
        out.append("    }\n");
        proof {
            assert(out@ =~= function_text(*self));
        }
        out
    }
}

/// Append every line, one level deeper, each ended by a line break.
pub(crate) fn append_code_lines(out: &mut String, lines: &Vec<CodeLine>)
    ensures
        final(out)@ == old(out)@ + code_lines_text(lines@),
{
    let n = lines.len();
    let mut i: usize = 0;
    proof {
        assert(lines@.subrange(0, 0) =~= Seq::<CodeLine>::empty());
        assert(old(out)@ + code_lines_text(lines@.subrange(0, 0)) =~= old(out)@);
    }
    while i < n
        invariant
            n == lines@.len(),
            0 <= i <= n,
            out@ == old(out)@ + code_lines_text(lines@.subrange(0, i as int)),
        decreases n - i,
    {
        let ind = Indent::new(1).render();
        out.append(ind.as_str());
        let line = lines[i].render();
        out.append(line.as_str());
        out.append("\n");
        proof {
            let tk = lines@.subrange(0, i + 1);
            assert(tk.subrange(0, tk.len() - 1) =~= lines@.subrange(0, i as int));
            assert(tk[tk.len() - 1] == lines@[i as int]);
            assert(out@ =~= old(out)@ + code_lines_text(tk));
        }
        i += 1;
    }
    proof {
        assert(lines@.subrange(0, n as int) =~= lines@);
    }
}

// ----------------------------------------------------------------------------
// Inherent implementation blocks.
// ----------------------------------------------------------------------------

/// An inherent implementation block for a type, holding its functions.
#[derive(Debug, PartialEq, Eq, Hash)]
pub struct Impl {
    pub strct: Type,
    pub functions: Vec<Function>,
}

/// The rendered functions of a block, joined by blank lines.
pub open spec fn impl_functions_text(fs: Seq<Function>) -> Seq<char>
    decreases fs.len(),
{
    if fs.len() == 0 {
        Seq::empty()
    } else if fs.len() == 1 {
        function_text(fs[0])
    } else {
        impl_functions_text(fs.subrange(0, fs.len() - 1)) + "\n"@ + function_text(fs[fs.len() - 1])
    }
}

/// The full text of an implementation block.
pub open spec fn impl_text(i: Impl) -> Seq<char> {
    "impl "@ + tv_text_of(i.strct) + " {"@ + (if i.functions@.len() == 0 {
        Seq::empty()
    } else {
        "\n"@ + impl_functions_text(i.functions@)
    }) + "}\n"@
}

/// The text of a type expression, written from the executable tree.
pub open spec fn tv_text_of(t: Type) -> Seq<char> {
    crate::generics::tv_text(type_view(t))
}

impl From<&Type> for Impl {
    /// An empty implementation block for an already parsed type.
    fn from(typ: &Type) -> (r: Self)
        ensures
            type_view(r.strct) == type_view(*typ),
            r.functions@ == Seq::<Function>::empty(),
    {
        let r = Impl { strct: crate::generics::clone_type(typ), functions: Vec::new() };
        proof {
            assert(r.functions@ =~= Seq::<Function>::empty());
        }
        r
    }
}

impl vstd::std_specs::convert::FromSpecImpl<&Type> for Impl {
    open spec fn obeys_from_spec() -> bool {
        false
    }

    open spec fn from_spec(t: &Type) -> Impl {
        vstd::pervasive::arbitrary()
    }
}

impl Impl {
    /// An empty implementation block for the named type.
    pub fn new(target: &str) -> (r: Self)
        requires
            spec_parse_type(target@) is Ok,
        ensures
            type_view(r.strct) == spec_parse_type(target@)->Ok_0,
            r.functions@ == Seq::<Function>::empty(),
    {
        let strct = match parse_type_str(target) {
            Ok(t) => t,
            Err(_) => vstd::pervasive::unreached(),
        };
        let r = Impl { strct, functions: Vec::new() };
        proof {
            assert(r.functions@ =~= Seq::<Function>::empty());
        }
        r
    }

    pub fn add_function(self, function: Function) -> (r: Self)
        ensures
            r.strct == self.strct,
            r.functions@ == self.functions@.push(function),
    {
        let mut functions = self.functions;
        functions.push(function);
        Impl { strct: self.strct, functions }
    }

    /// The implementation block as text.
    pub fn render(&self) -> (r: String)
        ensures
            r@ == impl_text(*self),
    {
        let mut out = String::from_str("impl ");
        let t = render_type(&self.strct);
        out.append(t.as_str());
        out.append(" {");
        let n = self.functions.len();
        if n > 0 {
            out.append("\n");
            let mut i: usize = 0;
            proof {
                assert(self.functions@.subrange(0, 0) =~= Seq::<Function>::empty());
                assert(impl_functions_text(self.functions@.subrange(0, 0)) =~= Seq::<char>::empty());
                assert(out@ =~= "impl "@ + tv_text_of(self.strct) + " {"@ + "\n"@
                    + impl_functions_text(self.functions@.subrange(0, 0)));
            }
            while i < n
                invariant
                    n == self.functions@.len(),
                    n > 0,
                    0 <= i <= n,
                    out@ == "impl "@ + tv_text_of(self.strct) + " {"@ + "\n"@
                        + impl_functions_text(self.functions@.subrange(0, i as int)),
                decreases n - i,
            {
                if i != 0 {
                    out.append("\n");
                }
                let f = self.functions[i].render();
                out.append(f.as_str());
                proof {
                    let tk = self.functions@.subrange(0, i + 1);
                    assert(tk.subrange(0, tk.len() - 1) =~= self.functions@.subrange(0, i as int));
                    assert(tk[tk.len() - 1] == self.functions@[i as int]);
                    if i == 0 {
                        assert(impl_functions_text(self.functions@.subrange(0, 0)) =~= Seq::<
                            char,
                        >::empty());
                    }
                    assert(out@ =~= "impl "@ + tv_text_of(self.strct) + " {"@ + "\n"@
                        + impl_functions_text(tk));
                }
                i += 1;
            }
            proof {
                assert(self.functions@.subrange(0, n as int) =~= self.functions@);
            }
        }
        out.append("}\n");
        proof {
            if n == 0 {
                assert(out@ =~= impl_text(*self));
            } else {
                assert(out@ =~= impl_text(*self));
            }
        }
        out
    }
}

} // verus!
