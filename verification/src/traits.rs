use vstd::prelude::*;
use vstd::string::StringExecFns;

use crate::errors::ParseError;
use crate::formatting::camel_parse;
use crate::formatting::indent_text;
use crate::formatting::is_camel;
use crate::formatting::is_snake;
use crate::formatting::CamelCase;
use crate::formatting::Indent;
use crate::formatting::SnakeCase;
use crate::generics::clone_type;
use crate::generics::render_type;
use crate::generics::type_view;
use crate::impls::append_code_lines;
use crate::impls::code_lines_text;
use crate::impls::return_suffix_text;
use crate::impls::tv_text_of;
use crate::impls::CodeLine;
use crate::text::str_eq;
use crate::types::type_name_parse;
use crate::types::Type;
use crate::types::TypeName;
use crate::visibility::vis_text;
use crate::visibility::Visibility;

verus! {

// ----------------------------------------------------------------------------
// Trait names.
// ----------------------------------------------------------------------------

/// The name of an interface-like contract or of a custom capability: a
/// Pascal-style identifier.
#[derive(Debug, PartialEq, Eq, Hash)]
pub struct TraitName(CamelCase);

impl View for TraitName {
    type V = Seq<char>;

    closed spec fn view(&self) -> Seq<char> {
        self.0@
    }
}

impl Clone for TraitName {
    fn clone(&self) -> (r: Self)
        ensures
            r == *self,
    {
        TraitName(self.0.clone())
    }
}

impl TraitName {
    pub open spec fn wf(self) -> bool {
        is_camel(self@)
    }

    /// Validate `s` as a trait name.
    pub fn from_str(s: &str) -> (r: Result<TraitName, ParseError>)
        ensures
            match camel_parse(s@) {
                Ok(n) => r is Ok && r->Ok_0@ == n && r->Ok_0.wf(),
                Err(e) => r == Err::<TraitName, ParseError>(e),
            },
    {
        match CamelCase::from_str(s) {
            Ok(c) => Ok(TraitName(c)),
            Err(e) => Err(e),
        }
    }

    pub fn as_str(&self) -> (r: &str)
        ensures
            r@ == self@,
    {
        self.0.as_str()
    }
}

// ----------------------------------------------------------------------------
// Trait functions.
// ----------------------------------------------------------------------------

/// A function of an interface-like contract: a snake-style name, raw
/// parameter text, an optional return type, and an optional default body.
#[derive(Debug, PartialEq, Eq)]
pub struct TraitFunction {
    pub name: SnakeCase,
    pub parameters: String,
    pub return_type: Option<String>,
    pub lines: Vec<CodeLine>,
}

/// Two signatures match structurally: same name, same parameter text, same
/// return type.  Bodies are not compared.
pub open spec fn sig_matches(a: TraitFunction, b: TraitFunction) -> bool {
    &&& a.name@ == b.name@
    &&& a.parameters@ == b.parameters@
    &&& opt_text(a.return_type) == opt_text(b.return_type)
}

/// The text of an optional return type.
pub open spec fn opt_text(o: Option<String>) -> Option<Seq<char>> {
    match o {
        Some(s) => Some(s@),
        None => None,
    }
}

/// A contract function is required in every implementation exactly when it
/// declares a return type and supplies no default body.
pub open spec fn requires_implementation(f: TraitFunction) -> bool {
    f.return_type is Some && f.lines@.len() == 0
}

/// The text of one contract function: its header, then either a bare
/// semicolon or its default body.
pub open spec fn trait_function_text(f: TraitFunction) -> Seq<char> {
    indent_text(1) + "fn "@ + f.name@ + "("@ + f.parameters@ + ")"@ + return_suffix_text(
        f.return_type,
    ) + (if f.lines@.len() == 0 {
        ";\n"@
    } else {
        " {\n"@ + code_lines_text(f.lines@) + "    }\n"@
    })
}

/// Contract function texts, in order.
pub open spec fn trait_functions_text(fs: Seq<TraitFunction>) -> Seq<char>
    decreases fs.len(),
{
    if fs.len() == 0 {
        Seq::empty()
    } else {
        trait_functions_text(fs.subrange(0, fs.len() - 1)) + trait_function_text(fs[fs.len() - 1])
    }
}

/// Implementation function texts, joined by blank separating lines.
pub open spec fn impl_trait_functions_text(fs: Seq<TraitFunction>) -> Seq<char>
    decreases fs.len(),
{
    if fs.len() == 0 {
        Seq::empty()
    } else if fs.len() == 1 {
        trait_function_text(fs[0])
    } else {
        impl_trait_functions_text(fs.subrange(0, fs.len() - 1)) + "\n"@ + trait_function_text(
            fs[fs.len() - 1],
        )
    }
}

impl Clone for TraitFunction {
    fn clone(&self) -> (r: Self)
        ensures
            r.name == self.name,
            r.parameters == self.parameters,
            r.return_type == self.return_type,
            r.lines@ == self.lines@,
    {
        let mut lines: Vec<CodeLine> = Vec::new();
        let n = self.lines.len();
        let mut i: usize = 0;
        while i < n
            invariant
                n == self.lines@.len(),
                0 <= i <= n,
                lines@.len() == i,
                forall|j: int| 0 <= j < i ==> lines@[j] == self.lines@[j],
            decreases n - i,
        {
            let l = self.lines[i].clone();
            lines.push(l);
            i += 1;
        }
        proof {
            assert(lines@ =~= self.lines@);
        }
        TraitFunction {
            name: self.name.clone(),
            parameters: self.parameters.clone(),
            return_type: match &self.return_type {
                Some(t) => Some(t.clone()),
                None => None,
            },
            lines,
        }
    }
}

impl TraitFunction {
    /// A contract function with the given name and nothing else.
    pub fn new(name: &str) -> (r: Self)
        requires
            is_snake(name@),
        ensures
            r.name@ == name@,
            r.parameters@ == Seq::<char>::empty(),
            r.return_type is None,
            r.lines@ == Seq::<CodeLine>::empty(),
    {
        let name = match SnakeCase::from_str(name) {
            Ok(n) => n,
            Err(_) => vstd::pervasive::unreached(),
        };
        let r = TraitFunction {
            name,
            parameters: String::new(),
            return_type: None,
            lines: Vec::new(),
        };
        proof {
            assert(r.lines@ =~= Seq::<CodeLine>::empty());
        }
        r
    }

    pub fn with_parameters(self, params: &str) -> (r: Self)
        ensures
            r.name == self.name,
            r.parameters@ == params@,
            r.return_type == self.return_type,
            r.lines == self.lines,
    {
        TraitFunction { parameters: params.to_owned(), ..self }
    }

    pub fn with_return(self, return_type: &str) -> (r: Self)
        ensures
            r.name == self.name,
            r.parameters == self.parameters,
            r.return_type is Some && r.return_type->0@ == return_type@,
            r.lines == self.lines,
    {
        TraitFunction { return_type: Some(return_type.to_owned()), ..self }
    }

    pub fn add_line(self, line: CodeLine) -> (r: Self)
        ensures
            r.name == self.name,
            r.parameters == self.parameters,
            r.return_type == self.return_type,
            r.lines@ == self.lines@.push(line),
    {
        let mut lines = self.lines;
        lines.push(line);
        TraitFunction {
            name: self.name,
            parameters: self.parameters,
            return_type: self.return_type,
            lines,
        }
    }

    /// The return-type suffix as text: empty, or an arrow and the type.
    pub fn get_return_type(&self) -> (r: String)
        ensures
            r@ == return_suffix_text(self.return_type),
    {
        match &self.return_type {
            Some(ty) => {
                let mut out = String::from_str(" -> ");
                out.append(ty.as_str());
                out
            },
            None => {
                let out = String::new();
                proof {
                    assert(out@ =~= return_suffix_text(self.return_type));
                }
                out
            },
        }
    }

    /// The contract function as text.
    pub fn render(&self) -> (r: String)
        ensures
            r@ == trait_function_text(*self),
    {
        let mut out = Indent::new(1).render();
        out.append("fn ");
        out.append(self.name.as_str());
        out.append("(");
        out.append(self.parameters.as_str());
        out.append(")");
        let ret = self.get_return_type();
        out.append(ret.as_str());
        if self.lines.len() == 0 {
            out.append(";\n");
            proof {
                assert(out@ =~= trait_function_text(*self));
            }
            return out;
        }
        out.append(" {\n");
        append_code_lines(&mut out, &self.lines);
        out.append("    }\n");
        proof {
            assert(out@ =~= trait_function_text(*self));
        }
        out
    }
}

/// Exec check that two signatures match structurally.
fn sigs_match(a: &TraitFunction, b: &TraitFunction) -> (r: bool)
    ensures
        r == sig_matches(*a, *b),
{
    if !str_eq(a.name.as_str(), b.name.as_str()) {
        return false;
    }
    if !str_eq(a.parameters.as_str(), b.parameters.as_str()) {
        return false;
    }
    match (&a.return_type, &b.return_type) {
        (Some(x), Some(y)) => str_eq(x.as_str(), y.as_str()),
        (None, None) => true,
        _ => false,
    }
}

// ----------------------------------------------------------------------------
// Trait declarations.
// ----------------------------------------------------------------------------

/// An interface-like contract: a name, a visibility, required associated
/// types, and functions, some with default bodies.
#[derive(Debug)]
pub struct Trait {
    pub name: TraitName,
    pub visibility: Visibility,
    pub associated_types: Vec<TypeName>,
    pub functions: Vec<TraitFunction>,
}

/// The associated-type requirement lines of a contract.
pub open spec fn assoc_decls_text(ts: Seq<TypeName>) -> Seq<char>
    decreases ts.len(),
{
    if ts.len() == 0 {
        Seq::empty()
    } else {
        assoc_decls_text(ts.subrange(0, ts.len() - 1)) + indent_text(1) + "type "@ + ts[ts.len()
            - 1]@ + ";\n"@
    }
}

/// The full text of a contract declaration.
pub open spec fn trait_text(t: Trait) -> Seq<char> {
    vis_text(t.visibility) + "trait "@ + t.name@ + " {"@ + (if t.associated_types@.len() == 0
        && t.functions@.len() == 0 {
        "}\n"@
    } else {
        "\n"@ + assoc_decls_text(t.associated_types@) + trait_functions_text(t.functions@)
            + "}\n"@
    })
}

impl Trait {
    /// A public contract with the given name and no requirements.
    pub fn new(name: &str) -> (r: Self)
        requires
            is_camel(name@),
        ensures
            r.name@ == name@,
            r.visibility == Visibility::Pub,
            r.associated_types@ == Seq::<TypeName>::empty(),
            r.functions@ == Seq::<TraitFunction>::empty(),
    {
        let name = match TraitName::from_str(name) {
            Ok(n) => n,
            Err(_) => vstd::pervasive::unreached(),
        };
        let r = Trait {
            name,
            visibility: Visibility::Pub,
            associated_types: Vec::new(),
            functions: Vec::new(),
        };
        proof {
            assert(r.associated_types@ =~= Seq::<TypeName>::empty());
            assert(r.functions@ =~= Seq::<TraitFunction>::empty());
        }
        r
    }

    /// Require an associated type of the given name.
    pub fn add_associated_type(self, name: &str) -> (r: Self)
        requires
            type_name_parse(name@) is Ok,
        ensures
            r.name == self.name,
            r.visibility == self.visibility,
            r.associated_types@.len() == self.associated_types@.len() + 1,
            forall|i: int|
                0 <= i < self.associated_types@.len() ==> r.associated_types@[i]
                    == self.associated_types@[i],
            r.associated_types@[r.associated_types@.len() - 1]@ == name@,
            r.functions == self.functions,
    {
        let n = TypeName::new(name);
        let mut associated_types = self.associated_types;
        associated_types.push(n);
        Trait {
            name: self.name,
            visibility: self.visibility,
            associated_types,
            functions: self.functions,
        }
    }

    /// Require a function, possibly with a default body.
    pub fn add_function_definition(self, function_def: TraitFunction) -> (r: Self)
        ensures
            r.name == self.name,
            r.visibility == self.visibility,
            r.associated_types == self.associated_types,
            r.functions@ == self.functions@.push(function_def),
    {
        let mut functions = self.functions;
        functions.push(function_def);
        Trait {
            name: self.name,
            visibility: self.visibility,
            associated_types: self.associated_types,
            functions,
        }
    }

    /// Begin an implementation of this contract for the given type, with no
    /// bindings yet.
    pub fn impl_for(&self, typ: &Type) -> (r: TraitImplementation)
        ensures
            r.trait_def.name == self.name,
            r.trait_def.visibility == self.visibility,
            r.trait_def.associated_types@ == self.associated_types@,
            r.trait_def.functions@.len() == self.functions@.len(),
            forall|i: int|
                0 <= i < self.functions@.len() ==> sig_matches(
                    #[trigger] r.trait_def.functions@[i],
                    self.functions@[i],
                ) && r.trait_def.functions@[i].lines@ == self.functions@[i].lines@,
            type_view(r.typ) == type_view(*typ),
            r.associated_types@ == Seq::<(TypeName, Type)>::empty(),
            r.functions@ == Seq::<TraitFunction>::empty(),
    {
        let r = TraitImplementation {
            trait_def: self.clone_trait(),
            typ: clone_type(typ),
            associated_types: Vec::new(),
            functions: Vec::new(),
        };
        proof {
            assert(r.associated_types@ =~= Seq::<(TypeName, Type)>::empty());
            assert(r.functions@ =~= Seq::<TraitFunction>::empty());
        }
        r
    }

    /// An exact copy of the contract.
    fn clone_trait(&self) -> (r: Trait)
        ensures
            r.name == self.name,
            r.visibility == self.visibility,
            r.associated_types@ == self.associated_types@,
            r.functions@.len() == self.functions@.len(),
            forall|i: int|
                0 <= i < self.functions@.len() ==> sig_matches(
                    #[trigger] r.functions@[i],
                    self.functions@[i],
                ) && r.functions@[i].lines@ == self.functions@[i].lines@,
    {
        let mut associated_types: Vec<TypeName> = Vec::new();
        let n = self.associated_types.len();
        let mut i: usize = 0;
        while i < n
            invariant
                n == self.associated_types@.len(),
                0 <= i <= n,
                associated_types@.len() == i,
                forall|j: int| 0 <= j < i ==> associated_types@[j] == self.associated_types@[j],
            decreases n - i,
        {
            let t = self.associated_types[i].clone();
            associated_types.push(t);
            i += 1;
        }
        let mut functions: Vec<TraitFunction> = Vec::new();
        let m = self.functions.len();
        let mut k: usize = 0;
        while k < m
            invariant
                m == self.functions@.len(),
                0 <= k <= m,
                functions@.len() == k,
                forall|j: int|
                    0 <= j < k ==> sig_matches(#[trigger] functions@[j], self.functions@[j])
                        && functions@[j].lines@ == self.functions@[j].lines@,
            decreases m - k,
        {
            let f = self.functions[k].clone();
            functions.push(f);
            k += 1;
        }
        proof {
            assert(associated_types@ =~= self.associated_types@);
        }
        Trait {
            name: self.name.clone(),
            visibility: self.visibility,
            associated_types,
            functions,
        }
    }

    /// The contract declaration as text.
    pub fn render(&self) -> (r: String)
        ensures
            r@ == trait_text(*self),
    {
        let mut out = self.visibility.render().to_owned();
        out.append("trait ");
        out.append(self.name.as_str());
        out.append(" {");
        let na = self.associated_types.len();
        let nf = self.functions.len();
        if na == 0 && nf == 0 {
            out.append("}\n");
            proof {
                assert(out@ =~= trait_text(*self));
            }
            return out;
        }
        out.append("\n");
        let ghost head = out@;
        let mut i: usize = 0;
        proof {
            assert(self.associated_types@.subrange(0, 0) =~= Seq::<TypeName>::empty());
            assert(out@ =~= head + assoc_decls_text(self.associated_types@.subrange(0, 0)));
        }
        while i < na
            invariant
                na == self.associated_types@.len(),
                0 <= i <= na,
                out@ == head + assoc_decls_text(self.associated_types@.subrange(0, i as int)),
            decreases na - i,
        {
            let ind = Indent::new(1).render();
            out.append(ind.as_str());
            out.append("type ");
            out.append(self.associated_types[i].as_str());
            out.append(";\n");
            proof {
                let tk = self.associated_types@.subrange(0, i + 1);
                assert(tk.subrange(0, tk.len() - 1) =~= self.associated_types@.subrange(
                    0,
                    i as int,
                ));
                assert(tk[tk.len() - 1] == self.associated_types@[i as int]);
                assert(out@ =~= head + assoc_decls_text(tk));
            }
            i += 1;
        }
        proof {
            assert(self.associated_types@.subrange(0, na as int) =~= self.associated_types@);
        }
        let ghost head2 = out@;
        let mut k: usize = 0;
        proof {
            assert(self.functions@.subrange(0, 0) =~= Seq::<TraitFunction>::empty());
            assert(out@ =~= head2 + trait_functions_text(self.functions@.subrange(0, 0)));
        }
        while k < nf
            invariant
                nf == self.functions@.len(),
                0 <= k <= nf,
                out@ == head2 + trait_functions_text(self.functions@.subrange(0, k as int)),
            decreases nf - k,
        {
            let f = self.functions[k].render();
            out.append(f.as_str());
            proof {
                let tk = self.functions@.subrange(0, k + 1);
                assert(tk.subrange(0, tk.len() - 1) =~= self.functions@.subrange(0, k as int));
                assert(tk[tk.len() - 1] == self.functions@[k as int]);
                assert(out@ =~= head2 + trait_functions_text(tk));
            }
            k += 1;
        }
        out.append("}\n");
        proof {
            assert(self.functions@.subrange(0, nf as int) =~= self.functions@);
            assert(out@ =~= trait_text(*self));
        }
        out
    }
}

// ----------------------------------------------------------------------------
// Candidate implementations and the conformance rules.
// ----------------------------------------------------------------------------

/// A candidate implementation of a contract for a target type: bindings for
/// the contract's associated types, and implementations of its functions.
#[derive(Debug)]
pub struct TraitImplementation {
    pub trait_def: Trait,
    pub typ: Type,
    pub associated_types: Vec<(TypeName, Type)>,
    pub functions: Vec<TraitFunction>,
}

/// The candidate binds an associated type of the given name.
pub open spec fn binds_name(ti: TraitImplementation, name: Seq<char>) -> bool {
    exists|j: int|
        0 <= j < ti.associated_types@.len() && (#[trigger] ti.associated_types@[j]).0@ == name
}

/// The contract requires an associated type of the given name.
pub open spec fn name_is_required(ti: TraitImplementation, name: Seq<char>) -> bool {
    exists|i: int|
        0 <= i < ti.trait_def.associated_types@.len()
            && (#[trigger] ti.trait_def.associated_types@[i])@ == name
}

/// Some contract function matches the given signature structurally.
pub open spec fn matches_some_contract_fn(ti: TraitImplementation, f: TraitFunction) -> bool {
    exists|i: int|
        0 <= i < ti.trait_def.functions@.len() && sig_matches(
            f,
            #[trigger] ti.trait_def.functions@[i],
        )
}

/// Some provided function matches the given signature structurally.
pub open spec fn is_implemented(ti: TraitImplementation, f: TraitFunction) -> bool {
    exists|j: int| 0 <= j < ti.functions@.len() && sig_matches(#[trigger] ti.functions@[j], f)
}

/// Rule: every associated type the contract requires has a binding.
pub open spec fn all_required_types_bound(ti: TraitImplementation) -> bool {
    forall|i: int|
        0 <= i < ti.trait_def.associated_types@.len() ==> binds_name(
            ti,
            (#[trigger] ti.trait_def.associated_types@[i])@,
        )
}

/// Rule: every binding answers an associated type the contract requires.
pub open spec fn all_bound_types_required(ti: TraitImplementation) -> bool {
    forall|j: int|
        0 <= j < ti.associated_types@.len() ==> name_is_required(
            ti,
            (#[trigger] ti.associated_types@[j]).0@,
        )
}

/// Rule: every provided function matches a contract function structurally.
pub open spec fn all_functions_required(ti: TraitImplementation) -> bool {
    forall|j: int|
        0 <= j < ti.functions@.len() ==> matches_some_contract_fn(
            ti,
            #[trigger] ti.functions@[j],
        )
}

/// Rule: every contract function without a default body is provided.
pub open spec fn all_required_functions_present(ti: TraitImplementation) -> bool {
    forall|i: int|
        0 <= i < ti.trait_def.functions@.len() && requires_implementation(
            #[trigger] ti.trait_def.functions@[i],
        ) ==> is_implemented(ti, ti.trait_def.functions@[i])
}

/// A candidate conforms to its contract when all four rules hold.
pub open spec fn conformant(ti: TraitImplementation) -> bool {
    &&& all_required_types_bound(ti)
    &&& all_bound_types_required(ti)
    &&& all_functions_required(ti)
    &&& all_required_functions_present(ti)
}

/// The associated-type binding lines of an implementation.
pub open spec fn assoc_bindings_text(ts: Seq<(TypeName, Type)>) -> Seq<char>
    decreases ts.len(),
{
    if ts.len() == 0 {
        Seq::empty()
    } else {
        assoc_bindings_text(ts.subrange(0, ts.len() - 1)) + indent_text(1) + "type "@ + ts[ts.len()
            - 1].0@ + " = "@ + tv_text_of(ts[ts.len() - 1].1) + ";\n"@
    }
}

/// The full text of a conformant implementation.
pub open spec fn trait_impl_text(ti: TraitImplementation) -> Seq<char> {
    "impl "@ + ti.trait_def.name@ + " for "@ + tv_text_of(ti.typ) + " {"@ + (
    if ti.associated_types@.len() == 0 && ti.functions@.len() == 0 {
        Seq::empty()
    } else {
        "\n"@
    }) + assoc_bindings_text(ti.associated_types@) + impl_trait_functions_text(ti.functions@)
        + "}\n"@
}

impl TraitImplementation {
    /// Bind one of the contract's associated types to a concrete type.  A
    /// binding of the same name replaces the earlier one in place; otherwise
    /// the binding is appended.
    pub fn add_associated_type(self, associated_type_name: TypeName, associated_type: Type) -> (r:
        Self)
        ensures
            r.trait_def == self.trait_def,
            r.typ == self.typ,
            r.functions == self.functions,
            (forall|j: int|
                0 <= j < self.associated_types@.len() ==> (#[trigger] self.associated_types@[j]).0@
                    != associated_type_name@) ==> r.associated_types@
                == self.associated_types@.push((associated_type_name, associated_type)),
            (exists|j: int|
                0 <= j < self.associated_types@.len() && (#[trigger] self.associated_types@[j]).0@
                    == associated_type_name@) ==> exists|p: int|
                0 <= p < self.associated_types@.len() && (#[trigger] self.associated_types@[p]).0@
                    == associated_type_name@ && r.associated_types@
                    == self.associated_types@.update(p, (associated_type_name, associated_type)),
    {
        let ghost orig = self.associated_types@;
        let mut associated_types = self.associated_types;
        let n = associated_types.len();
        let mut pos: usize = n;
        let mut i: usize = 0;
        while i < n
            invariant
                n == associated_types@.len(),
                associated_types@ == orig,
                0 <= i <= n,
                pos == n || (0 <= pos < i && (orig[pos as int]).0@ == associated_type_name@),
                pos == n ==> forall|j: int|
                    0 <= j < i ==> (#[trigger] orig[j]).0@ != associated_type_name@,
            decreases n - i,
        {
            if pos == n && str_eq(associated_types[i].0.as_str(), associated_type_name.as_str()) {
                pos = i;
            }
            i += 1;
        }
        if pos < n {
            let at = (associated_type_name, associated_type);
            associated_types.set(pos, at);
        } else {
            associated_types.push((associated_type_name, associated_type));
        }
        TraitImplementation {
            trait_def: self.trait_def,
            typ: self.typ,
            associated_types,
            functions: self.functions,
        }
    }

    /// Provide an implementation for one of the contract's functions.
    pub fn add_function(self, function_def: TraitFunction) -> (r: Self)
        ensures
            r.trait_def == self.trait_def,
            r.typ == self.typ,
            r.associated_types == self.associated_types,
            r.functions@ == self.functions@.push(function_def),
    {
        let mut functions = self.functions;
        functions.push(function_def);
        TraitImplementation {
            trait_def: self.trait_def,
            typ: self.typ,
            associated_types: self.associated_types,
            functions,
        }
    }

    /// Whether `function` matches some function of the contract structurally.
    pub fn fn_matches_trait_fn(&self, function: &TraitFunction) -> (r: bool)
        ensures
            r == matches_some_contract_fn(*self, *function),
    {
        let n = self.trait_def.functions.len();
        let mut i: usize = 0;
        while i < n
            invariant
                n == self.trait_def.functions@.len(),
                0 <= i <= n,
                forall|j: int|
                    0 <= j < i ==> !sig_matches(*function, #[trigger] self.trait_def.functions@[j]),
            decreases n - i,
        {
            if sigs_match(function, &self.trait_def.functions[i]) {
                return true;
            }
            i += 1;
        }
        false
    }

    /// Whether `function` matches some provided function structurally.
    pub fn trait_fn_matches_impl_fn(&self, function: &TraitFunction) -> (r: bool)
        ensures
            r == is_implemented(*self, *function),
    {
        let n = self.functions.len();
        let mut i: usize = 0;
        while i < n
            invariant
                n == self.functions@.len(),
                0 <= i <= n,
                forall|j: int| 0 <= j < i ==> !sig_matches(#[trigger] self.functions@[j], *function),
            decreases n - i,
        {
            if sigs_match(&self.functions[i], function) {
                return true;
            }
            i += 1;
        }
        false
    }

    /// Check the four conformance rules; exactly when all hold, the candidate
    /// is renderable.
    pub fn is_valid(&self) -> (r: bool)
        ensures
            r == conformant(*self),
    {
        let tn = self.trait_def.associated_types.len();
        let mut i: usize = 0;
        while i < tn
            invariant
                tn == self.trait_def.associated_types@.len(),
                0 <= i <= tn,
                forall|a: int|
                    0 <= a < i ==> binds_name(
                        *self,
                        (#[trigger] self.trait_def.associated_types@[a])@,
                    ),
            decreases tn - i,
        {
            if !self.has_binding(&self.trait_def.associated_types[i]) {
                proof {
                    assert(!all_required_types_bound(*self));
                }
                return false;
            }
            i += 1;
        }
        let bn = self.associated_types.len();
        let mut j: usize = 0;
        while j < bn
            invariant
                bn == self.associated_types@.len(),
                0 <= j <= bn,
                forall|b: int|
                    0 <= b < j ==> name_is_required(
                        *self,
                        (#[trigger] self.associated_types@[b]).0@,
                    ),
            decreases bn - j,
        {
            if !self.binding_is_required(j) {
                proof {
                    assert(0 <= j < self.associated_types@.len());
                    assert((self.associated_types@[j as int]).0@
                        == self.associated_types@[j as int].0@);
                    assert(!all_bound_types_required(*self));
                }
                return false;
            }
            j += 1;
        }
        let fn_count = self.functions.len();
        let mut k: usize = 0;
        while k < fn_count
            invariant
                fn_count == self.functions@.len(),
                0 <= k <= fn_count,
                forall|b: int|
                    0 <= b < k ==> matches_some_contract_fn(*self, #[trigger] self.functions@[b]),
            decreases fn_count - k,
        {
            if !self.fn_matches_trait_fn(&self.functions[k]) {
                proof {
                    assert(!all_functions_required(*self));
                }
                return false;
            }
            k += 1;
        }
        let dn = self.trait_def.functions.len();
        let mut m: usize = 0;
        while m < dn
            invariant
                dn == self.trait_def.functions@.len(),
                0 <= m <= dn,
                forall|a: int|
                    0 <= a < m && requires_implementation(
                        #[trigger] self.trait_def.functions@[a],
                    ) ==> is_implemented(*self, self.trait_def.functions@[a]),
            decreases dn - m,
        {
            let tf = &self.trait_def.functions[m];
            let required = match &tf.return_type {
                Some(_) => tf.lines.len() == 0,
                None => false,
            };
            if required {
                if !self.trait_fn_matches_impl_fn(tf) {
                    proof {
                        assert(requires_implementation(self.trait_def.functions@[m as int]));
                        assert(!all_required_functions_present(*self));
                    }
                    return false;
                }
            }
            m += 1;
        }
        true
    }

    /// Whether the candidate binds an associated type of the given name.
    fn has_binding(&self, name: &TypeName) -> (r: bool)
        ensures
            r == binds_name(*self, name@),
    {
        let n = self.associated_types.len();
        let mut i: usize = 0;
        while i < n
            invariant
                n == self.associated_types@.len(),
                0 <= i <= n,
                forall|j: int|
                    0 <= j < i ==> (#[trigger] self.associated_types@[j]).0@ != name@,
            decreases n - i,
        {
            if str_eq(self.associated_types[i].0.as_str(), name.as_str()) {
                return true;
            }
            i += 1;
        }
        false
    }

    /// Whether the binding at the given position answers some requirement.
    fn binding_is_required(&self, at: usize) -> (r: bool)
        requires
            at < self.associated_types@.len(),
        ensures
            r == name_is_required(*self, self.associated_types@[at as int].0@),
    {
        let n = self.trait_def.associated_types.len();
        let mut i: usize = 0;
        while i < n
            invariant
                at < self.associated_types@.len(),
                n == self.trait_def.associated_types@.len(),
                0 <= i <= n,
                forall|j: int|
                    0 <= j < i ==> (#[trigger] self.trait_def.associated_types@[j])@
                        != self.associated_types@[at as int].0@,
            decreases n - i,
        {
            if str_eq(
                self.trait_def.associated_types[i].as_str(),
                self.associated_types[at].0.as_str(),
            ) {
                return true;
            }
            i += 1;
        }
        false
    }

    /// Run the conformance checks.  The candidate must conform, so none of
    /// the checks can fire; an unverified caller that violates this aborts
    /// the rendering by design.
    pub fn panic_if_invalid(&self)
        requires
            conformant(*self),
    {
        let valid = self.is_valid();
        proof {
            assert(valid);
        }
    }

    /// The implementation as text.  Rendering re-checks conformance; the
    /// candidate must conform.
    pub fn render(&self) -> (r: String)
        requires
            conformant(*self),
        ensures
            r@ == trait_impl_text(*self),
    {
        self.panic_if_invalid();
        let mut out = String::from_str("impl ");
        out.append(self.trait_def.name.as_str());
        out.append(" for ");
        let t = render_type(&self.typ);
        out.append(t.as_str());
        out.append(" {");
        let na = self.associated_types.len();
        let nf = self.functions.len();
        if na > 0 || nf > 0 {
            out.append("\n");
        }
        let ghost head = out@;
        let mut i: usize = 0;
        proof {
            assert(self.associated_types@.subrange(0, 0) =~= Seq::<(TypeName, Type)>::empty());
            assert(out@ =~= head + assoc_bindings_text(self.associated_types@.subrange(0, 0)));
        }
        while i < na
            invariant
                na == self.associated_types@.len(),
                0 <= i <= na,
                out@ == head + assoc_bindings_text(self.associated_types@.subrange(0, i as int)),
            decreases na - i,
        {
            let ind = Indent::new(1).render();
            out.append(ind.as_str());
            out.append("type ");
            out.append(self.associated_types[i].0.as_str());
            out.append(" = ");
            let ty = render_type(&self.associated_types[i].1);
            out.append(ty.as_str());
            out.append(";\n");
            proof {
                let tk = self.associated_types@.subrange(0, i + 1);
                assert(tk.subrange(0, tk.len() - 1) =~= self.associated_types@.subrange(
                    0,
                    i as int,
                ));
                assert(tk[tk.len() - 1] == self.associated_types@[i as int]);
                assert(out@ =~= head + assoc_bindings_text(tk));
            }
            i += 1;
        }
        proof {
            assert(self.associated_types@.subrange(0, na as int) =~= self.associated_types@);
        }
        let ghost head2 = out@;
        let mut k: usize = 0;
        proof {
            assert(self.functions@.subrange(0, 0) =~= Seq::<TraitFunction>::empty());
            assert(impl_trait_functions_text(self.functions@.subrange(0, 0)) =~= Seq::<
                char,
            >::empty());
            assert(out@ =~= head2 + impl_trait_functions_text(self.functions@.subrange(0, 0)));
        }
        while k < nf
            invariant
                nf == self.functions@.len(),
                0 <= k <= nf,
                out@ == head2 + impl_trait_functions_text(self.functions@.subrange(0, k as int)),
            decreases nf - k,
        {
            if k != 0 {
                out.append("\n");
            }
            let f = self.functions[k].render();
            out.append(f.as_str());
            proof {
                let tk = self.functions@.subrange(0, k + 1);
                assert(tk.subrange(0, tk.len() - 1) =~= self.functions@.subrange(0, k as int));
                assert(tk[tk.len() - 1] == self.functions@[k as int]);
                assert(out@ =~= head2 + impl_trait_functions_text(tk));
            }
            k += 1;
        }
        out.append("}\n");
        proof {
            assert(self.functions@.subrange(0, nf as int) =~= self.functions@);
            assert(out@ =~= trait_impl_text(*self));
        }
        out
    }
}

} // verus!
