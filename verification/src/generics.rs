use vstd::prelude::*;
use vstd::string::StrSliceExecFns;
use vstd::string::StringExecFns;

use crate::errors::ParseError;
use crate::text::char_index;
use crate::text::find_char;
use crate::text::has_char;
use crate::text::lemma_char_index;
use crate::text::is_space_char;
use crate::text::lemma_trim_hi;
use crate::text::lemma_trim_lo;
use crate::text::trim_hi;
use crate::text::trim_lo;
use crate::text::trim_spec;
use crate::text::trim_str;
use crate::types::type_name_parse;
use crate::types::Type;
use crate::types::TypeName;
use crate::types::TypeV;

verus! {

// ----------------------------------------------------------------------------
// The data model: generic argument lists over types and lifetimes.
// ----------------------------------------------------------------------------

/// An ordered list of generic arguments.
#[derive(Debug, PartialEq, Eq, Hash)]
pub struct Generics(pub(crate) Vec<Generic>);

/// One generic argument: a nested type expression or a lifetime marker.
#[derive(Debug, PartialEq, Eq, Hash)]
pub enum Generic {
    Type(Type),
    Lifetime(Lifetime),
}

/// A lifetime marker, stored without its leading apostrophe.
#[derive(Debug, PartialEq, Eq, Hash)]
pub struct Lifetime(pub(crate) String);

impl View for Lifetime {
    type V = Seq<char>;

    closed spec fn view(&self) -> Seq<char> {
        self.0@
    }
}

impl Lifetime {
    /// Wrap a lifetime name (without apostrophe).
    pub fn new(lifetime: &str) -> (r: Self)
        ensures
            r@ == lifetime@,
    {
        Lifetime(lifetime.to_owned())
    }
}

/// The mathematical shape of one generic argument.
pub enum GenericV {
    TypeArg(TypeV),
    LifetimeArg(Seq<char>),
}

// ----------------------------------------------------------------------------
// Views: from the executable tree to its mathematical shape.
// ----------------------------------------------------------------------------

pub open spec fn type_view(t: Type) -> TypeV
    decreases t, 0int,
{
    TypeV { name: t.name@, args: generics_view(t.types) }
}

pub closed spec fn generics_view(g: Generics) -> Seq<GenericV>
    decreases g, 1int,
{
    gens_view_rec(g.0@)
}

pub open spec fn gens_view_rec(s: Seq<Generic>) -> Seq<GenericV>
    decreases s, 0int,
{
    if s.len() == 0 {
        Seq::empty()
    } else {
        gens_view_rec(s.subrange(0, s.len() - 1)).push(generic_view(s[s.len() - 1]))
    }
}

pub open spec fn generic_view(x: Generic) -> GenericV
    decreases x, 1int,
{
    match x {
        Generic::Type(t) => GenericV::TypeArg(type_view(t)),
        Generic::Lifetime(l) => GenericV::LifetimeArg(l@),
    }
}

pub proof fn lemma_gens_view_len(s: Seq<Generic>)
    ensures
        gens_view_rec(s).len() == s.len(),
        forall|i: int| 0 <= i < s.len() ==> #[trigger] gens_view_rec(s)[i] == generic_view(s[i]),
    decreases s.len(),
{
    if s.len() > 0 {
        lemma_gens_view_len(s.subrange(0, s.len() - 1));
        assert(forall|i: int|
            0 <= i < s.len() - 1 ==> s.subrange(0, s.len() - 1)[i] == s[i]);
    }
}

// ----------------------------------------------------------------------------
// Rendering: the exact text of a type expression.
// ----------------------------------------------------------------------------

pub open spec fn tv_text(tv: TypeV) -> Seq<char>
    decreases tv, 0int,
{
    tv.name + args_text(tv.args)
}

/// An empty argument list renders as nothing; otherwise the arguments are
/// joined by ", " between angle brackets.
pub open spec fn args_text(args: Seq<GenericV>) -> Seq<char>
    decreases args, 1int,
{
    if args.len() == 0 {
        Seq::empty()
    } else {
        "<"@ + args_join(args) + ">"@
    }
}

pub open spec fn args_join(args: Seq<GenericV>) -> Seq<char>
    decreases args, 0int,
{
    if args.len() == 0 {
        Seq::empty()
    } else if args.len() == 1 {
        gv_text(args[0])
    } else {
        args_join(args.subrange(0, args.len() - 1)) + ", "@ + gv_text(args[args.len() - 1])
    }
}

pub open spec fn gv_text(g: GenericV) -> Seq<char>
    decreases g, 0int,
{
    match g {
        GenericV::TypeArg(t) => tv_text(t),
        GenericV::LifetimeArg(n) => "'"@ + n,
    }
}

// ----------------------------------------------------------------------------
// Cloning the tree.
// ----------------------------------------------------------------------------

pub(crate) fn clone_type(t: &Type) -> (r: Type)
    ensures
        type_view(r) == type_view(*t),
    decreases *t, 0int,
{
    Type { name: t.name.clone(), types: clone_generics(&t.types) }
}

pub(crate) fn clone_generics(g: &Generics) -> (r: Generics)
    ensures
        generics_view(r) == generics_view(*g),
    decreases *g, 1int,
{
    let n = g.0.len();
    let mut v: Vec<Generic> = Vec::new();
    let mut i: usize = 0;
    while i < n
        invariant
            n == g.0.len(),
            0 <= i <= n,
            v@.len() == i,
            forall|j: int| 0 <= j < i ==> generic_view(#[trigger] v@[j]) == generic_view(g.0@[j]),
        decreases n - i,
    {
        proof {
            assert(decreases_to!(*g => g.0@[i as int]));
        }
        let c = clone_generic(&g.0[i]);
        v.push(c);
        i += 1;
    }
    let out = Generics(v);
    proof {
        lemma_gens_view_len(v@);
        lemma_gens_view_len(g.0@);
        assert(generics_view(out) =~= generics_view(*g));
    }
    out
}

pub(crate) fn clone_generic(x: &Generic) -> (r: Generic)
    ensures
        generic_view(r) == generic_view(*x),
    decreases *x, 0int,
{
    match x {
        Generic::Type(t) => Generic::Type(clone_type(t)),
        Generic::Lifetime(l) => Generic::Lifetime(Lifetime(l.0.clone())),
    }
}

impl Clone for Generics {
    fn clone(&self) -> (r: Self)
        ensures
            generics_view(r) == generics_view(*self),
    {
        clone_generics(self)
    }
}

impl Clone for Generic {
    fn clone(&self) -> (r: Self)
        ensures
            generic_view(r) == generic_view(*self),
    {
        clone_generic(self)
    }
}

impl Clone for Lifetime {
    fn clone(&self) -> (r: Self)
        ensures
            r == *self,
    {
        Lifetime(self.0.clone())
    }
}

// ----------------------------------------------------------------------------
// Splitting an argument list at top-level commas.
// ----------------------------------------------------------------------------

/// How one character changes the bracket-nesting depth.
pub open spec fn depth_change(c: char) -> int {
    if c == '<' {
        1
    } else if c == '>' {
        -1
    } else {
        0
    }
}

/// The index of the first comma at bracket-nesting depth zero when scanning
/// starts at depth `depth`, or `s.len()` if there is none.
pub open spec fn tci(s: Seq<char>, depth: int) -> int
    decreases s.len(),
{
    if s.len() == 0 {
        0
    } else if s[0] == ',' && depth == 0 {
        0
    } else {
        1 + tci(s.drop_first(), depth + depth_change(s[0]))
    }
}

/// The index of the first top-level comma of `s`, or `s.len()` if none.
pub open spec fn top_comma_index(s: Seq<char>) -> int {
    tci(s, 0)
}

pub proof fn lemma_tci_bounds(s: Seq<char>, depth: int)
    ensures
        0 <= tci(s, depth) <= s.len(),
        tci(s, depth) < s.len() ==> s[tci(s, depth)] == ',',
    decreases s.len(),
{
    if s.len() > 0 && !(s[0] == ',' && depth == 0) {
        lemma_tci_bounds(s.drop_first(), depth + depth_change(s[0]));
        let i: int = tci(s, depth);
        if i < s.len() {
            assert(s[i] == s.drop_first()[i - 1]);
        }
    }
}

// ----------------------------------------------------------------------------
// The grammar, as functions on character sequences.
//
// A type expression is a name, optionally followed by a bracketed argument
// list; the argument list splits at top-level commas; each argument is trimmed
// and read as a lifetime when it starts with an apostrophe, as a nested type
// expression otherwise.
// ----------------------------------------------------------------------------

pub open spec fn spec_parse_type(s: Seq<char>) -> Result<TypeV, ParseError>
    decreases s.len(), 0int,
{
    let i = char_index(s, '<');
    if 0 < i < s.len() {
        match type_name_parse(s.take(i)) {
            Err(e) => Err(e),
            Ok(n) => match spec_parse_generics(s.skip(i)) {
                Err(e) => Err(e),
                Ok(args) => Ok(TypeV { name: n, args }),
            },
        }
    } else if i == 0 {
        // the input is empty or starts with '<': the name part is empty
        Err(ParseError::EmptyInput)
    } else {
        match type_name_parse(s) {
            Err(e) => Err(e),
            Ok(n) => Ok(TypeV { name: n, args: Seq::empty() }),
        }
    }
}

pub open spec fn spec_parse_generics(g: Seq<char>) -> Result<Seq<GenericV>, ParseError>
    decreases g.len(), 3int,
{
    if g.len() == 0 {
        Ok(Seq::empty())
    } else if g[0] != '<' || g[g.len() - 1] != '>' {
        Err(ParseError::MalformedBrackets)
    } else if trim_spec(g.subrange(1, g.len() - 1)).len() == 0 {
        Err(ParseError::EmptyArgumentList)
    } else {
        spec_parse_arg_list(g.subrange(1, g.len() - 1))
    }
}

pub open spec fn spec_parse_arg_list(s: Seq<char>) -> Result<Seq<GenericV>, ParseError>
    decreases s.len(), 2int,
{
    let i = top_comma_index(s);
    if 0 <= i < s.len() {
        match spec_parse_generic(s.take(i)) {
            Err(_) => Err(ParseError::UnparsableArgument),
            Ok(a) => match spec_parse_arg_list(s.skip(i + 1)) {
                Err(e) => Err(e),
                Ok(rest) => Ok(seq![a] + rest),
            },
        }
    } else {
        match spec_parse_generic(s) {
            Err(_) => Err(ParseError::UnparsableArgument),
            Ok(a) => Ok(seq![a]),
        }
    }
}

pub open spec fn spec_parse_generic(s: Seq<char>) -> Result<GenericV, ParseError>
    decreases s.len(), 1int,
    via spec_parse_generic_decreases
{
    let t = trim_spec(s);
    if t.len() > 0 && t[0] == '\'' {
        Ok(GenericV::LifetimeArg(t.drop_first()))
    } else {
        match spec_parse_type(t) {
            Err(e) => Err(e),
            Ok(tv) => Ok(GenericV::TypeArg(tv)),
        }
    }
}

#[via_fn]
proof fn spec_parse_generic_decreases(s: Seq<char>) {
    lemma_trim_lo(s);
    lemma_trim_hi(s);
}

// ----------------------------------------------------------------------------
// How parse results of the executable functions relate to the grammar.
// ----------------------------------------------------------------------------

pub open spec fn type_parse_matches(s: Seq<char>, r: Result<Type, ParseError>) -> bool {
    match r {
        Ok(t) => spec_parse_type(s) == Ok::<TypeV, ParseError>(type_view(t)),
        Err(e) => spec_parse_type(s) == Err::<TypeV, ParseError>(e),
    }
}

pub open spec fn generics_parse_matches(s: Seq<char>, r: Result<Generics, ParseError>) -> bool {
    match r {
        Ok(g) => spec_parse_generics(s) == Ok::<Seq<GenericV>, ParseError>(generics_view(g)),
        Err(e) => spec_parse_generics(s) == Err::<Seq<GenericV>, ParseError>(e),
    }
}

pub open spec fn generic_parse_matches(s: Seq<char>, r: Result<Generic, ParseError>) -> bool {
    match r {
        Ok(x) => spec_parse_generic(s) == Ok::<GenericV, ParseError>(generic_view(x)),
        Err(e) => spec_parse_generic(s) == Err::<GenericV, ParseError>(e),
    }
}

// ----------------------------------------------------------------------------
// The executable parser.
// ----------------------------------------------------------------------------

/// Find the first comma of `s` that sits outside any angle brackets; returns
/// the length of `s` if there is none.
pub fn find_top_comma(s: &str) -> (r: usize)
    ensures
        r as int == top_comma_index(s@),
{
    let n = s.unicode_len();
    let mut i: usize = 0;
    let mut opens: usize = 0;
    let mut closes: usize = 0;
    proof {
        assert(s@.skip(0) =~= s@);
    }
    while i < n
        invariant
            n == s@.len(),
            0 <= i <= n,
            opens <= i,
            closes <= i,
            top_comma_index(s@) == i + tci(s@.skip(i as int), opens as int - closes as int),
        decreases n - i,
    {
        let c = s.get_char(i);
        let ghost rest = s@.skip(i as int);
        proof {
            assert(rest.len() == n - i);
            assert(rest[0] == s@[i as int]);
        }
        if c == ',' && opens == closes {
            proof {
                assert(tci(rest, opens as int - closes as int) == 0);
            }
            return i;
        }
        proof {
            assert(rest.drop_first() =~= s@.skip(i as int + 1));
            assert(tci(rest, opens as int - closes as int) == 1 + tci(
                s@.skip(i as int + 1),
                opens as int - closes as int + depth_change(c),
            ));
        }
        if c == '<' {
            opens += 1;
        } else if c == '>' {
            closes += 1;
        }
        i += 1;
    }
    proof {
        assert(s@.skip(n as int) =~= Seq::<char>::empty());
    }
    n
}

/// Parse a textual type expression.
pub fn parse_type_str(s: &str) -> (r: Result<Type, ParseError>)
    ensures
        type_parse_matches(s@, r),
    decreases s@.len(), 0int,
{
    let n = s.unicode_len();
    let i = find_char(s, '<');
    proof {
        lemma_char_index(s@, '<');
    }
    if 0 < i && i < n {
        let name_part = s.substring_char(0, i);
        proof {
            assert(name_part@ =~= s@.take(i as int));
        }
        match TypeName::from_str(name_part) {
            Err(e) => Err(e),
            Ok(name) => {
                let rest = s.substring_char(i, n);
                proof {
                    assert(rest@ =~= s@.skip(i as int));
                }
                match parse_generics_str(rest) {
                    Err(e) => Err(e),
                    Ok(types) => Ok(Type { name, types }),
                }
            },
        }
    } else if i == 0 {
        Err(ParseError::EmptyInput)
    } else {
        match TypeName::from_str(s) {
            Err(e) => Err(e),
            Ok(name) => {
                let t = Type { name, types: Generics(Vec::new()) };
                proof {
                    assert(generics_view(t.types) =~= Seq::<GenericV>::empty());
                }
                Ok(t)
            },
        }
    }
}

/// Parse a bracketed generic argument list; the empty input denotes the
/// absence of an argument list.
pub fn parse_generics_str(s: &str) -> (r: Result<Generics, ParseError>)
    ensures
        generics_parse_matches(s@, r),
    decreases s@.len(), 3int,
{
    let n = s.unicode_len();
    if n == 0 {
        let g = Generics(Vec::new());
        proof {
            assert(generics_view(g) =~= Seq::<GenericV>::empty());
        }
        return Ok(g);
    }
    if s.get_char(0) != '<' || s.get_char(n - 1) != '>' {
        return Err(ParseError::MalformedBrackets);
    }
    let body = s.substring_char(1, n - 1);
    proof {
        assert(body@ =~= s@.subrange(1, n - 1));
    }
    let trimmed = trim_str(body);
    if trimmed.unicode_len() == 0 {
        return Err(ParseError::EmptyArgumentList);
    }
    match parse_arg_list_str(body) {
        Err(e) => Err(e),
        Ok(v) => Ok(Generics(v)),
    }
}

/// Parse a comma-separated argument list, splitting only at top-level commas.
fn parse_arg_list_str(s: &str) -> (r: Result<Vec<Generic>, ParseError>)
    ensures
        match r {
            Ok(v) => spec_parse_arg_list(s@) == Ok::<Seq<GenericV>, ParseError>(gens_view_rec(v@)),
            Err(e) => spec_parse_arg_list(s@) == Err::<Seq<GenericV>, ParseError>(e),
        },
    decreases s@.len(), 2int,
{
    let n = s.unicode_len();
    let i = find_top_comma(s);
    proof {
        lemma_tci_bounds(s@, 0);
    }
    if i < n {
        let seg = s.substring_char(0, i);
        proof {
            assert(seg@ =~= s@.take(i as int));
        }
        match parse_generic_str(seg) {
            Err(_) => Err(ParseError::UnparsableArgument),
            Ok(a) => {
                let rest = s.substring_char(i + 1, n);
                proof {
                    assert(rest@ =~= s@.skip(i as int + 1));
                }
                match parse_arg_list_str(rest) {
                    Err(e) => Err(e),
                    Ok(mut v) => {
                        let ghost tail = v@;
                        v.insert(0, a);
                        proof {
                            assert(v@ =~= seq![a] + tail);
                            lemma_gens_view_cons(a, tail);
                        }
                        Ok(v)
                    },
                }
            },
        }
    } else {
        match parse_generic_str(s) {
            Err(_) => Err(ParseError::UnparsableArgument),
            Ok(a) => {
                let mut v: Vec<Generic> = Vec::new();
                v.push(a);
                proof {
                    assert(v@ =~= seq![a]);
                    assert(v@.subrange(0, 0) =~= Seq::<Generic>::empty());
                    assert(gens_view_rec(Seq::<Generic>::empty()) =~= Seq::<GenericV>::empty());
                    assert(gens_view_rec(v@) =~= seq![generic_view(a)]);
                }
                Ok(v)
            },
        }
    }
}

/// Parse one generic argument: trimmed, then read as a lifetime when it starts
/// with an apostrophe, as a nested type expression otherwise.
pub fn parse_generic_str(s: &str) -> (r: Result<Generic, ParseError>)
    ensures
        generic_parse_matches(s@, r),
    decreases s@.len(), 1int,
{
    let t = trim_str(s);
    proof {
        lemma_trim_lo(s@);
        lemma_trim_hi(s@);
    }
    let tn = t.unicode_len();
    if tn > 0 && t.get_char(0) == '\'' {
        let rest = t.substring_char(1, tn);
        proof {
            assert(rest@ =~= t@.drop_first());
        }
        Ok(Generic::Lifetime(Lifetime(rest.to_owned())))
    } else {
        match parse_type_str(t) {
            Err(e) => Err(e),
            Ok(ty) => Ok(Generic::Type(ty)),
        }
    }
}

/// When an element is put at the front of a list, its view is put at the
/// front of the list's view.
proof fn lemma_gens_view_cons(a: Generic, t: Seq<Generic>)
    ensures
        gens_view_rec(seq![a] + t) == seq![generic_view(a)] + gens_view_rec(t),
    decreases t.len(),
{
    let s = seq![a] + t;
    if t.len() == 0 {
        assert(s.subrange(0, 0) =~= Seq::<Generic>::empty());
        assert(gens_view_rec(Seq::<Generic>::empty()) =~= Seq::<GenericV>::empty());
        assert(s[0] == a);
        assert(gens_view_rec(s) =~= seq![generic_view(a)] + gens_view_rec(t));
    } else {
        let sp = s.subrange(0, s.len() - 1);
        let tp = t.subrange(0, t.len() - 1);
        lemma_gens_view_cons(a, tp);
        assert(sp =~= seq![a] + tp);
        assert(s[s.len() - 1] == t[t.len() - 1]);
        assert(gens_view_rec(s) == gens_view_rec(sp).push(generic_view(s[s.len() - 1])));
        assert(gens_view_rec(t) == gens_view_rec(tp).push(generic_view(t[t.len() - 1])));
        assert(gens_view_rec(s) =~= seq![generic_view(a)] + gens_view_rec(t));
    }
}

// ----------------------------------------------------------------------------
// The executable renderer.
// ----------------------------------------------------------------------------

/// Render a type expression: its name, then its argument list if any.
pub fn render_type(t: &Type) -> (r: String)
    ensures
        r@ == tv_text(type_view(*t)),
    decreases *t, 0int,
{
    let mut out = t.name.as_str().to_owned();
    let args = render_generics(&t.types);
    out.append(args.as_str());
    out
}

/// Render an argument list: nothing when empty, the arguments joined by ", "
/// between angle brackets otherwise.
pub fn render_generics(g: &Generics) -> (r: String)
    ensures
        r@ == args_text(generics_view(*g)),
    decreases *g, 1int,
{
    let ghost views = generics_view(*g);
    proof {
        lemma_gens_view_len(g.0@);
    }
    let n = g.0.len();
    if n == 0 {
        let out = String::new();
        proof {
            assert(views.len() == 0);
            assert(out@ =~= args_text(views));
        }
        return out;
    }
    let mut out = String::from_str("<");
    let mut i: usize = 0;
    proof {
        assert(views.take(0) =~= Seq::<GenericV>::empty());
        assert(out@ =~= "<"@ + args_join(views.take(0)));
    }
    while i < n
        invariant
            n == g.0.len(),
            n > 0,
            views == generics_view(*g),
            views.len() == n,
            forall|j: int| 0 <= j < n ==> views[j] == generic_view(g.0@[j]),
            0 <= i <= n,
            out@ == "<"@ + args_join(views.take(i as int)),
        decreases n - i,
    {
        proof {
            assert(decreases_to!(*g => g.0@[i as int]));
        }
        if i != 0 {
            out.append(", ");
        }
        let item = render_generic(&g.0[i]);
        out.append(item.as_str());
        proof {
            let tk = views.take(i as int + 1);
            assert(tk.subrange(0, tk.len() - 1) =~= views.take(i as int));
            assert(tk[tk.len() - 1] == views[i as int]);
            if i == 0 {
                assert(tk.len() == 1);
                assert(args_join(tk) == gv_text(tk[0]));
                assert(out@ =~= "<"@ + args_join(tk));
            } else {
                assert(tk.len() >= 2);
                assert(args_join(tk) == args_join(views.take(i as int)) + ", "@ + gv_text(
                    views[i as int],
                ));
                assert(out@ =~= "<"@ + args_join(tk));
            }
        }
        i += 1;
    }
    out.append(">");
    proof {
        assert(views.take(n as int) =~= views);
        assert(out@ =~= args_text(views));
    }
    out
}

/// Render one generic argument.
pub fn render_generic(x: &Generic) -> (r: String)
    ensures
        r@ == gv_text(generic_view(*x)),
    decreases *x, 0int,
{
    match x {
        Generic::Type(t) => render_type(t),
        Generic::Lifetime(l) => {
            let mut out = String::from_str("'");
            out.append(l.0.as_str());
            out
        },
    }
}

// ----------------------------------------------------------------------------
// The round-trip law: rendering, then parsing, restores the expression.
// ----------------------------------------------------------------------------

/// A name that can stand in rendered text and be read back: non-empty, not
/// opening like a lifetime, and free of the delimiter characters and
/// whitespace that the grammar gives meaning to.
pub open spec fn safe_name(n: Seq<char>) -> bool {
    &&& n.len() > 0
    &&& n[0] != '\''
    &&& forall|i: int|
        0 <= i < n.len() ==> #[trigger] n[i] != '<' && n[i] != '>' && n[i] != ','
            && !is_space_char(n[i])
}

/// A lifetime name that can be read back: free of delimiters and whitespace.
pub open spec fn safe_lifetime(n: Seq<char>) -> bool {
    forall|i: int|
        0 <= i < n.len() ==> #[trigger] n[i] != '<' && n[i] != '>' && n[i] != ','
            && !is_space_char(n[i])
}

/// Every name in the tree is safe for rendering and re-parsing.
pub open spec fn render_safe(tv: TypeV) -> bool
    decreases tv, 1int,
{
    safe_name(tv.name) && render_safe_args(tv.args)
}

pub open spec fn render_safe_args(args: Seq<GenericV>) -> bool
    decreases args, 2int,
{
    forall|i: int| 0 <= i < args.len() ==> render_safe_gv(#[trigger] args[i])
}

pub open spec fn render_safe_gv(g: GenericV) -> bool
    decreases g, 0int,
{
    match g {
        GenericV::TypeArg(t) => render_safe(t),
        GenericV::LifetimeArg(n) => safe_lifetime(n),
    }
}

/// Scanning passes over characters that are neither delimiters nor commas
/// without stopping or changing depth.
proof fn lemma_skip_plain(n: Seq<char>, rest: Seq<char>, d: int)
    requires
        forall|i: int| 0 <= i < n.len() ==> #[trigger] n[i] != '<' && n[i] != '>' && n[i] != ',',
    ensures
        tci(n + rest, d) == n.len() + tci(rest, d),
    decreases n.len(),
{
    if n.len() == 0 {
        assert(n + rest =~= rest);
    } else {
        let s = n + rest;
        assert(s[0] == n[0]);
        assert(depth_change(s[0]) == 0);
        assert(s.drop_first() =~= n.drop_first() + rest);
        assert(forall|i: int|
            0 <= i < n.drop_first().len() ==> #[trigger] n.drop_first()[i] == n[i + 1]);
        lemma_skip_plain(n.drop_first(), rest, d);
    }
}

/// Scanning passes over the whole text of a safe type expression, leaving the
/// depth as it was: its brackets are balanced and its commas are nested.
proof fn lemma_skip_tv(tv: TypeV, rest: Seq<char>, d: int)
    requires
        render_safe(tv),
        d >= 0,
    ensures
        tci(tv_text(tv) + rest, d) == tv_text(tv).len() + tci(rest, d),
    decreases tv, 2int,
{
    reveal_strlit("<");
    reveal_strlit(">");
    if tv.args.len() == 0 {
        assert(tv_text(tv) =~= tv.name);
        lemma_skip_plain(tv.name, rest, d);
    } else {
        let j = args_join(tv.args);
        let tail = "<"@ + j + ">"@ + rest;
        assert(tv_text(tv) + rest =~= tv.name + tail);
        lemma_skip_plain(tv.name, tail, d);
        // step over the opening bracket
        assert(tail[0] == '<');
        assert(depth_change('<') == 1);
        assert(tail.drop_first() =~= j + (">"@ + rest));
        assert(tci(tail, d) == 1 + tci(j + (">"@ + rest), d + 1));
        lemma_skip_join(tv.args, ">"@ + rest, d + 1);
        // step over the closing bracket
        let cl = ">"@ + rest;
        assert(cl[0] == '>');
        assert(depth_change('>') == -1);
        assert(cl.drop_first() =~= rest);
        assert(tci(cl, d + 1) == 1 + tci(rest, d));
        assert(tv_text(tv).len() == tv.name.len() + 1 + j.len() + 1);
    }
}

/// Scanning passes over a joined argument list when it sits inside brackets.
proof fn lemma_skip_join(args: Seq<GenericV>, rest: Seq<char>, d: int)
    requires
        render_safe_args(args),
        args.len() >= 1,
        d >= 1,
    ensures
        tci(args_join(args) + rest, d) == args_join(args).len() + tci(rest, d),
    decreases args, 1int,
{
    reveal_strlit(", ");
    reveal_strlit(" ");
    if args.len() == 1 {
        assert(args_join(args) == gv_text(args[0]));
        lemma_skip_gv(args[0], rest, d);
    } else {
        let front = args.subrange(0, args.len() - 1);
        let last = args[args.len() - 1];
        assert(render_safe_args(front)) by {
            assert(forall|i: int| 0 <= i < front.len() ==> front[i] == args[i]);
        }
        assert(args_join(args) == args_join(front) + ", "@ + gv_text(last));
        let mid = ", "@ + gv_text(last) + rest;
        assert(args_join(args) + rest =~= args_join(front) + mid);
        lemma_skip_join(front, mid, d);
        // the separating comma sits at depth at least one, and is passed over
        assert(mid[0] == ',');
        assert(depth_change(',') == 0);
        assert(mid.drop_first() =~= " "@ + (gv_text(last) + rest));
        assert(tci(mid, d) == 1 + tci(" "@ + (gv_text(last) + rest), d));
        let sp = " "@ + (gv_text(last) + rest);
        assert(sp[0] == ' ');
        assert(depth_change(' ') == 0);
        assert(sp.drop_first() =~= gv_text(last) + rest);
        assert(tci(sp, d) == 1 + tci(gv_text(last) + rest, d));
        lemma_skip_gv(last, rest, d);
    }
}

/// Scanning passes over the text of one safe argument.
proof fn lemma_skip_gv(g: GenericV, rest: Seq<char>, d: int)
    requires
        render_safe_gv(g),
        d >= 0,
    ensures
        tci(gv_text(g) + rest, d) == gv_text(g).len() + tci(rest, d),
    decreases g, 0int,
{
    match g {
        GenericV::TypeArg(t) => {
            lemma_skip_tv(t, rest, d);
        },
        GenericV::LifetimeArg(n) => {
            reveal_strlit("'");
            assert(gv_text(g) =~= "'"@ + n);
            assert(forall|i: int|
                0 <= i < ("'"@ + n).len() ==> #[trigger] ("'"@ + n)[i] != '<' && ("'"@ + n)[i]
                    != '>' && ("'"@ + n)[i] != ',');
            lemma_skip_plain("'"@ + n, rest, d);
        },
    }
}

/// The first and last characters of a safe type expression's text: it is
/// non-empty, starts with its name, and neither end is whitespace.
proof fn lemma_tv_text_shape(tv: TypeV)
    requires
        render_safe(tv),
    ensures
        tv_text(tv).len() > 0,
        tv_text(tv)[0] == tv.name[0],
        !is_space_char(tv_text(tv)[0]),
        !is_space_char(tv_text(tv).last()),
{
    reveal_strlit(">");
    if tv.args.len() == 0 {
        assert(tv_text(tv) =~= tv.name);
    } else {
        assert(tv_text(tv).last() == '>');
    }
}

/// The ends of one safe argument's text are not whitespace, and only a
/// lifetime's text opens with an apostrophe.
proof fn lemma_gv_text_shape(g: GenericV)
    requires
        render_safe_gv(g),
    ensures
        gv_text(g).len() > 0,
        !is_space_char(gv_text(g)[0]),
        !is_space_char(gv_text(g).last()),
        g is LifetimeArg <==> gv_text(g)[0] == '\'',
{
    reveal_strlit("'");
    match g {
        GenericV::TypeArg(t) => {
            lemma_tv_text_shape(t);
        },
        GenericV::LifetimeArg(n) => {
            assert(gv_text(g)[0] == '\'');
            if n.len() > 0 {
                assert(gv_text(g).last() == n.last());
            } else {
                assert(gv_text(g).last() == '\'');
            }
        },
    }
}

/// Trimming text that starts with whitespace padding and then holds content
/// with non-whitespace ends removes exactly the padding.
proof fn lemma_trim_padded(pad: Seq<char>, j: Seq<char>)
    requires
        forall|i: int| 0 <= i < pad.len() ==> is_space_char(#[trigger] pad[i]),
        j.len() > 0,
        !is_space_char(j[0]),
        !is_space_char(j.last()),
    ensures
        trim_spec(pad + j) == j,
{
    let s = pad + j;
    lemma_trim_lo(s);
    lemma_trim_hi(s);
    // the first non-whitespace character sits exactly past the padding
    assert(s[pad.len() as int] == j[0]);
    if trim_lo(s) < pad.len() {
        assert(is_space_char(s[trim_lo(s)]));
    }
    if trim_lo(s) > pad.len() {
        assert(is_space_char(s[pad.len() as int]));
    }
    assert(trim_lo(s) == pad.len());
    // the last character is not whitespace, so nothing is trimmed at the end
    assert(s.last() == j.last());
    if trim_hi(s) < s.len() {
        assert(is_space_char(s[s.len() - 1]));
    }
    assert(trim_hi(s) == s.len());
    assert(s.subrange(pad.len() as int, s.len() as int) =~= j);
}

/// Parsing the rendered text of a safe type expression restores it.
proof fn lemma_parse_tv(tv: TypeV)
    requires
        render_safe(tv),
    ensures
        spec_parse_type(tv_text(tv)) == Ok::<TypeV, ParseError>(tv),
    decreases tv, 2int,
{
    reveal_strlit("<");
    reveal_strlit(">");
    let s = tv_text(tv);
    lemma_char_index(s, '<');
    if tv.args.len() == 0 {
        assert(s =~= tv.name);
        assert(forall|i: int| 0 <= i < s.len() ==> s[i] != '<');
        assert(char_index(s, '<') == s.len());
        assert(!crate::text::has_char(s, ' ')) by {
            assert(forall|i: int| 0 <= i < s.len() ==> s[i] != ' ');
        }
        assert(spec_parse_type(s) == Ok::<TypeV, ParseError>(TypeV { name: s, args: Seq::empty() }));
        assert(TypeV { name: s, args: Seq::empty() } == tv) by {
            assert(tv.args =~= Seq::<GenericV>::empty());
        }
    } else {
        let j = args_join(tv.args);
        let g = "<"@ + j + ">"@;
        assert(s =~= tv.name + g);
        // the first opening bracket is the one after the name
        let i = char_index(s, '<');
        assert(forall|k: int| 0 <= k < tv.name.len() ==> s[k] == tv.name[k] && s[k] != '<');
        assert(s[tv.name.len() as int] == '<');
        assert(i == tv.name.len()) by {
            if i < tv.name.len() {
                assert(s[i] == '<');
            }
            if i > tv.name.len() {
                assert(s[tv.name.len() as int] != '<');
            }
        }
        assert(0 < i < s.len());
        assert(s.take(i) =~= tv.name);
        assert(type_name_parse(s.take(i)) == Ok::<Seq<char>, ParseError>(tv.name)) by {
            assert(forall|k: int| 0 <= k < tv.name.len() ==> tv.name[k] != ' ');
        }
        assert(s.skip(i) =~= g);
        // the bracketed part parses back to the argument list
        assert(g[0] == '<');
        assert(g[g.len() - 1] == '>');
        let body = g.subrange(1, g.len() - 1);
        assert(body =~= j);
        lemma_parse_args(tv.args, Seq::empty());
        assert(Seq::<char>::empty() + j =~= j);
        lemma_gv_text_shape(tv.args[0]);
        assert(j.len() > 0 && !is_space_char(j[0]) && !is_space_char(j.last())) by {
            lemma_join_shape(tv.args);
        }
        lemma_trim_padded(Seq::empty(), j);
        assert(trim_spec(body).len() > 0);
        assert(spec_parse_generics(g) == Ok::<Seq<GenericV>, ParseError>(tv.args));
        assert(spec_parse_type(s) == Ok::<TypeV, ParseError>(TypeV { name: tv.name, args: tv.args }));
        assert(TypeV { name: tv.name, args: tv.args } == tv);
    }
}

/// The joined text of a safe argument list is non-empty and has
/// non-whitespace ends.
proof fn lemma_join_shape(args: Seq<GenericV>)
    requires
        render_safe_args(args),
        args.len() >= 1,
    ensures
        args_join(args).len() > 0,
        !is_space_char(args_join(args)[0]),
        !is_space_char(args_join(args).last()),
        args_join(args)[0] == gv_text(args[0])[0],
    decreases args.len(),
{
    if args.len() == 1 {
        lemma_gv_text_shape(args[0]);
    } else {
        let front = args.subrange(0, args.len() - 1);
        assert(render_safe_args(front)) by {
            assert(forall|i: int| 0 <= i < front.len() ==> front[i] == args[i]);
        }
        lemma_join_shape(front);
        lemma_gv_text_shape(args[args.len() - 1]);
        let j = args_join(args);
        assert(j == args_join(front) + ", "@ + gv_text(args[args.len() - 1]));
        assert(j[0] == args_join(front)[0]);
        assert(j.last() == gv_text(args[args.len() - 1]).last());
        assert(front[0] == args[0]);
    }
}

/// Parsing a whitespace-padded joined argument list restores the arguments.
proof fn lemma_parse_args(args: Seq<GenericV>, pad: Seq<char>)
    requires
        render_safe_args(args),
        args.len() >= 1,
        forall|i: int| 0 <= i < pad.len() ==> is_space_char(#[trigger] pad[i]) && pad[i] != ',',
    ensures
        spec_parse_arg_list(pad + args_join(args)) == Ok::<Seq<GenericV>, ParseError>(args),
    decreases args, 3int,
{
    let j = args_join(args);
    let s = pad + j;
    assert(forall|i: int| 0 <= i < pad.len() ==> pad[i] != '<' && pad[i] != '>' && pad[i] != ',');
    reveal_strlit(", ");
    reveal_strlit(" ");
    if args.len() == 1 {
        // no top-level comma: the whole input is one argument
        lemma_skip_plain(pad, j, 0);
        lemma_skip_gv(args[0], Seq::empty(), 0);
        assert(j + Seq::<char>::empty() =~= j);
        assert(tci(Seq::<char>::empty(), 0) == 0);
        assert(top_comma_index(s) == s.len());
        lemma_parse_gv(args[0], pad);
        assert(spec_parse_arg_list(s) == Ok::<Seq<GenericV>, ParseError>(seq![args[0]]));
        assert(seq![args[0]] =~= args);
    } else {
        // peel the first argument off the front
        lemma_join_cons(args);
        let g0 = gv_text(args[0]);
        let restargs = args.drop_first();
        assert(render_safe_args(restargs)) by {
            assert(forall|k: int| 0 <= k < restargs.len() ==> restargs[k] == args[k + 1]);
        }
        assert(j == g0 + ", "@ + args_join(restargs));
        // the first top-level comma is the one right after the first argument
        lemma_skip_plain(pad, j, 0);
        let after = ", "@ + args_join(restargs);
        assert(j =~= g0 + after);
        lemma_skip_gv(args[0], after, 0);
        assert(after[0] == ',');
        assert(tci(after, 0) == 0);
        let i = top_comma_index(s);
        assert(i == pad.len() + g0.len());
        assert(0 <= i < s.len()) by {
            assert(s.len() == pad.len() + g0.len() + 2 + args_join(restargs).len());
            lemma_join_shape(restargs);
        }
        // the segment before the comma is the first argument, padded
        assert(s.take(i) =~= pad + g0);
        lemma_parse_gv(args[0], pad);
        // what follows the comma is the rest of the list, padded by one space
        assert(s.skip(i + 1) =~= " "@ + args_join(restargs));
        assert(forall|k: int|
            0 <= k < (" "@).len() ==> is_space_char(#[trigger] (" "@)[k]) && (" "@)[k] != ',');
        lemma_parse_args(restargs, " "@);
        assert(spec_parse_arg_list(s) == Ok::<Seq<GenericV>, ParseError>(seq![args[0]] + restargs));
        assert(seq![args[0]] + restargs =~= args);
    }
}


/// The joined text decomposes at the front as well as at the back.
proof fn lemma_join_cons(args: Seq<GenericV>)
    requires
        args.len() >= 2,
    ensures
        args_join(args) == gv_text(args[0]) + ", "@ + args_join(args.drop_first()),
    decreases args.len(),
{
    let rest = args.drop_first();
    if args.len() == 2 {
        assert(args.subrange(0, 1) =~= seq![args[0]]);
        assert(args_join(args.subrange(0, 1)) == gv_text(args[0]));
        assert(rest =~= seq![args[1]]);
        assert(args_join(rest) == gv_text(args[1]));
    } else {
        let front = args.subrange(0, args.len() - 1);
        lemma_join_cons(front);
        assert(front.drop_first() =~= rest.subrange(0, rest.len() - 1));
        assert(front[0] == args[0]);
        assert(args_join(args) == args_join(front) + ", "@ + gv_text(args[args.len() - 1]));
        assert(rest[rest.len() - 1] == args[args.len() - 1]);
        assert(args_join(rest) == args_join(rest.subrange(0, rest.len() - 1)) + ", "@ + gv_text(
            rest[rest.len() - 1],
        ));
        assert(args_join(args) =~= gv_text(args[0]) + ", "@ + args_join(rest));
    }
}

/// Parsing the padded text of one safe argument restores it.
proof fn lemma_parse_gv(g: GenericV, pad: Seq<char>)
    requires
        render_safe_gv(g),
        forall|i: int| 0 <= i < pad.len() ==> is_space_char(#[trigger] pad[i]),
    ensures
        spec_parse_generic(pad + gv_text(g)) == Ok::<GenericV, ParseError>(g),
    decreases g, 1int,
{
    lemma_gv_text_shape(g);
    lemma_trim_padded(pad, gv_text(g));
    let t = trim_spec(pad + gv_text(g));
    assert(t == gv_text(g));
    match g {
        GenericV::TypeArg(ty) => {
            lemma_tv_text_shape(ty);
            assert(t[0] != '\'');
            lemma_parse_tv(ty);
        },
        GenericV::LifetimeArg(n) => {
            reveal_strlit("'");
            assert(t[0] == '\'');
            assert(t.drop_first() =~= n);
        },
    }
}

/// Law: rendering any type expression whose names are safe and parsing the
/// text back yields exactly the same expression.
pub proof fn lemma_type_round_trip(tv: TypeV)
    requires
        render_safe(tv),
    ensures
        spec_parse_type(tv_text(tv)) == Ok::<TypeV, ParseError>(tv),
{
    lemma_parse_tv(tv);
}

/// Law, render-level corollary: rendering, re-parsing and rendering again
/// reproduces the text exactly.
pub proof fn lemma_render_parse_render(tv: TypeV)
    requires
        render_safe(tv),
    ensures
        spec_parse_type(tv_text(tv)) is Ok,
        tv_text(spec_parse_type(tv_text(tv))->Ok_0) == tv_text(tv),
{
    lemma_parse_tv(tv);
}

impl Generic {
    /// Parse one generic argument from text.
    pub fn from_str(s: &str) -> (r: Result<Generic, ParseError>)
        ensures
            generic_parse_matches(s@, r),
    {
        parse_generic_str(s)
    }
}

impl Lifetime {
    /// Parse a lifetime marker: an apostrophe followed by its name.
    pub fn from_str(s: &str) -> (r: Result<Lifetime, ParseError>)
        ensures
            s@.len() > 0 && s@[0] == '\'' ==> r is Ok && r->Ok_0@ == s@.drop_first(),
            !(s@.len() > 0 && s@[0] == '\'') ==> r == Err::<Lifetime, ParseError>(
                ParseError::UnparsableArgument,
            ),
    {
        let n = s.unicode_len();
        if n > 0 && s.get_char(0) == '\'' {
            let rest = s.substring_char(1, n);
            proof {
                assert(rest@ =~= s@.drop_first());
            }
            Ok(Lifetime(rest.to_owned()))
        } else {
            Err(ParseError::UnparsableArgument)
        }
    }
}

// ----------------------------------------------------------------------------
// The public face of argument lists.
// ----------------------------------------------------------------------------

impl Generics {
    /// No generic arguments at all.
    pub fn none() -> (r: Self)
        ensures
            generics_view(r) == Seq::<GenericV>::empty(),
    {
        let g = Generics(Vec::new());
        proof {
            assert(generics_view(g) =~= Seq::<GenericV>::empty());
        }
        g
    }

    /// A single argument, parsed from text.
    pub fn one(t: &str) -> (r: Self)
        requires
            spec_parse_generic(t@) is Ok,
        ensures
            generics_view(r) == seq![spec_parse_generic(t@)->Ok_0],
    {
        let mut g = Self::none();
        g.push(t);
        proof {
            assert(generics_view(g) =~= seq![spec_parse_generic(t@)->Ok_0]);
        }
        g
    }

    /// Two arguments, parsed from text.
    pub fn two(t: &str, u: &str) -> (r: Self)
        requires
            spec_parse_generic(t@) is Ok,
            spec_parse_generic(u@) is Ok,
        ensures
            generics_view(r) == seq![
                spec_parse_generic(t@)->Ok_0,
                spec_parse_generic(u@)->Ok_0,
            ],
    {
        let mut g = Self::one(t);
        g.push(u);
        proof {
            assert(generics_view(g) =~= seq![
                spec_parse_generic(t@)->Ok_0,
                spec_parse_generic(u@)->Ok_0,
            ]);
        }
        g
    }

    /// Append one argument, parsed from text.
    pub fn push(&mut self, gen: &str)
        requires
            spec_parse_generic(gen@) is Ok,
        ensures
            generics_view(*final(self)) == generics_view(*old(self)).push(
                spec_parse_generic(gen@)->Ok_0,
            ),
    {
        let a = match parse_generic_str(gen) {
            Ok(a) => a,
            Err(_) => vstd::pervasive::unreached(),
        };
        let ghost before = self.0@;
        self.0.push(a);
        proof {
            assert(self.0@.subrange(0, self.0@.len() - 1) =~= before);
            assert(generics_view(*self) =~= gens_view_rec(before).push(generic_view(a)));
        }
    }

    pub fn len(&self) -> (r: usize)
        ensures
            r as int == generics_view(*self).len(),
    {
        proof {
            lemma_gens_view_len(self.0@);
        }
        self.0.len()
    }

    pub fn is_empty(&self) -> (r: bool)
        ensures
            r == (generics_view(*self).len() == 0),
    {
        self.len() == 0
    }

    /// Parse a bracketed generic argument list from text; the empty input
    /// yields the empty list.
    pub fn from_str(s: &str) -> (r: Result<Generics, ParseError>)
        ensures
            generics_parse_matches(s@, r),
    {
        parse_generics_str(s)
    }

    /// The textual form of this argument list.
    pub fn render(&self) -> (r: String)
        ensures
            r@ == args_text(generics_view(*self)),
    {
        render_generics(self)
    }
}

} // verus!
