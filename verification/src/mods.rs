use vstd::prelude::*;
use vstd::string::StrSliceExecFns;
use vstd::string::StringExecFns;

use crate::formatting::indent_text;
use crate::formatting::is_snake;
use crate::formatting::Indent;
use crate::formatting::SnakeCase;
use crate::text::find_char;
use crate::text::lemma_char_index;
use crate::text::lines_of;
use crate::text::strip_cr;
use crate::visibility::vis_text;
use crate::visibility::Visibility;

verus! {

/// An emitted module: a snake-style name, a visibility, and a body of
/// already-rendered text that is indented one level when wrapped.
#[derive(Debug)]
pub struct Mod {
    pub name: SnakeCase,
    pub vis: Visibility,
    pub body: String,
}

/// Every line of the body, indented one level and ended by a line break.
pub open spec fn mod_body_text(ls: Seq<Seq<char>>) -> Seq<char>
    decreases ls.len(),
{
    if ls.len() == 0 {
        Seq::empty()
    } else {
        indent_text(1) + ls[0] + "\n"@ + mod_body_text(ls.drop_first())
    }
}

/// The full text of a module declaration wrapping its body.
pub open spec fn mod_text(m: Mod) -> Seq<char> {
    vis_text(m.vis) + "mod "@ + m.name@ + " {\n"@ + mod_body_text(lines_of(m.body@)) + "}\n"@
}

impl Mod {
    /// A public module with the given name and body.
    pub fn new(name: &str, body: String) -> (r: Self)
        requires
            is_snake(name@),
        ensures
            r.name@ == name@,
            r.vis == Visibility::Pub,
            r.body == body,
    {
        let name = match SnakeCase::from_str(name) {
            Ok(n) => n,
            Err(_) => vstd::pervasive::unreached(),
        };
        Mod { name, vis: Visibility::Pub, body }
    }

    pub fn with_visibility(self, vis: Visibility) -> (r: Self)
        ensures
            r == (Mod { vis, ..self }),
    {
        Mod { vis, ..self }
    }

    /// The module declaration as text.
    pub fn render(&self) -> (r: String)
        ensures
            r@ == mod_text(*self),
    {
        let mut out = self.vis.render().to_owned();
        out.append("mod ");
        out.append(self.name.as_str());
        out.append(" {\n");
        append_mod_lines(&mut out, self.body.as_str());
        out.append("}\n");
        proof {
            assert(out@ =~= mod_text(*self));
        }
        out
    }
}

/// Append every line of `s`, one level deeper, each ended by a line break.
fn append_mod_lines(out: &mut String, s: &str)
    ensures
        final(out)@ == old(out)@ + mod_body_text(lines_of(s@)),
    decreases s@.len(),
{
    let n = s.unicode_len();
    if n == 0 {
        proof {
            assert(out@ =~= old(out)@ + mod_body_text(lines_of(s@)));
        }
        return;
    }
    let b = find_char(s, '\n');
    proof {
        lemma_char_index(s@, '\n');
    }
    let ind = Indent::new(1).render();
    out.append(ind.as_str());
    if b < n {
        let line_end = if b > 0 && s.get_char(b - 1) == '\r' {
            b - 1
        } else {
            b
        };
        let line = s.substring_char(0, line_end);
        out.append(line);
        out.append("\n");
        proof {
            assert(line@ =~= strip_cr(s@.take(b as int)));
        }
        let rest = s.substring_char(b + 1, n);
        proof {
            assert(rest@ =~= s@.skip(b + 1));
        }
        append_mod_lines(out, rest);
        proof {
            let ls = lines_of(s@);
            assert(ls.drop_first() =~= lines_of(s@.skip(b + 1)));
            assert(ls[0] == strip_cr(s@.take(b as int)));
            assert(out@ =~= old(out)@ + mod_body_text(ls));
        }
    } else {
        out.append(s);
        out.append("\n");
        proof {
            let ls = lines_of(s@);
            assert(ls.drop_first() =~= Seq::<Seq<char>>::empty());
            assert(mod_body_text(ls.drop_first()) =~= Seq::<char>::empty());
            assert(out@ =~= old(out)@ + mod_body_text(ls));
        }
    }
}

} // verus!
