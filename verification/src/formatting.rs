use core::ops::Range;
use vstd::prelude::*;
use vstd::string::StrSliceExecFns;
use vstd::string::StringExecFns;

use crate::errors::ParseError;
use crate::text::contains_char;
use crate::text::has_char;
use crate::text::is_lower;
use crate::text::is_lower_char;
use crate::text::is_upper;
use crate::text::is_upper_char;
use crate::text::lower_char;
use crate::text::push_char;
use crate::text::to_lower_char;
use crate::text::to_upper_char;
use crate::text::upper_char;

verus! {

// ----------------------------------------------------------------------------
// Naming-convention predicates.
// ----------------------------------------------------------------------------

pub open spec fn has_upper(s: Seq<char>) -> bool {
    exists|i: int| 0 <= i < s.len() && is_upper_char(s[i])
}

pub open spec fn has_lower(s: Seq<char>) -> bool {
    exists|i: int| 0 <= i < s.len() && is_lower_char(s[i])
}

pub open spec fn has_double_underscore(s: Seq<char>) -> bool {
    exists|i: int| 0 <= i && i + 1 < s.len() && #[trigger] s[i] == '_' && #[trigger] s[i + 1] == '_'
}

/// Some character of `s` is not an underscore.
pub open spec fn has_non_separator(s: Seq<char>) -> bool {
    exists|i: int| 0 <= i < s.len() && s[i] != '_'
}

/// A Pascal-style identifier: non-empty, without spaces or underscores, and
/// not starting with a lowercase letter.
pub open spec fn is_camel(s: Seq<char>) -> bool {
    &&& !has_char(s, ' ')
    &&& !has_char(s, '_')
    &&& s.len() > 0
    &&& !is_lower_char(s[0])
}

/// A snake-style identifier: non-empty, all lowercase, without spaces or
/// adjacent underscores.
pub open spec fn is_snake(s: Seq<char>) -> bool {
    &&& s.len() > 0
    &&& !has_upper(s)
    &&& !has_char(s, ' ')
    &&& !has_double_underscore(s)
}

/// A shouting-snake-style identifier: all uppercase, without spaces or
/// adjacent underscores.  Emptiness is deliberately permitted here, unlike for
/// its two siblings, mirroring the asymmetry of the validation rules.
pub open spec fn is_shouting(s: Seq<char>) -> bool {
    &&& !has_lower(s)
    &&& !has_char(s, ' ')
    &&& !has_double_underscore(s)
}

// ----------------------------------------------------------------------------
// Scanning helpers for the validators.
// ----------------------------------------------------------------------------

pub fn str_has_upper(s: &str) -> (r: bool)
    ensures
        r == has_upper(s@),
{
    let n = s.unicode_len();
    let mut i: usize = 0;
    while i < n
        invariant
            n == s@.len(),
            0 <= i <= n,
            forall|j: int| 0 <= j < i ==> !is_upper_char(s@[j]),
        decreases n - i,
    {
        if is_upper(s.get_char(i)) {
            return true;
        }
        i += 1;
    }
    false
}

pub fn str_has_lower(s: &str) -> (r: bool)
    ensures
        r == has_lower(s@),
{
    let n = s.unicode_len();
    let mut i: usize = 0;
    while i < n
        invariant
            n == s@.len(),
            0 <= i <= n,
            forall|j: int| 0 <= j < i ==> !is_lower_char(s@[j]),
        decreases n - i,
    {
        if is_lower(s.get_char(i)) {
            return true;
        }
        i += 1;
    }
    false
}

pub fn str_has_double_underscore(s: &str) -> (r: bool)
    ensures
        r == has_double_underscore(s@),
{
    let n = s.unicode_len();
    if n < 2 {
        return false;
    }
    let mut i: usize = 1;
    while i < n
        invariant
            n == s@.len(),
            1 <= i <= n,
            forall|k: int| 0 <= k && k + 1 < i ==> !(#[trigger] s@[k] == '_' && s@[k + 1] == '_'),
        decreases n - i,
    {
        if s.get_char(i - 1) == '_' && s.get_char(i) == '_' {
            return true;
        }
        i += 1;
    }
    false
}

// ----------------------------------------------------------------------------
// The conversion algorithms, as functions on character sequences.
// ----------------------------------------------------------------------------

/// Pascal style to snake style: a separator is inserted before every uppercase
/// character except the first one, and every character is lowercased.
pub open spec fn camel_to_snake_seq(s: Seq<char>) -> Seq<char>
    decreases s.len(),
{
    if s.len() == 0 {
        Seq::empty()
    } else {
        let prev = camel_to_snake_seq(s.drop_last());
        let c = s.last();
        if is_upper_char(c) && s.len() > 1 {
            prev + seq!['_', to_lower_char(c)]
        } else {
            prev.push(to_lower_char(c))
        }
    }
}

/// Snake style to Pascal style: separators are dropped and the first character
/// of every separated word is uppercased.
pub open spec fn snake_to_camel_seq(s: Seq<char>) -> Seq<char>
    decreases s.len(),
{
    if s.len() == 0 {
        Seq::empty()
    } else {
        let prev = snake_to_camel_seq(s.drop_last());
        let c = s.last();
        if c == '_' {
            prev
        } else if s.len() == 1 || s[s.len() - 2] == '_' {
            prev.push(to_upper_char(c))
        } else {
            prev.push(c)
        }
    }
}

/// Every character lowercased, positions kept.
pub open spec fn lower_seq(s: Seq<char>) -> Seq<char> {
    s.map_values(|c: char| to_lower_char(c))
}

/// Every character uppercased, positions kept.
pub open spec fn upper_seq(s: Seq<char>) -> Seq<char> {
    s.map_values(|c: char| to_upper_char(c))
}

// ----------------------------------------------------------------------------
// The three identifier types.
// ----------------------------------------------------------------------------

/// A validated Pascal-style identifier.
#[derive(Debug, PartialEq, Eq, Hash)]
pub struct CamelCase(String);

/// A validated snake-style identifier.
#[derive(Debug, PartialEq, Eq, Hash)]
pub struct SnakeCase(String);

/// A validated shouting-snake-style identifier.
#[derive(Debug, PartialEq, Eq, Hash)]
pub struct ScreamingSnakeCase(String);

impl View for CamelCase {
    type V = Seq<char>;

    closed spec fn view(&self) -> Seq<char> {
        self.0@
    }
}

impl View for SnakeCase {
    type V = Seq<char>;

    closed spec fn view(&self) -> Seq<char> {
        self.0@
    }
}

impl View for ScreamingSnakeCase {
    type V = Seq<char>;

    closed spec fn view(&self) -> Seq<char> {
        self.0@
    }
}

impl Clone for CamelCase {
    fn clone(&self) -> (r: Self)
        ensures
            r == *self,
    {
        CamelCase(self.0.clone())
    }
}

impl Clone for SnakeCase {
    fn clone(&self) -> (r: Self)
        ensures
            r == *self,
    {
        SnakeCase(self.0.clone())
    }
}

impl Clone for ScreamingSnakeCase {
    fn clone(&self) -> (r: Self)
        ensures
            r == *self,
    {
        ScreamingSnakeCase(self.0.clone())
    }
}

/// Exactly which outcome parsing a Pascal-style identifier has, for every
/// input: either the validated character sequence or the first failing rule.
pub open spec fn camel_parse(s: Seq<char>) -> Result<Seq<char>, ParseError> {
    if has_char(s, ' ') {
        Err(ParseError::ContainsSpace)
    } else if has_char(s, '_') {
        Err(ParseError::ContainsUnderscore)
    } else if s.len() == 0 {
        Err(ParseError::EmptyInput)
    } else if is_lower_char(s[0]) {
        Err(ParseError::StartsLowercase)
    } else {
        Ok(s)
    }
}

/// Exactly which outcome parsing a snake-style identifier has, for every input.
pub open spec fn snake_parse(s: Seq<char>) -> Result<Seq<char>, ParseError> {
    if s.len() == 0 {
        Err(ParseError::EmptyInput)
    } else if has_upper(s) {
        Err(ParseError::ContainsUppercase)
    } else if has_char(s, ' ') {
        Err(ParseError::ContainsSpace)
    } else if has_double_underscore(s) {
        Err(ParseError::ContainsDoubleSeparator)
    } else {
        Ok(s)
    }
}

/// Exactly which outcome parsing a shouting-snake-style identifier has.
pub open spec fn shouting_parse(s: Seq<char>) -> Result<Seq<char>, ParseError> {
    if has_lower(s) {
        Err(ParseError::ContainsLowercase)
    } else if has_char(s, ' ') {
        Err(ParseError::ContainsSpace)
    } else if has_double_underscore(s) {
        Err(ParseError::ContainsDoubleSeparator)
    } else {
        Ok(s)
    }
}

impl CamelCase {
    pub open spec fn wf(self) -> bool {
        is_camel(self@)
    }

    /// Validate `value` as a Pascal-style identifier.
    pub fn from_str(value: &str) -> (r: Result<CamelCase, ParseError>)
        ensures
            match camel_parse(value@) {
                Ok(n) => r is Ok && r->Ok_0@ == n,
                Err(e) => r == Err::<CamelCase, ParseError>(e),
            },
            r is Ok <==> is_camel(value@),
            r is Ok ==> r->Ok_0@ == value@ && r->Ok_0.wf(),
    {
        if contains_char(value, ' ') {
            return Err(ParseError::ContainsSpace);
        }
        if contains_char(value, '_') {
            return Err(ParseError::ContainsUnderscore);
        }
        if value.unicode_len() == 0 {
            return Err(ParseError::EmptyInput);
        }
        if is_lower(value.get_char(0)) {
            return Err(ParseError::StartsLowercase);
        }
        Ok(CamelCase(value.to_owned()))
    }

    pub fn as_str(&self) -> (r: &str)
        ensures
            r@ == self@,
    {
        self.0.as_str()
    }

    /// Convert to a snake-style identifier.
    pub fn to_snake_case(&self) -> (r: SnakeCase)
        requires
            self.wf(),
        ensures
            r@ == camel_to_snake_seq(self@),
            r.wf(),
    {
        let s = self.0.as_str();
        let n = s.unicode_len();
        let mut out = String::new();
        let mut i: usize = 0;
        while i < n
            invariant
                n == s@.len(),
                0 <= i <= n,
                out@ == camel_to_snake_seq(s@.take(i as int)),
            decreases n - i,
        {
            let c = s.get_char(i);
            let ghost pre = out@;
            if is_upper(c) && i != 0 {
                push_char(&mut out, '_');
            }
            push_char(&mut out, lower_char(c));
            proof {
                let t = s@.take(i + 1);
                assert(t.drop_last() =~= s@.take(i as int));
                assert(t.last() == s@[i as int]);
                if is_upper_char(c) && i != 0 {
                    assert(out@ =~= pre + seq!['_', to_lower_char(c)]);
                } else {
                    assert(out@ =~= pre.push(to_lower_char(c)));
                }
            }
            i += 1;
        }
        proof {
            assert(s@.take(n as int) =~= s@);
            lemma_camel_to_snake_valid(self@);
        }
        SnakeCase(out)
    }

    /// Convert to a shouting-snake-style identifier, via the snake form.
    pub fn to_screaming_snake_case(&self) -> (r: ScreamingSnakeCase)
        requires
            self.wf(),
        ensures
            r@ == upper_seq(camel_to_snake_seq(self@)),
            r.wf(),
    {
        let snake = self.to_snake_case();
        snake.to_screaming_snake_case()
    }
}

impl SnakeCase {
    pub open spec fn wf(self) -> bool {
        is_snake(self@)
    }

    /// Validate `value` as a snake-style identifier.
    pub fn from_str(value: &str) -> (r: Result<SnakeCase, ParseError>)
        ensures
            match snake_parse(value@) {
                Ok(n) => r is Ok && r->Ok_0@ == n,
                Err(e) => r == Err::<SnakeCase, ParseError>(e),
            },
            r is Ok <==> is_snake(value@),
            r is Ok ==> r->Ok_0@ == value@ && r->Ok_0.wf(),
    {
        if value.unicode_len() == 0 {
            return Err(ParseError::EmptyInput);
        }
        if str_has_upper(value) {
            return Err(ParseError::ContainsUppercase);
        }
        if contains_char(value, ' ') {
            return Err(ParseError::ContainsSpace);
        }
        if str_has_double_underscore(value) {
            return Err(ParseError::ContainsDoubleSeparator);
        }
        Ok(SnakeCase(value.to_owned()))
    }

    pub fn as_str(&self) -> (r: &str)
        ensures
            r@ == self@,
    {
        self.0.as_str()
    }

    /// Convert to a Pascal-style identifier.  At least one character must not
    /// be a separator, otherwise the result would be empty and invalid.
    pub fn to_camel_case(&self) -> (r: CamelCase)
        requires
            self.wf(),
            has_non_separator(self@),
        ensures
            r@ == snake_to_camel_seq(self@),
            r.wf(),
    {
        let s = self.0.as_str();
        let n = s.unicode_len();
        let mut out = String::new();
        let mut i: usize = 0;
        while i < n
            invariant
                n == s@.len(),
                0 <= i <= n,
                out@ == snake_to_camel_seq(s@.take(i as int)),
            decreases n - i,
        {
            let c = s.get_char(i);
            let ghost pre = out@;
            if c != '_' {
                if i == 0 || s.get_char(i - 1) == '_' {
                    push_char(&mut out, upper_char(c));
                } else {
                    push_char(&mut out, c);
                }
            }
            proof {
                let t = s@.take(i + 1);
                assert(t.drop_last() =~= s@.take(i as int));
                assert(t.last() == s@[i as int]);
                if c != '_' && i != 0 {
                    assert(t[t.len() - 2] == s@[i - 1]);
                }
            }
            i += 1;
        }
        proof {
            assert(s@.take(n as int) =~= s@);
            lemma_snake_to_camel_valid(self@);
        }
        CamelCase(out)
    }

    /// Convert to a shouting-snake-style identifier by uppercasing throughout.
    pub fn to_screaming_snake_case(&self) -> (r: ScreamingSnakeCase)
        requires
            self.wf(),
        ensures
            r@ == upper_seq(self@),
            r.wf(),
    {
        let s = self.0.as_str();
        let out = map_upper(s);
        proof {
            lemma_upper_seq_valid(self@);
        }
        ScreamingSnakeCase(out)
    }
}

impl ScreamingSnakeCase {
    pub open spec fn wf(self) -> bool {
        is_shouting(self@)
    }

    /// Validate `value` as a shouting-snake-style identifier.
    pub fn from_str(value: &str) -> (r: Result<ScreamingSnakeCase, ParseError>)
        ensures
            match shouting_parse(value@) {
                Ok(n) => r is Ok && r->Ok_0@ == n,
                Err(e) => r == Err::<ScreamingSnakeCase, ParseError>(e),
            },
            r is Ok <==> is_shouting(value@),
            r is Ok ==> r->Ok_0@ == value@ && r->Ok_0.wf(),
    {
        if str_has_lower(value) {
            return Err(ParseError::ContainsLowercase);
        }
        if contains_char(value, ' ') {
            return Err(ParseError::ContainsSpace);
        }
        if str_has_double_underscore(value) {
            return Err(ParseError::ContainsDoubleSeparator);
        }
        Ok(ScreamingSnakeCase(value.to_owned()))
    }

    pub fn as_str(&self) -> (r: &str)
        ensures
            r@ == self@,
    {
        self.0.as_str()
    }

    /// Convert to a snake-style identifier by lowercasing throughout.  The
    /// identifier must be non-empty, since an empty snake identifier is invalid.
    pub fn to_snake_case(&self) -> (r: SnakeCase)
        requires
            self.wf(),
            self@.len() > 0,
        ensures
            r@ == lower_seq(self@),
            r.wf(),
    {
        let s = self.0.as_str();
        let out = map_lower(s);
        proof {
            lemma_lower_seq_valid(self@);
        }
        SnakeCase(out)
    }

    /// Convert to a Pascal-style identifier, via the snake form.
    pub fn to_camel_case(&self) -> (r: CamelCase)
        requires
            self.wf(),
            has_non_separator(self@),
        ensures
            r@ == snake_to_camel_seq(lower_seq(self@)),
            r.wf(),
    {
        proof {
            let w = choose|i: int| 0 <= i < self@.len() && self@[i] != '_';
            assert(lower_seq(self@)[w] != '_');
        }
        let snake = self.to_snake_case();
        snake.to_camel_case()
    }
}

// ----------------------------------------------------------------------------
// Whole-string case folding.
// ----------------------------------------------------------------------------

pub fn map_lower(s: &str) -> (r: String)
    ensures
        r@ == lower_seq(s@),
{
    let n = s.unicode_len();
    let mut out = String::new();
    let mut i: usize = 0;
    while i < n
        invariant
            n == s@.len(),
            0 <= i <= n,
            out@ == lower_seq(s@.take(i as int)),
        decreases n - i,
    {
        let ghost pre = out@;
        push_char(&mut out, lower_char(s.get_char(i)));
        proof {
            assert(out@ =~= lower_seq(s@.take(i + 1)));
        }
        i += 1;
    }
    proof {
        assert(s@.take(n as int) =~= s@);
    }
    out
}

pub fn map_upper(s: &str) -> (r: String)
    ensures
        r@ == upper_seq(s@),
{
    let n = s.unicode_len();
    let mut out = String::new();
    let mut i: usize = 0;
    while i < n
        invariant
            n == s@.len(),
            0 <= i <= n,
            out@ == upper_seq(s@.take(i as int)),
        decreases n - i,
    {
        let ghost pre = out@;
        push_char(&mut out, upper_char(s.get_char(i)));
        proof {
            assert(out@ =~= upper_seq(s@.take(i + 1)));
        }
        i += 1;
    }
    proof {
        assert(s@.take(n as int) =~= s@);
    }
    out
}

// ----------------------------------------------------------------------------
// Validity of the conversions.
// ----------------------------------------------------------------------------

/// The snake rendering of characters free of spaces and underscores is a valid
/// snake identifier; moreover it never ends with an underscore.
proof fn lemma_camel_to_snake_chars(s: Seq<char>)
    requires
        forall|i: int| 0 <= i < s.len() ==> s[i] != ' ' && s[i] != '_',
    ensures
        s.len() > 0 ==> camel_to_snake_seq(s).len() > 0,
        s.len() > 0 ==> camel_to_snake_seq(s).last() != '_',
        forall|i: int|
            0 <= i < camel_to_snake_seq(s).len() ==> !is_upper_char(camel_to_snake_seq(s)[i])
                && camel_to_snake_seq(s)[i] != ' ',
        forall|i: int|
            0 <= i && i + 1 < camel_to_snake_seq(s).len() ==> !(#[trigger] camel_to_snake_seq(s)[i]
                == '_' && camel_to_snake_seq(s)[i + 1] == '_'),
    decreases s.len(),
{
    if s.len() > 0 {
        lemma_camel_to_snake_chars(s.drop_last());
        let prev = camel_to_snake_seq(s.drop_last());
        let c = s.last();
        let out = camel_to_snake_seq(s);
        assert(forall|i: int| 0 <= i < s.len() - 1 ==> s.drop_last()[i] == s[i]);
        assert(c != ' ' && c != '_');
        assert(!is_upper_char(to_lower_char(c)) && to_lower_char(c) != ' ' && to_lower_char(c)
            != '_');
        if is_upper_char(c) && s.len() > 1 {
            assert(out =~= prev + seq!['_', to_lower_char(c)]);
            assert(s.drop_last().len() > 0);
        } else {
            assert(out =~= prev.push(to_lower_char(c)));
        }
    }
}

/// Converting a valid Pascal-style identifier down to snake style yields a
/// valid snake-style identifier.
pub proof fn lemma_camel_to_snake_valid(s: Seq<char>)
    requires
        is_camel(s),
    ensures
        is_snake(camel_to_snake_seq(s)),
{
    assert(forall|i: int| 0 <= i < s.len() ==> s[i] != ' ' && s[i] != '_');
    lemma_camel_to_snake_chars(s);
    let out = camel_to_snake_seq(s);
    assert(!has_upper(out));
    assert(!has_char(out, ' '));
    assert(!has_double_underscore(out));
}

/// The Pascal rendering of snake-suitable characters contains no spaces or
/// underscores, starts with a non-lowercase character, and is empty exactly
/// when the input is all separators.
proof fn lemma_snake_to_camel_chars(s: Seq<char>)
    requires
        forall|i: int| 0 <= i < s.len() ==> s[i] != ' ',
    ensures
        forall|i: int|
            0 <= i < snake_to_camel_seq(s).len() ==> snake_to_camel_seq(s)[i] != ' '
                && snake_to_camel_seq(s)[i] != '_',
        snake_to_camel_seq(s).len() == 0 <==> (forall|i: int| 0 <= i < s.len() ==> s[i] == '_'),
        snake_to_camel_seq(s).len() > 0 ==> !is_lower_char(snake_to_camel_seq(s)[0]),
    decreases s.len(),
{
    if s.len() > 0 {
        lemma_snake_to_camel_chars(s.drop_last());
        let prev = snake_to_camel_seq(s.drop_last());
        let c = s.last();
        let out = snake_to_camel_seq(s);
        assert(forall|i: int| 0 <= i < s.len() - 1 ==> s.drop_last()[i] == s[i]);
        if c == '_' {
            assert(out == prev);
        } else {
            assert(to_upper_char(c) != ' ' && to_upper_char(c) != '_');
            assert(!is_lower_char(to_upper_char(c)));
            if s.len() == 1 || s[s.len() - 2] == '_' {
                assert(out =~= prev.push(to_upper_char(c)));
                if prev.len() == 0 {
                    assert(out[0] == to_upper_char(c));
                }
            } else {
                assert(out =~= prev.push(c));
                if prev.len() == 0 {
                    // the character just before `c` is not a separator, so the
                    // prefix holds a non-separator character and is non-empty
                    assert(s.drop_last()[s.len() - 2] != '_');
                    assert(false);
                }
            }
        }
    }
}

/// Converting a valid snake-style identifier with at least one non-separator
/// character up to Pascal style yields a valid Pascal-style identifier.
pub proof fn lemma_snake_to_camel_valid(s: Seq<char>)
    requires
        is_snake(s),
        has_non_separator(s),
    ensures
        is_camel(snake_to_camel_seq(s)),
{
    assert(forall|i: int| 0 <= i < s.len() ==> s[i] != ' ');
    lemma_snake_to_camel_chars(s);
    let out = snake_to_camel_seq(s);
    let w = choose|i: int| 0 <= i < s.len() && s[i] != '_';
    assert(out.len() > 0);
    assert(!has_char(out, ' '));
    assert(!has_char(out, '_'));
}

/// Lowercasing a valid shouting-snake identifier yields a valid snake
/// identifier, provided it is non-empty.
pub proof fn lemma_lower_seq_valid(s: Seq<char>)
    requires
        is_shouting(s),
        s.len() > 0,
    ensures
        is_snake(lower_seq(s)),
{
    let out = lower_seq(s);
    assert(forall|i: int| 0 <= i < s.len() ==> out[i] == to_lower_char(s[i]));
    assert(forall|i: int| 0 <= i < out.len() ==> !is_upper_char(out[i])) by {
        assert(forall|i: int| 0 <= i < s.len() ==> !is_lower_char(s[i]));
    }
    assert(forall|i: int| 0 <= i < out.len() ==> out[i] != ' ');
    assert(forall|i: int| 0 <= i < out.len() ==> (out[i] == '_' <==> s[i] == '_'));
    assert(!has_upper(out));
    assert(!has_char(out, ' '));
    assert(!has_double_underscore(out));
}

/// Uppercasing a valid snake identifier yields a valid shouting-snake
/// identifier.
pub proof fn lemma_upper_seq_valid(s: Seq<char>)
    requires
        is_snake(s),
    ensures
        is_shouting(upper_seq(s)),
{
    let out = upper_seq(s);
    assert(forall|i: int| 0 <= i < s.len() ==> out[i] == to_upper_char(s[i]));
    assert(forall|i: int| 0 <= i < out.len() ==> !is_lower_char(out[i]));
    assert(forall|i: int| 0 <= i < out.len() ==> out[i] != ' ');
    assert(forall|i: int| 0 <= i < out.len() ==> (out[i] == '_' <==> s[i] == '_'));
    assert(!has_lower(out));
    assert(!has_char(out, ' '));
    assert(!has_double_underscore(out));
}

// ----------------------------------------------------------------------------
// Indentation.
// ----------------------------------------------------------------------------

/// `n` levels of indentation, four spaces each.
pub open spec fn indent_text(n: nat) -> Seq<char>
    decreases n,
{
    if n == 0 {
        Seq::empty()
    } else {
        indent_text((n - 1) as nat) + "    "@
    }
}

/// A number of four-space indentation levels.
#[derive(Debug, Copy, Clone, PartialEq, Eq, Structural, Hash)]
pub struct Indent(pub u8);

impl Indent {
    pub fn new(indent: u8) -> (r: Self)
        ensures
            r == Indent(indent),
    {
        Indent(indent)
    }

    pub fn get_range(self) -> (r: Range<u8>)
        ensures
            r.start == 0 && r.end == self.0,
    {
        Range { start: 0, end: self.0 }
    }

    /// The indentation as spaces.
    pub fn render(&self) -> (r: String)
        ensures
            r@ == indent_text(self.0 as nat),
    {
        let mut out = String::new();
        let mut i: u8 = 0;
        while i < self.0
            invariant
                0 <= i <= self.0,
                out@ == indent_text(i as nat),
            decreases self.0 - i,
        {
            out.append("    ");
            i += 1;
        }
        out
    }
}

// ----------------------------------------------------------------------------
// Joining items between fixed bounds.
// ----------------------------------------------------------------------------

/// Each item wrapped in `pre`/`app`, joined by `join`.
pub open spec fn join_wrapped(
    items: Seq<Seq<char>>,
    pre: Seq<char>,
    app: Seq<char>,
    join: Seq<char>,
) -> Seq<char>
    decreases items.len(),
{
    if items.len() == 0 {
        Seq::empty()
    } else if items.len() == 1 {
        pre + items[0] + app
    } else {
        join_wrapped(items.drop_last(), pre, app, join) + join + pre + items.last() + app
    }
}

/// Joins a list of items into one string: every item is wrapped in a prefix
/// and a suffix, items are separated by a joiner, and the whole is surrounded
/// by a left and a right bound.
#[derive(Debug)]
pub struct StrConcat {
    pub iter: Vec<String>,
    pub left_bound: String,
    pub right_bound: String,
    pub item_prepend: String,
    pub item_append: String,
    pub join: String,
}

impl StrConcat {
    /// The exact text this concatenation produces.
    pub open spec fn text(self) -> Seq<char> {
        self.left_bound@ + join_wrapped(
            self.iter.deep_view(),
            self.item_prepend@,
            self.item_append@,
            self.join@,
        ) + self.right_bound@
    }

    pub fn render(&self) -> (r: String)
        ensures
            r@ == self.text(),
    {
        let ghost items = self.iter.deep_view();
        let mut out = self.left_bound.clone();
        let n = self.iter.len();
        let mut i: usize = 0;
        while i < n
            invariant
                n == self.iter.len(),
                items == self.iter.deep_view(),
                0 <= i <= n,
                out@ == self.left_bound@ + join_wrapped(
                    items.take(i as int),
                    self.item_prepend@,
                    self.item_append@,
                    self.join@,
                ),
            decreases n - i,
        {
            if i != 0 {
                out.append(self.join.as_str());
            }
            out.append(self.item_prepend.as_str());
            out.append(self.iter[i].as_str());
            out.append(self.item_append.as_str());
            proof {
                let t = items.take(i + 1);
                assert(t.drop_last() =~= items.take(i as int));
                assert(t.last() == items[i as int]);
                assert(items[i as int] == self.iter[i as int]@);
                if i == 0 {
                    assert(out@ =~= self.left_bound@ + join_wrapped(
                        t,
                        self.item_prepend@,
                        self.item_append@,
                        self.join@,
                    ));
                } else {
                    assert(out@ =~= self.left_bound@ + join_wrapped(
                        t,
                        self.item_prepend@,
                        self.item_append@,
                        self.join@,
                    ));
                }
            }
            i += 1;
        }
        proof {
            assert(items.take(n as int) =~= items);
        }
        out.append(self.right_bound.as_str());
        out
    }
}

// ----------------------------------------------------------------------------
// Round-trip laws.
// ----------------------------------------------------------------------------

/// Law: converting any valid Pascal-style identifier to snake style and back
/// restores it exactly.
pub proof fn lemma_case_round_trip(s: Seq<char>)
    requires
        is_camel(s),
    ensures
        snake_to_camel_seq(camel_to_snake_seq(s)) == s,
    decreases s.len(),
{
    let out = camel_to_snake_seq(s);
    let c = s.last();
    if s.len() == 1 {
        assert(c == s[0] && c != ' ' && c != '_');
        assert(out =~= seq![to_lower_char(c)]);
        assert(out.drop_last() =~= Seq::<char>::empty());
        assert(snake_to_camel_seq(Seq::<char>::empty()) =~= Seq::<char>::empty());
        assert(out.last() == to_lower_char(c) && to_lower_char(c) != '_');
        assert(snake_to_camel_seq(out) =~= seq![to_upper_char(to_lower_char(c))]);
        assert(!is_lower_char(c));
        assert(to_upper_char(to_lower_char(c)) == c);
        assert(snake_to_camel_seq(out) =~= s);
    } else {
        let st = s.drop_last();
        assert(forall|i: int| 0 <= i < st.len() ==> st[i] == s[i]);
        assert(is_camel(st));
        lemma_case_round_trip(st);
        assert(forall|i: int| 0 <= i < s.len() ==> s[i] != ' ' && s[i] != '_');
        assert(forall|i: int| 0 <= i < st.len() ==> st[i] != ' ' && st[i] != '_');
        lemma_camel_to_snake_chars(st);
        let p = camel_to_snake_seq(st);
        assert(p.len() > 0 && p.last() != '_');
        if is_upper_char(c) {
            let l = to_lower_char(c);
            assert(out =~= p + seq!['_', l]);
            assert(is_lower_char(l));
            assert(out.last() == l && l != '_');
            assert(out[out.len() - 2] == '_');
            assert(snake_to_camel_seq(out) == snake_to_camel_seq(out.drop_last()).push(
                to_upper_char(l),
            ));
            assert(out.drop_last() =~= p.push('_'));
            assert(p.push('_').drop_last() =~= p);
            assert(p.push('_').last() == '_');
            assert(snake_to_camel_seq(p.push('_')) == snake_to_camel_seq(p));
            assert(to_upper_char(l) == c);
            assert(snake_to_camel_seq(out) =~= st.push(c));
            assert(st.push(c) =~= s);
        } else {
            assert(out =~= p.push(c));
            assert(out.last() == c && c != '_');
            assert(out.len() >= 2);
            assert(out[out.len() - 2] == p.last());
            assert(p.last() != '_');
            assert(snake_to_camel_seq(out) == snake_to_camel_seq(out.drop_last()).push(c));
            assert(out.drop_last() =~= p);
            assert(snake_to_camel_seq(out) =~= st.push(c));
            assert(st.push(c) =~= s);
        }
    }
}

/// Law: lowercasing then uppercasing restores any valid snake identifier, and
/// uppercasing then lowercasing restores any valid shouting identifier.
pub proof fn lemma_fold_round_trip(s: Seq<char>)
    ensures
        is_snake(s) ==> lower_seq(upper_seq(s)) == s,
        is_shouting(s) ==> upper_seq(lower_seq(s)) == s,
{
    if is_snake(s) {
        assert(forall|i: int| 0 <= i < s.len() ==> !is_upper_char(s[i]));
        assert(forall|i: int| 0 <= i < s.len() ==> lower_seq(upper_seq(s))[i] == to_lower_char(
            to_upper_char(s[i]),
        ));
        assert(forall|i: int| 0 <= i < s.len() ==> to_lower_char(to_upper_char(s[i])) == s[i]);
        assert(lower_seq(upper_seq(s)) =~= s);
    }
    if is_shouting(s) {
        assert(forall|i: int| 0 <= i < s.len() ==> !is_lower_char(s[i]));
        assert(forall|i: int| 0 <= i < s.len() ==> upper_seq(lower_seq(s))[i] == to_upper_char(
            to_lower_char(s[i]),
        ));
        assert(forall|i: int| 0 <= i < s.len() ==> to_upper_char(to_lower_char(s[i])) == s[i]);
        assert(upper_seq(lower_seq(s)) =~= s);
    }
}

} // verus!
