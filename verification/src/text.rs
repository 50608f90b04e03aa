use vstd::prelude::*;
use vstd::string::StrSliceExecFns;

verus! {

// ----------------------------------------------------------------------------
// Character classification and case mapping (ASCII letters).
// ----------------------------------------------------------------------------

pub open spec fn is_upper_char(c: char) -> bool {
    'A' <= c && c <= 'Z'
}

pub open spec fn is_lower_char(c: char) -> bool {
    'a' <= c && c <= 'z'
}

pub open spec fn is_space_char(c: char) -> bool {
    c == ' ' || c == '\t' || c == '\n' || c == '\r'
}

pub open spec fn to_lower_char(c: char) -> char {
    if is_upper_char(c) {
        ((c as u32) + 32) as char
    } else {
        c
    }
}

pub open spec fn to_upper_char(c: char) -> char {
    if is_lower_char(c) {
        ((c as u32) - 32) as char
    } else {
        c
    }
}

pub fn is_upper(c: char) -> (r: bool)
    ensures
        r == is_upper_char(c),
{
    let u = c as u32;
    65 <= u && u <= 90
}

pub fn is_lower(c: char) -> (r: bool)
    ensures
        r == is_lower_char(c),
{
    let u = c as u32;
    97 <= u && u <= 122
}

pub fn is_space(c: char) -> (r: bool)
    ensures
        r == is_space_char(c),
{
    c == ' ' || c == '\t' || c == '\n' || c == '\r'
}

pub fn lower_char(c: char) -> (r: char)
    ensures
        r == to_lower_char(c),
{
    let u = c as u32;
    if 65 <= u && u <= 90 {
        ((u + 32) as u8) as char
    } else {
        c
    }
}

pub fn upper_char(c: char) -> (r: char)
    ensures
        r == to_upper_char(c),
{
    let u = c as u32;
    if 97 <= u && u <= 122 {
        ((u - 32) as u8) as char
    } else {
        c
    }
}

// ----------------------------------------------------------------------------
// Building strings character by character.
// ----------------------------------------------------------------------------

/// Relies on String::push: it appends the given character at the end of the string.
#[verifier::external_body]
pub fn push_char(s: &mut String, c: char)
    ensures
        final(s)@ == old(s)@.push(c),
{
    s.push(c);
}

// ----------------------------------------------------------------------------
// Searching within character sequences.
// ----------------------------------------------------------------------------

pub open spec fn has_char(s: Seq<char>, c: char) -> bool {
    exists|i: int| 0 <= i < s.len() && s[i] == c
}

/// The index of the first occurrence of `c` in `s`, or `s.len()` if absent.
pub open spec fn char_index(s: Seq<char>, c: char) -> int
    decreases s.len(),
{
    if s.len() == 0 {
        0
    } else if s[0] == c {
        0
    } else {
        1 + char_index(s.drop_first(), c)
    }
}

pub proof fn lemma_char_index(s: Seq<char>, c: char)
    ensures
        0 <= char_index(s, c) <= s.len(),
        char_index(s, c) < s.len() ==> s[char_index(s, c)] == c,
        forall|j: int| 0 <= j < char_index(s, c) ==> s[j] != c,
        (char_index(s, c) < s.len()) == has_char(s, c),
    decreases s.len(),
{
    if s.len() > 0 && s[0] != c {
        lemma_char_index(s.drop_first(), c);
        let i: int = char_index(s, c);
        assert(forall|j: int| 1 <= j < i ==> s[j] == s.drop_first()[j - 1]);
        if i < s.len() {
            assert(s[i] == s.drop_first()[i - 1]);
        }
    }
}

pub fn contains_char(s: &str, c: char) -> (r: bool)
    ensures
        r == has_char(s@, c),
{
    let n = s.unicode_len();
    let mut i: usize = 0;
    while i < n
        invariant
            n == s@.len(),
            0 <= i <= n,
            forall|j: int| 0 <= j < i ==> s@[j] != c,
        decreases n - i,
    {
        if s.get_char(i) == c {
            return true;
        }
        i += 1;
    }
    false
}

pub fn find_char(s: &str, c: char) -> (r: usize)
    ensures
        r as int == char_index(s@, c),
{
    let n = s.unicode_len();
    let mut i: usize = 0;
    while i < n
        invariant
            n == s@.len(),
            0 <= i <= n,
            forall|j: int| 0 <= j < i ==> s@[j] != c,
        decreases n - i,
    {
        if s.get_char(i) == c {
            proof {
                lemma_char_index(s@, c);
            }
            return i;
        }
        i += 1;
    }
    proof {
        lemma_char_index(s@, c);
    }
    n
}

pub fn str_eq(a: &str, b: &str) -> (r: bool)
    ensures
        r == (a@ == b@),
{
    let an = a.unicode_len();
    let bn = b.unicode_len();
    if an != bn {
        proof {
            assert(a@ != b@);
        }
        return false;
    }
    let mut i: usize = 0;
    while i < an
        invariant
            an == a@.len(),
            bn == b@.len(),
            an == bn,
            0 <= i <= an,
            forall|j: int| 0 <= j < i ==> a@[j] == b@[j],
        decreases an - i,
    {
        if a.get_char(i) != b.get_char(i) {
            proof {
                assert(a@ != b@);
            }
            return false;
        }
        i += 1;
    }
    proof {
        assert(a@ =~= b@);
    }
    true
}

// ----------------------------------------------------------------------------
// Splitting a body into its lines.
// ----------------------------------------------------------------------------

/// A carriage return preceding a line break is dropped.
pub open spec fn strip_cr(s: Seq<char>) -> Seq<char> {
    if s.len() > 0 && s.last() == '\r' {
        s.drop_last()
    } else {
        s
    }
}

/// The lines of `s`, split at line breaks; a final line break ends the last
/// line rather than opening an empty one.
pub open spec fn lines_of(s: Seq<char>) -> Seq<Seq<char>>
    decreases s.len(),
{
    if s.len() == 0 {
        Seq::empty()
    } else {
        let b = char_index(s, '\n');
        if 0 <= b < s.len() {
            seq![strip_cr(s.take(b))] + lines_of(s.skip(b + 1))
        } else {
            seq![s]
        }
    }
}

// ----------------------------------------------------------------------------
// Trimming surrounding whitespace.
// ----------------------------------------------------------------------------

/// The number of leading whitespace characters of `s`.
pub open spec fn trim_lo(s: Seq<char>) -> int
    decreases s.len(),
{
    if s.len() == 0 {
        0
    } else if is_space_char(s[0]) {
        1 + trim_lo(s.drop_first())
    } else {
        0
    }
}

/// The index just past the last non-whitespace character of `s`.
pub open spec fn trim_hi(s: Seq<char>) -> int
    decreases s.len(),
{
    if s.len() == 0 {
        0
    } else if is_space_char(s.last()) {
        trim_hi(s.drop_last())
    } else {
        s.len() as int
    }
}

/// `s` with surrounding whitespace removed.
pub open spec fn trim_spec(s: Seq<char>) -> Seq<char> {
    if trim_lo(s) <= trim_hi(s) {
        s.subrange(trim_lo(s), trim_hi(s))
    } else {
        Seq::empty()
    }
}

pub proof fn lemma_trim_lo(s: Seq<char>)
    ensures
        0 <= trim_lo(s) <= s.len(),
        forall|j: int| 0 <= j < trim_lo(s) ==> is_space_char(s[j]),
        trim_lo(s) < s.len() ==> !is_space_char(s[trim_lo(s)]),
    decreases s.len(),
{
    if s.len() > 0 && is_space_char(s[0]) {
        lemma_trim_lo(s.drop_first());
        let i: int = trim_lo(s);
        assert(forall|j: int| 1 <= j < i ==> s[j] == s.drop_first()[j - 1]);
        if i < s.len() {
            assert(s[i] == s.drop_first()[i - 1]);
        }
    }
}

pub proof fn lemma_trim_hi(s: Seq<char>)
    ensures
        0 <= trim_hi(s) <= s.len(),
        forall|j: int| trim_hi(s) <= j < s.len() ==> is_space_char(s[j]),
        trim_hi(s) > 0 ==> !is_space_char(s[trim_hi(s) - 1]),
    decreases s.len(),
{
    if s.len() > 0 && is_space_char(s.last()) {
        lemma_trim_hi(s.drop_last());
        let i: int = trim_hi(s);
        assert(forall|j: int| 0 <= j < s.len() - 1 ==> s[j] == s.drop_last()[j]);
    }
}

pub fn trim_str<'a>(s: &'a str) -> (r: &'a str)
    ensures
        r@ == trim_spec(s@),
{
    let n = s.unicode_len();
    let mut lo: usize = 0;
    while lo < n && is_space(s.get_char(lo))
        invariant
            n == s@.len(),
            0 <= lo <= n,
            forall|j: int| 0 <= j < lo ==> is_space_char(s@[j]),
        decreases n - lo,
    {
        lo += 1;
    }
    proof {
        lemma_trim_lo(s@);
        if lo < n {
            // both lo and trim_lo point at the first non-whitespace character
            if (lo as int) < trim_lo(s@) {
                assert(is_space_char(s@[lo as int]));
            }
            if trim_lo(s@) < lo as int {
                assert(is_space_char(s@[trim_lo(s@)]));
            }
            assert(lo as int == trim_lo(s@));
        } else {
            if trim_lo(s@) < s@.len() {
                assert(is_space_char(s@[trim_lo(s@)]));
            }
            assert(trim_lo(s@) == s@.len());
        }
    }
    if lo == n {
        let r = s.substring_char(0, 0);
        proof {
            lemma_trim_hi(s@);
            if trim_hi(s@) > 0 {
                assert(is_space_char(s@[trim_hi(s@) - 1]));
            }
            assert(r@ =~= trim_spec(s@));
        }
        return r;
    }
    let mut hi: usize = n;
    while hi > lo && is_space(s.get_char(hi - 1))
        invariant
            n == s@.len(),
            lo <= hi <= n,
            forall|j: int| hi <= j < n ==> is_space_char(s@[j]),
            lo < n,
            !is_space_char(s@[lo as int]),
        decreases hi,
    {
        hi -= 1;
    }
    proof {
        lemma_trim_hi(s@);
        assert(!(hi == lo)) by {
            if hi == lo {
                assert(is_space_char(s@[lo as int]));
            }
        }
        // both hi and trim_hi point just past the last non-whitespace character
        if (hi as int) < trim_hi(s@) {
            assert(is_space_char(s@[trim_hi(s@) - 1]));
        }
        if trim_hi(s@) < hi as int {
            assert(is_space_char(s@[hi - 1]));
        }
        assert(hi as int == trim_hi(s@));
    }
    let r = s.substring_char(lo, hi);
    proof {
        assert(r@ =~= trim_spec(s@));
    }
    r
}

} // verus!
