use vstd::prelude::*;
use vstd::string::StrSliceExecFns;
use vstd::string::StringExecFns;

use crate::formatting::StrConcat;
use crate::formatting::join_wrapped;
use crate::traits::TraitName;

verus! {

// ----------------------------------------------------------------------------
// Capabilities.
// ----------------------------------------------------------------------------

/// One automatically derivable capability: a built-in one, or a named custom
/// capability.
#[derive(Debug, PartialEq, Eq, Hash)]
pub enum Derive {
    Debug,
    Default,
    Copy,
    Clone,
    Eq,
    PartialEq,
    Ord,
    PartialOrd,
    Hash,
    Custom(TraitName),
}

/// The position of a capability in the canonical rendering order; custom
/// capabilities come last.
pub open spec fn derive_rank(d: Derive) -> int {
    match d {
        Derive::Debug => 0,
        Derive::Default => 1,
        Derive::Copy => 2,
        Derive::Clone => 3,
        Derive::Eq => 4,
        Derive::PartialEq => 5,
        Derive::Ord => 6,
        Derive::PartialOrd => 7,
        Derive::Hash => 8,
        Derive::Custom(_) => 9,
    }
}

/// The name of a custom capability; empty for the built-in ones.
pub open spec fn derive_custom_name(d: Derive) -> Seq<char> {
    match d {
        Derive::Custom(t) => t@,
        _ => Seq::empty(),
    }
}

/// What identifies a capability: its rank and, for a custom one, its name.
pub open spec fn derive_key(d: Derive) -> (int, Seq<char>) {
    (derive_rank(d), derive_custom_name(d))
}

/// The key of a built-in capability of the given rank.
pub open spec fn bkey(rank: int) -> (int, Seq<char>) {
    (rank, Seq::empty())
}

/// The text a capability renders as.
pub open spec fn derive_name_text(d: Derive) -> Seq<char> {
    match d {
        Derive::Debug => "Debug"@,
        Derive::Default => "Default"@,
        Derive::Copy => "Copy"@,
        Derive::Clone => "Clone"@,
        Derive::Eq => "Eq"@,
        Derive::PartialEq => "PartialEq"@,
        Derive::Ord => "Ord"@,
        Derive::PartialOrd => "PartialOrd"@,
        Derive::Hash => "Hash"@,
        Derive::Custom(t) => t@,
    }
}

impl Clone for Derive {
    fn clone(&self) -> (r: Self)
        ensures
            r == *self,
    {
        match self {
            Derive::Debug => Derive::Debug,
            Derive::Default => Derive::Default,
            Derive::Copy => Derive::Copy,
            Derive::Clone => Derive::Clone,
            Derive::Eq => Derive::Eq,
            Derive::PartialEq => Derive::PartialEq,
            Derive::Ord => Derive::Ord,
            Derive::PartialOrd => Derive::PartialOrd,
            Derive::Hash => Derive::Hash,
            Derive::Custom(t) => Derive::Custom(t.clone()),
        }
    }
}

impl Derive {
    /// The capability as its source token.
    pub fn render(&self) -> (r: &str)
        ensures
            r@ == derive_name_text(*self),
    {
        match self {
            Derive::Debug => "Debug",
            Derive::Default => "Default",
            Derive::Copy => "Copy",
            Derive::Clone => "Clone",
            Derive::Eq => "Eq",
            Derive::PartialEq => "PartialEq",
            Derive::Ord => "Ord",
            Derive::PartialOrd => "PartialOrd",
            Derive::Hash => "Hash",
            Derive::Custom(t) => t.as_str(),
        }
    }
}

// ----------------------------------------------------------------------------
// The canonical order on capabilities.
// ----------------------------------------------------------------------------

/// Strict lexicographic order on character sequences, by character value.
pub open spec fn seq_char_lt(a: Seq<char>, b: Seq<char>) -> bool
    decreases a.len(),
{
    if b.len() == 0 {
        false
    } else if a.len() == 0 {
        true
    } else if a[0] == b[0] {
        seq_char_lt(a.drop_first(), b.drop_first())
    } else {
        a[0] < b[0]
    }
}

/// Strict canonical order on capability keys: by rank, then lexically by name.
pub open spec fn key_lt(x: (int, Seq<char>), y: (int, Seq<char>)) -> bool {
    x.0 < y.0 || (x.0 == y.0 && seq_char_lt(x.1, y.1))
}

pub proof fn lemma_seq_char_lt_trichotomy(a: Seq<char>, b: Seq<char>)
    ensures
        seq_char_lt(a, b) ==> !seq_char_lt(b, a) && a != b,
        !seq_char_lt(a, b) && !seq_char_lt(b, a) ==> a == b,
    decreases a.len(),
{
    if a.len() == 0 && b.len() == 0 {
        assert(a =~= b);
    } else if a.len() > 0 && b.len() > 0 && a[0] == b[0] {
        lemma_seq_char_lt_trichotomy(a.drop_first(), b.drop_first());
        assert(forall|i: int| 1 <= i < a.len() ==> a[i] == a.drop_first()[i - 1]);
        assert(forall|i: int| 1 <= i < b.len() ==> b[i] == b.drop_first()[i - 1]);
        if a.drop_first() == b.drop_first() {
            assert(a =~= b);
        }
        if a == b {
            assert(a.drop_first() =~= b.drop_first());
        }
    } else if a.len() > 0 && b.len() > 0 {
        assert(a != b) by {
            if a == b {
                assert(a[0] == b[0]);
            }
        }
    }
}

pub proof fn lemma_seq_char_lt_trans(a: Seq<char>, b: Seq<char>, c: Seq<char>)
    requires
        seq_char_lt(a, b),
        seq_char_lt(b, c),
    ensures
        seq_char_lt(a, c),
    decreases a.len(),
{
    if c.len() > 0 && a.len() > 0 {
        if a[0] == b[0] && b[0] == c[0] {
            lemma_seq_char_lt_trans(a.drop_first(), b.drop_first(), c.drop_first());
        }
    }
}

pub proof fn lemma_key_lt_trichotomy(x: (int, Seq<char>), y: (int, Seq<char>))
    ensures
        key_lt(x, y) ==> !key_lt(y, x) && x != y,
        !key_lt(x, y) && !key_lt(y, x) ==> x == y,
{
    lemma_seq_char_lt_trichotomy(x.1, y.1);
}

pub proof fn lemma_key_lt_trans(x: (int, Seq<char>), y: (int, Seq<char>), z: (int, Seq<char>))
    requires
        key_lt(x, y),
        key_lt(y, z),
    ensures
        key_lt(x, z),
{
    if x.0 == y.0 && y.0 == z.0 {
        lemma_seq_char_lt_trans(x.1, y.1, z.1);
    }
}

/// Exec comparison matching `seq_char_lt`.
fn str_lt(a: &str, b: &str) -> (r: bool)
    ensures
        r == seq_char_lt(a@, b@),
    decreases a@.len(),
{
    let an = a.unicode_len();
    let bn = b.unicode_len();
    if bn == 0 {
        false
    } else if an == 0 {
        true
    } else {
        let ca = a.get_char(0);
        let cb = b.get_char(0);
        if ca == cb {
            let ar = a.substring_char(1, an);
            let br = b.substring_char(1, bn);
            proof {
                assert(ar@ =~= a@.drop_first());
                assert(br@ =~= b@.drop_first());
            }
            str_lt(ar, br)
        } else {
            let r = (ca as u32) < (cb as u32);
            proof {
                assert(r == (a@[0] < b@[0]));
            }
            r
        }
    }
}

/// Exec comparison matching `key_lt` on capability keys.
fn derive_lt(a: &Derive, b: &Derive) -> (r: bool)
    ensures
        r == key_lt(derive_key(*a), derive_key(*b)),
{
    let ra = rank_of(a);
    let rb = rank_of(b);
    if ra < rb {
        true
    } else if ra > rb {
        false
    } else {
        match (a, b) {
            (Derive::Custom(ta), Derive::Custom(tb)) => str_lt(ta.as_str(), tb.as_str()),
            _ => {
                proof {
                    assert(derive_custom_name(*a) =~= derive_custom_name(*b));
                    lemma_seq_char_lt_trichotomy(derive_custom_name(*a), derive_custom_name(*b));
                }
                false
            },
        }
    }
}

/// Exec equality of capability keys.
fn derive_key_eq(a: &Derive, b: &Derive) -> (r: bool)
    ensures
        r == (derive_key(*a) == derive_key(*b)),
{
    proof {
        lemma_key_lt_trichotomy(derive_key(*a), derive_key(*b));
    }
    !derive_lt(a, b) && !derive_lt(b, a)
}

fn rank_of(d: &Derive) -> (r: u8)
    ensures
        r as int == derive_rank(*d),
{
    match d {
        Derive::Debug => 0,
        Derive::Default => 1,
        Derive::Copy => 2,
        Derive::Clone => 3,
        Derive::Eq => 4,
        Derive::PartialEq => 5,
        Derive::Ord => 6,
        Derive::PartialOrd => 7,
        Derive::Hash => 8,
        Derive::Custom(_) => 9,
    }
}

// ----------------------------------------------------------------------------
// The capability set and its implication closure.
// ----------------------------------------------------------------------------

/// The keys a capability pulls in when it is requested, itself included:
/// ordering implies partial ordering, equality implies partial equality,
/// hashing implies equality (and hence partial equality), and copying implies
/// cloning.
pub open spec fn implied_keys(k: (int, Seq<char>)) -> Set<(int, Seq<char>)> {
    if k.0 == 8 {
        set![k, bkey(4), bkey(5)]
    } else if k.0 == 6 {
        set![k, bkey(7)]
    } else if k.0 == 4 {
        set![k, bkey(5)]
    } else if k.0 == 2 {
        set![k, bkey(3)]
    } else {
        set![k]
    }
}

/// A key set that is closed under implication.
pub open spec fn closed_keys(v: Set<(int, Seq<char>)>) -> bool {
    forall|k: (int, Seq<char>)| #[trigger] v.contains(k) ==> implied_keys(k).subset_of(v)
}

/// How many rounds of implication a capability can set off; bounds the
/// recursion of `insert`.
pub open spec fn implication_depth(d: Derive) -> nat {
    match d {
        Derive::Hash => 2,
        Derive::Ord => 1,
        Derive::Eq => 1,
        Derive::Copy => 1,
        _ => 0,
    }
}

/// A set of requested capabilities, kept closed under implication and sorted
/// in canonical order.
#[derive(Debug, PartialEq, Eq)]
pub struct Derives(Vec<Derive>);

impl View for Derives {
    type V = Set<(int, Seq<char>)>;

    /// The set of capability keys this value holds.
    closed spec fn view(&self) -> Set<(int, Seq<char>)> {
        Set::new(
            |k: (int, Seq<char>)|
                exists|i: int| 0 <= i < self.0@.len() && derive_key(#[trigger] self.0@[i]) == k,
        )
    }
}

impl Clone for Derives {
    fn clone(&self) -> (r: Self)
        ensures
            r@ == self@,
            r.list() == self.list(),
            r.wf() == self.wf(),
    {
        let v = self.get_sorted_derive_vec();
        let r = Derives(v);
        proof {
            assert(r@ =~= self@);
        }
        r
    }
}

impl Default for Derives {
    fn default() -> (r: Self)
        ensures
            r@ == Set::<(int, Seq<char>)>::empty(),
            r.list() == Seq::<Derive>::empty(),
            r.wf(),
    {
        let r = Derives(Vec::new());
        proof {
            assert(r@ =~= Set::<(int, Seq<char>)>::empty());
            assert(r.list() =~= Seq::<Derive>::empty());
        }
        r
    }
}

impl Derives {
    /// The members in canonical order.
    pub closed spec fn list(self) -> Seq<Derive> {
        self.0@
    }

    /// Well-formed: strictly sorted in canonical order (hence free of
    /// duplicates) and closed under implication.
    pub closed spec fn wf(self) -> bool {
        &&& strictly_sorted(self.0@)
        &&& closed_keys(self@)
    }

    /// An empty capability set.
    pub fn new() -> (r: Self)
        ensures
            r@ == Set::<(int, Seq<char>)>::empty(),
            r.list() == Seq::<Derive>::empty(),
            r.wf(),
    {
        Self::default()
    }

    /// The set holding exactly the debug capability.
    pub fn with_debug() -> (r: Self)
        ensures
            r@ == set![bkey(0)],
            r.wf(),
    {
        let mut derives = Self::default();
        derives.insert(Derive::Debug);
        proof {
            assert(derives@ =~= set![bkey(0)]);
        }
        derives
    }

    /// The set holding the debug and default capabilities.
    pub fn with_debug_default() -> (r: Self)
        ensures
            r@ == set![bkey(0), bkey(1)],
            r.wf(),
    {
        let mut derives = Self::default();
        derives.insert(Derive::Debug);
        derives.insert(Derive::Default);
        proof {
            assert(derives@ =~= set![bkey(0), bkey(1)]);
        }
        derives
    }

    /// The set holding the debug and clone capabilities.
    pub fn with_debug_clone() -> (r: Self)
        ensures
            r@ == set![bkey(0), bkey(3)],
            r.wf(),
    {
        let mut derives = Self::default();
        derives.insert(Derive::Debug);
        derives.insert(Derive::Clone);
        proof {
            assert(derives@ =~= set![bkey(0), bkey(3)]);
        }
        derives
    }

    /// The set holding the debug, default and clone capabilities.
    pub fn with_debug_default_clone() -> (r: Self)
        ensures
            r@ == set![bkey(0), bkey(1), bkey(3)],
            r.wf(),
    {
        let mut derives = Self::default();
        derives.insert(Derive::Debug);
        derives.insert(Derive::Default);
        derives.insert(Derive::Clone);
        proof {
            assert(derives@ =~= set![bkey(0), bkey(1), bkey(3)]);
        }
        derives
    }

    /// Whether the set holds the given capability.
    pub fn contains(&self, derive: &Derive) -> (r: bool)
        ensures
            r == self@.contains(derive_key(*derive)),
    {
        let n = self.0.len();
        let mut i: usize = 0;
        while i < n
            invariant
                n == self.0@.len(),
                0 <= i <= n,
                forall|j: int| 0 <= j < i ==> derive_key(#[trigger] self.0@[j]) != derive_key(
                    *derive,
                ),
            decreases n - i,
        {
            if derive_key_eq(&self.0[i], derive) {
                return true;
            }
            i += 1;
        }
        false
    }

    /// Insert a capability together with everything it implies.  Inserting a
    /// capability whose key is already present leaves the set unchanged.
    pub fn insert(&mut self, derive: Derive)
        requires
            old(self).wf(),
        ensures
            final(self).wf(),
            final(self)@ == old(self)@.union(implied_keys(derive_key(derive))),
        decreases implication_depth(derive),
    {
        let ghost k = derive_key(derive);
        match &derive {
            Derive::Ord => {
                self.insert(Derive::PartialOrd);
            },
            Derive::Eq => {
                self.insert(Derive::PartialEq);
            },
            Derive::Hash => {
                self.insert(Derive::Eq);
            },
            Derive::Copy => {
                self.insert(Derive::Clone);
            },
            _ => {},
        }
        self.sorted_add(derive);
        proof {
            assert(self@ =~= old(self)@.union(implied_keys(k)));
        }
    }

    /// Put one capability at its place in the canonical order.  Everything the
    /// capability implies, other than itself, must already be present.
    fn sorted_add(&mut self, derive: Derive)
        requires
            old(self).wf(),
            forall|k: (int, Seq<char>)|
                implied_keys(derive_key(derive)).contains(k) ==> k == derive_key(derive) || old(
                    self,
                )@.contains(k),
        ensures
            final(self).wf(),
            final(self)@ == old(self)@.insert(derive_key(derive)),
    {
        let ghost dk = derive_key(derive);
        let n = self.0.len();
        let mut p: usize = 0;
        while p < n && derive_lt(&self.0[p], &derive)
            invariant
                *self == *old(self),
                dk == derive_key(derive),
                n == self.0@.len(),
                0 <= p <= n,
                forall|j: int| 0 <= j < p ==> key_lt(derive_key(#[trigger] self.0@[j]), dk),
            decreases n - p,
        {
            p += 1;
        }
        if p < n {
            if derive_key_eq(&self.0[p], &derive) {
                proof {
                    assert(derive_key(self.0@[p as int]) == dk);
                    assert(self@.contains(dk));
                    assert(self@ =~= old(self)@.insert(dk));
                }
                return;
            }
        }
        proof {
            if p < n {
                lemma_key_lt_trichotomy(derive_key(self.0@[p as int]), dk);
            }
            assert(forall|j: int|
                p <= j < n ==> key_lt(dk, derive_key(#[trigger] self.0@[j]))) by {
                if p < n {
                    assert forall|j: int| p <= j < n implies key_lt(
                        dk,
                        derive_key(#[trigger] self.0@[j]),
                    ) by {
                        if j > p {
                            lemma_key_lt_trans(
                                dk,
                                derive_key(self.0@[p as int]),
                                derive_key(self.0@[j]),
                            );
                        }
                    }
                }
            }
        }
        let ghost before = self.0@;
        self.0.insert(p, derive);
        proof {
            assert(self.0@ =~= before.insert(p as int, derive));
            assert(forall|j: int| 0 <= j < p ==> self.0@[j] == before[j]);
            assert(self.0@[p as int] == derive);
            assert(forall|j: int| p < j < self.0@.len() ==> self.0@[j] == before[j - 1]);
            assert forall|k: (int, Seq<char>)| #[trigger] self@.contains(k) implies old(
                self,
            )@.insert(dk).contains(k) by {
                let i = choose|i: int|
                    0 <= i < self.0@.len() && derive_key(#[trigger] self.0@[i]) == k;
                if i < p {
                    assert(derive_key(before[i]) == k);
                } else if i > p {
                    assert(derive_key(before[i - 1]) == k);
                }
            }
            assert forall|k: (int, Seq<char>)| #[trigger]
                old(self)@.insert(dk).contains(k) implies self@.contains(k) by {
                if k == dk {
                    assert(derive_key(self.0@[p as int]) == k);
                } else {
                    let i = choose|i: int|
                        0 <= i < before.len() && derive_key(#[trigger] before[i]) == k;
                    if i < p {
                        assert(derive_key(self.0@[i]) == k);
                    } else {
                        assert(derive_key(self.0@[i + 1]) == k);
                    }
                }
            }
            assert(self@ =~= old(self)@.insert(dk));
            assert(forall|i: int, j: int|
                0 <= i < j < self.0@.len() ==> key_lt(
                    derive_key(#[trigger] self.0@[i]),
                    derive_key(#[trigger] self.0@[j]),
                ));
            assert(closed_keys(self@)) by {
                assert forall|k: (int, Seq<char>)| #[trigger]
                    self@.contains(k) implies implied_keys(k).subset_of(self@) by {
                    if k != dk {
                        assert(old(self)@.contains(k));
                    }
                }
            }
        }
    }

    /// The capabilities in canonical sorted order.
    pub fn get_sorted_derive_vec(&self) -> (r: Vec<Derive>)
        ensures
            r@ == self.list(),
    {
        let n = self.0.len();
        let mut v: Vec<Derive> = Vec::new();
        let mut i: usize = 0;
        while i < n
            invariant
                n == self.0@.len(),
                0 <= i <= n,
                v@.len() == i,
                forall|j: int| 0 <= j < i ==> v@[j] == self.0@[j],
            decreases n - i,
        {
            let c = self.0[i].clone();
            v.push(c);
            i += 1;
        }
        proof {
            assert(v@ =~= self.0@);
        }
        v
    }

    /// The annotation line built from the sorted capabilities.
    pub fn get_str_concat(&self) -> (r: StrConcat)
        ensures
            r.text() == "#[derive("@ + derives_list_text(self.list()) + ")]"@,
    {
        let sorted = self.get_sorted_derive_vec();
        let n = sorted.len();
        let mut names: Vec<String> = Vec::new();
        let mut i: usize = 0;
        while i < n
            invariant
                n == sorted@.len(),
                sorted@ == self.0@,
                0 <= i <= n,
                names@.len() == i,
                forall|j: int| 0 <= j < i ==> (#[trigger] names@[j])@ == derive_name_text(
                    sorted@[j],
                ),
            decreases n - i,
        {
            let name = sorted[i].render().to_owned();
            names.push(name);
            i += 1;
        }
        let r = StrConcat {
            iter: names,
            left_bound: String::from_str("#[derive("),
            right_bound: String::from_str(")]"),
            item_prepend: String::new(),
            item_append: String::new(),
            join: String::from_str(", "),
        };
        proof {
            assert(forall|j: int|
                0 <= j < n ==> #[trigger] r.iter.deep_view()[j] == names@[j]@);
            assert(forall|j: int|
                0 <= j < n ==> #[trigger] r.iter.deep_view()[j] == derive_name_text(self.0@[j]));
            lemma_derives_names_join(self.0@, r.iter.deep_view());
            assert(r.item_prepend@ =~= Seq::<char>::empty());
            assert(r.item_append@ =~= Seq::<char>::empty());
            assert(r.text() == "#[derive("@ + derives_list_text(self.0@) + ")]"@);
        }
        r
    }

    /// The capability annotation line: empty for the empty set, otherwise one
    /// line listing every member in canonical order.
    pub fn render(&self) -> (r: String)
        ensures
            r@ == self.text(),
    {
        if self.0.len() == 0 {
            let r = String::new();
            proof {
                assert(r@ =~= self.text());
            }
            return r;
        }
        let mut out = self.get_str_concat().render();
        out.append("\n");
        out
    }

    /// The exact text of the capability annotation.
    pub open spec fn text(self) -> Seq<char> {
        if self.list().len() == 0 {
            Seq::empty()
        } else {
            "#[derive("@ + derives_list_text(self.list()) + ")]"@ + "\n"@
        }
    }

    /// The set is empty exactly when its key set is empty.
    pub fn is_empty(&self) -> (r: bool)
        ensures
            r == (self@ == Set::<(int, Seq<char>)>::empty()),
    {
        let r = self.0.len() == 0;
        proof {
            if self.0@.len() == 0 {
                assert(self@ =~= Set::<(int, Seq<char>)>::empty());
            } else {
                assert(self@.contains(derive_key(self.0@[0])));
            }
        }
        r
    }
}

/// The names of the capabilities, joined by ", ".
pub open spec fn derives_list_text(s: Seq<Derive>) -> Seq<char>
    decreases s.len(),
{
    if s.len() == 0 {
        Seq::empty()
    } else if s.len() == 1 {
        derive_name_text(s[0])
    } else {
        derives_list_text(s.subrange(0, s.len() - 1)) + ", "@ + derive_name_text(s[s.len() - 1])
    }
}

/// Joining pre-rendered capability names with empty wrappers gives the plain
/// joined name list.
proof fn lemma_derives_names_join(s: Seq<Derive>, names: Seq<Seq<char>>)
    requires
        names.len() == s.len(),
        forall|i: int| 0 <= i < s.len() ==> #[trigger] names[i] == derive_name_text(s[i]),
    ensures
        join_wrapped(names, Seq::empty(), Seq::empty(), ", "@) == derives_list_text(s),
    decreases s.len(),
{
    let e = Seq::<char>::empty();
    if s.len() == 0 {
    } else if s.len() == 1 {
        assert(join_wrapped(names, e, e, ", "@) =~= derive_name_text(s[0]));
    } else {
        let sp = s.subrange(0, s.len() - 1);
        let np = names.subrange(0, names.len() - 1);
        lemma_derives_names_join(sp, np);
        assert(names[names.len() - 1] == derive_name_text(s[s.len() - 1]));
        assert(join_wrapped(names, e, e, ", "@) =~= derives_list_text(s));
    }
}

// ----------------------------------------------------------------------------
// The closure law.
// ----------------------------------------------------------------------------

/// The set of capability keys a list of capabilities holds.
pub open spec fn keys_of(s: Seq<Derive>) -> Set<(int, Seq<char>)> {
    Set::new(
        |k: (int, Seq<char>)| exists|i: int| 0 <= i < s.len() && derive_key(#[trigger] s[i]) == k,
    )
}

/// Strictly ascending in the canonical order.
pub open spec fn strictly_sorted(s: Seq<Derive>) -> bool {
    forall|i: int, j: int|
        0 <= i < j < s.len() ==> key_lt(derive_key(#[trigger] s[i]), derive_key(#[trigger] s[j]))
}

/// A capability's key determines its rendered name.
proof fn lemma_key_determines_name(x: Derive, y: Derive)
    requires
        derive_key(x) == derive_key(y),
    ensures
        derive_name_text(x) == derive_name_text(y),
{
}

/// Two strictly sorted lists holding the same key set agree key by key.
proof fn lemma_sorted_unique(a: Seq<Derive>, b: Seq<Derive>)
    requires
        strictly_sorted(a),
        strictly_sorted(b),
        keys_of(a) == keys_of(b),
    ensures
        a.len() == b.len(),
        forall|i: int| 0 <= i < a.len() ==> derive_key(#[trigger] a[i]) == derive_key(b[i]),
    decreases a.len(),
{
    if a.len() == 0 {
        if b.len() > 0 {
            assert(keys_of(b).contains(derive_key(b[0])));
            assert(keys_of(a).contains(derive_key(b[0])));
            assert(false);
        }
    } else {
        assert(b.len() > 0) by {
            assert(keys_of(a).contains(derive_key(a[0])));
            if b.len() == 0 {
                assert(keys_of(b).contains(derive_key(a[0])));
            }
        }
        let ka = derive_key(a[a.len() - 1]);
        let kb = derive_key(b[b.len() - 1]);
        // the last key of each list is the other's last key: both are maximal
        assert(ka == kb) by {
            assert(keys_of(a).contains(ka));
            assert(keys_of(b).contains(ka));
            let j = choose|j: int| 0 <= j < b.len() && derive_key(#[trigger] b[j]) == ka;
            if j < b.len() - 1 {
                assert(key_lt(ka, kb));
            }
            assert(keys_of(b).contains(kb));
            assert(keys_of(a).contains(kb));
            let i = choose|i: int| 0 <= i < a.len() && derive_key(#[trigger] a[i]) == kb;
            if i < a.len() - 1 {
                assert(key_lt(kb, ka));
            }
            lemma_key_lt_trichotomy(ka, kb);
        }
        let ap = a.subrange(0, a.len() - 1);
        let bp = b.subrange(0, b.len() - 1);
        assert(forall|i: int| 0 <= i < ap.len() ==> ap[i] == a[i]);
        assert(forall|i: int| 0 <= i < bp.len() ==> bp[i] == b[i]);
        assert(keys_of(ap) =~= keys_of(bp)) by {
            assert forall|k: (int, Seq<char>)| #[trigger]
                keys_of(ap).contains(k) implies keys_of(bp).contains(k) by {
                let i = choose|i: int| 0 <= i < ap.len() && derive_key(#[trigger] ap[i]) == k;
                assert(key_lt(k, ka));
                lemma_key_lt_trichotomy(k, ka);
                assert(keys_of(a).contains(k));
                assert(keys_of(b).contains(k));
                let j = choose|j: int| 0 <= j < b.len() && derive_key(#[trigger] b[j]) == k;
                assert(j < b.len() - 1);
                assert(derive_key(bp[j]) == k);
            }
            assert forall|k: (int, Seq<char>)| #[trigger]
                keys_of(bp).contains(k) implies keys_of(ap).contains(k) by {
                let j = choose|j: int| 0 <= j < bp.len() && derive_key(#[trigger] bp[j]) == k;
                assert(key_lt(k, kb));
                lemma_key_lt_trichotomy(k, kb);
                assert(keys_of(b).contains(k));
                assert(keys_of(a).contains(k));
                let i = choose|i: int| 0 <= i < a.len() && derive_key(#[trigger] a[i]) == k;
                assert(i < a.len() - 1);
                assert(derive_key(ap[i]) == k);
            }
        }
        lemma_sorted_unique(ap, bp);
    }
}

/// Lists whose members render as the same names render as the same text.
proof fn lemma_list_text_congruent(a: Seq<Derive>, b: Seq<Derive>)
    requires
        a.len() == b.len(),
        forall|i: int|
            0 <= i < a.len() ==> derive_name_text(#[trigger] a[i]) == derive_name_text(b[i]),
    ensures
        derives_list_text(a) == derives_list_text(b),
    decreases a.len(),
{
    if a.len() > 1 {
        let ap = a.subrange(0, a.len() - 1);
        let bp = b.subrange(0, b.len() - 1);
        assert(forall|i: int| 0 <= i < ap.len() ==> ap[i] == a[i] && bp[i] == b[i]);
        lemma_list_text_congruent(ap, bp);
    }
}

/// Law: the rendered annotation is canonical — two well-formed capability
/// sets holding the same keys render as exactly the same text, whatever the
/// order of the insertions that built them.
pub proof fn lemma_render_canonical(a: Derives, b: Derives)
    requires
        a.wf(),
        b.wf(),
        a@ == b@,
    ensures
        a.text() == b.text(),
{
    assert(a@ =~= keys_of(a.0@));
    assert(b@ =~= keys_of(b.0@));
    lemma_sorted_unique(a.0@, b.0@);
    assert(forall|i: int|
        0 <= i < a.0@.len() ==> derive_name_text(#[trigger] a.0@[i]) == derive_name_text(
            b.0@[i],
        )) by {
        assert forall|i: int|
            0 <= i < a.0@.len() implies derive_name_text(#[trigger] a.0@[i])
            == derive_name_text(b.0@[i]) by {
            lemma_key_determines_name(a.0@[i], b.0@[i]);
        }
    }
    lemma_list_text_congruent(a.0@, b.0@);
}

/// Law: every well-formed capability set is closed under implication — no
/// code can observe a set that is missing an implied member.
pub proof fn lemma_wf_closed(d: Derives)
    requires
        d.wf(),
    ensures
        closed_keys(d@),
{
}

/// Law: a capability set closed under implication is a fixed point of
/// insertion — inserting any capability already present adds nothing.
pub proof fn lemma_insert_fixed_point(v: Set<(int, Seq<char>)>, k: (int, Seq<char>))
    requires
        closed_keys(v),
        v.contains(k),
    ensures
        v.union(implied_keys(k)) == v,
{
    assert(implied_keys(k).subset_of(v));
    assert(v.union(implied_keys(k)) =~= v);
}

} // verus!
