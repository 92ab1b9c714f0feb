//! Evaluation of a predicate tree against a runtime-supplied flag source.
use vstd::prelude::*;

use crate::{Cfg, PredView, Predicate, pred_views};

verus! {

/// The view of an optional borrowed string.
pub open spec fn opt_str_view(v: Option<&str>) -> Option<Seq<char>> {
    match v {
        Some(s) => Some(s@),
        None => None,
    }
}

/// A matcher: the capability of deciding whether a candidate string satisfies
/// some criterion.
pub trait Matcher {
    /// What this matcher accepts.
    spec fn spec_matches(&self, value: Seq<char>) -> bool;

    /// Returns `true` if `value` satisfies the matcher.
    fn matches(&self, value: &str) -> (r: bool)
        ensures
            r == self.spec_matches(value@),
    ;
}

/// A pattern: the capability of deciding whether a flag source contains a key,
/// with or without a requested value.
pub trait Pattern {
    /// What this pattern accepts: a key, and optionally a requested value.
    spec fn spec_matches(&self, key: Seq<char>, value: Option<Seq<char>>) -> bool;

    /// Returns `true` if the flag source satisfies the query `(key, value)`.
    fn matches(&self, key: &str, value: Option<&str>) -> (r: bool)
        ensures
            r == self.spec_matches(key@, opt_str_view(value)),
    ;
}

/// What it means for a predicate to hold of a pattern: `Any` is a disjunction
/// of its children, `All` a conjunction, `Not` a negation, and the leaves are
/// queries against the pattern.
pub open spec fn eval<P: Pattern>(p: PredView, pat: P) -> bool
    decreases p,
{
    match p {
        PredView::Any(cs) => eval_any(cs, pat),
        PredView::All(cs) => eval_all(cs, pat),
        PredView::Not(q) => !eval(*q, pat),
        PredView::Name(n) => pat.spec_matches(n, None),
        PredView::NameValue(n, v) => pat.spec_matches(n, Some(v)),
    }
}

/// True when at least one element of `cs` evaluates to true; false of the
/// empty sequence.
pub open spec fn eval_any<P: Pattern>(cs: Seq<PredView>, pat: P) -> bool
    decreases cs,
{
    if cs.len() == 0 {
        false
    } else {
        eval(cs[0], pat) || eval_any(cs.drop_first(), pat)
    }
}

/// True when every element of `cs` evaluates to true; true of the empty
/// sequence.
pub open spec fn eval_all<P: Pattern>(cs: Seq<PredView>, pat: P) -> bool
    decreases cs,
{
    if cs.len() == 0 {
        true
    } else {
        eval(cs[0], pat) && eval_all(cs.drop_first(), pat)
    }
}

/// A disjunction holds exactly when some element holds.
pub proof fn lemma_eval_any_exists<P: Pattern>(cs: Seq<PredView>, pat: P)
    ensures
        eval_any(cs, pat) == (exists|i: int| 0 <= i < cs.len() && eval(#[trigger] cs[i], pat)),
    decreases cs.len(),
{
    if cs.len() == 0 {
    } else {
        lemma_eval_any_exists(cs.drop_first(), pat);
        if eval(cs[0], pat) {
            assert(eval(cs[0], pat));
        } else if eval_any(cs.drop_first(), pat) {
            let j = choose|j: int|
                0 <= j < cs.drop_first().len() && eval(#[trigger] cs.drop_first()[j], pat);
            assert(cs.drop_first()[j] == cs[j + 1]);
            assert(eval(cs[j + 1], pat));
        } else {
            assert forall|i: int| 0 <= i < cs.len() implies !eval(#[trigger] cs[i], pat) by {
                if i > 0 {
                    assert(cs.drop_first()[i - 1] == cs[i]);
                }
            }
        }
    }
}

/// A conjunction holds exactly when every element holds.
pub proof fn lemma_eval_all_forall<P: Pattern>(cs: Seq<PredView>, pat: P)
    ensures
        eval_all(cs, pat) == (forall|i: int| 0 <= i < cs.len() ==> eval(#[trigger] cs[i], pat)),
    decreases cs.len(),
{
    if cs.len() == 0 {
    } else {
        lemma_eval_all_forall(cs.drop_first(), pat);
        if eval_all(cs, pat) {
            assert forall|i: int| 0 <= i < cs.len() implies eval(#[trigger] cs[i], pat) by {
                if i > 0 {
                    assert(cs.drop_first()[i - 1] == cs[i]);
                    assert(eval(cs.drop_first()[i - 1], pat));
                }
            }
        } else {
            if eval(cs[0], pat) {
                let j = choose|j: int|
                    0 <= j < cs.drop_first().len() && !eval(#[trigger] cs.drop_first()[j], pat);
                assert(cs.drop_first()[j] == cs[j + 1]);
                assert(!eval(cs[j + 1], pat));
            }
        }
    }
}

impl Matcher for &str {
    open spec fn spec_matches(&self, value: Seq<char>) -> bool {
        self@ == value
    }

    fn matches(&self, value: &str) -> (r: bool) {
        let a: String = (*self).to_owned();
        let b: String = value.to_owned();
        a == b
    }
}

impl Matcher for String {
    open spec fn spec_matches(&self, value: Seq<char>) -> bool {
        self@ == value
    }

    fn matches(&self, value: &str) -> (r: bool) {
        let b: String = value.to_owned();
        *self == b
    }
}

impl Matcher for Vec<&str> {
    open spec fn spec_matches(&self, value: Seq<char>) -> bool {
        exists|i: int| 0 <= i < self@.len() && (#[trigger] self@[i])@ == value
    }

    fn matches(&self, value: &str) -> (r: bool) {
        let mut i: usize = 0;
        while i < self.len()
            invariant
                0 <= i <= self@.len(),
                forall|j: int| 0 <= j < i ==> (#[trigger] self@[j])@ != value@,
            decreases self@.len() - i,
        {
            let s: &str = self[i];
            if Matcher::matches(&s, value) {
                return true;
            }
            i += 1;
        }
        false
    }
}

impl Matcher for &[&str] {
    open spec fn spec_matches(&self, value: Seq<char>) -> bool {
        exists|i: int| 0 <= i < self@.len() && (#[trigger] self@[i])@ == value
    }

    fn matches(&self, value: &str) -> (r: bool) {
        let mut i: usize = 0;
        while i < self.len()
            invariant
                0 <= i <= self@.len(),
                forall|j: int| 0 <= j < i ==> (#[trigger] self@[j])@ != value@,
            decreases self@.len() - i,
        {
            let s: &str = self[i];
            if Matcher::matches(&s, value) {
                return true;
            }
            i += 1;
        }
        false
    }
}

impl<T: Matcher> Matcher for Option<T> {
    /// An absent matcher accepts nothing.
    open spec fn spec_matches(&self, value: Seq<char>) -> bool {
        match self {
            Some(m) => m.spec_matches(value),
            None => false,
        }
    }

    fn matches(&self, value: &str) -> (r: bool) {
        match self {
            Some(m) => m.matches(value),
            None => false,
        }
    }
}

impl<K: Matcher, V: Matcher> Pattern for Vec<(K, Option<V>)> {
    /// A value query succeeds on some entry whose key matches and whose
    /// declared value exists and accepts the requested value; a presence query
    /// succeeds on some entry whose key matches, declared value or not.
    open spec fn spec_matches(&self, key: Seq<char>, value: Option<Seq<char>>) -> bool {
        match value {
            Some(v) => exists|i: int|
                0 <= i < self@.len() && (#[trigger] self@[i]).0.spec_matches(key)
                    && self@[i].1 is Some && self@[i].1->0.spec_matches(v),
            None => exists|i: int| 0 <= i < self@.len() && (#[trigger] self@[i]).0.spec_matches(key),
        }
    }

    #[verifier::loop_isolation(false)]
    fn matches(&self, key: &str, value: Option<&str>) -> (r: bool) {
        match value {
            Some(v) => {
                let mut i: usize = 0;
                while i < self.len()
                    invariant
                        0 <= i <= self@.len(),
                        forall|j: int| 0 <= j < i
                            ==> !((#[trigger] self@[j]).0.spec_matches(key@) && self@[j].1 is Some
                                && self@[j].1->0.spec_matches(v@)),
                    decreases self@.len() - i,
                {
                    let entry = &self[i];
                    if entry.0.matches(key) {
                        match &entry.1 {
                            Some(m) => {
                                if m.matches(v) {
                                    return true;
                                }
                            },
                            None => {},
                        }
                    }
                    i += 1;
                }
                false
            },
            None => {
                let mut i: usize = 0;
                while i < self.len()
                    invariant
                        0 <= i <= self@.len(),
                        forall|j: int| 0 <= j < i ==> !(#[trigger] self@[j]).0.spec_matches(key@),
                    decreases self@.len() - i,
                {
                    let entry = &self[i];
                    if entry.0.matches(key) {
                        return true;
                    }
                    i += 1;
                }
                false
            },
        }
    }
}

impl<K: Matcher, V: Matcher> Pattern for &[(K, Option<V>)] {
    /// The list shape of a flag source, seen through a borrowed slice: the
    /// same queries as the owned list.
    open spec fn spec_matches(&self, key: Seq<char>, value: Option<Seq<char>>) -> bool {
        match value {
            Some(v) => exists|i: int|
                0 <= i < self@.len() && (#[trigger] self@[i]).0.spec_matches(key)
                    && self@[i].1 is Some && self@[i].1->0.spec_matches(v),
            None => exists|i: int| 0 <= i < self@.len() && (#[trigger] self@[i]).0.spec_matches(key),
        }
    }

    #[verifier::loop_isolation(false)]
    fn matches(&self, key: &str, value: Option<&str>) -> (r: bool) {
        match value {
            Some(v) => {
                let mut i: usize = 0;
                while i < self.len()
                    invariant
                        0 <= i <= self@.len(),
                        forall|j: int| 0 <= j < i
                            ==> !((#[trigger] self@[j]).0.spec_matches(key@) && self@[j].1 is Some
                                && self@[j].1->0.spec_matches(v@)),
                    decreases self@.len() - i,
                {
                    let entry = &self[i];
                    if entry.0.matches(key) {
                        match &entry.1 {
                            Some(m) => {
                                if m.matches(v) {
                                    return true;
                                }
                            },
                            None => {},
                        }
                    }
                    i += 1;
                }
                false
            },
            None => {
                let mut i: usize = 0;
                while i < self.len()
                    invariant
                        0 <= i <= self@.len(),
                        forall|j: int| 0 <= j < i ==> !(#[trigger] self@[j]).0.spec_matches(key@),
                    decreases self@.len() - i,
                {
                    let entry = &self[i];
                    if entry.0.matches(key) {
                        return true;
                    }
                    i += 1;
                }
                false
            },
        }
    }
}

/// A flag source shaped as a mapping: each key is declared once, with an
/// optional value matcher.
pub struct FlagMap<V> {
    entries: Vec<(String, Option<V>)>,
}

/// The keys of a list of entries are pairwise distinct.
pub open spec fn keys_unique<V>(s: Seq<(String, Option<V>)>) -> bool {
    forall|i: int, j: int| 0 <= i < j < s.len() ==> (#[trigger] s[i]).0@ != (#[trigger] s[j]).0@
}

/// The mapping that a list of entries holds: each declared key to its
/// optional value matcher.
pub open spec fn entries_map<V>(s: Seq<(String, Option<V>)>) -> Map<Seq<char>, Option<V>> {
    Map::new(
        |k: Seq<char>| exists|i: int| 0 <= i < s.len() && (#[trigger] s[i]).0@ == k,
        |k: Seq<char>|
            {
                let i = choose|i: int| 0 <= i < s.len() && (#[trigger] s[i]).0@ == k;
                s[i].1
            },
    )
}

/// Each entry of a duplicate-free list is what its mapping holds at its key.
proof fn lemma_entries_map_index<V>(s: Seq<(String, Option<V>)>, i: int)
    requires
        keys_unique(s),
        0 <= i < s.len(),
    ensures
        entries_map(s).dom().contains(s[i].0@),
        entries_map(s)[s[i].0@] == s[i].1,
{
    let k = s[i].0@;
    assert(entries_map(s).dom().contains(k));
    let j = choose|j: int| 0 <= j < s.len() && (#[trigger] s[j]).0@ == k;
    if j < i {
        assert(s[j].0@ != s[i].0@);
    } else if j > i {
        assert(s[i].0@ != s[j].0@);
    }
}

/// Appending an entry whose key is not declared sets exactly that key in the
/// mapping.
proof fn lemma_entries_map_push<V>(
    pre: Seq<(String, Option<V>)>,
    x: (String, Option<V>),
    m0: Map<Seq<char>, Option<V>>,
)
    requires
        keys_unique(pre),
        forall|j: int| 0 <= j < pre.len() ==> (#[trigger] pre[j]).0@ != x.0@,
        forall|j: int|
            0 <= j < pre.len() ==> m0.dom().contains((#[trigger] pre[j]).0@) && m0[pre[j].0@]
                == pre[j].1,
        forall|kk: Seq<char>|
            #[trigger] m0.dom().contains(kk) ==> kk == x.0@ || exists|j: int|
                0 <= j < pre.len() && (#[trigger] pre[j]).0@ == kk,
    ensures
        keys_unique(pre.push(x)),
        entries_map(pre.push(x)) == m0.insert(x.0@, x.1),
{
    let post = pre.push(x);
    let n = post.len() as int;
    assert forall|a: int, b: int| 0 <= a < b < n implies (#[trigger] post[a]).0@ != (
    #[trigger] post[b]).0@ by {
        assert(post[a] == pre[a]);
        if b < n - 1 {
            assert(post[b] == pre[b]);
        } else {
            assert(post[b] == x);
        }
    }
    assert forall|kk: Seq<char>|
        #![trigger entries_map(post).dom().contains(kk)]
        #![trigger m0.insert(x.0@, x.1).dom().contains(kk)]
        entries_map(post).dom().contains(kk) <==> m0.insert(x.0@, x.1).dom().contains(kk) by {
        if kk == x.0@ {
            assert(post[n - 1].0@ == kk);
        }
        if entries_map(post).dom().contains(kk) && kk != x.0@ {
            let j = choose|j: int| 0 <= j < n && (#[trigger] post[j]).0@ == kk;
            assert(post[j] == pre[j]);
            assert(m0.dom().contains(kk));
        }
        if m0.dom().contains(kk) && kk != x.0@ {
            let j = choose|j: int| 0 <= j < pre.len() && (#[trigger] pre[j]).0@ == kk;
            assert(post[j] == pre[j]);
            assert(entries_map(post).dom().contains(kk));
        }
    }
    assert forall|kk: Seq<char>| entries_map(post).dom().contains(kk) implies entries_map(post)[kk]
        == m0.insert(x.0@, x.1)[kk] by {
        let j = choose|j: int| 0 <= j < n && (#[trigger] post[j]).0@ == kk;
        lemma_entries_map_index(post, j);
        if kk == x.0@ {
            lemma_entries_map_index(post, n - 1);
        } else {
            assert(post[j] == pre[j]);
        }
    }
    assert(entries_map(post) =~= m0.insert(x.0@, x.1));
}

/// Declares `key` with `value` in a duplicate-free list of entries, replacing
/// any earlier declaration of the same key.
#[verifier::loop_isolation(false)]
fn insert_entries<V>(entries: Vec<(String, Option<V>)>, key: &str, value: Option<V>) -> (r: Vec<
    (String, Option<V>),
>)
    requires
        keys_unique(entries@),
    ensures
        keys_unique(r@),
        entries_map(r@) == entries_map(entries@).insert(key@, value),
{
    let ghost e0 = entries@;
    let ghost m0 = entries_map(e0);
    let mut entries = entries;
    let mut i: usize = 0;
    let mut found: bool = false;
    while !found && i < entries.len()
        invariant
            entries@ == e0,
            i <= e0.len(),
            forall|j: int| 0 <= j < i ==> (#[trigger] e0[j]).0@ != key@,
            found ==> i < e0.len() && e0[i as int].0@ == key@,
        decreases e0.len() - i, (if found { 0int } else { 1int }),
    {
        if crate::parsing::str_eq_string(&entries[i].0, key) {
            found = true;
        } else {
            i += 1;
        }
    }
    if found {
        entries.remove(i);
        proof {
            assert forall|j: int| 0 <= j < entries@.len() implies (#[trigger] entries@[j]).0@
                != key@ && entries@[j] == e0[(if j < i as int { j } else { j + 1 })] by {
                assert(entries@[j] == if j < i as int {
                    e0[j]
                } else {
                    e0[j + 1]
                });
                if j >= i as int {
                    assert(e0[i as int].0@ != e0[j + 1].0@);
                }
            }
            assert forall|a: int, b: int|
                0 <= a < b < entries@.len() implies (#[trigger] entries@[a]).0@ != (
            #[trigger] entries@[b]).0@ by {
                assert(entries@[a] == e0[(if a < i as int { a } else { a + 1 })]);
                assert(entries@[b] == e0[(if b < i as int { b } else { b + 1 })]);
            }
        }
    }
    let ghost mid = entries@;
    proof {
        assert forall|j: int|
            0 <= j < mid.len() implies m0.dom().contains((#[trigger] mid[j]).0@) && m0[mid[j].0@]
            == mid[j].1 by {
            let jj: int = if found && j >= i as int {
                j + 1
            } else {
                j
            };
            assert(mid[j] == e0[jj]);
            lemma_entries_map_index(e0, jj);
        }
        assert forall|kk: Seq<char>| #[trigger]
            m0.dom().contains(kk) implies kk == key@ || exists|j: int|
            0 <= j < mid.len() && (#[trigger] mid[j]).0@ == kk by {
            if kk != key@ {
                let j = choose|j: int| 0 <= j < e0.len() && (#[trigger] e0[j]).0@ == kk;
                let jj: int = if found && j > i as int {
                    j - 1
                } else {
                    j
                };
                if found {
                    assert(e0[i as int].0@ == key@);
                }
                assert(mid[jj] == e0[j]);
            }
        }
    }
    let x = (key.to_owned(), value);
    proof {
        lemma_entries_map_push(mid, (x.0, x.1), m0);
    }
    entries.push(x);
    entries
}

impl<V> FlagMap<V> {
    /// The keys are pairwise distinct.
    #[verifier::type_invariant]
    closed spec fn wf(&self) -> bool {
        keys_unique(self.entries@)
    }

    /// The empty flag source.
    pub fn new() -> (r: FlagMap<V>)
        ensures
            r@ == Map::<Seq<char>, Option<V>>::empty(),
    {
        let r = FlagMap { entries: Vec::new() };
        proof {
            assert(r@ =~= Map::<Seq<char>, Option<V>>::empty());
        }
        r
    }

    /// Declares `key` with the optional value matcher `value`, replacing any
    /// earlier declaration of the same key.
    pub fn insert(&mut self, key: &str, value: Option<V>)
        ensures
            final (self)@ == old(self)@.insert(key@, value),
    {
        proof {
            use_type_invariant(&*self);
        }
        let mut entries: Vec<(String, Option<V>)> = Vec::new();
        core::mem::swap(&mut self.entries, &mut entries);
        let mut entries = insert_entries(entries, key, value);
        core::mem::swap(&mut self.entries, &mut entries);
    }
}

impl<V> View for FlagMap<V> {
    type V = Map<Seq<char>, Option<V>>;

    /// The mapping from declared keys to their optional value matchers.
    closed spec fn view(&self) -> Map<Seq<char>, Option<V>> {
        entries_map(self.entries@)
    }
}

impl<V: Matcher> Pattern for FlagMap<V> {
    /// A presence query succeeds when the key is declared, value or no value;
    /// a value query succeeds when the key is declared with a value whose
    /// matcher accepts the requested value.
    open spec fn spec_matches(&self, key: Seq<char>, value: Option<Seq<char>>) -> bool {
        match value {
            Some(v) => self@.dom().contains(key) && self@[key] is Some
                && self@[key]->0.spec_matches(v),
            None => self@.dom().contains(key),
        }
    }

    #[verifier::loop_isolation(false)]
    fn matches(&self, key: &str, value: Option<&str>) -> (r: bool) {
        proof {
            use_type_invariant(self);
        }
        let mut i: usize = 0;
        while i < self.entries.len()
            invariant
                forall|j: int| 0 <= j < i ==> (#[trigger] self.entries@[j]).0@ != key@,
            decreases self.entries@.len() - i,
        {
            if crate::parsing::str_eq_string(&self.entries[i].0, key) {
                proof {
                    lemma_entries_map_index(self.entries@, i as int);
                }
                return match value {
                    None => true,
                    Some(v) => match &self.entries[i].1 {
                        Some(m) => m.matches(v),
                        None => false,
                    },
                };
            }
            i += 1;
        }
        false
    }
}

impl Predicate {
    /// Returns `true` if the configuration in `pattern` satisfies the
    /// predicate.
    #[verifier::loop_isolation(false)]
    pub fn matches<P: Pattern>(&self, pattern: &P) -> (r: bool)
        ensures
            r == eval(self@, *pattern),
        decreases *self,
    {
        match self {
            Predicate::Any(cs) => {
                proof {
                    lemma_eval_any_exists(pred_views(cs@), *pattern);
                }
                let mut i: usize = 0;
                while i < cs.len()
                    invariant
                        0 <= i <= cs@.len(),
                        forall|j: int| 0 <= j < i ==> !eval(#[trigger] pred_views(cs@)[j], *pattern),
                    decreases cs@.len() - i,
                {
                    proof {
                        assert(decreases_to!(*self => self->Any_0));
                        assert(decreases_to!(self->Any_0 => self->Any_0@));
                        assert(decreases_to!(self->Any_0@ => self->Any_0@[i as int]));
                    }
                    if cs[i].matches(pattern) {
                        assert(eval(pred_views(cs@)[i as int], *pattern));
                        return true;
                    }
                    i += 1;
                }
                false
            },
            Predicate::All(cs) => {
                proof {
                    lemma_eval_all_forall(pred_views(cs@), *pattern);
                }
                let mut i: usize = 0;
                while i < cs.len()
                    invariant
                        0 <= i <= cs@.len(),
                        forall|j: int| 0 <= j < i ==> eval(#[trigger] pred_views(cs@)[j], *pattern),
                    decreases cs@.len() - i,
                {
                    proof {
                        assert(decreases_to!(*self => self->All_0));
                        assert(decreases_to!(self->All_0 => self->All_0@));
                        assert(decreases_to!(self->All_0@ => self->All_0@[i as int]));
                    }
                    if !cs[i].matches(pattern) {
                        assert(!eval(pred_views(cs@)[i as int], *pattern));
                        return false;
                    }
                    i += 1;
                }
                true
            },
            Predicate::Not(q) => !q.matches(pattern),
            Predicate::Name(n) => pattern.matches(n.as_str(), None),
            Predicate::NameValue(n, v) => pattern.matches(n.as_str(), Some(v.as_str())),
        }
    }
}

impl Cfg {
    /// Returns `true` if the configuration in `pattern` satisfies the wrapped
    /// predicate.
    pub fn matches<P: Pattern>(&self, pattern: &P) -> (r: bool)
        ensures
            r == eval(self@, *pattern),
    {
        self.0.matches(pattern)
    }
}

} // verus!
