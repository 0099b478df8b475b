//! The variable context: a finite mapping from variable names to values.

use vstd::prelude::*;
use crate::ident::{is_identifier, is_variable_name};
use crate::text::str_eq;

verus! {

/// A mapping from variable names to their values.
///
/// No name occurs twice, and every name satisfies the grammar of variable
/// names. Entries keep the order in which their names were first set.
#[derive(Debug)]
pub struct Context {
    entries: Vec<(String, String)>,
}

/// The name of the `i`-th entry.
spec fn key_at(s: Seq<(String, String)>, i: int) -> Seq<char> {
    s[i].0@
}

/// The value of the `i`-th entry.
spec fn value_at(s: Seq<(String, String)>, i: int) -> Seq<char> {
    s[i].1@
}

/// Some entry of `s` has the name `k`.
spec fn has_key(s: Seq<(String, String)>, k: Seq<char>) -> bool {
    exists|i: int| 0 <= i < s.len() && #[trigger] key_at(s, i) == k
}

/// No two entries of `s` have the same name.
spec fn distinct_keys(s: Seq<(String, String)>) -> bool {
    forall|i: int, j: int| 0 <= i < j < s.len() ==> #[trigger] key_at(s, i) != #[trigger] key_at(s, j)
}

/// Every name in `s` is a variable name.
spec fn valid_keys(s: Seq<(String, String)>) -> bool {
    forall|i: int| 0 <= i < s.len() ==> is_identifier(#[trigger] key_at(s, i))
}

/// The mapping that the entries `s` stand for.
spec fn entries_map(s: Seq<(String, String)>) -> Map<Seq<char>, Seq<char>> {
    Map::new(
        |k: Seq<char>| has_key(s, k),
        |k: Seq<char>| value_at(s, choose|i: int| 0 <= i < s.len() && #[trigger] key_at(s, i) == k),
    )
}

/// The entries `s`, each as a name with its value.
spec fn pairs(s: Seq<(String, String)>) -> Seq<(Seq<char>, Seq<char>)> {
    Seq::new(s.len(), |i: int| (key_at(s, i), value_at(s, i)))
}

/// `entries` lists `m`: each name of `m` once, with its value.
pub open spec fn lists(entries: Seq<(Seq<char>, Seq<char>)>, m: Map<Seq<char>, Seq<char>>) -> bool {
    &&& forall|i: int|
        0 <= i < entries.len() ==> m.contains_key(#[trigger] entries[i].0) && m[entries[i].0]
            == entries[i].1
    &&& forall|k: Seq<char>|
        m.contains_key(k) ==> exists|i: int| 0 <= i < entries.len() && #[trigger] entries[i].0 == k
    &&& forall|i: int, j: int|
        0 <= i < j < entries.len() ==> #[trigger] entries[i].0 != #[trigger] entries[j].0
}

/// Every name in the domain of `m` is a variable name.
pub open spec fn names_only(m: Map<Seq<char>, Seq<char>>) -> bool {
    forall|k: Seq<char>| m.contains_key(k) ==> is_identifier(k)
}

proof fn lemma_entry(s: Seq<(String, String)>, i: int)
    requires
        distinct_keys(s),
        0 <= i < s.len(),
    ensures
        entries_map(s).contains_key(key_at(s, i)),
        entries_map(s)[key_at(s, i)] == value_at(s, i),
{
    let k = key_at(s, i);
    let j = choose|j: int| 0 <= j < s.len() && #[trigger] key_at(s, j) == k;
    assert(j == i);
}

proof fn lemma_push(s: Seq<(String, String)>, e: (String, String))
    requires
        distinct_keys(s),
        !has_key(s, e.0@),
    ensures
        distinct_keys(s.push(e)),
        valid_keys(s) && is_identifier(e.0@) ==> valid_keys(s.push(e)),
        entries_map(s.push(e)) =~= entries_map(s).insert(e.0@, e.1@),
{
    let t = s.push(e);
    assert forall|i: int| 0 <= i < s.len() implies #[trigger] key_at(t, i) == key_at(s, i) by {}
    assert forall|i: int, j: int| 0 <= i < j < t.len() implies #[trigger] key_at(t, i)
        != #[trigger] key_at(t, j) by {
        if j == s.len() {
            assert(key_at(s, i) == key_at(t, i));
        } else {
            assert(key_at(s, i) == key_at(t, i));
            assert(key_at(s, j) == key_at(t, j));
        }
    }
    assert forall|k: Seq<char>| has_key(t, k) <==> (has_key(s, k) || k == e.0@) by {
        if has_key(t, k) {
            let i = choose|i: int| 0 <= i < t.len() && #[trigger] key_at(t, i) == k;
            if i < s.len() {
                assert(key_at(s, i) == k);
            }
        }
        if has_key(s, k) {
            let i = choose|i: int| 0 <= i < s.len() && #[trigger] key_at(s, i) == k;
            assert(key_at(t, i) == k);
        }
        if k == e.0@ {
            assert(key_at(t, s.len() as int) == k);
        }
    }
    assert forall|k: Seq<char>| has_key(t, k) implies entries_map(t)[k] == entries_map(s).insert(
        e.0@,
        e.1@,
    )[k] by {
        let i = choose|i: int| 0 <= i < t.len() && #[trigger] key_at(t, i) == k;
        lemma_entry(t, i);
        if i < s.len() {
            assert(key_at(s, i) == k);
            lemma_entry(s, i);
        }
    }
}

proof fn lemma_update(s: Seq<(String, String)>, i: int, e: (String, String))
    requires
        distinct_keys(s),
        0 <= i < s.len(),
        key_at(s, i) == e.0@,
    ensures
        distinct_keys(s.update(i, e)),
        valid_keys(s) ==> valid_keys(s.update(i, e)),
        entries_map(s.update(i, e)) =~= entries_map(s).insert(e.0@, e.1@),
{
    let t = s.update(i, e);
    assert forall|a: int| 0 <= a < s.len() implies #[trigger] key_at(t, a) == key_at(s, a) by {}
    assert forall|a: int, b: int| 0 <= a < b < t.len() implies #[trigger] key_at(t, a)
        != #[trigger] key_at(t, b) by {
        assert(key_at(s, a) != key_at(s, b));
    }
    assert forall|k: Seq<char>| has_key(t, k) <==> has_key(s, k) by {
        if has_key(t, k) {
            let a = choose|a: int| 0 <= a < t.len() && #[trigger] key_at(t, a) == k;
            assert(key_at(s, a) == k);
        }
        if has_key(s, k) {
            let a = choose|a: int| 0 <= a < s.len() && #[trigger] key_at(s, a) == k;
            assert(key_at(t, a) == k);
        }
    }
    assert(has_key(s, e.0@));
    assert forall|k: Seq<char>| has_key(t, k) implies entries_map(t)[k] == entries_map(s).insert(
        e.0@,
        e.1@,
    )[k] by {
        let a = choose|a: int| 0 <= a < t.len() && #[trigger] key_at(t, a) == k;
        lemma_entry(t, a);
        assert(key_at(s, a) == k);
        lemma_entry(s, a);
    }
}

proof fn lemma_same_entries(s: Seq<(String, String)>, t: Seq<(String, String)>)
    requires
        s.len() == t.len(),
        forall|k: int|
            0 <= k < s.len() ==> key_at(s, k) == key_at(t, k) && value_at(s, k) == value_at(t, k),
    ensures
        distinct_keys(t) ==> distinct_keys(s),
        valid_keys(t) ==> valid_keys(s),
        distinct_keys(t) ==> entries_map(s) =~= entries_map(t),
{
    if distinct_keys(t) {
        assert forall|i: int, j: int| 0 <= i < j < s.len() implies #[trigger] key_at(s, i)
            != #[trigger] key_at(s, j) by {
            assert(key_at(t, i) != key_at(t, j));
        }
        assert forall|k: Seq<char>| has_key(s, k) <==> has_key(t, k) by {
            if has_key(s, k) {
                let i = choose|i: int| 0 <= i < s.len() && #[trigger] key_at(s, i) == k;
                assert(key_at(t, i) == k);
            }
            if has_key(t, k) {
                let i = choose|i: int| 0 <= i < t.len() && #[trigger] key_at(t, i) == k;
                assert(key_at(s, i) == k);
            }
        }
        assert forall|k: Seq<char>| has_key(s, k) implies entries_map(s)[k] == entries_map(t)[k] by {
            let i = choose|i: int| 0 <= i < s.len() && #[trigger] key_at(s, i) == k;
            lemma_entry(s, i);
            assert(key_at(t, i) == k);
            lemma_entry(t, i);
        }
    }
    if valid_keys(t) {
        assert forall|i: int| 0 <= i < s.len() implies is_identifier(#[trigger] key_at(s, i)) by {
            assert(is_identifier(key_at(t, i)));
        }
    }
}

proof fn lemma_valid(s: Seq<(String, String)>)
    requires
        valid_keys(s),
    ensures
        names_only(entries_map(s)),
{
    assert forall|k: Seq<char>| entries_map(s).contains_key(k) implies is_identifier(k) by {
        let i = choose|i: int| 0 <= i < s.len() && #[trigger] key_at(s, i) == k;
        assert(is_identifier(key_at(s, i)));
    }
}

impl View for Context {
    type V = Map<Seq<char>, Seq<char>>;

    closed spec fn view(&self) -> Map<Seq<char>, Seq<char>> {
        entries_map(self.entries@)
    }
}

impl Clone for Context {
    /// A context with the same entries.
    fn clone(&self) -> (r: Context)
        ensures
            r@ == self@,
            r.spec_entries() == self.spec_entries(),
    {
        proof {
            use_type_invariant(self);
        }
        let mut entries: Vec<(String, String)> = Vec::new();
        let mut i: usize = 0;
        while i < self.entries.len()
            invariant
                i <= self.entries.len(),
                entries@.len() == i,
                forall|k: int|
                    0 <= k < i ==> #[trigger] key_at(entries@, k) == key_at(self.entries@, k)
                        && value_at(entries@, k) == value_at(self.entries@, k),
            decreases self.entries.len() - i,
        {
            let ghost before = entries@;
            entries.push((self.entries[i].0.clone(), self.entries[i].1.clone()));
            assert forall|k: int| 0 <= k <= i implies #[trigger] key_at(entries@, k) == key_at(
                self.entries@,
                k,
            ) && value_at(entries@, k) == value_at(self.entries@, k) by {
                if k < i {
                    assert(key_at(before, k) == key_at(self.entries@, k));
                    assert(entries@[k] == before[k]);
                }
            }
            i += 1;
        }
        proof {
            lemma_same_entries(entries@, self.entries@);
            assert(pairs(entries@) =~= pairs(self.entries@));
        }
        Context { entries }
    }
}

impl Context {
    #[verifier::type_invariant]
    spec fn inv(self) -> bool {
        distinct_keys(self.entries@) && valid_keys(self.entries@)
    }

    /// The entries, each a name with its value, in the order in which the
    /// names were first set.
    pub closed spec fn spec_entries(&self) -> Seq<(Seq<char>, Seq<char>)> {
        pairs(self.entries@)
    }

    /// An empty context.
    pub fn new() -> (r: Context)
        ensures
            r@ == Map::<Seq<char>, Seq<char>>::empty(),
    {
        let r = Context { entries: Vec::new() };
        assert(r@ =~= Map::<Seq<char>, Seq<char>>::empty());
        r
    }

    /// States what holds of every context: its names are variable names, and
    /// its entries hold each name once.
    pub fn well_formed(&self)
        ensures
            names_only(self@),
            self@.dom().finite(),
            lists(self.spec_entries(), self@),
    {
        proof {
            use_type_invariant(self);
            lemma_valid(self.entries@);
            lemma_finite(self.entries@);
            lemma_lists(self.entries@);
        }
    }

    /// The number of entries.
    pub fn len(&self) -> (n: usize)
        ensures
            n == self.spec_entries().len(),
            n == self@.len(),
    {
        proof {
            use_type_invariant(self);
            lemma_len(self.entries@);
        }
        self.entries.len()
    }

    /// The entries in order.
    pub fn entries(&self) -> (r: &Vec<(String, String)>)
        ensures
            r.deep_view() == self.spec_entries(),
    {
        assert(self.entries.deep_view() =~= pairs(self.entries@));
        &self.entries
    }

    /// Where the entry named `key` stands.
    fn position(&self, key: &str) -> (r: Option<usize>)
        ensures
            match r {
                Some(i) => i < self.entries.len() && key_at(self.entries@, i as int) == key@,
                None => !has_key(self.entries@, key@),
            },
    {
        let mut i: usize = 0;
        while i < self.entries.len()
            invariant
                i <= self.entries.len(),
                forall|k: int| 0 <= k < i ==> #[trigger] key_at(self.entries@, k) != key@,
            decreases self.entries.len() - i,
        {
            if str_eq(self.entries[i].0.as_str(), key) {
                return Some(i);
            }
            i += 1;
        }
        None
    }

    /// Whether `key` has a value.
    pub fn contains_key(&self, key: &str) -> (r: bool)
        ensures
            r == self@.contains_key(key@),
    {
        self.position(key).is_some()
    }

    /// The value of `key`, if it has one.
    pub fn get(&self, key: &str) -> (r: Option<&String>)
        ensures
            match r {
                Some(v) => self@.contains_key(key@) && v@ == self@[key@],
                None => !self@.contains_key(key@),
            },
    {
        match self.position(key) {
            Some(i) => {
                proof {
                    use_type_invariant(self);
                    lemma_entry(self.entries@, i as int);
                }
                Some(&self.entries[i].1)
            },
            None => None,
        }
    }

    /// Gives `key` the value `value`, replacing an earlier value, where `key`
    /// is a variable name; leaves the context as it is where it is not.
    /// Returns whether `key` was accepted.
    pub fn insert(&mut self, key: String, value: String) -> (r: bool)
        ensures
            r == is_identifier(key@),
            r ==> final(self)@ == old(self)@.insert(key@, value@),
            !r ==> final(self)@ == old(self)@,
    {
        if !is_variable_name(key.as_str()) {
            return false;
        }
        proof {
            use_type_invariant(&*self);
        }
        let found = self.position(key.as_str());
        let mut entries: Vec<(String, String)> = Vec::new();
        core::mem::swap(&mut self.entries, &mut entries);
        match found {
            Some(i) => {
                proof {
                    lemma_update(entries@, i as int, (key, value));
                }
                entries.set(i, (key, value));
            },
            None => {
                proof {
                    lemma_push(entries@, (key, value));
                }
                entries.push((key, value));
            },
        }
        self.entries = entries;
        true
    }

    /// Gives each name of `other` the value that it has there: where both
    /// hold a name, the value of `other` stays.
    pub fn extend(&mut self, other: &Context)
        ensures
            final(self)@ == old(self)@.union_prefer_right(other@),
    {
        proof {
            use_type_invariant(other);
        }
        let ghost all = other.entries@;
        assert(all.take(0) =~= Seq::<(String, String)>::empty());
        assert(old(self)@.union_prefer_right(entries_map(all.take(0))) =~= old(self)@);
        let mut i: usize = 0;
        while i < other.entries.len()
            invariant
                i <= other.entries.len(),
                all == other.entries@,
                distinct_keys(all),
                valid_keys(all),
                self@ == old(self)@.union_prefer_right(entries_map(all.take(i as int))),
            decreases other.entries.len() - i,
        {
            let key = other.entries[i].0.clone();
            let value = other.entries[i].1.clone();
            proof {
                let done = all.take(i as int);
                assert(key_at(all, i as int) == key@);
                assert(value_at(all, i as int) == value@);
                assert forall|a: int, b: int| 0 <= a < b < done.len() implies #[trigger] key_at(
                    done,
                    a,
                ) != #[trigger] key_at(done, b) by {
                    assert(key_at(all, a) != key_at(all, b));
                }
                assert(!has_key(done, key@)) by {
                    if has_key(done, key@) {
                        let a = choose|a: int| 0 <= a < done.len() && #[trigger] key_at(done, a) == key@;
                        assert(key_at(all, a) != key_at(all, i as int));
                    }
                }
                lemma_push(done, all[i as int]);
                assert(all.take(i + 1) =~= done.push(all[i as int]));
                assert(old(self)@.union_prefer_right(entries_map(done)).insert(key@, value@)
                    =~= old(self)@.union_prefer_right(entries_map(done).insert(key@, value@)));
            }
            self.insert(key, value);
            i += 1;
        }
        assert(all.take(i as int) =~= all);
    }
}

proof fn lemma_lists(s: Seq<(String, String)>)
    requires
        distinct_keys(s),
    ensures
        lists(pairs(s), entries_map(s)),
{
    let entries = pairs(s);
    let m = entries_map(s);
    assert forall|i: int| 0 <= i < entries.len() implies m.contains_key(#[trigger] entries[i].0)
        && m[entries[i].0] == entries[i].1 by {
        lemma_entry(s, i);
    }
    assert forall|k: Seq<char>| m.contains_key(k) implies exists|i: int|
        0 <= i < entries.len() && #[trigger] entries[i].0 == k by {
        let i = choose|i: int| 0 <= i < s.len() && #[trigger] key_at(s, i) == k;
        assert(entries[i].0 == k);
    }
    assert forall|i: int, j: int| 0 <= i < j < entries.len() implies #[trigger] entries[i].0
        != #[trigger] entries[j].0 by {
        assert(key_at(s, i) != key_at(s, j));
    }
}

proof fn lemma_len(s: Seq<(String, String)>)
    requires
        distinct_keys(s),
    ensures
        entries_map(s).dom().finite(),
        entries_map(s).len() == s.len(),
    decreases s.len(),
{
    lemma_finite(s);
    if s.len() == 0 {
        assert(entries_map(s).dom() =~= Set::<Seq<char>>::empty());
    } else {
        let t = s.drop_last();
        assert forall|i: int, j: int| 0 <= i < j < t.len() implies #[trigger] key_at(t, i)
            != #[trigger] key_at(t, j) by {
            assert(key_at(s, i) != key_at(s, j));
        }
        lemma_len(t);
        assert(!has_key(t, s.last().0@)) by {
            if has_key(t, s.last().0@) {
                let i = choose|i: int| 0 <= i < t.len() && #[trigger] key_at(t, i) == s.last().0@;
                assert(key_at(s, i) != key_at(s, s.len() - 1));
            }
        }
        lemma_push(t, s.last());
        assert(t.push(s.last()) =~= s);
        assert(entries_map(s).dom() =~= entries_map(t).dom().insert(s.last().0@));
        assert(!entries_map(t).dom().contains(s.last().0@));
    }
}

proof fn lemma_finite(s: Seq<(String, String)>)
    ensures
        entries_map(s).dom().finite(),
    decreases s.len(),
{
    let keys = Set::new(|k: Seq<char>| has_key(s, k));
    assert(entries_map(s).dom() =~= keys);
    if s.len() == 0 {
        assert(keys =~= Set::<Seq<char>>::empty());
    } else {
        let t = s.drop_last();
        lemma_finite(t);
        let prev = Set::new(|k: Seq<char>| has_key(t, k));
        assert(entries_map(t).dom() =~= prev);
        assert forall|k: Seq<char>| keys.contains(k) <==> prev.insert(key_at(s, s.len() - 1)).contains(
            k,
        ) by {
            if has_key(s, k) {
                let i = choose|i: int| 0 <= i < s.len() && #[trigger] key_at(s, i) == k;
                if i < s.len() - 1 {
                    assert(key_at(t, i) == k);
                }
            }
            if has_key(t, k) {
                let i = choose|i: int| 0 <= i < t.len() && #[trigger] key_at(t, i) == k;
                assert(key_at(s, i) == k);
            }
        }
        assert(keys =~= prev.insert(key_at(s, s.len() - 1)));
    }
}

} // verus!
