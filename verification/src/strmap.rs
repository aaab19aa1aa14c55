//! A small map keyed by strings, with a precise model as a `Map`.

use vstd::prelude::*;
use crate::text::{text_lt, lemma_text_lt_asym};

verus! {

/// A map keyed by strings, kept as a list of entries in insertion order in
/// which no key occurs twice.
#[derive(Debug)]
pub struct StrMap<V> {
    entries: Vec<(String, V)>,
}

impl<V> StrMap<V> {
    /// The keys in insertion order.
    pub closed spec fn names(self) -> Seq<Seq<char>> {
        self.entries@.map_values(|e: (String, V)| e.0@)
    }

    /// No key occurs twice.
    pub closed spec fn wf(self) -> bool {
        forall|i: int, j: int|
            0 <= i < j < self.entries@.len() ==> self.entries@[i].0@ != self.entries@[j].0@
    }

    /// The map from keys to values.
    pub closed spec fn view(self) -> Map<Seq<char>, V> {
        Map::new(
            |k: Seq<char>| exists|i: int| 0 <= i < self.entries@.len() && self.entries@[i].0@ == k,
            |k: Seq<char>|
                self.entries@[choose|i: int| 0 <= i < self.entries@.len() && self.entries@[i].0@ == k].1,
        )
    }

    proof fn lemma_view_at(self, i: int)
        requires
            self.wf(),
            0 <= i < self.entries@.len(),
        ensures
            self.view().contains_key(self.entries@[i].0@),
            self.view()[self.entries@[i].0@] == self.entries@[i].1,
    {
        let k = self.entries@[i].0@;
        assert(self.view().contains_key(k));
        let j = choose|j: int| 0 <= j < self.entries@.len() && self.entries@[j].0@ == k;
        assert(i == j);
    }

    /// The entries in insertion order.
    pub closed spec fn seq(self) -> Seq<(String, V)> {
        self.entries@
    }

    /// Relates the entry list to the map view.
    pub proof fn lemma_seq_view(self)
        requires
            self.wf(),
        ensures
            forall|i: int, j: int|
                0 <= i < j < self.seq().len() ==> self.seq()[i].0@ != self.seq()[j].0@,
            forall|i: int|
                0 <= i < self.seq().len() ==> #[trigger] self.view().contains_key(self.seq()[i].0@)
                    && self.view()[self.seq()[i].0@] == self.seq()[i].1,
            forall|k: Seq<char>|
                #[trigger] self.view().contains_key(k) ==> exists|i: int|
                    0 <= i < self.seq().len() && self.seq()[i].0@ == k,
    {
        assert forall|i: int| 0 <= i < self.seq().len() implies #[trigger] self.view().contains_key(
            self.seq()[i].0@,
        ) && self.view()[self.seq()[i].0@] == self.seq()[i].1 by {
            self.lemma_view_at(i);
        }
        assert forall|k: Seq<char>| #[trigger] self.view().contains_key(k) implies exists|i: int|
            0 <= i < self.seq().len() && self.seq()[i].0@ == k by {
            let i = choose|i: int| 0 <= i < self.entries@.len() && self.entries@[i].0@ == k;
            assert(self.seq()[i].0@ == k);
        }
    }

    /// The entries in insertion order.
    pub fn entries(&self) -> (r: &Vec<(String, V)>)
        ensures
            r@ == self.seq(),
    {
        &self.entries
    }

    /// The entries, in insertion order, taken out of the map.
    pub fn into_entries(self) -> (r: Vec<(String, V)>)
        ensures
            r@ == self.seq(),
    {
        self.entries
    }

    /// An empty map.
    pub fn new() -> (c: Self)
        ensures
            c.wf(),
            c.view() == Map::<Seq<char>, V>::empty(),
    {
        let c = StrMap { entries: Vec::new() };
        assert(c.view() =~= Map::<Seq<char>, V>::empty());
        c
    }

    /// Number of entries.
    pub fn len(&self) -> (n: usize)
        requires
            self.wf(),
        ensures
            n == self.view().dom().len(),
    {
        proof {
            self.lemma_dom_len();
        }
        self.entries.len()
    }

    proof fn lemma_dom_len(self)
        requires
            self.wf(),
        ensures
            self.view().dom().finite(),
            self.view().dom().len() == self.entries@.len(),
    {
        lemma_names_dom(self.entries@);
        assert(self.view().dom() =~= Set::new(
            |k: Seq<char>| exists|i: int| 0 <= i < self.entries@.len() && self.entries@[i].0@ == k,
        ));
    }

    /// Position of `name` in the entries, if present.
    fn find(&self, name: &String) -> (r: Option<usize>)
        requires
            self.wf(),
        ensures
            match r {
                Some(i) => i < self.entries@.len() && self.entries@[i as int].0@ == name@,
                None => !self.view().contains_key(name@),
            },
    {
        let mut i: usize = 0;
        while i < self.entries.len()
            invariant
                i <= self.entries@.len(),
                forall|j: int| 0 <= j < i ==> self.entries@[j].0@ != name@,
            decreases self.entries@.len() - i,
        {
            if self.entries[i].0 == *name {
                return Some(i);
            }
            i = i + 1;
        }
        None
    }

    /// The value stored under `key`.
    pub fn get_str(&self, key: &str) -> (r: Option<&V>)
        requires
            self.wf(),
        ensures
            match r {
                Some(a) => self.view().contains_key(key@) && *a == self.view()[key@],
                None => !self.view().contains_key(key@),
            },
    {
        let k = key.to_owned();
        self.get(&k)
    }

    /// Whether `key` is present.
    pub fn contains_key(&self, key: &str) -> (r: bool)
        requires
            self.wf(),
        ensures
            r == self.view().contains_key(key@),
    {
        let k = key.to_owned();
        self.find(&k).is_some()
    }

    /// Removes `key`, returning its value.
    pub fn remove(&mut self, key: &str) -> (r: Option<V>)
        requires
            old(self).wf(),
        ensures
            final(self).wf(),
            final(self).view() == old(self).view().remove(key@),
            match r {
                Some(v) => old(self).view().contains_key(key@) && v == old(self).view()[key@],
                None => !old(self).view().contains_key(key@),
            },
    {
        let k = key.to_owned();
        match self.find(&k) {
            None => {
                proof {
                    assert(self.view() =~= old(self).view().remove(key@));
                }
                None
            },
            Some(i) => {
                proof {
                    self.lemma_view_at(i as int);
                }
                let ghost old_entries = self.entries@;
                let (_, v) = self.entries.remove(i);
                proof {
                    assert forall|a: int, b: int| 0 <= a < b < self.entries@.len() implies self.entries@[a].0@
                        != self.entries@[b].0@ by {
                        let a0 = if a < i { a } else { a + 1 };
                        let b0 = if b < i { b } else { b + 1 };
                        assert(self.entries@[a] == old_entries[a0]);
                        assert(self.entries@[b] == old_entries[b0]);
                    }
                    assert forall|key2: Seq<char>| #[trigger] self.view().contains_key(key2)
                        == old(self).view().remove(key@).contains_key(key2) by {
                        if self.view().contains_key(key2) {
                            let j = choose|j: int| 0 <= j < self.entries@.len() && self.entries@[j].0@ == key2;
                            let j0 = if j < i { j } else { j + 1 };
                            assert(old_entries[j0].0@ == key2);
                            assert(j0 != i);
                        }
                        if old(self).view().contains_key(key2) && key2 != key@ {
                            let j = choose|j: int| 0 <= j < old_entries.len() && old_entries[j].0@ == key2;
                            assert(j != i);
                            let j1 = if j < i { j } else { j - 1 };
                            assert(self.entries@[j1].0@ == key2);
                        }
                    }
                    assert forall|key2: Seq<char>| #[trigger] self.view().contains_key(key2) implies
                        self.view()[key2] == old(self).view().remove(key@)[key2] by {
                        let j = choose|j: int| 0 <= j < self.entries@.len() && self.entries@[j].0@ == key2;
                        self.lemma_view_at(j);
                        let j0 = if j < i { j } else { j + 1 };
                        assert(old_entries[j0] == self.entries@[j]);
                        old(self).lemma_view_at(j0);
                    }
                    assert(self.view() =~= old(self).view().remove(key@));
                }
                Some(v)
            },
        }
    }

    /// The value stored under `name`.
    pub fn get(&self, name: &String) -> (r: Option<&V>)
        requires
            self.wf(),
        ensures
            match r {
                Some(a) => self.view().contains_key(name@) && *a == self.view()[name@],
                None => !self.view().contains_key(name@),
            },
    {
        match self.find(name) {
            Some(i) => {
                proof {
                    self.lemma_view_at(i as int);
                }
                Some(&self.entries[i].1)
            },
            None => None,
        }
    }

    /// Stores `applied` under `name`, replacing any previous value.
    pub fn insert(&mut self, name: String, applied: V)
        requires
            old(self).wf(),
        ensures
            final(self).wf(),
            final(self).view() == old(self).view().insert(name@, applied),
    {
        let ghost old_entries = self.entries@;
        match self.find(&name) {
            Some(i) => {
                let ghost k = name@;
                self.entries.set(i, (name, applied));
                proof {
                    assert(self.wf());
                    assert forall|key: Seq<char>| #[trigger] self.view().contains_key(key)
                        == old(self).view().insert(k, applied).contains_key(key) by {
                        if self.view().contains_key(key) {
                            let j = choose|j: int| 0 <= j < self.entries@.len() && self.entries@[j].0@ == key;
                            if j != i {
                                assert(old_entries[j].0@ == key);
                            }
                        }
                        if old(self).view().contains_key(key) && key != k {
                            let j = choose|j: int| 0 <= j < old_entries.len() && old_entries[j].0@ == key;
                            assert(self.entries@[j].0@ == key);
                        }
                        if key == k {
                            assert(self.entries@[i as int].0@ == key);
                        }
                    }
                    assert forall|key: Seq<char>| #[trigger] self.view().contains_key(key) implies
                        self.view()[key] == old(self).view().insert(k, applied)[key] by {
                        let j = choose|j: int| 0 <= j < self.entries@.len() && self.entries@[j].0@ == key;
                        self.lemma_view_at(j);
                        if j != i {
                            old(self).lemma_view_at(j);
                        }
                    }
                    assert(self.view() =~= old(self).view().insert(k, applied));
                }
            },
            None => {
                let ghost k = name@;
                self.entries.push((name, applied));
                proof {
                    assert forall|a: int, b: int| 0 <= a < b < self.entries@.len() implies self.entries@[a].0@
                        != self.entries@[b].0@ by {
                        if b == self.entries@.len() - 1 {
                            assert(old(self).view().contains_key(old_entries[a].0@)) by {
                                assert(old_entries[a].0@ == self.entries@[a].0@);
                            }
                        }
                    }
                    assert forall|key: Seq<char>| #[trigger] self.view().contains_key(key)
                        == old(self).view().insert(k, applied).contains_key(key) by {
                        if self.view().contains_key(key) && key != k {
                            let j = choose|j: int| 0 <= j < self.entries@.len() && self.entries@[j].0@ == key;
                            assert(old_entries[j].0@ == key);
                        }
                        if old(self).view().contains_key(key) {
                            let j = choose|j: int| 0 <= j < old_entries.len() && old_entries[j].0@ == key;
                            assert(self.entries@[j].0@ == key);
                        }
                        if key == k {
                            assert(self.entries@[self.entries@.len() - 1].0@ == key);
                        }
                    }
                    assert forall|key: Seq<char>| #[trigger] self.view().contains_key(key) implies
                        self.view()[key] == old(self).view().insert(k, applied)[key] by {
                        let j = choose|j: int| 0 <= j < self.entries@.len() && self.entries@[j].0@ == key;
                        self.lemma_view_at(j);
                        if j < old_entries.len() {
                            old(self).lemma_view_at(j);
                        }
                    }
                    assert(self.view() =~= old(self).view().insert(k, applied));
                }
            },
        }
    }
}

proof fn lemma_names_dom<V>(s: Seq<(String, V)>)
    requires
        forall|i: int, j: int| 0 <= i < j < s.len() ==> s[i].0@ != s[j].0@,
    ensures
        Set::new(|k: Seq<char>| exists|i: int| 0 <= i < s.len() && s[i].0@ == k).finite(),
        Set::new(|k: Seq<char>| exists|i: int| 0 <= i < s.len() && s[i].0@ == k).len() == s.len(),
    decreases s.len(),
{
    let d = Set::new(|k: Seq<char>| exists|i: int| 0 <= i < s.len() && s[i].0@ == k);
    if s.len() == 0 {
        assert(d =~= Set::<Seq<char>>::empty());
    } else {
        let t = s.drop_last();
        lemma_names_dom(t);
        let dt = Set::new(|k: Seq<char>| exists|i: int| 0 <= i < t.len() && t[i].0@ == k);
        assert(d =~= dt.insert(s.last().0@)) by {
            assert forall|k: Seq<char>| d.contains(k) implies dt.insert(s.last().0@).contains(k) by {
                let i = choose|i: int| 0 <= i < s.len() && s[i].0@ == k;
                if i < t.len() {
                    assert(t[i].0@ == k);
                }
            }
            assert forall|k: Seq<char>| dt.insert(s.last().0@).contains(k) implies d.contains(k) by {
                if k == s.last().0@ {
                    assert(s[s.len() - 1].0@ == k);
                } else {
                    let i = choose|i: int| 0 <= i < t.len() && t[i].0@ == k;
                    assert(s[i].0@ == k);
                }
            }
        }
        assert(!dt.contains(s.last().0@)) by {
            if dt.contains(s.last().0@) {
                let i = choose|i: int| 0 <= i < t.len() && t[i].0@ == s.last().0@;
                assert(s[i].0@ == s[s.len() - 1].0@);
            }
        }
    }
}


/// The entries of a string map as `(key, value)` texts.
pub open spec fn pair_views(s: Seq<(String, String)>) -> Seq<(Seq<char>, Seq<char>)> {
    s.map_values(|p: (String, String)| (p.0@, p.1@))
}

/// `s` lists the entries of `m` exactly once each, in increasing key order.
pub open spec fn is_sorted_listing(m: Map<Seq<char>, String>, s: Seq<(Seq<char>, Seq<char>)>) -> bool {
    &&& forall|i: int, j: int| 0 <= i < j < s.len() ==> text_lt(#[trigger] s[i].0, #[trigger] s[j].0)
    &&& forall|i: int| 0 <= i < s.len() ==> m.contains_key(#[trigger] s[i].0) && m[s[i].0]@ == s[i].1
    &&& forall|k: Seq<char>| #[trigger] m.contains_key(k) ==> exists|i: int| 0 <= i < s.len() && s[i].0 == k
}

/// The entries of `m` in increasing key order.
pub open spec fn sorted_listing(m: Map<Seq<char>, String>) -> Seq<(Seq<char>, Seq<char>)> {
    choose|s: Seq<(Seq<char>, Seq<char>)>| is_sorted_listing(m, s)
}

/// A map has at most one sorted listing.
pub proof fn lemma_sorted_listing_unique(
    m: Map<Seq<char>, String>,
    s1: Seq<(Seq<char>, Seq<char>)>,
    s2: Seq<(Seq<char>, Seq<char>)>,
)
    requires
        is_sorted_listing(m, s1),
        is_sorted_listing(m, s2),
    ensures
        s1 == s2,
    decreases s1.len() + s2.len(),
{
    if s1.len() == 0 || s2.len() == 0 {
        if s2.len() > 0 {
            assert(m.contains_key(s2[0].0));
        }
        if s1.len() > 0 {
            assert(m.contains_key(s1[0].0));
        }
        assert(s1 =~= s2);
    } else {
        let k1 = s1[0].0;
        let k2 = s2[0].0;
        if k1 != k2 {
            assert(m.contains_key(k2));
            let i = choose|i: int| 0 <= i < s1.len() && s1[i].0 == k2;
            assert(i != 0);
            assert(text_lt(s1[0].0, s1[i].0));
            assert(m.contains_key(k1));
            let j = choose|j: int| 0 <= j < s2.len() && s2[j].0 == k1;
            assert(j != 0);
            assert(text_lt(s2[0].0, s2[j].0));
            lemma_text_lt_asym(k1, k2);
        }
        let m2 = m.remove(k1);
        let t1 = s1.drop_first();
        let t2 = s2.drop_first();
        assert(is_sorted_listing(m2, t1)) by {
            assert forall|i: int, j: int| 0 <= i < j < t1.len() implies text_lt(#[trigger] t1[i].0, #[trigger] t1[j].0) by {
                assert(t1[i] == s1[i + 1] && t1[j] == s1[j + 1]);
            }
            assert forall|i: int| 0 <= i < t1.len() implies m2.contains_key(#[trigger] t1[i].0) && m2[t1[i].0]@ == t1[i].1 by {
                assert(t1[i] == s1[i + 1]);
                assert(text_lt(s1[0].0, s1[i + 1].0));
                lemma_text_lt_asym(k1, k1);
            }
            assert forall|k: Seq<char>| #[trigger] m2.contains_key(k) implies exists|i: int| 0 <= i < t1.len() && t1[i].0 == k by {
                assert(m.contains_key(k));
                let i = choose|i: int| 0 <= i < s1.len() && s1[i].0 == k;
                assert(i != 0);
                assert(t1[i - 1] == s1[i]);
            }
        }
        assert(is_sorted_listing(m2, t2)) by {
            assert forall|i: int, j: int| 0 <= i < j < t2.len() implies text_lt(#[trigger] t2[i].0, #[trigger] t2[j].0) by {
                assert(t2[i] == s2[i + 1] && t2[j] == s2[j + 1]);
            }
            assert forall|i: int| 0 <= i < t2.len() implies m2.contains_key(#[trigger] t2[i].0) && m2[t2[i].0]@ == t2[i].1 by {
                assert(t2[i] == s2[i + 1]);
                assert(text_lt(s2[0].0, s2[i + 1].0));
                lemma_text_lt_asym(k1, k1);
            }
            assert forall|k: Seq<char>| #[trigger] m2.contains_key(k) implies exists|i: int| 0 <= i < t2.len() && t2[i].0 == k by {
                assert(m.contains_key(k));
                let i = choose|i: int| 0 <= i < s2.len() && s2[i].0 == k;
                assert(i != 0);
                assert(t2[i - 1] == s2[i]);
            }
        }
        lemma_sorted_listing_unique(m2, t1, t2);
        assert(m.contains_key(k1));
        assert(s1 =~= seq![s1[0]] + t1);
        assert(s2 =~= seq![s2[0]] + t2);
    }
}

/// A listing that exists is the sorted listing.
pub proof fn lemma_is_sorted_listing(m: Map<Seq<char>, String>, s: Seq<(Seq<char>, Seq<char>)>)
    requires
        is_sorted_listing(m, s),
    ensures
        sorted_listing(m) == s,
{
    lemma_sorted_listing_unique(m, sorted_listing(m), s);
}

} // verus!
