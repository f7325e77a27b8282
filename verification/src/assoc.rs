//! A map keyed by strings, kept as a list of entries with distinct keys.
use vstd::prelude::*;

use crate::sorting::{StrKey, distinct_keys};
use crate::text::{chars_of, owned, str_equal};

verus! {

impl<V> StrKey for (String, V) {
    open spec fn spec_key(&self) -> Seq<char> {
        self.0@
    }

    fn key_chars(&self) -> (r: Vec<char>) {
        chars_of(self.0.as_str())
    }
}

/// The map that a list of entries denotes (a later entry wins, though keys are kept distinct).
pub open spec fn map_of<V>(s: Seq<(String, V)>) -> Map<Seq<char>, V>
    decreases s.len(),
{
    if s.len() == 0 {
        Map::empty()
    } else {
        map_of(s.drop_last()).insert(s.last().0@, s.last().1)
    }
}

/// With distinct keys, a key is in the map exactly when an entry has it, with that entry's value.
pub proof fn lemma_map_of<V>(s: Seq<(String, V)>)
    requires
        distinct_keys(s),
    ensures
        forall|k: Seq<char>| #[trigger]
            map_of(s).contains_key(k) <==> exists|i: int| 0 <= i < s.len() && s[i].0@ == k,
        forall|i: int| 0 <= i < s.len() ==> #[trigger] map_of(s)[s[i].0@] == s[i].1,
        map_of(s).dom().finite(),
        map_of(s).len() == s.len(),
    decreases s.len(),
{
    if s.len() > 0 {
        let u = s.drop_last();
        assert(distinct_keys(u)) by {
            assert forall|a: int, b: int|
                0 <= a < u.len() && 0 <= b < u.len() && a != b implies #[trigger] u[a].spec_key()
                != #[trigger] u[b].spec_key() by {
                assert(s[a] == u[a]);
                assert(s[b] == u[b]);
            }
        }
        lemma_map_of(u);
        let last = s.last();
        assert forall|k: Seq<char>| #[trigger]
            map_of(s).contains_key(k) <==> exists|i: int| 0 <= i < s.len() && s[i].0@ == k by {
            if map_of(s).contains_key(k) && k != last.0@ {
                let i = choose|i: int| 0 <= i < u.len() && u[i].0@ == k;
                assert(s[i] == u[i]);
            }
            if exists|i: int| 0 <= i < s.len() && s[i].0@ == k {
                let i = choose|i: int| 0 <= i < s.len() && s[i].0@ == k;
                if i < s.len() - 1 {
                    assert(s[i] == u[i]);
                }
            }
        }
        assert forall|i: int| 0 <= i < s.len() implies #[trigger] map_of(s)[s[i].0@] == s[i].1 by {
            if i < s.len() - 1 {
                assert(s[i] == u[i]);
                assert(s[i].spec_key() != s[s.len() - 1].spec_key());
            }
        }
        assert(!map_of(u).contains_key(last.0@)) by {
            if map_of(u).contains_key(last.0@) {
                let i = choose|i: int| 0 <= i < u.len() && u[i].0@ == last.0@;
                assert(s[i] == u[i]);
                assert(s[i].spec_key() != s[s.len() - 1].spec_key());
            }
        }
    }
}

/// A string-keyed map.
pub struct StringMap<V> {
    entries: Vec<(String, V)>,
}

impl<V> View for StringMap<V> {
    type V = Map<Seq<char>, V>;

    closed spec fn view(&self) -> Map<Seq<char>, V> {
        map_of(self.entries@)
    }
}

impl<V> StringMap<V> {
    /// The entries, in insertion order.
    pub closed spec fn spec_entries(&self) -> Seq<(String, V)> {
        self.entries@
    }

    /// No key occurs twice.
    #[verifier::type_invariant]
    pub closed spec fn wf(&self) -> bool {
        distinct_keys(self.entries@)
    }

    /// The map holds exactly the entries' keys, each with its entry's value.
    pub fn lemma_view(&self)
        ensures
            self@ == map_of(self.spec_entries()),
            distinct_keys(self.spec_entries()),
            forall|k: Seq<char>| #[trigger]
                self@.contains_key(k) <==> exists|i: int|
                    0 <= i < self.spec_entries().len() && self.spec_entries()[i].0@ == k,
            forall|i: int|
                0 <= i < self.spec_entries().len() ==> #[trigger] self@[self.spec_entries()[i].0@]
                    == self.spec_entries()[i].1,
            self@.dom().finite(),
            self@.len() == self.spec_entries().len(),
    {
        proof {
            use_type_invariant(self);
            lemma_map_of(self.entries@);
        }
    }

    pub fn new() -> (r: Self)
        ensures
            r@ == Map::<Seq<char>, V>::empty(),
            r.spec_entries().len() == 0,
    {
        StringMap { entries: Vec::new() }
    }

    pub fn len(&self) -> (r: usize)
        ensures
            r == self@.len(),
            r == self.spec_entries().len(),
    {
        proof {
            use_type_invariant(self);
            lemma_map_of(self.entries@);
        }
        self.entries.len()
    }

    /// The position of `key` among the entries.
    pub fn index_of(&self, key: &str) -> (r: Option<usize>)
        ensures
            r matches Some(i) ==> i < self.spec_entries().len() && self.spec_entries()[i as int].0@
                == key@,
            r is None ==> !self@.contains_key(key@),
            r is Some <==> self@.contains_key(key@),
    {
        proof {
            use_type_invariant(self);
            lemma_map_of(self.entries@);
        }
        let mut i: usize = 0;
        while i < self.entries.len()
            invariant
                i <= self.entries@.len(),
                self.wf(),
                forall|j: int| 0 <= j < i ==> self.entries@[j].0@ != key@,
            decreases self.entries.len() - i,
        {
            if str_equal(self.entries[i].0.as_str(), key) {
                assert(self.entries@[i as int].0@ == key@);
                proof {
                    lemma_map_of(self.entries@);
                }
                assert(self@.contains_key(key@));
                return Some(i);
            }
            i = i + 1;
        }
        None
    }

    pub fn contains_key(&self, key: &str) -> (r: bool)
        ensures
            r == self@.contains_key(key@),
    {
        self.index_of(key).is_some()
    }

    pub fn get(&self, key: &str) -> (r: Option<&V>)
        ensures
            r matches Some(v) ==> self@.contains_key(key@) && self@[key@] == *v,
            r is None ==> !self@.contains_key(key@),
    {
        proof {
            use_type_invariant(self);
            lemma_map_of(self.entries@);
        }
        match self.index_of(key) {
            Some(i) => Some(&self.entries[i].1),
            None => None,
        }
    }

    /// The number of entries.
    pub fn entry_count(&self) -> (r: usize)
        ensures
            r == self.spec_entries().len(),
    {
        self.entries.len()
    }

    /// The key of the entry at `i` (insertion order).
    pub fn key_at(&self, i: usize) -> (r: &String)
        requires
            i < self.spec_entries().len(),
        ensures
            *r == self.spec_entries()[i as int].0,
    {
        &self.entries[i].0
    }

    /// The value of the entry at `i` (insertion order).
    pub fn value_at(&self, i: usize) -> (r: &V)
        requires
            i < self.spec_entries().len(),
        ensures
            *r == self.spec_entries()[i as int].1,
    {
        &self.entries[i].1
    }

    /// Maps `key` to `value`, returning the value it replaced.
    pub fn insert(&mut self, key: &str, value: V) -> (r: Option<V>)
        ensures
            final(self)@ == old(self)@.insert(key@, value),
            r matches Some(v) ==> old(self)@.contains_key(key@) && old(self)@[key@] == v,
            r is None ==> !old(self)@.contains_key(key@),
            !old(self)@.contains_key(key@) ==> final(self).spec_entries() == old(self).spec_entries().push(
                (final(self).spec_entries().last().0, value),
            ),
            old(self)@.contains_key(key@) ==> final(self).spec_entries().len()
                == old(self).spec_entries().len(),
            old(self)@.contains_key(key@) ==> forall|j: int|
                0 <= j < old(self).spec_entries().len() ==> #[trigger] final(self).spec_entries()[j].0@
                    == old(self).spec_entries()[j].0@,
    {
        proof {
            use_type_invariant(&*self);
        }
        let ghost s = self.entries@;
        proof {
            lemma_map_of(s);
        }
        match self.index_of(key) {
            Some(i) => {
                let k = owned(key);
                let mut entries: Vec<(String, V)> = Vec::new();
                std::mem::swap(&mut entries, &mut self.entries);
                let (_, previous) = entries.remove(i);
                entries.insert(i, (k, value));
                proof {
                    let t = entries@;
                    assert(t =~= s.update(i as int, t[i as int]));
                    assert(distinct_keys(t)) by {
                        assert forall|a: int, b: int|
                            0 <= a < t.len() && 0 <= b < t.len() && a != b implies #[trigger] t[a].spec_key()
                            != #[trigger] t[b].spec_key() by {
                            assert(s[a].spec_key() != s[b].spec_key());
                        }
                    }
                    lemma_map_of(t);
                    assert(map_of(t) =~= map_of(s).insert(key@, value)) by {
                        assert forall|kk: Seq<char>| #[trigger] map_of(t).contains_key(kk)
                            == map_of(s).insert(key@, value).contains_key(kk) by {
                            if map_of(s).contains_key(kk) {
                                let j = choose|j: int| 0 <= j < s.len() && s[j].0@ == kk;
                                assert(t[j].0@ == kk);
                            }
                            if map_of(t).contains_key(kk) {
                                let j = choose|j: int| 0 <= j < t.len() && t[j].0@ == kk;
                                assert(s[j].0@ == kk);
                            }
                        }
                        assert forall|kk: Seq<char>| #[trigger] map_of(t).contains_key(kk) implies map_of(t)[kk]
                            == map_of(s).insert(key@, value)[kk] by {
                            let j = choose|j: int| 0 <= j < t.len() && t[j].0@ == kk;
                            if j != i {
                                assert(t[j] == s[j]);
                                assert(s[j].spec_key() != s[i as int].spec_key());
                            }
                        }
                    }
                    assert(previous == s[i as int].1);
                }
                self.entries = entries;
                Some(previous)
            },
            None => {
                let k = owned(key);
                let mut entries: Vec<(String, V)> = Vec::new();
                std::mem::swap(&mut entries, &mut self.entries);
                entries.push((k, value));
                proof {
                    let t = entries@;
                    assert(t.drop_last() =~= s);
                    assert(distinct_keys(t)) by {
                        assert forall|a: int, b: int|
                            0 <= a < t.len() && 0 <= b < t.len() && a != b implies #[trigger] t[a].spec_key()
                            != #[trigger] t[b].spec_key() by {
                            if a < s.len() && b < s.len() {
                                assert(s[a].spec_key() != s[b].spec_key());
                            } else if a < s.len() {
                                assert(t[a] == s[a]);
                            } else {
                                assert(t[b] == s[b]);
                            }
                        }
                    }
                }
                self.entries = entries;
                None
            },
        }
    }

    /// Removes `key`, returning its value.
    pub fn remove(&mut self, key: &str) -> (r: Option<V>)
        ensures
            final(self)@ == old(self)@.remove(key@),
            r matches Some(v) ==> old(self)@.contains_key(key@) && old(self)@[key@] == v,
            r is None ==> !old(self)@.contains_key(key@) && final(self).spec_entries()
                == old(self).spec_entries(),
            r is Some ==> exists|i: int|
                0 <= i < old(self).spec_entries().len() && final(self).spec_entries()
                    == old(self).spec_entries().remove(i),
    {
        proof {
            use_type_invariant(&*self);
        }
        let ghost s = self.entries@;
        proof {
            lemma_map_of(s);
        }
        match self.index_of(key) {
            Some(i) => {
                let mut entries: Vec<(String, V)> = Vec::new();
                std::mem::swap(&mut entries, &mut self.entries);
                let (_, previous) = entries.remove(i);
                proof {
                    let t = entries@;
                    assert(t == s.remove(i as int));
                    assert(forall|j: int| 0 <= j < i ==> t[j] == s[j]);
                    assert(forall|j: int| i <= j < t.len() ==> t[j] == s[j + 1]);
                    assert(distinct_keys(t)) by {
                        assert forall|a: int, b: int|
                            0 <= a < t.len() && 0 <= b < t.len() && a != b implies #[trigger] t[a].spec_key()
                            != #[trigger] t[b].spec_key() by {
                            let sa = if a < i { a } else { a + 1 };
                            let sb = if b < i { b } else { b + 1 };
                            assert(t[a] == s[sa]);
                            assert(t[b] == s[sb]);
                            assert(s[sa].spec_key() != s[sb].spec_key());
                        }
                    }
                    lemma_map_of(t);
                    assert(map_of(t) =~= map_of(s).remove(key@)) by {
                        assert forall|kk: Seq<char>| #[trigger] map_of(t).contains_key(kk)
                            == map_of(s).remove(key@).contains_key(kk) by {
                            if map_of(s).contains_key(kk) && kk != key@ {
                                let j = choose|j: int| 0 <= j < s.len() && s[j].0@ == kk;
                                assert(j != i);
                                let tj = if j < i { j } else { j - 1 };
                                assert(t[tj] == s[j]);
                            }
                            if map_of(t).contains_key(kk) {
                                let j = choose|j: int| 0 <= j < t.len() && t[j].0@ == kk;
                                let sj = if j < i { j } else { j + 1 };
                                assert(t[j] == s[sj]);
                                assert(s[sj].spec_key() != s[i as int].spec_key());
                            }
                        }
                        assert forall|kk: Seq<char>| #[trigger] map_of(t).contains_key(kk) implies map_of(t)[kk]
                            == map_of(s).remove(key@)[kk] by {
                            let j = choose|j: int| 0 <= j < t.len() && t[j].0@ == kk;
                            let sj = if j < i { j } else { j + 1 };
                            assert(t[j] == s[sj]);
                        }
                    }
                }
                self.entries = entries;
                Some(previous)
            },
            None => {
                proof {
                    assert(map_of(s) =~= map_of(s).remove(key@));
                }
                None
            },
        }
    }
}

} // verus!
