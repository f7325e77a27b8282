//! A key-value store of byte strings kept in memory, with listing by key prefix.
use vstd::prelude::*;

use crate::assoc::StringMap;
use crate::order::lex_le;
use crate::sorting::{
    StrKey, distinct_keys, lemma_sort_by_key, sort_by_key, sort_by_str_key, sorted_by_key,
};
use crate::text::{chars_of, is_prefix, owned, range_starts_with};

verus! {

impl StrKey for String {
    open spec fn spec_key(&self) -> Seq<char> {
        self@
    }

    fn key_chars(&self) -> (r: Vec<char>) {
        chars_of(self.as_str())
    }
}

/// Whether `s` starts with `p`.
pub fn starts_with(s: &str, p: &str) -> (r: bool)
    ensures
        r == is_prefix(p@, s@),
{
    let v = chars_of(s);
    let pv = chars_of(p);
    let r = range_starts_with(&v, 0, v.len(), &pv);
    assert(v@.subrange(0, v@.len() as int) =~= v@);
    r
}

/// A copy of a byte string.
fn copy_bytes(b: &Vec<u8>) -> (r: Vec<u8>)
    ensures
        r@ == b@,
{
    let mut out: Vec<u8> = Vec::new();
    let mut i: usize = 0;
    while i < b.len()
        invariant
            i <= b.len(),
            out@ == b@.take(i as int),
        decreases b.len() - i,
    {
        out.push(b[i]);
        i = i + 1;
        proof {
            assert(out@ =~= b@.take(i as int));
        }
    }
    assert(b@.take(b.len() as int) =~= b@);
    out
}

/// Byte strings by key, kept in memory.
pub struct MemoryStore {
    data: StringMap<Vec<u8>>,
}

impl MemoryStore {
    /// The stored values by key.
    pub closed spec fn spec_map(&self) -> Map<Seq<char>, Vec<u8>> {
        self.data@
    }

    /// An empty store.
    pub fn new() -> (r: Self)
        ensures
            r.spec_map() == Map::<Seq<char>, Vec<u8>>::empty(),
    {
        MemoryStore { data: StringMap::new() }
    }

    /// A copy of the value stored under `key`.
    pub fn get_raw(&self, key: &str) -> (r: Option<Vec<u8>>)
        ensures
            r is Some <==> self.spec_map().contains_key(key@),
            r matches Some(b) ==> b@ == self.spec_map()[key@]@,
    {
        match self.data.get(key) {
            Some(b) => Some(copy_bytes(b)),
            None => None,
        }
    }

    /// Stores `value` under `key`, replacing what was there.
    pub fn set_raw(&mut self, key: &str, value: Vec<u8>)
        ensures
            final(self).spec_map() == old(self).spec_map().insert(key@, value),
    {
        let _ = self.data.insert(key, value);
    }

    /// Removes `key`; whether it was there.
    pub fn delete(&mut self, key: &str) -> (r: bool)
        ensures
            r == old(self).spec_map().contains_key(key@),
            final(self).spec_map() == old(self).spec_map().remove(key@),
    {
        self.data.remove(key).is_some()
    }

    /// The keys that start with `prefix`, in ascending order.
    pub fn list_prefix(&self, prefix: &str) -> (r: Vec<String>)
        ensures
            sorted_by_key(r@),
            distinct_keys(r@),
            forall|i: int|
                0 <= i < r@.len() ==> self.spec_map().contains_key(#[trigger] r@[i]@) && is_prefix(
                    prefix@,
                    r@[i]@,
                ),
            forall|k: Seq<char>|
                #[trigger] self.spec_map().contains_key(k) && is_prefix(prefix@, k) ==> exists|i: int|
                    0 <= i < r@.len() && r@[i]@ == k,
    {
        self.data.lemma_view();
        let mut found: Vec<String> = Vec::new();
        let mut i: usize = 0;
        let ghost e = self.data.spec_entries();
        while i < self.data.entry_count()
            invariant
                i <= e.len(),
                e == self.data.spec_entries(),
                distinct_keys(e),
                distinct_keys(found@),
                forall|j: int|
                    0 <= j < found@.len() ==> exists|m: int|
                        0 <= m < i && #[trigger] found@[j]@ == e[m].0@,
                forall|m: int| 0 <= m < e.len() ==> #[trigger] self.data@[e[m].0@] == e[m].1,
                forall|m: int| 0 <= m < e.len() ==> self.data@.contains_key(#[trigger] e[m].0@),
                forall|j: int|
                    0 <= j < found@.len() ==> self.data@.contains_key(#[trigger] found@[j]@)
                        && is_prefix(prefix@, found@[j]@),
                forall|m: int|
                    0 <= m < i && is_prefix(prefix@, #[trigger] e[m].0@) ==> exists|j: int|
                        0 <= j < found@.len() && found@[j]@ == e[m].0@,
            decreases e.len() - i,
        {
            let key = self.data.key_at(i);
            if starts_with(key.as_str(), prefix) {
                let copy = owned(key.as_str());
                let ghost before = found@;
                found.push(copy);
                proof {
                    assert forall|j: int| 0 <= j < found@.len() implies exists|m: int|
                        0 <= m < i + 1 && #[trigger] found@[j]@ == e[m].0@ by {
                        if j < before.len() {
                            assert(found@[j] == before[j]);
                        } else {
                            assert(found@[j]@ == e[i as int].0@);
                        }
                    }
                    assert forall|a: int, b: int|
                        0 <= a < found@.len() && 0 <= b < found@.len() && a != b implies
                        #[trigger] found@[a].spec_key() != #[trigger] found@[b].spec_key() by {
                        if a == before.len() || b == before.len() {
                            let other = if a == before.len() { b } else { a };
                            let m = choose|m: int| 0 <= m < i && #[trigger] before[other]@ == e[m].0@;
                            assert(found@[other] == before[other]);
                            assert(e[m].spec_key() != e[i as int].spec_key());
                        } else {
                            assert(found@[a] == before[a] && found@[b] == before[b]);
                        }
                    }
                    assert forall|m: int|
                        0 <= m < i + 1 && is_prefix(prefix@, #[trigger] e[m].0@) implies exists|j: int|
                        0 <= j < found@.len() && found@[j]@ == e[m].0@ by {
                        if m < i {
                            let j = choose|j: int| 0 <= j < before.len() && before[j]@ == e[m].0@;
                            assert(found@[j] == before[j]);
                        } else {
                            assert(found@[before.len() as int]@ == e[m].0@);
                        }
                    }
                }
            }
            i = i + 1;
        }
        let ghost fv = found@;
        proof {
            lemma_sort_by_key(fv);
        }
        let r = sort_by_str_key(found);
        proof {
            broadcast use vstd::seq_lib::group_to_multiset_ensures;

            assert forall|i: int| 0 <= i < r@.len() implies self.spec_map().contains_key(
                #[trigger] r@[i]@,
            ) && is_prefix(prefix@, r@[i]@) by {
                assert(r@.to_multiset().count(r@[i]) > 0);
                assert(fv.contains(r@[i]));
                let j = choose|j: int| 0 <= j < fv.len() && fv[j] == r@[i];
                assert(self.data@.contains_key(fv[j]@));
            }
            assert forall|k: Seq<char>|
                #[trigger] self.spec_map().contains_key(k) && is_prefix(prefix@, k) implies exists|i: int|
                0 <= i < r@.len() && r@[i]@ == k by {
                let m = choose|m: int| 0 <= m < e.len() && e[m].0@ == k;
                assert(is_prefix(prefix@, e[m].0@));
                let j = choose|j: int| 0 <= j < fv.len() && fv[j]@ == e[m].0@;
                assert(fv.to_multiset().count(fv[j]) > 0);
                assert(r@.contains(fv[j]));
            }
        }
        r
    }
}

/// A value written under a key is what a read of that key gives back, byte for byte, and
/// the other keys keep their values; a deleted key reads as absent.
pub proof fn law_read_after_write(
    m: Map<Seq<char>, Vec<u8>>,
    key: Seq<char>,
    value: Vec<u8>,
    other: Seq<char>,
)
    ensures
        m.insert(key, value).contains_key(key),
        m.insert(key, value)[key]@ == value@,
        other != key ==> m.insert(key, value).contains_key(other) == m.contains_key(other),
        other != key && m.contains_key(other) ==> m.insert(key, value)[other] == m[other],
        !m.remove(key).contains_key(key),
{
}

impl Default for MemoryStore {
    fn default() -> (r: Self)
        ensures
            r.spec_map() == Map::<Seq<char>, Vec<u8>>::empty(),
    {
        MemoryStore::new()
    }
}

} // verus!
