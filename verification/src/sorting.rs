//! Stable sorting by a string key, the order `sort_by(|a, b| a.key.cmp(&b.key))` produces.
use vstd::prelude::*;

use crate::order::{
    chars_lex_le, lemma_lex_antisym, lemma_lex_refl, lemma_lex_total, lemma_lex_trans, lex_le,
};

verus! {

/// A value ordered by a string key.
pub trait StrKey {
    spec fn spec_key(&self) -> Seq<char>;

    fn key_chars(&self) -> (r: Vec<char>)
        ensures
            r@ == self.spec_key(),
    ;
}

/// Where an element with key `k` goes in `s[..j]` when inserted after every element whose key
/// is `<= k`: scanning from the end, past the elements whose key is greater.
pub open spec fn ins_pos<T: StrKey>(s: Seq<T>, k: Seq<char>, j: int) -> int
    decreases j,
{
    if j <= 0 {
        0
    } else if lex_le(s[j - 1].spec_key(), k) {
        j
    } else {
        ins_pos(s, k, j - 1)
    }
}

/// Stable sort by key (insertion of each element, in order, after the equal keys).
pub open spec fn sort_by_key<T: StrKey>(s: Seq<T>) -> Seq<T>
    decreases s.len(),
{
    if s.len() == 0 {
        s
    } else {
        let t = sort_by_key(s.drop_last());
        t.insert(ins_pos(t, s.last().spec_key(), t.len() as int), s.last())
    }
}

/// Keys are non-decreasing.
pub open spec fn sorted_by_key<T: StrKey>(s: Seq<T>) -> bool {
    forall|a: int, b: int| 0 <= a < b < s.len() ==> lex_le(#[trigger] s[a].spec_key(), #[trigger] s[b].spec_key())
}

/// No two elements share a key.
pub open spec fn distinct_keys<T: StrKey>(s: Seq<T>) -> bool {
    forall|a: int, b: int| 0 <= a < s.len() && 0 <= b < s.len() && a != b ==> #[trigger] s[a].spec_key() != #[trigger] s[b].spec_key()
}

proof fn lemma_ins_pos<T: StrKey>(s: Seq<T>, k: Seq<char>, j: int)
    requires
        0 <= j <= s.len(),
    ensures
        0 <= ins_pos(s, k, j) <= j,
        ins_pos(s, k, j) > 0 ==> lex_le(s[ins_pos(s, k, j) - 1].spec_key(), k),
        forall|m: int| ins_pos(s, k, j) <= m < j ==> !lex_le(#[trigger] s[m].spec_key(), k),
    decreases j,
{
    if j > 0 && !lex_le(s[j - 1].spec_key(), k) {
        lemma_ins_pos(s, k, j - 1);
    }
}

proof fn lemma_insert_multiset<T>(t: Seq<T>, p: int, x: T)
    requires
        0 <= p <= t.len(),
    ensures
        t.insert(p, x).to_multiset() == t.to_multiset().insert(x),
        t.insert(p, x).len() == t.len() + 1,
{
    broadcast use vstd::seq_lib::group_to_multiset_ensures;

    let a = t.subrange(0, p);
    let b = t.subrange(p, t.len() as int);
    assert(t =~= a + b);
    vstd::seq_lib::lemma_multiset_commutative(a, b);
    vstd::seq_lib::lemma_multiset_commutative(a.push(x), b);
    assert(t.insert(p, x) =~= a.push(x) + b);
}

/// The stable sort keeps the elements and orders them by key; distinct keys stay distinct.
pub proof fn lemma_sort_by_key<T: StrKey>(s: Seq<T>)
    ensures
        sort_by_key(s).len() == s.len(),
        sort_by_key(s).to_multiset() == s.to_multiset(),
        sorted_by_key(sort_by_key(s)),
        distinct_keys(s) ==> distinct_keys(sort_by_key(s)),
    decreases s.len(),
{
    broadcast use vstd::seq_lib::group_to_multiset_ensures;

    if s.len() > 0 {
        let u = s.drop_last();
        let x = s.last();
        let t = sort_by_key(u);
        lemma_sort_by_key(u);
        let p = ins_pos(t, x.spec_key(), t.len() as int);
        lemma_ins_pos(t, x.spec_key(), t.len() as int);
        lemma_insert_multiset(t, p, x);
        assert(s =~= u.push(x));
        let r = t.insert(p, x);
        t.insert_ensures(p, x);
        assert forall|a: int, b: int| 0 <= a < b < r.len() implies lex_le(
            #[trigger] r[a].spec_key(),
            #[trigger] r[b].spec_key(),
        ) by {
            if b < p {
            } else if b == p {
                if a < p - 1 {
                    lemma_lex_trans(t[a].spec_key(), t[p - 1].spec_key(), x.spec_key());
                }
            } else if a < p {
                lemma_lex_total(t[b - 1].spec_key(), x.spec_key());
                if a < p - 1 {
                    lemma_lex_trans(t[a].spec_key(), t[p - 1].spec_key(), x.spec_key());
                }
                lemma_lex_trans(t[a].spec_key(), x.spec_key(), t[b - 1].spec_key());
            } else if a == p {
                lemma_lex_total(t[b - 1].spec_key(), x.spec_key());
            } else {
                assert(r[a] == t[a - 1]);
                assert(r[b] == t[b - 1]);
            }
        }
        if distinct_keys(s) {
            assert forall|m: int| 0 <= m < t.len() implies #[trigger] t[m].spec_key() != x.spec_key() by {
                assert(t.to_multiset().count(t[m]) > 0);
                assert(u.contains(t[m]));
                let w = choose|w: int| 0 <= w < u.len() && u[w] == t[m];
                assert(s[w] == u[w]);
                assert(s[s.len() - 1] == x);
            }
            assert(distinct_keys(u)) by {
                assert forall|a: int, b: int|
                    0 <= a < u.len() && 0 <= b < u.len() && a != b implies #[trigger] u[a].spec_key()
                    != #[trigger] u[b].spec_key() by {
                    assert(s[a] == u[a]);
                    assert(s[b] == u[b]);
                }
            }
            assert forall|a: int, b: int|
                0 <= a < r.len() && 0 <= b < r.len() && a != b implies #[trigger] r[a].spec_key()
                != #[trigger] r[b].spec_key() by {
                let ia = if a < p { a } else if a == p { -1 } else { a - 1 };
                let ib = if b < p { b } else if b == p { -1 } else { b - 1 };
                if ia >= 0 {
                    assert(r[a] == t[ia]);
                }
                if ib >= 0 {
                    assert(r[b] == t[ib]);
                }
            }
        }
    }
}

/// Two key-sorted sequences with the same elements, one of them with distinct keys, are equal.
pub proof fn lemma_sorted_unique<T: StrKey>(u: Seq<T>, w: Seq<T>)
    requires
        sorted_by_key(u),
        sorted_by_key(w),
        distinct_keys(u),
        u.to_multiset() == w.to_multiset(),
    ensures
        u == w,
    decreases u.len(),
{
    broadcast use vstd::seq_lib::group_to_multiset_ensures;

    u.to_multiset_ensures();
    w.to_multiset_ensures();
    assert(u.to_multiset().len() == w.to_multiset().len());
    assert(u.len() == w.len());
    if u.len() > 0 {
        assert(u.to_multiset().count(u[0]) > 0);
        assert(w.contains(u[0]));
        let k = choose|k: int| 0 <= k < w.len() && w[k] == u[0];
        if k > 0 {
            assert(lex_le(w[0].spec_key(), w[k].spec_key()));
        } else {
            lemma_lex_refl(w[0].spec_key());
        }
        assert(w.to_multiset().count(w[0]) > 0);
        assert(u.contains(w[0]));
        let m = choose|m: int| 0 <= m < u.len() && u[m] == w[0];
        if m > 0 {
            assert(lex_le(u[0].spec_key(), u[m].spec_key()));
        } else {
            lemma_lex_refl(u[0].spec_key());
        }
        lemma_lex_antisym(u[0].spec_key(), w[0].spec_key());
        assert(m == 0);
        assert(u[0] == w[0]);
        let u2 = u.drop_first();
        let w2 = w.drop_first();
        assert(u.remove(0) =~= u2);
        assert(w.remove(0) =~= w2);
        assert(u2.to_multiset() == w2.to_multiset());
        assert(sorted_by_key(u2)) by {
            assert forall|a: int, b: int| 0 <= a < b < u2.len() implies lex_le(
                #[trigger] u2[a].spec_key(),
                #[trigger] u2[b].spec_key(),
            ) by {
                assert(u2[a] == u[a + 1]);
                assert(u2[b] == u[b + 1]);
            }
        }
        assert(sorted_by_key(w2)) by {
            assert forall|a: int, b: int| 0 <= a < b < w2.len() implies lex_le(
                #[trigger] w2[a].spec_key(),
                #[trigger] w2[b].spec_key(),
            ) by {
                assert(w2[a] == w[a + 1]);
                assert(w2[b] == w[b + 1]);
            }
        }
        assert(distinct_keys(u2)) by {
            assert forall|a: int, b: int|
                0 <= a < u2.len() && 0 <= b < u2.len() && a != b implies #[trigger] u2[a].spec_key()
                != #[trigger] u2[b].spec_key() by {
                assert(u2[a] == u[a + 1]);
                assert(u2[b] == u[b + 1]);
            }
        }
        lemma_sorted_unique(u2, w2);
        assert(u =~= seq![u[0]] + u2);
        assert(w =~= seq![w[0]] + w2);
    }
}

/// Sorting by key depends only on the elements, not on their order, when keys are distinct.
pub proof fn lemma_sort_permutation_invariant<T: StrKey>(s1: Seq<T>, s2: Seq<T>)
    requires
        distinct_keys(s1),
        s1.to_multiset() == s2.to_multiset(),
    ensures
        sort_by_key(s1) == sort_by_key(s2),
{
    lemma_sort_by_key(s1);
    lemma_sort_by_key(s2);
    lemma_sorted_unique(sort_by_key(s1), sort_by_key(s2));
}

/// Sorts `v` stably by key.
pub fn sort_by_str_key<T: StrKey>(v: Vec<T>) -> (r: Vec<T>)
    ensures
        r@ == sort_by_key(v@),
{
    let ghost orig = v@;
    let mut src = v;
    let mut out: Vec<T> = Vec::new();
    assert(orig.take(0) =~= Seq::<T>::empty());
    assert(orig.skip(0) =~= orig);
    while src.len() > 0
        invariant
            src.len() <= orig.len(),
            src@ == orig.skip(orig.len() - src.len()),
            out@ == sort_by_key(orig.take(orig.len() - src.len())),
        decreases src.len(),
    {
        let ghost done = orig.len() - src.len();
        let x = src.remove(0);
        assert(x == orig[done]);
        assert(src@ =~= orig.skip(done + 1));
        let k = x.key_chars();
        let mut p = out.len();
        while p > 0
            invariant
                p <= out.len(),
                ins_pos(out@, k@, p as int) == ins_pos(out@, k@, out@.len() as int),
            ensures
                p == ins_pos(out@, k@, out@.len() as int),
            decreases p,
        {
            let kk = out[p - 1].key_chars();
            if chars_lex_le(&kk, &k) {
                break;
            }
            p = p - 1;
        }
        proof {
            let t = orig.take(done + 1);
            assert(t.drop_last() =~= orig.take(done));
            assert(t.last() == x);
        }
        out.insert(p, x);
    }
    assert(orig.take(orig.len() as int) =~= orig);
    out
}

} // verus!
