//! Stable ordering by a key of four integers compared lexicographically, the order that a chain
//! of `cmp(..).then(..)` on the fields gives.
use vstd::prelude::*;

verus! {

/// Lexicographic `<=` on four integers.
pub open spec fn rank_le(a: (int, int, int, int), b: (int, int, int, int)) -> bool {
    a.0 < b.0 || (a.0 == b.0 && (a.1 < b.1 || (a.1 == b.1 && (a.2 < b.2 || (a.2 == b.2 && a.3
        <= b.3)))))
}

/// A value ordered by a key of four integers.
pub trait Ranked {
    spec fn rank(&self) -> (int, int, int, int);

    fn ranks_before_or_with(&self, other: &Self) -> (r: bool)
        ensures
            r == rank_le(self.rank(), other.rank()),
    ;
}

/// Where an element of key `k` goes in `s[..j]`: after every element whose key is `<= k`.
pub open spec fn ins_rank<T: Ranked>(s: Seq<T>, k: (int, int, int, int), j: int) -> int
    decreases j,
{
    if j <= 0 {
        0
    } else if rank_le(s[j - 1].rank(), k) {
        j
    } else {
        ins_rank(s, k, j - 1)
    }
}

/// Stable sort by key: each element, in order, inserted after the equal keys.
pub open spec fn sort_by_rank<T: Ranked>(s: Seq<T>) -> Seq<T>
    decreases s.len(),
{
    if s.len() == 0 {
        s
    } else {
        let t = sort_by_rank(s.drop_last());
        t.insert(ins_rank(t, s.last().rank(), t.len() as int), s.last())
    }
}

/// Keys are non-decreasing.
pub open spec fn sorted_by_rank<T: Ranked>(s: Seq<T>) -> bool {
    forall|a: int, b: int| 0 <= a < b < s.len() ==> rank_le(#[trigger] s[a].rank(), #[trigger] s[b].rank())
}

proof fn lemma_ins_rank<T: Ranked>(s: Seq<T>, k: (int, int, int, int), j: int)
    requires
        0 <= j <= s.len(),
    ensures
        0 <= ins_rank(s, k, j) <= j,
        ins_rank(s, k, j) > 0 ==> rank_le(s[ins_rank(s, k, j) - 1].rank(), k),
        forall|m: int| ins_rank(s, k, j) <= m < j ==> !rank_le(#[trigger] s[m].rank(), k),
    decreases j,
{
    if j > 0 && !rank_le(s[j - 1].rank(), k) {
        lemma_ins_rank(s, k, j - 1);
    }
}

proof fn lemma_insert_multiset<T>(t: Seq<T>, p: int, x: T)
    requires
        0 <= p <= t.len(),
    ensures
        t.insert(p, x).to_multiset() == t.to_multiset().insert(x),
{
    broadcast use vstd::seq_lib::group_to_multiset_ensures;

    let a = t.subrange(0, p);
    let b = t.subrange(p, t.len() as int);
    assert(t =~= a + b);
    vstd::seq_lib::lemma_multiset_commutative(a, b);
    vstd::seq_lib::lemma_multiset_commutative(a.push(x), b);
    assert(t.insert(p, x) =~= a.push(x) + b);
}

/// The stable sort keeps the elements and puts them in key order.
pub proof fn lemma_sort_by_rank<T: Ranked>(s: Seq<T>)
    ensures
        sort_by_rank(s).len() == s.len(),
        sort_by_rank(s).to_multiset() == s.to_multiset(),
        sorted_by_rank(sort_by_rank(s)),
    decreases s.len(),
{
    broadcast use vstd::seq_lib::group_to_multiset_ensures;

    if s.len() > 0 {
        let u = s.drop_last();
        let x = s.last();
        let t = sort_by_rank(u);
        lemma_sort_by_rank(u);
        let p = ins_rank(t, x.rank(), t.len() as int);
        lemma_ins_rank(t, x.rank(), t.len() as int);
        lemma_insert_multiset(t, p, x);
        assert(s =~= u.push(x));
        let r = t.insert(p, x);
        t.insert_ensures(p, x);
        assert forall|a: int, b: int| 0 <= a < b < r.len() implies rank_le(
            #[trigger] r[a].rank(),
            #[trigger] r[b].rank(),
        ) by {
            if b < p {
            } else if b == p {
                if a < p - 1 {
                    assert(rank_le(t[a].rank(), t[p - 1].rank()));
                }
            } else if a < p {
                if a < p - 1 {
                    assert(rank_le(t[a].rank(), t[p - 1].rank()));
                }
            } else if a == p {
            } else {
                assert(r[a] == t[a - 1]);
                assert(r[b] == t[b - 1]);
            }
        }
    }
}

/// Inserts `x` into `v` after every element whose key is at most its own.
pub fn insert_ranked<T: Ranked>(v: &mut Vec<T>, x: T)
    ensures
        final(v)@ == old(v)@.insert(ins_rank(old(v)@, x.rank(), old(v)@.len() as int), x),
{
    let ghost s = v@;
    let mut p = v.len();
    while p > 0
        invariant
            p <= v@.len(),
            v@ == s,
            ins_rank(s, x.rank(), p as int) == ins_rank(s, x.rank(), s.len() as int),
        ensures
            p == ins_rank(s, x.rank(), s.len() as int),
        decreases p,
    {
        if v[p - 1].ranks_before_or_with(&x) {
            break;
        }
        p = p - 1;
    }
    v.insert(p, x);
}

/// The elements of `v` in key order; equal keys keep their order.
pub fn sort_ranked<T: Ranked>(v: Vec<T>) -> (r: Vec<T>)
    ensures
        r@ == sort_by_rank(v@),
{
    let ghost orig = v@;
    let mut src = v;
    let mut out: Vec<T> = Vec::new();
    assert(orig.take(0) =~= Seq::<T>::empty());
    assert(orig.skip(0) =~= orig);
    while src.len() > 0
        invariant
            src.len() <= orig.len(),
            src@ == orig.skip(orig.len() - src.len()),
            out@ == sort_by_rank(orig.take(orig.len() - src.len())),
        decreases src.len(),
    {
        let ghost done = orig.len() - src.len();
        let x = src.remove(0);
        assert(x == orig[done]);
        assert(src@ =~= orig.skip(done + 1));
        proof {
            let t = orig.take(done + 1);
            assert(t.drop_last() =~= orig.take(done));
            assert(t.last() == x);
        }
        insert_ranked(&mut out, x);
    }
    assert(orig.take(orig.len() as int) =~= orig);
    out
}

} // verus!
