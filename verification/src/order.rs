//! Lexicographic order on character sequences (the order of `str::cmp`).
use vstd::prelude::*;

use crate::text::chars_of;

verus! {

/// `a[i..] <= b[i..]` in lexicographic order by code point.
pub open spec fn lex_le_at(a: Seq<char>, b: Seq<char>, i: int) -> bool
    decreases a.len() - i,
{
    if i < 0 || i >= a.len() {
        true
    } else if i >= b.len() {
        false
    } else if a[i] != b[i] {
        (a[i] as u32) < (b[i] as u32)
    } else {
        lex_le_at(a, b, i + 1)
    }
}

/// `a <= b` in lexicographic order by code point, the order in which `str::cmp` sorts strings.
pub open spec fn lex_le(a: Seq<char>, b: Seq<char>) -> bool {
    lex_le_at(a, b, 0)
}

proof fn lemma_char_u32_injective(x: char, y: char)
    requires
        x != y,
    ensures
        (x as u32) != (y as u32),
{
}

pub proof fn lemma_lex_total_at(a: Seq<char>, b: Seq<char>, i: int)
    requires
        0 <= i,
    ensures
        lex_le_at(a, b, i) || lex_le_at(b, a, i),
    decreases a.len() - i,
{
    if i < a.len() && i < b.len() {
        if a[i] != b[i] {
            lemma_char_u32_injective(a[i], b[i]);
        } else {
            lemma_lex_total_at(a, b, i + 1);
        }
    }
}

/// Any two sequences are comparable.
pub proof fn lemma_lex_total(a: Seq<char>, b: Seq<char>)
    ensures
        lex_le(a, b) || lex_le(b, a),
{
    lemma_lex_total_at(a, b, 0);
}

pub proof fn lemma_lex_antisym_at(a: Seq<char>, b: Seq<char>, i: int)
    requires
        0 <= i <= a.len(),
        i <= b.len(),
        a.take(i) == b.take(i),
        lex_le_at(a, b, i),
        lex_le_at(b, a, i),
    ensures
        a == b,
    decreases a.len() - i,
{
    if i >= a.len() {
        assert(i >= b.len());
        assert(a =~= a.take(i));
        assert(b =~= b.take(i));
    } else {
        assert(i < b.len());
        if a[i] != b[i] {
            lemma_char_u32_injective(a[i], b[i]);
        } else {
            assert(a.take(i + 1) =~= a.take(i).push(a[i]));
            assert(b.take(i + 1) =~= b.take(i).push(b[i]));
            lemma_lex_antisym_at(a, b, i + 1);
        }
    }
}

/// Two sequences that are each `<=` the other are equal.
pub proof fn lemma_lex_antisym(a: Seq<char>, b: Seq<char>)
    requires
        lex_le(a, b),
        lex_le(b, a),
    ensures
        a == b,
{
    assert(a.take(0) =~= b.take(0));
    lemma_lex_antisym_at(a, b, 0);
}

pub proof fn lemma_lex_trans_at(a: Seq<char>, b: Seq<char>, c: Seq<char>, i: int)
    requires
        0 <= i,
        lex_le_at(a, b, i),
        lex_le_at(b, c, i),
    ensures
        lex_le_at(a, c, i),
    decreases a.len() - i,
{
    if i < a.len() {
        assert(i < b.len());
        assert(i < c.len());
        if a[i] == b[i] && b[i] == c[i] {
            lemma_lex_trans_at(a, b, c, i + 1);
        } else if a[i] == b[i] {
        } else if b[i] == c[i] {
        } else {
            if a[i] == c[i] {
                lemma_char_u32_injective(a[i], b[i]);
            }
        }
    }
}

/// `<=` is transitive.
pub proof fn lemma_lex_trans(a: Seq<char>, b: Seq<char>, c: Seq<char>)
    requires
        lex_le(a, b),
        lex_le(b, c),
    ensures
        lex_le(a, c),
{
    lemma_lex_trans_at(a, b, c, 0);
}

/// Every sequence is `<=` itself.
pub proof fn lemma_lex_refl(a: Seq<char>)
    ensures
        lex_le(a, a),
{
    lemma_lex_total(a, a);
}

/// Whether `a <= b` in lexicographic order.
pub fn chars_lex_le(a: &Vec<char>, b: &Vec<char>) -> (r: bool)
    ensures
        r == lex_le(a@, b@),
{
    let mut i: usize = 0;
    while i < a.len() && i < b.len() && a[i] == b[i]
        invariant
            i <= a.len(),
            i <= b.len(),
            lex_le_at(a@, b@, i as int) == lex_le(a@, b@),
        decreases a.len() - i,
    {
        i = i + 1;
    }
    if i >= a.len() {
        true
    } else if i >= b.len() {
        false
    } else {
        (a[i] as u32) < (b[i] as u32)
    }
}

/// Whether `a <= b` in lexicographic order.
pub fn str_lex_le(a: &str, b: &str) -> (r: bool)
    ensures
        r == lex_le(a@, b@),
{
    let va = chars_of(a);
    let vb = chars_of(b);
    chars_lex_le(&va, &vb)
}

} // verus!
