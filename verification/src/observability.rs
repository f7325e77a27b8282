//! Metric keys and an in-memory metric table.
use vstd::prelude::*;

use crate::assoc::StringMap;
use crate::sorting::{
    StrKey, distinct_keys, lemma_sort_by_key, lemma_sort_permutation_invariant, sort_by_key,
    sort_by_str_key, sorted_by_key,
};
use crate::order::lex_le;
use crate::text::{chars_of, owned};

verus! {

/// Metric labels: `(name, value)` pairs.
pub type Labels<'a> = &'a [(&'a str, &'a str)];

impl<'a> StrKey for (&'a str, &'a str) {
    open spec fn spec_key(&self) -> Seq<char> {
        self.0@
    }

    fn key_chars(&self) -> (r: Vec<char>) {
        chars_of(self.0)
    }
}

/// `name=value` for one label.
pub open spec fn label_item(l: (&str, &str)) -> Seq<char> {
    l.0@ + seq!['='] + l.1@
}

/// Labels rendered in order, separated by commas.
pub open spec fn render_labels(s: Seq<(&str, &str)>) -> Seq<char>
    decreases s.len(),
{
    if s.len() == 0 {
        Seq::empty()
    } else if s.len() == 1 {
        label_item(s[0])
    } else {
        render_labels(s.drop_last()) + seq![','] + label_item(s.last())
    }
}

/// A metric's key: the bare name without labels, else `name{k1=v1,k2=v2}` with the labels
/// stably sorted by name.
pub open spec fn metric_key_spec(name: Seq<char>, labels: Seq<(&str, &str)>) -> Seq<char> {
    if labels.len() == 0 {
        name
    } else {
        name + seq!['{'] + render_labels(sort_by_key(labels)) + seq!['}']
    }
}

pub fn format_metric_key(name: &str, labels: Labels<'_>) -> (r: String)
    ensures
        r@ == metric_key_spec(name@, labels@),
{
    if labels.len() == 0 {
        return owned(name);
    }
    let mut copy: Vec<(&str, &str)> = Vec::new();
    let mut i: usize = 0;
    while i < labels.len()
        invariant
            i <= labels.len(),
            copy@ == labels@.take(i as int),
        decreases labels.len() - i,
    {
        copy.push(labels[i]);
        i = i + 1;
    }
    assert(labels@.take(labels@.len() as int) =~= labels@);
    let sorted = sort_by_str_key(copy);
    let mut out = owned(name);
    out.push('{');
    let mut idx: usize = 0;
    while idx < sorted.len()
        invariant
            idx <= sorted.len(),
            sorted@ == sort_by_key(labels@),
            sorted@.len() > 0,
            out@ == name@ + seq!['{'] + render_labels(sorted@.take(idx as int)),
        decreases sorted.len() - idx,
    {
        let (k, v) = sorted[idx];
        let ghost before = out@;
        if idx > 0 {
            out.push(',');
        }
        out.push_str(k);
        out.push('=');
        out.push_str(v);
        proof {
            let t = sorted@.take(idx as int + 1);
            assert(t.drop_last() =~= sorted@.take(idx as int));
            if idx == 0 {
                assert(out@ =~= before + label_item(sorted@[0]));
                assert(render_labels(t) == label_item(t[0]));
            } else {
                assert(out@ =~= before + seq![','] + label_item(sorted@[idx as int]));
            }
        }
        idx = idx + 1;
    }
    proof {
        lemma_sort_by_key(labels@);
        assert(sorted@.take(sorted@.len() as int) =~= sorted@);
    }
    out.push('}');
    out
}

/// A metric key does not depend on the order in which distinctly named labels are given:
/// `format_metric_key` gives the same key for any permutation of labels with distinct names.
pub proof fn law_metric_key_label_order(
    name: Seq<char>,
    labels1: Seq<(&str, &str)>,
    labels2: Seq<(&str, &str)>,
)
    requires
        distinct_keys(labels1),
        labels1.to_multiset() == labels2.to_multiset(),
    ensures
        metric_key_spec(name, labels1) == metric_key_spec(name, labels2),
{
    labels1.to_multiset_ensures();
    labels2.to_multiset_ensures();
    lemma_sort_permutation_invariant(labels1, labels2);
}

/// Receives counter increments and duration observations.
pub trait MetricsSink {
    fn incr_counter(&mut self, name: &str, value: u64, labels: Labels<'_>);

    fn observe_duration_ms(&mut self, name: &str, duration_ms: u64, labels: Labels<'_>);
}

/// A sink that discards everything.
#[derive(Default)]
pub struct NoopMetrics;

impl MetricsSink for NoopMetrics {
    fn incr_counter(&mut self, _name: &str, _value: u64, _labels: Labels<'_>) {
    }

    fn observe_duration_ms(&mut self, _name: &str, _duration_ms: u64, _labels: Labels<'_>) {
    }
}

/// `a + b`, or `u64::MAX` where that overflows.
pub open spec fn sat_add(a: u64, b: u64) -> u64 {
    if a + b > u64::MAX {
        u64::MAX
    } else {
        (a + b) as u64
    }
}

fn saturating_add(a: u64, b: u64) -> (r: u64)
    ensures
        r == sat_add(a, b),
{
    if a > u64::MAX - b {
        u64::MAX
    } else {
        a + b
    }
}

/// The value a counter holds after adding `value` to what `m` holds under `key`.
pub open spec fn bumped(m: Map<Seq<char>, u64>, key: Seq<char>, value: u64) -> u64 {
    if m.contains_key(key) {
        sat_add(m[key], value)
    } else {
        value
    }
}

/// The `(sum, count)` a duration series holds after one more observation of `ms`.
pub open spec fn observed(m: Map<Seq<char>, (u64, u64)>, key: Seq<char>, ms: u64) -> (u64, u64) {
    if m.contains_key(key) {
        (sat_add(m[key].0, ms), sat_add(m[key].1, 1))
    } else {
        (ms, 1)
    }
}

/// Counters and duration sums kept in memory, keyed by metric key.
pub struct InMemoryMetrics {
    counters: StringMap<u64>,
    durations: StringMap<(u64, u64)>,
}

impl InMemoryMetrics {
    /// Counter values by metric key.
    pub closed spec fn counter_map(&self) -> Map<Seq<char>, u64> {
        self.counters@
    }

    /// Duration `(sum_ms, count)` by metric key.
    pub closed spec fn duration_map(&self) -> Map<Seq<char>, (u64, u64)> {
        self.durations@
    }

    pub fn new() -> (r: Self)
        ensures
            r.counter_map() == Map::<Seq<char>, u64>::empty(),
            r.duration_map() == Map::<Seq<char>, (u64, u64)>::empty(),
    {
        InMemoryMetrics { counters: StringMap::new(), durations: StringMap::new() }
    }

    /// Adds `value` to the counter of `name` and `labels`, saturating at `u64::MAX`.
    pub fn add_to_counter(&mut self, name: &str, value: u64, labels: Labels<'_>)
        ensures
            final(self).counter_map() == old(self).counter_map().insert(
                metric_key_spec(name@, labels@),
                bumped(old(self).counter_map(), metric_key_spec(name@, labels@), value),
            ),
            final(self).duration_map() == old(self).duration_map(),
    {
        let key = format_metric_key(name, labels);
        let next = match self.counters.get(key.as_str()) {
            Some(current) => saturating_add(*current, value),
            None => value,
        };
        self.counters.insert(key.as_str(), next);
    }

    /// Records one observation of `duration_ms` under `name` and `labels`.
    pub fn record_duration(&mut self, name: &str, duration_ms: u64, labels: Labels<'_>)
        ensures
            final(self).duration_map() == old(self).duration_map().insert(
                metric_key_spec(name@, labels@),
                observed(old(self).duration_map(), metric_key_spec(name@, labels@), duration_ms),
            ),
            final(self).counter_map() == old(self).counter_map(),
    {
        let key = format_metric_key(name, labels);
        let next = match self.durations.get(key.as_str()) {
            Some(current) => (saturating_add(current.0, duration_ms), saturating_add(current.1, 1)),
            None => (duration_ms, 1),
        };
        self.durations.insert(key.as_str(), next);
    }

    /// All counters, sorted by key.
    pub fn snapshot_counters(&self) -> (r: Vec<(String, u64)>)
        ensures
            r@.len() == self.counter_map().len(),
            sorted_by_key(r@),
            forall|i: int| 0 <= i < r@.len() ==> #[trigger] self.counter_map().contains_key(r@[i].0@)
                && self.counter_map()[r@[i].0@] == r@[i].1,
            forall|k: Seq<char>| #[trigger] self.counter_map().contains_key(k) ==> exists|i: int|
                0 <= i < r@.len() && r@[i].0@ == k,
    {
        let copy = copy_entries_u64(&self.counters);
        self.counters.lemma_view();
        proof {
            lemma_sort_by_key(copy@);
        }
        let r = sort_by_str_key(copy);
        proof {
            broadcast use vstd::seq_lib::group_to_multiset_ensures;
            let e = self.counters.spec_entries();
            assert forall|i: int| 0 <= i < r@.len() implies #[trigger] self.counter_map().contains_key(r@[i].0@)
                && self.counter_map()[r@[i].0@] == r@[i].1 by {
                assert(r@.to_multiset().count(r@[i]) > 0);
                assert(e.contains(r@[i]));
                let j = choose|j: int| 0 <= j < e.len() && e[j] == r@[i];
                assert(self.counters@[e[j].0@] == e[j].1);
            }
            assert forall|k: Seq<char>| #[trigger] self.counter_map().contains_key(k) implies exists|i: int|
                0 <= i < r@.len() && r@[i].0@ == k by {
                let j = choose|j: int| 0 <= j < e.len() && e[j].0@ == k;
                assert(e.to_multiset().count(e[j]) > 0);
                assert(r@.contains(e[j]));
            }
        }
        r
    }

    /// All duration series `(key, (sum_ms, count))`, sorted by key.
    fn sorted_duration_pairs(&self) -> (r: Vec<(String, (u64, u64))>)
        ensures
            r@.len() == self.duration_map().len(),
            sorted_by_key(r@),
            forall|i: int| 0 <= i < r@.len() ==> #[trigger] self.duration_map().contains_key(r@[i].0@)
                && self.duration_map()[r@[i].0@] == r@[i].1,
            forall|k: Seq<char>| #[trigger] self.duration_map().contains_key(k) ==> exists|i: int|
                0 <= i < r@.len() && r@[i].0@ == k,
    {
        let copy = copy_entries_pair(&self.durations);
        self.durations.lemma_view();
        proof {
            lemma_sort_by_key(copy@);
        }
        let r = sort_by_str_key(copy);
        proof {
            broadcast use vstd::seq_lib::group_to_multiset_ensures;
            let e = self.durations.spec_entries();
            assert forall|i: int| 0 <= i < r@.len() implies #[trigger] self.duration_map().contains_key(r@[i].0@)
                && self.duration_map()[r@[i].0@] == r@[i].1 by {
                assert(r@.to_multiset().count(r@[i]) > 0);
                assert(e.contains(r@[i]));
                let j = choose|j: int| 0 <= j < e.len() && e[j] == r@[i];
                assert(self.durations@[e[j].0@] == e[j].1);
            }
            assert forall|k: Seq<char>| #[trigger] self.duration_map().contains_key(k) implies exists|i: int|
                0 <= i < r@.len() && r@[i].0@ == k by {
                let j = choose|j: int| 0 <= j < e.len() && e[j].0@ == k;
                assert(e.to_multiset().count(e[j]) > 0);
                assert(r@.contains(e[j]));
            }
        }
        r
    }

    /// All duration series `(key, sum_ms, count)`, sorted by key.
    pub fn snapshot_durations(&self) -> (r: Vec<(String, u64, u64)>)
        ensures
            r@.len() == self.duration_map().len(),
            forall|a: int, b: int| 0 <= a < b < r@.len() ==> lex_le(#[trigger] r@[a].0@, #[trigger] r@[b].0@),
            forall|i: int| 0 <= i < r@.len() ==> #[trigger] self.duration_map().contains_key(r@[i].0@)
                && self.duration_map()[r@[i].0@] == (r@[i].1, r@[i].2),
            forall|k: Seq<char>| #[trigger] self.duration_map().contains_key(k) ==> exists|i: int|
                0 <= i < r@.len() && r@[i].0@ == k,
    {
        let pairs = self.sorted_duration_pairs();
        let ghost p = pairs@;
        let mut rest = pairs;
        let mut out: Vec<(String, u64, u64)> = Vec::new();
        while rest.len() > 0
            invariant
                rest.len() <= p.len(),
                rest@ == p.skip(p.len() - rest.len()),
                out@.len() == p.len() - rest.len(),
                forall|i: int| 0 <= i < out@.len() ==> (#[trigger] out@[i]).0@ == p[i].0@ && (out@[i].1, out@[i].2) == p[i].1,
            decreases rest.len(),
        {
            let ghost done = p.len() - rest.len();
            let (k, (sum, count)) = rest.remove(0);
            assert(rest@ =~= p.skip(done + 1));
            out.push((k, sum, count));
        }
        proof {
            assert forall|a: int, b: int| 0 <= a < b < out@.len() implies lex_le(#[trigger] out@[a].0@, #[trigger] out@[b].0@) by {
                assert(lex_le(p[a].spec_key(), p[b].spec_key()));
            }
            assert forall|k: Seq<char>| #[trigger] self.duration_map().contains_key(k) implies exists|i: int|
                0 <= i < out@.len() && out@[i].0@ == k by {
                let i = choose|i: int| 0 <= i < p.len() && p[i].0@ == k;
                assert(out@[i].0@ == p[i].0@);
            }
            assert forall|i: int| 0 <= i < out@.len() implies #[trigger] self.duration_map().contains_key(out@[i].0@)
                && self.duration_map()[out@[i].0@] == (out@[i].1, out@[i].2) by {
                assert(out@[i].0@ == p[i].0@);
            }
        }
        out
    }
}

impl MetricsSink for InMemoryMetrics {
    fn incr_counter(&mut self, name: &str, value: u64, labels: Labels<'_>)
        ensures
            final(self).counter_map() == old(self).counter_map().insert(
                metric_key_spec(name@, labels@),
                bumped(old(self).counter_map(), metric_key_spec(name@, labels@), value),
            ),
            final(self).duration_map() == old(self).duration_map(),
    {
        self.add_to_counter(name, value, labels);
    }

    fn observe_duration_ms(&mut self, name: &str, duration_ms: u64, labels: Labels<'_>)
        ensures
            final(self).duration_map() == old(self).duration_map().insert(
                metric_key_spec(name@, labels@),
                observed(old(self).duration_map(), metric_key_spec(name@, labels@), duration_ms),
            ),
            final(self).counter_map() == old(self).counter_map(),
    {
        self.record_duration(name, duration_ms, labels);
    }
}

/// A copy of the entries of a counter map.
fn copy_entries_u64(m: &StringMap<u64>) -> (r: Vec<(String, u64)>)
    ensures
        r@ == m.spec_entries(),
{
    let mut out: Vec<(String, u64)> = Vec::new();
    let mut i: usize = 0;
    while i < m.entry_count()
        invariant
            i <= m.spec_entries().len(),
            out@ == m.spec_entries().take(i as int),
        decreases m.spec_entries().len() - i,
    {
        let k = m.key_at(i).clone();
        let v = *m.value_at(i);
        out.push((k, v));
        proof {
            assert(out@ =~= m.spec_entries().take(i as int + 1));
        }
        i = i + 1;
    }
    assert(m.spec_entries().take(m.spec_entries().len() as int) =~= m.spec_entries());
    out
}

/// A copy of the entries of a duration map.
fn copy_entries_pair(m: &StringMap<(u64, u64)>) -> (r: Vec<(String, (u64, u64))>)
    ensures
        r@ == m.spec_entries(),
{
    let mut out: Vec<(String, (u64, u64))> = Vec::new();
    let mut i: usize = 0;
    while i < m.entry_count()
        invariant
            i <= m.spec_entries().len(),
            out@ == m.spec_entries().take(i as int),
        decreases m.spec_entries().len() - i,
    {
        let k = m.key_at(i).clone();
        let v = *m.value_at(i);
        out.push((k, v));
        proof {
            assert(out@ =~= m.spec_entries().take(i as int + 1));
        }
        i = i + 1;
    }
    assert(m.spec_entries().take(m.spec_entries().len() as int) =~= m.spec_entries());
    out
}

/// `std::time::Instant`, a reading of the monotonic clock.
#[verifier::external_type_specification]
#[verifier::external_body]
pub struct ExInstant(std::time::Instant);

/// Calls `Instant::elapsed`: the time that has passed since `start`. It depends on the
/// clock, so nothing is promised of its length.
#[verifier::external_body]
fn instant_elapsed(start: &std::time::Instant) -> std::time::Duration {
    start.elapsed()
}

/// Calls `Duration::as_millis`: the whole milliseconds of `d`. `Duration` has no view
/// here, so the count is not tied to `d` by any clause.
#[verifier::external_body]
fn duration_millis(d: &std::time::Duration) -> u128 {
    d.as_millis()
}

/// The whole milliseconds since `start`, cut to 64 bits as a cast does. It reads the
/// clock, so no clause states its value.
pub fn elapsed_ms(start: std::time::Instant) -> u64 {
    let ms = duration_millis(&instant_elapsed(&start));
    ms as u64
}

} // verus!
