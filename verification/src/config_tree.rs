//! Configuration documents as trees of named sections: lookup by section or by dotted
//! path, and merging one document over another.
use vstd::prelude::*;

use crate::command::string_views;
use crate::text::{chars_of, owned, str_equal};

verus! {

/// `toml::Value`, carried opaquely as the value of a setting.
#[verifier::external_type_specification]
#[verifier::external_body]
pub struct ExTomlValue(toml::Value);

/// `Clone` of a TOML value yields an equal value (the impl is derived: a deep copy).
pub assume_specification[ <toml::Value as Clone>::clone ](v: &toml::Value) -> (r: toml::Value)
    ensures
        r == *v,
;

/// A configuration value: a table of named values, or a setting (a string, number, boolean,
/// date or array) whose contents the configuration logic does not look into.
#[derive(Debug)]
pub enum ConfigValue {
    Table(Vec<(String, ConfigValue)>),
    Leaf(toml::Value),
}

/// What a configuration value is: a table as its entries in order, or a setting.
pub enum ConfigView {
    Table(Seq<(Seq<char>, ConfigView)>),
    Leaf(toml::Value),
}

/// The entries of a table, each with its name as characters and its value's view.
pub open spec fn entries_view(es: Seq<(String, ConfigValue)>) -> Seq<(Seq<char>, ConfigView)>
    decreases es, 1int,
{
    if es.len() == 0 {
        Seq::empty()
    } else {
        entries_view(es.drop_last()).push((es.last().0@, value_view(es.last().1)))
    }
}

/// The view of a configuration value.
pub open spec fn value_view(v: ConfigValue) -> ConfigView
    decreases v, 0int,
{
    match v {
        ConfigValue::Table(es) => ConfigView::Table(entries_view(es@)),
        ConfigValue::Leaf(x) => ConfigView::Leaf(x),
    }
}

impl View for ConfigValue {
    type V = ConfigView;

    open spec fn view(&self) -> ConfigView {
        value_view(*self)
    }
}

pub proof fn lemma_entries_view(es: Seq<(String, ConfigValue)>)
    ensures
        entries_view(es).len() == es.len(),
        forall|i: int|
            0 <= i < es.len() ==> #[trigger] entries_view(es)[i] == (es[i].0@, value_view(es[i].1)),
    decreases es.len(),
{
    if es.len() > 0 {
        lemma_entries_view(es.drop_last());
    }
}

/// Index of the first entry at or after `i` named `k`, or the length when none is.
pub open spec fn key_index(es: Seq<(Seq<char>, ConfigView)>, k: Seq<char>, i: int) -> int
    decreases es.len() - i,
{
    if i < 0 || i >= es.len() {
        es.len() as int
    } else if es[i].0 == k {
        i
    } else {
        key_index(es, k, i + 1)
    }
}

pub proof fn lemma_key_index(es: Seq<(Seq<char>, ConfigView)>, k: Seq<char>, i: int)
    requires
        0 <= i <= es.len(),
    ensures
        i <= key_index(es, k, i) <= es.len(),
        key_index(es, k, i) < es.len() ==> es[key_index(es, k, i)].0 == k,
        forall|m: int| i <= m < key_index(es, k, i) ==> #[trigger] es[m].0 != k,
    decreases es.len() - i,
{
    if i < es.len() && es[i].0 != k {
        lemma_key_index(es, k, i + 1);
    }
}

/// The value named `k` in a table; `None` when there is no such entry or the value is not
/// a table (as `toml::Value::get` answers).
pub open spec fn lookup(v: ConfigView, k: Seq<char>) -> Option<ConfigView> {
    match v {
        ConfigView::Table(es) => lookup_entries(es, k),
        ConfigView::Leaf(_) => None,
    }
}

/// The value of the first entry of `es` named `k`.
pub open spec fn lookup_entries(es: Seq<(Seq<char>, ConfigView)>, k: Seq<char>) -> Option<
    ConfigView,
> {
    let j = key_index(es, k, 0);
    if j < es.len() {
        Some(es[j].1)
    } else {
        None
    }
}

/// Copies the entries of a table.
fn copy_entries(es: &Vec<(String, ConfigValue)>) -> (r: Vec<(String, ConfigValue)>)
    ensures
        entries_view(r@) == entries_view(es@),
    decreases es, 0int,
{
    let mut out: Vec<(String, ConfigValue)> = Vec::new();
    let mut i: usize = 0;
    while i < es.len()
        invariant
            i <= es.len(),
            entries_view(out@) == entries_view(es@.take(i as int)),
        decreases es.len() - i,
    {
        proof {
            assert(decreases_to!(es => es@[i as int].1));
        }
        let v = es[i].1.copy();
        let k = owned(es[i].0.as_str());
        let ghost prev = out@;
        out.push((k, v));
        proof {
            assert(out@.drop_last() =~= prev);
            assert(es@.take(i as int + 1).drop_last() =~= es@.take(i as int));
        }
        i = i + 1;
    }
    proof {
        assert(es@.take(es.len() as int) =~= es@);
    }
    out
}

impl ConfigValue {
    /// A copy of this value.
    pub fn copy(&self) -> (r: Self)
        ensures
            r@ == self@,
        decreases self, 1int,
    {
        match self {
            ConfigValue::Table(es) => ConfigValue::Table(copy_entries(es)),
            ConfigValue::Leaf(x) => ConfigValue::Leaf(x.clone()),
        }
    }
}

/// Index of the first entry of `es` named `key`, or the length when none is.
fn find_key(es: &Vec<(String, ConfigValue)>, key: &str) -> (r: usize)
    ensures
        r == key_index(entries_view(es@), key@, 0),
        r <= es.len(),
{
    proof {
        lemma_entries_view(es@);
        lemma_key_index(entries_view(es@), key@, 0);
    }
    let mut i: usize = 0;
    while i < es.len()
        invariant
            i <= es.len(),
            entries_view(es@).len() == es.len(),
            key_index(entries_view(es@), key@, i as int) == key_index(entries_view(es@), key@, 0),
        decreases es.len() - i,
    {
        proof {
            lemma_entries_view(es@);
        }
        if str_equal(es[i].0.as_str(), key) {
            return i;
        }
        i = i + 1;
    }
    i
}

impl ConfigValue {
    /// The value named `key` in this table (`toml::Value::get`); `None` when there is no
    /// such entry or this is not a table.
    pub fn get(&self, key: &str) -> (r: Option<&ConfigValue>)
        ensures
            r is Some <==> lookup(self@, key@) is Some,
            r matches Some(v) ==> lookup(self@, key@) == Some(v@),
    {
        match self {
            ConfigValue::Table(es) => {
                let j = find_key(es, key);
                proof {
                    lemma_entries_view(es@);
                }
                if j < es.len() {
                    Some(&es[j].1)
                } else {
                    None
                }
            },
            ConfigValue::Leaf(_) => None,
        }
    }

    /// Whether this is a table.
    pub fn is_table(&self) -> (r: bool)
        ensures
            r <==> self@ is Table,
    {
        match self {
            ConfigValue::Table(_) => true,
            ConfigValue::Leaf(_) => false,
        }
    }
}

/// `other` merged over `base`: where both are tables, each entry of `other` is merged over
/// the entry of `base` with its name, or added after the entries of `base` when there is
/// none; otherwise `other` replaces `base`.
pub open spec fn merged(base: ConfigView, other: ConfigView) -> ConfigView
    decreases other, 0int,
{
    match other {
        ConfigView::Table(o) => match base {
            ConfigView::Table(b) => ConfigView::Table(merge_entries(b, o, 0)),
            ConfigView::Leaf(_) => other,
        },
        ConfigView::Leaf(_) => other,
    }
}

/// The entries `acc` after merging the entries `o[i..]` over them, in order.
pub open spec fn merge_entries(
    acc: Seq<(Seq<char>, ConfigView)>,
    o: Seq<(Seq<char>, ConfigView)>,
    i: int,
) -> Seq<(Seq<char>, ConfigView)>
    decreases o, o.len() - i + 1,
{
    if 0 <= i < o.len() {
        merge_entries(merge_entry(acc, o, i), o, i + 1)
    } else {
        acc
    }
}

/// `acc` after merging the entry `o[i]` over it.
pub open spec fn merge_entry(
    acc: Seq<(Seq<char>, ConfigView)>,
    o: Seq<(Seq<char>, ConfigView)>,
    i: int,
) -> Seq<(Seq<char>, ConfigView)>
    recommends
        0 <= i < o.len(),
    decreases o, 0int,
    when 0 <= i < o.len()
{
    let k = o[i].0;
    let j = key_index(acc, k, 0);
    if j < acc.len() {
        acc.update(j, (k, merged(acc[j].1, o[i].1)))
    } else {
        acc.push(o[i])
    }
}

/// `other` merged over `base` (the values of `other` win).
pub fn merge_values(base: &ConfigValue, other: &ConfigValue) -> (r: ConfigValue)
    ensures
        r@ == merged(base@, other@),
    decreases other,
{
    match other {
        ConfigValue::Table(o) => match base {
            ConfigValue::Table(b) => {
                let mut acc = copy_entries(b);
                let ghost ov = entries_view(o@);
                proof {
                    lemma_entries_view(o@);
                }
                let mut i: usize = 0;
                while i < o.len()
                    invariant
                        i <= o.len(),
                        *other == ConfigValue::Table(*o),
                        ov == entries_view(o@),
                        ov.len() == o.len(),
                        forall|m: int| 0 <= m < o.len() ==> #[trigger] ov[m] == (o@[m].0@, value_view(o@[m].1)),
                        merge_entries(entries_view(acc@), ov, i as int) == merge_entries(
                            entries_view(b@),
                            ov,
                            0,
                        ),
                    decreases o.len() - i,
                {
                    proof {
                        lemma_entries_view(acc@);
                    }
                    let j = find_key(&acc, o[i].0.as_str());
                    let ghost before = entries_view(acc@);
                    let ghost prev_raw = acc@;
                    if j < acc.len() {
                        proof {
                            assert(decreases_to!(*other => other->Table_0));
                            assert(decreases_to!(*o => o@[i as int].1));
                        }
                        let m = merge_values(&acc[j].1, &o[i].1);
                        let key = owned(o[i].0.as_str());
                        acc.set(j, (key, m));
                        proof {
                            lemma_entries_view(acc@);
                            assert(entries_view(acc@) =~= before.update(
                                j as int,
                                (ov[i as int].0, merged(before[j as int].1, ov[i as int].1)),
                            ));
                        }
                    } else {
                        let key = owned(o[i].0.as_str());
                        let v = o[i].1.copy();
                        acc.push((key, v));
                        proof {
                            assert(acc@.drop_last() =~= prev_raw);
                        }
                    }
                    proof {
                        assert(entries_view(acc@) == merge_entry(before, ov, i as int));
                    }
                    i = i + 1;
                }
                ConfigValue::Table(acc)
            },
            ConfigValue::Leaf(_) => other.copy(),
        },
        ConfigValue::Leaf(_) => other.copy(),
    }
}

/// No two entries have the same name.
pub open spec fn distinct_names(es: Seq<(Seq<char>, ConfigView)>) -> bool {
    forall|a: int, b: int| 0 <= a < b < es.len() ==> #[trigger] es[a].0 != #[trigger] es[b].0
}

/// Every table in `v`, at any depth, names each entry once (as a parsed document does).
pub open spec fn well_formed(v: ConfigView) -> bool
    decreases v, 1int,
{
    match v {
        ConfigView::Table(es) => distinct_names(es) && all_well_formed(es, es.len() as int),
        ConfigView::Leaf(_) => true,
    }
}

/// The first `n` entries of `es` hold well-formed values.
pub open spec fn all_well_formed(es: Seq<(Seq<char>, ConfigView)>, n: int) -> bool
    decreases es, n,
{
    if n <= 0 {
        true
    } else {
        n <= es.len() && all_well_formed(es, n - 1) && well_formed(es[n - 1].1)
    }
}

proof fn lemma_all_well_formed(es: Seq<(Seq<char>, ConfigView)>, n: int)
    requires
        0 <= n <= es.len(),
    ensures
        all_well_formed(es, n) == forall|m: int| 0 <= m < n ==> #[trigger] well_formed(es[m].1),
    decreases n,
{
    if n > 0 {
        lemma_all_well_formed(es, n - 1);
        assert(all_well_formed(es, n) == (all_well_formed(es, n - 1) && well_formed(es[n - 1].1)));
    }
}

proof fn lemma_well_formed_table(es: Seq<(Seq<char>, ConfigView)>)
    ensures
        well_formed(ConfigView::Table(es)) == (distinct_names(es) && forall|m: int|
            0 <= m < es.len() ==> #[trigger] well_formed(es[m].1)),
{
    lemma_all_well_formed(es, es.len() as int);
}

/// How a name is found after a merge: the merged value where both sides have it, the value
/// of `other` where only it has one, and the value of `base` otherwise.
pub open spec fn merged_lookup(base: Option<ConfigView>, other: Option<ConfigView>) -> Option<
    ConfigView,
> {
    match other {
        Some(ov) => match base {
            Some(bv) => Some(merged(bv, ov)),
            None => Some(ov),
        },
        None => base,
    }
}

proof fn lemma_key_index_same_names(
    e1: Seq<(Seq<char>, ConfigView)>,
    e2: Seq<(Seq<char>, ConfigView)>,
    k: Seq<char>,
    i: int,
)
    requires
        e1.len() == e2.len(),
        forall|m: int| 0 <= m < e1.len() ==> #[trigger] e1[m].0 == e2[m].0,
    ensures
        key_index(e1, k, i) == key_index(e2, k, i),
    decreases e1.len() - i,
{
    if 0 <= i < e1.len() && e1[i].0 != k {
        lemma_key_index_same_names(e1, e2, k, i + 1);
    }
}

proof fn lemma_key_index_push(
    es: Seq<(Seq<char>, ConfigView)>,
    e: (Seq<char>, ConfigView),
    k: Seq<char>,
    i: int,
)
    requires
        0 <= i <= es.len(),
    ensures
        key_index(es, k, i) < es.len() ==> key_index(es.push(e), k, i) == key_index(es, k, i),
        key_index(es, k, i) == es.len() && e.0 == k ==> key_index(es.push(e), k, i) == es.len(),
        key_index(es, k, i) == es.len() && e.0 != k ==> key_index(es.push(e), k, i) == es.len()
            + 1,
    decreases es.len() - i,
{
    lemma_key_index(es, k, i);
    if i < es.len() && es[i].0 != k {
        lemma_key_index_push(es, e, k, i + 1);
    } else if i == es.len() {
        assert(es.push(e)[i] == e);
        if e.0 != k {
            assert(key_index(es.push(e), k, i + 1) == es.len() + 1);
        }
    }
}

proof fn lemma_key_index_distinct(es: Seq<(Seq<char>, ConfigView)>, m: int, i: int)
    requires
        distinct_names(es),
        0 <= i <= m < es.len(),
    ensures
        key_index(es, es[m].0, i) == m,
    decreases m - i,
{
    if i < m {
        assert(es[i].0 != es[m].0);
        lemma_key_index_distinct(es, m, i + 1);
    }
}

/// A name found from index `i` on is the name's first entry when names are distinct.
proof fn lemma_key_index_from(es: Seq<(Seq<char>, ConfigView)>, k: Seq<char>, i: int)
    requires
        distinct_names(es),
        0 <= i <= es.len(),
        key_index(es, k, i) < es.len(),
    ensures
        key_index(es, k, 0) == key_index(es, k, i),
{
    lemma_key_index(es, k, i);
    lemma_key_index_distinct(es, key_index(es, k, i), 0);
}

proof fn lemma_merge_entry(
    acc: Seq<(Seq<char>, ConfigView)>,
    o: Seq<(Seq<char>, ConfigView)>,
    i: int,
)
    requires
        0 <= i < o.len(),
        distinct_names(acc),
        forall|m: int| 0 <= m < acc.len() ==> #[trigger] well_formed(acc[m].1),
        well_formed(o[i].1),
    ensures
        distinct_names(merge_entry(acc, o, i)),
        forall|m: int|
            0 <= m < merge_entry(acc, o, i).len() ==> #[trigger] well_formed(
                merge_entry(acc, o, i)[m].1,
            ),
        lookup_entries(merge_entry(acc, o, i), o[i].0) == merged_lookup(
            lookup_entries(acc, o[i].0),
            Some(o[i].1),
        ),
        forall|k: Seq<char>|
            k != o[i].0 ==> #[trigger] lookup_entries(merge_entry(acc, o, i), k)
                == lookup_entries(acc, k),
    decreases o, 0int,
{
    let k = o[i].0;
    let j = key_index(acc, k, 0);
    lemma_key_index(acc, k, 0);
    let next = merge_entry(acc, o, i);
    if j < acc.len() {
        assert(decreases_to!(o => o[i]));
        law_merge_overrides(acc[j].1, o[i].1);
        assert forall|q: Seq<char>| true implies #[trigger] key_index(next, q, 0) == key_index(
            acc,
            q,
            0,
        ) by {
            lemma_key_index_same_names(next, acc, q, 0);
        }
        assert forall|a: int, b: int| 0 <= a < b < next.len() implies #[trigger] next[a].0
            != #[trigger] next[b].0 by {
            assert(next[a].0 == acc[a].0 && next[b].0 == acc[b].0);
        }
        assert forall|q: Seq<char>| q != k implies #[trigger] lookup_entries(next, q)
            == lookup_entries(acc, q) by {
            lemma_key_index(acc, q, 0);
            assert(key_index(next, q, 0) == key_index(acc, q, 0));
        }
    } else {
        let e = o[i];
        assert forall|q: Seq<char>| q != k implies #[trigger] lookup_entries(next, q)
            == lookup_entries(acc, q) by {
            lemma_key_index(acc, q, 0);
            lemma_key_index_push(acc, e, q, 0);
        }
        lemma_key_index_push(acc, e, k, 0);
        assert forall|a: int, b: int| 0 <= a < b < next.len() implies #[trigger] next[a].0
            != #[trigger] next[b].0 by {
            if b == acc.len() {
                assert(acc[a].0 != k);
            }
        }
    }
}

proof fn lemma_merge_entries(
    acc: Seq<(Seq<char>, ConfigView)>,
    o: Seq<(Seq<char>, ConfigView)>,
    i: int,
)
    requires
        0 <= i <= o.len(),
        distinct_names(acc),
        forall|m: int| 0 <= m < acc.len() ==> #[trigger] well_formed(acc[m].1),
        distinct_names(o),
        forall|m: int| 0 <= m < o.len() ==> #[trigger] well_formed(o[m].1),
    ensures
        distinct_names(merge_entries(acc, o, i)),
        forall|m: int|
            0 <= m < merge_entries(acc, o, i).len() ==> #[trigger] well_formed(
                merge_entries(acc, o, i)[m].1,
            ),
        forall|k: Seq<char>|
            #[trigger] lookup_entries(merge_entries(acc, o, i), k) == if key_index(o, k, i)
                < o.len() {
                merged_lookup(lookup_entries(acc, k), lookup_entries(o, k))
            } else {
                lookup_entries(acc, k)
            },
    decreases o, o.len() - i + 1,
{
    if i < o.len() {
        let next = merge_entry(acc, o, i);
        lemma_merge_entry(acc, o, i);
        lemma_merge_entries(next, o, i + 1);
        let r = merge_entries(acc, o, i);
        assert(r == merge_entries(next, o, i + 1));
        assert forall|k: Seq<char>|
            #[trigger] lookup_entries(r, k) == if key_index(o, k, i) < o.len() {
                merged_lookup(lookup_entries(acc, k), lookup_entries(o, k))
            } else {
                lookup_entries(acc, k)
            } by {
            lemma_key_index(o, k, i);
            lemma_key_index(o, k, i + 1);
            if k == o[i].0 {
                lemma_key_index_distinct(o, i, 0);
                lemma_key_index_distinct(o, i, i);
                assert(key_index(o, k, i + 1) == o.len()) by {
                    if key_index(o, k, i + 1) < o.len() {
                        assert(o[key_index(o, k, i + 1)].0 == o[i].0);
                    }
                }
            } else if key_index(o, k, i + 1) < o.len() {
                lemma_key_index_from(o, k, i + 1);
            }
        }
    } else {
        assert forall|k: Seq<char>| #[trigger] lookup_entries(merge_entries(acc, o, i), k)
            == lookup_entries(acc, k) by {
            lemma_key_index(o, k, i);
        }
    }
}

/// Merging keeps documents well formed, and what a merged table holds under each name is
/// what `merged_lookup` says: `other` wins, and tables present on both sides are merged
/// again, name by name.
pub proof fn law_merge_overrides(base: ConfigView, other: ConfigView)
    requires
        well_formed(base),
        well_formed(other),
    ensures
        well_formed(merged(base, other)),
        base is Table && other is Table ==> merged(base, other) is Table && forall|k: Seq<char>|
            #[trigger] lookup(merged(base, other), k) == merged_lookup(
                lookup(base, k),
                lookup(other, k),
            ),
    decreases other, 0int,
{
    match other {
        ConfigView::Table(o) => match base {
            ConfigView::Table(b) => {
                assert(decreases_to!(other => other->Table_0));
                lemma_well_formed_table(b);
                lemma_well_formed_table(o);
                lemma_merge_entries(b, o, 0);
                lemma_well_formed_table(merge_entries(b, o, 0));
                assert forall|k: Seq<char>| #[trigger] lookup(merged(base, other), k)
                    == merged_lookup(lookup(base, k), lookup(other, k)) by {
                    lemma_key_index(o, k, 0);
                }
            },
            ConfigView::Leaf(_) => {},
        },
        ConfigView::Leaf(_) => {},
    }
}

/// `s` cut at every `c`: the pieces between the separators, empty ones included (what
/// `str::split` yields for a character).
pub open spec fn split_on(s: Seq<char>, c: char) -> Seq<Seq<char>>
    decreases s.len(),
{
    if s.len() == 0 {
        seq![Seq::empty()]
    } else {
        let p = split_on(s.drop_last(), c);
        if s.last() == c {
            p.push(Seq::empty())
        } else {
            p.update(p.len() - 1, p.last().push(s.last()))
        }
    }
}

proof fn lemma_split_on_len(s: Seq<char>, c: char)
    ensures
        split_on(s, c).len() >= 1,
    decreases s.len(),
{
    if s.len() > 0 {
        lemma_split_on_len(s.drop_last(), c);
    }
}

/// The pieces of `s` between the occurrences of `c`.
pub fn split_at_char(s: &str, c: char) -> (r: Vec<String>)
    ensures
        string_views(r@) == split_on(s@, c),
{
    let v = chars_of(s);
    let mut done: Vec<String> = Vec::new();
    let mut cur = String::new();
    let mut i: usize = 0;
    proof {
        assert(v@.take(0) =~= Seq::<char>::empty());
        assert(string_views(done@).push(cur@) =~= seq![Seq::<char>::empty()]);
    }
    while i < v.len()
        invariant
            i <= v.len(),
            v@ == s@,
            string_views(done@).push(cur@) == split_on(v@.take(i as int), c),
        decreases v.len() - i,
    {
        let ghost before = string_views(done@);
        let ghost before_cur = cur@;
        proof {
            assert(v@.take(i as int + 1).drop_last() =~= v@.take(i as int));
            lemma_split_on_len(v@.take(i as int), c);
        }
        if v[i] == c {
            let piece = cur;
            done.push(piece);
            cur = String::new();
            proof {
                assert(string_views(done@) =~= before.push(before_cur));
            }
        } else {
            cur.push(v[i]);
            proof {
                let p = split_on(v@.take(i as int), c);
                assert(p =~= before.push(before_cur));
                assert(string_views(done@).push(cur@) =~= p.update(
                    p.len() - 1,
                    p.last().push(v@[i as int]),
                ));
            }
        }
        i = i + 1;
    }
    proof {
        assert(v@.take(v.len() as int) =~= v@);
    }
    let ghost before = string_views(done@);
    done.push(cur);
    proof {
        assert(string_views(done@) =~= before.push(done@.last()@));
    }
    done
}

/// The value reached from `v` by following the names `parts` in turn through nested tables.
pub open spec fn navigate(v: ConfigView, parts: Seq<Seq<char>>) -> Option<ConfigView>
    decreases parts.len(),
{
    if parts.len() == 0 {
        Some(v)
    } else {
        match lookup(v, parts[0]) {
            Some(x) => navigate(x, parts.drop_first()),
            None => None,
        }
    }
}

/// A configuration document, and the file it was read from, if any.
pub struct ConfigStore {
    data: ConfigValue,
    path: Option<std::path::PathBuf>,
}

impl ConfigStore {
    /// The document.
    pub closed spec fn spec_data(&self) -> ConfigView {
        self.data@
    }

    /// The file the document was read from.
    pub closed spec fn spec_path(&self) -> Option<std::path::PathBuf> {
        self.path
    }

    /// A store holding an empty table and no file.
    pub fn empty() -> (r: Self)
        ensures
            r.spec_data() == ConfigView::Table(Seq::empty()),
            r.spec_path() is None,
    {
        let es: Vec<(String, ConfigValue)> = Vec::new();
        let r = ConfigStore { data: ConfigValue::Table(es), path: None };
        proof {
            assert(entries_view(es@) =~= Seq::<(Seq<char>, ConfigView)>::empty());
        }
        r
    }

    /// A store holding `data`, read from `path` when there is one.
    pub fn from_document(data: ConfigValue, path: Option<std::path::PathBuf>) -> (r: Self)
        ensures
            r.spec_data() == data@,
            r.spec_path() == path,
    {
        ConfigStore { data, path }
    }

    /// The document.
    pub fn data(&self) -> (r: &ConfigValue)
        ensures
            r@ == self.spec_data(),
    {
        &self.data
    }

    /// The file the document was read from, if any.
    pub fn path(&self) -> (r: Option<&std::path::PathBuf>)
        ensures
            r is Some <==> self.spec_path() is Some,
            r matches Some(p) ==> self.spec_path() == Some(*p),
    {
        match &self.path {
            Some(p) => Some(p),
            None => None,
        }
    }

    /// Replaces the document, keeping the file (what a reload does once it has read it).
    pub fn replace_data(&mut self, data: ConfigValue)
        ensures
            final(self).spec_data() == data@,
            final(self).spec_path() == old(self).spec_path(),
    {
        self.data = data;
    }

    /// The section named `prefix`, or an empty table when there is none: what a typed
    /// section is read from.
    pub fn section(&self, prefix: &str) -> (r: ConfigValue)
        ensures
            r@ == match lookup(self.spec_data(), prefix@) {
                Some(v) => v,
                None => ConfigView::Table(Seq::empty()),
            },
    {
        match self.data.get(prefix) {
            Some(v) => v.copy(),
            None => {
                let es: Vec<(String, ConfigValue)> = Vec::new();
                proof {
                    assert(entries_view(es@) =~= Seq::<(Seq<char>, ConfigView)>::empty());
                }
                ConfigValue::Table(es)
            },
        }
    }

    /// The value at a dotted path such as `database.url`: each piece between dots names an
    /// entry of the table reached so far.
    pub fn get_raw(&self, key: &str) -> (r: Option<&ConfigValue>)
        ensures
            r is Some <==> navigate(self.spec_data(), split_on(key@, '.')) is Some,
            r matches Some(v) ==> navigate(self.spec_data(), split_on(key@, '.')) == Some(v@),
    {
        let parts = split_at_char(key, '.');
        let ghost ps = split_on(key@, '.');
        let mut current: &ConfigValue = &self.data;
        let mut i: usize = 0;
        proof {
            assert(ps.skip(0) =~= ps);
        }
        while i < parts.len()
            invariant
                i <= parts.len(),
                string_views(parts@) == ps,
                ps == split_on(key@, '.'),
                navigate(self.spec_data(), ps) == navigate(current@, ps.skip(i as int)),
            decreases parts.len() - i,
        {
            proof {
                assert(ps.skip(i as int).drop_first() =~= ps.skip(i as int + 1));
                assert(ps.skip(i as int)[0] == parts@[i as int]@);
                assert(ps.skip(i as int).len() > 0);
            }
            match current.get(parts[i].as_str()) {
                Some(next) => {
                    current = next;
                },
                None => {
                    proof {
                        assert(lookup(current@, ps.skip(i as int)[0]) is None);
                        assert(navigate(current@, ps.skip(i as int)) is None);
                    }
                    return None;
                },
            }
            i = i + 1;
        }
        proof {
            assert(ps.skip(i as int) =~= Seq::<Seq<char>>::empty());
        }
        Some(current)
    }

    /// Whether the document has a section named `prefix`.
    pub fn has_section(&self, prefix: &str) -> (r: bool)
        ensures
            r == lookup(self.spec_data(), prefix@) is Some,
    {
        self.data.get(prefix).is_some()
    }

    /// Merges `other` over this document: its values override these.
    pub fn merge(&mut self, other: &ConfigStore)
        ensures
            final(self).spec_data() == merged(old(self).spec_data(), other.spec_data()),
            final(self).spec_path() == old(self).spec_path(),
    {
        let m = merge_values(&self.data, &other.data);
        self.data = m;
    }
}

impl Default for ConfigStore {
    fn default() -> (r: Self)
        ensures
            r.spec_data() == ConfigView::Table(Seq::empty()),
            r.spec_path() is None,
    {
        ConfigStore::empty()
    }
}

} // verus!
