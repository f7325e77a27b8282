//! Plugin load order: a topological sort (Kahn's algorithm) of plugins by their dependencies.
use vstd::prelude::*;

use crate::command::string_views;
use crate::engine::{debug_str, join, lemma_join_push, list_debug, push_joined, str_debug};
use crate::text::{chars_equal, chars_of, owned};

verus! {

/// A dependency of a plugin on another plugin, by name.
#[derive(Clone, Debug, PartialEq, Eq)]
pub struct PluginDependency {
    pub name: String,
    pub optional: bool,
}

impl PluginDependency {
    pub fn required(name: &str) -> (r: Self)
        ensures
            r.name@ == name@,
            !r.optional,
    {
        PluginDependency { name: owned(name), optional: false }
    }

    pub fn optional(name: &str) -> (r: Self)
        ensures
            r.name@ == name@,
            r.optional,
    {
        PluginDependency { name: owned(name), optional: true }
    }
}

/// A plugin as the load-order computation sees it: its name and its dependencies.
#[derive(Clone, Debug, PartialEq, Eq)]
pub struct PluginNode {
    pub name: String,
    pub dependencies: Vec<PluginDependency>,
}

/// Why no load order exists.
#[derive(Clone, Debug, PartialEq, Eq)]
pub enum DependencyError {
    /// `plugin` requires `dependency`, which is not registered.
    MissingRequired { plugin: String, dependency: String },
    /// The named plugins could not be ordered (a dependency cycle, or a name used twice).
    Circular { remaining: Vec<String> },
}

/// The text of a load-order error, as the application reports it.
pub open spec fn dependency_error_text(e: DependencyError) -> Seq<char> {
    match e {
        DependencyError::MissingRequired { plugin, dependency } => "Plugin '"@ + plugin@
            + "' requires '"@ + dependency@ + "' which is not registered"@,
        DependencyError::Circular { remaining } => "Circular dependency detected among plugins: "@
            + list_debug(string_views(remaining@).map_values(|s: Seq<char>| str_debug(s))),
    }
}

impl DependencyError {
    /// The error's text: the missing dependency of a plugin, or the plugins left unordered
    /// (their names in debug form, as a list).
    pub fn message(&self) -> (r: String)
        ensures
            r@ == dependency_error_text(*self),
    {
        match self {
            DependencyError::MissingRequired { plugin, dependency } => {
                let mut m = String::new();
                m.push_str("Plugin '");
                m.push_str(plugin.as_str());
                m.push_str("' requires '");
                m.push_str(dependency.as_str());
                m.push_str("' which is not registered");
                assert(m@ =~= "Plugin '"@ + plugin@ + "' requires '"@ + dependency@
                    + "' which is not registered"@);
                m
            },
            DependencyError::Circular { remaining } => {
                let ghost items = string_views(remaining@).map_values(|s: Seq<char>| str_debug(s));
                let mut body = String::new();
                let mut i: usize = 0;
                while i < remaining.len()
                    invariant
                        i <= remaining@.len(),
                        items == string_views(remaining@).map_values(|s: Seq<char>| str_debug(s)),
                        body@ == join(items.take(i as int), ", "@),
                    decreases remaining.len() - i,
                {
                    let item = debug_str(remaining[i].as_str());
                    proof {
                        assert(items[i as int] == item@);
                        assert(items.take(i as int + 1) =~= items.take(i as int).push(items[i as int]));
                        lemma_join_push(items.take(i as int), ", "@, items[i as int]);
                    }
                    push_joined(&mut body, i, ", ", item.as_str());
                    i = i + 1;
                }
                proof {
                    assert(items.take(remaining@.len() as int) =~= items);
                }
                let mut m = String::new();
                m.push_str("Circular dependency detected among plugins: ");
                m.push_str("[");
                m.push_str(body.as_str());
                m.push_str("]");
                assert(m@ =~= "Circular dependency detected among plugins: "@ + list_debug(items));
                m
            },
        }
    }
}

/// Some plugin is called `nm`.
pub open spec fn registered(nodes: Seq<PluginNode>, nm: Seq<char>) -> bool {
    exists|j: int| 0 <= j < nodes.len() && nodes[j].name@ == nm
}

/// No two plugins share a name.
pub open spec fn distinct_names(nodes: Seq<PluginNode>) -> bool {
    forall|a: int, b: int|
        0 <= a < nodes.len() && 0 <= b < nodes.len() && a != b ==> #[trigger] nodes[a].name@
            != #[trigger] nodes[b].name@
}

/// `(i, j)`: plugin `i`'s dependency `j` is required and not registered.
pub open spec fn missing_at(nodes: Seq<PluginNode>, i: int, j: int) -> bool {
    0 <= i < nodes.len() && 0 <= j < nodes[i].dependencies@.len()
        && !nodes[i].dependencies@[j].optional && !registered(
        nodes,
        nodes[i].dependencies@[j].name@,
    )
}

/// `(i, j)` comes before `(i2, j2)` when plugins, then their dependencies, are walked in order.
pub open spec fn before(i: int, j: int, i2: int, j2: int) -> bool {
    i < i2 || (i == i2 && j < j2)
}

/// `order` lists every plugin once, each after every registered plugin it depends on.
pub open spec fn valid_order(nodes: Seq<PluginNode>, order: Seq<usize>) -> bool {
    &&& order.len() == nodes.len()
    &&& forall|p: int| 0 <= p < order.len() ==> #[trigger] order[p] < nodes.len()
    &&& forall|p: int, q: int| 0 <= p < order.len() && 0 <= q < order.len() && p != q ==> #[trigger] order[p] != #[trigger] order[q]
    &&& forall|p: int, j: int|
        0 <= p < order.len() && 0 <= j < nodes[order[p] as int].dependencies@.len() && registered(
            nodes,
            #[trigger] nodes[order[p] as int].dependencies@[j].name@,
        ) ==> exists|q: int|
            #![trigger order[q]]
            0 <= q < p && nodes[order[q] as int].name@ == nodes[order[p] as int].dependencies@[j].name@
}

/// Index of the first plugin at or after `j` called `nm` (the length when there is none).
pub open spec fn first_from(nodes: Seq<PluginNode>, nm: Seq<char>, j: int) -> int
    decreases nodes.len() - j,
{
    if j < 0 || j >= nodes.len() {
        nodes.len() as int
    } else if nodes[j].name@ == nm {
        j
    } else {
        first_from(nodes, nm, j + 1)
    }
}

/// The plugin that stands for all plugins called `nm`: the first of them.
pub open spec fn rep_of(nodes: Seq<PluginNode>, nm: Seq<char>) -> int {
    first_from(nodes, nm, 0)
}

proof fn lemma_first_from(nodes: Seq<PluginNode>, nm: Seq<char>, j: int)
    requires
        0 <= j <= nodes.len(),
    ensures
        j <= first_from(nodes, nm, j) <= nodes.len(),
        first_from(nodes, nm, j) < nodes.len() ==> nodes[first_from(nodes, nm, j)].name@ == nm,
        forall|k: int| j <= k < first_from(nodes, nm, j) ==> #[trigger] nodes[k].name@ != nm,
    decreases nodes.len() - j,
{
    if j < nodes.len() && nodes[j].name@ != nm {
        lemma_first_from(nodes, nm, j + 1);
    }
}

/// The first plugin called `nm` is the least index with that name, and exists when registered.
proof fn lemma_rep_of(nodes: Seq<PluginNode>, nm: Seq<char>)
    ensures
        0 <= rep_of(nodes, nm) <= nodes.len(),
        registered(nodes, nm) <==> rep_of(nodes, nm) < nodes.len(),
        rep_of(nodes, nm) < nodes.len() ==> nodes[rep_of(nodes, nm)].name@ == nm,
        forall|k: int| 0 <= k < rep_of(nodes, nm) ==> #[trigger] nodes[k].name@ != nm,
{
    lemma_first_from(nodes, nm, 0);
}

/// Where two plugins share a name, fewer plugins than there are stand for their names, so no
/// list of distinct representatives covers them all.
proof fn lemma_reps_fewer(nodes: Seq<PluginNode>, q: Seq<usize>)
    requires
        !distinct_names(nodes),
        q.no_duplicates(),
        forall|k: int| 0 <= k < q.len() ==> is_rep(nodes, #[trigger] q[k] as int),
    ensures
        q.len() < nodes.len(),
{
    let (a, b) = choose|a: int, b: int|
        0 <= a < nodes.len() && 0 <= b < nodes.len() && a != b && #[trigger] nodes[a].name@
            == #[trigger] nodes[b].name@;
    let hi = if a < b { b } else { a };
    let lo = if a < b { a } else { b };
    let nm = nodes[hi].name@;
    lemma_rep_of(nodes, nm);
    assert(nodes[lo].name@ == nm);
    assert(rep_of(nodes, nm) <= lo);
    assert(!is_rep(nodes, hi));
    let n = nodes.len() as int;
    let all = Seq::new((n - 1) as nat, |k: int| (if k < hi { k } else { k + 1 }) as usize);
    assert forall|k: int| 0 <= k < q.len() implies all.contains(#[trigger] q[k]) by {
        let v = q[k] as int;
        assert(is_rep(nodes, v));
        assert(v != hi);
        let idx = if v < hi { v } else { v - 1 };
        assert(all[idx] == q[k]);
    }
    lemma_distinct_subset_len(q, all);
}

/// Under distinct names, each plugin stands for itself.
proof fn lemma_rep_distinct(nodes: Seq<PluginNode>, i: int)
    requires
        distinct_names(nodes),
        0 <= i < nodes.len(),
    ensures
        rep_of(nodes, nodes[i].name@) == i,
{
    lemma_rep_of(nodes, nodes[i].name@);
    let r = rep_of(nodes, nodes[i].name@);
    if r != i {
        assert(nodes[r].name@ != nodes[i].name@);
    }
}

/// The edges `(dependency, dependent)` that Kahn's algorithm works on: each registered dependency
/// of plugin `i` joins the first plugin with its name to the first plugin with `i`'s name.
pub open spec fn is_edge_for(nodes: Seq<PluginNode>, e: (usize, usize), i: int, j: int) -> bool {
    &&& 0 <= i < nodes.len()
    &&& 0 <= j < nodes[i].dependencies@.len()
    &&& registered(nodes, nodes[i].dependencies@[j].name@)
    &&& e.0 == rep_of(nodes, nodes[i].dependencies@[j].name@)
    &&& e.1 == rep_of(nodes, nodes[i].name@)
}

/// Edge `e` comes from some registered dependency.
pub open spec fn edge_justified(nodes: Seq<PluginNode>, e: (usize, usize)) -> bool {
    exists|i: int, j: int| is_edge_for(nodes, e, i, j)
}

pub open spec fn edges_ok(nodes: Seq<PluginNode>, edges: Seq<(usize, usize)>) -> bool {
    &&& forall|k: int| 0 <= k < edges.len() ==> #[trigger] edge_justified(nodes, edges[k])
    &&& forall|i: int, j: int|
        0 <= i < nodes.len() && 0 <= j < nodes[i].dependencies@.len() && registered(nodes, nodes[i].dependencies@[j].name@)
            ==> exists|k: int| 0 <= k < edges.len() && #[trigger] is_edge_for(nodes, edges[k], i, j)
}

/// Edges among the first `m` that enter `w` from a plugin not yet emitted.
pub open spec fn cnt(edges: Seq<(usize, usize)>, w: usize, popped: Seq<bool>, m: int) -> int
    decreases m,
{
    if m <= 0 {
        0
    } else {
        cnt(edges, w, popped, m - 1) + if edges[m - 1].1 == w && !popped[edges[m - 1].0 as int] {
            1int
        } else {
            0int
        }
    }
}

proof fn lemma_cnt_bounds(edges: Seq<(usize, usize)>, w: usize, popped: Seq<bool>, m: int, m2: int)
    requires
        0 <= m <= m2 <= edges.len(),
    ensures
        0 <= cnt(edges, w, popped, m) <= cnt(edges, w, popped, m2) <= m2,
        cnt(edges, w, popped, m2) - cnt(edges, w, popped, m) <= m2 - m,
    decreases m2,
{
    if m2 > m {
        lemma_cnt_bounds(edges, w, popped, m, m2 - 1);
    } else if m > 0 {
        lemma_cnt_bounds(edges, w, popped, m - 1, m - 1);
    }
}

/// A count of zero means every counted edge into `w` starts at an emitted plugin.
proof fn lemma_cnt_zero(edges: Seq<(usize, usize)>, w: usize, popped: Seq<bool>, m: int, k: int)
    requires
        0 <= k < m <= edges.len(),
        cnt(edges, w, popped, m) == 0,
        edges[k].1 == w,
        forall|q: int| 0 <= q < edges.len() ==> (edges[q].0 as int) < popped.len(),
    ensures
        popped[edges[k].0 as int],
    decreases m,
{
    lemma_cnt_bounds(edges, w, popped, m - 1, m - 1);
    if k < m - 1 {
        lemma_cnt_zero(edges, w, popped, m - 1, k);
    }
}

/// A positive count has a witness edge from a plugin not yet emitted.
proof fn lemma_cnt_pos(edges: Seq<(usize, usize)>, w: usize, popped: Seq<bool>, m: int) -> (k: int)
    requires
        0 <= m <= edges.len(),
        cnt(edges, w, popped, m) > 0,
    ensures
        0 <= k < m,
        edges[k].1 == w,
        !popped[edges[k].0 as int],
    decreases m,
{
    if edges[m - 1].1 == w && !popped[edges[m - 1].0 as int] {
        m - 1
    } else {
        lemma_cnt_pos(edges, w, popped, m - 1)
    }
}

/// Counting with more plugins emitted counts no more over any range.
proof fn lemma_cnt_mono(
    edges: Seq<(usize, usize)>,
    w: usize,
    p1: Seq<bool>,
    p2: Seq<bool>,
    m: int,
    m2: int,
)
    requires
        0 <= m <= m2 <= edges.len(),
        p1.len() == p2.len(),
        forall|x: int| 0 <= x < p1.len() && p1[x] ==> p2[x],
        forall|q: int| 0 <= q < edges.len() ==> (edges[q].0 as int) < p1.len(),
    ensures
        cnt(edges, w, p2, m2) - cnt(edges, w, p2, m) <= cnt(edges, w, p1, m2) - cnt(edges, w, p1, m),
    decreases m2,
{
    if m2 > m {
        lemma_cnt_mono(edges, w, p1, p2, m, m2 - 1);
    }
}

} // verus!

verus! {

/// A sequence without repeats whose values are below `n` has at most `n` elements.
proof fn lemma_distinct_bounded(s: Seq<usize>, n: int)
    requires
        s.no_duplicates(),
        forall|k: int| 0 <= k < s.len() ==> (s[k] as int) < n,
        0 <= n,
    ensures
        s.len() <= n,
{
    let t = s.map_values(|x: usize| x as int);
    assert(t.no_duplicates()) by {
        assert forall|a: int, b: int| 0 <= a < t.len() && 0 <= b < t.len() && a != b implies t[a]
            != t[b] by {
            assert(s[a] != s[b]);
        }
    }
    t.unique_seq_to_set();
    vstd::set_lib::lemma_int_range(0, n);
    assert(t.to_set().subset_of(vstd::set_lib::set_int_range(0, n))) by {
        assert forall|x: int| t.to_set().contains(x) implies vstd::set_lib::set_int_range(
            0,
            n,
        ).contains(x) by {
            let k = choose|k: int| 0 <= k < t.len() && t[k] == x;
            assert(s[k] < n);
        }
    }
    vstd::set_lib::lemma_len_subset(t.to_set(), vstd::set_lib::set_int_range(0, n));
}

/// A sequence without repeats whose elements all occur in `b` is no longer than `b`.
proof fn lemma_distinct_subset_len(a: Seq<usize>, b: Seq<usize>)
    requires
        a.no_duplicates(),
        forall|k: int| 0 <= k < a.len() ==> b.contains(#[trigger] a[k]),
    ensures
        a.len() <= b.len(),
{
    a.unique_seq_to_set();
    b.lemma_cardinality_of_set();
    assert(a.to_set().subset_of(b.to_set())) by {
        assert forall|x: usize| a.to_set().contains(x) implies b.to_set().contains(x) by {
            let k = choose|k: int| 0 <= k < a.len() && a[k] == x;
            assert(b.contains(a[k]));
        }
    }
    vstd::set_lib::lemma_len_subset(a.to_set(), b.to_set());
}

proof fn lemma_cnt_prefix(e1: Seq<(usize, usize)>, e2: Seq<(usize, usize)>, w: usize, popped: Seq<bool>, m: int)
    requires
        0 <= m <= e1.len(),
        m <= e2.len(),
        forall|k: int| 0 <= k < m ==> e1[k] == e2[k],
    ensures
        cnt(e1, w, popped, m) == cnt(e2, w, popped, m),
    decreases m,
{
    if m > 0 {
        lemma_cnt_prefix(e1, e2, w, popped, m - 1);
    }
}

/// The character sequences of the plugins' names, in order.
pub open spec fn names_match(nodes: Seq<PluginNode>, names: Seq<Vec<char>>) -> bool {
    names.len() == nodes.len() && forall|i: int| 0 <= i < nodes.len() ==> #[trigger] names[i]@ == nodes[i].name@
}

/// Index of the first plugin called `nm` (the number of plugins when there is none).
fn rep_index(plugins: &Vec<PluginNode>, names: &Vec<Vec<char>>, nm: &Vec<char>) -> (r: usize)
    requires
        names_match(plugins@, names@),
    ensures
        r as int == rep_of(plugins@, nm@),
        r <= plugins@.len(),
{
    proof {
        lemma_rep_of(plugins@, nm@);
    }
    let mut j: usize = 0;
    while j < names.len()
        invariant
            j <= names@.len(),
            names_match(plugins@, names@),
            first_from(plugins@, nm@, j as int) == rep_of(plugins@, nm@),
        decreases names.len() - j,
    {
        if chars_equal(&names[j], nm) {
            return j;
        }
        j = j + 1;
    }
    j
}

/// The first required dependency, walking plugins and then their dependencies in order, that is
/// not registered.
fn find_missing(plugins: &Vec<PluginNode>, names: &Vec<Vec<char>>) -> (r: Option<(usize, usize)>)
    requires
        names_match(plugins@, names@),
    ensures
        r matches Some((i, j)) ==> missing_at(plugins@, i as int, j as int) && forall|i2: int, j2: int|
            #[trigger] before(i2, j2, i as int, j as int) ==> !missing_at(plugins@, i2, j2),
        r is None ==> forall|i2: int, j2: int| !missing_at(plugins@, i2, j2),
{
    let n = plugins.len();
    let mut i: usize = 0;
    while i < n
        invariant
            n == plugins@.len(),
            i <= n,
            names_match(plugins@, names@),
            forall|i2: int, j2: int| 0 <= i2 < i ==> !missing_at(plugins@, i2, j2),
        decreases n - i,
    {
        let deps = &plugins[i].dependencies;
        let mut j: usize = 0;
        while j < deps.len()
            invariant
                n == plugins@.len(),
                i < n,
                j <= deps@.len(),
                *deps == plugins@[i as int].dependencies,
                names_match(plugins@, names@),
                forall|i2: int, j2: int| 0 <= i2 < i ==> !missing_at(plugins@, i2, j2),
                forall|j2: int| 0 <= j2 < j ==> !missing_at(plugins@, i as int, j2),
            decreases deps.len() - j,
        {
            let dep = &deps[j];
            if !dep.optional {
                let dn = chars_of(dep.name.as_str());
                let d = rep_index(plugins, names, &dn);
                proof {
                    lemma_rep_of(plugins@, dn@);
                }
                if d == n {
                    proof {
                        assert forall|i2: int, j2: int| #[trigger] before(i2, j2, i as int, j as int) implies !missing_at(
                            plugins@,
                            i2,
                            j2,
                        ) by {
                            if i2 == i {
                                assert(j2 < j);
                            }
                        }
                    }
                    return Some((i, j));
                }
            }
            proof {
                lemma_rep_of(plugins@, plugins@[i as int].dependencies@[j as int].name@);
            }
            j = j + 1;
        }
        proof {
            assert forall|i2: int, j2: int| 0 <= i2 < i + 1 implies !missing_at(plugins@, i2, j2) by {
                if i2 == i && 0 <= j2 < deps@.len() {
                    assert(!missing_at(plugins@, i as int, j2));
                }
            }
        }
        i = i + 1;
    }
    None
}

} // verus!

verus! {

pub open spec fn no_pops(n: int) -> Seq<bool> {
    Seq::new(n as nat, |x: int| false)
}

pub open spec fn endpoints_ok(edges: Seq<(usize, usize)>, n: int) -> bool {
    forall|k: int| 0 <= k < edges.len() ==> (#[trigger] edges[k]).0 < n && edges[k].1 < n
}

/// Plugin `v` is the first plugin with its name.
pub open spec fn is_rep(nodes: Seq<PluginNode>, v: int) -> bool {
    0 <= v < nodes.len() && rep_of(nodes, nodes[v].name@) == v
}

/// The dependency edges and, for each plugin, the number of edges entering it.
fn build_edges(plugins: &Vec<PluginNode>, names: &Vec<Vec<char>>) -> (r: (Vec<(usize, usize)>, Vec<usize>))
    requires
        names_match(plugins@, names@),
    ensures
        edges_ok(plugins@, r.0@),
        endpoints_ok(r.0@, plugins@.len() as int),
        r.1@.len() == plugins@.len(),
        forall|v: int| 0 <= v < plugins@.len() ==> #[trigger] r.1@[v] == cnt(r.0@, v as usize, no_pops(plugins@.len() as int), r.0@.len() as int),
{
    let n = plugins.len();
    let ghost nodes = plugins@;
    let ghost pf = no_pops(n as int);
    let mut edges: Vec<(usize, usize)> = Vec::new();
    let mut indeg: Vec<usize> = Vec::new();
    let mut z: usize = 0;
    while z < n
        invariant
            z <= n,
            indeg@.len() == z,
            forall|v: int| 0 <= v < z ==> indeg@[v] == 0,
        decreases n - z,
    {
        indeg.push(0);
        z = z + 1;
    }
    let mut i: usize = 0;
    while i < n
        invariant
            n == nodes.len(),
            nodes == plugins@,
            pf == no_pops(n as int),
            i <= n,
            names_match(plugins@, names@),
            indeg@.len() == n,
            endpoints_ok(edges@, n as int),
            forall|v: int| 0 <= v < n ==> #[trigger] indeg@[v] == cnt(edges@, v as usize, pf, edges@.len() as int),
            forall|k: int| 0 <= k < edges@.len() ==> #[trigger] edge_justified(nodes, edges@[k]),
            forall|i2: int, j2: int|
                0 <= i2 < i && 0 <= j2 < nodes[i2].dependencies@.len() && registered(nodes, nodes[i2].dependencies@[j2].name@)
                    ==> exists|k: int| 0 <= k < edges@.len() && #[trigger] is_edge_for(nodes, edges@[k], i2, j2),
        decreases n - i,
    {
        let ri = rep_index(plugins, names, &names[i]);
        proof {
            lemma_rep_of(nodes, nodes[i as int].name@);
        }
        let deps = &plugins[i].dependencies;
        let mut j: usize = 0;
        while j < deps.len()
            invariant
                n == nodes.len(),
                nodes == plugins@,
                pf == no_pops(n as int),
                i < n,
                j <= deps@.len(),
                *deps == nodes[i as int].dependencies,
                ri as int == rep_of(nodes, nodes[i as int].name@),
                ri < n,
                names_match(plugins@, names@),
                indeg@.len() == n,
                endpoints_ok(edges@, n as int),
                forall|v: int| 0 <= v < n ==> #[trigger] indeg@[v] == cnt(edges@, v as usize, pf, edges@.len() as int),
                forall|k: int| 0 <= k < edges@.len() ==> #[trigger] edge_justified(nodes, edges@[k]),
                forall|i2: int, j2: int|
                    0 <= i2 < i && 0 <= j2 < nodes[i2].dependencies@.len() && registered(nodes, nodes[i2].dependencies@[j2].name@)
                        ==> exists|k: int| 0 <= k < edges@.len() && #[trigger] is_edge_for(nodes, edges@[k], i2, j2),
                forall|j2: int|
                    0 <= j2 < j && registered(nodes, nodes[i as int].dependencies@[j2].name@)
                        ==> exists|k: int| 0 <= k < edges@.len() && #[trigger] is_edge_for(nodes, edges@[k], i as int, j2),
            decreases deps.len() - j,
        {
            let dn = chars_of(deps[j].name.as_str());
            let d = rep_index(plugins, names, &dn);
            proof {
                lemma_rep_of(nodes, dn@);
            }
            if d < n {
                let ghost old_edges = edges@;
                let ghost old_indeg = indeg@;
                edges.push((d, ri));
                proof {
                    assert(is_edge_for(nodes, edges@[old_edges.len() as int], i as int, j as int));
                    assert forall|v: int| 0 <= v < n implies cnt(edges@, v as usize, pf, edges@.len() as int)
                        == old_indeg[v] + if v == ri { 1int } else { 0int } by {
                        lemma_cnt_prefix(edges@, old_edges, v as usize, pf, old_edges.len() as int);
                    }
                    lemma_cnt_bounds(edges@, ri, pf, 0, edges@.len() as int);
                    assert(cnt(edges@, ri, pf, edges@.len() as int) == old_indeg[ri as int] + 1);
                }
                let el = edges.len();
                let cur = indeg[ri];
                assert(cur + 1 <= el);
                indeg.set(ri, cur + 1);
                proof {
                    assert forall|k: int| 0 <= k < edges@.len() implies #[trigger] edge_justified(nodes, edges@[k]) by {
                        if k < old_edges.len() {
                            assert(edges@[k] == old_edges[k]);
                            assert(edge_justified(nodes, old_edges[k]));
                        } else {
                            assert(is_edge_for(nodes, edges@[k], i as int, j as int));
                        }
                    }
                    assert forall|i2: int, j2: int|
                        0 <= i2 < i && 0 <= j2 < nodes[i2].dependencies@.len() && registered(nodes, nodes[i2].dependencies@[j2].name@)
                            implies exists|k: int| 0 <= k < edges@.len() && #[trigger] is_edge_for(nodes, edges@[k], i2, j2) by {
                        let k = choose|k: int| 0 <= k < old_edges.len() && #[trigger] is_edge_for(nodes, old_edges[k], i2, j2);
                        assert(edges@[k] == old_edges[k]);
                    }
                    assert forall|j2: int|
                        0 <= j2 < j + 1 && registered(nodes, nodes[i as int].dependencies@[j2].name@)
                            implies exists|k: int| 0 <= k < edges@.len() && #[trigger] is_edge_for(nodes, edges@[k], i as int, j2) by {
                        if j2 < j {
                            let k = choose|k: int| 0 <= k < old_edges.len() && #[trigger] is_edge_for(nodes, old_edges[k], i as int, j2);
                            assert(edges@[k] == old_edges[k]);
                        } else {
                            assert(is_edge_for(nodes, edges@[old_edges.len() as int], i as int, j as int));
                        }
                    }
                }
            } else {
                proof {
                    assert(!registered(nodes, nodes[i as int].dependencies@[j as int].name@));
                }
            }
            j = j + 1;
        }
        i = i + 1;
    }
    (edges, indeg)
}

} // verus!

verus! {

/// The state of Kahn's algorithm: `queue[..head]` has been emitted, `queue[head..]` waits.
pub open spec fn kahn_inv(
    nodes: Seq<PluginNode>,
    edges: Seq<(usize, usize)>,
    queue: Seq<usize>,
    head: int,
    popped: Seq<bool>,
    indeg: Seq<usize>,
) -> bool {
    let n = nodes.len() as int;
    &&& 0 <= head <= queue.len()
    &&& queue.no_duplicates()
    &&& forall|p: int| 0 <= p < queue.len() ==> is_rep(nodes, #[trigger] queue[p] as int)
    &&& popped.len() == n
    &&& indeg.len() == n
    &&& forall|v: int| 0 <= v < n ==> (#[trigger] popped[v] <==> exists|p: int| 0 <= p < head && queue[p] == v)
    &&& forall|v: int| 0 <= v < n ==> #[trigger] indeg[v] == cnt(edges, v as usize, popped, edges.len() as int)
    &&& forall|p: int| 0 <= p < queue.len() ==> indeg[#[trigger] queue[p] as int] == 0
    &&& forall|v: int| is_rep(nodes, v) && indeg[v] == 0 ==> #[trigger] queue.contains(v as usize)
    &&& forall|p: int, k: int|
        0 <= p < queue.len() && 0 <= k < edges.len() && #[trigger] edges[k].1 == #[trigger] queue[p] ==> exists|q: int|
            0 <= q < p && queue[q] == edges[k].0
}

/// When Kahn's algorithm stops early and names are distinct, no valid order exists: every
/// plugin of a valid order would have been emitted.
proof fn lemma_order_in_queue(
    nodes: Seq<PluginNode>,
    edges: Seq<(usize, usize)>,
    queue: Seq<usize>,
    popped: Seq<bool>,
    indeg: Seq<usize>,
    order: Seq<usize>,
    p: int,
)
    requires
        kahn_inv(nodes, edges, queue, queue.len() as int, popped, indeg),
        edges_ok(nodes, edges),
        endpoints_ok(edges, nodes.len() as int),
        distinct_names(nodes),
        valid_order(nodes, order),
        0 <= p < order.len(),
    ensures
        forall|q: int| 0 <= q <= p ==> queue.contains(#[trigger] order[q]),
    decreases p,
{
    if p > 0 {
        lemma_order_in_queue(nodes, edges, queue, popped, indeg, order, p - 1);
    }
    let v = order[p];
    lemma_rep_distinct(nodes, v as int);
    if !queue.contains(v) {
        assert(indeg[v as int] != 0);
        let k = lemma_cnt_pos(edges, v, popped, edges.len() as int);
        let x = edges[k].0;
        assert(edge_justified(nodes, edges[k]));
        let (i, j) = choose|i: int, j: int| is_edge_for(nodes, edges[k], i, j);
        lemma_rep_distinct(nodes, i);
        assert(i == v);
        let dn = nodes[i].dependencies@[j].name@;
        assert(registered(nodes, nodes[order[p] as int].dependencies@[j].name@));
        let q = choose|q: int| #![trigger order[q]] 0 <= q < p && nodes[order[q] as int].name@ == dn;
        lemma_rep_distinct(nodes, order[q] as int);
        assert(x == order[q]);
        assert(queue.contains(order[q]));
        let pos = choose|pos: int| 0 <= pos < queue.len() && queue[pos] == x;
        assert(popped[x as int]);
    }
}

/// Orders the plugins so that each comes after the registered plugins it depends on (Kahn's
/// algorithm: plugins without pending dependencies first, in registration order, then each plugin
/// as soon as its last dependency is emitted). Fails on a required dependency that is not
/// registered (the first one, in plugin then dependency order), and when no order exists or two
/// plugins share a name.
pub fn sort_by_dependencies(plugins: &Vec<PluginNode>) -> (r: Result<Vec<usize>, DependencyError>)
    ensures
        r matches Err(DependencyError::MissingRequired { plugin, dependency }) ==> exists|i: int, j: int|
            #[trigger] missing_at(plugins@, i, j) && plugin@ == plugins@[i].name@ && dependency@
                == plugins@[i].dependencies@[j].name@ && forall|i2: int, j2: int|
                #[trigger] before(i2, j2, i, j) ==> !missing_at(plugins@, i2, j2),
        (exists|i: int, j: int| missing_at(plugins@, i, j)) <==> r matches Err(
            DependencyError::MissingRequired { .. },
        ),
        r matches Ok(order) ==> valid_order(plugins@, order@),
        !distinct_names(plugins@) ==> r is Err,
        r matches Err(DependencyError::Circular { .. }) ==> !(distinct_names(plugins@) && exists|o: Seq<usize>| valid_order(plugins@, o)),
{
    let n = plugins.len();
    let ghost nodes = plugins@;
    let mut names: Vec<Vec<char>> = Vec::new();
    let mut t: usize = 0;
    while t < n
        invariant
            n == nodes.len(),
            nodes == plugins@,
            t <= n,
            names@.len() == t,
            forall|i: int| 0 <= i < t ==> #[trigger] names@[i]@ == nodes[i].name@,
        decreases n - t,
    {
        names.push(chars_of(plugins[t].name.as_str()));
        t = t + 1;
    }
    match find_missing(plugins, &names) {
        Some((i, j)) => {
            return Err(
                DependencyError::MissingRequired {
                    plugin: plugins[i].name.clone(),
                    dependency: plugins[i].dependencies[j].name.clone(),
                },
            );
        },
        None => {},
    }
    let (edges, mut indeg) = build_edges(plugins, &names);
    let ghost pf = no_pops(n as int);
    let mut popped: Vec<bool> = Vec::new();
    t = 0;
    while t < n
        invariant
            t <= n,
            popped@.len() == t,
            forall|v: int| 0 <= v < t ==> popped@[v] == false,
        decreases n - t,
    {
        popped.push(false);
        t = t + 1;
    }
    assert(popped@ =~= pf);
    let mut queue: Vec<usize> = Vec::new();
    let mut v: usize = 0;
    while v < n
        invariant
            n == nodes.len(),
            nodes == plugins@,
            v <= n,
            names_match(plugins@, names@),
            popped@ == pf,
            pf == no_pops(n as int),
            indeg@.len() == n,
            endpoints_ok(edges@, n as int),
            forall|w: int| 0 <= w < n ==> #[trigger] indeg@[w] == cnt(edges@, w as usize, pf, edges@.len() as int),
            queue@.no_duplicates(),
            forall|p: int| 0 <= p < queue@.len() ==> is_rep(nodes, #[trigger] queue@[p] as int) && queue@[p] < v,
            forall|p: int| 0 <= p < queue@.len() ==> indeg@[#[trigger] queue@[p] as int] == 0,
            forall|w: int| 0 <= w < v && is_rep(nodes, w) && indeg@[w] == 0 ==> #[trigger] queue@.contains(w as usize),
            forall|p: int, k: int|
                0 <= p < queue@.len() && 0 <= k < edges@.len() ==> #[trigger] edges@[k].1 != #[trigger] queue@[p],
        decreases n - v,
    {
        let rv = rep_index(plugins, &names, &names[v]);
        if rv == v && indeg[v] == 0 {
            proof {
                assert forall|k: int| 0 <= k < edges@.len() implies #[trigger] edges@[k].1 != v by {
                    if edges@[k].1 == v {
                        lemma_cnt_bounds(edges@, v, pf, k + 1, edges@.len() as int);
                        lemma_cnt_bounds(edges@, v, pf, k, k);
                    }
                }
            }
            let ghost qb = queue@;
            queue.push(v);
            proof {
                assert forall|w: int| 0 <= w < v + 1 && is_rep(nodes, w) && indeg@[w] == 0 implies #[trigger] queue@.contains(w as usize) by {
                    if w == v {
                        assert(queue@[qb.len() as int] == v);
                    } else {
                        assert(qb.contains(w as usize));
                        let p = choose|p: int| 0 <= p < qb.len() && qb[p] == w;
                        assert(queue@[p] == qb[p]);
                    }
                }
            }
        }
        v = v + 1;
    }
    let mut head: usize = 0;
    proof {
        assert forall|w: int| 0 <= w < n implies (#[trigger] popped@[w] <==> exists|p: int| 0 <= p < 0 && queue@[p] == w) by {}
    }
    while head < queue.len()
        invariant
            n == nodes.len(),
            nodes == plugins@,
            edges_ok(nodes, edges@),
            endpoints_ok(edges@, n as int),
            kahn_inv(nodes, edges@, queue@, head as int, popped@, indeg@),
        decreases n - head,
    {
        proof {
            lemma_distinct_bounded(queue@, n as int);
        }
        let u = queue[head];
        let ghost pold = popped@;
        let ghost qold = queue@;
        proof {
            if pold[u as int] {
                let p = choose|p: int| 0 <= p < head && queue@[p] == u;
                assert(queue@[p] == queue@[head as int]);
            }
        }
        popped.set(u, true);
        head = head + 1;
        let ghost pnew = popped@;
        let mut m: usize = 0;
        while m < edges.len()
            invariant
                n == nodes.len(),
                nodes == plugins@,
                edges_ok(nodes, edges@),
                endpoints_ok(edges@, n as int),
                m <= edges@.len(),
                0 < head <= qold.len(),
                u == qold[head - 1],
                !pold[u as int],
                pold.len() == n,
                pnew == pold.update(u as int, true),
                popped@ == pnew,
                indeg@.len() == n,
                queue@.len() >= qold.len(),
                queue@.take(qold.len() as int) == qold,
                queue@.no_duplicates(),
                forall|p: int| 0 <= p < queue@.len() ==> is_rep(nodes, #[trigger] queue@[p] as int),
                forall|w: int| 0 <= w < n ==> (#[trigger] pnew[w] <==> exists|p: int| 0 <= p < head && queue@[p] == w),
                forall|w: int| 0 <= w < n ==> #[trigger] indeg@[w] == cnt(edges@, w as usize, pnew, m as int)
                    + cnt(edges@, w as usize, pold, edges@.len() as int) - cnt(edges@, w as usize, pold, m as int),
                forall|p: int| 0 <= p < queue@.len() ==> indeg@[#[trigger] queue@[p] as int] == 0,
                forall|w: int| is_rep(nodes, w) && indeg@[w] == 0 ==> #[trigger] queue@.contains(w as usize),
                forall|p: int, k: int|
                    0 <= p < queue@.len() && 0 <= k < edges@.len() && #[trigger] edges@[k].1 == #[trigger] queue@[p] ==> exists|q: int|
                        0 <= q < p && queue@[q] == edges@[k].0,
            decreases edges.len() - m,
        {
            let (a, w) = edges[m];
            proof {
                assert forall|x: int| 0 <= x < n implies #[trigger] cnt(edges@, x as usize, pnew, m + 1) - cnt(edges@, x as usize, pnew, m as int)
                    == if a == u { 0int } else { cnt(edges@, x as usize, pold, m + 1) - cnt(edges@, x as usize, pold, m as int) } by {
                }
            }
            if a == u {
                proof {
                    lemma_cnt_bounds(edges@, w, pold, m as int + 1, edges@.len() as int);
                    lemma_cnt_bounds(edges@, w, pnew, 0, m as int);
                }
                let cur = indeg[w];
                let ghost qbefore = queue@;
                proof {
                    if queue@.contains(w) {
                        let p = choose|p: int| 0 <= p < queue@.len() && queue@[p] == w;
                        assert(indeg@[queue@[p] as int] == 0);
                    }
                }
                indeg.set(w, cur - 1);
                if cur - 1 == 0 {
                    proof {
                        lemma_cnt_bounds(edges@, w, pnew, m as int + 1, edges@.len() as int);
                        lemma_cnt_mono(edges@, w, pold, pnew, m as int + 1, edges@.len() as int);
                        assert(cnt(edges@, w, pnew, edges@.len() as int) == 0);
                        assert(edge_justified(nodes, edges@[m as int]));
                        let (i0, j0) = choose|i0: int, j0: int| is_edge_for(nodes, edges@[m as int], i0, j0);
                        lemma_rep_of(nodes, nodes[i0].name@);
                    }
                    queue.push(w);
                    proof {
                        assert forall|p: int, k: int|
                            0 <= p < queue@.len() && 0 <= k < edges@.len() && #[trigger] edges@[k].1 == #[trigger] queue@[p]
                                implies exists|q: int| 0 <= q < p && queue@[q] == edges@[k].0 by {
                            if p < qbefore.len() {
                                assert(queue@[p] == qbefore[p]);
                                let q = choose|q: int| 0 <= q < p && qbefore[q] == edges@[k].0;
                                assert(queue@[q] == qbefore[q]);
                            } else {
                                lemma_cnt_zero(edges@, w, pnew, edges@.len() as int, k);
                                let x = edges@[k].0 as int;
                                assert(pnew[x]);
                                let q = choose|q: int| 0 <= q < head && qbefore[q] == x;
                                assert(queue@[q] == qbefore[q]);
                            }
                        }
                        assert forall|p: int| 0 <= p < queue@.len() implies indeg@[#[trigger] queue@[p] as int] == 0 by {
                            if p < qbefore.len() {
                                assert(queue@[p] == qbefore[p]);
                            }
                        }
                        assert(queue@.take(qold.len() as int) =~= qold) by {
                            assert(qbefore.take(qold.len() as int) == qold);
                        }
                        assert forall|w2: int| 0 <= w2 < n implies (#[trigger] pnew[w2] <==> exists|p: int| 0 <= p < head && queue@[p] == w2) by {
                            if pnew[w2] {
                                let p = choose|p: int| 0 <= p < head && qbefore[p] == w2;
                                assert(queue@[p] == qbefore[p]);
                            }
                        }
                        assert forall|w2: int| is_rep(nodes, w2) && indeg@[w2] == 0 implies #[trigger] queue@.contains(w2 as usize) by {
                            if w2 != w {
                                assert(qbefore.contains(w2 as usize));
                                let p = choose|p: int| 0 <= p < qbefore.len() && qbefore[p] == w2;
                                assert(queue@[p] == qbefore[p]);
                            } else {
                                assert(queue@[qbefore.len() as int] == w);
                            }
                        }
                    }
                }
            }
            m = m + 1;
        }
        proof {
            assert forall|w: int| 0 <= w < n implies #[trigger] indeg@[w] == cnt(edges@, w as usize, popped@, edges@.len() as int) by {
            }
        }
    }
    if queue.len() == n {
        proof {
            if !distinct_names(nodes) {
                lemma_reps_fewer(nodes, queue@);
            }
            let o = queue@;
            assert forall|p: int, j: int|
                0 <= p < o.len() && 0 <= j < nodes[o[p] as int].dependencies@.len() && registered(
                    nodes,
                    #[trigger] nodes[o[p] as int].dependencies@[j].name@,
                ) implies exists|q: int|
                    #![trigger o[q]]
                    0 <= q < p && nodes[o[q] as int].name@ == nodes[o[p] as int].dependencies@[j].name@ by {
                let k = choose|k: int| 0 <= k < edges@.len() && #[trigger] is_edge_for(nodes, edges@[k], o[p] as int, j);
                assert(is_rep(nodes, o[p] as int));
                assert(edges@[k].1 == o[p]);
                let q = choose|q: int| 0 <= q < p && o[q] == edges@[k].0;
                lemma_rep_of(nodes, nodes[o[p] as int].dependencies@[j].name@);
            }
            assert forall|p: int, q: int| 0 <= p < o.len() && 0 <= q < o.len() && p != q implies #[trigger] o[p] != #[trigger] o[q] by {}
        }
        return Ok(queue);
    }
    proof {
        if distinct_names(nodes) && exists|o: Seq<usize>| valid_order(nodes, o) {
            let o = choose|o: Seq<usize>| valid_order(nodes, o);
            if o.len() > 0 {
                lemma_order_in_queue(nodes, edges@, queue@, popped@, indeg@, o, o.len() - 1);
                assert(o.no_duplicates()) by {
                    assert forall|a: int, b: int| 0 <= a < o.len() && 0 <= b < o.len() && a != b implies o[a] != o[b] by {}
                }
                lemma_distinct_subset_len(o, queue@);
            }
            lemma_distinct_bounded(queue@, n as int);
        }
    }
    let mut remaining: Vec<String> = Vec::new();
    let mut i: usize = 0;
    while i < n
        invariant
            i <= n,
            n == plugins@.len(),
            names_match(plugins@, names@),
            popped@.len() == n,
        decreases n - i,
    {
        let ri = rep_index(plugins, &names, &names[i]);
        proof {
            lemma_rep_of(plugins@, plugins@[i as int].name@);
        }
        if !popped[ri] {
            remaining.push(plugins[i].name.clone());
        }
        i = i + 1;
    }
    Err(DependencyError::Circular { remaining })
}


/// The error for a unique plugin whose name is registered already.
pub open spec fn plugin_already_registered_text(name: Seq<char>) -> Seq<char> {
    "Plugin '"@ + name + "' is already registered"@
}

/// Whether a plugin called `name` may join the plugins called `registered`: refused exactly
/// where it is unique and its name is taken.
pub fn admit_plugin(registered: &Vec<String>, name: &str, unique: bool) -> (r: Result<(), String>)
    ensures
        r is Err <==> unique && string_views(registered@).contains(name@),
        r matches Err(e) ==> e@ == plugin_already_registered_text(name@),
{
    if !unique {
        return Ok(());
    }
    let mut i: usize = 0;
    while i < registered.len()
        invariant
            unique,
            i <= registered@.len(),
            forall|k: int| 0 <= k < i ==> string_views(registered@)[k] != name@,
        decreases registered.len() - i,
    {
        if crate::text::str_equal(registered[i].as_str(), name) {
            assert(string_views(registered@)[i as int] == name@);
            assert(string_views(registered@).len() == registered@.len());
            assert(string_views(registered@).contains(name@));
            let mut m = String::new();
            m.push_str("Plugin '");
            m.push_str(name);
            m.push_str("' is already registered");
            assert(m@ =~= plugin_already_registered_text(name@));
            return Err(m);
        }
        i = i + 1;
    }
    proof {
        if string_views(registered@).contains(name@) {
            let k = choose|k: int| 0 <= k < registered@.len() && string_views(registered@)[k] == name@;
            assert(string_views(registered@)[k] != name@);
        }
    }
    Ok(())
}

} // verus!
