//! The routing table that the plugin engine builds from the handlers of its enabled plugins,
//! and the ordered list of handlers that a message reaches through it.
use vstd::prelude::*;

use crate::assoc::StringMap;
use crate::command::{
    first_prefix_match, invocation_view, parse_command_line_with_prefixes, parse_command_spec,
    string_views,
};
use crate::dispatch::{normalize_command_prefixes, normalized_prefixes};
use crate::model::{CommandInvocation, InvocationView};
use crate::plugin::{Capability, CapabilityView, ConcurrencyPolicy, HandlerDecl, Permission, cap_views, contains_capability};
use crate::text::{find_ws, owned, skip_ws, str_equal};
use crate::ranking::{Ranked, insert_ranked, lemma_sort_by_rank, sort_by_rank, sort_ranked};

verus! {

/// One handler of an enabled plugin, as the router keeps it.
#[derive(Clone, Copy, Debug, PartialEq, Eq)]
pub struct Route {
    pub plugin_index: usize,
    pub handler_index: usize,
    pub priority: i32,
    pub block: bool,
    pub concurrency: ConcurrencyPolicy,
}

impl Ranked for Route {
    /// Routes run by priority, then by plugin, then by handler.
    open spec fn rank(&self) -> (int, int, int, int) {
        (self.priority as int, self.plugin_index as int, self.handler_index as int, 0)
    }

    fn ranks_before_or_with(&self, other: &Self) -> (r: bool) {
        self.priority < other.priority || (self.priority == other.priority && (self.plugin_index
            < other.plugin_index || (self.plugin_index == other.plugin_index
            && self.handler_index <= other.handler_index)))
    }
}

/// A route taken when a message matches `pattern`.
#[derive(Clone, Debug)]
pub struct RegexRoute {
    pub route: Route,
    pub pattern: String,
}

impl Ranked for RegexRoute {
    open spec fn rank(&self) -> (int, int, int, int) {
        self.route.rank()
    }

    fn ranks_before_or_with(&self, other: &Self) -> (r: bool) {
        self.route.ranks_before_or_with(&other.route)
    }
}

/// The handlers that one registered plugin declares.
#[derive(Clone, Debug)]
pub struct RoutingSource {
    pub instance_id: String,
    pub handlers: Vec<HandlerDecl>,
}

/// Routes by command name, the wildcard routes, the pattern routes (each list in route order),
/// and the command prefixes that any enabled handler accepts.
pub struct RoutingTable {
    pub command_prefixes: Vec<String>,
    pub commands: StringMap<Vec<Route>>,
    pub wildcard: Vec<Route>,
    pub regex: Vec<RegexRoute>,
}

impl RoutingTable {
    /// The table with no routes and no prefixes.
    pub fn new() -> (r: Self)
        ensures
            r.command_prefixes@.len() == 0,
            r.commands@ == Map::<Seq<char>, Vec<Route>>::empty(),
            r.wildcard@.len() == 0,
            r.regex@.len() == 0,
    {
        RoutingTable {
            command_prefixes: Vec::new(),
            commands: StringMap::new(),
            wildcard: Vec::new(),
            regex: Vec::new(),
        }
    }
}

/// The route of handler `h` of plugin `p`.
pub open spec fn route_for(plugins: Seq<RoutingSource>, p: int, h: int) -> Route {
    let d = plugins[p].handlers@[h];
    Route {
        plugin_index: p as usize,
        handler_index: h as usize,
        priority: d.priority,
        block: d.block,
        concurrency: d.concurrency,
    }
}

/// Every handler of the plugins in `order`, as (plugin, handler) pairs in that order.
pub open spec fn handler_slots(plugins: Seq<RoutingSource>, order: Seq<usize>) -> Seq<(int, int)>
    decreases order.len(),
{
    if order.len() == 0 {
        Seq::empty()
    } else {
        let p = order.last() as int;
        handler_slots(plugins, order.drop_last()) + Seq::new(
            plugins[p].handlers@.len(),
            |h: int| (p, h),
        )
    }
}

/// Each command that the handlers answer, with the handler's route, in declaration order.
pub open spec fn command_events(plugins: Seq<RoutingSource>, slots: Seq<(int, int)>) -> Seq<
    (Seq<char>, Route),
>
    decreases slots.len(),
{
    if slots.len() == 0 {
        Seq::empty()
    } else {
        let (p, h) = slots.last();
        let route = route_for(plugins, p, h);
        command_events(plugins, slots.drop_last()) + plugins[p].handlers@[h].commands@.map_values(
            |c: String| (c@, route),
        )
    }
}

/// The routes of the events for command `c`, in order.
pub open spec fn routes_named(events: Seq<(Seq<char>, Route)>, c: Seq<char>) -> Seq<Route>
    decreases events.len(),
{
    if events.len() == 0 {
        Seq::empty()
    } else if events.last().0 == c {
        routes_named(events.drop_last(), c).push(events.last().1)
    } else {
        routes_named(events.drop_last(), c)
    }
}

/// The routes of the wildcard handlers, in order.
pub open spec fn wildcard_routes(plugins: Seq<RoutingSource>, slots: Seq<(int, int)>) -> Seq<Route>
    decreases slots.len(),
{
    if slots.len() == 0 {
        Seq::empty()
    } else {
        let (p, h) = slots.last();
        let prev = wildcard_routes(plugins, slots.drop_last());
        if plugins[p].handlers@[h].wildcard {
            prev.push(route_for(plugins, p, h))
        } else {
            prev
        }
    }
}

/// Each pattern that the handlers declare, with the handler's route, in declaration order.
pub open spec fn regex_events(plugins: Seq<RoutingSource>, slots: Seq<(int, int)>) -> Seq<
    RegexRoute,
>
    decreases slots.len(),
{
    if slots.len() == 0 {
        Seq::empty()
    } else {
        let (p, h) = slots.last();
        let route = route_for(plugins, p, h);
        regex_events(plugins, slots.drop_last()) + plugins[p].handlers@[h].regex_patterns@.map_values(
            |pat: String| RegexRoute { route, pattern: pat },
        )
    }
}

/// The command prefixes that the handlers declare, in order.
pub open spec fn handler_prefix_list(plugins: Seq<RoutingSource>, slots: Seq<(int, int)>) -> Seq<
    Seq<char>,
>
    decreases slots.len(),
{
    if slots.len() == 0 {
        Seq::empty()
    } else {
        let (p, h) = slots.last();
        handler_prefix_list(plugins, slots.drop_last()) + string_views(
            plugins[p].handlers@[h].command_prefixes@,
        )
    }
}

/// Whether `pattern` compiles as a regular expression (what `regex::Regex::new` decides).
pub uninterp spec fn regex_valid(pattern: Seq<char>) -> bool;

/// Whether `text` matches the compiled `pattern` (what `regex::Regex::is_match` decides).
pub uninterp spec fn regex_match(pattern: Seq<char>, text: Seq<char>) -> bool;

/// Compiles `pattern` with `regex::Regex::new`: `None` when it compiles, else the error's text.
/// What the error text says is not stated.
#[verifier::external_body]
fn regex_compile_error(pattern: &str) -> (r: Option<String>)
    ensures
        r is None <==> regex_valid(pattern@),
{
    match regex::Regex::new(pattern) {
        Ok(_) => None,
        Err(err) => Some(err.to_string()),
    }
}

/// Compiles `pattern` with `regex::Regex::new` and asks `is_match` whether `text` matches;
/// a pattern that does not compile matches nothing.
#[verifier::external_body]
fn regex_is_match(pattern: &str, text: &str) -> (r: bool)
    ensures
        r == regex_match(pattern@, text@),
        !regex_valid(pattern@) ==> !r,
{
    regex::Regex::new(pattern).is_ok_and(|re| re.is_match(text))
}

/// The index of the first pattern at or after `j` that does not compile (`events.len()` if none).
pub open spec fn first_invalid_from(events: Seq<RegexRoute>, j: int) -> int
    decreases events.len() - j,
{
    if j >= events.len() {
        events.len() as int
    } else if !regex_valid(events[j].pattern@) {
        j
    } else {
        first_invalid_from(events, j + 1)
    }
}

/// The start of the error for a pattern that does not compile; the compiler's own text follows.
pub open spec fn invalid_regex_prefix(instance_id: Seq<char>, pattern: Seq<char>) -> Seq<char> {
    "plugin `"@ + instance_id + "` declared invalid regex `"@ + pattern + "`: "@
}

/// The map holds exactly the commands that have events, each with its routes in route order.
pub open spec fn commands_match(m: Map<Seq<char>, Vec<Route>>, events: Seq<(Seq<char>, Route)>) -> bool {
    &&& forall|c: Seq<char>| #[trigger] m.contains_key(c) <==> routes_named(events, c).len() > 0
    &&& forall|c: Seq<char>| #[trigger] m.contains_key(c) ==> m[c]@ == sort_by_rank(routes_named(events, c))
}

proof fn lemma_first_invalid(events: Seq<RegexRoute>, i: int, j: int)
    requires
        0 <= j <= i <= events.len(),
        forall|k: int| 0 <= k < i ==> regex_valid(#[trigger] events[k].pattern@),
        i < events.len() ==> !regex_valid(events[i].pattern@),
    ensures
        first_invalid_from(events, j) == i,
    decreases i - j,
{
    if j < i {
        lemma_first_invalid(events, i, j + 1);
    }
}

proof fn lemma_slots_prefix(plugins: Seq<RoutingSource>, order: Seq<usize>, k: int)
    requires
        0 <= k <= order.len(),
    ensures
        handler_slots(plugins, order.take(k)).is_prefix_of(handler_slots(plugins, order)),
    decreases order.len(),
{
    if k == order.len() {
        assert(order.take(k) =~= order);
    } else {
        let u = order.drop_last();
        lemma_slots_prefix(plugins, u, k);
        assert(u.take(k) =~= order.take(k));
    }
}

proof fn lemma_regex_events_prefix(plugins: Seq<RoutingSource>, s: Seq<(int, int)>, t: Seq<(int, int)>)
    requires
        s.is_prefix_of(t),
    ensures
        regex_events(plugins, s).is_prefix_of(regex_events(plugins, t)),
    decreases t.len(),
{
    if s.len() < t.len() {
        let u = t.drop_last();
        assert(s.is_prefix_of(u)) by {
            assert forall|i: int| 0 <= i < s.len() implies s[i] == u[i] by {
                assert(t[i] == u[i]);
            }
        }
        lemma_regex_events_prefix(plugins, s, u);
    } else {
        assert(s =~= t);
    }
}

/// Builds the table from the handlers of the plugins in `order` (the enabled plugins, in the
/// order they were enabled): every command, wildcard and pattern route, each list in route
/// order, and the command prefixes of `global_prefixes` and of every handler, normalized.
/// Fails on the first pattern that does not compile.
pub fn build_routing_table(
    global_prefixes: &Vec<String>,
    plugins: &Vec<RoutingSource>,
    order: &Vec<usize>,
) -> (r: Result<RoutingTable, String>)
    requires
        forall|i: int| 0 <= i < order@.len() ==> order@[i] < plugins@.len(),
    ensures
        ({
            let slots = handler_slots(plugins@, order@);
            let events = regex_events(plugins@, slots);
            let first = first_invalid_from(events, 0);
            &&& r is Err <==> first < events.len()
            &&& r matches Err(msg) ==> invalid_regex_prefix(
                plugins@[events[first].route.plugin_index as int].instance_id@,
                events[first].pattern@,
            ).is_prefix_of(msg@)
            &&& r matches Ok(t) ==> {
                &&& string_views(t.command_prefixes@) == normalized_prefixes(
                    string_views(global_prefixes@) + handler_prefix_list(plugins@, slots),
                )
                &&& commands_match(t.commands@, command_events(plugins@, slots))
                &&& t.wildcard@ == sort_by_rank(wildcard_routes(plugins@, slots))
                &&& t.regex@ == sort_by_rank(events)
            }
        }),
{
    let ghost pv = plugins@;
    let ghost all_slots = handler_slots(pv, order@);
    let mut prefixes: Vec<String> = Vec::new();
    let mut g: usize = 0;
    while g < global_prefixes.len()
        invariant
            g <= global_prefixes@.len(),
            string_views(prefixes@) == string_views(global_prefixes@).take(g as int),
        decreases global_prefixes.len() - g,
    {
        let ghost before = prefixes@;
        prefixes.push(global_prefixes[g].clone());
        proof {
            assert(string_views(prefixes@) =~= string_views(before).push(global_prefixes@[g as int]@));
            assert(string_views(global_prefixes@).take(g as int + 1) =~= string_views(
                global_prefixes@,
            ).take(g as int).push(global_prefixes@[g as int]@));
        }
        g = g + 1;
    }
    assert(string_views(global_prefixes@).take(global_prefixes@.len() as int) =~= string_views(
        global_prefixes@,
    ));
    let ghost gv = string_views(global_prefixes@);
    let mut commands: StringMap<Vec<Route>> = StringMap::new();
    let mut wildcard: Vec<Route> = Vec::new();
    let mut regex: Vec<RegexRoute> = Vec::new();
    let ghost mut done: Seq<(int, int)> = Seq::empty();
    assert(order@.take(0) =~= Seq::<usize>::empty());
    let mut oi: usize = 0;
    while oi < order.len()
        invariant
            oi <= order@.len(),
            pv == plugins@,
            gv == string_views(global_prefixes@),
            all_slots == handler_slots(pv, order@),
            forall|i: int| 0 <= i < order@.len() ==> order@[i] < pv.len(),
            done == handler_slots(pv, order@.take(oi as int)),
            string_views(prefixes@) == gv + handler_prefix_list(pv, done),
            commands_match(commands@, command_events(pv, done)),
            wildcard@ == sort_by_rank(wildcard_routes(pv, done)),
            regex@ == sort_by_rank(regex_events(pv, done)),
            forall|k: int|
                0 <= k < regex_events(pv, done).len() ==> regex_valid(
                    #[trigger] regex_events(pv, done)[k].pattern@,
                ),
        decreases order.len() - oi,
    {
        let p = order[oi];
        let ghost base = done;
        let handlers = &plugins[p].handlers;
        let mut h: usize = 0;
        assert(base + Seq::new(0, |j: int| (p as int, j)) =~= base);
        while h < handlers.len()
            invariant
                h <= handlers@.len(),
                p < pv.len(),
                *handlers == pv[p as int].handlers,
                pv == plugins@,
                gv == string_views(global_prefixes@),
                all_slots == handler_slots(pv, order@),
                forall|i: int| 0 <= i < order@.len() ==> order@[i] < pv.len(),
                oi < order@.len(),
                order@[oi as int] == p,
                base == handler_slots(pv, order@.take(oi as int)),
                done == base + Seq::new(h as nat, |j: int| (p as int, j)),
                string_views(prefixes@) == gv + handler_prefix_list(pv, done),
                commands_match(commands@, command_events(pv, done)),
                wildcard@ == sort_by_rank(wildcard_routes(pv, done)),
                regex@ == sort_by_rank(regex_events(pv, done)),
                forall|k: int|
                    0 <= k < regex_events(pv, done).len() ==> regex_valid(
                        #[trigger] regex_events(pv, done)[k].pattern@,
                    ),
            decreases handlers.len() - h,
        {
            let d = &handlers[h];
            let route = Route {
                plugin_index: p,
                handler_index: h,
                priority: d.priority,
                block: d.block,
                concurrency: d.concurrency,
            };
            let ghost slot = (p as int, h as int);
            let ghost next = done.push(slot);
            assert(route == route_for(pv, p as int, h as int));
            assert(next.drop_last() =~= done);
            assert(next.last() == slot);
            // commands
            let ghost ce = command_events(pv, done);
            let ghost cmds = d.commands@.map_values(|c: String| (c@, route));
            let mut k: usize = 0;
            assert(ce + cmds.take(0) =~= ce);
            while k < d.commands.len()
                invariant
                    k <= d.commands@.len(),
                    cmds == d.commands@.map_values(|c: String| (c@, route)),
                    commands_match(commands@, ce + cmds.take(k as int)),
                decreases d.commands.len() - k,
            {
                let c = &d.commands[k];
                let ghost ev = ce + cmds.take(k as int);
                let ghost ev2 = ce + cmds.take(k as int + 1);
                assert(ev2 =~= ev.push((c@, route)));
                assert(ev2.drop_last() =~= ev);
                let existing = commands.remove(c.as_str());
                let mut routes = match existing {
                    Some(v) => v,
                    None => Vec::new(),
                };
                proof {
                    if routes_named(ev, c@).len() == 0 {
                        assert(routes@ =~= sort_by_rank(routes_named(ev, c@)));
                    }
                    let rn = routes_named(ev, c@);
                    assert(rn.push(route).drop_last() =~= rn);
                }
                insert_ranked(&mut routes, route);
                commands.insert(c.as_str(), routes);
                proof {
                    assert forall|c2: Seq<char>| #[trigger]
                        commands@.contains_key(c2) <==> routes_named(ev2, c2).len() > 0 by {
                        if c2 != c@ {
                            assert(routes_named(ev2, c2) == routes_named(ev, c2));
                        }
                    }
                    assert forall|c2: Seq<char>| #[trigger]
                        commands@.contains_key(c2) implies commands@[c2]@ == sort_by_rank(
                        routes_named(ev2, c2),
                    ) by {
                        if c2 != c@ {
                            assert(routes_named(ev2, c2) == routes_named(ev, c2));
                        }
                    }
                }
                k = k + 1;
            }
            assert(cmds.take(d.commands@.len() as int) =~= cmds);
            assert(command_events(pv, next) == ce + cmds);
            // prefixes
            let ghost pl = handler_prefix_list(pv, done);
            let mut q: usize = 0;
            while q < d.command_prefixes.len()
                invariant
                    q <= d.command_prefixes@.len(),
                    string_views(prefixes@) == gv + pl + string_views(d.command_prefixes@).take(
                        q as int,
                    ),
                decreases d.command_prefixes.len() - q,
            {
                let ghost before = prefixes@;
                prefixes.push(d.command_prefixes[q].clone());
                proof {
                    assert(string_views(prefixes@) =~= string_views(before).push(
                        d.command_prefixes@[q as int]@,
                    ));
                    assert(string_views(d.command_prefixes@).take(q as int + 1) =~= string_views(
                        d.command_prefixes@,
                    ).take(q as int).push(d.command_prefixes@[q as int]@));
                }
                q = q + 1;
            }
            assert(string_views(d.command_prefixes@).take(d.command_prefixes@.len() as int)
                =~= string_views(d.command_prefixes@));
            assert(handler_prefix_list(pv, next) == pl + string_views(d.command_prefixes@));
            // wildcard
            if d.wildcard {
                proof {
                    let w = wildcard_routes(pv, done);
                    assert(w.push(route).drop_last() =~= w);
                }
                insert_ranked(&mut wildcard, route);
            }
            // patterns
            let ghost re = regex_events(pv, done);
            let ghost pats = d.regex_patterns@.map_values(
                |pat: String| RegexRoute { route, pattern: pat },
            );
            assert(re + pats.take(0) =~= re);
            let mut j: usize = 0;
            while j < d.regex_patterns.len()
                invariant
                    j <= d.regex_patterns@.len(),
                    pats == d.regex_patterns@.map_values(
                        |pat: String| RegexRoute { route, pattern: pat },
                    ),
                    regex@ == sort_by_rank(re + pats.take(j as int)),
                    pv == plugins@,
                    p < pv.len(),
                    *handlers == pv[p as int].handlers,
                    h < handlers@.len(),
                    *d == handlers@[h as int],
                    route == route_for(pv, p as int, h as int),
                    all_slots == handler_slots(pv, order@),
                    oi < order@.len(),
                    order@[oi as int] == p,
                    base == handler_slots(pv, order@.take(oi as int)),
                    done == base + Seq::new(h as nat, |x: int| (p as int, x)),
                    next == done.push(slot),
                    slot == (p as int, h as int),
                    re == regex_events(pv, done),
                    forall|k: int|
                        0 <= k < (re + pats.take(j as int)).len() ==> regex_valid(
                            #[trigger] (re + pats.take(j as int))[k].pattern@,
                        ),
                decreases d.regex_patterns.len() - j,
            {
                let pat = &d.regex_patterns[j];
                let ghost ev = re + pats.take(j as int);
                let ghost ev2 = re + pats.take(j as int + 1);
                assert(ev2 =~= ev.push(RegexRoute { route, pattern: *pat }));
                match regex_compile_error(pat.as_str()) {
                    Some(err) => {
                        proof {
                            let full = regex_events(pv, all_slots);
                            assert(next.drop_last() =~= done);
                            assert(pv[p as int].handlers@[h as int] == *d);
                            assert(regex_events(pv, next) =~= re + pats);
                            assert(next =~= handler_slots(pv, order@.take(oi as int)) + Seq::new(
                                h as nat + 1,
                                |x: int| (p as int, x),
                            ));
                            assert(next.is_prefix_of(handler_slots(pv, order@.take(oi as int + 1))))
                                by {
                                let ot = order@.take(oi as int + 1);
                                assert(ot.drop_last() =~= order@.take(oi as int));
                                assert(ot.last() == p);
                            }
                            lemma_slots_prefix(pv, order@, oi as int + 1);
                            assert(next.is_prefix_of(all_slots));
                            lemma_regex_events_prefix(pv, next, all_slots);
                            assert(ev2.is_prefix_of(re + pats)) by {
                                assert forall|x: int| 0 <= x < ev2.len() implies ev2[x] == (re
                                    + pats)[x] by {
                                    if x >= re.len() {
                                        assert(pats.take(j as int + 1)[x - re.len()] == pats[x
                                            - re.len()]);
                                    }
                                }
                            }
                            assert(full[ev.len() as int] == ev2[ev.len() as int]);
                            assert forall|x: int| 0 <= x < ev.len() implies regex_valid(
                                #[trigger] full[x].pattern@,
                            ) by {
                                assert(full[x] == ev2[x]);
                                assert(ev2[x] == ev[x]);
                            }
                            lemma_first_invalid(full, ev.len() as int, 0);
                        }
                        let mut msg = String::new();
                        msg.push_str("plugin `");
                        msg.push_str(plugins[p].instance_id.as_str());
                        msg.push_str("` declared invalid regex `");
                        msg.push_str(pat.as_str());
                        msg.push_str("`: ");
                        let ghost head = msg@;
                        msg.push_str(err.as_str());
                        proof {
                            assert(head.is_prefix_of(msg@)) by {
                                assert forall|x: int| 0 <= x < head.len() implies head[x]
                                    == msg@[x] by {}
                            }
                            assert(head =~= invalid_regex_prefix(pv[p as int].instance_id@, pat@));
                        }
                        return Err(msg);
                    },
                    None => {},
                }
                proof {
                    assert((re + pats.take(j as int)).push(RegexRoute { route, pattern: *pat }).drop_last()
                        =~= re + pats.take(j as int));
                }
                insert_ranked(&mut regex, RegexRoute { route, pattern: pat.clone() });
                proof {
                    assert forall|x: int| 0 <= x < ev2.len() implies regex_valid(
                        #[trigger] ev2[x].pattern@,
                    ) by {
                        if x < ev.len() {
                            assert(ev2[x] == ev[x]);
                        }
                    }
                }
                j = j + 1;
            }
            assert(pats.take(d.regex_patterns@.len() as int) =~= pats);
            assert(regex_events(pv, next) == re + pats);
            proof {
                done = next;
            }
            assert(base + Seq::new(h as nat + 1, |x: int| (p as int, x)) =~= next);
            h = h + 1;
        }
        proof {
            let ot = order@.take(oi as int + 1);
            assert(ot.drop_last() =~= order@.take(oi as int));
            assert(ot.last() == p);
            assert(done =~= handler_slots(pv, ot));
        }
        oi = oi + 1;
    }
    assert(order@.take(order@.len() as int) =~= order@);
    proof {
        lemma_first_invalid(regex_events(pv, all_slots), regex_events(pv, all_slots).len() as int, 0);
    }
    let command_prefixes = normalize_command_prefixes(prefixes);
    Ok(RoutingTable { command_prefixes, commands, wildcard, regex })
}

/// A route paired with how it matched: 0 by command, 1 as a wildcard, 2 by pattern.
impl Ranked for (Route, u8) {
    /// Matches run by priority, then by how they matched, then by plugin and handler.
    open spec fn rank(&self) -> (int, int, int, int) {
        (self.0.priority as int, self.1 as int, self.0.plugin_index as int, self.0.handler_index as int)
    }

    fn ranks_before_or_with(&self, other: &Self) -> (r: bool) {
        let (a, ka) = *self;
        let (b, kb) = *other;
        a.priority < b.priority || (a.priority == b.priority && (ka < kb || (ka == kb && (
        a.plugin_index < b.plugin_index || (a.plugin_index == b.plugin_index && a.handler_index
            <= b.handler_index)))))
    }
}

/// A handler that a message reached: its route, how it matched (0 by command, 1 as a
/// wildcard, 2 by pattern), and the parsed command for a command match.
#[derive(Clone, Debug)]
pub struct MatchedHandler {
    pub invocation: Option<CommandInvocation>,
    pub match_rank: u8,
    pub route: Route,
}

/// The command that a message carries: parsed with the table's prefixes, or else with none.
pub open spec fn dispatch_invocation(prefixes: Seq<Seq<char>>, text: Seq<char>) -> Option<
    InvocationView,
> {
    match parse_command_spec(text, prefixes) {
        Some(inv) => Some(inv),
        None => parse_command_spec(text, Seq::empty()),
    }
}

/// The routes that a message reaches, before ordering: the routes of its command, or the
/// wildcard routes when the command has none; then every route whose pattern matches.
pub open spec fn matched_routes(table: RoutingTable, text: Seq<char>) -> Seq<(Route, u8)> {
    let inv = dispatch_invocation(string_views(table.command_prefixes@), text);
    let by_command = match inv {
        Some(i) => if table.commands@.contains_key(i.command) {
            table.commands@[i.command]@.map_values(|r: Route| (r, 0u8))
        } else {
            Seq::empty()
        },
        None => Seq::empty(),
    };
    let first = if by_command.len() > 0 {
        by_command
    } else {
        table.wildcard@.map_values(|r: Route| (r, 1u8))
    };
    first + table.regex@.filter(|rr: RegexRoute| regex_match(rr.pattern@, text)).map_values(
        |rr: RegexRoute| (rr.route, 2u8),
    )
}

/// A message that names a command of the table reaches every route of that command, ranked
/// as a command match, whether or not it starts with one of the table's prefixes: where no
/// prefix applies, the first word itself is the command (so `ping` reaches the routes of
/// `ping` when the table's prefix is `/`).
pub proof fn law_named_command_reaches_its_routes(table: RoutingTable, text: Seq<char>, k: int)
    requires
        parse_command_spec(text, string_views(table.command_prefixes@)) matches Some(j)
            && j.prefix is None,
        parse_command_spec(text, Seq::empty()) matches Some(i) && table.commands@.contains_key(
            i.command,
        ) && 0 <= k < table.commands@[i.command]@.len(),
    ensures
        ({
            let i = parse_command_spec(text, Seq::empty())->Some_0;
            let m = sort_by_rank(matched_routes(table, text));
            &&& dispatch_invocation(string_views(table.command_prefixes@), text) == Some(i)
            &&& i.prefix is None
            &&& m.contains((table.commands@[i.command]@[k], 0u8))
        }),
{
    let i = parse_command_spec(text, Seq::empty())->Some_0;
    assert(first_prefix_match(
        text.subrange(skip_ws(text, 0), find_ws(text, skip_ws(text, 0))),
        Seq::<Seq<char>>::empty(),
        0,
    ) is None);
    lemma_prefixed_command_reaches_its_routes(table, text, i, k);
}

/// A message whose command, parsed with the table's prefixes, is a command of the table
/// reaches every route of that command, ranked as a command match.
pub proof fn law_prefixed_command_reaches_its_routes(table: RoutingTable, text: Seq<char>, k: int)
    requires
        parse_command_spec(text, string_views(table.command_prefixes@)) matches Some(i)
            && table.commands@.contains_key(i.command) && 0 <= k < table.commands@[i.command]@.len(),
    ensures
        ({
            let i = parse_command_spec(text, string_views(table.command_prefixes@))->Some_0;
            sort_by_rank(matched_routes(table, text)).contains((table.commands@[i.command]@[k], 0u8))
        }),
{
    let i = parse_command_spec(text, string_views(table.command_prefixes@))->Some_0;
    lemma_prefixed_command_reaches_its_routes(table, text, i, k);
}

proof fn lemma_prefixed_command_reaches_its_routes(
    table: RoutingTable,
    text: Seq<char>,
    i: InvocationView,
    k: int,
)
    requires
        dispatch_invocation(string_views(table.command_prefixes@), text) == Some(i),
        table.commands@.contains_key(i.command),
        0 <= k < table.commands@[i.command]@.len(),
    ensures
        sort_by_rank(matched_routes(table, text)).contains((table.commands@[i.command]@[k], 0u8)),
{
    let routes = table.commands@[i.command]@;
    let by_command = routes.map_values(|r: Route| (r, 0u8));
    let mr = matched_routes(table, text);
    assert(by_command[k] == (routes[k], 0u8));
    assert(by_command.len() > 0);
    assert(mr[k] == (routes[k], 0u8));
    assert(mr.contains((routes[k], 0u8)));
    lemma_sort_by_rank(mr);
    let sorted = sort_by_rank(mr);
    assert(mr.to_multiset().count((routes[k], 0u8)) > 0) by {
        mr.to_multiset_ensures();
    }
    sorted.to_multiset_ensures();
}

/// The handlers that `text` reaches, in the order they run: by priority, then command matches
/// before wildcard matches before pattern matches, then by plugin and handler. Command matches
/// carry the parsed command.
pub fn match_message(table: &RoutingTable, text: &str) -> (r: Vec<MatchedHandler>)
    ensures
        ({
            let m = sort_by_rank(matched_routes(*table, text@));
            let inv = dispatch_invocation(string_views(table.command_prefixes@), text@);
            &&& r@.len() == m.len()
            &&& forall|i: int|
                0 <= i < m.len() ==> {
                    &&& (#[trigger] r@[i]).route == m[i].0
                    &&& r@[i].match_rank == m[i].1
                    &&& m[i].1 == 0 ==> invocation_view(r@[i].invocation) == inv
                    &&& m[i].1 != 0 ==> r@[i].invocation is None
                }
        }),
{
    let mut invocation = parse_command_line_with_prefixes(text, &table.command_prefixes);
    if invocation.is_none() {
        let no_prefixes: Vec<String> = Vec::new();
        assert(string_views(no_prefixes@) =~= Seq::<Seq<char>>::empty());
        invocation = parse_command_line_with_prefixes(text, &no_prefixes);
    }
    let ghost inv = invocation_view(invocation);
    assert(inv == dispatch_invocation(string_views(table.command_prefixes@), text@));
    let ghost spec_matched = matched_routes(*table, text@);
    let mut pairs: Vec<(Route, u8)> = Vec::new();
    match &invocation {
        Some(call) => {
            match table.commands.get(call.command()) {
                Some(routes) => {
                    let mut i: usize = 0;
                    while i < routes.len()
                        invariant
                            i <= routes@.len(),
                            pairs@ == routes@.take(i as int).map_values(|r: Route| (r, 0u8)),
                        decreases routes.len() - i,
                    {
                        pairs.push((routes[i], 0u8));
                        assert(routes@.take(i as int + 1).map_values(|r: Route| (r, 0u8))
                            =~= routes@.take(i as int).map_values(|r: Route| (r, 0u8)).push(
                            (routes@[i as int], 0u8),
                        ));
                        i = i + 1;
                    }
                    assert(routes@.take(routes@.len() as int) =~= routes@);
                },
                None => {},
            }
        },
        None => {},
    }
    let ghost by_command = pairs@;
    if pairs.len() == 0 {
        let mut i: usize = 0;
        assert(table.wildcard@.take(0).map_values(|r: Route| (r, 1u8)) =~= pairs@);
        while i < table.wildcard.len()
            invariant
                i <= table.wildcard@.len(),
                pairs@ == table.wildcard@.take(i as int).map_values(|r: Route| (r, 1u8)),
            decreases table.wildcard.len() - i,
        {
            pairs.push((table.wildcard[i], 1u8));
            assert(table.wildcard@.take(i as int + 1).map_values(|r: Route| (r, 1u8))
                =~= table.wildcard@.take(i as int).map_values(|r: Route| (r, 1u8)).push(
                (table.wildcard@[i as int], 1u8),
            ));
            i = i + 1;
        }
        assert(table.wildcard@.take(table.wildcard@.len() as int) =~= table.wildcard@);
    }
    let ghost first = pairs@;
    let ghost pred = |rr: RegexRoute| regex_match(rr.pattern@, text@);
    let ghost to_pair = |rr: RegexRoute| (rr.route, 2u8);
    let mut j: usize = 0;
    assert(first + table.regex@.take(0).filter(pred).map_values(to_pair) =~= first);
    while j < table.regex.len()
        invariant
            j <= table.regex@.len(),
            pred == (|rr: RegexRoute| regex_match(rr.pattern@, text@)),
            to_pair == (|rr: RegexRoute| (rr.route, 2u8)),
            pairs@ == first + table.regex@.take(j as int).filter(pred).map_values(to_pair),
        decreases table.regex.len() - j,
    {
        let rr = &table.regex[j];
        proof {
            assert(table.regex@.take(j as int + 1) =~= table.regex@.take(j as int).push(*rr));
            table.regex@.take(j as int).lemma_filter_push(*rr, pred);
        }
        if regex_is_match(rr.pattern.as_str(), text) {
            let ghost before = pairs@;
            pairs.push((rr.route, 2u8));
            proof {
                let f = table.regex@.take(j as int).filter(pred);
                assert(f.push(*rr).map_values(to_pair) =~= f.map_values(to_pair).push((rr.route, 2u8)));
                assert(pairs@ =~= first + f.push(*rr).map_values(to_pair));
            }
        }
        j = j + 1;
    }
    assert(table.regex@.take(table.regex@.len() as int) =~= table.regex@);
    assert(pairs@ =~= spec_matched);
    let sorted = sort_ranked(pairs);
    let mut out: Vec<MatchedHandler> = Vec::new();
    let mut k: usize = 0;
    while k < sorted.len()
        invariant
            k <= sorted@.len(),
            sorted@ == sort_by_rank(spec_matched),
            spec_matched == matched_routes(*table, text@),
            inv == invocation_view(invocation),
            out@.len() == k,
            forall|i: int|
                0 <= i < k ==> {
                    &&& (#[trigger] out@[i]).route == sorted@[i].0
                    &&& out@[i].match_rank == sorted@[i].1
                    &&& sorted@[i].1 == 0 ==> invocation_view(out@[i].invocation) == inv
                    &&& sorted@[i].1 != 0 ==> out@[i].invocation is None
                },
        decreases sorted.len() - k,
    {
        let (route, rank) = sorted[k];
        let call = if rank == 0 {
            match &invocation {
                Some(c) => Some(c.copy()),
                None => None,
            }
        } else {
            None
        };
        out.push(MatchedHandler { invocation: call, match_rank: rank, route });
        k = k + 1;
    }
    out
}

/// What the dispatcher knows, when it checks permissions, about a message and the bot.
#[derive(Clone, Debug)]
pub struct PermissionFacts {
    pub user_id: String,
    pub group_id: Option<String>,
    pub bot_id: Option<String>,
    pub capabilities: Vec<Capability>,
    pub has_sender: bool,
    pub has_permission_checker: bool,
}

/// The verdict on one permission: granted, denied, or to be asked of the permission service.
#[derive(Clone, Copy, Debug, PartialEq, Eq)]
pub enum PermissionCheck {
    Granted,
    Denied,
    AskChecker,
}

/// The verdict on `p`: user, group and bot permissions compare ids; a platform capability is
/// granted when the bot has it (proactive sending also when a sender is attached); roles and
/// custom permissions go to the permission service, and are denied when there is none.
pub open spec fn permission_verdict(p: Permission, f: PermissionFacts) -> PermissionCheck {
    match p {
        Permission::Any => PermissionCheck::Granted,
        Permission::User(u) => if f.user_id@ == u@ {
            PermissionCheck::Granted
        } else {
            PermissionCheck::Denied
        },
        Permission::Group(g) => match f.group_id {
            Some(x) => if x@ == g@ {
                PermissionCheck::Granted
            } else {
                PermissionCheck::Denied
            },
            None => PermissionCheck::Denied,
        },
        Permission::Bot(b) => match f.bot_id {
            Some(x) => if x@ == b@ {
                PermissionCheck::Granted
            } else {
                PermissionCheck::Denied
            },
            None => PermissionCheck::Denied,
        },
        Permission::PlatformCapability(c) => if cap_views(f.capabilities@).contains(c@) || (c@
            == CapabilityView::ProactiveSend && f.has_sender) {
            PermissionCheck::Granted
        } else {
            PermissionCheck::Denied
        },
        Permission::Role(_) | Permission::Custom(_) => if f.has_permission_checker {
            PermissionCheck::AskChecker
        } else {
            PermissionCheck::Denied
        },
    }
}

/// A platform capability is granted exactly when the bot lists it among its capabilities, or
/// it is proactive sending and a sender is attached; nothing else decides it.
pub proof fn law_capability_granted_when_listed(c: Capability, f: PermissionFacts)
    ensures
        cap_views(f.capabilities@).contains(c@) ==> permission_verdict(
            Permission::PlatformCapability(c),
            f,
        ) == PermissionCheck::Granted,
        (c@ == CapabilityView::ProactiveSend && f.has_sender) ==> permission_verdict(
            Permission::PlatformCapability(c),
            f,
        ) == PermissionCheck::Granted,
        !cap_views(f.capabilities@).contains(c@) && !(c@ == CapabilityView::ProactiveSend
            && f.has_sender) ==> permission_verdict(Permission::PlatformCapability(c), f)
            == PermissionCheck::Denied,
{
}

/// Decides one permission as far as the facts allow.
pub fn check_permission(p: &Permission, f: &PermissionFacts) -> (r: PermissionCheck)
    ensures
        r == permission_verdict(*p, *f),
{
    match p {
        Permission::Any => PermissionCheck::Granted,
        Permission::User(u) => if str_equal(f.user_id.as_str(), u.as_str()) {
            PermissionCheck::Granted
        } else {
            PermissionCheck::Denied
        },
        Permission::Group(g) => match &f.group_id {
            Some(x) => if str_equal(x.as_str(), g.as_str()) {
                PermissionCheck::Granted
            } else {
                PermissionCheck::Denied
            },
            None => PermissionCheck::Denied,
        },
        Permission::Bot(b) => match &f.bot_id {
            Some(x) => if str_equal(x.as_str(), b.as_str()) {
                PermissionCheck::Granted
            } else {
                PermissionCheck::Denied
            },
            None => PermissionCheck::Denied,
        },
        Permission::PlatformCapability(c) => {
            let proactive = match c {
                Capability::ProactiveSend => true,
                _ => false,
            };
            if contains_capability(f.capabilities.as_slice(), c) || (proactive && f.has_sender) {
                PermissionCheck::Granted
            } else {
                PermissionCheck::Denied
            }
        },
        Permission::Role(_) | Permission::Custom(_) => if f.has_permission_checker {
            PermissionCheck::AskChecker
        } else {
            PermissionCheck::Denied
        },
    }
}

/// Where a scan of a handler's permissions stopped.
#[derive(Clone, Copy, Debug, PartialEq, Eq)]
pub enum PermissionScan {
    /// Every permission from the start on is granted.
    Allowed,
    /// A permission is denied.
    Denied,
    /// The permission at this index must be asked of the permission service.
    Ask(usize),
}

/// Checks `perms` from `start` in order and stops at the first that is not granted: all must
/// hold, and the permission service is asked only when the permissions before are granted.
pub fn scan_permissions(perms: &Vec<Permission>, f: &PermissionFacts, start: usize) -> (r:
    PermissionScan)
    requires
        start <= perms@.len(),
    ensures
        r is Allowed ==> forall|j: int|
            start <= j < perms@.len() ==> permission_verdict(#[trigger] perms@[j], *f)
                == PermissionCheck::Granted,
        r is Denied ==> exists|k: int|
            start <= k < perms@.len() && permission_verdict(#[trigger] perms@[k], *f)
                == PermissionCheck::Denied && forall|j: int|
                start <= j < k ==> permission_verdict(#[trigger] perms@[j], *f)
                    == PermissionCheck::Granted,
        r matches PermissionScan::Ask(k) ==> start <= k < perms@.len() && permission_verdict(
            perms@[k as int],
            *f,
        ) == PermissionCheck::AskChecker && forall|j: int|
            start <= j < k ==> permission_verdict(#[trigger] perms@[j], *f)
                == PermissionCheck::Granted,
{
    let mut i = start;
    while i < perms.len()
        invariant
            start <= i <= perms@.len(),
            forall|j: int|
                start <= j < i ==> permission_verdict(#[trigger] perms@[j], *f)
                    == PermissionCheck::Granted,
        decreases perms.len() - i,
    {
        match check_permission(&perms[i], f) {
            PermissionCheck::Granted => {},
            PermissionCheck::Denied => {
                assert(permission_verdict(perms@[i as int], *f) == PermissionCheck::Denied);
                return PermissionScan::Denied;
            },
            PermissionCheck::AskChecker => {
                return PermissionScan::Ask(i);
            },
        }
        i = i + 1;
    }
    PermissionScan::Allowed
}

/// What serialized handlers wait on: their plugin, the user, the group, or the conversation.
#[derive(Clone, Debug, PartialEq, Eq, Hash)]
pub enum ConcurrencyKey {
    Plugin(usize),
    User(String),
    Group(String),
    Conversation { user_id: String, group_id: Option<String> },
}

/// The key a handler with `policy` waits on; `None` when it runs without waiting (parallel or
/// dropping handlers, and group-serial handlers outside a group).
pub fn concurrency_key(
    policy: ConcurrencyPolicy,
    plugin_index: usize,
    user_id: &str,
    group_id: Option<&str>,
) -> (r: Option<ConcurrencyKey>)
    ensures
        match policy {
            ConcurrencyPolicy::Parallel | ConcurrencyPolicy::Drop => r is None,
            ConcurrencyPolicy::PluginSerial => r == Some(ConcurrencyKey::Plugin(plugin_index)),
            ConcurrencyPolicy::UserSerial => r matches Some(ConcurrencyKey::User(u)) && u@
                == user_id@,
            ConcurrencyPolicy::GroupSerial => match group_id {
                Some(g) => r matches Some(ConcurrencyKey::Group(x)) && x@ == g@,
                None => r is None,
            },
            ConcurrencyPolicy::ConversationSerial => r matches Some(
                ConcurrencyKey::Conversation { user_id: u, group_id: g },
            ) && u@ == user_id@ && g.deep_view() == (match group_id {
                Some(x) => Some(x@),
                None => None,
            }),
        },
{
    match policy {
        ConcurrencyPolicy::Parallel => None,
        ConcurrencyPolicy::Drop => None,
        ConcurrencyPolicy::PluginSerial => Some(ConcurrencyKey::Plugin(plugin_index)),
        ConcurrencyPolicy::UserSerial => Some(ConcurrencyKey::User(owned(user_id))),
        ConcurrencyPolicy::GroupSerial => match group_id {
            Some(g) => Some(ConcurrencyKey::Group(owned(g))),
            None => None,
        },
        ConcurrencyPolicy::ConversationSerial => {
            let g = match group_id {
                Some(x) => Some(owned(x)),
                None => None,
            };
            Some(ConcurrencyKey::Conversation { user_id: owned(user_id), group_id: g })
        },
    }
}


/// Whether dispatch ends after a handler ran: its route blocks the handlers after it, or
/// the handler answered with a block.
pub open spec fn stops_after(route_block: bool, outcome_block: bool) -> bool {
    route_block || outcome_block
}

/// How many of the matched handlers run, where `stops[i]` says whether dispatch ends after
/// the `i`-th handler that runs: all of them up to and including the first that stops.
pub open spec fn handlers_run(stops: Seq<bool>) -> nat
    decreases stops.len(),
{
    if stops.len() == 0 {
        0
    } else if stops[0] {
        1
    } else {
        1 + handlers_run(stops.drop_first())
    }
}

/// The walk over the matched handlers of one message: which one is next, and whether a
/// handler has ended dispatch.
pub struct DispatchCursor {
    total: usize,
    next: usize,
    blocked: bool,
    stops: Ghost<Seq<bool>>,
}

impl DispatchCursor {
    /// How many handlers were matched.
    pub closed spec fn spec_total(&self) -> nat {
        self.total as nat
    }

    /// How many handlers have been passed (run or skipped).
    pub closed spec fn spec_next(&self) -> nat {
        self.next as nat
    }

    /// Whether a handler has ended dispatch.
    pub closed spec fn spec_blocked(&self) -> bool {
        self.blocked
    }

    /// For each handler that ran, in order, whether dispatch ended after it.
    pub closed spec fn spec_stops(&self) -> Seq<bool> {
        self.stops@
    }

    #[verifier::type_invariant]
    closed spec fn wf(&self) -> bool {
        &&& self.next <= self.total
        &&& self.stops@.len() <= self.next
        &&& self.blocked <==> (self.stops@.len() > 0 && self.stops@.last())
        &&& forall|i: int| 0 <= i < self.stops@.len() - 1 ==> !self.stops@[i]
    }

    /// The walk over `total` matched handlers, before any has run.
    pub fn new(total: usize) -> (r: Self)
        ensures
            r.spec_total() == total,
            r.spec_next() == 0,
            !r.spec_blocked(),
            r.spec_stops() == Seq::<bool>::empty(),
            stopped_at_first_block(r.spec_stops(), r.spec_blocked()),
    {
        DispatchCursor { total, next: 0, blocked: false, stops: Ghost(Seq::empty()) }
    }

    /// The position of the next handler to consider; `None` once a handler has ended
    /// dispatch or every handler has been passed.
    pub fn current(&self) -> (r: Option<usize>)
        ensures
            r is Some <==> !self.spec_blocked() && self.spec_next() < self.spec_total(),
            r matches Some(i) ==> i == self.spec_next(),
    {
        if !self.blocked && self.next < self.total {
            Some(self.next)
        } else {
            None
        }
    }

    /// Passes over the current handler without running it (no handler, or not permitted).
    pub fn skip(&mut self)
        requires
            !old(self).spec_blocked(),
            old(self).spec_next() < old(self).spec_total(),
        ensures
            final(self).spec_next() == old(self).spec_next() + 1,
            final(self).spec_total() == old(self).spec_total(),
            final(self).spec_blocked() == old(self).spec_blocked(),
            final(self).spec_stops() == old(self).spec_stops(),
            stopped_at_first_block(final(self).spec_stops(), final(self).spec_blocked()),
    {
        proof {
            use_type_invariant(&*self);
        }
        self.next = self.next + 1;
    }

    /// Records that the current handler ran, with its route's block flag and its answer's;
    /// dispatch ends when either blocks.
    pub fn ran(&mut self, route_block: bool, outcome_block: bool)
        requires
            !old(self).spec_blocked(),
            old(self).spec_next() < old(self).spec_total(),
        ensures
            final(self).spec_next() == old(self).spec_next() + 1,
            final(self).spec_total() == old(self).spec_total(),
            final(self).spec_blocked() == stops_after(route_block, outcome_block),
            final(self).spec_stops() == old(self).spec_stops().push(
                stops_after(route_block, outcome_block),
            ),
            stopped_at_first_block(final(self).spec_stops(), final(self).spec_blocked()),
    {
        proof {
            use_type_invariant(&*self);
        }
        let stop = route_block || outcome_block;
        let ghost stops = self.stops@.push(stop);
        proof {
            assert forall|i: int| 0 <= i < stops.len() - 1 implies !stops[i] by {
                assert(stops[i] == old(self).spec_stops()[i]);
            }
        }
        *self = DispatchCursor { total: self.total, next: self.next + 1, blocked: stop, stops: Ghost(stops) };
    }

    /// Whether a handler has ended dispatch.
    pub fn blocked(&self) -> (r: bool)
        ensures
            r == self.spec_blocked(),
    {
        self.blocked
    }

}

/// The answers of the handlers that ran form a walk that went on until the first stop:
/// none but the last stopped, and dispatch has ended exactly when the last did.
pub open spec fn stopped_at_first_block(stops: Seq<bool>, blocked: bool) -> bool {
    &&& forall|i: int| 0 <= i < stops.len() - 1 ==> !stops[i]
    &&& blocked <==> (stops.len() > 0 && stops.last())
}

/// Dispatch runs the handlers up to and including the first that stops, and no other: on a
/// walk that went on until the first stop, the handlers that ran are `handlers_run` of what
/// they answered.
pub proof fn law_stops_at_first_block(stops: Seq<bool>, blocked: bool)
    requires
        stopped_at_first_block(stops, blocked),
    ensures
        handlers_run(stops) == stops.len(),
{
    lemma_handlers_run_prefix(stops);
}

/// Where no handler but the last stops, all of them run.
proof fn lemma_handlers_run_prefix(stops: Seq<bool>)
    requires
        forall|i: int| 0 <= i < stops.len() - 1 ==> !stops[i],
    ensures
        handlers_run(stops) == stops.len(),
    decreases stops.len(),
{
    if stops.len() == 1 {
        assert(stops.drop_first().len() == 0);
        assert(handlers_run(stops.drop_first()) == 0);
    } else if stops.len() > 1 {
        let rest = stops.drop_first();
        assert(!stops[0]);
        assert forall|i: int| 0 <= i < rest.len() - 1 implies !rest[i] by {
            assert(rest[i] == stops[i + 1]);
        }
        lemma_handlers_run_prefix(rest);
    }
}

} // verus!
