//! Routing a message to plugin handlers: command prefixes, command and pattern matching,
//! permissions, and the order in which matched handlers run.
use vstd::prelude::*;

use crate::command::{
    invocation_view, parse_command_line_with_prefixes, parse_command_spec, string_views,
};
use crate::model::{CommandInvocation, InvocationView};
use crate::plugin::{
    Capability, CapabilityView, HandlerDecl, Permission, cap_views, contains_capability,
};
use crate::text::{chars_of, owned, str_equal};

verus! {

/// Bytes that `c` takes in UTF-8.
pub open spec fn char_utf8_len(c: char) -> int {
    let u = c as u32;
    if u < 0x80 {
        1
    } else if u < 0x800 {
        2
    } else if u < 0x10000 {
        3
    } else {
        4
    }
}

/// Bytes that `s` takes in UTF-8 (what `str::len` returns).
pub open spec fn utf8_len(s: Seq<char>) -> int
    decreases s.len(),
{
    if s.len() == 0 {
        0
    } else {
        utf8_len(s.drop_last()) + char_utf8_len(s.last())
    }
}

proof fn lemma_utf8_len_bound(s: Seq<char>)
    ensures
        0 <= utf8_len(s) <= 4 * s.len(),
    decreases s.len(),
{
    if s.len() > 0 {
        lemma_utf8_len_bound(s.drop_last());
    }
}

/// The UTF-8 length of a string.
pub fn utf8_length(s: &str) -> (r: u128)
    ensures
        r as int == utf8_len(s@),
{
    let v = chars_of(s);
    let mut acc: u128 = 0;
    let mut i: usize = 0;
    while i < v.len()
        invariant
            i <= v.len(),
            v@ == s@,
            acc as int == utf8_len(v@.take(i as int)),
            acc <= 4 * i,
        decreases v.len() - i,
    {
        let u = v[i] as u32;
        let w: u128 = if u < 0x80 {
            1
        } else if u < 0x800 {
            2
        } else if u < 0x10000 {
            3
        } else {
            4
        };
        proof {
            assert(v@.take(i as int + 1).drop_last() == v@.take(i as int));
        }
        acc = acc + w;
        i = i + 1;
    }
    assert(v@.take(v@.len() as int) == v@);
    acc
}

/// Where a prefix of length `k` goes in `s[..j]`: after every prefix at least as long.
pub open spec fn ins_pos_len(s: Seq<Seq<char>>, k: int, j: int) -> int
    decreases j,
{
    if j <= 0 {
        0
    } else if utf8_len(s[j - 1]) >= k {
        j
    } else {
        ins_pos_len(s, k, j - 1)
    }
}

/// Stable sort by UTF-8 length, longest first.
pub open spec fn sort_longest_first(s: Seq<Seq<char>>) -> Seq<Seq<char>>
    decreases s.len(),
{
    if s.len() == 0 {
        s
    } else {
        let t = sort_longest_first(s.drop_last());
        t.insert(ins_pos_len(t, utf8_len(s.last()), t.len() as int), s.last())
    }
}

/// Runs of equal neighbours collapsed to one element.
pub open spec fn dedup_adjacent(s: Seq<Seq<char>>) -> Seq<Seq<char>>
    decreases s.len(),
{
    if s.len() <= 1 {
        s
    } else if s.last() == s[s.len() - 2] {
        dedup_adjacent(s.drop_last())
    } else {
        dedup_adjacent(s.drop_last()).push(s.last())
    }
}

/// Command prefixes as matching uses them: empty ones dropped, longest first (stable), and
/// neighbouring repeats removed.
pub open spec fn normalized_prefixes(s: Seq<Seq<char>>) -> Seq<Seq<char>> {
    dedup_adjacent(sort_longest_first(s.filter(|p: Seq<char>| p.len() > 0)))
}

proof fn lemma_ins_pos_len(s: Seq<Seq<char>>, k: int, j: int)
    requires
        0 <= j <= s.len(),
    ensures
        0 <= ins_pos_len(s, k, j) <= j,
    decreases j,
{
    if j > 0 && utf8_len(s[j - 1]) < k {
        lemma_ins_pos_len(s, k, j - 1);
    }
}

proof fn lemma_sort_len(s: Seq<Seq<char>>)
    ensures
        sort_longest_first(s).len() == s.len(),
    decreases s.len(),
{
    if s.len() > 0 {
        lemma_sort_len(s.drop_last());
        let t = sort_longest_first(s.drop_last());
        lemma_ins_pos_len(t, utf8_len(s.last()), t.len() as int);
    }
}

/// Drops empty prefixes, orders the rest longest first and removes neighbouring repeats.
pub fn normalize_command_prefixes(prefixes: Vec<String>) -> (r: Vec<String>)
    ensures
        string_views(r@) == normalized_prefixes(string_views(prefixes@)),
{
    let ghost pred = |p: Seq<char>| p.len() > 0;
    let ghost sv = string_views(prefixes@);
    let mut kept: Vec<String> = Vec::new();
    let mut i: usize = 0;
    while i < prefixes.len()
        invariant
            i <= prefixes@.len(),
            sv == string_views(prefixes@),
            pred == (|p: Seq<char>| p.len() > 0),
            string_views(kept@) == sv.take(i as int).filter(pred),
        decreases prefixes.len() - i,
    {
        proof {
            assert(sv.take(i as int + 1) =~= sv.take(i as int).push(sv[i as int]));
            sv.take(i as int).lemma_filter_push(sv[i as int], pred);
        }
        if !prefixes[i].as_str().is_empty() {
            let ghost before = kept@;
            kept.push(prefixes[i].clone());
            proof {
                assert(string_views(kept@) =~= string_views(before).push(sv[i as int]));
            }
        }
        i = i + 1;
    }
    assert(sv.take(sv.len() as int) =~= sv);
    let ghost filtered = string_views(kept@);
    let mut sorted: Vec<String> = Vec::new();
    let mut src = kept;
    assert(filtered.take(0) =~= Seq::<Seq<char>>::empty());
    assert(filtered.skip(0) =~= filtered);
    while src.len() > 0
        invariant
            src.len() <= filtered.len(),
            string_views(src@) == filtered.skip(filtered.len() - src.len()),
            string_views(sorted@) == sort_longest_first(filtered.take(filtered.len() - src.len())),
        decreases src.len(),
    {
        let ghost done = filtered.len() - src.len();
        let ghost before_src = src@;
        let x = src.remove(0);
        proof {
            assert(string_views(before_src)[0] == x@);
            assert(string_views(src@) =~= filtered.skip(done + 1)) by {
                assert(src@ =~= before_src.subrange(1, before_src.len() as int));
                assert forall|j: int| 0 <= j < src@.len() implies #[trigger] string_views(
                    src@,
                )[j] == filtered.skip(done + 1)[j] by {
                    assert(string_views(before_src)[j + 1] == before_src[j + 1]@);
                    assert(filtered.skip(done)[j + 1] == filtered[done + 1 + j]);
                }
            }
            assert(filtered[done] == x@) by {
                assert(filtered.skip(done)[0] == filtered[done]);
            }
        }
        let xl = utf8_length(x.as_str());
        let ghost sv2 = string_views(sorted@);
        let mut p = sorted.len();
        while p > 0
            invariant
                p <= sorted@.len(),
                sv2 == string_views(sorted@),
                ins_pos_len(sv2, xl as int, p as int) == ins_pos_len(sv2, xl as int, sv2.len() as int),
            ensures
                p == ins_pos_len(sv2, xl as int, sv2.len() as int),
            decreases p,
        {
            let yl = utf8_length(sorted[p - 1].as_str());
            if yl >= xl {
                break;
            }
            p = p - 1;
        }
        proof {
            let t = filtered.take(done + 1);
            assert(t.drop_last() =~= filtered.take(done));
            assert(t.last() == x@);
        }
        let ghost before_sorted = sorted@;
        sorted.insert(p, x);
        proof {
            assert(string_views(sorted@) =~= string_views(before_sorted).insert(p as int, x@));
        }
    }
    assert(filtered.take(filtered.len() as int) =~= filtered);
    let ghost ss = string_views(sorted@);
    let mut out: Vec<String> = Vec::new();
    let mut k: usize = 0;
    while k < sorted.len()
        invariant
            k <= sorted@.len(),
            ss == string_views(sorted@),
            string_views(out@) == dedup_adjacent(ss.take(k as int)),
            k > 0 ==> out@.len() > 0 && out@.last()@ == ss[k - 1],
        decreases sorted.len() - k,
    {
        proof {
            assert(ss.take(k as int + 1).drop_last() =~= ss.take(k as int));
        }
        if k > 0 && str_equal(sorted[k].as_str(), sorted[k - 1].as_str()) {
            proof {
                reveal_with_fuel(dedup_adjacent, 2);
                assert(ss.take(k as int + 1)[k - 1] == ss[k - 1]);
            }
        } else {
            let ghost before = out@;
            out.push(sorted[k].clone());
            proof {
                assert(string_views(out@) =~= string_views(before).push(ss[k as int]));
                if k > 0 {
                    assert(ss.take(k as int + 1)[k - 1] == ss[k - 1]);
                }
            }
        }
        k = k + 1;
    }
    assert(ss.take(ss.len() as int) =~= ss);
    out
}

/// Global dispatch settings: the command prefixes every handler accepts.
#[derive(Clone, Debug, PartialEq, Eq)]
pub struct DispatchOptions {
    command_prefixes: Vec<String>,
}

impl DispatchOptions {
    pub closed spec fn spec_prefixes(&self) -> Seq<Seq<char>> {
        string_views(self.command_prefixes@)
    }

    pub fn new(command_prefixes: Vec<String>) -> (r: Self)
        ensures
            r.spec_prefixes() == normalized_prefixes(string_views(command_prefixes@)),
    {
        DispatchOptions { command_prefixes: normalize_command_prefixes(command_prefixes) }
    }

    pub fn command_prefixes(&self) -> (r: &Vec<String>)
        ensures
            string_views(r@) == self.spec_prefixes(),
    {
        &self.command_prefixes
    }
}

impl Default for DispatchOptions {
    fn default() -> (r: Self)
        ensures
            r.spec_prefixes().len() == 0,
    {
        DispatchOptions { command_prefixes: Vec::new() }
    }
}

/// Whether `list` holds `s`.
pub fn contains_string(list: &Vec<String>, s: &str) -> (r: bool)
    ensures
        r == string_views(list@).contains(s@),
{
    let mut i: usize = 0;
    while i < list.len()
        invariant
            i <= list@.len(),
            forall|j: int| 0 <= j < i ==> list@[j]@ != s@,
        decreases list.len() - i,
    {
        if str_equal(list[i].as_str(), s) {
            assert(string_views(list@)[i as int] == s@);
            return true;
        }
        i = i + 1;
    }
    assert forall|j: int| 0 <= j < string_views(list@).len() implies string_views(list@)[j] != s@ by {
        assert(string_views(list@)[j] == list@[j]@);
    }
    false
}

/// A parsed command, kept only when it is one of `commands`.
pub open spec fn listed_command(inv: Option<InvocationView>, commands: Seq<Seq<char>>) -> Option<InvocationView> {
    match inv {
        Some(i) => if commands.contains(i.command) {
            Some(i)
        } else {
            None
        },
        None => None,
    }
}

/// The command of `text` that a handler answers: parsed with the handler's own prefixes, else
/// with the global prefixes, else with none, the first parse whose command the handler lists.
pub open spec fn handler_command(
    text: Seq<char>,
    commands: Seq<Seq<char>>,
    handler_prefixes: Seq<Seq<char>>,
    global_prefixes: Seq<Seq<char>>,
) -> Option<InvocationView> {
    match listed_command(parse_command_spec(text, handler_prefixes), commands) {
        Some(i) => Some(i),
        None => match listed_command(parse_command_spec(text, global_prefixes), commands) {
            Some(i) => Some(i),
            None => listed_command(parse_command_spec(text, Seq::empty()), commands),
        },
    }
}

fn listed(inv: Option<CommandInvocation>, commands: &Vec<String>) -> (r: Option<CommandInvocation>)
    ensures
        invocation_view(r) == listed_command(invocation_view(inv), string_views(commands@)),
{
    match inv {
        Some(i) => {
            if contains_string(commands, i.command()) {
                Some(i)
            } else {
                None
            }
        },
        None => None,
    }
}

/// The command of `text` that a handler with `commands` and `handler_prefixes` answers.
pub fn match_handler_command(
    text: &str,
    commands: &Vec<String>,
    handler_prefixes: &Vec<String>,
    global_prefixes: &Vec<String>,
) -> (r: Option<CommandInvocation>)
    ensures
        invocation_view(r) == handler_command(
            text@,
            string_views(commands@),
            string_views(handler_prefixes@),
            string_views(global_prefixes@),
        ),
{
    let first = listed(parse_command_line_with_prefixes(text, handler_prefixes), commands);
    if first.is_some() {
        return first;
    }
    let second = listed(parse_command_line_with_prefixes(text, global_prefixes), commands);
    if second.is_some() {
        return second;
    }
    let none: Vec<String> = Vec::new();
    assert(string_views(none@) =~= Seq::<Seq<char>>::empty());
    listed(parse_command_line_with_prefixes(text, &none), commands)
}

} // verus!
