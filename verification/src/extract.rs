//! Values that handlers take out of an incoming message: who sent it, where, and the
//! words that follow the command.
use vstd::prelude::*;
use crate::text::{
    chars_of, find_ws, find_ws_exec, is_ws, lemma_find_ws_bounds, lemma_skip_ws_bounds, skip_ws,
    skip_ws_exec, string_from_range,
};
use crate::engine::join;
use crate::command::{string_views, ArgValue};
use crate::text::{decimal, decimal_spec};

verus! {

/// The words of `s` from index `i` on: the maximal runs of non-whitespace characters,
/// in order (what `split_whitespace` yields).
pub open spec fn words_from(s: Seq<char>, i: int) -> Seq<Seq<char>>
    decreases s.len() - i,
{
    let a = skip_ws(s, i);
    let b = find_ws(s, a);
    if 0 <= i && a < s.len() && i < b <= s.len() {
        seq![s.subrange(a, b)] + words_from(s, b)
    } else {
        Seq::empty()
    }
}

/// The words of `s`.
pub open spec fn words(s: Seq<char>) -> Seq<Seq<char>> {
    words_from(s, 0)
}

/// The words of `s` after the first one (the command word).
pub open spec fn words_after_command(s: Seq<char>) -> Seq<Seq<char>> {
    if words(s).len() == 0 {
        Seq::empty()
    } else {
        words(s).drop_first()
    }
}

/// One step of `words_from`: where a word starts at or after `i`, it is the first word and
/// the rest begins where it ends; where none does, there are no words.
pub proof fn lemma_words_step(s: Seq<char>, i: int)
    requires
        0 <= i <= s.len(),
    ensures
        skip_ws(s, i) < s.len() ==> {
            let a = skip_ws(s, i);
            let b = find_ws(s, a);
            &&& a < b <= s.len()
            &&& words_from(s, i) == seq![s.subrange(a, b)] + words_from(s, b)
        },
        skip_ws(s, i) >= s.len() ==> words_from(s, i) == Seq::<Seq<char>>::empty(),
{
    lemma_skip_ws_bounds(s, i);
    let a = skip_ws(s, i);
    if a < s.len() {
        lemma_find_ws_bounds(s, a);
        assert(!is_ws(s[a]));
    }
}

/// The words of `v` from index `start` on.
pub fn words_of_chars(v: &Vec<char>, start: usize) -> (r: Vec<String>)
    requires
        start <= v.len(),
    ensures
        string_views(r@) == words_from(v@, start as int),
{
    let mut out: Vec<String> = Vec::new();
    let mut i = start;
    while i < v.len()
        invariant
            start <= i <= v.len(),
            string_views(out@) + words_from(v@, i as int) == words_from(
                v@,
                start as int,
            ),
        decreases v.len() - i,
    {
        proof {
            lemma_words_step(v@, i as int);
        }
        let a = skip_ws_exec(v, i);
        if a == v.len() {
            proof {
                assert(string_views(out@) + words_from(v@, i as int)
                    =~= string_views(out@));
            }
            proof {
                lemma_words_step(v@, v.len() as int);
            }
            i = v.len();
        } else {
        let b = find_ws_exec(v, a);
        let word = string_from_range(v, a, b);
        let ghost before = string_views(out@);
        out.push(word);
        proof {
            assert(string_views(out@) =~= before.push(v@.subrange(a as int, b as int)));
            assert(before + words_from(v@, i as int) =~= before.push(v@.subrange(a as int, b as int))
                + words_from(v@, b as int));
        }
        i = b;
        }
    }
    proof {
        lemma_words_step(v@, i as int);
        assert(string_views(out@) + words_from(v@, i as int)
            =~= string_views(out@));
    }
    out
}

/// The words of `text`, in order.
pub fn split_words(text: &str) -> (r: Vec<String>)
    ensures
        string_views(r@) == words(text@),
{
    let v = chars_of(text);
    words_of_chars(&v, 0)
}

/// The words of `text` after the first: the arguments of a command line.
pub fn command_arguments(text: &str) -> (r: Vec<String>)
    ensures
        string_views(r@) == words_after_command(text@),
{
    let all = split_words(text);
    let mut out: Vec<String> = Vec::new();
    if all.len() == 0 {
        proof {
            assert(string_views(out@) =~= Seq::<Seq<char>>::empty());
        }
        return out;
    }
    let mut k: usize = 1;
    while k < all.len()
        invariant
            1 <= k <= all.len(),
            string_views(all@) == words(text@),
            string_views(out@) == string_views(all@).subrange(
                1,
                k as int,
            ),
        decreases all.len() - k,
    {
        let w = crate::text::owned(all[k].as_str());
        let ghost before = string_views(out@);
        out.push(w);
        k = k + 1;
        proof {
            assert(string_views(out@) =~= before.push(all@[k - 1]@));
            assert(string_views(all@).subrange(1, k as int) =~= string_views(all@).subrange(
                1,
                k - 1,
            ).push(all@[k - 1]@));
            assert(string_views(out@) =~= string_views(all@).subrange(
                1,
                k as int,
            ));
        }
    }
    proof {
        assert(words(text@).drop_first() =~= string_views(all@).subrange(1, all.len() as int));
    }
    out
}

/// Who sent the message.
pub struct UserId(pub String);

/// The group the message came from; `None` for a private message.
pub struct GroupId(pub Option<String>);

/// The text after the command word: the remaining words, joined by single spaces.
pub struct Rest(pub String);

/// Arguments parsed from the words after the command.
pub struct Args<T>(pub T);

impl UserId {
    /// The sender of a message with sender id `user_id`.
    pub fn from_user(user_id: &str) -> (r: Self)
        ensures
            r.0@ == user_id@,
    {
        UserId(user_id.to_string())
    }
}

impl GroupId {
    /// The group of a message with group id `group_id`.
    pub fn from_group(group_id: Option<&str>) -> (r: Self)
        ensures
            r.0 is Some <==> group_id is Some,
            group_id is Some ==> r.0.unwrap()@ == group_id.unwrap()@,
    {
        match group_id {
            Some(g) => GroupId(Some(g.to_string())),
            None => GroupId(None),
        }
    }
}

impl Rest {
    /// The rest of `text` after its first word: the other words, joined by one space each.
    pub fn from_text(text: &str) -> (r: Self)
        ensures
            r.0@ == join(words_after_command(text@), " "@),
    {
        let args = command_arguments(text);
        let mut out = String::new();
        let mut i: usize = 0;
        while i < args.len()
            invariant
                i <= args.len(),
                string_views(args@) == words_after_command(text@),
                out@ == join(string_views(args@).take(i as int), " "@),
            decreases args.len() - i,
        {
            let ghost items = string_views(args@);
            proof {
                assert(items.take(i as int + 1) =~= items.take(i as int).push(items[i as int]));
                crate::engine::lemma_join_push(items.take(i as int), " "@, items[i as int]);
            }
            crate::engine::push_joined(&mut out, i, " ", args[i].as_str());
            i = i + 1;
        }
        proof {
            assert(string_views(args@).take(args.len() as int) =~= args@.map_values(
                |w: String| w@,
            ));
        }
        Rest(out)
    }
}


/// The error for a command line that ends before argument number `place` (counted from 1).
pub open spec fn missing_argument_message(place: nat) -> Seq<char> {
    "Missing argument "@ + decimal_spec(place)
}

/// Reads the word at `*index` as a `T` and moves past it; where the words have run out,
/// reports argument number `place` as missing.
pub fn take_arg<T: ArgValue>(words: &[String], index: &mut usize, place: u64) -> (r: Result<
    T,
    String,
>)
    requires
        *old(index) <= words@.len(),
    ensures
        *old(index) == words@.len() ==> *final(index) == *old(index) && (r matches Err(e)
            && e@ == missing_argument_message(place as nat)),
        *old(index) < words@.len() ==> {
            let token = words@[*old(index) as int]@;
            &&& *final(index) == *old(index) + 1
            &&& r is Ok <==> T::spec_parses(token)
            &&& r matches Ok(v) ==> T::spec_parses_as(token, v)
        },
{
    if *index >= words.len() {
        let mut message = String::new();
        message.push_str("Missing argument ");
        let number = decimal(place);
        message.push_str(number.as_str());
        return Err(message);
    }
    let token = words[*index].as_str();
    *index = *index + 1;
    T::parse_arg(token)
}

/// A tuple of argument values, each read from the next word of a command line.
pub trait TupleArgs: Sized {
    /// Whether `ws` holds, from its first word on, a word that parses for every place.
    spec fn spec_parses_words(ws: Seq<Seq<char>>) -> bool;

    /// Whether the first words of `ws` are the texts of the places of `value`.
    spec fn spec_parses_words_as(ws: Seq<Seq<char>>, value: Self) -> bool;

    /// The first place (counted from 1) for which `ws` has no word left, where every place
    /// before it parsed; `None` where a word fails to parse first, or nothing is missing.
    spec fn spec_missing_place(ws: Seq<Seq<char>>) -> Option<nat>;

    /// Reads one value per place from `words`, starting at `*index`.
    fn parse_from_words(words: &[String], index: &mut usize) -> (r: Result<Self, String>)
        requires
            *old(index) <= words@.len(),
        ensures
            *old(index) <= *final(index) <= words@.len(),
            r is Ok <==> Self::spec_parses_words(string_views(words@).skip(*old(index) as int)),
            r matches Ok(v) ==> Self::spec_parses_words_as(
                string_views(words@).skip(*old(index) as int),
                v,
            ),
            Self::spec_missing_place(string_views(words@).skip(*old(index) as int)) matches Some(
                k,
            ) ==> (r matches Err(e) && e@ == missing_argument_message(k)),
    ;
}

impl<A: ArgValue> TupleArgs for (A,) {
    open spec fn spec_parses_words(ws: Seq<Seq<char>>) -> bool {
        ws.len() >= 1 && A::spec_parses(ws[0])
    }

    open spec fn spec_parses_words_as(ws: Seq<Seq<char>>, value: Self) -> bool {
        ws.len() >= 1 && A::spec_parses_as(ws[0], value.0)
    }

    open spec fn spec_missing_place(ws: Seq<Seq<char>>) -> Option<nat> {
        if ws.len() < 1 {
            Some(1)
        } else {
            None
        }
    }

    fn parse_from_words(words: &[String], index: &mut usize) -> (r: Result<Self, String>) {
        let ghost ws = string_views(words@).skip(*index as int);
        let ghost start = *index as int;
        proof {
            assert(ws.len() >= 1 ==> ws[0] == words@[start]@);
        }
        match take_arg::<A>(words, index, 1) {
            Ok(a) => Ok((a,)),
            Err(e) => Err(e),
        }
    }
}

impl<A: ArgValue, B: ArgValue> TupleArgs for (A, B) {
    open spec fn spec_parses_words(ws: Seq<Seq<char>>) -> bool {
        ws.len() >= 2 && A::spec_parses(ws[0]) && B::spec_parses(ws[1])
    }

    open spec fn spec_parses_words_as(ws: Seq<Seq<char>>, value: Self) -> bool {
        ws.len() >= 2 && A::spec_parses_as(ws[0], value.0) && B::spec_parses_as(ws[1], value.1)
    }

    open spec fn spec_missing_place(ws: Seq<Seq<char>>) -> Option<nat> {
        if ws.len() < 1 {
            Some(1)
        } else if !A::spec_parses(ws[0]) {
            None
        } else if ws.len() < 2 {
            Some(2)
        } else {
            None
        }
    }

    fn parse_from_words(words: &[String], index: &mut usize) -> (r: Result<Self, String>) {
        let ghost ws = string_views(words@).skip(*index as int);
        let ghost start = *index as int;
        proof {
            assert(ws.len() >= 1 ==> ws[0] == words@[start]@);
            assert(ws.len() >= 2 ==> ws[1] == words@[start + 1]@);
        }
        let a = match take_arg::<A>(words, index, 1) {
            Ok(a) => a,
            Err(e) => return Err(e),
        };
        let b = match take_arg::<B>(words, index, 2) {
            Ok(b) => b,
            Err(e) => return Err(e),
        };
        Ok((a, b))
    }
}

impl<A: ArgValue, B: ArgValue, C: ArgValue> TupleArgs for (A, B, C) {
    open spec fn spec_parses_words(ws: Seq<Seq<char>>) -> bool {
        ws.len() >= 3 && A::spec_parses(ws[0]) && B::spec_parses(ws[1]) && C::spec_parses(ws[2])
    }

    open spec fn spec_parses_words_as(ws: Seq<Seq<char>>, value: Self) -> bool {
        &&& ws.len() >= 3
        &&& A::spec_parses_as(ws[0], value.0)
        &&& B::spec_parses_as(ws[1], value.1)
        &&& C::spec_parses_as(ws[2], value.2)
    }

    open spec fn spec_missing_place(ws: Seq<Seq<char>>) -> Option<nat> {
        if ws.len() < 1 {
            Some(1)
        } else if !A::spec_parses(ws[0]) {
            None
        } else if ws.len() < 2 {
            Some(2)
        } else if !B::spec_parses(ws[1]) {
            None
        } else if ws.len() < 3 {
            Some(3)
        } else {
            None
        }
    }

    fn parse_from_words(words: &[String], index: &mut usize) -> (r: Result<Self, String>) {
        let ghost ws = string_views(words@).skip(*index as int);
        let ghost start = *index as int;
        proof {
            assert(ws.len() >= 1 ==> ws[0] == words@[start]@);
            assert(ws.len() >= 2 ==> ws[1] == words@[start + 1]@);
            assert(ws.len() >= 3 ==> ws[2] == words@[start + 2]@);
        }
        let a = match take_arg::<A>(words, index, 1) {
            Ok(a) => a,
            Err(e) => return Err(e),
        };
        let b = match take_arg::<B>(words, index, 2) {
            Ok(b) => b,
            Err(e) => return Err(e),
        };
        let c = match take_arg::<C>(words, index, 3) {
            Ok(c) => c,
            Err(e) => return Err(e),
        };
        Ok((a, b, c))
    }
}

impl<T: TupleArgs> Args<T> {
    /// The arguments of the command line `text`: its words after the first, read into `T`.
    pub fn from_text(text: &str) -> (r: Result<Self, String>)
        ensures
            r is Ok <==> T::spec_parses_words(words_after_command(text@)),
            r matches Ok(a) ==> T::spec_parses_words_as(words_after_command(text@), a.0),
            T::spec_missing_place(words_after_command(text@)) matches Some(k) ==> (r matches Err(
                e,
            ) && e@ == missing_argument_message(k)),
    {
        let args = command_arguments(text);
        let mut index: usize = 0;
        proof {
            assert(string_views(args@).skip(0) =~= string_views(args@));
        }
        match T::parse_from_words(args.as_slice(), &mut index) {
            Ok(v) => Ok(Args(v)),
            Err(e) => Err(e),
        }
    }
}

} // verus!
