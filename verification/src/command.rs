//! Command-line parsing: splitting a message into a command and its arguments.
use vstd::prelude::*;

use crate::model::{CommandInvocation, InvocationView};
use crate::text::{
    chars_of, find_ws, is_whitespace, is_ws, lemma_find_ws_bounds, lemma_skip_ws_bounds,
    range_starts_with, skip_ws, owned, skip_ws_exec, find_ws_exec, string_from_range, int_text_value, uint_text_value, is_prefix,
};

verus! {

#[derive(Debug, Clone)]
pub struct ArgsParseError {
    message: String,
    help: Option<String>,
}

impl ArgsParseError {
    pub closed spec fn spec_message(&self) -> Seq<char> {
        self.message@
    }

    pub closed spec fn spec_help(&self) -> Option<Seq<char>> {
        self.help.deep_view()
    }

    pub fn new(message: &str) -> (r: Self)
        ensures
            r.spec_message() == message@,
            r.spec_help() is None,
    {
        ArgsParseError { message: message.to_string(), help: None }
    }

    /// An error whose message is an owned string.
    pub fn from_message(message: String) -> (r: Self)
        ensures
            r.spec_message() == message@,
            r.spec_help() is None,
    {
        ArgsParseError { message, help: None }
    }

    pub fn with_help(self, help: &str) -> (r: Self)
        ensures
            r.spec_message() == self.spec_message(),
            r.spec_help() == Some(help@),
    {
        ArgsParseError { message: self.message, help: Some(help.to_string()) }
    }

    pub fn message(&self) -> (r: &str)
        ensures
            r@ == self.spec_message(),
    {
        self.message.as_str()
    }

    pub fn help(&self) -> (r: Option<&str>)
        ensures
            r matches Some(h) ==> self.spec_help() == Some(h@),
            r is None ==> self.spec_help() is None,
    {
        match &self.help {
            Some(h) => Some(h.as_str()),
            None => None,
        }
    }

    /// The message, as the error's display form.
    pub fn to_display_string(&self) -> (r: String)
        ensures
            r@ == self.spec_message(),
    {
        self.message.clone()
    }
}

/// The character sequences of a list of string slices.
pub open spec fn str_views(ps: Seq<&str>) -> Seq<Seq<char>> {
    ps.map_values(|p: &str| p@)
}

/// The character sequences of a list of strings.
pub open spec fn string_views(ps: Seq<String>) -> Seq<Seq<char>> {
    ps.map_values(|p: String| p@)
}

/// `p` introduces a command in `token`: it is a proper prefix of it.
pub open spec fn strips_prefix(token: Seq<char>, p: Seq<char>) -> bool {
    p.len() < token.len() && token.take(p.len() as int) == p
}

/// Index of the first prefix at or after `j` that introduces a command in `token`.
pub open spec fn first_prefix_match(token: Seq<char>, prefixes: Seq<Seq<char>>, j: int) -> Option<
    int,
>
    decreases prefixes.len() - j,
{
    if j < 0 || j >= prefixes.len() {
        None
    } else if strips_prefix(token, prefixes[j]) {
        Some(j)
    } else {
        first_prefix_match(token, prefixes, j + 1)
    }
}

/// The parse of a message: leading whitespace skipped, the first word is the command token,
/// the rest (without its leading whitespace) the arguments; the first prefix, in the given
/// order, that is a proper prefix of the token is stripped from it.
pub open spec fn parse_command_spec(text: Seq<char>, prefixes: Seq<Seq<char>>) -> Option<
    InvocationView,
> {
    let start = skip_ws(text, 0);
    if start >= text.len() {
        None
    } else {
        let end = find_ws(text, start);
        let token = text.subrange(start, end);
        let args = text.subrange(skip_ws(text, end), text.len() as int);
        match first_prefix_match(token, prefixes, 0) {
            Some(j) => Some(
                InvocationView {
                    command: token.skip(prefixes[j].len() as int),
                    args,
                    prefix: Some(prefixes[j]),
                },
            ),
            None => Some(InvocationView { command: token, args, prefix: None }),
        }
    }
}

pub open spec fn invocation_view(r: Option<CommandInvocation>) -> Option<InvocationView> {
    match r {
        Some(inv) => Some(inv@),
        None => None,
    }
}

proof fn lemma_first_prefix_match(token: Seq<char>, prefixes: Seq<Seq<char>>, j: int)
    requires
        0 <= j,
    ensures
        first_prefix_match(token, prefixes, j) matches Some(k) ==> j <= k < prefixes.len()
            && strips_prefix(token, prefixes[k]),
    decreases prefixes.len() - j,
{
    if j < prefixes.len() && !strips_prefix(token, prefixes[j]) {
        lemma_first_prefix_match(token, prefixes, j + 1);
    }
}

/// Parses `text` into a command invocation (see [`parse_command_spec`]).
pub fn parse_command_line_with_prefixes(text: &str, prefixes: &Vec<String>) -> (r: Option<
    CommandInvocation,
>)
    ensures
        invocation_view(r) == parse_command_spec(text@, string_views(prefixes@)),
        r matches Some(inv) ==> inv@.command.len() > 0,
        r matches Some(inv) ==> (inv@.prefix matches Some(p) ==> p + inv@.command == text@.subrange(
            skip_ws(text@, 0),
            find_ws(text@, skip_ws(text@, 0)),
        )),
{
    let ghost pv = string_views(prefixes@);
    let v = chars_of(text);
    let start = skip_ws_exec(&v, 0);
    proof {
        lemma_skip_ws_bounds(v@, 0);
    }
    if start >= v.len() {
        return None;
    }
    let end = find_ws_exec(&v, start);
    proof {
        lemma_find_ws_bounds(v@, start as int);
    }
    let args_start = skip_ws_exec(&v, end);
    let ghost token = v@.subrange(start as int, end as int);
    let mut j: usize = 0;
    while j < prefixes.len()
        invariant
            j <= prefixes.len(),
            pv == string_views(prefixes@),
            start < end <= v.len(),
            end <= args_start <= v.len(),
            args_start == skip_ws(v@, end as int),
            v@ == text@,
            start == skip_ws(v@, 0),
            end == find_ws(v@, start as int),
            token == v@.subrange(start as int, end as int),
            first_prefix_match(token, pv, j as int) == first_prefix_match(token, pv, 0),
        decreases prefixes.len() - j,
    {
        let p = chars_of(prefixes[j].as_str());
        if p.len() < end - start && range_starts_with(&v, start, end, &p) {
            assert(pv[j as int] == p@);
            assert(strips_prefix(token, pv[j as int]));
            let command = string_from_range(&v, start + p.len(), end);
            let args = string_from_range(&v, args_start, v.len());
            let prefix = prefixes[j].clone();
            assert(command@ == token.skip(p@.len() as int));
            assert(token =~= p@ + command@);
            assert(first_prefix_match(token, pv, j as int) == Some(j as int));
            return Some(CommandInvocation::from_parts(command, args, Some(prefix)));
        }
        proof {
            assert(pv[j as int] == p@);
        }
        j = j + 1;
    }
    assert(first_prefix_match(token, pv, j as int) is None);
    let command = string_from_range(&v, start, end);
    let args = string_from_range(&v, args_start, v.len());
    Some(CommandInvocation::from_parts(command, args, None))
}

/// Parses `text` with the given command prefixes (see [`parse_command_spec`]).
pub fn parse_command_line(text: &str, prefixes: &[&str]) -> (r: Option<CommandInvocation>)
    ensures
        invocation_view(r) == parse_command_spec(text@, str_views(prefixes@)),
        r matches Some(inv) ==> inv@.command.len() > 0,
{
    let mut owned_prefixes: Vec<String> = Vec::new();
    let mut i: usize = 0;
    while i < prefixes.len()
        invariant
            i <= prefixes.len(),
            owned_prefixes@.len() == i,
            string_views(owned_prefixes@) == str_views(prefixes@).take(i as int),
        decreases prefixes.len() - i,
    {
        let ghost before = owned_prefixes@;
        let item = owned(prefixes[i]);
        owned_prefixes.push(item);
        proof {
            assert(owned_prefixes@ == before.push(item));
            assert forall|k: int| 0 <= k < i + 1 implies #[trigger] string_views(owned_prefixes@)[k]
                == str_views(prefixes@).take(i as int + 1)[k] by {
                if k < i {
                    assert(string_views(before)[k] == str_views(prefixes@).take(i as int)[k]);
                }
            }
            assert(string_views(owned_prefixes@) =~= str_views(prefixes@).take(i as int + 1));
        }
        i = i + 1;
    }
    assert(str_views(prefixes@).take(prefixes@.len() as int) =~= str_views(prefixes@));
    parse_command_line_with_prefixes(text, &owned_prefixes)
}

/// Why the argument tokenizer rejected its input.
pub enum TokenizeFailure {
    TrailingEscape,
    Unterminated,
}

/// The tokenizer as a function of the input and its state at position `i`: the tokens already
/// emitted, the current token, and the open quote, if any. A backslash takes the next character
/// literally; a quote opens a quoted run that only the same quote closes; unquoted whitespace
/// ends a non-empty token.
pub open spec fn tokenize_from(
    s: Seq<char>,
    i: int,
    out: Seq<Seq<char>>,
    buf: Seq<char>,
    quote: Option<char>,
) -> Result<Seq<Seq<char>>, TokenizeFailure>
    decreases s.len() - i,
{
    if i < 0 || i >= s.len() {
        if quote is Some {
            Err(TokenizeFailure::Unterminated)
        } else if buf.len() > 0 {
            Ok(out.push(buf))
        } else {
            Ok(out)
        }
    } else {
        let ch = s[i];
        if ch == '\\' {
            if i + 1 < s.len() {
                tokenize_from(s, i + 2, out, buf.push(s[i + 1]), quote)
            } else {
                Err(TokenizeFailure::TrailingEscape)
            }
        } else if ch == '\'' || ch == '"' {
            match quote {
                Some(active) => if active == ch {
                    tokenize_from(s, i + 1, out, buf, None)
                } else {
                    tokenize_from(s, i + 1, out, buf.push(ch), quote)
                },
                None => tokenize_from(s, i + 1, out, buf, Some(ch)),
            }
        } else if is_ws(ch) && quote is None {
            if buf.len() > 0 {
                tokenize_from(s, i + 1, out.push(buf), Seq::empty(), quote)
            } else {
                tokenize_from(s, i + 1, out, buf, quote)
            }
        } else {
            tokenize_from(s, i + 1, out, buf.push(ch), quote)
        }
    }
}

/// The tokens of an argument string, or why it has none.
pub open spec fn tokenize_spec(s: Seq<char>) -> Result<Seq<Seq<char>>, TokenizeFailure> {
    tokenize_from(s, 0, Seq::empty(), Seq::empty(), None)
}

/// Inside a quoted run, every character up to the closing quote joins the current token as it
/// is (the other kind of quote and whitespace included), provided none is a backslash: the run
/// from `i` to the closing quote at `j` adds exactly `s[i..j]`, and the quote closes the run.
pub proof fn law_quoted_run_kept(
    s: Seq<char>,
    i: int,
    j: int,
    out: Seq<Seq<char>>,
    buf: Seq<char>,
    q: char,
)
    requires
        q == '"' || q == '\'',
        0 <= i <= j < s.len(),
        s[j] == q,
        forall|k: int| i <= k < j ==> #[trigger] s[k] != q && s[k] != '\\',
    ensures
        tokenize_from(s, i, out, buf, Some(q)) == tokenize_from(
            s,
            j + 1,
            out,
            buf + s.subrange(i, j),
            None,
        ),
    decreases j - i,
{
    if i == j {
        assert(buf + s.subrange(i, j) =~= buf);
    } else {
        assert(s[i] != q && s[i] != '\\');
        law_quoted_run_kept(s, i + 1, j, out, buf.push(s[i]), q);
        assert(buf.push(s[i]) + s.subrange(i + 1, j) =~= buf + s.subrange(i, j));
    }
}

/// A quoted argument is one token holding exactly what stands between the quotes, where that
/// is not empty and holds no backslash and no quote of the same kind.
pub proof fn law_quoted_argument_is_one_token(t: Seq<char>, q: char)
    requires
        q == '"' || q == '\'',
        t.len() > 0,
        forall|k: int| 0 <= k < t.len() ==> #[trigger] t[k] != q && t[k] != '\\',
    ensures
        tokenize_spec(seq![q] + t + seq![q]) == Ok::<Seq<Seq<char>>, TokenizeFailure>(seq![t]),
{
    let s = seq![q] + t + seq![q];
    let n = s.len() as int;
    assert(s[0] == q);
    assert(s[n - 1] == q);
    assert forall|k: int| 1 <= k < n - 1 implies #[trigger] s[k] != q && s[k] != '\\' by {
        assert(s[k] == t[k - 1]);
    }
    assert(tokenize_from(s, 0, Seq::empty(), Seq::empty(), None) == tokenize_from(
        s,
        1,
        Seq::empty(),
        Seq::empty(),
        Some(q),
    ));
    law_quoted_run_kept(s, 1, n - 1, Seq::empty(), Seq::empty(), q);
    assert(Seq::<char>::empty() + s.subrange(1, n - 1) =~= t);
    assert(tokenize_from(s, n, Seq::empty(), t, None) == Ok::<Seq<Seq<char>>, TokenizeFailure>(
        Seq::<Seq<char>>::empty().push(t),
    ));
    assert(Seq::<Seq<char>>::empty().push(t) =~= seq![t]);
}

/// Every token is non-empty.
pub open spec fn all_nonempty(toks: Seq<Seq<char>>) -> bool {
    forall|k: int| 0 <= k < toks.len() ==> #[trigger] toks[k].len() > 0
}

/// The tokenizer never emits an empty token.
pub proof fn lemma_tokens_nonempty(
    s: Seq<char>,
    i: int,
    out: Seq<Seq<char>>,
    buf: Seq<char>,
    quote: Option<char>,
)
    requires
        forall|k: int| 0 <= k < out.len() ==> #[trigger] out[k].len() > 0,
    ensures
        tokenize_from(s, i, out, buf, quote) is Ok ==> all_nonempty(
            tokenize_from(s, i, out, buf, quote)->Ok_0,
        ),
    decreases s.len() - i,
{
    if i < 0 || i >= s.len() {
    } else {
        let ch = s[i];
        if ch == '\\' {
            if i + 1 < s.len() {
                lemma_tokens_nonempty(s, i + 2, out, buf.push(s[i + 1]), quote);
            }
        } else if ch == '\'' || ch == '"' {
            match quote {
                Some(active) => if active == ch {
                    lemma_tokens_nonempty(s, i + 1, out, buf, None);
                } else {
                    lemma_tokens_nonempty(s, i + 1, out, buf.push(ch), quote);
                },
                None => lemma_tokens_nonempty(s, i + 1, out, buf, Some(ch)),
            }
        } else if is_ws(ch) && quote is None {
            if buf.len() > 0 {
                let o2 = out.push(buf);
                assert forall|k: int| 0 <= k < o2.len() implies #[trigger] o2[k].len() > 0 by {
                    if k < out.len() {
                        assert(o2[k] == out[k]);
                    }
                }
                lemma_tokens_nonempty(s, i + 1, o2, Seq::empty(), quote);
            } else {
                lemma_tokens_nonempty(s, i + 1, out, buf, quote);
            }
        } else {
            lemma_tokens_nonempty(s, i + 1, out, buf.push(ch), quote);
        }
    }
}

/// Splits an argument string into tokens, honouring quotes and backslash escapes.
pub fn tokenize_command_args(args: &str) -> (r: Result<Vec<String>, ArgsParseError>)
    ensures
        r matches Ok(toks) ==> tokenize_spec(args@) == Ok::<Seq<Seq<char>>, TokenizeFailure>(
            string_views(toks@),
        ),
        r matches Ok(toks) ==> forall|k: int| 0 <= k < toks@.len() ==> #[trigger] toks@[k]@.len()
            > 0,
        r matches Err(e) ==> (tokenize_spec(args@) matches Err(TokenizeFailure::TrailingEscape)
            && e.spec_message() == "Trailing escape in arguments"@) || (tokenize_spec(
            args@,
        ) matches Err(TokenizeFailure::Unterminated) && e.spec_message()
            == "Unterminated quoted argument"@),
{
    let v = chars_of(args);
    let mut out: Vec<String> = Vec::new();
    let mut buf = String::new();
    let mut quote: Option<char> = None;
    let mut i: usize = 0;
    assert(string_views(out@) =~= Seq::<Seq<char>>::empty());
    while i < v.len()
        invariant
            i <= v.len(),
            v@ == args@,
            tokenize_from(v@, i as int, string_views(out@), buf@, quote) == tokenize_spec(args@),
        decreases v.len() - i,
    {
        let ch = v[i];
        if ch == '\\' {
            if i + 1 < v.len() {
                buf.push(v[i + 1]);
                i = i + 2;
            } else {
                return Err(ArgsParseError::new("Trailing escape in arguments"));
            }
        } else if ch == '\'' || ch == '"' {
            match quote {
                Some(active) => {
                    if active == ch {
                        quote = None;
                    } else {
                        buf.push(ch);
                    }
                },
                None => {
                    quote = Some(ch);
                },
            }
            i = i + 1;
        } else if is_whitespace(ch) && quote.is_none() {
            if !buf.as_str().is_empty() {
                let ghost old_out = string_views(out@);
                out.push(buf);
                buf = String::new();
                proof {
                    assert(string_views(out@) =~= old_out.push(string_views(out@).last()));
                }
            }
            i = i + 1;
        } else {
            buf.push(ch);
            i = i + 1;
        }
    }
    if quote.is_some() {
        return Err(ArgsParseError::new("Unterminated quoted argument"));
    }
    if !buf.as_str().is_empty() {
        let ghost old_out = string_views(out@);
        out.push(buf);
        proof {
            assert(string_views(out@) =~= old_out.push(string_views(out@).last()));
        }
    }
    assert(tokenize_spec(args@) == Ok::<Seq<Seq<char>>, TokenizeFailure>(string_views(out@)));
    proof {
        let toks = string_views(out@);
        lemma_tokens_nonempty(args@, 0, Seq::empty(), Seq::empty(), None);
        assert(tokenize_from(args@, 0, Seq::empty(), Seq::empty(), None) == Ok::<
            Seq<Seq<char>>,
            TokenizeFailure,
        >(toks));
        assert(all_nonempty(toks));
        assert forall|k: int| 0 <= k < out@.len() implies #[trigger] out@[k]@.len() > 0 by {
            assert(string_views(out@)[k] == out@[k]@);
            assert(string_views(out@)[k].len() > 0);
        }
    }
    Ok(out)
}

/// A value that a command argument can be parsed into.
pub trait ArgValue: Sized {
    /// Whether `token` is the text of some value.
    spec fn spec_parses(token: Seq<char>) -> bool;

    /// Whether `token` is the text of `value`.
    spec fn spec_parses_as(token: Seq<char>, value: Self) -> bool;

    /// Parses one argument token, or describes why it cannot be parsed.
    fn parse_arg(token: &str) -> (r: Result<Self, String>)
        ensures
            r is Ok <==> Self::spec_parses(token@),
            r matches Ok(v) ==> Self::spec_parses_as(token@, v),
    ;
}

/// Parses `s` with `str::parse::<u64>`, keeping the error's text. As the standard library
/// documents, it succeeds exactly when `s` is an optional `+` and ASCII digits whose value
/// fits in a `u64`, and gives that value.
#[verifier::external_body]
fn parse_u64(s: &str) -> (r: Result<u64, String>)
    ensures
        r is Ok <==> (uint_text_value(s@) matches Some(v) && v <= u64::MAX),
        r matches Ok(n) ==> uint_text_value(s@) == Some(n as int),
{
    s.parse::<u64>().map_err(|err| err.to_string())
}

/// Parses `s` with `str::parse::<i32>`, keeping the error's text: it succeeds exactly when
/// `s` writes an integer in the range of `i32`, and gives that integer.
#[verifier::external_body]
fn parse_i32(s: &str) -> (r: Result<i32, String>)
    ensures
        r is Ok <==> (int_text_value(s@) matches Some(v) && i32::MIN <= v <= i32::MAX),
        r matches Ok(n) ==> int_text_value(s@) == Some(n as int),
{
    s.parse::<i32>().map_err(|err| err.to_string())
}

/// Parses `s` with `str::parse::<u32>`, keeping the error's text: it succeeds exactly when
/// `s` is an optional `+` and ASCII digits whose value fits in a `u32`.
#[verifier::external_body]
fn parse_u32(s: &str) -> (r: Result<u32, String>)
    ensures
        r is Ok <==> (uint_text_value(s@) matches Some(v) && v <= u32::MAX),
        r matches Ok(n) ==> uint_text_value(s@) == Some(n as int),
{
    s.parse::<u32>().map_err(|err| err.to_string())
}

/// Parses `s` with `str::parse::<usize>`, keeping the error's text: it succeeds exactly when
/// `s` is an optional `+` and ASCII digits whose value fits in a `usize`.
#[verifier::external_body]
fn parse_usize(s: &str) -> (r: Result<usize, String>)
    ensures
        r is Ok <==> (uint_text_value(s@) matches Some(v) && v <= usize::MAX),
        r matches Ok(n) ==> uint_text_value(s@) == Some(n as int),
{
    s.parse::<usize>().map_err(|err| err.to_string())
}

/// Parses `s` with `str::parse::<bool>`, keeping the error's text: as documented, only
/// `true` and `false` are accepted.
#[verifier::external_body]
fn parse_bool(s: &str) -> (r: Result<bool, String>)
    ensures
        r is Ok <==> (s@ == "true"@ || s@ == "false"@),
        r matches Ok(b) ==> b == (s@ == "true"@),
{
    s.parse::<bool>().map_err(|err| err.to_string())
}

impl ArgValue for i64 {
    open spec fn spec_parses(token: Seq<char>) -> bool {
        int_text_value(token) matches Some(v) && i64::MIN <= v <= i64::MAX
    }

    open spec fn spec_parses_as(token: Seq<char>, value: Self) -> bool {
        int_text_value(token) == Some(value as int)
    }

    fn parse_arg(token: &str) -> (r: Result<Self, String>) {
        crate::text::parse_i64_text(token)
    }
}

impl ArgValue for u64 {
    open spec fn spec_parses(token: Seq<char>) -> bool {
        uint_text_value(token) matches Some(v) && v <= u64::MAX
    }

    open spec fn spec_parses_as(token: Seq<char>, value: Self) -> bool {
        uint_text_value(token) == Some(value as int)
    }

    fn parse_arg(token: &str) -> (r: Result<Self, String>) {
        parse_u64(token)
    }
}

impl ArgValue for i32 {
    open spec fn spec_parses(token: Seq<char>) -> bool {
        int_text_value(token) matches Some(v) && i32::MIN <= v <= i32::MAX
    }

    open spec fn spec_parses_as(token: Seq<char>, value: Self) -> bool {
        int_text_value(token) == Some(value as int)
    }

    fn parse_arg(token: &str) -> (r: Result<Self, String>) {
        parse_i32(token)
    }
}

impl ArgValue for u32 {
    open spec fn spec_parses(token: Seq<char>) -> bool {
        uint_text_value(token) matches Some(v) && v <= u32::MAX
    }

    open spec fn spec_parses_as(token: Seq<char>, value: Self) -> bool {
        uint_text_value(token) == Some(value as int)
    }

    fn parse_arg(token: &str) -> (r: Result<Self, String>) {
        parse_u32(token)
    }
}

impl ArgValue for usize {
    open spec fn spec_parses(token: Seq<char>) -> bool {
        uint_text_value(token) matches Some(v) && v <= usize::MAX
    }

    open spec fn spec_parses_as(token: Seq<char>, value: Self) -> bool {
        uint_text_value(token) == Some(value as int)
    }

    fn parse_arg(token: &str) -> (r: Result<Self, String>) {
        parse_usize(token)
    }
}

impl ArgValue for bool {
    open spec fn spec_parses(token: Seq<char>) -> bool {
        token == "true"@ || token == "false"@
    }

    open spec fn spec_parses_as(token: Seq<char>, value: Self) -> bool {
        value == (token == "true"@)
    }

    fn parse_arg(token: &str) -> (r: Result<Self, String>) {
        parse_bool(token)
    }
}

impl ArgValue for String {
    open spec fn spec_parses(token: Seq<char>) -> bool {
        true
    }

    open spec fn spec_parses_as(token: Seq<char>, value: Self) -> bool {
        value@ == token
    }

    fn parse_arg(token: &str) -> (r: Result<Self, String>) {
        Ok(owned(token))
    }
}

/// Reads the argument at `*index` as a `T` and advances `*index` past it.
pub fn parse_typed_arg<T: ArgValue>(tokens: &[String], index: &mut usize, name: &str) -> (r: Result<
    T,
    ArgsParseError,
>)
    ensures
        *old(index) >= tokens@.len() ==> *final(index) == *old(index) && (r matches Err(e)
            && e.spec_message() == "Missing argument: "@ + name@),
        *old(index) < tokens@.len() ==> {
            let token = tokens@[*old(index) as int]@;
            &&& *final(index) == *old(index) + 1
            &&& r is Ok <==> T::spec_parses(token)
            &&& r matches Ok(v) ==> T::spec_parses_as(token, v)
            &&& r matches Err(e) ==> is_prefix(
                "Failed to parse argument `"@ + name@ + "`: "@,
                e.spec_message(),
            )
        },
{
    if *index >= tokens.len() {
        let mut message = String::new();
        message.push_str("Missing argument: ");
        message.push_str(name);
        return Err(ArgsParseError::from_message(message));
    }
    let value = &tokens[*index];
    *index = *index + 1;
    match T::parse_arg(value.as_str()) {
        Ok(parsed) => Ok(parsed),
        Err(err) => {
            let mut message = String::new();
            message.push_str("Failed to parse argument `");
            message.push_str(name);
            message.push_str("`: ");
            let ghost head = "Failed to parse argument `"@ + name@ + "`: "@;
            message.push_str(err.as_str());
            proof {
                assert(message@ == head + err@);
                assert(message@.take(head.len() as int) =~= head);
            }
            Err(ArgsParseError::from_message(message))
        },
    }
}

/// Fails when a token remains at `index`.
pub fn ensure_no_extra_args(tokens: &[String], index: usize) -> (r: Result<(), ArgsParseError>)
    ensures
        r is Ok <==> index >= tokens@.len(),
        r matches Err(e) ==> e.spec_message() == "Unexpected extra argument: "@ + tokens@[index as int]@,
        r matches Err(e) ==> e.spec_help() is None,
{
    if index < tokens.len() {
        let mut message = String::new();
        message.push_str("Unexpected extra argument: ");
        message.push_str(tokens[index].as_str());
        return Err(ArgsParseError::from_message(message));
    }
    Ok(())
}

} // verus!
