//! Character-level helpers shared by the parsers and renderers of the library.
use vstd::prelude::*;

verus! {

/// `String::push` appends one character.
pub assume_specification[ std::string::String::push ](s: &mut std::string::String, ch: char)
    ensures
        final(s)@ == old(s)@.push(ch),
;

/// `String::push_str` appends the characters of a string slice.
pub assume_specification[ std::string::String::push_str ](s: &mut std::string::String, t: &str)
    ensures
        final(s)@ == old(s)@ + t@,
;

/// The Unicode `White_Space` property, the set that `char::is_whitespace` documents.
pub open spec fn is_ws(c: char) -> bool {
    let u = c as u32;
    ||| 0x09 <= u <= 0x0D
    ||| u == 0x20
    ||| u == 0x85
    ||| u == 0xA0
    ||| u == 0x1680
    ||| 0x2000 <= u <= 0x200A
    ||| u == 0x2028
    ||| u == 0x2029
    ||| u == 0x202F
    ||| u == 0x205F
    ||| u == 0x3000
}

/// Whether `c` is a Unicode whitespace character.
pub fn is_whitespace(c: char) -> (r: bool)
    ensures
        r == is_ws(c),
{
    let u = c as u32;
    (0x09 <= u && u <= 0x0D) || u == 0x20 || u == 0x85 || u == 0xA0 || u == 0x1680 || (0x2000
        <= u && u <= 0x200A) || u == 0x2028 || u == 0x2029 || u == 0x202F || u == 0x205F || u
        == 0x3000
}

/// Index of the first non-whitespace character at or after `i` (or the length).
pub open spec fn skip_ws(s: Seq<char>, i: int) -> int
    decreases s.len() - i,
{
    if 0 <= i < s.len() && is_ws(s[i]) {
        skip_ws(s, i + 1)
    } else {
        i
    }
}

/// Index of the first whitespace character at or after `i` (or the length).
pub open spec fn find_ws(s: Seq<char>, i: int) -> int
    decreases s.len() - i,
{
    if 0 <= i < s.len() && !is_ws(s[i]) {
        find_ws(s, i + 1)
    } else {
        i
    }
}

/// Index just past the last non-whitespace character before `j` (or `lo`).
pub open spec fn trim_end_at(s: Seq<char>, lo: int, j: int) -> int
    decreases j - lo,
{
    if lo < j && j <= s.len() && is_ws(s[j - 1]) {
        trim_end_at(s, lo, j - 1)
    } else {
        j
    }
}

/// `s` with leading and trailing whitespace removed.
pub open spec fn trim_spec(s: Seq<char>) -> Seq<char> {
    let lo = skip_ws(s, 0);
    s.subrange(lo, trim_end_at(s, lo, s.len() as int))
}

pub proof fn lemma_skip_ws_bounds(s: Seq<char>, i: int)
    requires
        0 <= i <= s.len(),
    ensures
        i <= skip_ws(s, i) <= s.len(),
        skip_ws(s, i) < s.len() ==> !is_ws(s[skip_ws(s, i)]),
        forall|k: int| i <= k < skip_ws(s, i) ==> is_ws(#[trigger] s[k]),
    decreases s.len() - i,
{
    if i < s.len() && is_ws(s[i]) {
        lemma_skip_ws_bounds(s, i + 1);
    }
}

pub proof fn lemma_find_ws_bounds(s: Seq<char>, i: int)
    requires
        0 <= i <= s.len(),
    ensures
        i <= find_ws(s, i) <= s.len(),
        find_ws(s, i) < s.len() ==> is_ws(s[find_ws(s, i)]),
        forall|k: int| i <= k < find_ws(s, i) ==> !is_ws(#[trigger] s[k]),
    decreases s.len() - i,
{
    if i < s.len() && !is_ws(s[i]) {
        lemma_find_ws_bounds(s, i + 1);
    }
}

pub proof fn lemma_trim_end_bounds(s: Seq<char>, lo: int, j: int)
    requires
        0 <= lo <= j <= s.len(),
    ensures
        lo <= trim_end_at(s, lo, j) <= j,
        lo < trim_end_at(s, lo, j) ==> !is_ws(s[trim_end_at(s, lo, j) - 1]),
    decreases j - lo,
{
    if lo < j && is_ws(s[j - 1]) {
        lemma_trim_end_bounds(s, lo, j - 1);
    }
}

/// The characters of a string slice, in order.
pub fn chars_of(s: &str) -> (r: Vec<char>)
    ensures
        r@ == s@,
{
    let mut out: Vec<char> = Vec::new();
    for c in it: s.chars()
        invariant
            out@ == it.seq().take(it.index() as int),
            it.seq() == s@,
    {
        out.push(c);
    }
    out
}

/// A string holding the characters `v[lo..hi]`.
pub fn string_from_range(v: &Vec<char>, lo: usize, hi: usize) -> (r: String)
    requires
        lo <= hi <= v.len(),
    ensures
        r@ == v@.subrange(lo as int, hi as int),
{
    let mut out = String::new();
    let mut i = lo;
    while i < hi
        invariant
            lo <= i <= hi <= v.len(),
            out@ == v@.subrange(lo as int, i as int),
        decreases hi - i,
    {
        out.push(v[i]);
        i = i + 1;
    }
    out
}

/// A string holding all the characters of `v`.
pub fn string_from_chars(v: &Vec<char>) -> (r: String)
    ensures
        r@ == v@,
{
    let r = string_from_range(v, 0, v.len());
    assert(v@.subrange(0, v@.len() as int) == v@);
    r
}

/// First index at or after `i` whose character is not whitespace.
pub fn skip_ws_exec(v: &Vec<char>, i: usize) -> (r: usize)
    requires
        i <= v.len(),
    ensures
        r == skip_ws(v@, i as int),
        i <= r <= v.len(),
{
    proof {
        lemma_skip_ws_bounds(v@, i as int);
    }
    let mut j = i;
    while j < v.len() && is_whitespace(v[j])
        invariant
            i <= j <= v.len(),
            skip_ws(v@, j as int) == skip_ws(v@, i as int),
        decreases v.len() - j,
    {
        j = j + 1;
    }
    j
}

/// First index at or after `i` whose character is whitespace.
pub fn find_ws_exec(v: &Vec<char>, i: usize) -> (r: usize)
    requires
        i <= v.len(),
    ensures
        r == find_ws(v@, i as int),
        i <= r <= v.len(),
{
    proof {
        lemma_find_ws_bounds(v@, i as int);
    }
    let mut j = i;
    while j < v.len() && !is_whitespace(v[j])
        invariant
            i <= j <= v.len(),
            find_ws(v@, j as int) == find_ws(v@, i as int),
        decreases v.len() - j,
    {
        j = j + 1;
    }
    j
}

/// Index just past the last non-whitespace character of `v[lo..j]`.
pub fn trim_end_exec(v: &Vec<char>, lo: usize, j: usize) -> (r: usize)
    requires
        lo <= j <= v.len(),
    ensures
        r == trim_end_at(v@, lo as int, j as int),
        lo <= r <= j,
{
    proof {
        lemma_trim_end_bounds(v@, lo as int, j as int);
    }
    let mut k = j;
    while lo < k && is_whitespace(v[k - 1])
        invariant
            lo <= k <= j <= v.len(),
            trim_end_at(v@, lo as int, k as int) == trim_end_at(v@, lo as int, j as int),
        decreases k - lo,
    {
        k = k - 1;
    }
    k
}

/// `s` with leading and trailing whitespace removed (as `str::trim` does).
pub fn trim_string(s: &str) -> (r: String)
    ensures
        r@ == trim_spec(s@),
{
    let v = chars_of(s);
    let lo = skip_ws_exec(&v, 0);
    let hi = trim_end_exec(&v, lo, v.len());
    string_from_range(&v, lo, hi)
}

/// Whether `p` is a prefix of `s`.
pub open spec fn is_prefix(p: Seq<char>, s: Seq<char>) -> bool {
    p.len() <= s.len() && s.take(p.len() as int) == p
}

/// Whether `v[lo..hi]` starts with the characters of `p`.
pub fn range_starts_with(v: &Vec<char>, lo: usize, hi: usize, p: &Vec<char>) -> (r: bool)
    requires
        lo <= hi <= v.len(),
    ensures
        r == is_prefix(p@, v@.subrange(lo as int, hi as int)),
{
    if p.len() > hi - lo {
        return false;
    }
    let mut k: usize = 0;
    while k < p.len()
        invariant
            p.len() <= hi - lo,
            lo <= hi <= v.len(),
            k <= p.len(),
            forall|m: int| 0 <= m < k ==> v@[lo + m] == p@[m],
        decreases p.len() - k,
    {
        if v[lo + k] != p[k] {
            assert(v@.subrange(lo as int, hi as int).take(p.len() as int)[k as int] != p@[k as int]);
            return false;
        }
        k = k + 1;
    }
    assert(v@.subrange(lo as int, hi as int).take(p.len() as int) =~= p@);
    true
}

/// Whether two character sequences are equal.
pub fn chars_equal(a: &Vec<char>, b: &Vec<char>) -> (r: bool)
    ensures
        r == (a@ == b@),
{
    if a.len() != b.len() {
        return false;
    }
    let mut k: usize = 0;
    while k < a.len()
        invariant
            a.len() == b.len(),
            k <= a.len(),
            forall|m: int| 0 <= m < k ==> a@[m] == b@[m],
        decreases a.len() - k,
    {
        if a[k] != b[k] {
            return false;
        }
        k = k + 1;
    }
    assert(a@ =~= b@);
    true
}

/// Whether two strings hold the same characters.
pub fn str_equal(a: &str, b: &str) -> (r: bool)
    ensures
        r == (a@ == b@),
{
    let va = chars_of(a);
    let vb = chars_of(b);
    chars_equal(&va, &vb)
}

/// Whether `c` occurs in `s`.
pub fn str_contains_char(s: &str, c: char) -> (r: bool)
    ensures
        r == s@.contains(c),
{
    let v = chars_of(s);
    let mut k: usize = 0;
    while k < v.len()
        invariant
            v@ == s@,
            k <= v.len(),
            forall|m: int| 0 <= m < k ==> v@[m] != c,
        decreases v.len() - k,
    {
        if v[k] == c {
            assert(s@[k as int] == c);
            return true;
        }
        k = k + 1;
    }
    false
}

/// A copy of a string slice as an owned `String`.
pub fn owned(s: &str) -> (r: String)
    ensures
        r@ == s@,
{
    s.to_string()
}

/// The decimal digit for `d` (below 10).
pub open spec fn digit_char(d: nat) -> char {
    ((d + 48) as u8) as char
}

/// `n` in decimal, without leading zeros (`0` for zero).
pub open spec fn decimal_spec(n: nat) -> Seq<char>
    decreases n,
{
    if n < 10 {
        seq![digit_char(n)]
    } else {
        decimal_spec(n / 10).push(digit_char(n % 10))
    }
}

/// `n` in decimal, as `n.to_string()` writes it.
pub fn decimal(n: u64) -> (r: String)
    ensures
        r@ == decimal_spec(n as nat),
{
    let mut digits: Vec<char> = Vec::new();
    let mut m = n;
    loop
        invariant_except_break
            decimal_spec(n as nat) == decimal_spec(m as nat) + digits@.reverse(),
        ensures
            decimal_spec(n as nat) == digits@.reverse(),
        decreases m,
    {
        let d = (m % 10) as u8;
        let c = (d + 48) as char;
        assert(c == digit_char((m % 10) as nat));
        let ghost before = digits@;
        digits.push(c);
        assert(digits@.reverse() =~= seq![c] + before.reverse()) by {
            assert(digits@.drop_last() =~= before);
            assert forall|k: int| 0 <= k < digits@.len() implies digits@.reverse()[k] == (seq![c]
                + before.reverse())[k] by {
                if k > 0 {
                    assert(digits@[digits@.len() - 1 - k] == before[before.len() - 1 - (k - 1)]);
                }
            }
        }
        if m < 10 {
            assert(decimal_spec(m as nat) == seq![c]);
            assert(decimal_spec(n as nat) =~= digits@.reverse());
            break;
        }
        assert(decimal_spec(m as nat) == decimal_spec((m / 10) as nat).push(c));
        assert(decimal_spec(n as nat) =~= decimal_spec((m / 10) as nat) + digits@.reverse());
        m = m / 10;
    }
    let mut out = String::new();
    let mut i = digits.len();
    while i > 0
        invariant
            i <= digits@.len(),
            out@ == digits@.reverse().take((digits@.len() - i) as int),
        decreases i,
    {
        i = i - 1;
        out.push(digits[i]);
        assert(out@ =~= digits@.reverse().take((digits@.len() - i) as int));
    }
    assert(digits@.reverse().take(digits@.len() as int) =~= digits@.reverse());
    out
}

/// `needle` occurs in `hay` at position `i`.
pub open spec fn occurs_at(hay: Seq<char>, needle: Seq<char>, i: int) -> bool {
    0 <= i && i + needle.len() <= hay.len() && hay.subrange(i, i + needle.len()) == needle
}

/// `needle` occurs somewhere in `hay` (what `str::contains` with a string pattern decides).
pub open spec fn contains_seq(hay: Seq<char>, needle: Seq<char>) -> bool {
    exists|i: int| occurs_at(hay, needle, i)
}

/// Whether `needle` occurs in `hay`.
pub fn str_contains(hay: &str, needle: &str) -> (r: bool)
    ensures
        r == contains_seq(hay@, needle@),
{
    let h = chars_of(hay);
    let n = chars_of(needle);
    let mut i: usize = 0;
    while i <= h.len() && n.len() <= h.len() - i
        invariant
            h@ == hay@,
            n@ == needle@,
            forall|j: int| 0 <= j < i ==> !occurs_at(hay@, needle@, j),
        decreases h.len() + 1 - i,
    {
        let ghost rest = h@.subrange(i as int, h@.len() as int);
        let ghost window = h@.subrange(i as int, i + n@.len());
        assert(rest.take(n@.len() as int) =~= window);
        if range_starts_with(&h, i, h.len(), &n) {
            assert(occurs_at(hay@, needle@, i as int));
            return true;
        }
        proof {
            if n@.len() == 0 {
                assert(rest.take(0) =~= n@);
            }
        }
        i = i + 1;
    }
    assert forall|j: int| !occurs_at(hay@, needle@, j) by {
        if 0 <= j && j + needle@.len() <= hay@.len() {
            assert(j < i);
        }
    }
    false
}
/// `n` in decimal with a leading `-` when negative, as `n.to_string()` writes an `i64`.
pub open spec fn signed_decimal_spec(n: int) -> Seq<char> {
    if n < 0 {
        seq!['-'] + decimal_spec((-n) as nat)
    } else {
        decimal_spec(n as nat)
    }
}

/// `n` in decimal, as `n.to_string()` writes it.
pub fn signed_decimal(n: i64) -> (r: String)
    ensures
        r@ == signed_decimal_spec(n as int),
{
    if n < 0 {
        let magnitude: u64 = if n == i64::MIN {
            9223372036854775808u64
        } else {
            (-n) as u64
        };
        let mut out = String::new();
        out.push('-');
        out.push_str(decimal(magnitude).as_str());
        assert(out@ =~= seq!['-'] + decimal_spec((-(n as int)) as nat));
        out
    } else {
        decimal(n as u64)
    }
}

/// Every character is an ASCII digit.
pub open spec fn all_digits(d: Seq<char>) -> bool {
    forall|i: int| 0 <= i < d.len() ==> '0' <= #[trigger] d[i] <= '9'
}

/// The value of a string of ASCII digits.
pub open spec fn digits_value(d: Seq<char>) -> int
    decreases d.len(),
{
    if d.len() == 0 {
        0
    } else {
        digits_value(d.drop_last()) * 10 + (d.last() as int - '0' as int)
    }
}

/// The integer that `s` writes, as `str::parse` reads integers: an optional `+` or `-`, then
/// one or more ASCII digits and nothing else; `None` for any other text.
pub open spec fn int_text_value(s: Seq<char>) -> Option<int> {
    if s.len() > 0 && (s[0] == '+' || s[0] == '-') {
        let d = s.skip(1);
        if d.len() > 0 && all_digits(d) {
            Some(
                if s[0] == '-' {
                    -digits_value(d)
                } else {
                    digits_value(d)
                },
            )
        } else {
            None
        }
    } else if s.len() > 0 && all_digits(s) {
        Some(digits_value(s))
    } else {
        None
    }
}

/// The integer that `s` writes as `str::parse` reads an unsigned integer: an optional `+`,
/// then one or more ASCII digits and nothing else; `None` for any other text.
pub open spec fn uint_text_value(s: Seq<char>) -> Option<int> {
    if s.len() > 0 && s[0] == '+' {
        let d = s.skip(1);
        if d.len() > 0 && all_digits(d) {
            Some(digits_value(d))
        } else {
            None
        }
    } else if s.len() > 0 && all_digits(s) {
        Some(digits_value(s))
    } else {
        None
    }
}

/// Parses `s` with `str::parse::<i64>`, keeping the error's text. It succeeds exactly when `s`
/// writes an integer in the range of `i64`, and gives that integer.
#[verifier::external_body]
pub(crate) fn parse_i64_text(s: &str) -> (r: Result<i64, String>)
    ensures
        r is Ok <==> (int_text_value(s@) matches Some(v) && i64::MIN <= v <= i64::MAX),
        r matches Ok(n) ==> int_text_value(s@) == Some(n as int),
{
    s.parse::<i64>().map_err(|err| err.to_string())
}

} // verus!
