//! Debug info: source locations of instruction addresses, read from the
//! output of `llvm-addr2line -f` (a function-name line and a `file:line`
//! line per address).

use std::collections::HashMap;
use vstd::prelude::*;

use crate::text::{push_char, push_str, str_chars};

verus! {

broadcast use vstd::std_specs::hash::group_hash_axioms;

/// Whether a character has the Unicode `White_Space` property.
pub open spec fn is_ws(c: char) -> bool {
    ||| '\u{9}' <= c <= '\u{d}'
    ||| c == ' '
    ||| c == '\u{85}'
    ||| c == '\u{a0}'
    ||| c == '\u{1680}'
    ||| '\u{2000}' <= c <= '\u{200a}'
    ||| c == '\u{2028}'
    ||| c == '\u{2029}'
    ||| c == '\u{202f}'
    ||| c == '\u{205f}'
    ||| c == '\u{3000}'
}

/// Whether a character is white space (Unicode `White_Space`).
pub fn is_whitespace(c: char) -> (r: bool)
    ensures
        r == is_ws(c),
{
    ('\u{9}' <= c && c <= '\u{d}') || c == ' ' || c == '\u{85}' || c == '\u{a0}' || c == '\u{1680}'
        || ('\u{2000}' <= c && c <= '\u{200a}') || c == '\u{2028}' || c == '\u{2029}' || c
        == '\u{202f}' || c == '\u{205f}' || c == '\u{3000}'
}

/// Number of leading white-space characters.
pub open spec fn lead_ws(s: Seq<char>) -> int
    decreases s.len(),
{
    if s.len() > 0 && is_ws(s[0]) {
        1 + lead_ws(s.drop_first())
    } else {
        0
    }
}

/// Number of trailing white-space characters.
pub open spec fn trail_ws(s: Seq<char>) -> int
    decreases s.len(),
{
    if s.len() > 0 && is_ws(s.last()) {
        1 + trail_ws(s.drop_last())
    } else {
        0
    }
}

/// `s` without leading and trailing white space.
pub open spec fn trim(s: Seq<char>) -> Seq<char> {
    let a = lead_ws(s);
    let t = s.skip(a);
    t.take(t.len() - trail_ws(t))
}

/// The lines of a text: split at `\n`, a `\r` before the `\n` dropped, no
/// final empty line after a trailing `\n`.
pub open spec fn text_lines(s: Seq<char>) -> Seq<Seq<char>>
    decreases s.len(),
{
    if s.len() == 0 {
        Seq::empty()
    } else {
        let i = first_newline(s, 0);
        proof {
            lemma_first_newline_range(s, 0);
        }
        if i < s.len() {
            seq![strip_cr(s.take(i))] + text_lines(s.skip(i + 1))
        } else {
            seq![strip_cr(s)]
        }
    }
}

/// Index of the first `\n` at or after `k` (the length if there is none).
pub open spec fn first_newline(s: Seq<char>, k: int) -> int
    decreases s.len() - k,
{
    if k < 0 || k >= s.len() {
        s.len() as int
    } else if s[k] == '\n' {
        k
    } else {
        first_newline(s, k + 1)
    }
}

pub proof fn lemma_first_newline_range(s: Seq<char>, k: int)
    requires
        0 <= k,
    ensures
        0 <= first_newline(s, k) <= s.len(),
    decreases s.len() - k,
{
    if k < s.len() && s[k] != '\n' {
        lemma_first_newline_range(s, k + 1);
    }
}

/// A line without its final `\r`.
pub open spec fn strip_cr(s: Seq<char>) -> Seq<char> {
    if s.len() > 0 && s.last() == '\r' {
        s.drop_last()
    } else {
        s
    }
}

/// Index of the last `:` in `s`.
pub open spec fn last_colon(s: Seq<char>) -> Option<int>
    decreases s.len(),
{
    if s.len() == 0 {
        None
    } else if s.last() == ':' {
        Some(s.len() - 1)
    } else {
        last_colon(s.drop_last())
    }
}

/// The first white-space separated word of `s`.
pub open spec fn first_word(s: Seq<char>) -> Option<Seq<char>> {
    let t = s.skip(lead_ws(s));
    if t.len() == 0 {
        None
    } else {
        Some(t.take(word_len(t, 0)))
    }
}

/// Length of the run of non-white-space characters at the start of `s.skip(k)`, plus `k`.
pub open spec fn word_len(s: Seq<char>, k: int) -> int
    decreases s.len() - k,
{
    if k < 0 || k >= s.len() || is_ws(s[k]) {
        k
    } else {
        word_len(s, k + 1)
    }
}

/// Value of a decimal digit string.
pub open spec fn digits_value(s: Seq<char>) -> int
    decreases s.len(),
{
    if s.len() == 0 {
        0
    } else {
        digits_value(s.drop_last()) * 10 + (s.last() as int - '0' as int)
    }
}

/// Whether every character is an ASCII digit.
pub open spec fn all_digits(s: Seq<char>) -> bool {
    forall|i: int| 0 <= i < s.len() ==> '0' <= #[trigger] s[i] <= '9'
}

/// The value of at least one digit, in `u32` range.
pub open spec fn parse_digits(d: Seq<char>) -> Option<u32> {
    if d.len() > 0 && all_digits(d) && digits_value(d) <= u32::MAX {
        Some(digits_value(d) as u32)
    } else {
        None
    }
}

/// `u32` parsing: an optional `+` and at least one digit, in range.
pub open spec fn parse_u32(s: Seq<char>) -> Option<u32> {
    if s.len() > 0 && s[0] == '+' {
        parse_digits(s.drop_first())
    } else {
        parse_digits(s)
    }
}

/// A source location.
#[derive(Clone, Debug)]
pub struct SourceLoc {
    pub file: String,
    pub line: u32,
    pub function: String,
}

impl View for SourceLoc {
    type V = (Seq<char>, u32, Seq<char>);

    open spec fn view(&self) -> Self::V {
        (self.file@, self.line, self.function@)
    }
}

/// Whether a location names a known file and line.
pub open spec fn loc_valid(loc: (Seq<char>, u32, Seq<char>)) -> bool {
    loc.0 != "??"@ && loc.1 != 0
}

impl SourceLoc {
    /// A source location.
    pub fn new(file: &str, line: u32, function: &str) -> (r: Self)
        ensures
            r@ == (file@, line, function@),
    {
        let mut f = String::new();
        push_str(&mut f, file);
        let mut g = String::new();
        push_str(&mut g, function);
        SourceLoc { file: f, line, function: g }
    }

    /// Whether the location names a known file and line.
    pub fn is_valid(&self) -> (r: bool)
        ensures
            r == loc_valid(self@),
    {
        let unknown = str_chars("??");
        let file = str_chars(self.file.as_str());
        proof {
            reveal_strlit("??");
        }
        let same = chars_eq(&file, &unknown);
        !same && self.line != 0
    }
}

/// Whether two character vectors are equal.
fn chars_eq(a: &Vec<char>, b: &Vec<char>) -> (r: bool)
    ensures
        r == (a@ == b@),
{
    if a.len() != b.len() {
        return false;
    }
    let mut i: usize = 0;
    while i < a.len()
        invariant
            a@.len() == b@.len(),
            i <= a@.len(),
            forall|j: int| 0 <= j < i ==> a@[j] == b@[j],
        decreases a.len() - i,
    {
        if a[i] != b[i] {
            return false;
        }
        i += 1;
    }
    assert(a@ =~= b@);
    true
}

/// The location described by a function-name line and a `file:line` line
/// (an optional `(discriminator N)` after the line number is ignored; an
/// unknown function `??` becomes empty; a missing colon gives `??` and 0; an
/// unreadable line number gives 0).
pub open spec fn location_of(func_line: Seq<char>, loc_line: Seq<char>) -> (
    Seq<char>,
    u32,
    Seq<char>,
) {
    let function = if func_line == "??"@ {
        Seq::empty()
    } else {
        func_line
    };
    match last_colon(loc_line) {
        None => ("??"@, 0, function),
        Some(i) => {
            let line = match first_word(loc_line.skip(i + 1)) {
                Some(w) => match parse_u32(w) {
                    Some(v) => v,
                    None => 0,
                },
                None => 0,
            };
            (loc_line.take(i), line, function)
        },
    }
}

/// A string of a slice of characters.
fn string_from(chars: &Vec<char>, start: usize, end: usize) -> (r: String)
    requires
        start <= end <= chars@.len(),
    ensures
        r@ == chars@.subrange(start as int, end as int),
{
    let mut s = String::new();
    let mut k: usize = start;
    while k < end
        invariant
            start <= k <= end <= chars@.len(),
            s@ == chars@.subrange(start as int, k as int),
        decreases end - k,
    {
        push_char(&mut s, chars[k]);
        assert(chars@.subrange(start as int, k + 1) =~= chars@.subrange(start as int, k as int).push(
            chars@[k as int],
        ));
        k += 1;
    }
    s
}

proof fn lemma_last_colon(s: Seq<char>)
    ensures
        last_colon(s) matches Some(i) ==> 0 <= i < s.len() && s[i] == ':' && forall|k: int|
            i < k < s.len() ==> s[k] != ':',
        last_colon(s) is None ==> forall|k: int| 0 <= k < s.len() ==> s[k] != ':',
    decreases s.len(),
{
    if s.len() > 0 {
        lemma_last_colon(s.drop_last());
        if s.last() != ':' {
            assert forall|k: int| 0 <= k < s.len() - 1 implies s[k] == s.drop_last()[k] by {}
        }
    }
}

proof fn lemma_last_colon_at(s: Seq<char>, i: int)
    requires
        0 <= i < s.len(),
        s[i] == ':',
        forall|k: int| i < k < s.len() ==> s[k] != ':',
    ensures
        last_colon(s) == Some(i),
    decreases s.len(),
{
    if s.len() - 1 > i {
        assert(s.drop_last()[i] == ':');
        assert forall|k: int| i < k < s.len() - 1 implies s.drop_last()[k] != ':' by {
            assert(s.drop_last()[k] == s[k]);
        }
        lemma_last_colon_at(s.drop_last(), i);
    }
}

proof fn lemma_no_colon(s: Seq<char>)
    requires
        forall|k: int| 0 <= k < s.len() ==> s[k] != ':',
    ensures
        last_colon(s) is None,
    decreases s.len(),
{
    if s.len() > 0 {
        assert forall|k: int| 0 <= k < s.len() - 1 implies s.drop_last()[k] != ':' by {
            assert(s.drop_last()[k] == s[k]);
        }
        lemma_no_colon(s.drop_last());
    }
}

proof fn lemma_lead_ws(s: Seq<char>, k: int)
    requires
        0 <= k <= s.len(),
        forall|j: int| 0 <= j < k ==> is_ws(s[j]),
        k == s.len() || !is_ws(s[k]),
    ensures
        lead_ws(s) == k,
    decreases k,
{
    if k > 0 {
        assert forall|j: int| 0 <= j < k - 1 implies is_ws(s.drop_first()[j]) by {
            assert(s.drop_first()[j] == s[j + 1]);
        }
        if k < s.len() {
            assert(s.drop_first()[k - 1] == s[k]);
        }
        lemma_lead_ws(s.drop_first(), k - 1);
    }
}

proof fn lemma_trail_ws(s: Seq<char>, k: int)
    requires
        0 <= k <= s.len(),
        forall|j: int| s.len() - k <= j < s.len() ==> is_ws(s[j]),
        k == s.len() || !is_ws(s[s.len() - k - 1]),
    ensures
        trail_ws(s) == k,
    decreases k,
{
    if k > 0 {
        assert forall|j: int| s.len() - k <= j < s.len() - 1 implies is_ws(s.drop_last()[j]) by {
            assert(s.drop_last()[j] == s[j]);
        }
        if k < s.len() {
            assert(s.drop_last()[s.len() - 1 - k] == s[s.len() - k - 1]);
        }
        lemma_trail_ws(s.drop_last(), k - 1);
    }
}

proof fn lemma_word_len(s: Seq<char>, k: int, e: int)
    requires
        0 <= k <= e <= s.len(),
        forall|j: int| k <= j < e ==> !is_ws(s[j]),
        e == s.len() || is_ws(s[e]),
    ensures
        word_len(s, k) == e,
    decreases e - k,
{
    if k < e {
        lemma_word_len(s, k + 1, e);
    }
}

/// The trimmed characters of a string, as the bounds of the kept part.
fn trim_bounds(chars: &Vec<char>, start: usize, end: usize) -> (r: (usize, usize))
    requires
        start <= end <= chars@.len(),
    ensures
        start <= r.0 <= r.1 <= end,
        chars@.subrange(r.0 as int, r.1 as int) == trim(chars@.subrange(start as int, end as int)),
{
    let ghost s = chars@.subrange(start as int, end as int);
    let mut a: usize = start;
    while a < end && is_whitespace(chars[a])
        invariant
            start <= a <= end <= chars@.len(),
            s == chars@.subrange(start as int, end as int),
            forall|j: int| start <= j < a ==> is_ws(chars@[j]),
        decreases end - a,
    {
        a += 1;
    }
    proof {
        assert forall|j: int| 0 <= j < a - start implies is_ws(s[j]) by {
            assert(s[j] == chars@[start + j]);
        }
        if a < end {
            assert(s[a - start] == chars@[a as int]);
        }
        lemma_lead_ws(s, a - start);
    }
    let mut b: usize = end;
    while b > a && is_whitespace(chars[b - 1])
        invariant
            start <= a <= b <= end <= chars@.len(),
            forall|j: int| b <= j < end ==> is_ws(chars@[j]),
        decreases b - a,
    {
        b -= 1;
    }
    proof {
        let t = s.skip(a - start);
        assert(t =~= chars@.subrange(a as int, end as int));
        assert forall|j: int| t.len() - (end - b) <= j < t.len() implies is_ws(t[j]) by {
            assert(t[j] == chars@[a + j]);
        }
        if b > a {
            assert(t[t.len() - (end - b) - 1] == chars@[b - 1]);
        }
        lemma_trail_ws(t, end - b);
        assert(t.take(t.len() - (end - b)) =~= chars@.subrange(a as int, b as int));
    }
    (a, b)
}

/// Parse `u32` from a run of characters.
fn parse_u32_chars(chars: &Vec<char>, start: usize, end: usize) -> (r: Option<u32>)
    requires
        start <= end <= chars@.len(),
    ensures
        r == parse_u32(chars@.subrange(start as int, end as int)),
{
    let ghost s = chars@.subrange(start as int, end as int);
    let mut k: usize = start;
    if k < end && chars[k] == '+' {
        k += 1;
    }
    let ghost d = chars@.subrange(k as int, end as int);
    proof {
        if start < end && chars@[start as int] == '+' {
            assert(s.drop_first() =~= d);
        } else {
            assert(s =~= d);
        }
        assert(chars@.subrange(k as int, k as int) =~= Seq::<char>::empty());
    }
    if k == end {
        return None;
    }
    let mut v: u64 = 0;
    let mut i: usize = k;
    while i < end
        invariant
            k <= i <= end <= chars@.len(),
            d == chars@.subrange(k as int, end as int),
            parse_u32(chars@.subrange(start as int, end as int)) == parse_digits(d),
            all_digits(chars@.subrange(k as int, i as int)),
            v == digits_value(chars@.subrange(k as int, i as int)),
            v <= u32::MAX,
        decreases end - i,
    {
        let c = chars[i];
        if !('0' <= c && c <= '9') {
            proof {
                assert(d[i - k] == c);
            }
            return None;
        }
        let digit = (c as u32 - '0' as u32) as u64;
        proof {
            let p = chars@.subrange(k as int, i + 1);
            assert(p.drop_last() =~= chars@.subrange(k as int, i as int));
            assert(p.last() == c);
        }
        let next = v * 10 + digit;
        if next > u32::MAX as u64 {
            proof {
                lemma_digits_prefix_bound(d, i + 1 - k);
                assert(d.take(i + 1 - k) =~= chars@.subrange(k as int, i + 1));
            }
            return None;
        }
        v = next;
        i += 1;
    }
    proof {
        assert(chars@.subrange(k as int, i as int) =~= d);
    }
    Some(v as u32)
}

/// A digit string is worth at least any of its prefixes.
proof fn lemma_digits_prefix_bound(d: Seq<char>, n: int)
    requires
        0 <= n <= d.len(),
    ensures
        all_digits(d) ==> digits_value(d.take(n)) <= digits_value(d),
    decreases d.len() - n,
{
    if n == d.len() {
        assert(d.take(n) =~= d);
    }
    if n < d.len() && all_digits(d) {
        let t = d.take(n + 1);
        assert(t.drop_last() =~= d.take(n));
        assert('0' <= t.last() <= '9') by {
            assert(t.last() == d[n]);
        }
        assert(all_digits(d.take(n))) by {
            assert forall|i: int| 0 <= i < n implies '0' <= #[trigger] d.take(n)[i] <= '9' by {
                assert(d.take(n)[i] == d[i]);
            }
        }
        assert(digits_value(d.take(n)) >= 0) by {
            lemma_digits_nonneg(d.take(n));
        }
        lemma_digits_prefix_bound(d, n + 1);
    }
}

proof fn lemma_digits_nonneg(d: Seq<char>)
    requires
        all_digits(d),
    ensures
        digits_value(d) >= 0,
    decreases d.len(),
{
    if d.len() > 0 {
        assert(all_digits(d.drop_last())) by {
            assert forall|i: int| 0 <= i < d.len() - 1 implies '0' <= #[trigger] d.drop_last()[i]
                <= '9' by {
                assert(d.drop_last()[i] == d[i]);
            }
        }
        lemma_digits_nonneg(d.drop_last());
        assert('0' <= d[d.len() - 1] <= '9');
    }
}

/// Parse a function-name line and a `file:line` line into a source location.
pub fn parse_location(func_line: &str, loc_line: &str) -> (r: SourceLoc)
    ensures
        r@ == location_of(func_line@, loc_line@),
{
    let fchars = str_chars(func_line);
    let unknown = str_chars("??");
    proof {
        reveal_strlit("??");
    }
    let function = if chars_eq(&fchars, &unknown) {
        String::new()
    } else {
        string_from(&fchars, 0, fchars.len())
    };
    proof {
        assert(fchars@.subrange(0, fchars@.len() as int) =~= fchars@);
    }
    let chars = str_chars(loc_line);
    let len = chars.len();
    let mut c: usize = len;
    while c > 0 && chars[c - 1] != ':'
        invariant
            c <= len == chars@.len(),
            forall|k: int| c <= k < len ==> chars@[k] != ':',
        decreases c,
    {
        c -= 1;
    }
    if c == 0 {
        proof {
            lemma_no_colon(chars@);
            reveal_strlit("??");
        }
        let mut file = String::new();
        push_str(&mut file, "??");
        return SourceLoc { file, line: 0, function };
    }
    let colon = c - 1;
    proof {
        lemma_last_colon_at(chars@, colon as int);
    }
    let file = string_from(&chars, 0, colon);
    // First white-space separated word after the colon.
    let ghost rest = chars@.skip(colon + 1);
    let mut a: usize = colon + 1;
    while a < len && is_whitespace(chars[a])
        invariant
            colon + 1 <= a <= len == chars@.len(),
            forall|j: int| colon + 1 <= j < a ==> is_ws(chars@[j]),
        decreases len - a,
    {
        a += 1;
    }
    proof {
        assert forall|j: int| 0 <= j < a - colon - 1 implies is_ws(rest[j]) by {
            assert(rest[j] == chars@[colon + 1 + j]);
        }
        if a < len {
            assert(rest[a - colon - 1] == chars@[a as int]);
        }
        lemma_lead_ws(rest, a - colon - 1);
    }
    let line: u32 = if a == len {
        proof {
            assert(rest.skip(lead_ws(rest)).len() == 0);
        }
        0
    } else {
        let mut b: usize = a;
        while b < len && !is_whitespace(chars[b])
            invariant
                a <= b <= len == chars@.len(),
                forall|j: int| a <= j < b ==> !is_ws(chars@[j]),
            decreases len - b,
        {
            b += 1;
        }
        proof {
            let t = rest.skip(lead_ws(rest));
            assert(t =~= chars@.subrange(a as int, len as int));
            assert forall|j: int| 0 <= j < b - a implies !is_ws(t[j]) by {
                assert(t[j] == chars@[a + j]);
            }
            if b < len {
                assert(t[b - a] == chars@[b as int]);
            }
            lemma_word_len(t, 0, b - a);
            assert(t.take(b - a) =~= chars@.subrange(a as int, b as int));
        }
        match parse_u32_chars(&chars, a, b) {
            Some(v) => v,
            None => 0,
        }
    };
    proof {
        assert(chars@.subrange(0, colon as int) =~= chars@.take(colon as int));
    }
    SourceLoc { file, line, function }
}

/// Debug info: source locations by instruction address.
#[derive(Debug)]
pub struct DebugInfo {
    locations: HashMap<u64, SourceLoc>,
}

/// The locations read from the first `n` line pairs, later pairs overriding
/// earlier ones for the same address; invalid locations are skipped.
pub open spec fn locations_upto(lines: Seq<Seq<char>>, addresses: Seq<u64>, n: int) -> Map<
    u64,
    (Seq<char>, u32, Seq<char>),
>
    decreases n,
{
    if n <= 0 {
        Map::empty()
    } else {
        let m = locations_upto(lines, addresses, n - 1);
        let loc = location_of(trim(lines[2 * (n - 1)]), trim(lines[2 * (n - 1) + 1]));
        if loc_valid(loc) {
            m.insert(addresses[n - 1], loc)
        } else {
            m
        }
    }
}

/// Number of address/line-pair entries read from output with `l` lines.
pub open spec fn entries(l: int, addresses: int) -> int {
    if l / 2 < addresses {
        l / 2
    } else {
        addresses
    }
}

impl DebugInfo {
    /// The resolved locations, as views.
    pub closed spec fn view_map(&self) -> Map<u64, (Seq<char>, u32, Seq<char>)> {
        self.locations@.map_values(|l: SourceLoc| l@)
    }

    /// No locations.
    pub fn new() -> (r: Self)
        ensures
            r.view_map() == Map::<u64, (Seq<char>, u32, Seq<char>)>::empty(),
    {
        let r = DebugInfo { locations: HashMap::new() };
        assert(r.view_map() =~= Map::<u64, (Seq<char>, u32, Seq<char>)>::empty());
        r
    }

    /// Read the locations of `addresses` from `llvm-addr2line -f` output:
    /// line pairs in address order, as far as both last.
    pub fn from_output(stdout: &str, addresses: &[u64]) -> (r: Self)
        ensures
            r.view_map() == locations_upto(
                text_lines(stdout@),
                addresses@,
                entries(text_lines(stdout@).len() as int, addresses@.len() as int),
            ),
    {
        let chars = str_chars(stdout);
        let bounds = line_bounds(&chars);
        let ghost lines = text_lines(stdout@);
        assert(chars@ == stdout@);
        assert forall|i: int| 0 <= i < bounds@.len() implies (#[trigger] bounds@[i]).0 <= bounds@[i].1
            <= chars@.len() && chars@.subrange(bounds@[i].0 as int, bounds@[i].1 as int)
            == lines[i] by {
            assert(chars@.subrange(bounds@[i].0 as int, bounds@[i].1 as int) == text_lines(
                chars@,
            )[i]);
        }
        let mut info = DebugInfo::new();
        let mut k: usize = 0;
        while k < addresses.len() && bounds.len() >= 2 && k <= (bounds.len() - 2) / 2
            invariant
                chars@ == stdout@,
                lines == text_lines(stdout@),
                bounds@.len() == lines.len(),
                forall|i: int|
                    0 <= i < bounds@.len() ==> (#[trigger] bounds@[i]).0 <= bounds@[i].1 <= chars@.len()
                        && chars@.subrange(bounds@[i].0 as int, bounds@[i].1 as int) == lines[i],
                k <= addresses@.len(),
                2 * k <= bounds@.len(),
                info.view_map() == locations_upto(lines, addresses@, k as int),
            decreases addresses.len() - k,
        {
            let (fs, fe) = bounds[2 * k];
            let (ls, le) = bounds[2 * k + 1];
            let (fa, fb) = trim_bounds(&chars, fs, fe);
            let (la, lb) = trim_bounds(&chars, ls, le);
            let func_line = string_from(&chars, fa, fb);
            let loc_line = string_from(&chars, la, lb);
            let loc = parse_location(func_line.as_str(), loc_line.as_str());
            let ghost before = info.view_map();
            if loc.is_valid() {
                let addr = addresses[k];
                let ghost lv = loc@;
                info.locations.insert(addr, loc);
                proof {
                    assert(info.view_map() =~= before.insert(addr, lv));
                }
            }
            k += 1;
        }
        proof {
            let l = lines.len() as int;
            assert(k as int == entries(l, addresses@.len() as int));
        }
        info
    }

    /// The source location of an address, if known.
    pub fn get(&self, address: u64) -> (r: Option<&SourceLoc>)
        ensures
            match r {
                Some(l) => self.view_map().contains_key(address) && self.view_map()[address] == l@,
                None => !self.view_map().contains_key(address),
            },
    {
        self.locations.get(&address)
    }

    /// Number of resolved locations.
    pub fn len(&self) -> (r: usize)
        ensures
            r == self.view_map().len(),
    {
        proof {
            assert(self.view_map().dom() =~= self.locations@.dom());
        }
        self.locations.len()
    }

    /// Whether no location is known.
    pub fn is_empty(&self) -> (r: bool)
        ensures
            r == (self.view_map().len() == 0),
    {
        self.len() == 0
    }
}

/// Start and end of each line of a text (see `text_lines`).
fn line_bounds(chars: &Vec<char>) -> (r: Vec<(usize, usize)>)
    ensures
        r@.len() == text_lines(chars@).len(),
        forall|i: int|
            0 <= i < r@.len() ==> r@[i].0 <= r@[i].1 <= chars@.len() && chars@.subrange(
                r@[i].0 as int,
                r@[i].1 as int,
            ) == text_lines(chars@)[i],
{
    let mut out: Vec<(usize, usize)> = Vec::new();
    let len = chars.len();
    let mut start: usize = 0;
    proof {
        assert(chars@.skip(0) =~= chars@);
        assert(out@.map_values(|b: (usize, usize)| chars@.subrange(b.0 as int, b.1 as int)) + text_lines(
            chars@,
        ) =~= text_lines(chars@));
    }
    while start < len
        invariant
            start <= len == chars@.len(),
            text_lines(chars@) == out@.map_values(
                |b: (usize, usize)| chars@.subrange(b.0 as int, b.1 as int),
            ) + text_lines(chars@.skip(start as int)),
            forall|i: int| 0 <= i < out@.len() ==> (#[trigger] out@[i]).0 <= out@[i].1 <= chars@.len(),
        decreases len - start,
    {
        let ghost rest = chars@.skip(start as int);
        let mut e: usize = start;
        while e < len && chars[e] != '\n'
            invariant
                start <= e <= len == chars@.len(),
                forall|j: int| start <= j < e ==> chars@[j] != '\n',
            decreases len - e,
        {
            e += 1;
        }
        proof {
            lemma_first_newline(rest, 0, e - start);
        }
        let mut line_end = e;
        if line_end > start && chars[line_end - 1] == '\r' {
            line_end -= 1;
        }
        let ghost before = out@;
        out.push((start, line_end));
        proof {
            let piece = chars@.subrange(start as int, e as int);
            assert(rest.take(e - start) =~= piece);
            assert(chars@.subrange(start as int, line_end as int) == strip_cr(piece)) by {
                if e > start && chars@[e - 1] == '\r' {
                    assert(piece.drop_last() =~= chars@.subrange(start as int, line_end as int));
                } else {
                    assert(piece =~= chars@.subrange(start as int, line_end as int));
                }
            }
            assert(out@.map_values(|b: (usize, usize)| chars@.subrange(b.0 as int, b.1 as int))
                =~= before.map_values(|b: (usize, usize)| chars@.subrange(b.0 as int, b.1 as int)).push(
                strip_cr(piece),
            ));
            if e < len {
                assert(rest.skip(e - start + 1) =~= chars@.skip(e + 1));
            } else {
                assert(rest =~= piece);
                assert(chars@.skip(len as int) =~= Seq::<char>::empty());
            }
        }
        start = if e < len {
            e + 1
        } else {
            len
        };
    }
    proof {
        assert(chars@.skip(start as int) =~= Seq::<char>::empty());
        assert(out@.map_values(|b: (usize, usize)| chars@.subrange(b.0 as int, b.1 as int))
            =~= text_lines(chars@));
    }
    out
}

proof fn lemma_first_newline(s: Seq<char>, k: int, e: int)
    requires
        0 <= k <= e <= s.len(),
        forall|j: int| k <= j < e ==> s[j] != '\n',
        e == s.len() || s[e] == '\n',
    ensures
        first_newline(s, k) == e,
    decreases e - k,
{
    if k < e {
        lemma_first_newline(s, k + 1, e);
    }
}

} // verus!
