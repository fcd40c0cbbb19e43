//! Text building blocks: character access, decimal rendering and string assembly.

use vstd::prelude::*;

verus! {

broadcast use vstd::string::group_string_axioms;

/// The characters of a string slice, in order.
pub fn str_chars(s: &str) -> (v: Vec<char>)
    ensures
        v@ == s@,
{
    let mut v: Vec<char> = Vec::new();
    for c in it: s.chars()
        invariant
            v@ == it.seq().take(it.index() as int),
            it.seq() == s@,
    {
        v.push(c);
    }
    v
}

/// Append one character (`String::push`).
#[verifier::external_body]
pub(crate) fn push_char(s: &mut String, c: char)
    ensures
        final(s)@ == old(s)@.push(c),
{
    s.push(c);
}

/// Append a string slice.
pub fn push_str(s: &mut String, t: &str)
    ensures
        final(s)@ == old(s)@ + t@,
{
    let chars = str_chars(t);
    let ghost start = s@;
    let mut k: usize = 0;
    while k < chars.len()
        invariant
            k <= chars.len(),
            chars@ == t@,
            s@ == start + t@.take(k as int),
        decreases chars.len() - k,
    {
        push_char(s, chars[k]);
        proof {
            assert(t@.take(k + 1) =~= t@.take(k as int).push(t@[k as int]));
        }
        k += 1;
    }
    assert(t@.take(k as int) =~= t@);
}

/// A character with ASCII lowercase letters turned into uppercase ones.
pub open spec fn upper_char(c: char) -> char {
    if 'a' <= c && c <= 'z' {
        ((c as u32) - 32) as char
    } else {
        c
    }
}

/// A string with ASCII lowercase letters turned into uppercase ones.
pub open spec fn ascii_upper(s: Seq<char>) -> Seq<char> {
    s.map_values(|c: char| upper_char(c))
}

/// `t` with ASCII lowercase letters turned into uppercase ones.
pub fn to_ascii_upper(t: &str) -> (s: String)
    ensures
        s@ == ascii_upper(t@),
{
    let chars = str_chars(t);
    let mut s = String::new();
    let mut k: usize = 0;
    while k < chars.len()
        invariant
            k <= chars.len(),
            chars@ == t@,
            s@ == ascii_upper(t@.take(k as int)),
        decreases chars.len() - k,
    {
        let c = chars[k];
        let u = if 'a' <= c && c <= 'z' {
            ((c as u8) - 32) as char
        } else {
            c
        };
        push_char(&mut s, u);
        proof {
            assert(ascii_upper(t@.take(k + 1)) =~= ascii_upper(t@.take(k as int)).push(
                upper_char(c),
            ));
        }
        k += 1;
    }
    assert(t@.take(k as int) =~= t@);
    s
}

/// A string holding a copy of `t`.
pub fn string_of(t: &str) -> (s: String)
    ensures
        s@ == t@,
{
    let mut s = String::new();
    push_str(&mut s, t);
    s
}

/// The ASCII digit for `d` (0 to 9).
pub open spec fn digit_char(d: int) -> char {
    (48 + d) as char
}

/// Decimal representation of a natural number, without leading zeros.
pub open spec fn decimal(n: nat) -> Seq<char>
    decreases n,
{
    if n < 10 {
        seq![digit_char(n as int)]
    } else {
        decimal(n / 10).push(digit_char((n % 10) as int))
    }
}

fn digit(d: u64) -> (c: char)
    requires
        d < 10,
    ensures
        c == digit_char(d as int),
{
    ((48 + d) as u8) as char
}

/// Append the decimal representation of `n`.
pub fn push_decimal(s: &mut String, n: u64)
    ensures
        final(s)@ == old(s)@ + decimal(n as nat),
    decreases n,
{
    if n < 10 {
        push_char(s, digit(n));
        assert(decimal(n as nat) =~= seq![digit_char(n as int)]);
    } else {
        push_decimal(s, n / 10);
        push_char(s, digit(n % 10));
        assert(decimal(n as nat) =~= decimal((n / 10) as nat).push(digit_char((n % 10) as int)));
    }
}

/// Decimal representation of `n` as a string.
pub fn to_decimal(n: u64) -> (s: String)
    ensures
        s@ == decimal(n as nat),
{
    let mut s = String::new();
    push_decimal(&mut s, n);
    s
}

/// The lowercase hexadecimal digit for `d` (0 to 15).
pub open spec fn hex_digit_char(d: int) -> char {
    if d < 10 {
        (48 + d) as char
    } else {
        (87 + d) as char
    }
}

/// Lowercase hexadecimal representation of a natural number, without leading zeros.
pub open spec fn hex(n: nat) -> Seq<char>
    decreases n,
{
    if n < 16 {
        seq![hex_digit_char(n as int)]
    } else {
        hex(n / 16).push(hex_digit_char((n % 16) as int))
    }
}

fn hex_digit(d: u64) -> (c: char)
    requires
        d < 16,
    ensures
        c == hex_digit_char(d as int),
{
    if d < 10 {
        ((48 + d) as u8) as char
    } else {
        ((87 + d) as u8) as char
    }
}

/// Append the lowercase hexadecimal representation of `n`.
pub fn push_hex(s: &mut String, n: u64)
    ensures
        final(s)@ == old(s)@ + hex(n as nat),
    decreases n,
{
    if n < 16 {
        push_char(s, hex_digit(n));
        assert(hex(n as nat) =~= seq![hex_digit_char(n as int)]);
    } else {
        push_hex(s, n / 16);
        push_char(s, hex_digit(n % 16));
        assert(hex(n as nat) =~= hex((n / 16) as nat).push(hex_digit_char((n % 16) as int)));
    }
}

/// A byte as `0x` and two lowercase hexadecimal digits.
pub open spec fn hex_byte(b: u8) -> Seq<char> {
    seq!['0', 'x', hex_digit_char((b / 16) as int), hex_digit_char((b % 16) as int)]
}

/// Append a byte as `0x` and two lowercase hexadecimal digits.
pub fn push_hex_byte(s: &mut String, b: u8)
    ensures
        final(s)@ == old(s)@ + hex_byte(b),
{
    let ghost start = s@;
    push_char(s, '0');
    push_char(s, 'x');
    push_char(s, hex_digit((b / 16) as u64));
    push_char(s, hex_digit((b % 16) as u64));
    assert(s@ =~= start + hex_byte(b));
}

/// `k` zero digits.
pub open spec fn zeros(k: nat) -> Seq<char> {
    Seq::new(k, |i: int| '0')
}

/// Lowercase hexadecimal representation of `n`, padded with leading zeros
/// to at least `width` digits.
pub open spec fn hex_padded(n: nat, width: nat) -> Seq<char> {
    if hex(n).len() < width {
        zeros((width - hex(n).len()) as nat) + hex(n)
    } else {
        hex(n)
    }
}

/// Append the lowercase hexadecimal representation of `n`, padded with
/// leading zeros to at least `width` digits.
pub fn push_hex_padded(s: &mut String, n: u64, width: usize)
    ensures
        final(s)@ == old(s)@ + hex_padded(n as nat, width as nat),
{
    let mut digits = String::new();
    push_hex(&mut digits, n);
    let chars = str_chars(digits.as_str());
    assert(chars@ =~= hex(n as nat));
    let ghost start = s@;
    if chars.len() < width {
        let pad = width - chars.len();
        let mut k: usize = 0;
        while k < pad
            invariant
                k <= pad,
                s@ == start + zeros(k as nat),
            decreases pad - k,
        {
            push_char(s, '0');
            assert(zeros((k + 1) as nat) =~= zeros(k as nat).push('0'));
            k += 1;
        }
    }
    push_str(s, digits.as_str());
    assert(s@ =~= start + hex_padded(n as nat, width as nat));
}

/// Whether two strings hold the same characters.
pub fn str_eq(a: &str, b: &str) -> (r: bool)
    ensures
        r == (a@ == b@),
{
    let x = str_chars(a);
    let y = str_chars(b);
    if x.len() != y.len() {
        return false;
    }
    let mut i: usize = 0;
    while i < x.len()
        invariant
            x@ == a@,
            y@ == b@,
            x@.len() == y@.len(),
            i <= x@.len(),
            forall|j: int| 0 <= j < i ==> x@[j] == y@[j],
        decreases x.len() - i,
    {
        if x[i] != y[i] {
            return false;
        }
        i += 1;
    }
    assert(a@ =~= b@);
    true
}

/// `s` with every non-overlapping occurrence of the nonempty pattern `pat`,
/// found from left to right, replaced by `rep`.
pub open spec fn replaced(s: Seq<char>, pat: Seq<char>, rep: Seq<char>) -> Seq<char>
    decreases s.len(),
{
    if s.len() == 0 {
        seq![]
    } else if 0 < pat.len() <= s.len() && s.take(pat.len() as int) == pat {
        rep + replaced(s.skip(pat.len() as int), pat, rep)
    } else {
        seq![s[0]] + replaced(s.drop_first(), pat, rep)
    }
}

/// Whether `pat` occurs in `chars` at position `i`.
fn matches_at(chars: &Vec<char>, i: usize, pat: &Vec<char>) -> (r: bool)
    requires
        i <= chars@.len(),
    ensures
        r == (pat@.len() <= chars@.len() - i && chars@.subrange(i as int, i + pat@.len()) == pat@),
{
    if pat.len() > chars.len() - i {
        return false;
    }
    let n = chars.len();
    let mut j: usize = 0;
    while j < pat.len()
        invariant
            n == chars@.len(),
            i <= chars@.len(),
            j <= pat@.len(),
            pat@.len() <= chars@.len() - i,
            forall|k: int| 0 <= k < j ==> chars@[i + k] == pat@[k],
        decreases pat.len() - j,
    {
        if chars[i + j] != pat[j] {
            assert(chars@.subrange(i as int, i + pat@.len())[j as int] != pat@[j as int]);
            return false;
        }
        j += 1;
    }
    assert(chars@.subrange(i as int, i + pat@.len()) =~= pat@);
    true
}

/// Replace every non-overlapping occurrence of `pat` in `s`, from left to
/// right, by `rep` (`str::replace`).
pub fn replace_all(s: &str, pat: &str, rep: &str) -> (r: String)
    requires
        pat@.len() > 0,
    ensures
        r@ == replaced(s@, pat@, rep@),
{
    let chars = str_chars(s);
    let pc = str_chars(pat);
    let mut out = String::new();
    let mut i: usize = 0;
    assert(s@.skip(0) =~= s@);
    assert(out@ + replaced(s@, pat@, rep@) =~= replaced(s@, pat@, rep@));
    while i < chars.len()
        invariant
            i <= chars@.len(),
            chars@ == s@,
            pc@ == pat@,
            pat@.len() > 0,
            out@ + replaced(s@.skip(i as int), pat@, rep@) == replaced(s@, pat@, rep@),
        decreases chars.len() - i,
    {
        let ghost rest = s@.skip(i as int);
        let ghost before = out@;
        if matches_at(&chars, i, &pc) {
            assert(rest.take(pat@.len() as int) =~= s@.subrange(i as int, i + pat@.len()));
            assert(rest.skip(pat@.len() as int) =~= s@.skip(i + pat@.len()));
            push_str(&mut out, rep);
            proof {
                vstd::seq_lib::lemma_concat_associative(
                    before,
                    rep@,
                    replaced(s@.skip(i + pat@.len()), pat@, rep@),
                );
            }
            i = i + pc.len();
        } else {
            proof {
                if pat@.len() <= rest.len() {
                    assert(rest.take(pat@.len() as int) =~= s@.subrange(i as int, i + pat@.len()));
                }
            }
            assert(rest.drop_first() =~= s@.skip(i + 1));
            assert(rest[0] == chars@[i as int]);
            push_char(&mut out, chars[i]);
            proof {
                vstd::seq_lib::lemma_concat_associative(
                    before,
                    seq![chars@[i as int]],
                    replaced(s@.skip(i + 1), pat@, rep@),
                );
                assert(before.push(chars@[i as int]) =~= before + seq![chars@[i as int]]);
            }
            i = i + 1;
        }
    }
    assert(s@.skip(i as int) =~= Seq::<char>::empty());
    assert(out@ + Seq::<char>::empty() =~= out@);
    out
}

} // verus!
