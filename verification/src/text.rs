//! Character-level helpers shared by the text protocols: conversion between
//! `str` and character vectors, decimal rendering of integers and substring
//! search.

use vstd::prelude::*;
use vstd::string::*;

verus! {

broadcast use vstd::string::axiom_spec_iter;

/// The character `'0' + d` for a decimal digit `d`.
pub open spec fn digit_char(d: nat) -> char {
    (48 + d) as char
}

/// Decimal rendering of a natural number, most significant digit first,
/// without leading zeros.
pub open spec fn decimal(n: nat) -> Seq<char>
    decreases n,
{
    if n < 10 {
        seq![digit_char(n)]
    } else {
        decimal(n / 10).push(digit_char(n % 10))
    }
}

/// Decimal rendering of an integer, with a leading `-` for negative values.
pub open spec fn signed_decimal(n: int) -> Seq<char> {
    if n < 0 {
        seq!['-'] + decimal((-n) as nat)
    } else {
        decimal(n as nat)
    }
}

/// Whether `pat` occurs in `s` starting at index `i`.
pub open spec fn occurs_at(s: Seq<char>, pat: Seq<char>, i: int) -> bool {
    0 <= i && i + pat.len() <= s.len() && s.subrange(i, i + pat.len()) == pat
}

/// Index of the first occurrence of `pat` in `s` at or after `i`, if any.
pub open spec fn find_from(s: Seq<char>, pat: Seq<char>, i: int) -> Option<int>
    decreases s.len() + 1 - i,
{
    if i < 0 || i > s.len() {
        None
    } else if occurs_at(s, pat, i) {
        Some(i)
    } else {
        find_from(s, pat, i + 1)
    }
}

/// Index of the first occurrence of `pat` in `s`, if any.
pub open spec fn find(s: Seq<char>, pat: Seq<char>) -> Option<int> {
    find_from(s, pat, 0)
}

/// A found index is an occurrence, and no earlier index from `k` on is one.
pub proof fn lemma_find_from(s: Seq<char>, pat: Seq<char>, k: int)
    requires
        0 <= k,
    ensures
        find_from(s, pat, k) matches Some(i) ==> occurs_at(s, pat, i) && k <= i
            && forall|j: int| k <= j < i ==> !occurs_at(s, pat, j),
        find_from(s, pat, k) is None ==> forall|j: int| k <= j ==> !occurs_at(s, pat, j),
    decreases s.len() + 1 - k,
{
    if k > s.len() {
    } else if occurs_at(s, pat, k) {
    } else {
        lemma_find_from(s, pat, k + 1);
    }
}

/// Whether `pat` occurs anywhere in `s`.
pub open spec fn contains(s: Seq<char>, pat: Seq<char>) -> bool {
    find(s, pat) is Some
}

/// Appends one character to a `String` (std's `String::push`).
#[verifier::external_body]
pub(crate) fn string_push(s: &mut String, c: char)
    ensures
        final(s)@ == old(s)@.push(c),
{
    s.push(c);
}

/// The characters of a string slice, in order.
pub fn chars_of(s: &str) -> (r: Vec<char>)
    ensures
        r@ == s@,
{
    let mut out: Vec<char> = Vec::new();
    for c in it: s.chars()
        invariant
            out@ == it.seq().take(it.index() as int),
            it.seq() == s@,
    {
        out.push(c);
    }
    out
}

/// Appends a run of characters to a `String`.
pub fn push_chars(s: &mut String, cs: &[char])
    ensures
        final(s)@ == old(s)@ + cs@,
{
    let n = cs.len();
    for i in 0..n
        invariant
            n == cs@.len(),
            s@ == old(s)@ + cs@.take(i as int),
    {
        string_push(s, cs[i]);
        assert(cs@.take(i as int).push(cs@[i as int]) =~= cs@.take(i + 1));
    }
    assert(cs@.take(n as int) =~= cs@);
}

/// A `String` holding exactly the given characters.
pub fn string_from_chars(cs: &[char]) -> (r: String)
    ensures
        r@ == cs@,
{
    let mut s = String::new();
    push_chars(&mut s, cs);
    s
}

/// Appends a string slice.
pub fn push_str(s: &mut String, t: &str)
    ensures
        final(s)@ == old(s)@ + t@,
{
    s.append(t);
}

/// Whether two string slices hold the same characters.
pub fn str_eq(a: &str, b: &str) -> (r: bool)
    ensures
        r == (a@ == b@),
{
    let x = chars_of(a);
    let y = chars_of(b);
    chars_eq(&x, &y)
}

/// Whether two character runs are equal.
pub fn chars_eq(x: &[char], y: &[char]) -> (r: bool)
    ensures
        r == (x@ == y@),
{
    if x.len() != y.len() {
        return false;
    }
    let n = x.len();
    for i in 0..n
        invariant
            n == x@.len(),
            n == y@.len(),
            forall|j: int| 0 <= j < i ==> x@[j] == y@[j],
    {
        if x[i] != y[i] {
            return false;
        }
    }
    assert(x@ =~= y@);
    true
}

/// The character for a decimal digit.
pub fn digit(d: u64) -> (c: char)
    requires
        d < 10,
    ensures
        c == digit_char(d as nat),
{
    let b: u8 = 48u8 + (d as u8);
    b as char
}

/// Appends the decimal rendering of `n`.
pub fn push_decimal(s: &mut String, n: u64)
    ensures
        final(s)@ == old(s)@ + decimal(n as nat),
    decreases n,
{
    if n >= 10 {
        push_decimal(s, n / 10);
    }
    string_push(s, digit(n % 10));
}

/// Appends the decimal rendering of a signed byte, with `-` when negative.
pub fn push_signed_decimal(s: &mut String, n: i8)
    ensures
        final(s)@ == old(s)@ + signed_decimal(n as int),
{
    if n < 0 {
        string_push(s, '-');
        let m: u64 = (0i16 - (n as i16)) as u64;
        push_decimal(s, m);
        assert(seq!['-'] + decimal(m as nat) =~= seq!['-'].add(decimal(m as nat)));
        assert(old(s)@.push('-') + decimal(m as nat) =~= old(s)@ + (seq!['-'] + decimal(m as nat)));
    } else {
        push_decimal(s, n as u64);
    }
}

/// Whether `pat` occurs in `s` at index `i` (executable form of `occurs_at`).
pub fn occurs_at_exec(s: &[char], pat: &[char], i: usize) -> (r: bool)
    ensures
        r == occurs_at(s@, pat@, i as int),
{
    if pat.len() > s.len() || i > s.len() - pat.len() {
        return false;
    }
    let n = pat.len();
    for k in 0..n
        invariant
            n == pat@.len(),
            i + n <= s@.len(),
            s@.len() == s.len(),
            forall|j: int| 0 <= j < k ==> s@[i + j] == pat@[j],
    {
        if s[i + k] != pat[k] {
            assert(s@.subrange(i as int, i + n)[k as int] != pat@[k as int]);
            return false;
        }
    }
    assert(s@.subrange(i as int, i + n) =~= pat@);
    true
}

/// First index at which `pat` occurs in `s`.
pub fn find_exec(s: &[char], pat: &[char]) -> (r: Option<usize>)
    ensures
        r matches Some(i) ==> find(s@, pat@) == Some(i as int) && occurs_at(s@, pat@, i as int),
        r is None ==> find(s@, pat@) is None,
{
    let n = s.len();
    let mut i: usize = 0;
    while i <= n
        invariant
            n == s@.len(),
            i <= n + 1,
            find(s@, pat@) == find_from(s@, pat@, i as int),
        decreases n + 1 - i,
    {
        if occurs_at_exec(s, pat, i) {
            return Some(i);
        }
        if i == n {
            assert(find_from(s@, pat@, (n + 1) as int) is None);
            return None;
        }
        i = i + 1;
    }
    None
}

/// The JSON escape of one character: quote, backslash, newline, carriage
/// return and tab get a backslash escape; every other character stands as is.
pub open spec fn escape_char(c: char) -> Seq<char> {
    if c == '"' {
        seq!['\\', '"']
    } else if c == '\\' {
        seq!['\\', '\\']
    } else if c == '\n' {
        seq!['\\', 'n']
    } else if c == '\r' {
        seq!['\\', 'r']
    } else if c == '\t' {
        seq!['\\', 't']
    } else {
        seq![c]
    }
}

/// The JSON escape of a text, character by character.
pub open spec fn escape_json_spec(s: Seq<char>) -> Seq<char>
    decreases s.len(),
{
    if s.len() == 0 {
        Seq::empty()
    } else {
        escape_json_spec(s.drop_last()) + escape_char(s.last())
    }
}

/// Whether JSON escaping changes a character.
pub open spec fn needs_escape(c: char) -> bool {
    c == '"' || c == '\\' || c == '\n' || c == '\r' || c == '\t'
}

/// Escaping never shortens a text, lengthens it when some character needs
/// escaping, and leaves it unchanged otherwise.
proof fn lemma_escape_length(s: Seq<char>)
    ensures
        escape_json_spec(s).len() >= s.len(),
        (exists|i: int| 0 <= i < s.len() && needs_escape(s[i])) ==> escape_json_spec(s).len() > s.len(),
        (forall|i: int| 0 <= i < s.len() ==> !needs_escape(#[trigger] s[i])) ==> escape_json_spec(s) == s,
    decreases s.len(),
{
    if s.len() > 0 {
        let p = s.drop_last();
        lemma_escape_length(p);
        if exists|i: int| 0 <= i < s.len() && needs_escape(s[i]) {
            let i = choose|i: int| 0 <= i < s.len() && needs_escape(s[i]);
            if i < s.len() - 1 {
                assert(needs_escape(p[i]));
            }
        }
        if forall|i: int| 0 <= i < s.len() ==> !needs_escape(#[trigger] s[i]) {
            assert forall|i: int| 0 <= i < p.len() implies !needs_escape(#[trigger] p[i]) by {
                assert(p[i] == s[i]);
            }
            assert(!needs_escape(s[s.len() - 1]));
            assert(escape_json_spec(s) =~= s);
        }
    }
}

/// Law: escaping leaves a text unchanged exactly when it holds no quote,
/// backslash, newline, carriage return or tab.
pub proof fn law_escape_identity(s: Seq<char>)
    ensures
        (escape_json_spec(s) == s) <==> (forall|i: int| 0 <= i < s.len() ==> !needs_escape(#[trigger] s[i])),
{
    lemma_escape_length(s);
}

/// Escapes a text for use inside a JSON string literal (quote, backslash,
/// newline, carriage return and tab).
pub fn escape_json(s: &str) -> (r: String)
    ensures
        r@ == escape_json_spec(s@),
{
    let cs = chars_of(s);
    let mut out = String::new();
    let n = cs.len();
    for i in 0..n
        invariant
            n == cs@.len(),
            cs@ == s@,
            out@ == escape_json_spec(cs@.take(i as int)),
    {
        let c = cs[i];
        if c == '"' {
            string_push(&mut out, '\\');
            string_push(&mut out, '"');
        } else if c == '\\' {
            string_push(&mut out, '\\');
            string_push(&mut out, '\\');
        } else if c == '\n' {
            string_push(&mut out, '\\');
            string_push(&mut out, 'n');
        } else if c == '\r' {
            string_push(&mut out, '\\');
            string_push(&mut out, 'r');
        } else if c == '\t' {
            string_push(&mut out, '\\');
            string_push(&mut out, 't');
        } else {
            string_push(&mut out, c);
        }
        assert(cs@.take(i + 1).drop_last() =~= cs@.take(i as int));
    }
    assert(cs@.take(n as int) =~= cs@);
    out
}

} // verus!
