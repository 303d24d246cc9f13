//! HTTP API payload handling: reading angles and Wi-Fi credentials out of
//! request bodies and writing the JSON bodies of the API responses.

use vstd::prelude::*;
use vstd::string::*;
use crate::text::{contains, chars_of, find, find_exec, occurs_at, occurs_at_exec, string_push, push_str, push_chars, push_decimal, push_signed_decimal, decimal, signed_decimal, escape_json, escape_json_spec, string_from_chars};
use crate::wifi::{ApEntry, StaInfo, WifiResponse, WifiCommand};

verus! {

/// An ASCII decimal digit.
pub open spec fn is_digit(c: char) -> bool {
    '0' <= c <= '9'
}

/// The run of digits at the start of `t`.
pub open spec fn digit_prefix(t: Seq<char>) -> Seq<char>
    decreases t.len(),
{
    if t.len() > 0 && is_digit(t[0]) {
        seq![t[0]] + digit_prefix(t.drop_first())
    } else {
        Seq::empty()
    }
}

/// The first run of digits in `t` (empty when `t` holds no digit).
pub open spec fn first_digit_run(t: Seq<char>) -> Seq<char>
    decreases t.len(),
{
    if t.len() == 0 {
        Seq::empty()
    } else if is_digit(t[0]) {
        digit_prefix(t)
    } else {
        first_digit_run(t.drop_first())
    }
}

/// The number a string of decimal digits denotes.
pub open spec fn digits_value(d: Seq<char>) -> nat
    decreases d.len(),
{
    if d.len() == 0 {
        0
    } else {
        digits_value(d.drop_last()) * 10 + ((d.last() as int - 48) as nat)
    }
}

/// The `u16` a run of digits denotes, if it is one.
pub open spec fn digits_u16(d: Seq<char>) -> Option<u16> {
    if d.len() == 0 || digits_value(d) > 65535 {
        None
    } else {
        Some(digits_value(d) as u16)
    }
}

/// The angle requested by a body such as `{"angle": 120}`: the first digit
/// run after the first `:` that follows the first `"angle"`, when it is a
/// `u16`.
pub open spec fn angle_in(p: Seq<char>) -> Option<u16> {
    match find(p, "\"angle\""@) {
        None => None,
        Some(idx) => {
            let rest = p.skip(idx + "\"angle\""@.len());
            match find(rest, seq![':']) {
                None => None,
                Some(c) => digits_u16(first_digit_run(rest.skip(c + 1))),
            }
        },
    }
}

proof fn lemma_digit_prefix_all_digits(t: Seq<char>)
    ensures
        forall|i: int| 0 <= i < digit_prefix(t).len() ==> is_digit(#[trigger] digit_prefix(t)[i]),
    decreases t.len(),
{
    if t.len() > 0 && is_digit(t[0]) {
        lemma_digit_prefix_all_digits(t.drop_first());
        let d = digit_prefix(t);
        assert forall|i: int| 0 <= i < d.len() implies is_digit(#[trigger] d[i]) by {
            if i > 0 {
                assert(d[i] == digit_prefix(t.drop_first())[i - 1]);
            }
        }
    }
}

proof fn lemma_first_run_all_digits(t: Seq<char>)
    ensures
        forall|i: int| 0 <= i < first_digit_run(t).len() ==> is_digit(#[trigger] first_digit_run(t)[i]),
    decreases t.len(),
{
    if t.len() == 0 {
        assert(first_digit_run(t).len() == 0);
    } else if is_digit(t[0]) {
        lemma_digit_prefix_all_digits(t);
        assert(first_digit_run(t) == digit_prefix(t));
    } else {
        lemma_first_run_all_digits(t.drop_first());
        assert(first_digit_run(t) == first_digit_run(t.drop_first()));
    }
}

/// The first run of digits in `t`.
fn first_digit_run_exec(t: &[char]) -> (d: Vec<char>)
    ensures
        d@ == first_digit_run(t@),
{
    let mut digits: Vec<char> = Vec::new();
    let n = t.len();
    let mut i: usize = 0;
    assert(t@.skip(0) =~= t@);
    while i < n
        invariant_except_break
            i <= n,
            n == t@.len(),
            first_digit_run(t@) == (if digits@.len() == 0 {
                first_digit_run(t@.skip(i as int))
            } else {
                digits@ + digit_prefix(t@.skip(i as int))
            }),
        ensures
            digits@ == first_digit_run(t@),
        decreases n - i,
    {
        let c = t[i];
        assert(t@.skip(i as int)[0] == c);
        assert(t@.skip(i as int).drop_first() =~= t@.skip(i + 1));
        if '0' <= c && c <= '9' {
            proof {
                if digits@.len() == 0 {
                    assert(first_digit_run(t@.skip(i as int)) == digit_prefix(t@.skip(i as int)));
                }
                assert(digits@.push(c) + digit_prefix(t@.skip(i + 1)) =~= digits@ + (seq![c] + digit_prefix(t@.skip(i + 1))));
            }
            digits.push(c);
        } else if digits.len() != 0 {
            assert(digit_prefix(t@.skip(i as int)) == Seq::<char>::empty());
            assert(digits@ + Seq::<char>::empty() =~= digits@);
            break;
        }
        i = i + 1;
    }
    proof {
        if i == n {
            assert(t@.skip(n as int) =~= Seq::<char>::empty());
            assert(digits@ + Seq::<char>::empty() =~= digits@);
        }
    }
    digits
}

/// The `u16` denoted by a run of digits, `None` when it is empty or too large.
fn digits_to_u16(d: &[char]) -> (r: Option<u16>)
    requires
        forall|i: int| 0 <= i < d@.len() ==> is_digit(#[trigger] d@[i]),
    ensures
        r == digits_u16(d@),
{
    let n = d.len();
    if n == 0 {
        return None;
    }
    let mut val: u32 = 0;
    let mut over = false;
    for i in 0..n
        invariant
            n == d@.len(),
            forall|j: int| 0 <= j < d@.len() ==> is_digit(#[trigger] d@[j]),
            over ==> digits_value(d@.take(i as int)) > 65535,
            !over ==> val == digits_value(d@.take(i as int)) && val <= 65535,
    {
        let c = d[i];
        assert(is_digit(d@[i as int]));
        assert(d@.take(i + 1).drop_last() =~= d@.take(i as int));
        assert(d@.take(i + 1).last() == c);
        if !over {
            let digit_val: u32 = (c as u32) - 48;
            val = val * 10 + digit_val;
            if val > 65535 {
                over = true;
            }
        }
    }
    assert(d@.take(n as int) =~= d@);
    if over {
        None
    } else {
        Some(val as u16)
    }
}

/// The angle requested by a servo POST body, e.g. `{"angle": 120}`.
pub fn parse_angle(payload: &str) -> (r: Option<u16>)
    ensures
        r == angle_in(payload@),
{
    let p = chars_of(payload);
    let key = chars_of("\"angle\"");
    let idx = match find_exec(p.as_slice(), key.as_slice()) {
        Some(i) => i,
        None => return None,
    };
    let plen = p.len();
    let start = idx + key.len();
    let rest = slice_chars(p.as_slice(), start, plen);
    assert(rest@ =~= p@.skip(start as int));
    let colon_pat: Vec<char> = vec![':'];
    assert(colon_pat@ =~= seq![':']);
    let colon = match find_exec(rest.as_slice(), colon_pat.as_slice()) {
        Some(c) => c,
        None => return None,
    };
    let tail = slice_chars(rest.as_slice(), colon + 1, rest.len());
    assert(tail@ =~= rest@.skip(colon + 1));
    let digits = first_digit_run_exec(tail.as_slice());
    proof {
        lemma_first_run_all_digits(tail@);
    }
    digits_to_u16(digits.as_slice())
}

/// A copy of `s[from..to]`.
pub fn slice_chars(s: &[char], from: usize, to: usize) -> (r: Vec<char>)
    requires
        from <= to <= s@.len(),
    ensures
        r@ == s@.subrange(from as int, to as int),
{
    let mut out: Vec<char> = Vec::new();
    let mut i = from;
    while i < to
        invariant
            from <= i <= to <= s@.len(),
            out@ == s@.subrange(from as int, i as int),
        decreases to - i,
    {
        out.push(s[i]);
        assert(s@.subrange(from as int, i as int).push(s@[i as int]) =~= s@.subrange(from as int, i + 1));
        i = i + 1;
    }
    out
}

/// Whether a character has the Unicode White_Space property: tab, line
/// feed, vertical tab, form feed, carriage return, space, U+0085, U+00A0,
/// U+1680, U+2000..=U+200A, U+2028, U+2029, U+202F, U+205F and U+3000.
pub open spec fn char_is_whitespace(c: char) -> bool {
    let u = c as u32;
    ||| 0x09 <= u <= 0x0d
    ||| u == 0x20
    ||| u == 0x85
    ||| u == 0xa0
    ||| u == 0x1680
    ||| 0x2000 <= u <= 0x200a
    ||| u == 0x2028
    ||| u == 0x2029
    ||| u == 0x202f
    ||| u == 0x205f
    ||| u == 0x3000
}

/// std's `char::is_whitespace`, which its documentation defines by the
/// White_Space property.
#[verifier::external_body]
fn is_whitespace(c: char) -> (r: bool)
    ensures
        r == char_is_whitespace(c),
{
    c.is_whitespace()
}

/// The text with every whitespace character removed.
pub open spec fn strip_whitespace(s: Seq<char>) -> Seq<char>
    decreases s.len(),
{
    if s.len() == 0 {
        Seq::empty()
    } else {
        strip_whitespace(s.drop_last()) + (if char_is_whitespace(s.last()) {
            Seq::empty()
        } else {
            seq![s.last()]
        })
    }
}

/// Number of bytes in the UTF-8 encoding of a character.
pub open spec fn utf8_width(c: char) -> nat {
    if (c as u32) < 0x80 {
        1
    } else if (c as u32) < 0x800 {
        2
    } else if (c as u32) < 0x10000 {
        3
    } else {
        4
    }
}

/// Number of bytes in the UTF-8 encoding of a text.
pub open spec fn utf8_len(s: Seq<char>) -> nat
    decreases s.len(),
{
    if s.len() == 0 {
        0
    } else {
        utf8_len(s.drop_last()) + utf8_width(s.last())
    }
}

/// The number of leading characters of `s`, counting from `k` on, whose
/// encoding is exactly `b` bytes long; `None` when byte offset `b` falls
/// inside a character or past the end.
pub open spec fn prefix_with_bytes(s: Seq<char>, b: int, k: int) -> Option<int>
    decreases s.len() + 1 - k,
{
    if k < 0 || k > s.len() {
        None
    } else if utf8_len(s.take(k)) == b {
        Some(k)
    } else {
        prefix_with_bytes(s, b, k + 1)
    }
}

/// Index of the first `"` not escaped by a backslash, scanning from `i` with
/// `escape` telling whether the previous character was an escaping
/// backslash; `0` when there is none.
pub open spec fn quote_end(s: Seq<char>, i: int, escape: bool) -> int
    decreases s.len() - i,
{
    if i < 0 || i >= s.len() {
        0
    } else if escape {
        quote_end(s, i + 1, false)
    } else if s[i] == '\\' {
        quote_end(s, i + 1, true)
    } else if s[i] == '"' {
        i
    } else {
        quote_end(s, i + 1, false)
    }
}

/// `s` with every non-overlapping occurrence of `pat`, left to right,
/// replaced by `rep`.
pub open spec fn replace_all(s: Seq<char>, pat: Seq<char>, rep: Seq<char>) -> Seq<char>
    decreases s.len(),
{
    if pat.len() == 0 || s.len() < pat.len() {
        s
    } else if s.take(pat.len() as int) == pat {
        rep + replace_all(s.skip(pat.len() as int), pat, rep)
    } else {
        seq![s[0]] + replace_all(s.drop_first(), pat, rep)
    }
}

/// Undoing the `\"` and `\\` escapes, in that order.
pub open spec fn unescape(s: Seq<char>) -> Seq<char> {
    replace_all(replace_all(s, seq!['\\', '"'], seq!['"']), seq!['\\', '\\'], seq!['\\'])
}

/// The pattern `"key":"` that opens a string member.
pub open spec fn member_needle(key: Seq<char>) -> Seq<char> {
    "\""@ + key + "\":\""@
}

/// The text after `"key":"`, when that pattern occurs.
pub open spec fn member_rest(c: Seq<char>, key: Seq<char>) -> Option<Seq<char>> {
    match find(c, member_needle(key)) {
        None => None,
        Some(i) => Some(c.skip(i + member_needle(key).len())),
    }
}

/// Whether extracting member `key` from `c` stays within character
/// boundaries: the string is cut at a byte offset equal to the character
/// index of its closing quote, which must fall between two characters.
pub open spec fn extract_defined(c: Seq<char>, key: Seq<char>) -> bool {
    match member_rest(c, key) {
        None => true,
        Some(rest) => prefix_with_bytes(rest, quote_end(rest, 0, false), 0) is Some,
    }
}

/// The unescaped value of string member `key` of a whitespace-free body.
pub open spec fn extracted(c: Seq<char>, key: Seq<char>) -> Option<Seq<char>> {
    match member_rest(c, key) {
        None => None,
        Some(rest) => match prefix_with_bytes(rest, quote_end(rest, 0, false), 0) {
            Some(k) => Some(unescape(rest.take(k))),
            None => None,
        },
    }
}

proof fn lemma_utf8_len_grows(s: Seq<char>, k: int, j: int)
    requires
        0 <= k <= j <= s.len(),
    ensures
        utf8_len(s.take(k)) + (j - k) <= utf8_len(s.take(j)),
    decreases j - k,
{
    if k < j {
        lemma_utf8_len_grows(s, k, j - 1);
        assert(s.take(j).drop_last() =~= s.take(j - 1));
    }
}

proof fn lemma_prefix_past(s: Seq<char>, b: int, k: int)
    requires
        0 <= k <= s.len(),
        utf8_len(s.take(k)) > b,
    ensures
        prefix_with_bytes(s, b, k) is None,
    decreases s.len() + 1 - k,
{
    if k < s.len() {
        lemma_utf8_len_grows(s, k, k + 1);
        lemma_prefix_past(s, b, k + 1);
    } else {
        assert(prefix_with_bytes(s, b, k + 1) is None);
    }
}

/// Byte length of a character's UTF-8 encoding.
fn utf8_width_exec(c: char) -> (w: usize)
    ensures
        w == utf8_width(c),
{
    let v = c as u32;
    if v < 0x80 {
        1
    } else if v < 0x800 {
        2
    } else if v < 0x10000 {
        3
    } else {
        4
    }
}

/// Number of leading characters of `s` whose encoding is `b` bytes long.
fn prefix_with_bytes_exec(s: &[char], b: usize) -> (r: Option<usize>)
    ensures
        r matches Some(k) ==> prefix_with_bytes(s@, b as int, 0) == Some(k as int) && k <= s@.len(),
        r is None ==> prefix_with_bytes(s@, b as int, 0) is None,
{
    let n = s.len();
    let mut k: usize = 0;
    let mut acc: usize = 0;
    assert(s@.take(0) =~= Seq::<char>::empty());
    while k <= n
        invariant
            n == s@.len(),
            k <= n + 1,
            k <= n ==> acc == utf8_len(s@.take(k as int)),
            acc <= b,
            prefix_with_bytes(s@, b as int, 0) == prefix_with_bytes(s@, b as int, k as int),
        decreases n + 1 - k,
    {
        if acc == b {
            return Some(k);
        }
        if k == n {
            assert(prefix_with_bytes(s@, b as int, (n + 1) as int) is None);
            return None;
        }
        let w = utf8_width_exec(s[k]);
        assert(s@.take(k + 1).drop_last() =~= s@.take(k as int));
        if w > b - acc {
            proof {
                lemma_prefix_past(s@, b as int, k + 1);
            }
            return None;
        }
        acc = acc + w;
        k = k + 1;
    }
    None
}

/// Index of the first unescaped `"` of `s`, or `0`.
fn quote_end_exec(s: &[char]) -> (r: usize)
    ensures
        r == quote_end(s@, 0, false),
        r <= s@.len(),
{
    let n = s.len();
    let mut escape = false;
    let mut i: usize = 0;
    while i < n
        invariant
            n == s@.len(),
            i <= n,
            quote_end(s@, 0, false) == quote_end(s@, i as int, escape),
        decreases n - i,
    {
        if escape {
            escape = false;
        } else if s[i] == '\\' {
            escape = true;
        } else if s[i] == '"' {
            return i;
        }
        i = i + 1;
    }
    0
}

proof fn lemma_replace_step(s: Seq<char>, pat: Seq<char>, rep: Seq<char>, i: int)
    requires
        pat.len() > 0,
        0 <= i < s.len(),
    ensures
        occurs_at(s, pat, i) ==> replace_all(s.skip(i), pat, rep)
            == rep + replace_all(s.skip(i + pat.len()), pat, rep),
        !occurs_at(s, pat, i) ==> replace_all(s.skip(i), pat, rep)
            == seq![s[i]] + replace_all(s.skip(i + 1), pat, rep),
{
    let t = s.skip(i);
    assert(t.drop_first() =~= s.skip(i + 1));
    if i + pat.len() <= s.len() {
        assert(t.take(pat.len() as int) =~= s.subrange(i, i + pat.len()));
        assert(t.skip(pat.len() as int) =~= s.skip(i + pat.len()));
    } else {
        assert(replace_all(s.skip(i + 1), pat, rep) == s.skip(i + 1));
        assert(t =~= seq![s[i]] + s.skip(i + 1));
    }
}

/// Replaces every non-overlapping occurrence of `pat`, left to right.
pub fn replace_all_exec(s: &[char], pat: &[char], rep: &[char]) -> (r: Vec<char>)
    requires
        pat@.len() > 0,
    ensures
        r@ == replace_all(s@, pat@, rep@),
{
    let n = s.len();
    let mut out: Vec<char> = Vec::new();
    let mut i: usize = 0;
    assert(s@.skip(0) =~= s@);
    while i < n
        invariant
            n == s@.len(),
            i <= n,
            pat@.len() > 0,
            out@ + replace_all(s@.skip(i as int), pat@, rep@) == replace_all(s@, pat@, rep@),
        decreases n - i,
    {
        proof {
            lemma_replace_step(s@, pat@, rep@, i as int);
        }
        if occurs_at_exec(s, pat, i) {
            let m = rep.len();
            let ghost before = out@;
            for j in 0..m
                invariant
                    m == rep@.len(),
                    out@ == before + rep@.take(j as int),
            {
                out.push(rep[j]);
                assert(rep@.take(j + 1) =~= rep@.take(j as int).push(rep@[j as int]));
            }
            assert(rep@.take(m as int) =~= rep@);
            assert(before + rep@ + replace_all(s@.skip(i + pat@.len()), pat@, rep@)
                =~= before + (rep@ + replace_all(s@.skip(i + pat@.len()), pat@, rep@)));
            i = i + pat.len();
        } else {
            let ghost before = out@;
            out.push(s[i]);
            assert(before.push(s@[i as int]) + replace_all(s@.skip(i + 1), pat@, rep@)
                =~= before + (seq![s@[i as int]] + replace_all(s@.skip(i + 1), pat@, rep@)));
            i = i + 1;
        }
    }
    assert(s@.skip(n as int) =~= Seq::<char>::empty());
    assert(replace_all(Seq::<char>::empty(), pat@, rep@) == Seq::<char>::empty());
    assert(out@ + Seq::<char>::empty() =~= out@);
    out
}

/// The text following `"key":"` in `c`, if that pattern occurs.
fn member_rest_exec(c: &[char], key: &str) -> (r: Option<Vec<char>>)
    ensures
        r matches Some(v) ==> member_rest(c@, key@) == Some(v@),
        r is None ==> member_rest(c@, key@) is None,
{
    let mut needle = String::new();
    push_str(&mut needle, "\"");
    push_str(&mut needle, key);
    push_str(&mut needle, "\":\"");
    let nd = chars_of(needle.as_str());
    assert(nd@ == member_needle(key@));
    match find_exec(c, nd.as_slice()) {
        None => None,
        Some(start) => {
            assert(occurs_at(c@, nd@, start as int));
            let clen = c.len();
            assert(start + nd@.len() <= clen);
            let from = start + nd.len();
            let rest = slice_chars(c, from, c.len());
            assert(rest@ =~= c@.skip(from as int));
            Some(rest)
        },
    }
}

/// Whether [`extract_json_string`] can cut member `key` out of `compact`
/// without splitting a character.
pub fn extract_is_defined(compact: &str, key: &str) -> (r: bool)
    ensures
        r == extract_defined(compact@, key@),
{
    let c = chars_of(compact);
    match member_rest_exec(c.as_slice(), key) {
        None => true,
        Some(rest) => {
            let end = quote_end_exec(rest.as_slice());
            prefix_with_bytes_exec(rest.as_slice(), end).is_some()
        },
    }
}

/// The value of string member `key` in a whitespace-free JSON body, found
/// by text search: the characters after `"key":"` up to the first unescaped
/// quote (cut at the byte offset equal to that quote's character index),
/// with `\"` and `\\` unescaped. A missing closing quote gives the empty
/// value.
pub fn extract_json_string(compact: &str, key: &str) -> (r: Option<String>)
    requires
        extract_defined(compact@, key@),
    ensures
        r matches Some(s) ==> extracted(compact@, key@) == Some(s@),
        r is None ==> extracted(compact@, key@) is None,
{
    let c = chars_of(compact);
    let rest = match member_rest_exec(c.as_slice(), key) {
        None => return None,
        Some(rest) => rest,
    };
    let end = quote_end_exec(rest.as_slice());
    let k = match prefix_with_bytes_exec(rest.as_slice(), end) {
        Some(k) => k,
        None => return None,
    };
    proof {
        lemma_utf8_len_grows(rest@, 0, k as int);
        assert(rest@.take(0) =~= Seq::<char>::empty());
    }
    let value = slice_chars(rest.as_slice(), 0, k);
    assert(value@ =~= rest@.take(k as int));
    let quote_pat: Vec<char> = vec!['\\', '"'];
    let quote_rep: Vec<char> = vec!['"'];
    let bs_pat: Vec<char> = vec!['\\', '\\'];
    let bs_rep: Vec<char> = vec!['\\'];
    assert(quote_pat@ =~= seq!['\\', '"']);
    assert(quote_rep@ =~= seq!['"']);
    assert(bs_pat@ =~= seq!['\\', '\\']);
    assert(bs_rep@ =~= seq!['\\']);
    let v1 = replace_all_exec(value.as_slice(), quote_pat.as_slice(), quote_rep.as_slice());
    let v2 = replace_all_exec(v1.as_slice(), bs_pat.as_slice(), bs_rep.as_slice());
    Some(string_from_chars(v2.as_slice()))
}

/// The body with whitespace removed.
pub fn strip_whitespace_exec(s: &str) -> (r: String)
    ensures
        r@ == strip_whitespace(s@),
{
    let cs = chars_of(s);
    let n = cs.len();
    let mut out = String::new();
    for i in 0..n
        invariant
            n == cs@.len(),
            cs@ == s@,
            out@ == strip_whitespace(cs@.take(i as int)),
    {
        assert(cs@.take(i + 1).drop_last() =~= cs@.take(i as int));
        assert(cs@.take(i + 1).last() == cs@[i as int]);
        if !is_whitespace(cs[i]) {
            string_push(&mut out, cs[i]);
        } else {
            assert(out@ + Seq::<char>::empty() =~= out@);
        }
    }
    assert(cs@.take(n as int) =~= cs@);
    out
}

/// The view of an optional text.
pub open spec fn opt_view(o: Option<String>) -> Option<Seq<char>> {
    match o {
        Some(s) => Some(s@),
        None => None,
    }
}

/// Whether [`parse_connect_body`] can read every member of the body.
pub open spec fn connect_body_defined(p: Seq<char>) -> bool {
    let c = strip_whitespace(p);
    &&& extract_defined(c, "ssid"@)
    &&& extract_defined(c, "password"@)
    &&& extract_defined(c, "username"@)
    &&& extract_defined(c, "auth"@)
}

/// Whether a connect body can be read without splitting a character.
pub fn connect_body_is_parsable(payload: &str) -> (r: bool)
    ensures
        r == connect_body_defined(payload@),
{
    let compact = strip_whitespace_exec(payload);
    let c = compact.as_str();
    extract_is_defined(c, "ssid") && extract_is_defined(c, "password") && extract_is_defined(c, "username")
        && extract_is_defined(c, "auth")
}

/// Credentials of a connect request `{"ssid":..,"password":..,"username":..,"auth":..}`:
/// SSID (empty when absent), password, user name, and authentication name
/// (`wpa2` when absent).
pub fn parse_connect_body(payload: &str) -> (r: (String, Option<String>, Option<String>, String))
    requires
        connect_body_defined(payload@),
    ensures
        ({
            let c = strip_whitespace(payload@);
            &&& r.0@ == (match extracted(c, "ssid"@) { Some(v) => v, None => Seq::empty() })
            &&& opt_view(r.1) == extracted(c, "password"@)
            &&& opt_view(r.2) == extracted(c, "username"@)
            &&& r.3@ == (match extracted(c, "auth"@) { Some(v) => v, None => "wpa2"@ })
        }),
{
    let compact = strip_whitespace_exec(payload);
    let c = compact.as_str();
    let ssid = match extract_json_string(c, "ssid") {
        Some(s) => s,
        None => String::new(),
    };
    let password = extract_json_string(c, "password");
    let username = extract_json_string(c, "username");
    let auth = match extract_json_string(c, "auth") {
        Some(s) => s,
        None => String::from_str("wpa2"),
    };
    (ssid, password, username, auth)
}

/// Dotted-decimal text of an IPv4 address.
pub open spec fn ipv4_text(ip: [u8; 4]) -> Seq<char> {
    decimal(ip[0] as nat) + seq!['.'] + decimal(ip[1] as nat) + seq!['.'] + decimal(ip[2] as nat) + seq!['.']
        + decimal(ip[3] as nat)
}

/// Appends the dotted-decimal text of an IPv4 address.
pub fn push_ipv4(s: &mut String, ip: [u8; 4])
    ensures
        final(s)@ == old(s)@ + ipv4_text(ip),
{
    push_decimal(s, ip[0] as u64);
    string_push(s, '.');
    push_decimal(s, ip[1] as u64);
    string_push(s, '.');
    push_decimal(s, ip[2] as u64);
    string_push(s, '.');
    push_decimal(s, ip[3] as u64);
    assert(final(s)@ =~= old(s)@ + ipv4_text(ip));
}

/// Dotted-decimal text of an IPv4 address, e.g. `192.168.71.1`.
pub fn ipv4_to_string(ip: [u8; 4]) -> (r: String)
    ensures
        r@ == ipv4_text(ip),
{
    let mut s = String::new();
    push_ipv4(&mut s, ip);
    assert(s@ =~= ipv4_text(ip));
    s
}

/// JSON object describing one scanned access point.
pub open spec fn ap_entry_json(ap: ApEntry) -> Seq<char> {
    "{\"ssid\":\""@ + escape_json_spec(ap.ssid@) + "\",\"rssi\":"@ + signed_decimal(ap.rssi as int)
        + ",\"auth\":\""@ + escape_json_spec(ap.auth@) + "\"}"@
}

/// The access-point objects joined with commas.
pub open spec fn ap_entries_json(list: Seq<ApEntry>) -> Seq<char>
    decreases list.len(),
{
    if list.len() == 0 {
        Seq::empty()
    } else if list.len() == 1 {
        ap_entry_json(list[0])
    } else {
        ap_entries_json(list.drop_last()) + seq![','] + ap_entry_json(list.last())
    }
}

/// Law: one network renders as its object alone, and the entries of two
/// non-empty lists rendered one after the other are joined by exactly one
/// comma, so that every two consecutive networks are separated by one comma.
pub proof fn law_scan_entries_join(a: Seq<ApEntry>, b: Seq<ApEntry>)
    requires
        a.len() >= 1,
        b.len() >= 1,
    ensures
        ap_entries_json(seq![a[0]]) == ap_entry_json(a[0]),
        ap_entries_json(a + b) == ap_entries_json(a) + seq![','] + ap_entries_json(b),
    decreases b.len(),
{
    let ab = a + b;
    assert(ab.drop_last() =~= (if b.len() == 1 { a } else { a + b.drop_last() }));
    assert(ab.last() == b.last());
    if b.len() > 1 {
        law_scan_entries_join(a, b.drop_last());
        assert(ap_entries_json(a + b.drop_last()) + seq![','] + ap_entry_json(b.last())
            =~= ap_entries_json(a) + seq![','] + (ap_entries_json(b.drop_last()) + seq![','] + ap_entry_json(b.last())));
    } else {
        assert(ap_entries_json(b) == ap_entry_json(b[0]));
        assert(b.last() == b[0]);
    }
}

/// Body of the scan endpoint for a list of access points.
pub open spec fn scan_json(list: Seq<ApEntry>) -> Seq<char> {
    "{\"networks\":["@ + ap_entries_json(list) + "]}"@
}

/// Appends the JSON object of one access point.
fn push_ap_entry(out: &mut String, ap: &ApEntry)
    ensures
        final(out)@ == old(out)@ + ap_entry_json(*ap),
{
    push_str(out, "{\"ssid\":\"");
    let e = escape_json(ap.ssid.as_str());
    push_str(out, e.as_str());
    push_str(out, "\",\"rssi\":");
    push_signed_decimal(out, ap.rssi);
    push_str(out, ",\"auth\":\"");
    let a = escape_json(ap.auth.as_str());
    push_str(out, a.as_str());
    push_str(out, "\"}");
    assert(final(out)@ =~= old(out)@ + ap_entry_json(*ap));
}

/// Body of the scan endpoint: `{"networks":[{"ssid":..,"rssi":..,"auth":..},..]}`.
pub fn wifi_scan_json(list: &[ApEntry]) -> (r: String)
    ensures
        r@ == scan_json(list@),
{
    let mut out = String::new();
    push_str(&mut out, "{\"networks\":[");
    let ghost head = out@;
    let n = list.len();
    for i in 0..n
        invariant
            n == list@.len(),
            out@ == head + ap_entries_json(list@.take(i as int)),
    {
        let ghost before = out@;
        if i > 0 {
            string_push(&mut out, ',');
        }
        push_ap_entry(&mut out, &list[i]);
        proof {
            let t = list@.take(i + 1);
            assert(t.drop_last() =~= list@.take(i as int));
            assert(t.last() == list@[i as int]);
            if i == 0 {
                assert(list@.take(0) =~= Seq::<ApEntry>::empty());
                assert(out@ =~= head + ap_entries_json(t));
            } else {
                assert(out@ =~= head + ap_entries_json(t));
            }
        }
    }
    assert(list@.take(n as int) =~= list@);
    push_str(&mut out, "]}");
    assert(out@ =~= scan_json(list@));
    out
}

/// Body of the scan endpoint for the Wi-Fi task's reply (`None` when no
/// reply came): the networks of a scan reply, otherwise an empty list.
pub fn wifi_scan_reply(resp: &Option<WifiResponse>) -> (r: String)
    ensures
        resp matches Some(WifiResponse::Scan(list)) ==> r@ == scan_json(list@),
        !(resp matches Some(WifiResponse::Scan(_))) ==> r@ == "{\"networks\":[]}"@,
{
    match resp {
        Some(WifiResponse::Scan(list)) => wifi_scan_json(list.as_slice()),
        _ => String::from_str("{\"networks\":[]}"),
    }
}

/// Body reporting a station connection.
pub open spec fn status_connected_json(sta: StaInfo) -> Seq<char> {
    "{\"connected\":true,\"ip\":\""@ + sta.ip@ + "\",\"ssid\":\""@ + escape_json_spec(sta.ssid@) + "\"}"@
}

/// Body of the status endpoint: the connection when the reply reports one,
/// otherwise `{"connected":false}`.
pub fn wifi_status_reply(resp: &Option<WifiResponse>) -> (r: String)
    ensures
        resp matches Some(WifiResponse::Status(Some(sta))) ==> r@ == status_connected_json(*sta),
        !(resp matches Some(WifiResponse::Status(Some(_)))) ==> r@ == "{\"connected\":false}"@,
{
    match resp {
        Some(WifiResponse::Status(Some(sta))) => {
            let mut out = String::new();
            push_str(&mut out, "{\"connected\":true,\"ip\":\"");
            push_str(&mut out, sta.ip.as_str());
            push_str(&mut out, "\",\"ssid\":\"");
            let e = escape_json(sta.ssid.as_str());
            push_str(&mut out, e.as_str());
            push_str(&mut out, "\"}");
            assert(out@ =~= status_connected_json(*sta));
            out
        },
        _ => String::from_str("{\"connected\":false}"),
    }
}

/// Body of a failed request carrying an error text, escaped.
pub open spec fn error_json(e: Seq<char>) -> Seq<char> {
    "{\"ok\":false,\"error\":\""@ + escape_json_spec(e) + "\"}"@
}

/// Body of a failed request after the Wi-Fi task did not answer.
pub open spec fn timeout_json() -> Seq<char> {
    "{\"ok\":false,\"error\":\"timeout\"}"@
}

/// Body with an escaped error text.
fn error_body(e: &str) -> (r: String)
    ensures
        r@ == error_json(e@),
{
    let mut out = String::new();
    push_str(&mut out, "{\"ok\":false,\"error\":\"");
    let esc = escape_json(e);
    push_str(&mut out, esc.as_str());
    push_str(&mut out, "\"}");
    assert(out@ =~= error_json(e@));
    out
}

/// Body of a successful connection.
pub open spec fn connected_json(sta: StaInfo) -> Seq<char> {
    "{\"ok\":true,\"ip\":\""@ + sta.ip@ + "\",\"ssid\":\""@ + escape_json_spec(sta.ssid@) + "\"}"@
}

/// Status code, reason phrase and body of the connect endpoint: 200 with
/// the address and SSID on success, 400 with the error text on failure,
/// 500 `timeout` when the Wi-Fi task gave no connect reply.
pub fn wifi_connect_reply(resp: &Option<WifiResponse>) -> (r: (u16, &'static str, String))
    ensures
        resp matches Some(WifiResponse::Connect(Ok(sta))) ==> r.0 == 200 && r.1@ == "OK"@ && r.2@
            == connected_json(*sta),
        resp matches Some(WifiResponse::Connect(Err(e))) ==> r.0 == 400 && r.1@ == "Error"@ && r.2@
            == error_json(e@),
        !(resp matches Some(WifiResponse::Connect(_))) ==> r.0 == 500 && r.1@ == "Error"@ && r.2@
            == timeout_json(),
{
    match resp {
        Some(WifiResponse::Connect(Ok(sta))) => {
            let mut out = String::new();
            push_str(&mut out, "{\"ok\":true,\"ip\":\"");
            push_str(&mut out, sta.ip.as_str());
            push_str(&mut out, "\",\"ssid\":\"");
            let e = escape_json(sta.ssid.as_str());
            push_str(&mut out, e.as_str());
            push_str(&mut out, "\"}");
            assert(out@ =~= connected_json(*sta));
            (200, "OK", out)
        },
        Some(WifiResponse::Connect(Err(e))) => (400, "Error", error_body(e.as_str())),
        _ => (500, "Error", String::from_str("{\"ok\":false,\"error\":\"timeout\"}")),
    }
}

/// Status code, reason phrase and body of the stop-AP endpoint: 200 when
/// the soft-AP was stopped, 500 with the error text or `timeout` otherwise.
pub fn stop_ap_reply(resp: &Option<WifiResponse>) -> (r: (u16, &'static str, String))
    ensures
        r.1@ == "OK"@,
        resp matches Some(WifiResponse::StopAp(Ok(_))) ==> r.0 == 200 && r.2@ == "{\"ok\":true}"@,
        resp matches Some(WifiResponse::StopAp(Err(e))) ==> r.0 == 500 && r.2@ == error_json(e@),
        !(resp matches Some(WifiResponse::StopAp(_))) ==> r.0 == 500 && r.2@ == timeout_json(),
{
    match resp {
        Some(WifiResponse::StopAp(Ok(_))) => (200, "OK", String::from_str("{\"ok\":true}")),
        Some(WifiResponse::StopAp(Err(e))) => (500, "OK", error_body(e.as_str())),
        _ => (500, "OK", String::from_str("{\"ok\":false,\"error\":\"timeout\"}")),
    }
}

/// Whether `c` is the connect command a body asks for.
pub open spec fn connect_command_is(c: WifiCommand, payload: Seq<char>) -> bool {
    let c0 = strip_whitespace(payload);
    c matches WifiCommand::Connect { ssid, password, username, auth }
        && ssid@ == (match extracted(c0, "ssid"@) { Some(v) => v, None => Seq::empty() })
        && opt_view(password) == extracted(c0, "password"@)
        && opt_view(username) == extracted(c0, "username"@)
        && auth@ == (match extracted(c0, "auth"@) { Some(v) => v, None => "wpa2"@ })
}

/// The command a connect body asks the Wi-Fi task to run.
pub fn connect_command(payload: &str) -> (c: WifiCommand)
    requires
        connect_body_defined(payload@),
    ensures
        connect_command_is(c, payload@),
{
    let (ssid, password, username, auth) = parse_connect_body(payload);
    WifiCommand::Connect { ssid, password, username, auth }
}

/// The command of a connect body, or `None` when a member value would be
/// cut inside a character (where reading the body fails).
pub fn checked_connect_command(payload: &str) -> (r: Option<WifiCommand>)
    ensures
        r is None <==> !connect_body_defined(payload@),
        r matches Some(c) ==> connect_command_is(c, payload@),
{
    if connect_body_is_parsable(payload) {
        Some(connect_command(payload))
    } else {
        None
    }
}

/// Body of the hardware status endpoint.
pub open spec fn status_json(distance: u16, servo_angle: u16, servo2_angle: u16) -> Seq<char> {
    "{\"distance\":"@ + decimal(distance as nat) + ",\"servo_angle\":"@ + decimal(servo_angle as nat)
        + ",\"servo2_angle\":"@ + decimal(servo2_angle as nat) + "}"@
}

/// `{"distance":..,"servo_angle":..,"servo2_angle":..}`.
pub fn hardware_status_json(distance: u16, servo_angle: u16, servo2_angle: u16) -> (r: String)
    ensures
        r@ == status_json(distance, servo_angle, servo2_angle),
{
    let mut out = String::new();
    push_str(&mut out, "{\"distance\":");
    push_decimal(&mut out, distance as u64);
    push_str(&mut out, ",\"servo_angle\":");
    push_decimal(&mut out, servo_angle as u64);
    push_str(&mut out, ",\"servo2_angle\":");
    push_decimal(&mut out, servo2_angle as u64);
    push_str(&mut out, "}");
    assert(out@ =~= status_json(distance, servo_angle, servo2_angle));
    out
}

/// Body reporting a distance.
pub open spec fn distance_text(distance: u16) -> Seq<char> {
    "{\"distance\":"@ + decimal(distance as nat) + "}"@
}

/// `{"distance":..}`.
pub fn distance_json(distance: u16) -> (r: String)
    ensures
        r@ == distance_text(distance),
{
    let mut out = String::new();
    push_str(&mut out, "{\"distance\":");
    push_decimal(&mut out, distance as u64);
    push_str(&mut out, "}");
    out
}

/// Body reporting a servo's angle.
pub open spec fn servo_angle_text(angle: u16) -> Seq<char> {
    "{\"angle\":"@ + decimal(angle as nat) + ",\"status\":\"ok\"}"@
}

/// `{"angle":..,"status":"ok"}`.
pub fn servo_angle_json(angle: u16) -> (r: String)
    ensures
        r@ == servo_angle_text(angle),
{
    let mut out = String::new();
    push_str(&mut out, "{\"angle\":");
    push_decimal(&mut out, angle as u64);
    push_str(&mut out, ",\"status\":\"ok\"}");
    out
}

/// Angle a servo POST asks for: the one in the body, or the current angle
/// when the body names none.
pub fn requested_angle(payload: &str, current: u16) -> (a: u16)
    ensures
        a == (match angle_in(payload@) { Some(v) => v, None => current }),
{
    match parse_angle(payload) {
        Some(v) => v,
        None => current,
    }
}

/// Whether `r` is the answer to a servo POST that set `angle` with outcome
/// `result`: 200 with the angle, or 500 with the (unescaped) error text.
pub open spec fn servo_reply_is(r: (u16, &'static str, String), angle: u16, result: Result<(), String>) -> bool {
    match result {
        Ok(_) => r.0 == 200 && r.1@ == "OK"@ && r.2@ == "{\"ok\":true,\"angle\":"@ + decimal(angle as nat) + "}"@,
        Err(e) => r.0 == 500 && r.1@ == "Internal Server Error"@ && r.2@ == "{\"ok\":false,\"error\":\""@ + e@
            + "\"}"@,
    }
}

/// Status code, reason phrase and body answering a servo POST: 200 with
/// the angle when the servo moved, 500 with the (unescaped) error text
/// otherwise.
pub fn servo_set_reply(angle: u16, result: &Result<(), String>) -> (r: (u16, &'static str, String))
    ensures
        servo_reply_is(r, angle, *result),
{
    match result {
        Ok(()) => {
            let mut out = String::new();
            push_str(&mut out, "{\"ok\":true,\"angle\":");
            push_decimal(&mut out, angle as u64);
            push_str(&mut out, "}");
            (200, "OK", out)
        },
        Err(e) => {
            let mut out = String::new();
            push_str(&mut out, "{\"ok\":false,\"error\":\"");
            push_str(&mut out, e.as_str());
            push_str(&mut out, "\"}");
            (500, "Internal Server Error", out)
        },
    }
}

/// Whether a test-mode body switches the mode on: it holds `"on":true` or
/// `"on": true`.
pub fn test_mode_requested(payload: &str) -> (on: bool)
    ensures
        on == (contains(payload@, "\"on\":true"@) || contains(payload@, "\"on\": true"@)),
{
    let p = chars_of(payload);
    let a = chars_of("\"on\":true");
    let b = chars_of("\"on\": true");
    find_exec(p.as_slice(), a.as_slice()).is_some() || find_exec(p.as_slice(), b.as_slice()).is_some()
}

/// `{"ok":true,"on":true}` or `{"ok":true,"on":false}`.
pub fn test_mode_json(on: bool) -> (r: String)
    ensures
        on ==> r@ == "{\"ok\":true,\"on\":true}"@,
        !on ==> r@ == "{\"ok\":true,\"on\":false}"@,
{
    if on {
        String::from_str("{\"ok\":true,\"on\":true}")
    } else {
        String::from_str("{\"ok\":true,\"on\":false}")
    }
}

/// Captive-portal detection: the probe URLs of Apple, Android and Windows
/// clients are all redirected to the portal page.
pub struct CaptivePortal;

impl CaptivePortal {
    /// Probe paths that get a redirect to the portal.
    pub fn redirect_paths() -> (r: Vec<&'static str>)
        ensures
            r@.len() == 8,
            r@[0]@ == "/hotspot-detect.html"@,
            r@[1]@ == "/library/test/success.html"@,
            r@[2]@ == "/gen_204"@,
            r@[3]@ == "/generate_204"@,
            r@[4]@ == "/ncsi.txt"@,
            r@[5]@ == "/check_network_status.txt"@,
            r@[6]@ == "/connectivity-check.html"@,
            r@[7]@ == "/fwlink"@,
    {
        vec![
            "/hotspot-detect.html",
            "/library/test/success.html",
            "/gen_204",
            "/generate_204",
            "/ncsi.txt",
            "/check_network_status.txt",
            "/connectivity-check.html",
            "/fwlink",
        ]
    }

    /// Target of the probe redirects: `http://<ap address>`.
    pub fn redirect_url(ip: [u8; 4]) -> (r: String)
        ensures
            r@ == "http://"@ + ipv4_text(ip),
    {
        let mut s = String::new();
        push_str(&mut s, "http://");
        push_ipv4(&mut s, ip);
        s
    }
}

/// Target of the catch-all redirect: `http://<ap address>/`.
pub fn fallback_redirect_url(ip: [u8; 4]) -> (r: String)
    ensures
        r@ == "http://"@ + ipv4_text(ip) + "/"@,
{
    let mut s = String::new();
    push_str(&mut s, "http://");
    push_ipv4(&mut s, ip);
    push_str(&mut s, "/");
    s
}

/// Access to the hardware behind the HTTP API: readers of the distance and
/// of the two servos' positions, and setters of the two servos.
#[derive(Clone)]
pub struct HardwareStatus<D, A, S, B, T> {
    pub distance: D,
    pub servo_angle: A,
    pub servo_set: S,
    pub servo2_angle: B,
    pub servo2_set: T,
}

impl<D, A, S, B, T> HardwareStatus<D, A, S, B, T> where
    D: Fn() -> u16,
    A: Fn() -> u16,
    S: Fn(u16) -> Result<(), String>,
    B: Fn() -> u16,
    T: Fn(u16) -> Result<(), String>,
 {
    /// Body of `GET /api/status`, from one reading of each value.
    pub fn status_body(&self) -> (r: String)
        requires
            call_requires(self.distance, ()),
            call_requires(self.servo_angle, ()),
            call_requires(self.servo2_angle, ()),
        ensures
            exists|d: u16, a: u16, b: u16|
                call_ensures(self.distance, (), d) && call_ensures(self.servo_angle, (), a)
                    && call_ensures(self.servo2_angle, (), b) && r@ == #[trigger] status_json(d, a, b),
    {
        let d = (self.distance)();
        let a = (self.servo_angle)();
        let b = (self.servo2_angle)();
        hardware_status_json(d, a, b)
    }

    /// Body of `GET /api/distance`.
    pub fn distance_body(&self) -> (r: String)
        requires
            call_requires(self.distance, ()),
        ensures
            exists|d: u16| call_ensures(self.distance, (), d) && r@ == #[trigger] distance_text(d),
    {
        let d = (self.distance)();
        distance_json(d)
    }

    /// Body of `GET /api/servo` (or `/api/servo2` when `servo2`).
    pub fn servo_body(&self, servo2: bool) -> (r: String)
        requires
            !servo2 ==> call_requires(self.servo_angle, ()),
            servo2 ==> call_requires(self.servo2_angle, ()),
        ensures
            exists|a: u16|
                (if servo2 { call_ensures(self.servo2_angle, (), a) } else { call_ensures(self.servo_angle, (), a) })
                    && r@ == #[trigger] servo_angle_text(a),
    {
        let a = if servo2 { (self.servo2_angle)() } else { (self.servo_angle)() };
        servo_angle_json(a)
    }

    /// Answer to `POST /api/servo` (or `/api/servo2` when `servo2`): the
    /// angle named in the body, or the servo's current angle when the body
    /// names none, is handed to the servo's setter, and the outcome is
    /// answered as [`servo_set_reply`] does.
    pub fn post_servo(&self, servo2: bool, payload: &str) -> (r: (u16, &'static str, String))
        requires
            !servo2 ==> call_requires(self.servo_angle, ()),
            servo2 ==> call_requires(self.servo2_angle, ()),
            !servo2 ==> forall|x: u16| call_requires(self.servo_set, (x,)),
            servo2 ==> forall|x: u16| call_requires(self.servo2_set, (x,)),
        ensures
            exists|angle: u16, res: Result<(), String>| {
                &&& (angle_in(payload@) matches Some(v) ==> angle == v)
                &&& (angle_in(payload@) is None ==> (if servo2 {
                    call_ensures(self.servo2_angle, (), angle)
                } else {
                    call_ensures(self.servo_angle, (), angle)
                }))
                &&& (if servo2 {
                    call_ensures(self.servo2_set, (angle,), res)
                } else {
                    call_ensures(self.servo_set, (angle,), res)
                })
                &&& #[trigger] servo_reply_is(r, angle, res)
            },
    {
        let angle = match parse_angle(payload) {
            Some(v) => v,
            None => if servo2 { (self.servo2_angle)() } else { (self.servo_angle)() },
        };
        let res = if servo2 { (self.servo2_set)(angle) } else { (self.servo_set)(angle) };
        servo_set_reply(angle, &res)
    }
}

} // verus!
