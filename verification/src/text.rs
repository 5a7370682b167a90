//! Character sequences: conversion between `str`/`String` and `Vec<char>`,
//! and the spec functions that describe text in the rest of the crate.

use vstd::prelude::*;

verus! {

broadcast use vstd::string::group_string_axioms;

/// The characters of `s`, in order.
pub fn chars_of(s: &str) -> (v: Vec<char>)
    ensures
        v@ == s@,
{
    let mut v: Vec<char> = Vec::new();
    let mut it = s.chars();
    loop
        invariant
            v@ + vstd::std_specs::iter::IteratorSpec::remaining(&it) == s@,
            vstd::std_specs::iter::IteratorSpec::decrease(&it) is Some,
        decreases vstd::std_specs::iter::IteratorSpec::decrease(&it)->0,
    {
        match it.next() {
            Some(c) => {
                v.push(c);
                assert(v@ + vstd::std_specs::iter::IteratorSpec::remaining(&it) =~= s@);
            },
            None => {
                assert(v@ =~= s@);
                return v;
            },
        }
    }
}

/// Appends one character to a string: `String::push`.
#[verifier::external_body]
pub(crate) fn push_char(s: &mut String, c: char)
    ensures
        final(s)@ == old(s)@.push(c),
{
    s.push(c);
}

/// A string holding exactly the characters of `v`.
pub fn string_of(v: &[char]) -> (s: String)
    ensures
        s@ == v@,
{
    let mut s = String::new();
    let mut i: usize = 0;
    while i < v.len()
        invariant
            i <= v@.len(),
            s@ == v@.take(i as int),
        decreases v@.len() - i,
    {
        push_char(&mut s, v[i]);
        i = i + 1;
        assert(s@ =~= v@.take(i as int));
    }
    assert(v@.take(v@.len() as int) =~= v@);
    s
}

} // verus!

verus! {

/// The decimal digit character for `d` (`0 <= d < 10`).
pub open spec fn digit_char(d: int) -> char {
    if d == 0 { '0' }
    else if d == 1 { '1' }
    else if d == 2 { '2' }
    else if d == 3 { '3' }
    else if d == 4 { '4' }
    else if d == 5 { '5' }
    else if d == 6 { '6' }
    else if d == 7 { '7' }
    else if d == 8 { '8' }
    else { '9' }
}

/// The decimal text of a natural number, without leading zeros.
pub open spec fn nat_text(n: nat) -> Seq<char>
    decreases n,
{
    if n < 10 {
        seq![digit_char(n as int)]
    } else {
        nat_text(n / 10).push(digit_char((n % 10) as int))
    }
}

/// The decimal text of an integer, as `to_string` writes it: a leading `-`
/// for negative numbers, then the digits of the magnitude.
pub open spec fn int_text(n: int) -> Seq<char> {
    if n < 0 {
        seq!['-'] + nat_text((-n) as nat)
    } else {
        nat_text(n as nat)
    }
}

pub open spec fn is_digit(c: char) -> bool {
    '0' <= c && c <= '9'
}

pub open spec fn digit_value(c: char) -> nat {
    (c as int - '0' as int) as nat
}

pub open spec fn all_digits(s: Seq<char>) -> bool {
    forall|i: int| 0 <= i < s.len() ==> is_digit(#[trigger] s[i])
}

/// The value of a run of decimal digits, most significant first.
pub open spec fn digits_value(s: Seq<char>) -> nat
    decreases s.len(),
{
    if s.len() == 0 {
        0
    } else {
        digits_value(s.drop_last()) * 10 + digit_value(s.last())
    }
}

/// The integer that Rust's `from_str` reads from `s`, before its range is
/// checked: an optional `+` (or, for signed types, `-`), then one or more
/// ASCII digits and nothing else.
pub open spec fn int_literal(s: Seq<char>, signed: bool) -> Option<int> {
    if s.len() > 0 && s[0] == '+' {
        if s.len() > 1 && all_digits(s.skip(1)) { Some(digits_value(s.skip(1)) as int) } else { None }
    } else if signed && s.len() > 0 && s[0] == '-' {
        if s.len() > 1 && all_digits(s.skip(1)) { Some(-(digits_value(s.skip(1)) as int)) } else { None }
    } else {
        if s.len() > 0 && all_digits(s) { Some(digits_value(s) as int) } else { None }
    }
}

/// What `from_str` gives for an integer type with range `lo..=hi`.
pub open spec fn int_in_range(s: Seq<char>, signed: bool, lo: int, hi: int) -> Option<int> {
    match int_literal(s, signed) {
        Some(v) => if lo <= v && v <= hi { Some(v) } else { None },
        None => None,
    }
}

fn digit(d: u8) -> (c: char)
    requires
        d < 10,
    ensures
        c == digit_char(d as int),
{
    if d == 0 { '0' }
    else if d == 1 { '1' }
    else if d == 2 { '2' }
    else if d == 3 { '3' }
    else if d == 4 { '4' }
    else if d == 5 { '5' }
    else if d == 6 { '6' }
    else if d == 7 { '7' }
    else if d == 8 { '8' }
    else { '9' }
}

/// The decimal digits of `n`.
pub fn nat_chars(n: u128) -> (v: Vec<char>)
    ensures
        v@ == nat_text(n as nat),
    decreases n,
{
    if n < 10 {
        let mut v = Vec::new();
        v.push(digit(n as u8));
        v
    } else {
        let mut v = nat_chars(n / 10);
        v.push(digit((n % 10) as u8));
        v
    }
}

/// The decimal text of `n`, as `to_string` writes it.
pub fn int_chars(n: i128) -> (v: Vec<char>)
    ensures
        v@ == int_text(n as int),
{
    if n < 0 {
        let m: u128 = ((-(n + 1)) as u128) + 1;
        assert(m as int == -(n as int));
        let digits = nat_chars(m);
        let mut v = Vec::new();
        v.push('-');
        let mut i: usize = 0;
        while i < digits.len()
            invariant
                i <= digits@.len(),
                v@ == seq!['-'] + digits@.take(i as int),
            decreases digits@.len() - i,
        {
            v.push(digits[i]);
            i = i + 1;
            assert(v@ =~= seq!['-'] + digits@.take(i as int));
        }
        assert(digits@.take(digits@.len() as int) =~= digits@);
        v
    } else {
        nat_chars(n as u128)
    }
}

/// `n.to_string()` for any integer type that fits in `i128`.
pub fn int_string(n: i128) -> (s: String)
    ensures
        s@ == int_text(n as int),
{
    let v = int_chars(n);
    string_of(v.as_slice())
}

/// `n.to_string()` for `u128`.
pub fn nat_string(n: u128) -> (s: String)
    ensures
        s@ == nat_text(n as nat),
{
    let v = nat_chars(n);
    string_of(v.as_slice())
}

proof fn lemma_digits_value_prefix(s: Seq<char>, i: int)
    requires
        0 <= i <= s.len(),
    ensures
        digits_value(s.take(i)) <= digits_value(s),
    decreases s.len(),
{
    if i < s.len() {
        lemma_digits_value_prefix(s.drop_last(), i);
        assert(s.drop_last().take(i) =~= s.take(i));
    } else {
        assert(s.take(i) =~= s);
    }
}

/// Reads the digits `s[start..]` as a magnitude no larger than `bound`.
fn read_magnitude(s: &[char], start: usize, bound: u128) -> (r: Option<u128>)
    requires
        start <= s@.len(),
    ensures
        match r {
            Some(m) => all_digits(s@.skip(start as int)) && m == digits_value(s@.skip(start as int))
                && m <= bound,
            None => !all_digits(s@.skip(start as int)) || digits_value(s@.skip(start as int)) > bound,
        },
{
    let ghost body = s@.skip(start as int);
    let mut acc: u128 = 0;
    let mut i: usize = start;
    while i < s.len()
        invariant
            start <= i <= s@.len(),
            body == s@.skip(start as int),
            all_digits(body.take(i - start)),
            acc == digits_value(body.take(i - start)),
            acc <= bound,
        decreases s@.len() - i,
    {
        let c = s[i];
        assert(body[i - start] == c);
        if !('0' <= c && c <= '9') {
            return None;
        }
        let d: u8 = ((c as u32) - ('0' as u32)) as u8;
        let ghost prefix = body.take(i + 1 - start);
        assert(prefix.drop_last() =~= body.take(i - start));
        assert(all_digits(prefix));
        let too_big = if acc > bound / 10 {
            true
        } else {
            assert(acc * 10 <= bound) by (nonlinear_arith)
                requires acc <= bound / 10;
            d as u128 > bound - acc * 10
        };
        if too_big {
            proof {
                assert(acc * 10 + d > bound) by (nonlinear_arith)
                    requires too_big == (acc > bound / 10 || (acc * 10 <= bound && d > bound - acc * 10)),
                        too_big;
                if all_digits(body) {
                    lemma_digits_value_prefix(body, i + 1 - start);
                }
            }
            return None;
        }
        acc = acc * 10 + d as u128;
        i = i + 1;
    }
    assert(body.take(i - start) =~= body);
    Some(acc)
}

} // verus!

verus! {

/// `from_str` for an integer type whose values are `lo..=hi`: `Some(v)`
/// exactly when `s` is an integer literal whose value `v` lies in range.
pub fn parse_int(s: &[char], signed: bool, lo: i128, hi: i128) -> (r: Option<i128>)
    requires
        i128::MIN < lo <= 0 <= hi,
    ensures
        match r {
            Some(x) => int_in_range(s@, signed, lo as int, hi as int) == Some(x as int),
            None => int_in_range(s@, signed, lo as int, hi as int) is None,
        },
{
    if s.len() > 0 && s[0] == '+' {
        if s.len() == 1 {
            return None;
        }
        match read_magnitude(s, 1, hi as u128) {
            Some(m) => Some(m as i128),
            None => None,
        }
    } else if signed && s.len() > 0 && s[0] == '-' {
        if s.len() == 1 {
            return None;
        }
        let bound: i128 = -lo;
        match read_magnitude(s, 1, bound as u128) {
            Some(m) => Some(-(m as i128)),
            None => None,
        }
    } else {
        if s.len() == 0 {
            return None;
        }
        assert(s@.skip(0) =~= s@);
        match read_magnitude(s, 0, hi as u128) {
            Some(m) => Some(m as i128),
            None => None,
        }
    }
}

/// `s.parse::<i8>()`.
pub fn parse_i8(s: &str) -> (r: Option<i8>)
    ensures
        match r {
            Some(x) => int_in_range(s@, true, i8::MIN as int, i8::MAX as int) == Some(x as int),
            None => int_in_range(s@, true, i8::MIN as int, i8::MAX as int) is None,
        },
{
    let v = chars_of(s);
    match parse_int(v.as_slice(), true, i8::MIN as i128, i8::MAX as i128) {
        Some(x) => Some(x as i8),
        None => None,
    }
}

/// `s.parse::<i32>()`.
pub fn parse_i32(s: &str) -> (r: Option<i32>)
    ensures
        match r {
            Some(x) => int_in_range(s@, true, i32::MIN as int, i32::MAX as int) == Some(x as int),
            None => int_in_range(s@, true, i32::MIN as int, i32::MAX as int) is None,
        },
{
    let v = chars_of(s);
    match parse_int(v.as_slice(), true, i32::MIN as i128, i32::MAX as i128) {
        Some(x) => Some(x as i32),
        None => None,
    }
}

/// `s.parse::<i64>()`.
pub fn parse_i64(s: &str) -> (r: Option<i64>)
    ensures
        match r {
            Some(x) => int_in_range(s@, true, i64::MIN as int, i64::MAX as int) == Some(x as int),
            None => int_in_range(s@, true, i64::MIN as int, i64::MAX as int) is None,
        },
{
    let v = chars_of(s);
    match parse_int(v.as_slice(), true, i64::MIN as i128, i64::MAX as i128) {
        Some(x) => Some(x as i64),
        None => None,
    }
}

/// `s.parse::<usize>()`.
pub fn parse_usize(s: &str) -> (r: Option<usize>)
    ensures
        match r {
            Some(x) => int_in_range(s@, false, 0, usize::MAX as int) == Some(x as int),
            None => int_in_range(s@, false, 0, usize::MAX as int) is None,
        },
{
    let v = chars_of(s);
    match parse_int(v.as_slice(), false, 0, usize::MAX as i128) {
        Some(x) => Some(x as usize),
        None => None,
    }
}

} // verus!

verus! {

/// The first position of `c` in `s`.
pub open spec fn first_index(s: Seq<char>, c: char) -> Option<nat>
    decreases s.len(),
{
    if s.len() == 0 {
        None
    } else if s[0] == c {
        Some(0)
    } else {
        match first_index(s.skip(1), c) {
            Some(i) => Some(i + 1),
            None => None,
        }
    }
}

pub open spec fn starts_with(s: Seq<char>, p: Seq<char>) -> bool {
    p.len() <= s.len() && s.take(p.len() as int) == p
}

pub open spec fn ends_with(s: Seq<char>, p: Seq<char>) -> bool {
    p.len() <= s.len() && s.skip(s.len() - p.len()) == p
}

/// `p` occurs in `s` (the empty pattern occurs everywhere).
pub open spec fn contains_text(s: Seq<char>, p: Seq<char>) -> bool {
    exists|i: int| 0 <= i && i + p.len() <= s.len() && #[trigger] s.subrange(i, i + p.len()) == p
}

/// `str::replace`: every non-overlapping occurrence of `p`, from left to
/// right, is replaced by `r` (`p` is not empty).
pub open spec fn replace_all(s: Seq<char>, p: Seq<char>, r: Seq<char>) -> Seq<char>
    recommends
        p.len() > 0,
    decreases s.len(),
{
    if p.len() == 0 || s.len() == 0 {
        s
    } else if starts_with(s, p) {
        r + replace_all(s.skip(p.len() as int), p, r)
    } else {
        seq![s[0]] + replace_all(s.skip(1), p, r)
    }
}

/// `str::split` on a single character: the pieces between occurrences of
/// `c`; there is always at least one piece.
pub open spec fn split_char(s: Seq<char>, c: char) -> Seq<Seq<char>>
    decreases s.len(),
{
    if s.len() == 0 {
        seq![Seq::<char>::empty()]
    } else {
        let pieces = split_char(s.drop_last(), c);
        if s.last() == c {
            pieces.push(Seq::<char>::empty())
        } else {
            pieces.update(pieces.len() - 1, pieces.last().push(s.last()))
        }
    }
}

/// The pieces joined with `sep` between neighbours.
pub open spec fn join(pieces: Seq<Seq<char>>, sep: Seq<char>) -> Seq<char>
    decreases pieces.len(),
{
    if pieces.len() == 0 {
        Seq::<char>::empty()
    } else if pieces.len() == 1 {
        pieces[0]
    } else {
        join(pieces.drop_last(), sep) + sep + pieces.last()
    }
}

/// `char::is_whitespace`: the Unicode `White_Space` property.
pub open spec fn is_whitespace(c: char) -> bool {
    ||| '\t' <= c && c <= '\r'
    ||| c == ' '
    ||| c == '\u{85}'
    ||| c == '\u{A0}'
    ||| c == '\u{1680}'
    ||| '\u{2000}' <= c && c <= '\u{200A}'
    ||| c == '\u{2028}'
    ||| c == '\u{2029}'
    ||| c == '\u{202F}'
    ||| c == '\u{205F}'
    ||| c == '\u{3000}'
}

/// `s.trim().is_empty()`: every character is whitespace.
pub open spec fn is_blank(s: Seq<char>) -> bool {
    forall|i: int| 0 <= i < s.len() ==> is_whitespace(#[trigger] s[i])
}

pub fn char_is_whitespace(c: char) -> (b: bool)
    ensures
        b == is_whitespace(c),
{
    ('\t' <= c && c <= '\r') || c == ' ' || c == '\u{85}' || c == '\u{A0}' || c == '\u{1680}'
        || ('\u{2000}' <= c && c <= '\u{200A}') || c == '\u{2028}' || c == '\u{2029}'
        || c == '\u{202F}' || c == '\u{205F}' || c == '\u{3000}'
}

/// `s.trim().is_empty()`.
pub fn blank(s: &[char]) -> (b: bool)
    ensures
        b == is_blank(s@),
{
    let mut i: usize = 0;
    while i < s.len()
        invariant
            i <= s@.len(),
            forall|k: int| 0 <= k < i ==> is_whitespace(#[trigger] s@[k]),
        decreases s@.len() - i,
    {
        if !char_is_whitespace(s[i]) {
            return false;
        }
        i = i + 1;
    }
    true
}

pub proof fn lemma_first_index(s: Seq<char>, c: char, i: int)
    requires
        0 <= i < s.len(),
        s[i] == c,
        forall|k: int| 0 <= k < i ==> s[k] != c,
    ensures
        first_index(s, c) == Some(i as nat),
    decreases i,
{
    if i > 0 {
        lemma_first_index(s.skip(1), c, i - 1);
    }
}

pub proof fn lemma_first_index_none(s: Seq<char>, c: char)
    requires
        forall|k: int| 0 <= k < s.len() ==> s[k] != c,
    ensures
        first_index(s, c) is None,
    decreases s.len(),
{
    if s.len() > 0 {
        lemma_first_index_none(s.skip(1), c);
    }
}

/// The first position of `c` in `s`.
pub fn find_char(s: &[char], c: char) -> (r: Option<usize>)
    ensures
        match r {
            Some(i) => first_index(s@, c) == Some(i as nat) && i < s@.len(),
            None => first_index(s@, c) is None,
        },
{
    let mut i: usize = 0;
    while i < s.len()
        invariant
            i <= s@.len(),
            forall|k: int| 0 <= k < i ==> s@[k] != c,
        decreases s@.len() - i,
    {
        if s[i] == c {
            proof { lemma_first_index(s@, c, i as int); }
            return Some(i);
        }
        i = i + 1;
    }
    proof { lemma_first_index_none(s@, c); }
    None
}

/// The characters `s[from..to]`.
pub fn slice_chars(s: &[char], from: usize, to: usize) -> (v: Vec<char>)
    requires
        from <= to <= s@.len(),
    ensures
        v@ == s@.subrange(from as int, to as int),
{
    let mut v: Vec<char> = Vec::new();
    let mut i: usize = from;
    while i < to
        invariant
            from <= i <= to <= s@.len(),
            v@ == s@.subrange(from as int, i as int),
        decreases to - i,
    {
        v.push(s[i]);
        i = i + 1;
        assert(v@ =~= s@.subrange(from as int, i as int));
    }
    v
}

/// `p` occurs in `s` at position `at`.
pub fn matches_at(s: &[char], at: usize, p: &[char]) -> (b: bool)
    requires
        at <= s@.len(),
    ensures
        b == (at + p@.len() <= s@.len() && s@.subrange(at as int, at + p@.len()) == p@),
{
    if p.len() > s.len() - at {
        return false;
    }
    let n = s.len();
    let mut k: usize = 0;
    while k < p.len()
        invariant
            k <= p@.len(),
            n == s@.len(),
            at + p@.len() <= s@.len(),
            forall|j: int| 0 <= j < k ==> s@[at + j] == p@[j],
        decreases p@.len() - k,
    {
        if s[at + k] != p[k] {
            assert(s@.subrange(at as int, at + p@.len())[k as int] != p@[k as int]);
            return false;
        }
        k = k + 1;
    }
    assert(s@.subrange(at as int, at + p@.len()) =~= p@);
    true
}

pub fn starts_with_chars(s: &[char], p: &[char]) -> (b: bool)
    ensures
        b == starts_with(s@, p@),
{
    let b = matches_at(s, 0, p);
    assert(s@.subrange(0, p@.len() as int) =~= s@.take(p@.len() as int));
    b
}

pub fn ends_with_chars(s: &[char], p: &[char]) -> (b: bool)
    ensures
        b == ends_with(s@, p@),
{
    if p.len() > s.len() {
        return false;
    }
    let b = matches_at(s, s.len() - p.len(), p);
    assert(s@.subrange(s@.len() - p@.len(), s@.len() as int) =~= s@.skip(s@.len() - p@.len()));
    b
}

/// Whether `p` occurs in `s`: `str::contains`.
pub fn contains_chars(s: &[char], p: &[char]) -> (b: bool)
    ensures
        b == contains_text(s@, p@),
{
    if p.len() > s.len() {
        return false;
    }
    let last = s.len() - p.len();
    let mut i: usize = 0;
    loop
        invariant
            last + p@.len() == s@.len(),
            i <= last,
            forall|k: int| 0 <= k < i ==> #[trigger] s@.subrange(k, k + p@.len()) != p@,
        decreases last - i,
    {
        if matches_at(s, i, p) {
            return true;
        }
        if i == last {
            assert forall|k: int| 0 <= k && k + p@.len() <= s@.len() implies
                #[trigger] s@.subrange(k, k + p@.len()) != p@ by {
                assert(k <= i);
            }
            return false;
        }
        i = i + 1;
    }
}

/// Two character sequences are equal.
pub fn chars_eq(a: &[char], b: &[char]) -> (r: bool)
    ensures
        r == (a@ == b@),
{
    if a.len() != b.len() {
        return false;
    }
    let r = matches_at(a, 0, b);
    assert(a@.subrange(0, b@.len() as int) =~= a@);
    r
}

} // verus!

verus! {

/// The character sequences held by a list of character vectors.
pub open spec fn views(v: Seq<Vec<char>>) -> Seq<Seq<char>> {
    v.map_values(|x: Vec<char>| x@)
}

/// Appends the characters of `r` to `out`.
pub fn extend_chars(out: &mut Vec<char>, r: &[char])
    ensures
        final(out)@ == old(out)@ + r@,
{
    let mut i: usize = 0;
    while i < r.len()
        invariant
            i <= r@.len(),
            out@ == old(out)@ + r@.take(i as int),
        decreases r@.len() - i,
    {
        out.push(r[i]);
        i = i + 1;
        assert(out@ =~= old(out)@ + r@.take(i as int));
    }
    assert(r@.take(r@.len() as int) =~= r@);
}

/// `str::replace` on characters.
pub fn replace_chars(s: &[char], p: &[char], r: &[char]) -> (v: Vec<char>)
    requires
        p@.len() > 0,
    ensures
        v@ == replace_all(s@, p@, r@),
{
    let mut out: Vec<char> = Vec::new();
    let mut i: usize = 0;
    assert(s@.skip(0) =~= s@);
    while i < s.len()
        invariant
            i <= s@.len(),
            p@.len() > 0,
            out@ + replace_all(s@.skip(i as int), p@, r@) == replace_all(s@, p@, r@),
        decreases s@.len() - i,
    {
        let ghost rest = s@.skip(i as int);
        if matches_at(s, i, p) {
            assert(rest.take(p@.len() as int) =~= s@.subrange(i as int, i + p@.len()));
            assert(rest.skip(p@.len() as int) =~= s@.skip(i + p@.len()));
            assert(replace_all(rest, p@, r@) == r@ + replace_all(rest.skip(p@.len() as int), p@, r@));
            extend_chars(&mut out, r);
            i = i + p.len();
            assert(out@ + replace_all(s@.skip(i as int), p@, r@) =~= replace_all(s@, p@, r@));
        } else {
            assert(rest.take(p@.len() as int) =~= s@.subrange(i as int, i + p@.len())
                || p@.len() > rest.len());
            assert(rest.skip(1) =~= s@.skip(i + 1));
            assert(rest[0] == s@[i as int]);
            assert(replace_all(rest, p@, r@) == seq![rest[0]] + replace_all(rest.skip(1), p@, r@));
            out.push(s[i]);
            i = i + 1;
            assert(out@ + replace_all(s@.skip(i as int), p@, r@) =~= replace_all(s@, p@, r@));
        }
    }
    assert(s@.skip(i as int).len() == 0);
    assert(out@ + Seq::<char>::empty() =~= out@);
    out
}

/// `str::split` on a single character.
pub fn split_chars(s: &[char], c: char) -> (v: Vec<Vec<char>>)
    ensures
        views(v@) == split_char(s@, c),
{
    let mut pieces: Vec<Vec<char>> = Vec::new();
    let mut cur: Vec<char> = Vec::new();
    let mut i: usize = 0;
    assert(s@.take(0) =~= Seq::<char>::empty());
    assert(views(pieces@).push(cur@) =~= split_char(s@.take(0), c));
    while i < s.len()
        invariant
            i <= s@.len(),
            views(pieces@).push(cur@) == split_char(s@.take(i as int), c),
        decreases s@.len() - i,
    {
        let ghost t = s@.take(i + 1);
        assert(t.drop_last() =~= s@.take(i as int));
        assert(t.last() == s@[i as int]);
        if s[i] == c {
            let done = cur;
            pieces.push(done);
            cur = Vec::new();
            assert(views(pieces@).push(cur@) =~= split_char(t, c));
        } else {
            cur.push(s[i]);
            assert(views(pieces@).push(cur@) =~= split_char(t, c));
        }
        i = i + 1;
    }
    assert(s@.take(s@.len() as int) =~= s@);
    pieces.push(cur);
    assert(views(pieces@) =~= split_char(s@, c));
    pieces
}

/// `pieces.join(sep)`.
pub fn join_chars(pieces: &Vec<Vec<char>>, sep: &[char]) -> (v: Vec<char>)
    ensures
        v@ == join(views(pieces@), sep@),
{
    let mut out: Vec<char> = Vec::new();
    let mut i: usize = 0;
    while i < pieces.len()
        invariant
            i <= pieces@.len(),
            out@ == join(views(pieces@).take(i as int), sep@),
        decreases pieces@.len() - i,
    {
        let ghost before = views(pieces@).take(i as int);
        let ghost after = views(pieces@).take(i + 1);
        assert(after.drop_last() =~= before);
        if i > 0 {
            extend_chars(&mut out, sep);
        }
        extend_chars(&mut out, pieces[i].as_slice());
        i = i + 1;
        assert(out@ =~= join(after, sep@));
    }
    assert(views(pieces@).take(pieces@.len() as int) =~= views(pieces@));
    out
}

} // verus!

verus! {

/// The texts held by a list of strings.
pub open spec fn string_views(v: Seq<String>) -> Seq<Seq<char>> {
    v.map_values(|x: String| x@)
}

/// `list.join(sep)` for strings.
pub fn join_strings(list: &Vec<String>, sep: &str) -> (s: String)
    ensures
        s@ == join(string_views(list@), sep@),
{
    let mut s = String::new();
    let mut i: usize = 0;
    while i < list.len()
        invariant
            i <= list@.len(),
            s@ == join(string_views(list@).take(i as int), sep@),
        decreases list@.len() - i,
    {
        let ghost before = string_views(list@).take(i as int);
        let ghost after = string_views(list@).take(i + 1);
        assert(after.drop_last() =~= before);
        if i > 0 {
            s.append(sep);
        }
        s.append(list[i].as_str());
        i = i + 1;
        assert(s@ =~= join(after, sep@));
    }
    assert(string_views(list@).take(list@.len() as int) =~= string_views(list@));
    s
}

} // verus!

verus! {

/// What `first_index` finds: the position holds `c` and no earlier one
/// does; when nothing is found, `c` does not occur.
pub proof fn lemma_first_index_facts(s: Seq<char>, c: char)
    ensures
        match first_index(s, c) {
            Some(i) => i < s.len() && s[i as int] == c && forall|k: int| 0 <= k < i ==> s[k] != c,
            None => forall|k: int| 0 <= k < s.len() ==> s[k] != c,
        },
    decreases s.len(),
{
    if s.len() > 0 {
        lemma_first_index_facts(s.skip(1), c);
        if s[0] != c {
            match first_index(s.skip(1), c) {
                Some(i) => {
                    assert forall|k: int| 0 <= k < i + 1 implies s[k] != c by {
                        if k > 0 {
                            assert(s[k] == s.skip(1)[k - 1]);
                        }
                    }
                },
                None => {
                    assert forall|k: int| 0 <= k < s.len() implies s[k] != c by {
                        if k > 0 {
                            assert(s[k] == s.skip(1)[k - 1]);
                        }
                    }
                },
            }
        }
    }
}

} // verus!
