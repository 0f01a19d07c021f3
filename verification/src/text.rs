//! Text as sequences of characters: conversion to and from `String`, prefixes,
//! searching, trimming and decimal numbers.
//!
//! Every contract speaks of `Seq<char>`, the view of `str` and `String`.

use vstd::prelude::*;

verus! {

/// `String::push` appends one character to the end of the string.
pub assume_specification[ String::push ](s: &mut String, c: char)
    ensures
        final(s)@ == old(s)@.push(c),
;

/// The characters of `s`, in order.
pub fn chars_of(s: &str) -> (v: Vec<char>)
    ensures
        v@ == s@,
{
    let mut v: Vec<char> = Vec::new();
    for c in it: s.chars()
        invariant
            it.seq() == s@,
            v@ == s@.take(it.index() as int),
    {
        v.push(c);
        assert(s@.take(it.index() + 1) == s@.take(it.index() as int).push(c));
    }
    assert(s@.take(s@.len() as int) == s@);
    v
}

/// The string made of the characters `v[from..to]`.
pub fn string_between(v: &Vec<char>, from: usize, to: usize) -> (s: String)
    requires
        from <= to <= v.len(),
    ensures
        s@ == v@.subrange(from as int, to as int),
{
    let mut s = String::new();
    let mut i: usize = from;
    while i < to
        invariant
            from <= i <= to <= v.len(),
            s@ == v@.subrange(from as int, i as int),
        decreases to - i,
    {
        s.push(v[i]);
        assert(v@.subrange(from as int, i + 1) == v@.subrange(from as int, i as int).push(
            v@[i as int],
        ));
        i += 1;
    }
    s
}

/// The string made of all the characters of `v`.
pub fn string_of(v: &Vec<char>) -> (s: String)
    ensures
        s@ == v@,
{
    let s = string_between(v, 0, v.len());
    assert(v@.subrange(0, v@.len() as int) == v@);
    s
}

/// The view of an optional string.
pub open spec fn opt_text(s: Option<String>) -> Option<Seq<char>> {
    match s {
        Some(x) => Some(x@),
        None => None,
    }
}

/// Whether `v[at..]` begins with `p`.
pub open spec fn has_at(v: Seq<char>, at: int, p: Seq<char>) -> bool {
    0 <= at && at + p.len() <= v.len() && v.subrange(at, at + p.len()) == p
}

/// Whether `v[at..]` begins with the characters of `p`.
pub fn matches_at(v: &Vec<char>, at: usize, p: &Vec<char>) -> (b: bool)
    ensures
        b == has_at(v@, at as int, p@),
{
    if at > v.len() || p.len() > v.len() - at {
        return false;
    }
    let mut i: usize = 0;
    while i < p.len()
        invariant
            at + p.len() <= v.len(),
            i <= p.len(),
            forall|k: int| 0 <= k < i ==> v@[at + k] == p@[k],
        decreases p.len() - i,
    {
        if v[at + i] != p[i] {
            assert(v@.subrange(at as int, at + p.len())[i as int] == v@[at + i]);
            return false;
        }
        i += 1;
    }
    assert(v@.subrange(at as int, at + p.len()) =~= p@);
    true
}

/// Whether `v` begins with `p`.
pub fn starts_with(v: &Vec<char>, p: &str) -> (b: bool)
    ensures
        b == p@.is_prefix_of(v@),
{
    let pv = chars_of(p);
    matches_at(v, 0, &pv)
}

/// Whether `v` is exactly the text `p`.
pub fn equals_str(v: &Vec<char>, p: &str) -> (b: bool)
    ensures
        b == (v@ == p@),
{
    let pv = chars_of(p);
    if v.len() != pv.len() {
        return false;
    }
    let b = matches_at(v, 0, &pv);
    assert(v@.subrange(0, v@.len() as int) == v@);
    b
}

/// Whether two strings hold the same text.
pub fn same_text(a: &str, b: &str) -> (r: bool)
    ensures
        r == (a@ == b@),
{
    let av = chars_of(a);
    equals_str(&av, b)
}

/// The first place at or after `from` where `p` occurs in `v`, if any.
pub open spec fn first_at(v: Seq<char>, from: int, p: Seq<char>) -> Option<int>
    decreases v.len() - from + 1,
{
    if from < 0 || from > v.len() - p.len() {
        None
    } else if has_at(v, from, p) {
        Some(from)
    } else {
        first_at(v, from + 1, p)
    }
}

/// What `first_at` finds is an occurrence, and the earliest one.
pub proof fn lemma_first_at(v: Seq<char>, from: int, p: Seq<char>)
    requires
        0 <= from,
    ensures
        match first_at(v, from, p) {
            Some(i) => from <= i && has_at(v, i, p) && forall|k: int|
                from <= k < i ==> !has_at(v, k, p),
            None => forall|k: int| from <= k ==> !has_at(v, k, p),
        },
    decreases v.len() - from + 1,
{
    if from > v.len() - p.len() {
    } else if has_at(v, from, p) {
    } else {
        lemma_first_at(v, from + 1, p);
    }
}

/// Searching in `v` without its first `n` characters finds what searching in `v` from
/// `n` on finds, `n` places earlier.
pub proof fn lemma_first_at_skip(v: Seq<char>, n: int, from: int, p: Seq<char>)
    requires
        0 <= n <= v.len(),
        0 <= from,
    ensures
        first_at(v.skip(n), from, p) == match first_at(v, from + n, p) {
            Some(i) => Some(i - n),
            None => None,
        },
    decreases v.len() - n - from + 1,
{
    if from > v.skip(n).len() - p.len() {
    } else {
        assert(v.skip(n).subrange(from, from + p.len()) == v.subrange(
            from + n,
            from + n + p.len(),
        ));
        if !has_at(v, from + n, p) {
            lemma_first_at_skip(v, n, from + 1, p);
        }
    }
}

/// The first place at or after `from` where `p` occurs in `v`, if any.
pub fn find_from(v: &Vec<char>, from: usize, p: &Vec<char>) -> (r: Option<usize>)
    ensures
        match r {
            Some(i) => first_at(v@, from as int, p@) == Some(i as int),
            None => first_at(v@, from as int, p@) is None,
        },
{
    if p.len() > v.len() || from > v.len() - p.len() {
        return None;
    }
    let last: usize = v.len() - p.len();
    let mut i: usize = from;
    while i <= last
        invariant
            last == v.len() - p.len(),
            from <= i <= last,
            first_at(v@, from as int, p@) == first_at(v@, i as int, p@),
        decreases last - i,
    {
        if matches_at(v, i, p) {
            return Some(i);
        }
        if i == last {
            assert(first_at(v@, i + 1, p@) is None);
            return None;
        }
        i += 1;
    }
    None
}

/// The first place where the text `p` occurs in `v`, if any.
pub fn find(v: &Vec<char>, p: &str) -> (r: Option<usize>)
    ensures
        match r {
            Some(i) => first_at(v@, 0, p@) == Some(i as int),
            None => first_at(v@, 0, p@) is None,
        },
{
    let pv = chars_of(p);
    find_from(v, 0, &pv)
}

/// The last place where the character `c` occurs in `v`, if any.
pub open spec fn last_index_of(v: Seq<char>, c: char) -> Option<int>
    decreases v.len(),
{
    if v.len() == 0 {
        None
    } else if v.last() == c {
        Some(v.len() - 1)
    } else {
        last_index_of(v.drop_last(), c)
    }
}

/// What `last_index_of` finds holds `c`, and nothing after it does.
pub proof fn lemma_last_index_of(v: Seq<char>, c: char)
    ensures
        match last_index_of(v, c) {
            Some(i) => 0 <= i < v.len() && v[i] == c && forall|k: int|
                i < k < v.len() ==> v[k] != c,
            None => forall|k: int| 0 <= k < v.len() ==> v[k] != c,
        },
    decreases v.len(),
{
    if v.len() == 0 {
    } else if v.last() == c {
    } else {
        lemma_last_index_of(v.drop_last(), c);
        assert forall|k: int| 0 <= k < v.len() - 1 implies v[k] == v.drop_last()[k] by {}
    }
}

/// The last place where `c` occurs in `v`, if any.
pub fn rfind_char(v: &Vec<char>, c: char) -> (r: Option<usize>)
    ensures
        match r {
            Some(i) => last_index_of(v@, c) == Some(i as int),
            None => last_index_of(v@, c) is None,
        },
{
    let mut i: usize = v.len();
    assert(v@.take(v@.len() as int) == v@);
    while i > 0
        invariant
            i <= v.len(),
            last_index_of(v@, c) == last_index_of(v@.take(i as int), c),
        decreases i,
    {
        if v[i - 1] == c {
            return Some(i - 1);
        }
        assert(v@.take(i as int).drop_last() == v@.take(i - 1));
        i -= 1;
    }
    assert(v@.take(v@.len() as int) == v@);
    None
}

/// White space as Unicode defines it (the property `White_Space`).
pub open spec fn is_space(c: char) -> bool {
    let n = c as u32;
    ||| 0x09 <= n <= 0x0d
    ||| n == 0x20
    ||| n == 0x85
    ||| n == 0xa0
    ||| n == 0x1680
    ||| 0x2000 <= n <= 0x200a
    ||| n == 0x2028
    ||| n == 0x2029
    ||| n == 0x202f
    ||| n == 0x205f
    ||| n == 0x3000
}

/// Whether `c` is white space.
pub fn char_is_space(c: char) -> (b: bool)
    ensures
        b == is_space(c),
{
    let n: u32 = c as u32;
    (0x09 <= n && n <= 0x0d) || n == 0x20 || n == 0x85 || n == 0xa0 || n == 0x1680 || (0x2000 <= n
        && n <= 0x200a) || n == 0x2028 || n == 0x2029 || n == 0x202f || n == 0x205f || n == 0x3000
}

/// `s` without the white space at its end.
pub open spec fn trim_end(s: Seq<char>) -> Seq<char>
    decreases s.len(),
{
    if s.len() > 0 && is_space(s.last()) {
        trim_end(s.drop_last())
    } else {
        s
    }
}

/// `s` without the white space at its start.
pub open spec fn trim_start(s: Seq<char>) -> Seq<char>
    decreases s.len(),
{
    if s.len() > 0 && is_space(s.first()) {
        trim_start(s.drop_first())
    } else {
        s
    }
}

/// `s` without the white space at either end.
pub open spec fn trim(s: Seq<char>) -> Seq<char> {
    trim_start(trim_end(s))
}

/// The length that `trim_end` leaves of `v`.
pub fn trimmed_end(v: &Vec<char>) -> (n: usize)
    ensures
        n <= v.len(),
        trim_end(v@) == v@.take(n as int),
{
    let mut n: usize = v.len();
    assert(v@.take(v@.len() as int) == v@);
    while n > 0 && char_is_space(v[n - 1])
        invariant
            n <= v.len(),
            trim_end(v@) == trim_end(v@.take(n as int)),
        decreases n,
    {
        assert(v@.take(n as int).drop_last() == v@.take(n - 1));
        n -= 1;
    }
    n
}

/// Where `trim_start` lets `v[..to]` begin.
pub fn trimmed_start(v: &Vec<char>, to: usize) -> (k: usize)
    requires
        to <= v.len(),
    ensures
        k <= to,
        trim_start(v@.take(to as int)) == v@.subrange(k as int, to as int),
{
    let mut k: usize = 0;
    assert(v@.subrange(0, to as int) == v@.take(to as int));
    while k < to && char_is_space(v[k])
        invariant
            k <= to <= v.len(),
            trim_start(v@.take(to as int)) == trim_start(v@.subrange(k as int, to as int)),
        decreases to - k,
    {
        assert(v@.subrange(k as int, to as int).drop_first() == v@.subrange(k + 1, to as int));
        k += 1;
    }
    k
}

/// The characters of `s` without the white space at either end.
pub fn trimmed(s: &str) -> (v: Vec<char>)
    ensures
        v@ == trim(s@),
{
    let all = chars_of(s);
    let to = trimmed_end(&all);
    let from = trimmed_start(&all, to);
    let mut v: Vec<char> = Vec::new();
    let mut i: usize = from;
    while i < to
        invariant
            from <= i <= to <= all.len(),
            v@ == all@.subrange(from as int, i as int),
        decreases to - i,
    {
        v.push(all[i]);
        assert(all@.subrange(from as int, i + 1) == all@.subrange(from as int, i as int).push(
            all@[i as int],
        ));
        i += 1;
    }
    v
}

/// The characters of `s` without the white space at its end.
pub fn trimmed_right(s: &str) -> (v: Vec<char>)
    ensures
        v@ == trim_end(s@),
{
    let mut all = chars_of(s);
    let to = trimmed_end(&all);
    all.truncate(to);
    assert(all@ == s@.take(to as int));
    all
}

/// An ASCII decimal digit.
pub open spec fn is_digit(c: char) -> bool {
    '0' <= c <= '9'
}

/// Whether `s` holds ASCII decimal digits only.
pub open spec fn all_digits(s: Seq<char>) -> bool {
    forall|i: int| 0 <= i < s.len() ==> is_digit(#[trigger] s[i])
}

/// The number that the decimal digits `s` write.
pub open spec fn decimal_value(s: Seq<char>) -> int
    decreases s.len(),
{
    if s.len() == 0 {
        0
    } else {
        decimal_value(s.drop_last()) * 10 + (s.last() as int - '0' as int)
    }
}

/// A run of digits writes a number that is not negative.
pub proof fn lemma_decimal_nonnegative(s: Seq<char>)
    requires
        all_digits(s),
    ensures
        0 <= decimal_value(s),
    decreases s.len(),
{
    if s.len() > 0 {
        assert forall|k: int| 0 <= k < s.drop_last().len() implies is_digit(
            #[trigger] s.drop_last()[k],
        ) by {
            assert(s.drop_last()[k] == s[k]);
        }
        lemma_decimal_nonnegative(s.drop_last());
        assert(is_digit(s[s.len() - 1]));
    }
}

/// A longer run of digits writes a number that is no smaller.
pub proof fn lemma_decimal_monotone(s: Seq<char>, i: int, j: int)
    requires
        all_digits(s),
        0 <= i <= j <= s.len(),
    ensures
        0 <= decimal_value(s.take(i)) <= decimal_value(s.take(j)),
    decreases j - i,
{
    assert forall|k: int| 0 <= k < s.take(i).len() implies is_digit(#[trigger] s.take(i)[k]) by {
        assert(s.take(i)[k] == s[k]);
    }
    lemma_decimal_nonnegative(s.take(i));
    if i < j {
        lemma_decimal_monotone(s, i, j - 1);
        assert(s.take(j).drop_last() == s.take(j - 1));
        assert(is_digit(s[j - 1]));
    }
}

/// An unsigned decimal number: one or more ASCII digits whose value is at most `max`.
pub open spec fn unsigned_decimal(s: Seq<char>, max: int) -> Option<int> {
    if s.len() > 0 && all_digits(s) && decimal_value(s) <= max {
        Some(decimal_value(s))
    } else {
        None
    }
}

/// Reads `v[from..to]` as an unsigned decimal number of at most 64 bits.
pub fn parse_digits(v: &Vec<char>, from: usize, to: usize) -> (r: Option<u64>)
    requires
        from <= to <= v.len(),
    ensures
        match r {
            Some(n) => unsigned_decimal(v@.subrange(from as int, to as int), u64::MAX as int)
                == Some(n as int),
            None => unsigned_decimal(v@.subrange(from as int, to as int), u64::MAX as int)
                is None,
        },
{
    let ghost s = v@.subrange(from as int, to as int);
    if from == to {
        return None;
    }
    let mut acc: u64 = 0;
    let mut i: usize = from;
    assert(s.take(0).len() == 0);
    while i < to
        invariant
            from <= i <= to <= v.len(),
            s == v@.subrange(from as int, to as int),
            all_digits(s.take(i - from)),
            acc == decimal_value(s.take(i - from)),
        decreases to - i,
    {
        let c = v[i];
        assert(s[i - from] == c);
        if !('0' <= c && c <= '9') {
            assert(!is_digit(s[i - from]));
            return None;
        }
        let d: u64 = (c as u32 - '0' as u32) as u64;
        assert(s.take(i - from + 1).drop_last() == s.take(i - from));
        assert(all_digits(s.take(i - from + 1))) by {
            assert forall|k: int| 0 <= k < i - from + 1 implies is_digit(
                #[trigger] s.take(i - from + 1)[k],
            ) by {
                if k < i - from {
                    assert(s.take(i - from)[k] == s[k]);
                }
            }
        }
        if acc > (u64::MAX - d) / 10 {
            proof {
                assert(decimal_value(s.take(i - from + 1)) > u64::MAX);
                if all_digits(s) {
                    lemma_decimal_monotone(s, i - from + 1, s.len() as int);
                    assert(s.take(s.len() as int) == s);
                }
            }
            return None;
        }
        acc = acc * 10 + d;
        i += 1;
    }
    assert(s.take(s.len() as int) == s);
    Some(acc)
}

/// A signed decimal number as `i64` reads it: an optional `+` or `-`, then one or more
/// ASCII digits, the whole within the range of `i64`.
pub open spec fn signed_decimal(s: Seq<char>) -> Option<int> {
    if s.len() > 0 && s[0] == '-' {
        let digits = s.drop_first();
        if digits.len() > 0 && all_digits(digits) && decimal_value(digits) <= -(i64::MIN as int) {
            Some(-decimal_value(digits))
        } else {
            None
        }
    } else if s.len() > 0 && s[0] == '+' {
        unsigned_decimal(s.drop_first(), i64::MAX as int)
    } else {
        unsigned_decimal(s, i64::MAX as int)
    }
}

/// Reads `v` as a signed decimal number of 64 bits.
pub fn parse_i64(v: &Vec<char>) -> (r: Option<i64>)
    ensures
        match r {
            Some(n) => signed_decimal(v@) == Some(n as int),
            None => signed_decimal(v@) is None,
        },
{
    if v.len() == 0 {
        return None;
    }
    let negative = v[0] == '-';
    let from: usize = if negative || v[0] == '+' {
        1
    } else {
        0
    };
    assert(v@.subrange(1, v@.len() as int) == v@.drop_first());
    assert(v@.subrange(0, v@.len() as int) == v@);
    match parse_digits(v, from, v.len()) {
        None => None,
        Some(n) => {
            if negative {
                if n <= 0x7fff_ffff_ffff_ffff {
                    Some(-(n as i64))
                } else if n == 0x8000_0000_0000_0000 {
                    Some(i64::MIN)
                } else {
                    None
                }
            } else if n <= 0x7fff_ffff_ffff_ffff {
                Some(n as i64)
            } else {
                None
            }
        },
    }
}

/// Reads `v` as an unsigned decimal number of 64 bits, with an optional `+` in front.
pub open spec fn plus_decimal(s: Seq<char>) -> Option<int> {
    if s.len() > 0 && s[0] == '+' {
        unsigned_decimal(s.drop_first(), u64::MAX as int)
    } else {
        unsigned_decimal(s, u64::MAX as int)
    }
}

/// Reads `v` as an unsigned decimal number of 64 bits, with an optional `+` in front.
pub fn parse_u64(v: &Vec<char>) -> (r: Option<u64>)
    ensures
        match r {
            Some(n) => plus_decimal(v@) == Some(n as int),
            None => plus_decimal(v@) is None,
        },
{
    if v.len() == 0 {
        return None;
    }
    let from: usize = if v[0] == '+' {
        1
    } else {
        0
    };
    assert(v@.subrange(1, v@.len() as int) == v@.drop_first());
    assert(v@.subrange(0, v@.len() as int) == v@);
    parse_digits(v, from, v.len())
}

/// The character that writes the decimal digit `d`.
pub open spec fn digit_char(d: int) -> char {
    if d == 0 {
        '0'
    } else if d == 1 {
        '1'
    } else if d == 2 {
        '2'
    } else if d == 3 {
        '3'
    } else if d == 4 {
        '4'
    } else if d == 5 {
        '5'
    } else if d == 6 {
        '6'
    } else if d == 7 {
        '7'
    } else if d == 8 {
        '8'
    } else {
        '9'
    }
}

/// The decimal digits of `n`, without leading zeros.
pub open spec fn decimal_digits(n: nat) -> Seq<char>
    decreases n,
{
    if n < 10 {
        seq![digit_char(n as int)]
    } else {
        decimal_digits(n / 10).push(digit_char((n % 10) as int))
    }
}

/// The decimal text of `n`: a `-` where it is negative, then its digits.
pub open spec fn decimal_of(n: int) -> Seq<char> {
    if n < 0 {
        seq!['-'] + decimal_digits((-n) as nat)
    } else {
        decimal_digits(n as nat)
    }
}

/// The character that writes the decimal digit `d`.
fn digit_to_char(d: u64) -> (c: char)
    requires
        d < 10,
    ensures
        c == digit_char(d as int),
{
    if d == 0 {
        '0'
    } else if d == 1 {
        '1'
    } else if d == 2 {
        '2'
    } else if d == 3 {
        '3'
    } else if d == 4 {
        '4'
    } else if d == 5 {
        '5'
    } else if d == 6 {
        '6'
    } else if d == 7 {
        '7'
    } else if d == 8 {
        '8'
    } else {
        '9'
    }
}

/// Appends the decimal digits of `n` to `out`.
pub fn push_decimal(out: &mut Vec<char>, n: u64)
    ensures
        final(out)@ == old(out)@ + decimal_digits(n as nat),
{
    let mut low: Vec<char> = Vec::new();
    let mut m: u64 = n;
    assert(decimal_digits(m as nat) + low@.reverse() =~= decimal_digits(n as nat));
    while m >= 10
        invariant
            decimal_digits(n as nat) == decimal_digits(m as nat) + low@.reverse(),
        decreases m,
    {
        let d = digit_to_char(m % 10);
        let ghost before = low@;
        low.push(d);
        assert(decimal_digits((m / 10) as nat).push(d) + before.reverse() =~= decimal_digits(
            (m / 10) as nat,
        ) + low@.reverse());
        m = m / 10;
    }
    let d = digit_to_char(m);
    let ghost before = low@;
    low.push(d);
    assert(seq![d] + before.reverse() =~= low@.reverse());
    let mut i: usize = low.len();
    assert(low@.reverse().take(0) == Seq::<char>::empty());
    assert(out@ + Seq::<char>::empty() == out@);
    while i > 0
        invariant
            i <= low.len(),
            out@ == old(out)@ + low@.reverse().take(low.len() - i),
        decreases i,
    {
        i -= 1;
        out.push(low[i]);
        assert(low@.reverse()[low.len() - 1 - i] == low@[i as int]);
        assert(old(out)@ + low@.reverse().take(low.len() - i) == (old(out)@
            + low@.reverse().take(low.len() - i - 1)).push(low@[i as int]));
    }
    assert(low@.reverse().take(low.len() as int) == low@.reverse());
}

/// The decimal text of `n`.
pub fn decimal_i64(n: i64) -> (s: String)
    ensures
        s@ == decimal_of(n as int),
{
    let mut out: Vec<char> = Vec::new();
    if n < 0 {
        out.push('-');
        let magnitude: u64 = ((-(n + 1)) as u64) + 1;
        push_decimal(&mut out, magnitude);
    } else {
        push_decimal(&mut out, n as u64);
        assert(Seq::<char>::empty() + decimal_digits(n as nat) == decimal_digits(n as nat));
    }
    string_of(&out)
}

/// Appends the characters of `s` to `out`.
pub fn push_str(out: &mut Vec<char>, s: &str)
    ensures
        final(out)@ == old(out)@ + s@,
{
    let v = chars_of(s);
    let mut i: usize = 0;
    assert(v@.take(0) == Seq::<char>::empty());
    assert(out@ + Seq::<char>::empty() == out@);
    while i < v.len()
        invariant
            i <= v.len(),
            out@ == old(out)@ + v@.take(i as int),
        decreases v.len() - i,
    {
        out.push(v[i]);
        assert(old(out)@ + v@.take(i + 1) == (old(out)@ + v@.take(i as int)).push(v@[i as int]));
        i += 1;
    }
    assert(v@.take(v@.len() as int) == v@);
}

/// Where the run of ASCII digits that starts at `from` ends.
pub open spec fn digits_end(s: Seq<char>, from: int) -> int
    decreases s.len() - from,
{
    if 0 <= from < s.len() && is_digit(s[from]) {
        digits_end(s, from + 1)
    } else {
        from
    }
}

/// Whether `c` is `a`, in either case. `a` is a lower-case letter of `infinity` or
/// `nan`.
pub open spec fn is_letter(c: char, a: char) -> bool {
    ||| c == a
    ||| (a == 'i' && c == 'I')
    ||| (a == 'n' && c == 'N')
    ||| (a == 'f' && c == 'F')
    ||| (a == 't' && c == 'T')
    ||| (a == 'y' && c == 'Y')
    ||| (a == 'a' && c == 'A')
}

/// Whether `s` is the word `w`, in any mix of cases. `w` is in lower case.
pub open spec fn is_word(s: Seq<char>, w: Seq<char>) -> bool {
    s.len() == w.len() && forall|i: int| 0 <= i < s.len() ==> is_letter(#[trigger] s[i], w[i])
}

/// Whether `s` writes a number without sign as `f64` reads it: `inf`, `infinity` or
/// `nan` in any mix of cases; or digits with at most one `.` among them and at least one
/// digit, and after them, if anything, an `e` or `E`, an optional sign and one or more
/// digits.
pub open spec fn is_unsigned_float(s: Seq<char>) -> bool {
    let int_end = digits_end(s, 0);
    let point = int_end < s.len() && s[int_end] == '.';
    let mantissa_end = if point {
        digits_end(s, int_end + 1)
    } else {
        int_end
    };
    let mantissa_digits = if point {
        mantissa_end - 1
    } else {
        mantissa_end
    };
    let exp_start = if mantissa_end + 1 < s.len() && (s[mantissa_end + 1] == '+' || s[mantissa_end
        + 1] == '-') {
        mantissa_end + 2
    } else {
        mantissa_end + 1
    };
    ||| is_word(s, "inf"@)
    ||| is_word(s, "infinity"@)
    ||| is_word(s, "nan"@)
    ||| (mantissa_digits > 0 && (mantissa_end == s.len() || ((s[mantissa_end] == 'e'
        || s[mantissa_end] == 'E') && digits_end(s, exp_start) == s.len() && exp_start
        < s.len())))
}

/// Whether `s` writes a number as `f64` reads it: an optional sign, then a number
/// without sign.
pub open spec fn is_float(s: Seq<char>) -> bool {
    if s.len() > 0 && (s[0] == '+' || s[0] == '-') {
        is_unsigned_float(s.skip(1))
    } else {
        is_unsigned_float(s)
    }
}

/// Where the run of ASCII digits that starts at `from` ends.
fn skip_digits(v: &Vec<char>, from: usize) -> (end: usize)
    requires
        from <= v.len(),
    ensures
        from <= end <= v.len(),
        end == digits_end(v@, from as int),
{
    let mut i: usize = from;
    while i < v.len() && '0' <= v[i] && v[i] <= '9'
        invariant
            from <= i <= v.len(),
            digits_end(v@, from as int) == digits_end(v@, i as int),
        decreases v.len() - i,
    {
        i += 1;
    }
    i
}

/// Whether `v` is the word `w`, in any mix of cases.
fn is_word_of(v: &Vec<char>, w: &str) -> (b: bool)
    ensures
        b == is_word(v@, w@),
{
    let wv = chars_of(w);
    if v.len() != wv.len() {
        return false;
    }
    let mut i: usize = 0;
    while i < v.len()
        invariant
            v.len() == wv.len(),
            wv@ == w@,
            i <= v.len(),
            forall|k: int| 0 <= k < i ==> is_letter(#[trigger] v@[k], wv@[k]),
        decreases v.len() - i,
    {
        let c = v[i];
        let a = wv[i];
        if !(c == a || (a == 'i' && c == 'I') || (a == 'n' && c == 'N') || (a == 'f' && c == 'F')
            || (a == 't' && c == 'T') || (a == 'y' && c == 'Y') || (a == 'a' && c == 'A')) {
            return false;
        }
        i += 1;
    }
    true
}

/// Whether `v[from..]` writes a number without sign.
fn is_unsigned_number(v: &Vec<char>) -> (b: bool)
    ensures
        b == is_unsigned_float(v@),
{
    if is_word_of(v, "inf") || is_word_of(v, "infinity") || is_word_of(v, "nan") {
        return true;
    }
    let int_end = skip_digits(v, 0);
    let point = int_end < v.len() && v[int_end] == '.';
    let mantissa_end = if point {
        skip_digits(v, int_end + 1)
    } else {
        int_end
    };
    let mantissa_digits = if point {
        mantissa_end - 1
    } else {
        mantissa_end
    };
    if mantissa_digits == 0 {
        return false;
    }
    if mantissa_end == v.len() {
        return true;
    }
    if v[mantissa_end] != 'e' && v[mantissa_end] != 'E' {
        return false;
    }
    let exp_start = if mantissa_end + 1 < v.len() && (v[mantissa_end + 1] == '+' || v[mantissa_end
        + 1] == '-') {
        mantissa_end + 2
    } else {
        mantissa_end + 1
    };
    if exp_start >= v.len() {
        return false;
    }
    skip_digits(v, exp_start) == v.len()
}

/// Whether `s` writes a number as `f64` reads it.
pub fn is_number(s: &str) -> (b: bool)
    ensures
        b == is_float(s@),
{
    let v = chars_of(s);
    if v.len() > 0 && (v[0] == '+' || v[0] == '-') {
        let mut rest: Vec<char> = Vec::new();
        let mut i: usize = 1;
        while i < v.len()
            invariant
                1 <= i <= v.len(),
                rest@ == v@.subrange(1, i as int),
            decreases v.len() - i,
        {
            rest.push(v[i]);
            assert(v@.subrange(1, i + 1) == v@.subrange(1, i as int).push(v@[i as int]));
            i += 1;
        }
        assert(v@.subrange(1, v@.len() as int) == v@.skip(1));
        is_unsigned_number(&rest)
    } else {
        is_unsigned_number(&v)
    }
}

} // verus!
