//! Character sequences: conversion to and from strings, decimal numbers,
//! prefixes, suffixes and trimming.

use vstd::prelude::*;

verus! {

/// Collects the characters of `s` in order.
pub fn chars_of(s: &str) -> (v: Vec<char>)
    ensures
        v@ == s@,
{
    let mut v: Vec<char> = Vec::new();
    for c in it: s.chars()
        invariant
            v@ == it.seq().take(it.index() as int),
            it.seq() == s@,
    {
        v.push(c);
    }
    v
}

/// Builds a `String` from characters by `String::from_iter`, which appends
/// each character in turn: the string holds exactly the given characters.
#[verifier::external_body]
pub(crate) fn string_of(chars: &Vec<char>) -> (s: String)
    ensures
        s@ == chars@,
{
    String::from_iter(chars.iter())
}

/// Appends every character of `tail` to `out`.
pub fn push_all(out: &mut Vec<char>, tail: &Vec<char>)
    ensures
        final(out)@ == old(out)@ + tail@,
{
    let mut i: usize = 0;
    while i < tail.len()
        invariant
            i <= tail.len(),
            out@ == old(out)@ + tail@.take(i as int),
        decreases tail.len() - i,
    {
        out.push(tail[i]);
        i += 1;
    }
}

/// Appends the characters of `tail` to `out`.
pub fn push_str(out: &mut Vec<char>, tail: &str)
    ensures
        final(out)@ == old(out)@ + tail@,
{
    let t = chars_of(tail);
    push_all(out, &t);
}

/// The character for a single decimal digit.
pub open spec fn digit_char(d: nat) -> char
    recommends
        d < 10,
{
    (('0' as u8) + (d as u8)) as char
}

/// The decimal representation of `n`, without sign or leading zeros.
pub open spec fn decimal(n: nat) -> Seq<char>
    decreases n,
{
    if n < 10 {
        seq![digit_char(n)]
    } else {
        decimal(n / 10).push(digit_char(n % 10))
    }
}

/// The decimal representation of `n` padded with zeros to at least two
/// digits.
pub open spec fn decimal_padded2(n: nat) -> Seq<char> {
    if n < 10 {
        seq!['0', digit_char(n)]
    } else {
        decimal(n)
    }
}

/// Whether `prefix` occurs in `s` starting at position `at`.
pub open spec fn occurs_at(s: Seq<char>, prefix: Seq<char>, at: int) -> bool {
    0 <= at && at + prefix.len() <= s.len() && s.subrange(at, at + prefix.len()) == prefix
}

/// Whether `s` ends with `suffix`.
pub open spec fn ends_with(s: Seq<char>, suffix: Seq<char>) -> bool {
    suffix.len() <= s.len() && occurs_at(s, suffix, s.len() - suffix.len())
}

fn digit(d: u8) -> (c: char)
    requires
        d < 10,
    ensures
        c == digit_char(d as nat),
{
    (48u8 + d) as char
}

/// Appends the decimal representation of `n` to `out`.
pub fn push_decimal(out: &mut Vec<char>, n: u64)
    ensures
        final(out)@ == old(out)@ + decimal(n as nat),
    decreases n,
{
    if n < 10 {
        out.push(digit(n as u8));
        assert(out@ =~= old(out)@ + decimal(n as nat));
    } else {
        push_decimal(out, n / 10);
        out.push(digit((n % 10) as u8));
        assert(out@ =~= old(out)@ + decimal(n as nat));
    }
}

/// Appends `n` in decimal, padded with zeros to at least two digits.
pub fn push_decimal_padded2(out: &mut Vec<char>, n: u64)
    ensures
        final(out)@ == old(out)@ + decimal_padded2(n as nat),
{
    if n < 10 {
        out.push('0');
        out.push(digit(n as u8));
        assert(out@ =~= old(out)@ + decimal_padded2(n as nat));
    } else {
        push_decimal(out, n);
    }
}

/// Whether `pat` occurs in `s` at position `at`.
pub fn matches_at(s: &Vec<char>, pat: &Vec<char>, at: usize) -> (r: bool)
    ensures
        r == occurs_at(s@, pat@, at as int),
{
    if at > s.len() || pat.len() > s.len() - at {
        return false;
    }
    let mut i: usize = 0;
    while i < pat.len()
        invariant
            i <= pat.len(),
            at + pat.len() <= s.len(),
            s@.subrange(at as int, at + i) == pat@.take(i as int),
        decreases pat.len() - i,
    {
        if s[at + i] != pat[i] {
            proof {
                let w = s@.subrange(at as int, at + pat.len());
                assert(w[i as int] != pat@[i as int]);
            }
            return false;
        }
        assert(s@.subrange(at as int, at + i + 1) =~= s@.subrange(at as int, at + i).push(
            s@[at + i],
        ));
        assert(pat@.take(i + 1) =~= pat@.take(i as int).push(pat@[i as int]));
        i += 1;
    }
    assert(pat@.take(pat.len() as int) =~= pat@);
    true
}

/// Whether `s` ends with `suffix`.
pub fn has_suffix(s: &Vec<char>, suffix: &Vec<char>) -> (r: bool)
    ensures
        r == ends_with(s@, suffix@),
{
    if suffix.len() > s.len() {
        return false;
    }
    matches_at(s, suffix, s.len() - suffix.len())
}

/// Copies the characters of `s` from `from` up to `to`.
pub fn slice_of(s: &Vec<char>, from: usize, to: usize) -> (r: Vec<char>)
    requires
        from <= to <= s.len(),
    ensures
        r@ == s@.subrange(from as int, to as int),
{
    let mut r: Vec<char> = Vec::new();
    let mut i: usize = from;
    while i < to
        invariant
            from <= i <= to <= s.len(),
            r@ == s@.subrange(from as int, i as int),
        decreases to - i,
    {
        r.push(s[i]);
        assert(s@.subrange(from as int, i + 1) =~= s@.subrange(from as int, i as int).push(s@[i as int]));
        i += 1;
    }
    r
}

/// Whether two character sequences are equal.
pub fn same_chars(a: &Vec<char>, b: &Vec<char>) -> (r: bool)
    ensures
        r == (a@ == b@),
{
    if a.len() != b.len() {
        return false;
    }
    let r = matches_at(a, b, 0);
    proof {
        assert(a@.subrange(0, a@.len() as int) =~= a@);
    }
    r
}

/// Whether `c` is white space: the characters that `char::is_whitespace`
/// accepts.
pub open spec fn is_whitespace(c: char) -> bool {
    let u = c as u32;
    (0x09 <= u <= 0x0D) || u == 0x20 || u == 0x85 || u == 0xA0 || u == 0x1680 || (0x2000 <= u
        <= 0x200A) || u == 0x2028 || u == 0x2029 || u == 0x202F || u == 0x205F || u == 0x3000
}

/// Whether `c` is white space.
pub fn is_space(c: char) -> (r: bool)
    ensures
        r == is_whitespace(c),
{
    let u: u32 = c as u32;
    (0x09 <= u && u <= 0x0D) || u == 0x20 || u == 0x85 || u == 0xA0 || u == 0x1680 || (0x2000 <= u
        && u <= 0x200A) || u == 0x2028 || u == 0x2029 || u == 0x202F || u == 0x205F || u == 0x3000
}

/// `s` without its leading white space.
pub open spec fn trim_start(s: Seq<char>) -> Seq<char>
    decreases s.len(),
{
    if s.len() > 0 && is_whitespace(s[0]) {
        trim_start(s.drop_first())
    } else {
        s
    }
}

/// `s` without its trailing white space.
pub open spec fn trim_end(s: Seq<char>) -> Seq<char>
    decreases s.len(),
{
    if s.len() > 0 && is_whitespace(s.last()) {
        trim_end(s.drop_last())
    } else {
        s
    }
}

/// `s` without leading and trailing white space.
pub open spec fn trim(s: Seq<char>) -> Seq<char> {
    trim_end(trim_start(s))
}

/// `s` after `pat` has been removed from its front as often as it stands
/// there. An empty pattern removes nothing.
pub open spec fn strip_prefixes(s: Seq<char>, pat: Seq<char>) -> Seq<char>
    decreases s.len(),
{
    if pat.len() > 0 && occurs_at(s, pat, 0) {
        strip_prefixes(s.skip(pat.len() as int), pat)
    } else {
        s
    }
}

/// `s` after `pat` has been removed from its end as often as it stands
/// there. An empty pattern removes nothing.
pub open spec fn strip_suffixes(s: Seq<char>, pat: Seq<char>) -> Seq<char>
    decreases s.len(),
{
    if pat.len() > 0 && ends_with(s, pat) {
        strip_suffixes(s.take(s.len() - pat.len()), pat)
    } else {
        s
    }
}

/// The position in `s[from..to]` at which its leading white space ends.
pub fn skip_whitespace(s: &Vec<char>, from: usize, to: usize) -> (k: usize)
    requires
        from <= to <= s.len(),
    ensures
        from <= k <= to,
        trim_start(s@.subrange(from as int, to as int)) == s@.subrange(k as int, to as int),
{
    let mut i: usize = from;
    while i < to && is_space(s[i])
        invariant
            from <= i <= to <= s.len(),
            trim_start(s@.subrange(from as int, to as int)) == trim_start(
                s@.subrange(i as int, to as int),
            ),
        decreases to - i,
    {
        assert(s@.subrange(i as int, to as int).drop_first() =~= s@.subrange(i + 1, to as int));
        i += 1;
    }
    i
}

/// The position in `s[from..to]` at which its trailing white space starts.
pub fn drop_whitespace(s: &Vec<char>, from: usize, to: usize) -> (k: usize)
    requires
        from <= to <= s.len(),
    ensures
        from <= k <= to,
        trim_end(s@.subrange(from as int, to as int)) == s@.subrange(from as int, k as int),
{
    let mut i: usize = to;
    while i > from && is_space(s[i - 1])
        invariant
            from <= i <= to <= s.len(),
            trim_end(s@.subrange(from as int, to as int)) == trim_end(
                s@.subrange(from as int, i as int),
            ),
        decreases i - from,
    {
        assert(s@.subrange(from as int, i as int).drop_last() =~= s@.subrange(
            from as int,
            i - 1,
        ));
        i -= 1;
    }
    i
}

/// The position in `s[from..to]` at which the leading repetitions of `pat`
/// end.
pub fn skip_prefixes(s: &Vec<char>, pat: &Vec<char>, from: usize, to: usize) -> (k: usize)
    requires
        from <= to <= s.len(),
    ensures
        from <= k <= to,
        strip_prefixes(s@.subrange(from as int, to as int), pat@) == s@.subrange(
            k as int,
            to as int,
        ),
{
    if pat.len() == 0 {
        return from;
    }
    let mut i: usize = from;
    loop
        invariant
            pat.len() > 0,
            from <= i <= to <= s.len(),
            strip_prefixes(s@.subrange(from as int, to as int), pat@) == strip_prefixes(
                s@.subrange(i as int, to as int),
                pat@,
            ),
        decreases to - i,
    {
        let hit = pat.len() <= to - i && matches_at(s, pat, i);
        proof {
            let w = s@.subrange(i as int, to as int);
            if pat.len() <= to - i {
                assert(w.subrange(0, pat@.len() as int) =~= s@.subrange(
                    i as int,
                    i + pat@.len(),
                ));
            }
            assert(hit == occurs_at(w, pat@, 0));
            if hit {
                assert(w.skip(pat@.len() as int) =~= s@.subrange(i + pat@.len(), to as int));
            }
        }
        if !hit {
            return i;
        }
        i += pat.len();
    }
}

/// The position in `s[from..to]` at which the trailing repetitions of `pat`
/// start.
pub fn drop_suffixes(s: &Vec<char>, pat: &Vec<char>, from: usize, to: usize) -> (k: usize)
    requires
        from <= to <= s.len(),
    ensures
        from <= k <= to,
        strip_suffixes(s@.subrange(from as int, to as int), pat@) == s@.subrange(
            from as int,
            k as int,
        ),
{
    if pat.len() == 0 {
        return to;
    }
    let mut i: usize = to;
    loop
        invariant
            pat.len() > 0,
            from <= i <= to <= s.len(),
            strip_suffixes(s@.subrange(from as int, to as int), pat@) == strip_suffixes(
                s@.subrange(from as int, i as int),
                pat@,
            ),
        decreases i - from,
    {
        let hit = pat.len() <= i - from && matches_at(s, pat, i - pat.len());
        proof {
            let w = s@.subrange(from as int, i as int);
            if pat.len() <= i - from {
                assert(w.subrange(w.len() - pat@.len(), w.len() as int) =~= s@.subrange(
                    i - pat@.len(),
                    i as int,
                ));
            }
            assert(hit == ends_with(w, pat@));
            if hit {
                assert(w.take(w.len() - pat@.len()) =~= s@.subrange(
                    from as int,
                    i - pat@.len(),
                ));
            }
        }
        if !hit {
            return i;
        }
        i -= pat.len();
    }
}

/// The number of bytes that `c` takes in UTF-8.
pub open spec fn utf8_width(c: char) -> nat {
    let u = c as u32;
    if u < 0x80 {
        1
    } else if u < 0x800 {
        2
    } else if u < 0x10000 {
        3
    } else {
        4
    }
}

/// The number of bytes that `s` takes in UTF-8.
pub open spec fn utf8_len(s: Seq<char>) -> nat
    decreases s.len(),
{
    if s.len() == 0 {
        0
    } else {
        utf8_len(s.drop_last()) + utf8_width(s.last())
    }
}

/// The length, in characters, of the longest prefix of `s` that takes at
/// most `limit` bytes in UTF-8.
pub open spec fn fitting_chars(s: Seq<char>, limit: nat) -> nat
    decreases s.len(),
{
    if s.len() == 0 || utf8_len(s) <= limit {
        s.len()
    } else {
        fitting_chars(s.drop_last(), limit)
    }
}

/// The longest prefix of `s` that takes at most `limit` bytes in UTF-8.
pub open spec fn truncate_utf8(s: Seq<char>, limit: nat) -> Seq<char> {
    s.take(fitting_chars(s, limit) as int)
}

/// A longer prefix takes at least as many bytes.
pub proof fn utf8_len_monotone(s: Seq<char>, k: int)
    requires
        0 <= k <= s.len(),
    ensures
        utf8_len(s.take(k)) <= utf8_len(s),
    decreases s.len(),
{
    if k < s.len() {
        utf8_len_monotone(s.drop_last(), k);
        assert(s.drop_last().take(k) =~= s.take(k));
    } else {
        assert(s.take(k) =~= s);
    }
}

/// The prefix that fits and whose successor does not is the longest one
/// that fits.
pub proof fn fitting_chars_is(s: Seq<char>, limit: nat, k: int)
    requires
        0 <= k <= s.len(),
        utf8_len(s.take(k)) <= limit,
        k < s.len() ==> utf8_len(s.take(k + 1)) > limit,
    ensures
        fitting_chars(s, limit) == k,
    decreases s.len(),
{
    if k == s.len() {
        assert(s.take(k) =~= s);
    } else {
        utf8_len_monotone(s, k + 1);
        assert(s.drop_last().take(k) =~= s.take(k));
        if k + 1 <= s.len() - 1 {
            assert(s.drop_last().take(k + 1) =~= s.take(k + 1));
        }
        fitting_chars_is(s.drop_last(), limit, k);
    }
}

/// The number of bytes that `c` takes in UTF-8.
pub fn char_width(c: char) -> (w: usize)
    ensures
        w == utf8_width(c),
{
    let u: u32 = c as u32;
    if u < 0x80 {
        1
    } else if u < 0x800 {
        2
    } else if u < 0x10000 {
        3
    } else {
        4
    }
}

/// Cuts `s` down to its longest prefix of at most `limit` bytes in UTF-8.
pub fn truncate_to_bytes(s: &mut Vec<char>, limit: usize)
    requires
        limit <= usize::MAX - 4,
    ensures
        final(s)@ == truncate_utf8(old(s)@, limit as nat),
{
    let mut i: usize = 0;
    let mut bytes: usize = 0;
    while i < s.len() && bytes + char_width(s[i]) <= limit
        invariant
            i <= s.len(),
            bytes == utf8_len(s@.take(i as int)),
            bytes <= limit <= usize::MAX - 4,
        decreases s.len() - i,
    {
        assert(s@.take(i + 1).drop_last() =~= s@.take(i as int));
        bytes += char_width(s[i]);
        i += 1;
    }
    proof {
        if i < s.len() {
            assert(s@.take(i + 1).drop_last() =~= s@.take(i as int));
        }
        fitting_chars_is(s@, limit as nat, i as int);
    }
    s.truncate(i);
}

/// Whether two strings hold the same characters.
pub fn str_eq(a: &str, b: &str) -> (r: bool)
    ensures
        r == (a@ == b@),
{
    a.to_owned() == b.to_owned()
}

/// `s` with every occurrence of `from` replaced by `to`, taking the
/// occurrences from the left and none that overlaps an earlier one. An
/// empty `from` replaces nothing.
pub open spec fn replaced(s: Seq<char>, from: Seq<char>, to: Seq<char>) -> Seq<char>
    decreases s.len(),
{
    if from.len() == 0 || s.len() == 0 {
        s
    } else if occurs_at(s, from, 0) {
        to + replaced(s.skip(from.len() as int), from, to)
    } else {
        seq![s[0]] + replaced(s.skip(1), from, to)
    }
}

/// Replaces every occurrence of `from` in `s` by `to`.
pub fn replace_all(s: &Vec<char>, from: &Vec<char>, to: &Vec<char>) -> (out: Vec<char>)
    ensures
        out@ == replaced(s@, from@, to@),
{
    let mut out: Vec<char> = Vec::new();
    if from.len() == 0 {
        push_all(&mut out, s);
        assert(out@ =~= s@);
        return out;
    }
    let mut i: usize = 0;
    assert(s@.skip(0) =~= s@);
    while i < s.len()
        invariant
            i <= s.len(),
            from.len() > 0,
            replaced(s@, from@, to@) == out@ + replaced(s@.skip(i as int), from@, to@),
        decreases s.len() - i,
    {
        let ghost rest = s@.skip(i as int);
        let ghost before = out@;
        let hit = matches_at(s, from, i);
        proof {
            if i + from@.len() <= s@.len() {
                assert(rest.subrange(0, from@.len() as int) =~= s@.subrange(
                    i as int,
                    i + from@.len(),
                ));
            }
            assert(hit == occurs_at(rest, from@, 0));
        }
        if hit {
            push_all(&mut out, to);
            proof {
                assert(rest.skip(from@.len() as int) =~= s@.skip(i + from@.len()));
                assert(before + (to@ + replaced(s@.skip(i + from@.len()), from@, to@)) =~= out@
                    + replaced(s@.skip(i + from@.len()), from@, to@));
            }
            i += from.len();
        } else {
            out.push(s[i]);
            proof {
                assert(rest.skip(1) =~= s@.skip(i + 1));
                assert(before + (seq![s@[i as int]] + replaced(s@.skip(i + 1), from@, to@)) =~= out@
                    + replaced(s@.skip(i + 1), from@, to@));
            }
            i += 1;
        }
    }
    assert(out@ + replaced(s@.skip(s@.len() as int), from@, to@) =~= out@);
    out
}

/// Whether `pat` occurs somewhere in `s`.
pub open spec fn contains_seq(s: Seq<char>, pat: Seq<char>) -> bool {
    exists|i: int| occurs_at(s, pat, i)
}

/// Whether `pat` occurs somewhere in `s`.
pub fn contains(s: &Vec<char>, pat: &Vec<char>) -> (r: bool)
    ensures
        r == contains_seq(s@, pat@),
{
    if pat.len() > s.len() {
        return false;
    }
    let last: usize = s.len() - pat.len();
    let mut i: usize = 0;
    while i < last
        invariant
            last == s.len() - pat.len(),
            i <= last,
            forall|j: int| 0 <= j < i ==> !occurs_at(s@, pat@, j),
        decreases last - i,
    {
        if matches_at(s, pat, i) {
            return true;
        }
        i += 1;
    }
    matches_at(s, pat, last)
}

/// The first position of `c` in `s`, or the length of `s` where `s` does
/// not hold it.
pub open spec fn first_index_of(s: Seq<char>, c: char) -> int
    decreases s.len(),
{
    if s.len() == 0 {
        0
    } else if s[0] == c {
        0
    } else {
        1 + first_index_of(s.drop_first(), c)
    }
}

/// The first position of `c` in `s`, or the length of `s`.
pub fn find_first(s: &Vec<char>, c: char) -> (k: usize)
    ensures
        k == first_index_of(s@, c),
        k <= s.len(),
{
    let mut i: usize = 0;
    assert(s@.skip(0) =~= s@);
    while i < s.len() && s[i] != c
        invariant
            i <= s.len(),
            first_index_of(s@, c) == i + first_index_of(s@.skip(i as int), c),
        decreases s.len() - i,
    {
        assert(s@.skip(i as int).drop_first() =~= s@.skip(i + 1));
        i += 1;
    }
    i
}

/// Whether `c` is one of the digits `0` to `9`.
pub open spec fn is_digit(c: char) -> bool {
    '0' <= c <= '9'
}

/// How many digits `s` starts with.
pub open spec fn leading_digits(s: Seq<char>) -> nat
    decreases s.len(),
{
    if s.len() > 0 && is_digit(s[0]) {
        1 + leading_digits(s.drop_first())
    } else {
        0
    }
}

/// The number that a sequence of digits writes in decimal.
pub open spec fn digits_value(s: Seq<char>) -> nat
    decreases s.len(),
{
    if s.len() == 0 {
        0
    } else {
        10 * digits_value(s.drop_last()) + ((s.last() as u32 - '0' as u32) as nat)
    }
}

/// How many digits `s[from..to]` starts with.
pub fn count_digits(s: &Vec<char>, from: usize, to: usize) -> (n: usize)
    requires
        from <= to <= s.len(),
    ensures
        n == leading_digits(s@.subrange(from as int, to as int)),
        from + n <= to,
        forall|i: int| from <= i < from + n ==> is_digit(#[trigger] s@[i]),
{
    let mut i: usize = from;
    while i < to && '0' <= s[i] && s[i] <= '9'
        invariant
            from <= i <= to <= s.len(),
            leading_digits(s@.subrange(from as int, to as int)) == (i - from) + leading_digits(
                s@.subrange(i as int, to as int),
            ),
            forall|j: int| from <= j < i ==> is_digit(#[trigger] s@[j]),
        decreases to - i,
    {
        assert(s@.subrange(i as int, to as int).drop_first() =~= s@.subrange(i + 1, to as int));
        i += 1;
    }
    i - from
}

/// A character with the letters `A` to `Z` in lower case.
pub open spec fn ascii_lower(c: char) -> char {
    if 'A' <= c <= 'Z' {
        ((c as u8) + 32) as char
    } else {
        c
    }
}

/// Whether two sequences are equal when the case of the letters `A` to `Z`
/// is left out of account.
pub open spec fn same_ignoring_case(a: Seq<char>, b: Seq<char>) -> bool {
    a.len() == b.len() && forall|i: int| 0 <= i < a.len() ==> ascii_lower(a[i]) == ascii_lower(b[i])
}

/// Whether two strings are equal up to the case of the letters `A` to `Z`.
pub fn eq_ignoring_case(a: &Vec<char>, b: &Vec<char>) -> (r: bool)
    ensures
        r == same_ignoring_case(a@, b@),
{
    if a.len() != b.len() {
        return false;
    }
    let mut i: usize = 0;
    while i < a.len()
        invariant
            i <= a.len() == b.len(),
            forall|j: int| 0 <= j < i ==> ascii_lower(a@[j]) == ascii_lower(b@[j]),
        decreases a.len() - i,
    {
        let x = a[i];
        let y = b[i];
        let lx = if 'A' <= x && x <= 'Z' {
            ((x as u8) + 32) as char
        } else {
            x
        };
        let ly = if 'A' <= y && y <= 'Z' {
            ((y as u8) + 32) as char
        } else {
            y
        };
        if lx != ly {
            return false;
        }
        i += 1;
    }
    true
}

proof fn encoding_ends_with_last(s: Seq<char>)
    requires
        s.len() > 0,
    ensures
        vstd::utf8::encode_utf8(s) == vstd::utf8::encode_utf8(s.drop_last())
            + vstd::utf8::encode_scalar(s.last() as u32),
    decreases s.len(),
{
    if s.len() == 1 {
        assert(s.drop_first() =~= Seq::<char>::empty());
        assert(s.drop_last() =~= Seq::<char>::empty());
        assert(vstd::utf8::encode_utf8(s) =~= vstd::utf8::encode_utf8(s.drop_last())
            + vstd::utf8::encode_scalar(s.last() as u32));
    } else {
        encoding_ends_with_last(s.drop_first());
        assert(s.drop_first().drop_last() =~= s.drop_last().drop_first());
        assert(s.drop_last()[0] == s[0]);
        assert(vstd::utf8::encode_utf8(s) =~= vstd::utf8::encode_utf8(s.drop_last())
            + vstd::utf8::encode_scalar(s.last() as u32));
    }
}

/// The number of bytes counted for a text is the length of its encoding
/// in UTF-8.
pub proof fn utf8_len_is_encoded_length(s: Seq<char>)
    ensures
        utf8_len(s) == vstd::utf8::encode_utf8(s).len(),
    decreases s.len(),
{
    if s.len() > 0 {
        utf8_len_is_encoded_length(s.drop_last());
        encoding_ends_with_last(s);
        vstd::utf8::char_is_scalar(s.last());
    }
}

proof fn fitting_chars_in_range(s: Seq<char>, limit: nat)
    ensures
        fitting_chars(s, limit) <= s.len(),
    decreases s.len(),
{
    if s.len() > 0 && utf8_len(s) > limit {
        fitting_chars_in_range(s.drop_last(), limit);
    }
}

/// A text cut to a number of bytes is a prefix of the text that takes no
/// more than that, and it is the whole text or cannot take the next
/// character.
pub proof fn truncated_fits(s: Seq<char>, limit: nat)
    ensures
        truncate_utf8(s, limit).is_prefix_of(s),
        utf8_len(truncate_utf8(s, limit)) <= limit,
        truncate_utf8(s, limit) == s || utf8_len(truncate_utf8(s, limit)) + utf8_width(
            s[truncate_utf8(s, limit).len() as int],
        ) > limit,
    decreases s.len(),
{
    if s.len() > 0 && utf8_len(s) > limit {
        let init = s.drop_last();
        truncated_fits(init, limit);
        fitting_chars_in_range(init, limit);
        let k = fitting_chars(init, limit) as int;
        assert(init.take(k) =~= s.take(k));
        if k == init.len() {
            assert(init.take(k) =~= init);
        } else {
            assert(init[k] == s[k]);
        }
    } else {
        assert(s.take(s.len() as int) =~= s);
    }
}

} // verus!
