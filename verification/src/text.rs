//! Character-level text utilities shared by the dialect parser and the field
//! normalizer: conversion between `&str` and `Vec<char>`, ASCII trimming and
//! lowercasing, digit extraction, and decimal printing/parsing.

use vstd::prelude::*;
use vstd::string::StrSliceExecFns;

verus! {

/// ASCII whitespace, the only whitespace the vendor sheets contain.
pub open spec fn is_space(c: char) -> bool {
    c == ' ' || c == '\t' || c == '\r' || c == '\n'
}

pub open spec fn is_digit(c: char) -> bool {
    '0' <= c && c <= '9'
}

pub open spec fn digit_val(c: char) -> int {
    c as int - '0' as int
}

/// Number of whitespace characters at the front of `s`.
pub open spec fn leading_spaces(s: Seq<char>) -> int
    decreases s.len(),
{
    if s.len() == 0 || !is_space(s[0]) {
        0
    } else {
        1 + leading_spaces(s.drop_first())
    }
}

/// Number of whitespace characters at the back of `s`.
pub open spec fn trailing_spaces(s: Seq<char>) -> int
    decreases s.len(),
{
    if s.len() == 0 || !is_space(s.last()) {
        0
    } else {
        1 + trailing_spaces(s.drop_last())
    }
}

/// `s` with leading and trailing whitespace removed.
pub open spec fn spec_trim(s: Seq<char>) -> Seq<char> {
    if leading_spaces(s) == s.len() {
        Seq::empty()
    } else {
        s.subrange(leading_spaces(s), s.len() - trailing_spaces(s))
    }
}

pub open spec fn lower_char(c: char) -> char {
    if 'A' <= c && c <= 'Z' {
        ((c as u8) + 32) as char
    } else {
        c
    }
}

/// ASCII lowercasing, applied character by character.
pub open spec fn spec_lower(s: Seq<char>) -> Seq<char> {
    s.map_values(|c: char| lower_char(c))
}

/// The digit characters of `s`, in order, with everything else removed.
pub open spec fn spec_digits(s: Seq<char>) -> Seq<char>
    decreases s.len(),
{
    if s.len() == 0 {
        Seq::empty()
    } else if is_digit(s.last()) {
        spec_digits(s.drop_last()).push(s.last())
    } else {
        spec_digits(s.drop_last())
    }
}

/// The value of a string of decimal digits (most significant first).
pub open spec fn spec_dec_val(digs: Seq<char>) -> int
    decreases digs.len(),
{
    if digs.len() == 0 {
        0
    } else {
        spec_dec_val(digs.drop_last()) * 10 + digit_val(digs.last())
    }
}

/// The decimal representation of a non-negative number.
pub open spec fn spec_dec_str(n: int) -> Seq<char>
    decreases n,
{
    if n < 10 {
        seq![(('0' as u8) + (if 0 <= n { n } else { 0 }) as u8) as char]
    } else {
        spec_dec_str(n / 10).push((('0' as u8) + (n % 10) as u8) as char)
    }
}

pub proof fn lemma_leading_spaces_bounds(s: Seq<char>)
    ensures
        0 <= leading_spaces(s) <= s.len(),
        forall|j: int| 0 <= j < leading_spaces(s) ==> is_space(s[j]),
        leading_spaces(s) < s.len() ==> !is_space(s[leading_spaces(s)]),
    decreases s.len(),
{
    if s.len() == 0 || !is_space(s[0]) {
    } else {
        lemma_leading_spaces_bounds(s.drop_first());
        assert forall|j: int| 0 <= j < leading_spaces(s) implies is_space(s[j]) by {
            if j > 0 {
                assert(s.drop_first()[j - 1] == s[j]);
            }
        }
        if leading_spaces(s) < s.len() {
            assert(s.drop_first()[leading_spaces(s) - 1] == s[leading_spaces(s)]);
        }
    }
}

pub proof fn lemma_trailing_spaces_bounds(s: Seq<char>)
    ensures
        0 <= trailing_spaces(s) <= s.len(),
        forall|j: int| s.len() - trailing_spaces(s) <= j < s.len() ==> is_space(s[j]),
        trailing_spaces(s) < s.len() ==> !is_space(s[s.len() - trailing_spaces(s) - 1]),
    decreases s.len(),
{
    if s.len() == 0 || !is_space(s.last()) {
    } else {
        lemma_trailing_spaces_bounds(s.drop_last());
        assert forall|j: int| s.len() - trailing_spaces(s) <= j < s.len() implies is_space(
            s[j],
        ) by {
            if j < s.len() - 1 {
                assert(s.drop_last()[j] == s[j]);
            }
        }
        if trailing_spaces(s) < s.len() {
            assert(s.drop_last()[s.len() - trailing_spaces(s) - 1] == s[s.len() - trailing_spaces(
                s,
            ) - 1]);
        }
    }
}

/// `leading_spaces` is determined by any witness index: if all characters
/// before `i` are whitespace and the one at `i` (if any) is not, then `i` is
/// the leading-space count.
pub proof fn lemma_leading_spaces_witness(s: Seq<char>, i: int)
    requires
        0 <= i <= s.len(),
        forall|j: int| 0 <= j < i ==> is_space(s[j]),
        i < s.len() ==> !is_space(s[i]),
    ensures
        leading_spaces(s) == i,
    decreases s.len(),
{
    if s.len() == 0 {
    } else if i == 0 {
        lemma_leading_spaces_bounds(s);
    } else {
        assert(is_space(s[0]));
        assert forall|j: int| 0 <= j < i - 1 implies is_space(s.drop_first()[j]) by {
            assert(s.drop_first()[j] == s[j + 1]);
        }
        if i - 1 < s.drop_first().len() {
            assert(s.drop_first()[i - 1] == s[i]);
        }
        lemma_leading_spaces_witness(s.drop_first(), i - 1);
    }
}

pub proof fn lemma_trailing_spaces_witness(s: Seq<char>, i: int)
    requires
        0 <= i <= s.len(),
        forall|j: int| s.len() - i <= j < s.len() ==> is_space(s[j]),
        i < s.len() ==> !is_space(s[s.len() - i - 1]),
    ensures
        trailing_spaces(s) == i,
    decreases s.len(),
{
    if s.len() == 0 {
    } else if i == 0 {
        lemma_trailing_spaces_bounds(s);
    } else {
        assert(is_space(s.last()));
        assert forall|j: int| s.drop_last().len() - (i - 1) <= j < s.drop_last().len()
            implies is_space(s.drop_last()[j]) by {
            assert(s.drop_last()[j] == s[j]);
        }
        if i - 1 < s.drop_last().len() {
            assert(s.drop_last()[s.drop_last().len() - (i - 1) - 1] == s[s.len() - i - 1]);
        }
        lemma_trailing_spaces_witness(s.drop_last(), i - 1);
    }
}

/// Converts a string slice into its character vector.
pub fn to_chars(s: &str) -> (r: Vec<char>)
    ensures
        r@ == s@,
{
    let n: usize = s.unicode_len();
    let mut r: Vec<char> = Vec::new();
    let mut i: usize = 0;
    while i < n
        invariant
            n == s@.len(),
            i <= n,
            r@ == s@.take(i as int),
        decreases n - i,
    {
        let c = s.get_char(i);
        r.push(c);
        proof {
            assert(s@.take(i as int).push(s@[i as int]) =~= s@.take(i + 1 as int));
        }
        i = i + 1;
    }
    proof {
        assert(r@ =~= s@);
    }
    r
}

/// Relies on `String`'s `FromIterator` impl: collecting a sequence of
/// characters yields the string with exactly those characters.
#[verifier::external_body]
pub fn chars_to_string(v: &Vec<char>) -> (r: String)
    ensures
        r@ == v@,
{
    v.iter().collect()
}

pub fn exec_is_space(c: char) -> (r: bool)
    ensures
        r == is_space(c),
{
    c == ' ' || c == '\t' || c == '\r' || c == '\n'
}

pub fn exec_is_digit(c: char) -> (r: bool)
    ensures
        r == is_digit(c),
{
    '0' <= c && c <= '9'
}

/// Removes leading and trailing whitespace.
pub fn trim_chars(v: &Vec<char>) -> (r: Vec<char>)
    ensures
        r@ == spec_trim(v@),
{
    let n: usize = v.len();
    let mut start: usize = 0;
    while start < n && exec_is_space(v[start])
        invariant
            n == v@.len(),
            start <= n,
            forall|j: int| 0 <= j < start ==> is_space(v@[j]),
        decreases n - start,
    {
        start = start + 1;
    }
    proof {
        lemma_leading_spaces_witness(v@, start as int);
    }
    if start == n {
        let r: Vec<char> = Vec::new();
        proof {
            assert(r@ =~= spec_trim(v@));
        }
        return r;
    }
    let mut end: usize = n;
    while end > start && exec_is_space(v[end - 1])
        invariant
            n == v@.len(),
            start <= end <= n,
            start < n,
            forall|j: int| end <= j < n ==> is_space(v@[j]),
        decreases end,
    {
        end = end - 1;
    }
    // the character at `start` is not whitespace, so `end` stops above it
    proof {
        lemma_trailing_spaces_witness(v@, n - end);
    }
    let mut r: Vec<char> = Vec::new();
    let mut i: usize = start;
    while i < end
        invariant
            start <= i <= end <= n,
            n == v@.len(),
            r@ == v@.subrange(start as int, i as int),
        decreases end - i,
    {
        r.push(v[i]);
        proof {
            assert(v@.subrange(start as int, i as int).push(v@[i as int]) =~= v@.subrange(
                start as int,
                i + 1 as int,
            ));
        }
        i = i + 1;
    }
    proof {
        assert(r@ =~= spec_trim(v@));
    }
    r
}

/// ASCII-lowercases every character.
pub fn lower_chars(v: &Vec<char>) -> (r: Vec<char>)
    ensures
        r@ == spec_lower(v@),
{
    let n: usize = v.len();
    let mut r: Vec<char> = Vec::new();
    let mut i: usize = 0;
    while i < n
        invariant
            n == v@.len(),
            i <= n,
            r@ == v@.take(i as int).map_values(|c: char| lower_char(c)),
        decreases n - i,
    {
        let c = v[i];
        let lc: char = if 'A' <= c && c <= 'Z' {
            proof {
                assert(c as u8 == c as int);
            }
            ((c as u8) + 32) as char
        } else {
            c
        };
        assert(lc == lower_char(c));
        r.push(lc);
        proof {
            assert(v@.take(i + 1 as int) =~= v@.take(i as int).push(v@[i as int]));
            assert(r@ =~= v@.take(i + 1 as int).map_values(|c: char| lower_char(c)));
        }
        i = i + 1;
    }
    proof {
        assert(v@.take(n as int) =~= v@);
    }
    r
}

pub fn chars_eq(a: &Vec<char>, b: &Vec<char>) -> (r: bool)
    ensures
        r == (a@ == b@),
{
    if a.len() != b.len() {
        proof {
            assert(a@ !~= b@);
        }
        return false;
    }
    let n: usize = a.len();
    let mut i: usize = 0;
    while i < n
        invariant
            n == a@.len() == b@.len(),
            i <= n,
            forall|j: int| 0 <= j < i ==> a@[j] == b@[j],
        decreases n - i,
    {
        if a[i] != b[i] {
            return false;
        }
        i = i + 1;
    }
    proof {
        assert(a@ =~= b@);
    }
    true
}

/// `r == (v@ == s@)`: compares a character vector against a string slice.
pub fn chars_eq_str(v: &Vec<char>, s: &str) -> (r: bool)
    ensures
        r == (v@ == s@),
{
    let sc = to_chars(s);
    chars_eq(v, &sc)
}

/// Copies `v[a..b]`.
pub fn subrange_chars(v: &Vec<char>, a: usize, b: usize) -> (r: Vec<char>)
    requires
        a <= b <= v@.len(),
    ensures
        r@ == v@.subrange(a as int, b as int),
{
    let mut r: Vec<char> = Vec::new();
    let mut i: usize = a;
    while i < b
        invariant
            a <= i <= b <= v@.len(),
            r@ == v@.subrange(a as int, i as int),
        decreases b - i,
    {
        r.push(v[i]);
        proof {
            assert(v@.subrange(a as int, i as int).push(v@[i as int]) =~= v@.subrange(
                a as int,
                i + 1 as int,
            ));
        }
        i = i + 1;
    }
    r
}

pub open spec fn pow10(n: int) -> int
    decreases n,
{
    if n <= 0 {
        1
    } else {
        10 * pow10(n - 1)
    }
}

pub proof fn lemma_dec_val_bound(digs: Seq<char>)
    ensures
        0 <= spec_dec_val(digs) || !all_digits(digs),
        all_digits(digs) ==> 0 <= spec_dec_val(digs) < pow10(digs.len() as int),
    decreases digs.len(),
{
    if digs.len() > 0 {
        lemma_dec_val_bound(digs.drop_last());
        if all_digits(digs) {
            assert(all_digits(digs.drop_last())) by {
                assert(forall|i: int|
                    0 <= i < digs.drop_last().len() ==> digs.drop_last()[i] == digs[i]);
            }
            assert(0 <= digit_val(digs.last()) <= 9);
        }
    }
}

pub open spec fn all_digits(s: Seq<char>) -> bool {
    forall|i: int| 0 <= i < s.len() ==> is_digit(#[trigger] s[i])
}

/// The printed decimal form of `n` is all digits and parses back to `n`.
pub proof fn lemma_dec_str_roundtrip(n: int)
    requires
        0 <= n,
    ensures
        all_digits(spec_dec_str(n)),
        spec_dec_val(spec_dec_str(n)) == n,
        spec_dec_str(n).len() >= 1,
        n < pow10(9) ==> spec_dec_str(n).len() <= 9,
    decreases n,
{
    if n < 10 {
        let c = (('0' as u8) + n as u8) as char;
        assert(is_digit(c));
        assert(c as int == '0' as int + n);
        let s = spec_dec_str(n);
        assert(s =~= seq![c]);
        assert(s.len() == 1);
        assert(s.last() == c);
        assert(s.drop_last() =~= Seq::<char>::empty());
        assert(spec_dec_val(s.drop_last()) == 0);
        assert(spec_dec_val(s) == spec_dec_val(s.drop_last()) * 10 + digit_val(s.last()));
        assert(spec_dec_val(spec_dec_str(n)) == digit_val(c));
    } else {
        lemma_dec_str_roundtrip(n / 10);
        let c = (('0' as u8) + (n % 10) as u8) as char;
        assert(is_digit(c));
        let s = spec_dec_str(n);
        assert(s == spec_dec_str(n / 10).push(c));
        assert(s.drop_last() =~= spec_dec_str(n / 10));
        assert(forall|i: int| 0 <= i < s.len() - 1 ==> s[i] == spec_dec_str(n / 10)[i]);
        assert(spec_dec_val(s) == spec_dec_val(spec_dec_str(n / 10)) * 10 + digit_val(c));
        assert(spec_dec_val(s) == n);
        if n < pow10(9) {
            // each extra digit divides n by 10, so at most 9 digits fit under 10^9
            lemma_dec_str_len_le(n, 9);
        }
    }
}

pub proof fn lemma_dec_str_len_le(n: int, k: int)
    requires
        0 <= n < pow10(k),
        1 <= k,
    ensures
        spec_dec_str(n).len() <= k,
    decreases k,
{
    if n < 10 {
    } else {
        assert(pow10(k) == 10 * pow10(k - 1));
        assert(n / 10 < pow10(k - 1));
        assert(2 <= k) by {
            if k == 1 {
                assert(pow10(1) == 10);
            }
        }
        lemma_dec_str_len_le(n / 10, k - 1);
    }
}

/// All digits of the printed form are digit characters, so a noisy-digit
/// extraction leaves it unchanged.
pub proof fn lemma_digits_of_all_digits(s: Seq<char>)
    requires
        all_digits(s),
    ensures
        spec_digits(s) == s,
    decreases s.len(),
{
    if s.len() == 0 {
        assert(spec_digits(s) =~= s);
    } else {
        assert(all_digits(s.drop_last())) by {
            assert(forall|i: int| 0 <= i < s.drop_last().len() ==> s.drop_last()[i] == s[i]);
        }
        lemma_digits_of_all_digits(s.drop_last());
        assert(is_digit(s.last()));
        assert(spec_digits(s) =~= s);
    }
}

/// Prints a number in decimal.
pub fn dec_chars(n: usize) -> (r: Vec<char>)
    ensures
        r@ == spec_dec_str(n as int),
    decreases n,
{
    if n < 10 {
        let mut r: Vec<char> = Vec::new();
        r.push((('0' as u8) + (n as u8)) as char);
        proof {
            assert(r@ =~= spec_dec_str(n as int));
        }
        r
    } else {
        let mut r = dec_chars(n / 10);
        r.push((('0' as u8) + ((n % 10) as u8)) as char);
        r
    }
}

/// The value of a vector of decimal digits; at most nine digits, so the
/// result stays below one billion on every architecture.
pub fn dec_value(digs: &Vec<char>) -> (r: usize)
    requires
        all_digits(digs@),
        digs@.len() <= 9,
    ensures
        r == spec_dec_val(digs@),
        r < 1000000000,
{
    proof {
        assert(pow10(9) == 1000000000) by {
            reveal_with_fuel(pow10, 11);
        }
    }
    let n: usize = digs.len();
    let mut acc: usize = 0;
    let mut i: usize = 0;
    while i < n
        invariant
            i <= n == digs@.len() <= 9,
            all_digits(digs@),
            acc == spec_dec_val(digs@.take(i as int)),
            acc < pow10(i as int),
            pow10(9) == 1000000000,
        decreases n - i,
    {
        let c = digs[i];
        assert(is_digit(c));
        proof {
            lemma_pow10_increases(i as int, 8);
            assert(digs@.take(i + 1 as int).drop_last() =~= digs@.take(i as int));
            assert(digs@.take(i + 1 as int).last() == digs@[i as int]);
        }
        acc = acc * 10 + ((c as u8) - ('0' as u8)) as usize;
        i = i + 1;
    }
    proof {
        assert(digs@.take(n as int) =~= digs@);
        lemma_pow10_increases(n as int, 9);
    }
    acc
}

pub proof fn lemma_pow10_increases(a: int, b: int)
    requires
        a <= b,
    ensures
        pow10(a) <= pow10(b),
        1 <= pow10(a),
    decreases b - a,
{
    if a < b {
        lemma_pow10_increases(a, b - 1);
    } else {
        lemma_pow10_positive(a);
    }
}

pub proof fn lemma_pow10_positive(a: int)
    ensures
        1 <= pow10(a),
    decreases a,
{
    if a > 0 {
        lemma_pow10_positive(a - 1);
    }
}

/// `s` holds no occurrence of the character `c`.
pub open spec fn no_char(s: Seq<char>, c: char) -> bool {
    forall|i: int| 0 <= i < s.len() ==> s[i] != c
}

/// Trimming never introduces a character.
pub proof fn lemma_trim_no_char(s: Seq<char>, c: char)
    requires
        no_char(s, c),
    ensures
        no_char(spec_trim(s), c),
{
    lemma_leading_spaces_bounds(s);
    lemma_trailing_spaces_bounds(s);
}

/// Trimming is idempotent.
pub proof fn lemma_trim_idempotent(s: Seq<char>)
    ensures
        spec_trim(spec_trim(s)) == spec_trim(s),
{
    lemma_leading_spaces_bounds(s);
    lemma_trailing_spaces_bounds(s);
    let t = spec_trim(s);
    if leading_spaces(s) == s.len() {
        assert(t.len() == 0);
        assert(leading_spaces(t) == 0);
        assert(spec_trim(t) =~= t);
    } else {
        if trailing_spaces(s) == s.len() {
            lemma_leading_spaces_witness(s, s.len() as int);
        }
        assert(trailing_spaces(s) < s.len());
        assert(!is_space(s[leading_spaces(s)]));
        assert(leading_spaces(s) < s.len() - trailing_spaces(s));
        assert(t[0] == s[leading_spaces(s)]);
        assert(!is_space(t[0]));
        assert(t.last() == s[s.len() - trailing_spaces(s) - 1]);
        assert(!is_space(t.last()));
        assert(leading_spaces(t) == 0);
        assert(trailing_spaces(t) == 0);
        assert(t.subrange(0, t.len() as int) =~= t);
    }
}

/// `needle` occurs contiguously inside `hay`.
pub open spec fn contains_sub(hay: Seq<char>, needle: Seq<char>) -> bool {
    exists|j: int|
        0 <= j && j + needle.len() <= hay.len() && #[trigger] hay.subrange(j, j + needle.len())
            == needle
}

} // verus!
