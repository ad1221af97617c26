//! Field normalizer: total conversions from raw text tokens into typed
//! values. Malformed input always degrades to a documented default — an
//! absent number, a zero, an unknown boolean, an empty list — and never
//! fails.
//!
//! Unit convention fixed once for the whole store: every frequency
//! attribute is held in MHz. A value written with a decimal point is read
//! as GHz and converted (multiplied by one thousand); a whole number is
//! read as MHz directly.

use vstd::prelude::*;
use crate::text::{
    all_digits, chars_eq, chars_eq_str, chars_to_string, dec_value, exec_is_digit, is_digit,
    is_space, leading_spaces, lemma_dec_val_bound, lemma_pow10_increases, lower_chars, pow10,
    spec_dec_val, spec_digits, spec_lower, spec_trim, subrange_chars, to_chars, trailing_spaces,
    trim_chars,
};
use crate::dialect::{views_of, views_of_strings};

verus! {

/// An executable optional number agrees with its mathematical counterpart.
pub open spec fn opt_eq_int(r: Option<usize>, s: Option<int>) -> bool {
    &&& (r is Some <==> s is Some)
    &&& (r is Some ==> r->0 as int == s->0)
}

/// Integer-from-noisy-text: every non-digit character is stripped and the
/// remaining digits are read as one decimal number. No digits at all, or
/// more than nine of them, counts as unparsable and yields the absent
/// default.
pub open spec fn spec_uint_opt(s: Seq<char>) -> Option<int> {
    let d = spec_digits(s);
    if d.len() == 0 || d.len() > 9 {
        None
    } else {
        Some(spec_dec_val(d))
    }
}

/// Extracts the digit characters of `v`, in order.
pub fn digits_of(v: &Vec<char>) -> (r: Vec<char>)
    ensures
        r@ == spec_digits(v@),
        all_digits(r@),
{
    let n: usize = v.len();
    let mut r: Vec<char> = Vec::new();
    let mut i: usize = 0;
    while i < n
        invariant
            i <= n == v@.len(),
            r@ == spec_digits(v@.take(i as int)),
            all_digits(r@),
        decreases n - i,
    {
        let c = v[i];
        proof {
            assert(v@.take(i + 1 as int).drop_last() =~= v@.take(i as int));
            assert(v@.take(i + 1 as int).last() == v@[i as int]);
        }
        if exec_is_digit(c) {
            r.push(c);
        }
        i = i + 1;
    }
    proof {
        assert(v@.take(n as int) =~= v@);
    }
    r
}

/// Integer-from-noisy-text, executable form.
pub fn parse_uint_noisy(v: &Vec<char>) -> (r: Option<usize>)
    ensures
        opt_eq_int(r, spec_uint_opt(v@)),
        r is Some ==> r->0 < 1000000000,
{
    let d = digits_of(v);
    if d.len() == 0 || d.len() > 9 {
        None
    } else {
        Some(dec_value(&d))
    }
}

/// The digit extraction yields digit characters only.
pub proof fn lemma_spec_digits_all(s: Seq<char>)
    ensures
        all_digits(spec_digits(s)),
    decreases s.len(),
{
    if s.len() > 0 {
        lemma_spec_digits_all(s.drop_last());
        if is_digit(s.last()) {
            let d = spec_digits(s.drop_last());
            assert(forall|i: int|
                0 <= i < d.len() ==> d.push(s.last())[i] == #[trigger] d[i]);
        }
    }
}

/// A parsed noisy integer stays below one billion.
pub proof fn lemma_uint_opt_small(s: Seq<char>)
    ensures
        spec_uint_opt(s) matches Some(v) ==> 0 <= v < 1000000000,
{
    if spec_uint_opt(s) is Some {
        let d = spec_digits(s);
        lemma_spec_digits_all(s);
        lemma_dec_val_bound(d);
        lemma_pow10_increases(d.len() as int, 9);
        assert(pow10(9) == 1000000000) by {
            reveal_with_fuel(pow10, 11);
        }
    }
}

/// A parsed frequency stays below one billion MHz.
pub proof fn lemma_freq_opt_small(s: Seq<char>)
    ensures
        spec_freq_mhz_opt(s) matches Some(v) ==> 0 <= v < 1000000000,
{
    let c = spec_freq_clean(s);
    if spec_freq_mhz_opt(s) is Some {
        if first_dot(c) < c.len() {
            let ip = c.take(first_dot(c));
            let fr = c.skip(first_dot(c) + 1);
            lemma_dec_val_bound(ip);
            lemma_dec_val_bound(spec_frac3(fr));
            lemma_pow10_increases(ip.len() as int, 6);
            assert(all_digits(spec_frac3(fr)));
            assert(pow10(6) == 1000000) by {
                reveal_with_fuel(pow10, 8);
            }
            assert(pow10(3) == 1000) by {
                reveal_with_fuel(pow10, 5);
            }
        } else {
            lemma_dec_val_bound(c);
            lemma_pow10_increases(c.len() as int, 9);
            assert(pow10(9) == 1000000000) by {
                reveal_with_fuel(pow10, 11);
            }
        }
    }
}

/// `s` with the prefix `p` removed when it starts with `p`.
pub open spec fn spec_strip_prefix(s: Seq<char>, p: Seq<char>) -> Seq<char> {
    if p.len() <= s.len() && s.take(p.len() as int) == p {
        s.skip(p.len() as int)
    } else {
        s
    }
}

/// `s` with the suffix `p` removed when it ends with `p`.
pub open spec fn spec_strip_suffix(s: Seq<char>, p: Seq<char>) -> Seq<char> {
    if p.len() <= s.len() && s.skip(s.len() - p.len()) == p {
        s.take(s.len() - p.len())
    } else {
        s
    }
}

pub fn strip_prefix_chars(v: &Vec<char>, p: &Vec<char>) -> (r: Vec<char>)
    ensures
        r@ == spec_strip_prefix(v@, p@),
{
    if p.len() <= v.len() {
        let head = subrange_chars(v, 0, p.len());
        if chars_eq(&head, p) {
            proof {
                assert(v@.take(p@.len() as int) =~= v@.subrange(0, p@.len() as int));
                assert(v@.skip(p@.len() as int) =~= v@.subrange(p@.len() as int, v@.len() as int));
            }
            return subrange_chars(v, p.len(), v.len());
        }
        proof {
            assert(v@.take(p@.len() as int) =~= v@.subrange(0, p@.len() as int));
        }
    }
    let r = subrange_chars(v, 0, v.len());
    proof {
        assert(r@ =~= v@);
    }
    r
}

pub fn strip_suffix_chars(v: &Vec<char>, p: &Vec<char>) -> (r: Vec<char>)
    ensures
        r@ == spec_strip_suffix(v@, p@),
{
    if p.len() <= v.len() {
        let tail = subrange_chars(v, v.len() - p.len(), v.len());
        if chars_eq(&tail, p) {
            proof {
                assert(v@.skip(v@.len() - p@.len()) =~= v@.subrange(
                    v@.len() - p@.len(),
                    v@.len() as int,
                ));
                assert(v@.take(v@.len() - p@.len()) =~= v@.subrange(0, v@.len() - p@.len()));
            }
            return subrange_chars(v, 0, v.len() - p.len());
        }
        proof {
            assert(v@.skip(v@.len() - p@.len()) =~= v@.subrange(v@.len() - p@.len(), v@.len() as int));
        }
    }
    let r = subrange_chars(v, 0, v.len());
    proof {
        assert(r@ =~= v@);
    }
    r
}

/// The cleaned frequency token: trimmed, with a leading "Up to " qualifier
/// and a trailing unit suffix removed.
pub open spec fn spec_freq_clean(s: Seq<char>) -> Seq<char> {
    spec_strip_suffix(
        spec_strip_suffix(spec_strip_prefix(spec_trim(s), "Up to "@), " GHz"@),
        " MHz"@,
    )
}

pub fn clean_freq(v: &Vec<char>) -> (r: Vec<char>)
    ensures
        r@ == spec_freq_clean(v@),
{
    let t = trim_chars(v);
    let up_to = to_chars("Up to ");
    let ghz = to_chars(" GHz");
    let mhz = to_chars(" MHz");
    let t1 = strip_prefix_chars(&t, &up_to);
    let t2 = strip_suffix_chars(&t1, &ghz);
    strip_suffix_chars(&t2, &mhz)
}

/// Index of the first decimal point of `s`, or the length of `s` when it
/// has none.
pub open spec fn first_dot(s: Seq<char>) -> int
    decreases s.len(),
{
    if s.len() == 0 {
        0
    } else if s[0] == '.' {
        0
    } else {
        1 + first_dot(s.drop_first())
    }
}

pub proof fn lemma_first_dot_witness(s: Seq<char>, i: int)
    requires
        0 <= i <= s.len(),
        forall|j: int| 0 <= j < i ==> s[j] != '.',
        i < s.len() ==> s[i] == '.',
    ensures
        first_dot(s) == i,
    decreases s.len(),
{
    if s.len() == 0 {
    } else if i == 0 {
    } else {
        assert forall|j: int| 0 <= j < i - 1 implies s.drop_first()[j] != '.' by {
            assert(s.drop_first()[j] == s[j + 1]);
        }
        if i - 1 < s.drop_first().len() {
            assert(s.drop_first()[i - 1] == s[i]);
        }
        lemma_first_dot_witness(s.drop_first(), i - 1);
    }
}

pub fn find_dot(v: &Vec<char>) -> (r: usize)
    ensures
        r as int == first_dot(v@),
        r <= v@.len(),
{
    let n: usize = v.len();
    let mut i: usize = 0;
    while i < n && v[i] != '.'
        invariant
            i <= n == v@.len(),
            forall|j: int| 0 <= j < i ==> v@[j] != '.',
        decreases n - i,
    {
        i = i + 1;
    }
    proof {
        lemma_first_dot_witness(v@, i as int);
    }
    i
}

/// The first three fractional digits, zero-padded.
pub open spec fn spec_frac3(f: Seq<char>) -> Seq<char> {
    Seq::new(3, |i: int| if i < f.len() { f[i] } else { '0' })
}

/// Frequency-from-unit-text, in MHz. A cleaned token with a decimal point
/// is a GHz value: its integer part (at most six digits) times one
/// thousand plus its first three fractional digits. A cleaned token of
/// plain digits (at most nine) is an MHz value read directly. Anything
/// else is unparsable and yields the absent default.
pub open spec fn spec_freq_mhz_opt(s: Seq<char>) -> Option<int> {
    let c = spec_freq_clean(s);
    if first_dot(c) < c.len() {
        let ip = c.take(first_dot(c));
        let fr = c.skip(first_dot(c) + 1);
        if all_digits(ip) && all_digits(fr) && ip.len() + fr.len() >= 1 && ip.len() <= 6
            && first_dot(fr) == fr.len() {
            Some(spec_dec_val(ip) * 1000 + spec_dec_val(spec_frac3(fr)))
        } else {
            None
        }
    } else {
        if 1 <= c.len() <= 9 && all_digits(c) {
            Some(spec_dec_val(c))
        } else {
            None
        }
    }
}

pub fn exec_all_digits(v: &Vec<char>) -> (r: bool)
    ensures
        r == all_digits(v@),
{
    let n: usize = v.len();
    let mut i: usize = 0;
    while i < n
        invariant
            i <= n == v@.len(),
            forall|j: int| 0 <= j < i ==> is_digit(#[trigger] v@[j]),
        decreases n - i,
    {
        if !exec_is_digit(v[i]) {
            return false;
        }
        i = i + 1;
    }
    true
}

/// Frequency-from-unit-text, executable form.
pub fn parse_freq_mhz(v: &Vec<char>) -> (r: Option<usize>)
    ensures
        opt_eq_int(r, spec_freq_mhz_opt(v@)),
        r is Some ==> r->0 < 1000000000,
{
    let c = clean_freq(v);
    let dot = find_dot(&c);
    if dot < c.len() {
        let ip = subrange_chars(&c, 0, dot);
        let fr = subrange_chars(&c, dot + 1, c.len());
        proof {
            assert(ip@ =~= c@.take(first_dot(c@)));
            assert(fr@ =~= c@.skip(first_dot(c@) + 1));
        }
        let fr_dot = find_dot(&fr);
        if exec_all_digits(&ip) && exec_all_digits(&fr) && ip.len() + fr.len() >= 1 && ip.len()
            <= 6 && fr_dot == fr.len() {
            let mut f3: Vec<char> = Vec::new();
            let mut k: usize = 0;
            while k < 3
                invariant
                    k <= 3,
                    all_digits(fr@),
                    f3@ == spec_frac3(fr@).take(k as int),
                    all_digits(f3@),
                decreases 3 - k,
            {
                let c3: char = if k < fr.len() {
                    fr[k]
                } else {
                    '0'
                };
                f3.push(c3);
                proof {
                    assert(spec_frac3(fr@).take(k + 1 as int) =~= spec_frac3(fr@).take(
                        k as int,
                    ).push(spec_frac3(fr@)[k as int]));
                }
                k = k + 1;
            }
            proof {
                assert(f3@ =~= spec_frac3(fr@));
            }
            let iv = dec_value(&ip);
            let fv = dec_value(&f3);
            proof {
                lemma_dec_val_bound(ip@);
                lemma_dec_val_bound(f3@);
                lemma_pow10_increases(ip@.len() as int, 6);
                assert(pow10(6) == 1000000) by {
                    reveal_with_fuel(pow10, 8);
                }
                assert(pow10(3) == 1000) by {
                    reveal_with_fuel(pow10, 5);
                }
            }
            Some(iv * 1000 + fv)
        } else {
            None
        }
    } else {
        if c.len() >= 1 && c.len() <= 9 && exec_all_digits(&c) {
            Some(dec_value(&c))
        } else {
            None
        }
    }
}

/// Tri-state boolean under the yes/no vocabulary: a case-insensitive "yes"
/// or "no" decides; anything else, a blank included, is unknown.
pub open spec fn spec_yes_no(s: Seq<char>) -> Option<bool> {
    let t = spec_lower(spec_trim(s));
    if t == "yes"@ {
        Some(true)
    } else if t == "no"@ {
        Some(false)
    } else {
        None
    }
}

pub fn parse_yes_no(v: &Vec<char>) -> (r: Option<bool>)
    ensures
        r == spec_yes_no(v@),
{
    let t = lower_chars(&trim_chars(v));
    if chars_eq_str(&t, "yes") {
        Some(true)
    } else if chars_eq_str(&t, "no") {
        Some(false)
    } else {
        None
    }
}

/// Tri-state boolean under the available/blank vocabulary: a
/// case-insensitive "available" means yes, a blank is unknown, and any
/// other text means no.
pub open spec fn spec_available(s: Seq<char>) -> Option<bool> {
    let t = spec_lower(spec_trim(s));
    if t == "available"@ {
        Some(true)
    } else if t.len() == 0 {
        None
    } else {
        Some(false)
    }
}

pub fn parse_available(v: &Vec<char>) -> (r: Option<bool>)
    ensures
        r == spec_available(v@),
{
    let t = lower_chars(&trim_chars(v));
    if chars_eq_str(&t, "available") {
        Some(true)
    } else if t.len() == 0 {
        None
    } else {
        Some(false)
    }
}

/// Optional text: blank after trimming is absent; anything else is kept,
/// trimmed.
pub open spec fn spec_opt_text(s: Seq<char>) -> Option<Seq<char>> {
    if spec_trim(s).len() == 0 {
        None
    } else {
        Some(spec_trim(s))
    }
}

/// The view of an executable optional string.
pub open spec fn view_opt_string(r: Option<String>) -> Option<Seq<char>> {
    match r {
        None => None,
        Some(s) => Some(s@),
    }
}

pub fn opt_text(v: &Vec<char>) -> (r: Option<String>)
    ensures
        view_opt_string(r) == spec_opt_text(v@),
{
    let t = trim_chars(v);
    if t.len() == 0 {
        None
    } else {
        Some(chars_to_string(&t))
    }
}

/// Required text: kept verbatim, trimmed.
pub fn req_text(v: &Vec<char>) -> (r: String)
    ensures
        r@ == spec_trim(v@),
{
    chars_to_string(&trim_chars(v))
}

/// `t` with one pair of surrounding double quotes removed.
pub open spec fn spec_unquote(t: Seq<char>) -> Seq<char> {
    if t.len() >= 2 && t[0] == '"' && t.last() == '"' {
        t.subrange(1, t.len() - 1)
    } else {
        t
    }
}

/// The comma-separated pieces of `s`; splitting the empty text yields one
/// empty piece.
pub open spec fn split_commas(s: Seq<char>) -> Seq<Seq<char>>
    decreases s.len(),
{
    if s.len() == 0 {
        seq![Seq::empty()]
    } else {
        let p = split_commas(s.drop_last());
        if s.last() == ',' {
            p.push(Seq::empty())
        } else {
            p.drop_last().push(p.last().push(s.last()))
        }
    }
}

pub proof fn lemma_split_commas_nonempty(s: Seq<char>)
    ensures
        split_commas(s).len() >= 1,
    decreases s.len(),
{
    if s.len() > 0 {
        lemma_split_commas_nonempty(s.drop_last());
    }
}

/// Each piece trimmed, with pieces that trim to nothing dropped.
pub open spec fn trim_drop_empty(ps: Seq<Seq<char>>) -> Seq<Seq<char>>
    decreases ps.len(),
{
    if ps.len() == 0 {
        Seq::empty()
    } else {
        let r = trim_drop_empty(ps.drop_last());
        let t = spec_trim(ps.last());
        if t.len() > 0 {
            r.push(t)
        } else {
            r
        }
    }
}

/// Multi-value list: the trimmed token, with one pair of surrounding
/// quotes removed, split on commas; each element trimmed, empty elements
/// dropped. Blank input yields the empty list; a token without delimiters
/// yields a single element.
///
/// The dialect parser consumes the quote characters of a quoted source
/// field but keeps the delimiters inside it, so by the time a token
/// reaches the normalizer a comma-joined list is recognized by its commas
/// alone; the quote handling here serves callers that still hold raw
/// quoted text.
pub open spec fn spec_split_list(s: Seq<char>) -> Seq<Seq<char>> {
    trim_drop_empty(split_commas(spec_unquote(spec_trim(s))))
}

/// Splits a raw token on commas into character vectors.
pub fn split_commas_chars(v: &Vec<char>) -> (r: Vec<Vec<char>>)
    ensures
        views_of(r@) == split_commas(v@),
{
    let n: usize = v.len();
    let mut done: Vec<Vec<char>> = Vec::new();
    let mut cur: Vec<char> = Vec::new();
    let mut i: usize = 0;
    while i < n
        invariant
            i <= n == v@.len(),
            views_of(done@).push(cur@) =~= split_commas(v@.take(i as int)),
        decreases n - i,
    {
        let c = v[i];
        proof {
            assert(v@.take(i + 1 as int).drop_last() =~= v@.take(i as int));
            assert(v@.take(i + 1 as int).last() == v@[i as int]);
            lemma_split_commas_nonempty(v@.take(i as int));
        }
        if c == ',' {
            let ghost old_done = done@;
            let ghost old_cur = cur@;
            done.push(cur);
            cur = Vec::new();
            proof {
                assert(views_of(done@) =~= views_of(old_done).push(old_cur));
                assert(views_of(done@).push(cur@) =~= split_commas(v@.take(i + 1 as int)));
            }
        } else {
            cur.push(c);
            proof {
                let p = split_commas(v@.take(i as int));
                assert(p.drop_last() =~= views_of(done@));
                assert(views_of(done@).push(cur@) =~= p.drop_last().push(p.last().push(v@[i as int])));
            }
        }
        i = i + 1;
    }
    proof {
        assert(v@.take(n as int) =~= v@);
    }
    let ghost old_done = done@;
    let ghost old_cur = cur@;
    done.push(cur);
    proof {
        assert(views_of(done@) =~= views_of(old_done).push(old_cur));
    }
    done
}

/// Trims each piece and drops the ones that trim to nothing.
pub fn trim_drop_empty_chars(ps: Vec<Vec<char>>) -> (r: Vec<Vec<char>>)
    ensures
        views_of(r@) == trim_drop_empty(views_of(ps@)),
{
    let n: usize = ps.len();
    let mut r: Vec<Vec<char>> = Vec::new();
    let mut i: usize = 0;
    while i < n
        invariant
            i <= n == ps@.len(),
            views_of(r@) =~= trim_drop_empty(views_of(ps@).take(i as int)),
        decreases n - i,
    {
        proof {
            assert(views_of(ps@).take(i + 1 as int).drop_last() =~= views_of(ps@).take(i as int));
            assert(views_of(ps@).take(i + 1 as int).last() == ps@[i as int]@);
        }
        let t = trim_chars(&ps[i]);
        if t.len() > 0 {
            let ghost old_r = r@;
            r.push(t);
            proof {
                assert(views_of(r@) =~= views_of(old_r).push(spec_trim(ps@[i as int]@)));
            }
        }
        i = i + 1;
    }
    proof {
        assert(views_of(ps@).take(n as int) =~= views_of(ps@));
    }
    r
}

/// Multi-value list, executable form, over character vectors.
pub fn split_list_chars(v: &Vec<char>) -> (r: Vec<Vec<char>>)
    ensures
        views_of(r@) == spec_split_list(v@),
{
    let t = trim_chars(v);
    let u: Vec<char> = if t.len() >= 2 && t[0] == '"' && t[t.len() - 1] == '"' {
        let w = subrange_chars(&t, 1, t.len() - 1);
        proof {
            assert(w@ =~= spec_unquote(spec_trim(v@)));
        }
        w
    } else {
        proof {
            assert(t@ =~= spec_unquote(spec_trim(v@)));
        }
        t
    };
    let ps = split_commas_chars(&u);
    trim_drop_empty_chars(ps)
}

/// Multi-value list over strings: the public normalizer for
/// quoted-and-comma-joined raw text.
pub fn split_quoted(s: &str) -> (r: Vec<String>)
    ensures
        views_of_strings(r@) == spec_split_list(s@),
{
    let chars = to_chars(s);
    let pieces = split_list_chars(&chars);
    let n: usize = pieces.len();
    let mut r: Vec<String> = Vec::new();
    let mut i: usize = 0;
    while i < n
        invariant
            i <= n == pieces@.len(),
            views_of_strings(r@) =~= views_of(pieces@).take(i as int),
        decreases n - i,
    {
        let ghost old_r = r@;
        let piece = chars_to_string(&pieces[i]);
        r.push(piece);
        proof {
            assert(views_of_strings(r@) =~= views_of_strings(old_r).push(pieces@[i as int]@));
            assert(views_of(pieces@).take(i + 1 as int) =~= views_of(pieces@).take(i as int).push(
                pieces@[i as int]@,
            ));
        }
        i = i + 1;
    }
    proof {
        assert(views_of(pieces@).take(n as int) =~= views_of(pieces@));
    }
    r
}

/// The pieces joined with single commas.
pub open spec fn spec_join(ps: Seq<Seq<char>>) -> Seq<char>
    decreases ps.len(),
{
    if ps.len() == 0 {
        Seq::empty()
    } else if ps.len() == 1 {
        ps[0]
    } else {
        spec_join(ps.drop_last()) + seq![','] + ps.last()
    }
}

pub fn push_all(dst: &mut Vec<char>, src: &Vec<char>)
    ensures
        final(dst)@ == old(dst)@ + src@,
{
    let n: usize = src.len();
    let mut i: usize = 0;
    while i < n
        invariant
            i <= n == src@.len(),
            dst@ == old(dst)@ + src@.take(i as int),
        decreases n - i,
    {
        dst.push(src[i]);
        proof {
            assert(old(dst)@ + src@.take(i + 1 as int) =~= (old(dst)@ + src@.take(i as int)).push(
                src@[i as int],
            ));
        }
        i = i + 1;
    }
    proof {
        assert(old(dst)@ + src@.take(n as int) =~= old(dst)@ + src@);
    }
}

/// A list element as the store keeps it: trimmed, non-empty, free of
/// delimiters and quotes.
pub open spec fn wf_list_piece(p: Seq<char>) -> bool {
    &&& spec_trim(p) == p
    &&& p.len() > 0
    &&& forall|i: int| 0 <= i < p.len() ==> #[trigger] p[i] != ',' && p[i] != '"'
}

/// Every element of the list is well formed.
pub open spec fn wf_list(ps: Seq<Seq<char>>) -> bool {
    forall|i: int| 0 <= i < ps.len() ==> wf_list_piece(#[trigger] ps[i])
}

/// A trimmed, non-empty text neither starts nor ends with whitespace.
pub proof fn lemma_trimmed_ends(p: Seq<char>)
    requires
        spec_trim(p) == p,
        p.len() > 0,
    ensures
        !is_space(p[0]),
        !is_space(p.last()),
{
    crate::text::lemma_leading_spaces_bounds(p);
    crate::text::lemma_trailing_spaces_bounds(p);
    if leading_spaces(p) == p.len() {
        assert(spec_trim(p).len() == 0);
    } else {
        assert(!is_space(p[leading_spaces(p)]));
        assert(leading_spaces(p) < p.len() - trailing_spaces(p));
        assert(spec_trim(p).len() == p.len() - leading_spaces(p) - trailing_spaces(p));
        assert(leading_spaces(p) == 0);
        assert(trailing_spaces(p) == 0);
        assert(!is_space(p[p.len() - 1]));
    }
}

/// Text with non-space ends trims to itself.
pub proof fn lemma_trim_noop(s: Seq<char>)
    requires
        s.len() > 0,
        !is_space(s[0]),
        !is_space(s.last()),
    ensures
        spec_trim(s) == s,
{
    assert(leading_spaces(s) == 0);
    assert(trailing_spaces(s) == 0);
    assert(s.subrange(0, s.len() as int) =~= s);
}

/// Joined non-empty pieces keep their first and last characters at the
/// edges.
pub proof fn lemma_join_ends(ps: Seq<Seq<char>>)
    requires
        ps.len() > 0,
        forall|i: int| 0 <= i < ps.len() ==> (#[trigger] ps[i]).len() > 0,
    ensures
        spec_join(ps).len() > 0,
        spec_join(ps)[0] == ps[0][0],
        spec_join(ps).last() == ps.last().last(),
    decreases ps.len(),
{
    if ps.len() > 1 {
        assert(forall|i: int|
            0 <= i < ps.drop_last().len() ==> (#[trigger] ps.drop_last()[i]).len() > 0);
        lemma_join_ends(ps.drop_last());
        assert(ps.drop_last()[0] == ps[0]);
    }
}

/// Appending comma-free text extends the final piece of the split.
pub proof fn lemma_split_commas_append(x: Seq<char>, t: Seq<char>)
    requires
        forall|i: int| 0 <= i < t.len() ==> #[trigger] t[i] != ',',
    ensures
        split_commas(x + t) == split_commas(x).drop_last().push(split_commas(x).last() + t),
    decreases t.len(),
{
    lemma_split_commas_nonempty(x);
    if t.len() == 0 {
        assert(x + t =~= x);
        assert(split_commas(x).last() + t =~= split_commas(x).last());
        assert(split_commas(x).drop_last().push(split_commas(x).last() + t) =~= split_commas(x));
    } else {
        assert(forall|i: int| 0 <= i < t.drop_last().len() ==> #[trigger] t.drop_last()[i] != ',');
        lemma_split_commas_append(x, t.drop_last());
        let y = x + t.drop_last();
        assert(x + t =~= y.push(t.last()));
        assert(t.last() != ',');
        let p = split_commas(y);
        lemma_split_commas_nonempty(y);
        assert(y.push(t.last()).drop_last() =~= y);
        assert(y.push(t.last()).last() == t.last());
        assert(split_commas(y.push(t.last())) == p.drop_last().push(p.last().push(t.last())));
        assert(p.drop_last() =~= split_commas(x).drop_last());
        assert(p.last() == split_commas(x).last() + t.drop_last());
        assert(p.last().push(t.last()) =~= split_commas(x).last() + t);
    }
}

/// Splitting a comma-join of comma-free pieces recovers the pieces.
pub proof fn lemma_split_commas_join(ps: Seq<Seq<char>>)
    requires
        ps.len() >= 1,
        forall|i: int, j: int|
            0 <= i < ps.len() && 0 <= j < ps[i].len() ==> #[trigger] ps[i][j] != ',',
    ensures
        split_commas(spec_join(ps)) == ps,
    decreases ps.len(),
{
    if ps.len() == 1 {
        assert(spec_join(ps) == ps[0]);
        assert(forall|j: int| 0 <= j < ps[0].len() ==> #[trigger] ps[0][j] != ',');
        lemma_split_commas_append(Seq::empty(), ps[0]);
        assert(Seq::<char>::empty() + ps[0] =~= ps[0]);
        assert(split_commas(Seq::<char>::empty()) == seq![Seq::<char>::empty()]);
        assert(seq![Seq::<char>::empty()].drop_last() =~= Seq::<Seq<char>>::empty());
        assert(Seq::<char>::empty() + ps[0] =~= ps[0]);
        assert(split_commas(ps[0]) =~= seq![ps[0]]);
        assert(ps =~= seq![ps[0]]);
    } else {
        assert(forall|i: int, j: int|
            0 <= i < ps.drop_last().len() && 0 <= j < ps.drop_last()[i].len()
                ==> #[trigger] ps.drop_last()[i][j] != ',');
        lemma_split_commas_join(ps.drop_last());
        let a = spec_join(ps.drop_last());
        assert(spec_join(ps) == a + seq![','] + ps.last());
        let b = a.push(',');
        assert(a + seq![','] =~= b);
        assert(b.drop_last() =~= a);
        assert(b.last() == ',');
        assert(split_commas(b) == split_commas(a).push(Seq::empty()));
        assert(forall|j: int| 0 <= j < ps.last().len() ==> #[trigger] ps.last()[j] != ',');
        lemma_split_commas_append(b, ps.last());
        assert(a + seq![','] + ps.last() =~= b + ps.last());
        lemma_split_commas_nonempty(a);
        assert(split_commas(b).drop_last() =~= split_commas(a));
        assert(split_commas(b).last() == Seq::<char>::empty());
        assert(Seq::<char>::empty() + ps.last() =~= ps.last());
        assert(split_commas(spec_join(ps)) == split_commas(a).push(ps.last()));
        assert(split_commas(a).push(ps.last()) =~= ps.drop_last().push(ps.last()));
        assert(ps.drop_last().push(ps.last()) =~= ps);
    }
}

/// Trimmed non-empty pieces pass through the trim-and-drop step
/// untouched.
pub proof fn lemma_trim_drop_empty_noop(ps: Seq<Seq<char>>)
    requires
        forall|i: int|
            0 <= i < ps.len() ==> spec_trim(#[trigger] ps[i]) == ps[i] && ps[i].len() > 0,
    ensures
        trim_drop_empty(ps) == ps,
    decreases ps.len(),
{
    if ps.len() > 0 {
        assert(forall|i: int|
            0 <= i < ps.drop_last().len() ==> spec_trim(#[trigger] ps.drop_last()[i])
                == ps.drop_last()[i] && ps.drop_last()[i].len() > 0);
        lemma_trim_drop_empty_noop(ps.drop_last());
        assert(trim_drop_empty(ps) =~= ps);
    }
}

/// Law: joining well-formed list elements with commas and reading the
/// result back through the multi-value list rule recovers exactly the
/// elements — the documented text serialization of lists loses nothing.
pub proof fn lemma_split_join(ps: Seq<Seq<char>>)
    requires
        wf_list(ps),
    ensures
        spec_split_list(spec_join(ps)) == ps,
{
    if ps.len() == 0 {
        let e = Seq::<char>::empty();
        assert(spec_join(ps) == e);
        assert(leading_spaces(e) == 0);
        assert(spec_trim(e) =~= e);
        assert(spec_unquote(e) == e);
        assert(split_commas(e) == seq![e]);
        assert(seq![e].drop_last() =~= Seq::<Seq<char>>::empty());
        assert(spec_trim(seq![e].last()).len() == 0);
        assert(trim_drop_empty(Seq::<Seq<char>>::empty()) =~= Seq::<Seq<char>>::empty());
        assert(trim_drop_empty(seq![e]) =~= Seq::<Seq<char>>::empty());
    } else {
        assert(forall|i: int| 0 <= i < ps.len() ==> (#[trigger] ps[i]).len() > 0);
        lemma_join_ends(ps);
        let j = spec_join(ps);
        assert(wf_list_piece(ps[0]));
        assert(wf_list_piece(ps.last()));
        lemma_trimmed_ends(ps[0]);
        lemma_trimmed_ends(ps.last());
        lemma_trim_noop(j);
        assert(ps[0][0] != '"');
        assert(spec_unquote(j) == j);
        assert(forall|i: int, jx: int|
            0 <= i < ps.len() && 0 <= jx < ps[i].len() ==> #[trigger] ps[i][jx] != ',');
        lemma_split_commas_join(ps);
        assert(forall|i: int|
            0 <= i < ps.len() ==> spec_trim(#[trigger] ps[i]) == ps[i] && ps[i].len() > 0);
        lemma_trim_drop_empty_noop(ps);
    }
}

/// Split pieces never hold a delimiter, and never hold a quote unless
/// the input did.
pub proof fn lemma_split_commas_pieces(s: Seq<char>)
    ensures
        forall|i: int|
            0 <= i < split_commas(s).len() ==> crate::text::no_char(
                #[trigger] split_commas(s)[i],
                ',',
            ) && (crate::text::no_char(s, '"') ==> crate::text::no_char(split_commas(s)[i], '"')),
    decreases s.len(),
{
    if s.len() > 0 {
        assert(crate::text::no_char(s, '"') ==> crate::text::no_char(s.drop_last(), '"')) by {
            if crate::text::no_char(s, '"') {
                assert(forall|i: int|
                    0 <= i < s.drop_last().len() ==> #[trigger] s.drop_last()[i] == s[i]);
            }
        }
        lemma_split_commas_pieces(s.drop_last());
        lemma_split_commas_nonempty(s.drop_last());
        let p = split_commas(s.drop_last());
        if s.last() == ',' {
            assert(forall|i: int|
                0 <= i < p.len() ==> #[trigger] p.push(Seq::<char>::empty())[i] == p[i]);
        } else {
            let q = p.drop_last().push(p.last().push(s.last()));
            assert(forall|i: int| 0 <= i < p.len() - 1 ==> #[trigger] q[i] == p[i]);
            assert(q.last() == p.last().push(s.last()));
            assert(forall|j: int|
                0 <= j < p.last().len() ==> #[trigger] p.last().push(s.last())[j] == p.last()[j]);
        }
    }
}

/// The trim-and-drop step yields well-formed pieces from delimiter-free,
/// quote-free pieces.
pub proof fn lemma_trim_drop_empty_wf(ps: Seq<Seq<char>>)
    requires
        forall|i: int|
            0 <= i < ps.len() ==> crate::text::no_char(#[trigger] ps[i], ',') && crate::text::no_char(
                ps[i],
                '"',
            ),
    ensures
        wf_list(trim_drop_empty(ps)),
    decreases ps.len(),
{
    if ps.len() > 0 {
        assert(forall|i: int|
            0 <= i < ps.drop_last().len() ==> #[trigger] ps.drop_last()[i] == ps[i]);
        lemma_trim_drop_empty_wf(ps.drop_last());
        let r = trim_drop_empty(ps.drop_last());
        let t = spec_trim(ps.last());
        if t.len() > 0 {
            crate::text::lemma_trim_idempotent(ps.last());
            crate::text::lemma_trim_no_char(ps.last(), ',');
            crate::text::lemma_trim_no_char(ps.last(), '"');
            assert(wf_list_piece(t));
            assert(forall|i: int| 0 <= i < r.len() ==> #[trigger] r.push(t)[i] == r[i]);
            assert(r.push(t).last() == t);
        }
    }
}

/// Law: the multi-value list read from any quote-free token is made of
/// well-formed elements, so joining it for storage and splitting it
/// again loses nothing.
pub proof fn lemma_split_list_wf(v: Seq<char>)
    requires
        crate::text::no_char(v, '"'),
    ensures
        wf_list(spec_split_list(v)),
{
    let t = spec_trim(v);
    crate::text::lemma_trim_no_char(v, '"');
    let u = spec_unquote(t);
    assert(crate::text::no_char(u, '"')) by {
        if t.len() >= 2 && t[0] == '"' && t.last() == '"' {
            assert(forall|i: int|
                0 <= i < t.subrange(1, t.len() - 1).len() ==> #[trigger] t.subrange(
                    1,
                    t.len() - 1,
                )[i] == t[i + 1]);
        }
    }
    lemma_split_commas_pieces(u);
    lemma_trim_drop_empty_wf(split_commas(u));
}

/// Law: a stored decimal number reads back to itself through the
/// noisy-integer rule.
pub proof fn lemma_uint_roundtrip(v: int)
    requires
        0 <= v < 1000000000,
    ensures
        spec_uint_opt(crate::text::spec_dec_str(v)) == Some(v),
{
    assert(pow10(9) == 1000000000) by {
        reveal_with_fuel(pow10, 11);
    }
    crate::text::lemma_dec_str_roundtrip(v);
    crate::text::lemma_digits_of_all_digits(crate::text::spec_dec_str(v));
}

/// Joins list elements with commas for storage.
pub fn join_commas(items: &Vec<String>) -> (r: String)
    ensures
        r@ == spec_join(views_of_strings(items@)),
{
    let n: usize = items.len();
    let mut cur: Vec<char> = Vec::new();
    let mut i: usize = 0;
    while i < n
        invariant
            i <= n == items@.len(),
            cur@ == spec_join(views_of_strings(items@).take(i as int)),
        decreases n - i,
    {
        proof {
            assert(views_of_strings(items@).take(i + 1 as int).drop_last() =~= views_of_strings(
                items@,
            ).take(i as int));
            assert(views_of_strings(items@).take(i + 1 as int).last() == items@[i as int]@);
        }
        if i > 0 {
            cur.push(',');
        }
        let piece = to_chars(items[i].as_str());
        push_all(&mut cur, &piece);
        proof {
            let taken = views_of_strings(items@).take(i + 1 as int);
            if i == 0 {
                assert(taken.len() == 1);
                assert(taken[0] == items@[0]@);
                assert(cur@ =~= spec_join(taken));
            } else {
                assert(cur@ =~= spec_join(taken.drop_last()) + seq![','] + taken.last());
            }
        }
        i = i + 1;
    }
    proof {
        assert(views_of_strings(items@).take(n as int) =~= views_of_strings(items@));
    }
    chars_to_string(&cur)
}

} // verus!
