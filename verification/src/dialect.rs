//! Dialect parser: splits one raw line into ordered field tokens.
//!
//! A double quote toggles the "inside a quoted field" flag and is not kept;
//! a comma ends the current field only while outside quotes; every other
//! character is appended to the current field. The final field is emitted at
//! end of line even if it is empty, and an unterminated quoted field is
//! emitted as-is.

use vstd::prelude::*;
use crate::text::{to_chars, chars_to_string};

verus! {

/// The state of the scan after reading `s`: the fields already terminated,
/// the field being built, and whether the scan stands inside quotes.
pub open spec fn scan(s: Seq<char>) -> (Seq<Seq<char>>, Seq<char>, bool)
    decreases s.len(),
{
    if s.len() == 0 {
        (Seq::empty(), Seq::empty(), false)
    } else {
        let st = scan(s.drop_last());
        let c = s.last();
        if c == '"' {
            (st.0, st.1, !st.2)
        } else if c == ',' && !st.2 {
            (st.0.push(st.1), Seq::empty(), st.2)
        } else {
            (st.0, st.1.push(c), st.2)
        }
    }
}

/// The fields of one raw line, in order.
pub open spec fn split_fields(s: Seq<char>) -> Seq<Seq<char>> {
    scan(s).0.push(scan(s).1)
}

/// The number of delimiters that stand outside quoted regions.
pub open spec fn unquoted_commas(s: Seq<char>) -> int
    decreases s.len(),
{
    if s.len() == 0 {
        0
    } else {
        unquoted_commas(s.drop_last()) + if s.last() == ',' && !scan(s.drop_last()).2 {
            1int
        } else {
            0int
        }
    }
}

/// Law: the field count of a raw line equals the number of delimiters
/// outside quoted regions plus one; delimiters inside quotes never raise
/// the count. This holds for every line, balanced quotes or not.
pub proof fn lemma_field_count(s: Seq<char>)
    ensures
        split_fields(s).len() == unquoted_commas(s) + 1,
        unquoted_commas(s) >= 0,
    decreases s.len(),
{
    if s.len() > 0 {
        lemma_field_count(s.drop_last());
    }
}

/// No field token ever holds a quote character: the scan consumes the
/// quotes as it toggles its flag.
pub proof fn lemma_scan_no_quote(s: Seq<char>)
    ensures
        forall|i: int|
            0 <= i < scan(s).0.len() ==> crate::text::no_char(#[trigger] scan(s).0[i], '"'),
        crate::text::no_char(scan(s).1, '"'),
    decreases s.len(),
{
    if s.len() > 0 {
        lemma_scan_no_quote(s.drop_last());
        let st = scan(s.drop_last());
        let c = s.last();
        if c == '"' {
        } else if c == ',' && !st.2 {
            assert(forall|i: int|
                0 <= i < st.0.len() ==> #[trigger] st.0.push(st.1)[i] == st.0[i]);
            assert(st.0.push(st.1).last() == st.1);
        } else {
            assert(forall|j: int|
                0 <= j < st.1.len() ==> #[trigger] st.1.push(c)[j] == st.1[j]);
        }
    }
}

/// No field of a split line holds a quote character.
pub proof fn lemma_split_fields_no_quote(s: Seq<char>)
    ensures
        forall|i: int|
            0 <= i < split_fields(s).len() ==> crate::text::no_char(
                #[trigger] split_fields(s)[i],
                '"',
            ),
{
    lemma_scan_no_quote(s);
    let st = scan(s);
    assert(forall|i: int| 0 <= i < st.0.len() ==> #[trigger] st.0.push(st.1)[i] == st.0[i]);
    assert(st.0.push(st.1).last() == st.1);
}

/// The views of a vector of character vectors.
pub open spec fn views_of(v: Seq<Vec<char>>) -> Seq<Seq<char>> {
    Seq::new(v.len(), |i: int| v[i]@)
}

/// The views of a vector of strings.
pub open spec fn views_of_strings(v: Seq<String>) -> Seq<Seq<char>> {
    Seq::new(v.len(), |i: int| v[i]@)
}

/// Splits one raw line into field tokens, honoring quoted segments.
pub fn split_csv_chars(line: &Vec<char>) -> (r: Vec<Vec<char>>)
    ensures
        views_of(r@) == split_fields(line@),
        r@.len() >= 1,
{
    let n: usize = line.len();
    let mut fields: Vec<Vec<char>> = Vec::new();
    let mut cur: Vec<char> = Vec::new();
    let mut inq: bool = false;
    let mut i: usize = 0;
    while i < n
        invariant
            i <= n == line@.len(),
            views_of(fields@) == scan(line@.take(i as int)).0,
            cur@ == scan(line@.take(i as int)).1,
            inq == scan(line@.take(i as int)).2,
        decreases n - i,
    {
        let c = line[i];
        proof {
            assert(line@.take(i + 1 as int).drop_last() =~= line@.take(i as int));
            assert(line@.take(i + 1 as int).last() == line@[i as int]);
        }
        if c == '"' {
            inq = !inq;
        } else if c == ',' && !inq {
            let ghost old_fields = fields@;
            let ghost old_cur = cur@;
            fields.push(cur);
            cur = Vec::new();
            proof {
                assert(views_of(fields@) =~= views_of(old_fields).push(old_cur));
            }
        } else {
            cur.push(c);
        }
        i = i + 1;
    }
    proof {
        assert(line@.take(n as int) =~= line@);
    }
    let ghost old_fields = fields@;
    let ghost old_cur = cur@;
    fields.push(cur);
    proof {
        assert(views_of(fields@) =~= views_of(old_fields).push(old_cur));
    }
    fields
}

/// Splits one raw line into field strings; total, and always yields at least
/// one field.
pub fn split_csv_line(line: &str) -> (r: Vec<String>)
    ensures
        views_of_strings(r@) == split_fields(line@),
        r@.len() >= 1,
{
    let chars = to_chars(line);
    let fields = split_csv_chars(&chars);
    let mut r: Vec<String> = Vec::new();
    let n: usize = fields.len();
    let mut i: usize = 0;
    while i < n
        invariant
            i <= n == fields@.len(),
            views_of(fields@) == split_fields(line@),
            views_of_strings(r@) =~= views_of(fields@).take(i as int),
        decreases n - i,
    {
        let ghost old_r = r@;
        let s = chars_to_string(&fields[i]);
        r.push(s);
        proof {
            assert(views_of_strings(r@) =~= views_of_strings(old_r).push(fields@[i as int]@));
            assert(views_of(fields@).take(i + 1 as int) =~= views_of(fields@).take(
                i as int,
            ).push(fields@[i as int]@));
        }
        i = i + 1;
    }
    proof {
        assert(views_of(fields@).take(n as int) =~= views_of(fields@));
        assert(views_of_strings(r@) =~= split_fields(line@));
    }
    r
}

/// A line with one trailing carriage return removed.
pub open spec fn strip_cr(l: Seq<char>) -> Seq<char> {
    if l.len() > 0 && l.last() == '\r' {
        l.drop_last()
    } else {
        l
    }
}

/// The state of the line scan after reading `s`: finished lines and the
/// raw line being built.
pub open spec fn lines_scan(s: Seq<char>) -> (Seq<Seq<char>>, Seq<char>)
    decreases s.len(),
{
    if s.len() == 0 {
        (Seq::empty(), Seq::empty())
    } else {
        let st = lines_scan(s.drop_last());
        if s.last() == '\n' {
            (st.0.push(strip_cr(st.1)), Seq::empty())
        } else {
            (st.0, st.1.push(s.last()))
        }
    }
}

/// The lines of a source file: split on line feeds, one trailing
/// carriage return per line removed. The final piece is kept even when
/// empty; blank lines are skipped later as structurally empty.
pub open spec fn spec_lines(s: Seq<char>) -> Seq<Seq<char>> {
    lines_scan(s).0.push(strip_cr(lines_scan(s).1))
}

/// Splits file content into its lines.
pub fn split_lines_chars(content: &Vec<char>) -> (r: Vec<Vec<char>>)
    ensures
        views_of(r@) == spec_lines(content@),
        r@.len() >= 1,
{
    let n: usize = content.len();
    let mut done: Vec<Vec<char>> = Vec::new();
    let mut cur: Vec<char> = Vec::new();
    let mut i: usize = 0;
    while i < n
        invariant
            i <= n == content@.len(),
            views_of(done@) == lines_scan(content@.take(i as int)).0,
            cur@ == lines_scan(content@.take(i as int)).1,
        decreases n - i,
    {
        let c = content[i];
        proof {
            assert(content@.take(i + 1 as int).drop_last() =~= content@.take(i as int));
            assert(content@.take(i + 1 as int).last() == content@[i as int]);
        }
        if c == '\n' {
            let ghost old_done = done@;
            let ghost old_cur = cur@;
            if cur.len() > 0 && cur[cur.len() - 1] == '\r' {
                cur.pop();
            }
            proof {
                assert(cur@ == strip_cr(old_cur));
            }
            done.push(cur);
            cur = Vec::new();
            proof {
                assert(views_of(done@) =~= views_of(old_done).push(strip_cr(old_cur)));
            }
        } else {
            cur.push(c);
        }
        i = i + 1;
    }
    proof {
        assert(content@.take(n as int) =~= content@);
    }
    let ghost old_done = done@;
    let ghost old_cur = cur@;
    if cur.len() > 0 && cur[cur.len() - 1] == '\r' {
        cur.pop();
    }
    proof {
        assert(cur@ == strip_cr(old_cur));
    }
    done.push(cur);
    proof {
        assert(views_of(done@) =~= views_of(old_done).push(strip_cr(old_cur)));
    }
    done
}

} // verus!
