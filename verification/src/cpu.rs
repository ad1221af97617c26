//! CPU specification records: the two vendor families, their column
//! selectors, and the shared record-builder plumbing.

pub mod amd;
pub mod intel;

use vstd::prelude::*;
use vstd::string::StringExecFns;
use crate::dialect::views_of;
use crate::text::subrange_chars;

verus! {

/// A column selector for one of the two vendor families; the vendor
/// discriminant is explicit and supplied by the caller, never inferred
/// from data.
pub enum EnumCPUData {
    Intel(intel::eIntelData),
    AMD(amd::eAMDData),
}

/// The result shape of a lookup: one of the two vendor records, or
/// nothing recognizable.
#[allow(non_camel_case_types)]
#[derive(Debug)]
pub enum eCPUDetails {
    Intel(intel::IntelData),
    AMD(amd::AMDData),
    Else,
}

/// A raw line that cannot be split into any fields (it is blank) and is
/// skipped with a diagnostic rather than ingested.
#[derive(Debug, PartialEq, Eq, Structural, Clone, Copy)]
pub struct LineError;

/// A token vector padded or truncated to the vendor's expected column
/// count, with the sentinel filling missing trailing fields.
pub open spec fn spec_pad(fs: Seq<Seq<char>>, n: int, sentinel: Seq<char>) -> Seq<Seq<char>> {
    Seq::new(n as nat, |i: int| if i < fs.len() { fs[i] } else { sentinel })
}

/// Pads or truncates `fs` to exactly `n` fields.
pub fn pad_fields(fs: &Vec<Vec<char>>, n: usize, sentinel: &Vec<char>) -> (r: Vec<Vec<char>>)
    ensures
        views_of(r@) == spec_pad(views_of(fs@), n as int, sentinel@),
        r@.len() == n,
{
    let mut r: Vec<Vec<char>> = Vec::new();
    let mut i: usize = 0;
    while i < n
        invariant
            i <= n,
            views_of(r@) =~= spec_pad(views_of(fs@), n as int, sentinel@).take(i as int),
            r@.len() == i,
        decreases n - i,
    {
        let ghost old_r = r@;
        let elem: Vec<char> = if i < fs.len() {
            subrange_chars(&fs[i], 0, fs[i].len())
        } else {
            subrange_chars(sentinel, 0, sentinel.len())
        };
        proof {
            if (i as int) < fs@.len() {
                assert(elem@ =~= fs@[i as int]@);
            } else {
                assert(elem@ =~= sentinel@);
            }
        }
        r.push(elem);
        proof {
            assert(views_of(r@) =~= views_of(old_r).push(r@[i as int]@));
            assert(spec_pad(views_of(fs@), n as int, sentinel@).take(i + 1 as int)
                =~= spec_pad(views_of(fs@), n as int, sentinel@).take(i as int).push(
                spec_pad(views_of(fs@), n as int, sentinel@)[i as int],
            ));
        }
        i = i + 1;
    }
    proof {
        assert(spec_pad(views_of(fs@), n as int, sentinel@).take(n as int) =~= spec_pad(
            views_of(fs@),
            n as int,
            sentinel@,
        ));
    }
    r
}

/// A required numeric attribute defaults to zero when absent.
pub open spec fn or_zero(o: Option<int>) -> int {
    match o {
        Some(v) => v,
        None => 0,
    }
}

/// An optional stored value: the empty cell is absent, anything else is
/// kept verbatim.
pub open spec fn spec_opt_verbatim(s: Seq<char>) -> Option<Seq<char>> {
    if s.len() == 0 {
        None
    } else {
        Some(s)
    }
}

/// The stored text of a tri-state boolean: "true", "false", or the "N/A"
/// absence marker.
pub open spec fn spec_bool_str(b: Option<bool>) -> Seq<char> {
    match b {
        Some(true) => "true"@,
        Some(false) => "false"@,
        None => "N/A"@,
    }
}

/// The decode rule for a stored tri-state boolean.
pub open spec fn spec_parse_bool_str(s: Seq<char>) -> Option<bool> {
    if s == "true"@ {
        Some(true)
    } else if s == "false"@ {
        Some(false)
    } else {
        None
    }
}

/// Encodes a tri-state boolean for storage.
pub fn bool_string(b: Option<bool>) -> (r: String)
    ensures
        r@ == spec_bool_str(b),
{
    match b {
        Some(true) => String::from_str("true"),
        Some(false) => String::from_str("false"),
        None => String::from_str("N/A"),
    }
}

/// Law: a stored tri-state boolean reads back to itself — "true" and
/// "false" decide, the absence marker stays unknown.
pub proof fn lemma_bool_roundtrip(b: Option<bool>)
    ensures
        spec_parse_bool_str(spec_bool_str(b)) == b,
{
    reveal_strlit("true");
    reveal_strlit("false");
    reveal_strlit("N/A");
    assert("true"@.len() == 4);
    assert("false"@.len() == 5);
    assert("N/A"@.len() == 3);
}

/// Decodes a stored tri-state boolean.
pub fn parse_bool_string(v: &Vec<char>) -> (r: Option<bool>)
    ensures
        r == spec_parse_bool_str(v@),
{
    if crate::text::chars_eq_str(v, "true") {
        Some(true)
    } else if crate::text::chars_eq_str(v, "false") {
        Some(false)
    } else {
        None
    }
}

/// The stored text of an optional number: empty when absent, decimal
/// otherwise.
pub open spec fn spec_opt_uint_str(o: Option<int>) -> Seq<char> {
    match o {
        Some(v) => crate::text::spec_dec_str(v),
        None => Seq::empty(),
    }
}

/// Encodes an optional number for storage.
pub fn opt_uint_string(o: Option<usize>) -> (r: String)
    requires
        o is Some ==> o->0 < 1000000000,
    ensures
        r@ == spec_opt_uint_str(
            match o {
                Some(v) => Some(v as int),
                None => None,
            },
        ),
{
    match o {
        Some(v) => crate::text::chars_to_string(&crate::text::dec_chars(v)),
        None => String::new(),
    }
}

/// The one query surface other subsystems call: resolves the vendor from
/// the explicit selector supplied by the caller — never inferred from
/// data — and fetches the first stored record whose selected column
/// contains the keyword. Zero matches come back as an explicit `None`,
/// never as an error.
pub fn fetch(conn: &rusqlite::Connection, keyword: &str, column: EnumCPUData) -> (r: Result<
    Option<eCPUDetails>,
    crate::store::StoreError,
>)
    ensures
        r matches Ok(Some(d)) ==> (column matches EnumCPUData::AMD(_)
            ==> d matches eCPUDetails::AMD(a) && amd::amd_fetch_ok(*conn, a)),
        r matches Ok(Some(d)) ==> (column matches EnumCPUData::Intel(_)
            ==> d matches eCPUDetails::Intel(a) && intel::intel_fetch_ok(*conn, a)),
        r matches Ok(None) ==> (column matches EnumCPUData::AMD(c) ==> forall|k: Seq<char>|
            #[trigger] crate::store::table_rows(*conn, crate::store::amd_table()).contains_key(k)
                ==> !crate::text::contains_sub(
                crate::store::table_rows(*conn, crate::store::amd_table())[k][amd::amd_col_index(
                    c,
                )],
                keyword@,
            )),
        r matches Ok(None) ==> (column matches EnumCPUData::Intel(c) ==> forall|k: Seq<char>|
            #[trigger] crate::store::table_rows(*conn, crate::store::intel_table()).contains_key(k)
                ==> !crate::text::contains_sub(
                crate::store::table_rows(
                    *conn,
                    crate::store::intel_table(),
                )[k][intel::intel_col_index(c)],
                keyword@,
            )),
{
    match column {
        EnumCPUData::AMD(c) => amd::AMDData::fetch(conn, keyword, EnumCPUData::AMD(c)),
        EnumCPUData::Intel(c) => intel::IntelData::fetch(conn, keyword, EnumCPUData::Intel(c)),
    }
}

/// Encodes an optional text attribute for storage: absent becomes the
/// empty cell.
pub fn opt_text_string(o: &Option<String>) -> (r: String)
    ensures
        r@ == match o {
            Some(s) => s@,
            None => Seq::<char>::empty(),
        },
{
    match o {
        Some(s) => s.clone(),
        None => String::new(),
    }
}

} // verus!
