//! The Intel vendor family: its record shape, column layout, record
//! builder, and the encode/decode rules of its store rows.
//!
//! Authoritative column mapping (16 columns): 0 product, 1 status,
//! 2 release date, 3 code name, 4 cores, 5 threads, 6 lithography,
//! 7 max turbo frequency, 8 base frequency, 9 thermal design power,
//! 10 cache, 11 cache info, 12 max memory size, 13 memory types,
//! 14 max memory speed, 15 graphics. Missing trailing fields are padded
//! with the "N/A" sentinel; frequency attributes are stored in MHz.

use vstd::prelude::*;
use vstd::string::{StrSliceExecFns, StringExecFns};
use crate::cpu::{opt_uint_string, pad_fields, spec_opt_uint_str, spec_opt_verbatim, spec_pad, LineError};
use crate::dialect::{split_csv_chars, split_fields, views_of, views_of_strings};
use crate::normalize::{
    join_commas, opt_text, parse_freq_mhz, parse_uint_noisy, req_text, spec_freq_mhz_opt,
    spec_opt_text, spec_split_list, spec_uint_opt, view_opt_string,
};
use crate::text::{chars_eq_str, chars_to_string, contains_sub, spec_trim, to_chars, trim_chars};
use crate::cpu::amd::strings_of_list;
use crate::cpu::{EnumCPUData, eCPUDetails};
use crate::dialect::{spec_lines, split_lines_chars};
use crate::normalize::{lemma_freq_opt_small, lemma_uint_opt_small};
use crate::store::{
    ensure_intel_schema, err_text, exec_upsert, intel_insert_text, intel_table, query_row_like,
    row_match, rows_views, start_rows, table_present, table_rows, tx_begin, tx_commit,
    tx_rollback, upsert_all, StoreError,
};

verus! {

/// One Intel processor record; absent numbers stay absent, lists default
/// to empty, text to its trimmed source.
#[derive(Debug)]
pub struct IntelData {
    pub name: String,
    pub status: ProductStatus,
    pub release_date: String,
    pub code_name: String,
    pub cores: Option<usize>,
    pub threads: Option<usize>,
    pub lithography: Option<usize>,
    pub max_turbo_freq: Option<usize>,
    pub base_freq: Option<usize>,
    pub thermal_design_power: Option<usize>,
    pub cache: Option<usize>,
    pub cache_info: String,
    pub max_memory_size: Option<usize>,
    pub memory_types: Vec<String>,
    pub max_memory_speed: Option<usize>,
    pub graphics: Option<String>,
}

/// The product lifecycle state; unknown vocabulary reads as announced.
#[derive(Debug, Clone, Copy, PartialEq, Eq, Structural)]
pub enum ProductStatus {
    Launched,
    Discontinued,
    Announced,
}

/// The stored name of a product status.
pub open spec fn spec_status_name(s: ProductStatus) -> Seq<char> {
    match s {
        ProductStatus::Launched => "Launched"@,
        ProductStatus::Discontinued => "Discontinued"@,
        ProductStatus::Announced => "Announced"@,
    }
}

/// Reads a status token: its own name decides, anything else is
/// announced.
pub open spec fn spec_status_parse(t: Seq<char>) -> ProductStatus {
    if t == "Launched"@ {
        ProductStatus::Launched
    } else if t == "Discontinued"@ {
        ProductStatus::Discontinued
    } else {
        ProductStatus::Announced
    }
}

pub fn parse_status(v: &Vec<char>) -> (r: ProductStatus)
    ensures
        r == spec_status_parse(v@),
{
    if chars_eq_str(v, "Launched") {
        ProductStatus::Launched
    } else if chars_eq_str(v, "Discontinued") {
        ProductStatus::Discontinued
    } else {
        ProductStatus::Announced
    }
}

pub fn status_name(s: ProductStatus) -> (r: &'static str)
    ensures
        r@ == spec_status_name(s),
{
    match s {
        ProductStatus::Launched => "Launched",
        ProductStatus::Discontinued => "Discontinued",
        ProductStatus::Announced => "Announced",
    }
}

/// The queryable columns of the Intel table.
#[allow(non_camel_case_types)]
pub enum eIntelData {
    Name,
    Status,
    ReleaseDate,
    CodeName,
    Cores,
    Threads,
    Lithography,
    MaxTurboFrequency,
    BaseFrequency,
    ThermalDesignPower,
    Cache,
    CacheInfo,
    MaxMemorySize,
    MemoryTypes,
    MaxMemorySpeed,
    Graphics,
}

/// The store-row index of each queryable column.
pub open spec fn intel_col_index(c: eIntelData) -> int {
    match c {
        eIntelData::Name => 0,
        eIntelData::Status => 1,
        eIntelData::ReleaseDate => 2,
        eIntelData::CodeName => 3,
        eIntelData::Cores => 4,
        eIntelData::Threads => 5,
        eIntelData::Lithography => 6,
        eIntelData::MaxTurboFrequency => 7,
        eIntelData::BaseFrequency => 8,
        eIntelData::ThermalDesignPower => 9,
        eIntelData::Cache => 10,
        eIntelData::CacheInfo => 11,
        eIntelData::MaxMemorySize => 12,
        eIntelData::MemoryTypes => 13,
        eIntelData::MaxMemorySpeed => 14,
        eIntelData::Graphics => 15,
    }
}

/// The column name of each store-row index.
pub open spec fn intel_column_name(i: int) -> Seq<char> {
    if i == 0 {
        "product"@
    } else if i == 1 {
        "status"@
    } else if i == 2 {
        "release_date"@
    } else if i == 3 {
        "code_name"@
    } else if i == 4 {
        "cores"@
    } else if i == 5 {
        "threads"@
    } else if i == 6 {
        "lithography"@
    } else if i == 7 {
        "max_turbo_freq"@
    } else if i == 8 {
        "base_freq"@
    } else if i == 9 {
        "thermal_design_power"@
    } else if i == 10 {
        "cache"@
    } else if i == 11 {
        "cache_info"@
    } else if i == 12 {
        "max_memory_size"@
    } else if i == 13 {
        "memory_types"@
    } else if i == 14 {
        "max_memory_speed"@
    } else if i == 15 {
        "graphics"@
    } else {
        Seq::empty()
    }
}

impl eIntelData {
    /// The stored column name this selector queries.
    pub fn to_string(&self) -> (r: &'static str)
        ensures
            r@ == intel_column_name(intel_col_index(*self)),
    {
        match self {
            eIntelData::Name => "product",
            eIntelData::Status => "status",
            eIntelData::ReleaseDate => "release_date",
            eIntelData::CodeName => "code_name",
            eIntelData::Cores => "cores",
            eIntelData::Threads => "threads",
            eIntelData::Lithography => "lithography",
            eIntelData::MaxTurboFrequency => "max_turbo_freq",
            eIntelData::BaseFrequency => "base_freq",
            eIntelData::ThermalDesignPower => "thermal_design_power",
            eIntelData::Cache => "cache",
            eIntelData::CacheInfo => "cache_info",
            eIntelData::MaxMemorySize => "max_memory_size",
            eIntelData::MemoryTypes => "memory_types",
            eIntelData::MaxMemorySpeed => "max_memory_speed",
            eIntelData::Graphics => "graphics",
        }
    }

    /// The store-row index this selector queries.
    pub fn index(&self) -> (r: usize)
        ensures
            r as int == intel_col_index(*self),
            r < 16,
    {
        match self {
            eIntelData::Name => 0,
            eIntelData::Status => 1,
            eIntelData::ReleaseDate => 2,
            eIntelData::CodeName => 3,
            eIntelData::Cores => 4,
            eIntelData::Threads => 5,
            eIntelData::Lithography => 6,
            eIntelData::MaxTurboFrequency => 7,
            eIntelData::BaseFrequency => 8,
            eIntelData::ThermalDesignPower => 9,
            eIntelData::Cache => 10,
            eIntelData::CacheInfo => 11,
            eIntelData::MaxMemorySize => 12,
            eIntelData::MemoryTypes => 13,
            eIntelData::MaxMemorySpeed => 14,
            eIntelData::Graphics => 15,
        }
    }
}

/// The mathematical shape of one Intel record.
#[verifier::ext_equal]
pub ghost struct IntelModel {
    pub name: Seq<char>,
    pub status: ProductStatus,
    pub release_date: Seq<char>,
    pub code_name: Seq<char>,
    pub cores: Option<int>,
    pub threads: Option<int>,
    pub lithography: Option<int>,
    pub max_turbo_mhz: Option<int>,
    pub base_mhz: Option<int>,
    pub tdp: Option<int>,
    pub cache: Option<int>,
    pub cache_info: Seq<char>,
    pub max_memory_size: Option<int>,
    pub memory_types: Seq<Seq<char>>,
    pub max_memory_speed: Option<int>,
    pub graphics: Option<Seq<char>>,
}

/// The view of an executable optional number.
pub open spec fn view_opt_usize(o: Option<usize>) -> Option<int> {
    match o {
        Some(v) => Some(v as int),
        None => None,
    }
}

/// The model of an executable Intel record.
pub open spec fn intel_view(r: IntelData) -> IntelModel {
    IntelModel {
        name: r.name@,
        status: r.status,
        release_date: r.release_date@,
        code_name: r.code_name@,
        cores: view_opt_usize(r.cores),
        threads: view_opt_usize(r.threads),
        lithography: view_opt_usize(r.lithography),
        max_turbo_mhz: view_opt_usize(r.max_turbo_freq),
        base_mhz: view_opt_usize(r.base_freq),
        tdp: view_opt_usize(r.thermal_design_power),
        cache: view_opt_usize(r.cache),
        cache_info: r.cache_info@,
        max_memory_size: view_opt_usize(r.max_memory_size),
        memory_types: views_of_strings(r.memory_types@),
        max_memory_speed: view_opt_usize(r.max_memory_speed),
        graphics: view_opt_string(r.graphics),
    }
}

/// The record built from a token vector already padded to 16 fields with
/// the "N/A" sentinel.
pub open spec fn spec_build_intel(fs: Seq<Seq<char>>) -> IntelModel {
    IntelModel {
        name: spec_trim(fs[0]),
        status: spec_status_parse(spec_trim(fs[1])),
        release_date: spec_trim(fs[2]),
        code_name: spec_trim(fs[3]),
        cores: spec_uint_opt(fs[4]),
        threads: spec_uint_opt(fs[5]),
        lithography: spec_uint_opt(fs[6]),
        max_turbo_mhz: spec_freq_mhz_opt(fs[7]),
        base_mhz: spec_freq_mhz_opt(fs[8]),
        tdp: spec_uint_opt(fs[9]),
        cache: spec_uint_opt(fs[10]),
        cache_info: spec_trim(fs[11]),
        max_memory_size: spec_uint_opt(fs[12]),
        memory_types: if spec_trim(fs[13]) == "N/A"@ {
            Seq::empty()
        } else {
            spec_split_list(fs[13])
        },
        max_memory_speed: spec_freq_mhz_opt(fs[14]),
        graphics: if spec_trim(fs[15]) == "N/A"@ {
            None
        } else {
            spec_opt_text(fs[15])
        },
    }
}

impl IntelData {
    /// Record builder: pads the line's tokens to 16 fields with the
    /// "N/A" sentinel and normalizes each into its attribute. Total but
    /// for a blank line, which is reported for skipping.
    pub fn parse_csv_line(line: &str) -> (r: Result<IntelData, LineError>)
        ensures
            r is Err <==> spec_trim(line@).len() == 0,
            r matches Ok(d) ==> intel_view(d) == spec_build_intel(
                spec_pad(split_fields(line@), 16, "N/A"@),
            ),
    {
        let chars = to_chars(line);
        let t = trim_chars(&chars);
        if t.len() == 0 {
            return Err(LineError);
        }
        let fs = split_csv_chars(&chars);
        let sentinel = to_chars("N/A");
        let p = pad_fields(&fs, 16, &sentinel);
        let ghost ps = spec_pad(split_fields(line@), 16, "N/A"@);
        proof {
            assert(views_of(p@) =~= ps);
        }
        let d = IntelData {
            name: req_text(&p[0]),
            status: parse_status(&trim_chars(&p[1])),
            release_date: req_text(&p[2]),
            code_name: req_text(&p[3]),
            cores: parse_uint_noisy(&p[4]),
            threads: parse_uint_noisy(&p[5]),
            lithography: parse_uint_noisy(&p[6]),
            max_turbo_freq: parse_freq_mhz(&p[7]),
            base_freq: parse_freq_mhz(&p[8]),
            thermal_design_power: parse_uint_noisy(&p[9]),
            cache: parse_uint_noisy(&p[10]),
            cache_info: req_text(&p[11]),
            max_memory_size: parse_uint_noisy(&p[12]),
            memory_types: {
                let t13 = trim_chars(&p[13]);
                if chars_eq_str(&t13, "N/A") {
                    Vec::new()
                } else {
                    strings_of_list(&p[13])
                }
            },
            max_memory_speed: parse_freq_mhz(&p[14]),
            graphics: {
                let t15 = trim_chars(&p[15]);
                if chars_eq_str(&t15, "N/A") {
                    None
                } else {
                    opt_text(&p[15])
                }
            },
        };
        proof {
            assert(views_of_strings(Seq::<String>::empty()) =~= Seq::<Seq<char>>::empty());
        }
        Ok(d)
    }
}

/// The stored row of one Intel record: 16 text cells in source-column
/// order; absent numbers become empty cells, lists are comma-joined.
pub open spec fn spec_encode_intel(m: IntelModel) -> Seq<Seq<char>> {
    seq![
        m.name,
        spec_status_name(m.status),
        m.release_date,
        m.code_name,
        spec_opt_uint_str(m.cores),
        spec_opt_uint_str(m.threads),
        spec_opt_uint_str(m.lithography),
        spec_opt_uint_str(m.max_turbo_mhz),
        spec_opt_uint_str(m.base_mhz),
        spec_opt_uint_str(m.tdp),
        spec_opt_uint_str(m.cache),
        m.cache_info,
        spec_opt_uint_str(m.max_memory_size),
        crate::normalize::spec_join(m.memory_types),
        spec_opt_uint_str(m.max_memory_speed),
        match m.graphics {
            Some(s) => s,
            None => Seq::empty(),
        },
    ]
}

/// The record decoded from a stored row.
pub open spec fn spec_decode_intel(cs: Seq<Seq<char>>) -> IntelModel {
    IntelModel {
        name: cs[0],
        status: spec_status_parse(cs[1]),
        release_date: cs[2],
        code_name: cs[3],
        cores: spec_uint_opt(cs[4]),
        threads: spec_uint_opt(cs[5]),
        lithography: spec_uint_opt(cs[6]),
        max_turbo_mhz: spec_uint_opt(cs[7]),
        base_mhz: spec_uint_opt(cs[8]),
        tdp: spec_uint_opt(cs[9]),
        cache: spec_uint_opt(cs[10]),
        cache_info: cs[11],
        max_memory_size: spec_uint_opt(cs[12]),
        memory_types: spec_split_list(cs[13]),
        max_memory_speed: spec_uint_opt(cs[14]),
        graphics: spec_opt_verbatim(cs[15]),
    }
}

/// The record's numbers fit the store's nine-digit decimal cells.
pub open spec fn intel_nums_small(m: IntelModel) -> bool {
    &&& (m.cores is Some ==> 0 <= m.cores->0 < 1000000000)
    &&& (m.threads is Some ==> 0 <= m.threads->0 < 1000000000)
    &&& (m.lithography is Some ==> 0 <= m.lithography->0 < 1000000000)
    &&& (m.max_turbo_mhz is Some ==> 0 <= m.max_turbo_mhz->0 < 1000000000)
    &&& (m.base_mhz is Some ==> 0 <= m.base_mhz->0 < 1000000000)
    &&& (m.tdp is Some ==> 0 <= m.tdp->0 < 1000000000)
    &&& (m.cache is Some ==> 0 <= m.cache->0 < 1000000000)
    &&& (m.max_memory_size is Some ==> 0 <= m.max_memory_size->0 < 1000000000)
    &&& (m.max_memory_speed is Some ==> 0 <= m.max_memory_speed->0 < 1000000000)
}

impl IntelData {
    /// Encodes this record as its stored row.
    pub fn encode_row(&self) -> (r: Vec<String>)
        requires
            intel_nums_small(intel_view(*self)),
        ensures
            views_of_strings(r@) == spec_encode_intel(intel_view(*self)),
            r@.len() == 16,
    {
        let mut row: Vec<String> = Vec::new();
        row.push(self.name.clone());
        row.push(String::from_str(status_name(self.status)));
        row.push(self.release_date.clone());
        row.push(self.code_name.clone());
        row.push(opt_uint_string(self.cores));
        row.push(opt_uint_string(self.threads));
        row.push(opt_uint_string(self.lithography));
        row.push(opt_uint_string(self.max_turbo_freq));
        row.push(opt_uint_string(self.base_freq));
        row.push(opt_uint_string(self.thermal_design_power));
        row.push(opt_uint_string(self.cache));
        row.push(self.cache_info.clone());
        row.push(opt_uint_string(self.max_memory_size));
        row.push(join_commas(&self.memory_types));
        row.push(opt_uint_string(self.max_memory_speed));
        row.push(crate::cpu::opt_text_string(&self.graphics));
        proof {
            assert(views_of_strings(row@) =~= spec_encode_intel(intel_view(*self)));
        }
        row
    }

    /// Decodes a stored row back into a record.
    pub fn decode_row(cells: &Vec<String>) -> (r: IntelData)
        requires
            cells@.len() == 16,
        ensures
            intel_view(r) == spec_decode_intel(views_of_strings(cells@)),
    {
        IntelData {
            name: cells[0].clone(),
            status: parse_status(&to_chars(cells[1].as_str())),
            release_date: cells[2].clone(),
            code_name: cells[3].clone(),
            cores: parse_uint_noisy(&to_chars(cells[4].as_str())),
            threads: parse_uint_noisy(&to_chars(cells[5].as_str())),
            lithography: parse_uint_noisy(&to_chars(cells[6].as_str())),
            max_turbo_freq: parse_uint_noisy(&to_chars(cells[7].as_str())),
            base_freq: parse_uint_noisy(&to_chars(cells[8].as_str())),
            thermal_design_power: parse_uint_noisy(&to_chars(cells[9].as_str())),
            cache: parse_uint_noisy(&to_chars(cells[10].as_str())),
            cache_info: cells[11].clone(),
            max_memory_size: parse_uint_noisy(&to_chars(cells[12].as_str())),
            memory_types: strings_of_list(&to_chars(cells[13].as_str())),
            max_memory_speed: parse_uint_noisy(&to_chars(cells[14].as_str())),
            graphics: {
                let c = cells[15].clone();
                if c.as_str().unicode_len() == 0 {
                    None
                } else {
                    Some(c)
                }
            },
        }
    }
}

/// The numbers a builder produces fit the store's nine-digit decimal
/// cells.
pub proof fn lemma_build_intel_small(fs: Seq<Seq<char>>)
    ensures
        intel_nums_small(spec_build_intel(fs)),
{
    lemma_uint_opt_small(fs[4]);
    lemma_uint_opt_small(fs[5]);
    lemma_uint_opt_small(fs[6]);
    lemma_freq_opt_small(fs[7]);
    lemma_freq_opt_small(fs[8]);
    lemma_uint_opt_small(fs[9]);
    lemma_uint_opt_small(fs[10]);
    lemma_uint_opt_small(fs[12]);
    lemma_freq_opt_small(fs[14]);
}

/// The stored row of one raw line.
pub open spec fn intel_row_of_line(l: Seq<char>) -> Seq<Seq<char>> {
    spec_encode_intel(spec_build_intel(spec_pad(split_fields(l), 16, "N/A"@)))
}

/// The stored rows of a run of lines, blank lines skipped.
pub open spec fn intel_rows_of_lines(ls: Seq<Seq<char>>) -> Seq<Seq<Seq<char>>>
    decreases ls.len(),
{
    if ls.len() == 0 {
        Seq::empty()
    } else {
        intel_rows_of_lines(ls.drop_last()) + if spec_trim(ls.last()).len() > 0 {
            seq![intel_row_of_line(ls.last())]
        } else {
            Seq::empty()
        }
    }
}

/// The stored rows of one source file: the header line is discarded.
pub open spec fn intel_rows_of_content(c: Seq<char>) -> Seq<Seq<Seq<char>>> {
    intel_rows_of_lines(spec_lines(c).skip(1))
}

/// The stored rows of a run of source files, in order.
pub open spec fn intel_rows_of(contents: Seq<Seq<char>>) -> Seq<Seq<Seq<char>>>
    decreases contents.len(),
{
    if contents.len() == 0 {
        Seq::empty()
    } else {
        intel_rows_of(contents.drop_last()) + intel_rows_of_content(contents.last())
    }
}

/// Builds the stored rows of one source file's content.
fn intel_content_rows(content: &str) -> (r: Vec<Vec<String>>)
    ensures
        rows_views(r@) == intel_rows_of_content(content@),
        forall|t: int| 0 <= t < r@.len() ==> (#[trigger] r@[t]@).len() == 16,
{
    let chars = to_chars(content);
    let lines = split_lines_chars(&chars);
    let ghost ls = spec_lines(content@).skip(1);
    proof {
        assert(views_of(lines@).skip(1) =~= ls);
    }
    let n: usize = lines.len();
    let mut rows: Vec<Vec<String>> = Vec::new();
    let mut i: usize = 1;
    while i < n
        invariant
            1 <= i <= n == lines@.len(),
            ls == spec_lines(content@).skip(1),
            ls.len() == n - 1,
            forall|t: int| 0 <= t < ls.len() ==> ls[t] == #[trigger] lines@[t + 1]@,
            rows_views(rows@) =~= intel_rows_of_lines(ls.take(i - 1)),
            forall|t: int| 0 <= t < rows@.len() ==> (#[trigger] rows@[t]@).len() == 16,
        decreases n - i,
    {
        proof {
            assert(ls.take(i as int).drop_last() =~= ls.take(i - 1));
            assert(ls.take(i as int).last() == lines@[i as int]@);
        }
        let s = chars_to_string(&lines[i]);
        match IntelData::parse_csv_line(s.as_str()) {
            Ok(d) => {
                proof {
                    lemma_build_intel_small(spec_pad(split_fields(s@), 16, "N/A"@));
                }
                let ghost old_rows = rows@;
                let row = d.encode_row();
                rows.push(row);
                proof {
                    assert(rows_views(rows@) =~= rows_views(old_rows).push(
                        intel_row_of_line(lines@[i as int]@),
                    ));
                    assert(rows_views(old_rows).push(intel_row_of_line(lines@[i as int]@))
                        =~= rows_views(old_rows) + seq![intel_row_of_line(lines@[i as int]@)]);
                }
            },
            Err(_) => {
                proof {
                    assert(intel_rows_of_lines(ls.take(i as int)) =~= intel_rows_of_lines(
                        ls.take(i - 1),
                    ));
                }
            },
        }
        i = i + 1;
    }
    proof {
        assert(ls.take(n - 1) =~= ls);
    }
    rows
}

impl IntelData {
    /// Ensures the Intel table exists; idempotent, never drops data.
    pub fn ensure_schema(conn: &mut rusqlite::Connection) -> (r: Result<(), StoreError>)
        ensures
            r is Ok ==> table_present(*final(conn), intel_table()),
            r is Ok ==> table_rows(*final(conn), intel_table()) == start_rows(
                *old(conn),
                intel_table(),
            ),
    {
        ensure_intel_schema(conn)
    }

    /// Ingests the given source-file contents: each file's header line
    /// is discarded, each remaining non-blank line becomes one record
    /// upserted under its unique name, all inside one transaction. A
    /// failing row aborts and rolls back the whole run.
    pub fn ingest(conn: &mut rusqlite::Connection, contents: &Vec<String>) -> (r: Result<
        (),
        StoreError,
    >)
        ensures
            r is Ok ==> table_present(*final(conn), intel_table()),
            r is Ok ==> table_rows(*final(conn), intel_table()) == upsert_all(
                start_rows(*old(conn), intel_table()),
                intel_rows_of(views_of_strings(contents@)),
            ),
            r is Ok ==> forall|t: Seq<char>|
                t != intel_table() ==> table_rows(*final(conn), t) == table_rows(*old(conn), t),
    {
        let nc: usize = contents.len();
        let mut rows: Vec<Vec<String>> = Vec::new();
        let mut j: usize = 0;
        while j < nc
            invariant
                j <= nc == contents@.len(),
                rows_views(rows@) =~= intel_rows_of(views_of_strings(contents@).take(j as int)),
                forall|t: int| 0 <= t < rows@.len() ==> (#[trigger] rows@[t]@).len() == 16,
            decreases nc - j,
        {
            proof {
                assert(views_of_strings(contents@).take(j + 1 as int).drop_last()
                    =~= views_of_strings(contents@).take(j as int));
                assert(views_of_strings(contents@).take(j + 1 as int).last()
                    == contents@[j as int]@);
            }
            let ghost old_rows = rows@;
            let mut more = intel_content_rows(contents[j].as_str());
            let ghost more_v = more@;
            rows.append(&mut more);
            proof {
                assert(rows_views(rows@) =~= rows_views(old_rows) + rows_views(more_v));
            }
            j = j + 1;
        }
        proof {
            assert(views_of_strings(contents@).take(nc as int) =~= views_of_strings(contents@));
        }
        match ensure_intel_schema(conn) {
            Ok(()) => {},
            Err(e) => {
                return Err(e);
            },
        }
        match tx_begin(conn) {
            Ok(()) => {},
            Err(e) => {
                return Err(StoreError::Exec(err_text(&e)));
            },
        }
        let ghost base = *conn;
        let nr: usize = rows.len();
        let mut k: usize = 0;
        while k < nr
            invariant
                k <= nr == rows@.len(),
                forall|t: int| 0 <= t < rows@.len() ==> (#[trigger] rows@[t]@).len() == 16,
                table_rows(*conn, intel_table()) == upsert_all(
                    table_rows(base, intel_table()),
                    rows_views(rows@).take(k as int),
                ),
                forall|t: Seq<char>|
                    t != intel_table() ==> table_rows(*conn, t) == table_rows(base, t),
                forall|t: Seq<char>| table_present(*conn, t) == table_present(base, t),
                table_present(base, intel_table()),
                table_rows(base, intel_table()) == start_rows(*old(conn), intel_table()),
                forall|t: Seq<char>|
                    t != intel_table() ==> table_rows(base, t) == table_rows(*old(conn), t),
            decreases nr - k,
        {
            proof {
                assert(rows_views(rows@).take(k + 1 as int).drop_last() =~= rows_views(
                    rows@,
                ).take(k as int));
                assert(rows_views(rows@).take(k + 1 as int).last() == views_of_strings(
                    rows@[k as int]@,
                ));
            }
            match exec_upsert(conn, intel_insert_text(), "intel_cpus", &rows[k]) {
                Ok(()) => {},
                Err(e) => {
                    let _ = tx_rollback(conn);
                    return Err(StoreError::Exec(err_text(&e)));
                },
            }
            k = k + 1;
        }
        proof {
            assert(rows_views(rows@).take(nr as int) =~= rows_views(rows@));
        }
        match tx_commit(conn) {
            Ok(()) => Ok(()),
            Err(e) => {
                let _ = tx_rollback(conn);
                Err(StoreError::Exec(err_text(&e)))
            },
        }
    }
}

/// Law: a stored product status reads back to itself — unknown
/// vocabulary never arises from a stored name.
pub proof fn lemma_status_roundtrip(s: ProductStatus)
    ensures
        spec_status_parse(spec_status_name(s)) == s,
{
    reveal_strlit("Launched");
    reveal_strlit("Discontinued");
    reveal_strlit("Announced");
    assert("Launched"@.len() == 8);
    assert("Discontinued"@.len() == 12);
    assert("Announced"@.len() == 9);
}

/// A record the store can round-trip: its numbers fit the decimal
/// cells, its list elements are store-shaped, and its optional graphics
/// text is not the empty placeholder.
pub open spec fn wf_intel(m: IntelModel) -> bool {
    &&& intel_nums_small(m)
    &&& crate::normalize::wf_list(m.memory_types)
    &&& (m.graphics matches Some(s) ==> s.len() > 0)
}

/// Law (round trip): an Intel record written to its stored row and read
/// back through the store's decode rule yields the same logical values
/// — the documented text serialization of numbers, statuses and lists
/// loses no information on well-formed records. The row is keyed on the
/// record's name, its first cell.
#[verifier::rlimit(100)]
pub proof fn lemma_intel_roundtrip(m: IntelModel)
    requires
        wf_intel(m),
    ensures
        spec_decode_intel(spec_encode_intel(m)) == m,
        spec_encode_intel(m)[0] == m.name,
        spec_encode_intel(m).len() == 16,
{
    let cs = spec_encode_intel(m);
    lemma_status_roundtrip(m.status);
    crate::normalize::lemma_split_join(m.memory_types);
    lemma_opt_uint_roundtrip(m.cores);
    lemma_opt_uint_roundtrip(m.threads);
    lemma_opt_uint_roundtrip(m.lithography);
    lemma_opt_uint_roundtrip(m.max_turbo_mhz);
    lemma_opt_uint_roundtrip(m.base_mhz);
    lemma_opt_uint_roundtrip(m.tdp);
    lemma_opt_uint_roundtrip(m.cache);
    lemma_opt_uint_roundtrip(m.max_memory_size);
    lemma_opt_uint_roundtrip(m.max_memory_speed);
    assert(spec_decode_intel(cs) =~= m);
}

/// Law: a stored optional number reads back to itself; the empty cell
/// stays absent.
pub proof fn lemma_opt_uint_roundtrip(o: Option<int>)
    requires
        o matches Some(v) ==> 0 <= v < 1000000000,
    ensures
        spec_uint_opt(spec_opt_uint_str(o)) == o,
{
    match o {
        Some(v) => {
            crate::normalize::lemma_uint_roundtrip(v);
        },
        None => {
            assert(crate::text::spec_digits(Seq::<char>::empty()) =~= Seq::<char>::empty());
        },
    }
}

/// Every record the builder reads from a raw line is well formed: its
/// numbers fit the store's cells, and its list elements — built from
/// quote-free tokens — survive the comma-join serialization.
pub proof fn lemma_build_intel_wf(l: Seq<char>)
    ensures
        wf_intel(spec_build_intel(spec_pad(split_fields(l), 16, "N/A"@))),
{
    let fs = spec_pad(split_fields(l), 16, "N/A"@);
    crate::dialect::lemma_split_fields_no_quote(l);
    lemma_build_intel_small(fs);
    assert(crate::text::no_char(fs[13], '"')) by {
        reveal_strlit("N/A");
        assert("N/A"@ =~= seq!['N', '/', 'A']);
    }
    if spec_trim(fs[13]) == "N/A"@ {
        assert(crate::normalize::wf_list(Seq::<Seq<char>>::empty()));
    } else {
        crate::normalize::lemma_split_list_wf(fs[13]);
    }
}

/// Law: the stored row of any raw line decodes back to exactly the
/// record the builder read from it — ingestion followed by lookup is
/// the identity on every line of a source file.
pub proof fn lemma_intel_line_roundtrip(l: Seq<char>)
    ensures
        spec_decode_intel(intel_row_of_line(l)) == spec_build_intel(
            spec_pad(split_fields(l), 16, "N/A"@),
        ),
{
    lemma_build_intel_wf(l);
    lemma_intel_roundtrip(spec_build_intel(spec_pad(split_fields(l), 16, "N/A"@)));
}

/// Law (ingest then lookup): writing a well-formed Intel record into
/// the store model and reading its row back under the record's unique
/// name yields the same logical values.
pub proof fn lemma_intel_store_roundtrip(m0: Map<Seq<char>, Seq<Seq<char>>>, md: IntelModel)
    requires
        wf_intel(md),
    ensures
        upsert_all(m0, seq![spec_encode_intel(md)]).contains_key(md.name),
        spec_decode_intel(upsert_all(m0, seq![spec_encode_intel(md)])[md.name]) == md,
{
    lemma_intel_roundtrip(md);
    let rows = seq![spec_encode_intel(md)];
    assert(rows.drop_last() =~= Seq::<Seq<Seq<char>>>::empty());
    assert(upsert_all(m0, rows.drop_last()) == m0);
    assert(rows.last() == spec_encode_intel(md));
}

/// A fetched record decodes from some stored row of the Intel table,
/// read cell for cell up to the empty placeholder.
pub open spec fn intel_fetch_ok(c: rusqlite::Connection, d: IntelData) -> bool {
    exists|cs: Seq<Seq<char>>|
        #[trigger] row_match(c, intel_table(), cs) && cs.len() == 16 && intel_view(d)
            == spec_decode_intel(cs)
}

impl IntelData {
    /// Looks up the first stored Intel record whose selected column
    /// contains the keyword. Absence of a match is an explicit `None`,
    /// never an error; an AMD selector is a query mismatch, a contract
    /// violation this function rejects by its `requires`.
    pub fn fetch(conn: &rusqlite::Connection, keyword: &str, column: EnumCPUData) -> (r: Result<
        Option<eCPUDetails>,
        StoreError,
    >)
        requires
            column matches EnumCPUData::Intel(_),
        ensures
            r matches Ok(Some(d)) ==> d matches eCPUDetails::Intel(a) && intel_fetch_ok(*conn, a),
            r matches Ok(None) ==> forall|k: Seq<char>|
                #[trigger] table_rows(*conn, intel_table()).contains_key(k) ==> !contains_sub(
                    table_rows(*conn, intel_table())[k][intel_col_index(column->Intel_0)],
                    keyword@,
                ),
    {
        let ic = match column {
            EnumCPUData::Intel(c) => c,
            EnumCPUData::AMD(_) => vstd::pervasive::unreached(),
        };
        let colname = ic.to_string();
        let idx = ic.index();
        match query_row_like(conn, "intel_cpus", colname, idx, 16, keyword) {
            Err(e) => Err(StoreError::Query(err_text(&e))),
            Ok(None) => Ok(None),
            Ok(Some(cells)) => {
                let d = IntelData::decode_row(&cells);
                proof {
                    assert(row_match(*conn, intel_table(), views_of_strings(cells@)));
                    assert(intel_fetch_ok(*conn, d));
                }
                Ok(Some(eCPUDetails::Intel(d)))
            },
        }
    }
}

} // verus!
