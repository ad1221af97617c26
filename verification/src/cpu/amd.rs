//! The AMD vendor family: its record shape, column layout, record builder,
//! and the encode/decode rules of its store rows.
//!
//! Authoritative column mapping (one source column per index, 34 in all):
//! 0 name, 1 family, 2 series, 3 form factors, 4 cores, 5 threads,
//! 6 max boost clock, 7 base clock, 8 L1 cache, 9 L2 cache, 10 L3 cache,
//! 11 default TDP, 12 configurable TDP, 13 processor technology,
//! 14 overclocking enabled, 15 socket, 16 PIB, 17 recommended cooler,
//! 18 MPK, 19 max operating temperature, 20 launch date, 21 OS support,
//! 22 PCI Express version, 23 system memory type, 24 memory channels,
//! 25 system memory specification, 26 graphics model, 27 graphics cores,
//! 28 graphics frequency, 29 Ryzen AI, 30-32 product ids (boxed, tray,
//! MPK), 33 supported technologies. Clock attributes are stored in MHz.

use vstd::prelude::*;
use vstd::string::{StrSliceExecFns, StringExecFns};
use crate::cpu::{
    bool_string, opt_text_string, or_zero, pad_fields, parse_bool_string, spec_bool_str,
    spec_opt_verbatim, spec_pad, spec_parse_bool_str, LineError,
};
use crate::dialect::{split_csv_chars, split_fields, views_of, views_of_strings};
use crate::normalize::{
    join_commas, opt_text, parse_freq_mhz, parse_uint_noisy, req_text, spec_freq_mhz_opt,
    spec_opt_text, spec_split_list, spec_uint_opt, split_list_chars, parse_available,
    parse_yes_no, spec_available, spec_yes_no, view_opt_string,
};
use crate::text::{
    chars_eq_str, chars_to_string, contains_sub, dec_chars, spec_dec_str, spec_trim, to_chars,
    trim_chars,
};
use crate::cpu::{EnumCPUData, eCPUDetails};
use crate::dialect::{spec_lines, split_lines_chars};
use crate::normalize::{lemma_freq_opt_small, lemma_uint_opt_small};
use crate::store::{
    amd_insert_text, amd_table, ensure_amd_schema, err_text, exec_upsert, query_row_like,
    row_match, rows_views, start_rows, table_present, table_rows, tx_begin, tx_commit,
    tx_rollback, upsert_all, StoreError,
};

verus! {

/// One AMD processor record; scalar text defaults to a placeholder,
/// numbers default to zero, tri-states to unknown, lists to empty.
#[allow(non_snake_case)]
#[derive(Debug)]
pub struct AMDData {
    pub name: String,
    pub family: String,
    pub series: String,
    pub formFactor: Vec<FormFactor>,
    pub cores: usize,
    pub threads: usize,
    pub boost_clock_mhz: usize,
    pub base_clock_mhz: usize,
    pub L1Cache: String,
    pub L2Cache: String,
    pub L3Cache: String,
    pub DefaultTDP: String,
    pub AMDConfigurableTDP: String,
    pub lithography: String,
    pub overclocking_enabled: Option<bool>,
    pub cpu_socket: String,
    pub PIB: String,
    pub MPK: String,
    pub recommended_cooler: Option<String>,
    pub operating_temperature_max: usize,
    pub launch_date: String,
    pub os_support: Vec<String>,
    pub PCI_Express_version: String,
    pub system_memory_type: String,
    pub memory_channels: usize,
    pub system_memory_specification: String,
    pub graphics: Graphics,
    pub AMD_RyzenAIEnabled: Option<bool>,
    pub product_id: ProductID,
    pub supported_technologies: Vec<String>,
}

/// The product identifiers of one processor; absent when the source cell
/// is blank.
#[derive(Debug)]
pub struct ProductID {
    pub boxed: Option<String>,
    pub tray: Option<String>,
    pub mpk: Option<String>,
}

impl ProductID {
    /// Builds the identifiers from raw cells: blank after trimming is
    /// absent, anything else is kept trimmed.
    pub fn new(boxed: &str, tray: &str, mpk: &str) -> (r: Self)
        ensures
            view_opt_string(r.boxed) == spec_opt_text(boxed@),
            view_opt_string(r.tray) == spec_opt_text(tray@),
            view_opt_string(r.mpk) == spec_opt_text(mpk@),
    {
        ProductID {
            boxed: opt_text(&to_chars(boxed)),
            tray: opt_text(&to_chars(tray)),
            mpk: opt_text(&to_chars(mpk)),
        }
    }
}

/// The integrated-graphics sub-entity: model, core count, frequency in
/// MHz.
#[derive(Debug)]
pub struct Graphics {
    pub model: String,
    pub cores: usize,
    pub frequency: usize,
}

impl Graphics {
    /// Builds the sub-entity from raw cells: the model is kept trimmed,
    /// the counts fall back to zero when unparsable.
    pub fn new(model: &str, cores: &str, frequency: &str) -> (r: Self)
        ensures
            r.model@ == spec_trim(model@),
            r.cores as int == or_zero(spec_uint_opt(cores@)),
            r.frequency as int == or_zero(spec_freq_mhz_opt(frequency@)),
    {
        Graphics {
            model: req_text(&to_chars(model)),
            cores: parse_uint_noisy(&to_chars(cores)).unwrap_or(0),
            frequency: parse_freq_mhz(&to_chars(frequency)).unwrap_or(0),
        }
    }
}

/// The form factors a processor ships in.
#[derive(Debug, Clone, Copy, PartialEq, Eq, Structural)]
pub enum FormFactor {
    Laptops,
    Desktops,
    BoxedProcessor,
    TinyDesktops,
    MobileWorkstations,
    Handheld,
}

/// The source vocabulary of one form factor; also its stored name.
pub open spec fn spec_ff_name(f: FormFactor) -> Seq<char> {
    match f {
        FormFactor::Laptops => "Laptops"@,
        FormFactor::Desktops => "Desktops"@,
        FormFactor::BoxedProcessor => "Boxed Processor"@,
        FormFactor::TinyDesktops => "1L Desktops"@,
        FormFactor::MobileWorkstations => "Mobile Workstations"@,
        FormFactor::Handheld => "Handheld"@,
    }
}

/// Reads one form-factor token; unknown vocabulary yields nothing.
pub open spec fn spec_ff_parse(p: Seq<char>) -> Option<FormFactor> {
    let t = spec_trim(p);
    if t == "Laptops"@ {
        Some(FormFactor::Laptops)
    } else if t == "Desktops"@ {
        Some(FormFactor::Desktops)
    } else if t == "Boxed Processor"@ {
        Some(FormFactor::BoxedProcessor)
    } else if t == "1L Desktops"@ || t == "1L Desktop"@ {
        Some(FormFactor::TinyDesktops)
    } else if t == "Mobile Workstations"@ {
        Some(FormFactor::MobileWorkstations)
    } else if t == "Handheld"@ {
        Some(FormFactor::Handheld)
    } else {
        None
    }
}

impl FormFactor {
    /// Reads one form-factor token.
    pub fn parse(s: &str) -> (r: Option<FormFactor>)
        ensures
            r == spec_ff_parse(s@),
    {
        parse_ff_chars(&to_chars(s))
    }

    /// The stored name of this form factor.
    pub fn name(&self) -> (r: &'static str)
        ensures
            r@ == spec_ff_name(*self),
    {
        match self {
            FormFactor::Laptops => "Laptops",
            FormFactor::Desktops => "Desktops",
            FormFactor::BoxedProcessor => "Boxed Processor",
            FormFactor::TinyDesktops => "1L Desktops",
            FormFactor::MobileWorkstations => "Mobile Workstations",
            FormFactor::Handheld => "Handheld",
        }
    }
}

fn parse_ff_chars(v: &Vec<char>) -> (r: Option<FormFactor>)
    ensures
        r == spec_ff_parse(v@),
{
    let t = trim_chars(v);
    if chars_eq_str(&t, "Laptops") {
        Some(FormFactor::Laptops)
    } else if chars_eq_str(&t, "Desktops") {
        Some(FormFactor::Desktops)
    } else if chars_eq_str(&t, "Boxed Processor") {
        Some(FormFactor::BoxedProcessor)
    } else if chars_eq_str(&t, "1L Desktops") || chars_eq_str(&t, "1L Desktop") {
        Some(FormFactor::TinyDesktops)
    } else if chars_eq_str(&t, "Mobile Workstations") {
        Some(FormFactor::MobileWorkstations)
    } else if chars_eq_str(&t, "Handheld") {
        Some(FormFactor::Handheld)
    } else {
        None
    }
}

/// The known form factors among `ps`, in order; unknown vocabulary is
/// dropped.
pub open spec fn spec_ff_list(ps: Seq<Seq<char>>) -> Seq<FormFactor>
    decreases ps.len(),
{
    if ps.len() == 0 {
        Seq::empty()
    } else {
        let r = spec_ff_list(ps.drop_last());
        match spec_ff_parse(ps.last()) {
            Some(f) => r.push(f),
            None => r,
        }
    }
}

/// The form factors named by one raw token.
pub open spec fn spec_form_factors(s: Seq<char>) -> Seq<FormFactor> {
    spec_ff_list(spec_split_list(s))
}

/// Reads a comma-joined form-factor token, dropping unknown vocabulary.
pub fn parse_form_factors(s: &str) -> (r: Vec<FormFactor>)
    ensures
        r@ == spec_form_factors(s@),
{
    let chars = to_chars(s);
    let pieces = split_list_chars(&chars);
    let n: usize = pieces.len();
    let mut r: Vec<FormFactor> = Vec::new();
    let mut i: usize = 0;
    while i < n
        invariant
            i <= n == pieces@.len(),
            views_of(pieces@) == spec_split_list(s@),
            r@ =~= spec_ff_list(views_of(pieces@).take(i as int)),
        decreases n - i,
    {
        proof {
            assert(views_of(pieces@).take(i + 1 as int).drop_last() =~= views_of(pieces@).take(
                i as int,
            ));
            assert(views_of(pieces@).take(i + 1 as int).last() == pieces@[i as int]@);
        }
        match parse_ff_chars(&pieces[i]) {
            Some(f) => {
                r.push(f);
            },
            None => {},
        }
        i = i + 1;
    }
    proof {
        assert(views_of(pieces@).take(n as int) =~= views_of(pieces@));
    }
    r
}

/// The queryable columns of the AMD table.
#[allow(non_camel_case_types)]
pub enum eAMDData {
    Name,
    Family,
    Series,
    FormFactor,
    Cores,
    Threads,
    MaxBoostClock,
    BaseClock,
    L2Cache,
    L3Cache,
    TDP,
    L1Cache,
    ConfigurableTDP,
    ProcessorTechnology,
    Socket,
    LaunchDate,
    GraphicsModel,
}

/// The store-row index of each queryable column.
pub open spec fn amd_col_index(c: eAMDData) -> int {
    match c {
        eAMDData::Name => 0,
        eAMDData::Family => 1,
        eAMDData::Series => 2,
        eAMDData::FormFactor => 3,
        eAMDData::Cores => 4,
        eAMDData::Threads => 5,
        eAMDData::MaxBoostClock => 6,
        eAMDData::BaseClock => 7,
        eAMDData::L1Cache => 8,
        eAMDData::L2Cache => 9,
        eAMDData::L3Cache => 10,
        eAMDData::TDP => 11,
        eAMDData::ConfigurableTDP => 12,
        eAMDData::ProcessorTechnology => 13,
        eAMDData::Socket => 15,
        eAMDData::LaunchDate => 20,
        eAMDData::GraphicsModel => 26,
    }
}

/// The column name of each queryable store-row index.
pub open spec fn amd_column_name(i: int) -> Seq<char> {
    if i == 0 {
        "name"@
    } else if i == 1 {
        "family"@
    } else if i == 2 {
        "series"@
    } else if i == 3 {
        "form_factor"@
    } else if i == 4 {
        "cores"@
    } else if i == 5 {
        "threads"@
    } else if i == 6 {
        "max_boost_clock"@
    } else if i == 7 {
        "base_clock"@
    } else if i == 8 {
        "l1_cache"@
    } else if i == 9 {
        "l2_cache"@
    } else if i == 10 {
        "l3_cache"@
    } else if i == 11 {
        "tdp"@
    } else if i == 12 {
        "configurable_tdp"@
    } else if i == 13 {
        "processor_technology"@
    } else if i == 15 {
        "socket"@
    } else if i == 20 {
        "launch_date"@
    } else if i == 26 {
        "graphics_model"@
    } else {
        Seq::empty()
    }
}

impl eAMDData {
    /// The stored column name this selector queries.
    pub fn to_string(&self) -> (r: &'static str)
        ensures
            r@ == amd_column_name(amd_col_index(*self)),
    {
        match self {
            eAMDData::Name => "name",
            eAMDData::Family => "family",
            eAMDData::Series => "series",
            eAMDData::FormFactor => "form_factor",
            eAMDData::Cores => "cores",
            eAMDData::Threads => "threads",
            eAMDData::MaxBoostClock => "max_boost_clock",
            eAMDData::BaseClock => "base_clock",
            eAMDData::L2Cache => "l2_cache",
            eAMDData::L3Cache => "l3_cache",
            eAMDData::TDP => "tdp",
            eAMDData::L1Cache => "l1_cache",
            eAMDData::ConfigurableTDP => "configurable_tdp",
            eAMDData::ProcessorTechnology => "processor_technology",
            eAMDData::Socket => "socket",
            eAMDData::LaunchDate => "launch_date",
            eAMDData::GraphicsModel => "graphics_model",
        }
    }

    /// The store-row index this selector queries.
    pub fn index(&self) -> (r: usize)
        ensures
            r as int == amd_col_index(*self),
            r < 34,
    {
        match self {
            eAMDData::Name => 0,
            eAMDData::Family => 1,
            eAMDData::Series => 2,
            eAMDData::FormFactor => 3,
            eAMDData::Cores => 4,
            eAMDData::Threads => 5,
            eAMDData::MaxBoostClock => 6,
            eAMDData::BaseClock => 7,
            eAMDData::L2Cache => 9,
            eAMDData::L3Cache => 10,
            eAMDData::TDP => 11,
            eAMDData::L1Cache => 8,
            eAMDData::ConfigurableTDP => 12,
            eAMDData::ProcessorTechnology => 13,
            eAMDData::Socket => 15,
            eAMDData::LaunchDate => 20,
            eAMDData::GraphicsModel => 26,
        }
    }
}

/// The mathematical shape of one AMD record: text as character sequences,
/// numbers as integers, clocks in MHz.
#[verifier::ext_equal]
pub ghost struct AMDModel {
    pub name: Seq<char>,
    pub family: Seq<char>,
    pub series: Seq<char>,
    pub form_factor: Seq<FormFactor>,
    pub cores: int,
    pub threads: int,
    pub boost_mhz: int,
    pub base_mhz: int,
    pub l1_cache: Seq<char>,
    pub l2_cache: Seq<char>,
    pub l3_cache: Seq<char>,
    pub tdp: Seq<char>,
    pub configurable_tdp: Seq<char>,
    pub lithography: Seq<char>,
    pub overclocking: Option<bool>,
    pub socket: Seq<char>,
    pub pib: Seq<char>,
    pub mpk: Seq<char>,
    pub cooler: Option<Seq<char>>,
    pub temp_max: int,
    pub launch_date: Seq<char>,
    pub os_support: Seq<Seq<char>>,
    pub pcie: Seq<char>,
    pub mem_type: Seq<char>,
    pub mem_channels: int,
    pub mem_spec: Seq<char>,
    pub gfx_model: Seq<char>,
    pub gfx_cores: int,
    pub gfx_mhz: int,
    pub ryzen_ai: Option<bool>,
    pub pid_boxed: Option<Seq<char>>,
    pub pid_tray: Option<Seq<char>>,
    pub pid_mpk: Option<Seq<char>>,
    pub techs: Seq<Seq<char>>,
}

/// The model of an executable AMD record.
pub open spec fn amd_view(r: AMDData) -> AMDModel {
    AMDModel {
        name: r.name@,
        family: r.family@,
        series: r.series@,
        form_factor: r.formFactor@,
        cores: r.cores as int,
        threads: r.threads as int,
        boost_mhz: r.boost_clock_mhz as int,
        base_mhz: r.base_clock_mhz as int,
        l1_cache: r.L1Cache@,
        l2_cache: r.L2Cache@,
        l3_cache: r.L3Cache@,
        tdp: r.DefaultTDP@,
        configurable_tdp: r.AMDConfigurableTDP@,
        lithography: r.lithography@,
        overclocking: r.overclocking_enabled,
        socket: r.cpu_socket@,
        pib: r.PIB@,
        mpk: r.MPK@,
        cooler: view_opt_string(r.recommended_cooler),
        temp_max: r.operating_temperature_max as int,
        launch_date: r.launch_date@,
        os_support: views_of_strings(r.os_support@),
        pcie: r.PCI_Express_version@,
        mem_type: r.system_memory_type@,
        mem_channels: r.memory_channels as int,
        mem_spec: r.system_memory_specification@,
        gfx_model: r.graphics.model@,
        gfx_cores: r.graphics.cores as int,
        gfx_mhz: r.graphics.frequency as int,
        ryzen_ai: r.AMD_RyzenAIEnabled,
        pid_boxed: view_opt_string(r.product_id.boxed),
        pid_tray: view_opt_string(r.product_id.tray),
        pid_mpk: view_opt_string(r.product_id.mpk),
        techs: views_of_strings(r.supported_technologies@),
    }
}

/// The record built from a token vector already padded to 34 fields.
pub open spec fn spec_build_amd(fs: Seq<Seq<char>>) -> AMDModel {
    AMDModel {
        name: spec_trim(fs[0]),
        family: spec_trim(fs[1]),
        series: spec_trim(fs[2]),
        form_factor: spec_ff_list(spec_split_list(fs[3])),
        cores: or_zero(spec_uint_opt(fs[4])),
        threads: or_zero(spec_uint_opt(fs[5])),
        boost_mhz: or_zero(spec_freq_mhz_opt(fs[6])),
        base_mhz: or_zero(spec_freq_mhz_opt(fs[7])),
        l1_cache: spec_trim(fs[8]),
        l2_cache: spec_trim(fs[9]),
        l3_cache: spec_trim(fs[10]),
        tdp: spec_trim(fs[11]),
        configurable_tdp: spec_trim(fs[12]),
        lithography: spec_trim(fs[13]),
        overclocking: spec_yes_no(fs[14]),
        socket: spec_trim(fs[15]),
        pib: spec_trim(fs[16]),
        mpk: spec_trim(fs[18]),
        cooler: spec_opt_text(fs[17]),
        temp_max: or_zero(spec_uint_opt(fs[19])),
        launch_date: spec_trim(fs[20]),
        os_support: spec_split_list(fs[21]),
        pcie: spec_trim(fs[22]),
        mem_type: spec_trim(fs[23]),
        mem_channels: or_zero(spec_uint_opt(fs[24])),
        mem_spec: spec_trim(fs[25]),
        gfx_model: spec_trim(fs[26]),
        gfx_cores: or_zero(spec_uint_opt(fs[27])),
        gfx_mhz: or_zero(spec_freq_mhz_opt(fs[28])),
        ryzen_ai: spec_available(fs[29]),
        pid_boxed: spec_opt_text(fs[30]),
        pid_tray: spec_opt_text(fs[31]),
        pid_mpk: spec_opt_text(fs[32]),
        techs: spec_split_list(fs[33]),
    }
}

impl AMDData {
    /// Record builder: pads the line's tokens to 34 fields and normalizes
    /// each into its attribute. Total but for a blank line, which cannot
    /// be split into any fields and is reported for skipping.
    pub fn parse_csv_line(line: &str) -> (r: Result<AMDData, LineError>)
        ensures
            r is Err <==> spec_trim(line@).len() == 0,
            r matches Ok(d) ==> amd_view(d) == spec_build_amd(
                spec_pad(split_fields(line@), 34, Seq::empty()),
            ),
    {
        let chars = to_chars(line);
        let t = trim_chars(&chars);
        if t.len() == 0 {
            return Err(LineError);
        }
        let fs = split_csv_chars(&chars);
        let empty_sentinel: Vec<char> = Vec::new();
        let p = pad_fields(&fs, 34, &empty_sentinel);
        let ghost ps = spec_pad(split_fields(line@), 34, Seq::empty());
        proof {
            assert(views_of(p@) =~= ps);
        }
        let d = AMDData {
            name: req_text(&p[0]),
            family: req_text(&p[1]),
            series: req_text(&p[2]),
            formFactor: {
                let pieces = split_list_chars(&p[3]);
                let n: usize = pieces.len();
                let mut ffs: Vec<FormFactor> = Vec::new();
                let mut i: usize = 0;
                while i < n
                    invariant
                        i <= n == pieces@.len(),
                        ffs@ =~= spec_ff_list(views_of(pieces@).take(i as int)),
                    decreases n - i,
                {
                    proof {
                        assert(views_of(pieces@).take(i + 1 as int).drop_last() =~= views_of(
                            pieces@,
                        ).take(i as int));
                        assert(views_of(pieces@).take(i + 1 as int).last() == pieces@[i as int]@);
                    }
                    match parse_ff_chars(&pieces[i]) {
                        Some(f) => {
                            ffs.push(f);
                        },
                        None => {},
                    }
                    i = i + 1;
                }
                proof {
                    assert(views_of(pieces@).take(n as int) =~= views_of(pieces@));
                }
                ffs
            },
            cores: parse_uint_noisy(&p[4]).unwrap_or(0),
            threads: parse_uint_noisy(&p[5]).unwrap_or(0),
            boost_clock_mhz: parse_freq_mhz(&p[6]).unwrap_or(0),
            base_clock_mhz: parse_freq_mhz(&p[7]).unwrap_or(0),
            L1Cache: req_text(&p[8]),
            L2Cache: req_text(&p[9]),
            L3Cache: req_text(&p[10]),
            DefaultTDP: req_text(&p[11]),
            AMDConfigurableTDP: req_text(&p[12]),
            lithography: req_text(&p[13]),
            overclocking_enabled: parse_yes_no(&p[14]),
            cpu_socket: req_text(&p[15]),
            PIB: req_text(&p[16]),
            MPK: req_text(&p[18]),
            recommended_cooler: opt_text(&p[17]),
            operating_temperature_max: parse_uint_noisy(&p[19]).unwrap_or(0),
            launch_date: req_text(&p[20]),
            os_support: strings_of_list(&p[21]),
            PCI_Express_version: req_text(&p[22]),
            system_memory_type: req_text(&p[23]),
            memory_channels: parse_uint_noisy(&p[24]).unwrap_or(0),
            system_memory_specification: req_text(&p[25]),
            graphics: Graphics {
                model: req_text(&p[26]),
                cores: parse_uint_noisy(&p[27]).unwrap_or(0),
                frequency: parse_freq_mhz(&p[28]).unwrap_or(0),
            },
            AMD_RyzenAIEnabled: parse_available(&p[29]),
            product_id: ProductID {
                boxed: opt_text(&p[30]),
                tray: opt_text(&p[31]),
                mpk: opt_text(&p[32]),
            },
            supported_technologies: strings_of_list(&p[33]),
        };
        Ok(d)
    }
}

/// Splits a raw token into its list elements as strings.
pub fn strings_of_list(v: &Vec<char>) -> (r: Vec<String>)
    ensures
        views_of_strings(r@) == spec_split_list(v@),
{
    let pieces = split_list_chars(v);
    let n: usize = pieces.len();
    let mut r: Vec<String> = Vec::new();
    let mut i: usize = 0;
    while i < n
        invariant
            i <= n == pieces@.len(),
            views_of_strings(r@) =~= views_of(pieces@).take(i as int),
        decreases n - i,
    {
        let ghost old_r = r@;
        let s = chars_to_string(&pieces[i]);
        r.push(s);
        proof {
            assert(views_of_strings(r@) =~= views_of_strings(old_r).push(pieces@[i as int]@));
            assert(views_of(pieces@).take(i + 1 as int) =~= views_of(pieces@).take(i as int).push(
                pieces@[i as int]@,
            ));
        }
        i = i + 1;
    }
    proof {
        assert(views_of(pieces@).take(n as int) =~= views_of(pieces@));
        assert(views_of_strings(r@) =~= spec_split_list(v@));
    }
    r
}

/// The names of the form factors, for storage.
pub open spec fn spec_ff_names(fs: Seq<FormFactor>) -> Seq<Seq<char>> {
    fs.map_values(|f: FormFactor| spec_ff_name(f))
}

/// The stored row of one AMD record: 34 text cells in source-column
/// order, numbers in decimal, lists comma-joined, tri-states as
/// "true"/"false"/"N/A", absent options as empty cells.
pub open spec fn spec_encode_amd(m: AMDModel) -> Seq<Seq<char>> {
    seq![
        m.name,
        m.family,
        m.series,
        crate::normalize::spec_join(spec_ff_names(m.form_factor)),
        spec_dec_str(m.cores),
        spec_dec_str(m.threads),
        spec_dec_str(m.boost_mhz),
        spec_dec_str(m.base_mhz),
        m.l1_cache,
        m.l2_cache,
        m.l3_cache,
        m.tdp,
        m.configurable_tdp,
        m.lithography,
        spec_bool_str(m.overclocking),
        m.socket,
        m.pib,
        match m.cooler {
            Some(s) => s,
            None => Seq::empty(),
        },
        m.mpk,
        spec_dec_str(m.temp_max),
        m.launch_date,
        crate::normalize::spec_join(m.os_support),
        m.pcie,
        m.mem_type,
        spec_dec_str(m.mem_channels),
        m.mem_spec,
        m.gfx_model,
        spec_dec_str(m.gfx_cores),
        spec_dec_str(m.gfx_mhz),
        spec_bool_str(m.ryzen_ai),
        match m.pid_boxed {
            Some(s) => s,
            None => Seq::empty(),
        },
        match m.pid_tray {
            Some(s) => s,
            None => Seq::empty(),
        },
        match m.pid_mpk {
            Some(s) => s,
            None => Seq::empty(),
        },
        crate::normalize::spec_join(m.techs),
    ]
}

/// The record decoded from a stored row: text verbatim, numbers by
/// digit extraction, lists split on commas, tri-states by their stored
/// words, empty optional cells absent.
pub open spec fn spec_decode_amd(cs: Seq<Seq<char>>) -> AMDModel {
    AMDModel {
        name: cs[0],
        family: cs[1],
        series: cs[2],
        form_factor: spec_ff_list(spec_split_list(cs[3])),
        cores: or_zero(spec_uint_opt(cs[4])),
        threads: or_zero(spec_uint_opt(cs[5])),
        boost_mhz: or_zero(spec_uint_opt(cs[6])),
        base_mhz: or_zero(spec_uint_opt(cs[7])),
        l1_cache: cs[8],
        l2_cache: cs[9],
        l3_cache: cs[10],
        tdp: cs[11],
        configurable_tdp: cs[12],
        lithography: cs[13],
        overclocking: spec_parse_bool_str(cs[14]),
        socket: cs[15],
        pib: cs[16],
        cooler: spec_opt_verbatim(cs[17]),
        mpk: cs[18],
        temp_max: or_zero(spec_uint_opt(cs[19])),
        launch_date: cs[20],
        os_support: spec_split_list(cs[21]),
        pcie: cs[22],
        mem_type: cs[23],
        mem_channels: or_zero(spec_uint_opt(cs[24])),
        mem_spec: cs[25],
        gfx_model: cs[26],
        gfx_cores: or_zero(spec_uint_opt(cs[27])),
        gfx_mhz: or_zero(spec_uint_opt(cs[28])),
        ryzen_ai: spec_parse_bool_str(cs[29]),
        pid_boxed: spec_opt_verbatim(cs[30]),
        pid_tray: spec_opt_verbatim(cs[31]),
        pid_mpk: spec_opt_verbatim(cs[32]),
        techs: spec_split_list(cs[33]),
    }
}

/// The record's numbers fit the store's nine-digit decimal cells.
pub open spec fn amd_nums_small(m: AMDModel) -> bool {
    &&& 0 <= m.cores < 1000000000
    &&& 0 <= m.threads < 1000000000
    &&& 0 <= m.boost_mhz < 1000000000
    &&& 0 <= m.base_mhz < 1000000000
    &&& 0 <= m.temp_max < 1000000000
    &&& 0 <= m.mem_channels < 1000000000
    &&& 0 <= m.gfx_cores < 1000000000
    &&& 0 <= m.gfx_mhz < 1000000000
}

impl AMDData {
    /// Encodes this record as its stored row.
    pub fn encode_row(&self) -> (r: Vec<String>)
        requires
            amd_nums_small(amd_view(*self)),
        ensures
            views_of_strings(r@) == spec_encode_amd(amd_view(*self)),
            r@.len() == 34,
    {
        let mut row: Vec<String> = Vec::new();
        row.push(self.name.clone());
        row.push(self.family.clone());
        row.push(self.series.clone());
        row.push(
            {
                let n: usize = self.formFactor.len();
                let mut names: Vec<String> = Vec::new();
                let mut i: usize = 0;
                while i < n
                    invariant
                        i <= n == self.formFactor@.len(),
                        views_of_strings(names@) =~= spec_ff_names(self.formFactor@).take(i as int),
                    decreases n - i,
                {
                    let ghost old_names = names@;
                    names.push(String::from_str(self.formFactor[i].name()));
                    proof {
                        assert(views_of_strings(names@) =~= views_of_strings(old_names).push(
                            spec_ff_name(self.formFactor@[i as int]),
                        ));
                        assert(spec_ff_names(self.formFactor@).take(i + 1 as int)
                            =~= spec_ff_names(self.formFactor@).take(i as int).push(
                            spec_ff_name(self.formFactor@[i as int]),
                        ));
                    }
                    i = i + 1;
                }
                proof {
                    assert(spec_ff_names(self.formFactor@).take(n as int) =~= spec_ff_names(
                        self.formFactor@,
                    ));
                }
                join_commas(&names)
            },
        );
        row.push(chars_to_string(&dec_chars(self.cores)));
        row.push(chars_to_string(&dec_chars(self.threads)));
        row.push(chars_to_string(&dec_chars(self.boost_clock_mhz)));
        row.push(chars_to_string(&dec_chars(self.base_clock_mhz)));
        row.push(self.L1Cache.clone());
        row.push(self.L2Cache.clone());
        row.push(self.L3Cache.clone());
        row.push(self.DefaultTDP.clone());
        row.push(self.AMDConfigurableTDP.clone());
        row.push(self.lithography.clone());
        row.push(bool_string(self.overclocking_enabled));
        row.push(self.cpu_socket.clone());
        row.push(self.PIB.clone());
        row.push(opt_text_string(&self.recommended_cooler));
        row.push(self.MPK.clone());
        row.push(chars_to_string(&dec_chars(self.operating_temperature_max)));
        row.push(self.launch_date.clone());
        row.push(join_commas(&self.os_support));
        row.push(self.PCI_Express_version.clone());
        row.push(self.system_memory_type.clone());
        row.push(chars_to_string(&dec_chars(self.memory_channels)));
        row.push(self.system_memory_specification.clone());
        row.push(self.graphics.model.clone());
        row.push(chars_to_string(&dec_chars(self.graphics.cores)));
        row.push(chars_to_string(&dec_chars(self.graphics.frequency)));
        row.push(bool_string(self.AMD_RyzenAIEnabled));
        row.push(opt_text_string(&self.product_id.boxed));
        row.push(opt_text_string(&self.product_id.tray));
        row.push(opt_text_string(&self.product_id.mpk));
        row.push(join_commas(&self.supported_technologies));
        proof {
            assert(views_of_strings(row@) =~= spec_encode_amd(amd_view(*self)));
        }
        row
    }

    /// Decodes a stored row back into a record.
    pub fn decode_row(cells: &Vec<String>) -> (r: AMDData)
        requires
            cells@.len() == 34,
        ensures
            amd_view(r) == spec_decode_amd(views_of_strings(cells@)),
    {
        let ghost cs = views_of_strings(cells@);
        let r = AMDData {
            name: cells[0].clone(),
            family: cells[1].clone(),
            series: cells[2].clone(),
            formFactor: {
                let chars = to_chars(cells[3].as_str());
                let pieces = split_list_chars(&chars);
                let n: usize = pieces.len();
                let mut ffs: Vec<FormFactor> = Vec::new();
                let mut i: usize = 0;
                while i < n
                    invariant
                        i <= n == pieces@.len(),
                        ffs@ =~= spec_ff_list(views_of(pieces@).take(i as int)),
                    decreases n - i,
                {
                    proof {
                        assert(views_of(pieces@).take(i + 1 as int).drop_last() =~= views_of(
                            pieces@,
                        ).take(i as int));
                        assert(views_of(pieces@).take(i + 1 as int).last() == pieces@[i as int]@);
                    }
                    match parse_ff_chars(&pieces[i]) {
                        Some(f) => {
                            ffs.push(f);
                        },
                        None => {},
                    }
                    i = i + 1;
                }
                proof {
                    assert(views_of(pieces@).take(n as int) =~= views_of(pieces@));
                }
                ffs
            },
            cores: parse_uint_noisy(&to_chars(cells[4].as_str())).unwrap_or(0),
            threads: parse_uint_noisy(&to_chars(cells[5].as_str())).unwrap_or(0),
            boost_clock_mhz: parse_uint_noisy(&to_chars(cells[6].as_str())).unwrap_or(0),
            base_clock_mhz: parse_uint_noisy(&to_chars(cells[7].as_str())).unwrap_or(0),
            L1Cache: cells[8].clone(),
            L2Cache: cells[9].clone(),
            L3Cache: cells[10].clone(),
            DefaultTDP: cells[11].clone(),
            AMDConfigurableTDP: cells[12].clone(),
            lithography: cells[13].clone(),
            overclocking_enabled: parse_bool_string(&to_chars(cells[14].as_str())),
            cpu_socket: cells[15].clone(),
            PIB: cells[16].clone(),
            MPK: cells[18].clone(),
            recommended_cooler: {
                let c = cells[17].clone();
                if c.as_str().unicode_len() == 0 {
                    None
                } else {
                    Some(c)
                }
            },
            operating_temperature_max: parse_uint_noisy(&to_chars(cells[19].as_str())).unwrap_or(
                0,
            ),
            launch_date: cells[20].clone(),
            os_support: strings_of_list(&to_chars(cells[21].as_str())),
            PCI_Express_version: cells[22].clone(),
            system_memory_type: cells[23].clone(),
            memory_channels: parse_uint_noisy(&to_chars(cells[24].as_str())).unwrap_or(0),
            system_memory_specification: cells[25].clone(),
            graphics: Graphics {
                model: cells[26].clone(),
                cores: parse_uint_noisy(&to_chars(cells[27].as_str())).unwrap_or(0),
                frequency: parse_uint_noisy(&to_chars(cells[28].as_str())).unwrap_or(0),
            },
            AMD_RyzenAIEnabled: parse_bool_string(&to_chars(cells[29].as_str())),
            product_id: ProductID {
                boxed: {
                    let c = cells[30].clone();
                    if c.as_str().unicode_len() == 0 {
                        None
                    } else {
                        Some(c)
                    }
                },
                tray: {
                    let c = cells[31].clone();
                    if c.as_str().unicode_len() == 0 {
                        None
                    } else {
                        Some(c)
                    }
                },
                mpk: {
                    let c = cells[32].clone();
                    if c.as_str().unicode_len() == 0 {
                        None
                    } else {
                        Some(c)
                    }
                },
            },
            supported_technologies: strings_of_list(&to_chars(cells[33].as_str())),
        };
        r
    }
}

/// The numbers a builder produces fit the store's nine-digit decimal
/// cells.
pub proof fn lemma_build_amd_small(fs: Seq<Seq<char>>)
    ensures
        amd_nums_small(spec_build_amd(fs)),
{
    lemma_uint_opt_small(fs[4]);
    lemma_uint_opt_small(fs[5]);
    lemma_freq_opt_small(fs[6]);
    lemma_freq_opt_small(fs[7]);
    lemma_uint_opt_small(fs[19]);
    lemma_uint_opt_small(fs[24]);
    lemma_uint_opt_small(fs[27]);
    lemma_freq_opt_small(fs[28]);
}

/// The stored row of one raw line.
pub open spec fn amd_row_of_line(l: Seq<char>) -> Seq<Seq<char>> {
    spec_encode_amd(spec_build_amd(spec_pad(split_fields(l), 34, Seq::empty())))
}

/// The stored rows of a run of lines, blank lines skipped.
pub open spec fn amd_rows_of_lines(ls: Seq<Seq<char>>) -> Seq<Seq<Seq<char>>>
    decreases ls.len(),
{
    if ls.len() == 0 {
        Seq::empty()
    } else {
        amd_rows_of_lines(ls.drop_last()) + if spec_trim(ls.last()).len() > 0 {
            seq![amd_row_of_line(ls.last())]
        } else {
            Seq::empty()
        }
    }
}

/// The stored rows of one source file: the header line is discarded.
pub open spec fn amd_rows_of_content(c: Seq<char>) -> Seq<Seq<Seq<char>>> {
    amd_rows_of_lines(spec_lines(c).skip(1))
}

/// The stored rows of a run of source files, in order.
pub open spec fn amd_rows_of(contents: Seq<Seq<char>>) -> Seq<Seq<Seq<char>>>
    decreases contents.len(),
{
    if contents.len() == 0 {
        Seq::empty()
    } else {
        amd_rows_of(contents.drop_last()) + amd_rows_of_content(contents.last())
    }
}

/// Builds the stored rows of one source file's content.
fn amd_content_rows(content: &str) -> (r: Vec<Vec<String>>)
    ensures
        rows_views(r@) == amd_rows_of_content(content@),
        forall|t: int| 0 <= t < r@.len() ==> (#[trigger] r@[t]@).len() == 34,
{
    let chars = to_chars(content);
    let lines = split_lines_chars(&chars);
    let ghost ls = spec_lines(content@).skip(1);
    proof {
        assert(views_of(lines@).skip(1) =~= ls);
    }
    let n: usize = lines.len();
    let mut rows: Vec<Vec<String>> = Vec::new();
    let mut i: usize = 1;
    while i < n
        invariant
            1 <= i <= n == lines@.len(),
            ls == spec_lines(content@).skip(1),
            ls.len() == n - 1,
            forall|t: int| 0 <= t < ls.len() ==> ls[t] == #[trigger] lines@[t + 1]@,
            rows_views(rows@) =~= amd_rows_of_lines(ls.take(i - 1)),
            forall|t: int| 0 <= t < rows@.len() ==> (#[trigger] rows@[t]@).len() == 34,
        decreases n - i,
    {
        proof {
            assert(ls.take(i as int).drop_last() =~= ls.take(i - 1));
            assert(ls.take(i as int).last() == lines@[i as int]@);
        }
        let s = chars_to_string(&lines[i]);
        match AMDData::parse_csv_line(s.as_str()) {
            Ok(d) => {
                proof {
                    lemma_build_amd_small(spec_pad(split_fields(s@), 34, Seq::empty()));
                }
                let ghost old_rows = rows@;
                let row = d.encode_row();
                rows.push(row);
                proof {
                    assert(rows_views(rows@) =~= rows_views(old_rows).push(
                        amd_row_of_line(lines@[i as int]@),
                    ));
                    assert(rows_views(old_rows).push(amd_row_of_line(lines@[i as int]@))
                        =~= rows_views(old_rows) + seq![amd_row_of_line(lines@[i as int]@)]);
                }
            },
            Err(_) => {
                proof {
                    assert(amd_rows_of_lines(ls.take(i as int)) =~= amd_rows_of_lines(
                        ls.take(i - 1),
                    ));
                }
            },
        }
        i = i + 1;
    }
    proof {
        assert(ls.take(n - 1) =~= ls);
    }
    rows
}

impl AMDData {
    /// Ensures the AMD table exists; idempotent, never drops data.
    pub fn ensure_schema(conn: &mut rusqlite::Connection) -> (r: Result<(), StoreError>)
        ensures
            r is Ok ==> table_present(*final(conn), amd_table()),
            r is Ok ==> table_rows(*final(conn), amd_table()) == start_rows(
                *old(conn),
                amd_table(),
            ),
    {
        ensure_amd_schema(conn)
    }

    /// Ingests the given source-file contents: each file's header line
    /// is discarded, each remaining non-blank line becomes one record
    /// upserted under its unique name, all inside one transaction. A
    /// failing row aborts and rolls back the whole run.
    pub fn ingest(conn: &mut rusqlite::Connection, contents: &Vec<String>) -> (r: Result<
        (),
        StoreError,
    >)
        ensures
            r is Ok ==> table_present(*final(conn), amd_table()),
            r is Ok ==> table_rows(*final(conn), amd_table()) == upsert_all(
                start_rows(*old(conn), amd_table()),
                amd_rows_of(views_of_strings(contents@)),
            ),
            r is Ok ==> forall|t: Seq<char>|
                t != amd_table() ==> table_rows(*final(conn), t) == table_rows(*old(conn), t),
    {
        let nc: usize = contents.len();
        let mut rows: Vec<Vec<String>> = Vec::new();
        let mut j: usize = 0;
        while j < nc
            invariant
                j <= nc == contents@.len(),
                rows_views(rows@) =~= amd_rows_of(views_of_strings(contents@).take(j as int)),
                forall|t: int| 0 <= t < rows@.len() ==> (#[trigger] rows@[t]@).len() == 34,
            decreases nc - j,
        {
            proof {
                assert(views_of_strings(contents@).take(j + 1 as int).drop_last()
                    =~= views_of_strings(contents@).take(j as int));
                assert(views_of_strings(contents@).take(j + 1 as int).last()
                    == contents@[j as int]@);
            }
            let ghost old_rows = rows@;
            let mut more = amd_content_rows(contents[j].as_str());
            let ghost more_v = more@;
            rows.append(&mut more);
            proof {
                assert(rows_views(rows@) =~= rows_views(old_rows) + rows_views(more_v));
            }
            j = j + 1;
        }
        proof {
            assert(views_of_strings(contents@).take(nc as int) =~= views_of_strings(contents@));
        }
        match ensure_amd_schema(conn) {
            Ok(()) => {},
            Err(e) => {
                return Err(e);
            },
        }
        match tx_begin(conn) {
            Ok(()) => {},
            Err(e) => {
                return Err(StoreError::Exec(err_text(&e)));
            },
        }
        let ghost base = *conn;
        let nr: usize = rows.len();
        let mut k: usize = 0;
        while k < nr
            invariant
                k <= nr == rows@.len(),
                forall|t: int| 0 <= t < rows@.len() ==> (#[trigger] rows@[t]@).len() == 34,
                table_rows(*conn, amd_table()) == upsert_all(
                    table_rows(base, amd_table()),
                    rows_views(rows@).take(k as int),
                ),
                forall|t: Seq<char>|
                    t != amd_table() ==> table_rows(*conn, t) == table_rows(base, t),
                forall|t: Seq<char>| table_present(*conn, t) == table_present(base, t),
                table_present(base, amd_table()),
                table_rows(base, amd_table()) == start_rows(*old(conn), amd_table()),
                forall|t: Seq<char>|
                    t != amd_table() ==> table_rows(base, t) == table_rows(*old(conn), t),
            decreases nr - k,
        {
            proof {
                assert(rows_views(rows@).take(k + 1 as int).drop_last() =~= rows_views(
                    rows@,
                ).take(k as int));
                assert(rows_views(rows@).take(k + 1 as int).last() == views_of_strings(
                    rows@[k as int]@,
                ));
            }
            match exec_upsert(conn, amd_insert_text(), "amd_cpus", &rows[k]) {
                Ok(()) => {},
                Err(e) => {
                    let _ = tx_rollback(conn);
                    return Err(StoreError::Exec(err_text(&e)));
                },
            }
            k = k + 1;
        }
        proof {
            assert(rows_views(rows@).take(nr as int) =~= rows_views(rows@));
        }
        match tx_commit(conn) {
            Ok(()) => Ok(()),
            Err(e) => {
                let _ = tx_rollback(conn);
                Err(StoreError::Exec(err_text(&e)))
            },
        }
    }
}

proof fn lemma_ff_name_facts(f: FormFactor)
    ensures
        crate::normalize::wf_list_piece(spec_ff_name(f)),
        spec_ff_parse(spec_ff_name(f)) == Some(f),
{
    reveal_strlit("Laptops");
    reveal_strlit("Desktops");
    reveal_strlit("Boxed Processor");
    reveal_strlit("1L Desktops");
    reveal_strlit("1L Desktop");
    reveal_strlit("Mobile Workstations");
    reveal_strlit("Handheld");
    assert("Laptops"@ =~= seq!['L', 'a', 'p', 't', 'o', 'p', 's']);
    assert("Desktops"@ =~= seq!['D', 'e', 's', 'k', 't', 'o', 'p', 's']);
    assert("Boxed Processor"@ =~= seq![
        'B', 'o', 'x', 'e', 'd', ' ', 'P', 'r', 'o', 'c', 'e', 's', 's', 'o', 'r',
    ]);
    assert("1L Desktops"@ =~= seq!['1', 'L', ' ', 'D', 'e', 's', 'k', 't', 'o', 'p', 's']);
    assert("1L Desktop"@ =~= seq!['1', 'L', ' ', 'D', 'e', 's', 'k', 't', 'o', 'p']);
    assert("Mobile Workstations"@ =~= seq![
        'M', 'o', 'b', 'i', 'l', 'e', ' ', 'W', 'o', 'r', 'k', 's', 't', 'a', 't', 'i', 'o', 'n',
        's',
    ]);
    assert("Handheld"@ =~= seq!['H', 'a', 'n', 'd', 'h', 'e', 'l', 'd']);
    let n = spec_ff_name(f);
    assert(n.len() > 0 && !crate::text::is_space(n[0]) && !crate::text::is_space(n.last()));
    crate::normalize::lemma_trim_noop(n);
    assert(forall|i: int| 0 <= i < n.len() ==> #[trigger] n[i] != ',' && n[i] != '"');
}

/// Law: the stored names of the form factors read back to exactly the
/// same form factors, in order.
pub proof fn lemma_ff_names_roundtrip(fs: Seq<FormFactor>)
    ensures
        crate::normalize::wf_list(spec_ff_names(fs)),
        spec_ff_list(spec_ff_names(fs)) == fs,
    decreases fs.len(),
{
    assert forall|i: int| 0 <= i < spec_ff_names(fs).len() implies crate::normalize::wf_list_piece(
        #[trigger] spec_ff_names(fs)[i],
    ) by {
        lemma_ff_name_facts(fs[i]);
    }
    if fs.len() == 0 {
        assert(spec_ff_names(fs) =~= Seq::<Seq<char>>::empty());
        assert(spec_ff_list(spec_ff_names(fs)) =~= fs);
    } else {
        lemma_ff_names_roundtrip(fs.drop_last());
        assert(spec_ff_names(fs).drop_last() =~= spec_ff_names(fs.drop_last()));
        assert(spec_ff_names(fs).last() == spec_ff_name(fs.last()));
        lemma_ff_name_facts(fs.last());
        assert(spec_ff_list(spec_ff_names(fs)) =~= fs);
    }
}

/// A record the store can round-trip: its numbers fit the decimal
/// cells, its list elements are store-shaped, and its optional texts
/// are not the empty placeholder.
pub open spec fn wf_amd(m: AMDModel) -> bool {
    &&& amd_nums_small(m)
    &&& crate::normalize::wf_list(m.os_support)
    &&& crate::normalize::wf_list(m.techs)
    &&& (m.cooler matches Some(s) ==> s.len() > 0)
    &&& (m.pid_boxed matches Some(s) ==> s.len() > 0)
    &&& (m.pid_tray matches Some(s) ==> s.len() > 0)
    &&& (m.pid_mpk matches Some(s) ==> s.len() > 0)
}

/// Law (round trip): an AMD record written to its stored row and read
/// back through the store's decode rule yields the same logical values,
/// modulo nothing — the documented text serialization of numbers,
/// booleans and lists loses no information on well-formed records. The
/// row is keyed on the record's name, its first cell.
#[verifier::rlimit(100)]
pub proof fn lemma_amd_roundtrip(m: AMDModel)
    requires
        wf_amd(m),
    ensures
        spec_decode_amd(spec_encode_amd(m)) == m,
        spec_encode_amd(m)[0] == m.name,
        spec_encode_amd(m).len() == 34,
{
    let cs = spec_encode_amd(m);
    lemma_ff_names_roundtrip(m.form_factor);
    crate::normalize::lemma_split_join(spec_ff_names(m.form_factor));
    crate::normalize::lemma_split_join(m.os_support);
    crate::normalize::lemma_split_join(m.techs);
    crate::normalize::lemma_uint_roundtrip(m.cores);
    crate::normalize::lemma_uint_roundtrip(m.threads);
    crate::normalize::lemma_uint_roundtrip(m.boost_mhz);
    crate::normalize::lemma_uint_roundtrip(m.base_mhz);
    crate::normalize::lemma_uint_roundtrip(m.temp_max);
    crate::normalize::lemma_uint_roundtrip(m.mem_channels);
    crate::normalize::lemma_uint_roundtrip(m.gfx_cores);
    crate::normalize::lemma_uint_roundtrip(m.gfx_mhz);
    crate::cpu::lemma_bool_roundtrip(m.overclocking);
    crate::cpu::lemma_bool_roundtrip(m.ryzen_ai);
    assert(spec_decode_amd(cs) =~= m);
}

/// Every record the builder reads from a raw line is well formed: its
/// numbers fit the store's cells, and its list elements — built from
/// quote-free tokens — survive the comma-join serialization.
pub proof fn lemma_build_amd_wf(l: Seq<char>)
    ensures
        wf_amd(spec_build_amd(spec_pad(split_fields(l), 34, Seq::empty()))),
{
    let fs = spec_pad(split_fields(l), 34, Seq::empty());
    crate::dialect::lemma_split_fields_no_quote(l);
    lemma_build_amd_small(fs);
    assert(crate::text::no_char(fs[3], '"'));
    assert(crate::text::no_char(fs[21], '"'));
    assert(crate::text::no_char(fs[33], '"'));
    crate::normalize::lemma_split_list_wf(fs[3]);
    crate::normalize::lemma_split_list_wf(fs[21]);
    crate::normalize::lemma_split_list_wf(fs[33]);
}

/// Law: the stored row of any raw line decodes back to exactly the
/// record the builder read from it — ingestion followed by lookup is
/// the identity on every line of a source file.
pub proof fn lemma_amd_line_roundtrip(l: Seq<char>)
    ensures
        spec_decode_amd(amd_row_of_line(l)) == spec_build_amd(
            spec_pad(split_fields(l), 34, Seq::empty()),
        ),
{
    lemma_build_amd_wf(l);
    lemma_amd_roundtrip(spec_build_amd(spec_pad(split_fields(l), 34, Seq::empty())));
}

/// Law (ingest then lookup): writing a well-formed AMD record into the
/// store model and reading its row back under the record's unique name
/// yields the same logical values.
pub proof fn lemma_amd_store_roundtrip(m0: Map<Seq<char>, Seq<Seq<char>>>, md: AMDModel)
    requires
        wf_amd(md),
    ensures
        upsert_all(m0, seq![spec_encode_amd(md)]).contains_key(md.name),
        spec_decode_amd(upsert_all(m0, seq![spec_encode_amd(md)])[md.name]) == md,
{
    lemma_amd_roundtrip(md);
    let rows = seq![spec_encode_amd(md)];
    assert(rows.drop_last() =~= Seq::<Seq<Seq<char>>>::empty());
    assert(upsert_all(m0, rows.drop_last()) == m0);
    assert(rows.last() == spec_encode_amd(md));
}

/// A fetched record decodes from some stored row of the AMD table, read
/// cell for cell up to the empty placeholder.
pub open spec fn amd_fetch_ok(c: rusqlite::Connection, d: AMDData) -> bool {
    exists|cs: Seq<Seq<char>>|
        #[trigger] row_match(c, amd_table(), cs) && cs.len() == 34 && amd_view(d)
            == spec_decode_amd(cs)
}

impl AMDData {
    /// Looks up the first stored AMD record whose selected column
    /// contains the keyword. Absence of a match is an explicit `None`,
    /// never an error; an Intel selector is a query mismatch, a contract
    /// violation this function rejects by its `requires`.
    pub fn fetch(conn: &rusqlite::Connection, keyword: &str, column: EnumCPUData) -> (r: Result<
        Option<eCPUDetails>,
        StoreError,
    >)
        requires
            column matches EnumCPUData::AMD(_),
        ensures
            r matches Ok(Some(d)) ==> d matches eCPUDetails::AMD(a) && amd_fetch_ok(*conn, a),
            r matches Ok(None) ==> forall|k: Seq<char>|
                #[trigger] table_rows(*conn, amd_table()).contains_key(k) ==> !contains_sub(
                    table_rows(*conn, amd_table())[k][amd_col_index(column->AMD_0)],
                    keyword@,
                ),
    {
        let ac = match column {
            EnumCPUData::AMD(c) => c,
            EnumCPUData::Intel(_) => vstd::pervasive::unreached(),
        };
        let colname = ac.to_string();
        let idx = ac.index();
        match query_row_like(conn, "amd_cpus", colname, idx, 34, keyword) {
            Err(e) => Err(StoreError::Query(err_text(&e))),
            Ok(None) => Ok(None),
            Ok(Some(cells)) => {
                let d = AMDData::decode_row(&cells);
                proof {
                    assert(row_match(*conn, amd_table(), views_of_strings(cells@)));
                    assert(amd_fetch_ok(*conn, d));
                }
                Ok(Some(eCPUDetails::AMD(d)))
            },
        }
    }
}

} // verus!
