//! Store manager: the on-disk structured store behind the ingestion and
//! lookup pipeline.
//!
//! The store is an SQLite database reached through rusqlite. Each vendor
//! family owns one table whose columns are all text-typed; a row is keyed
//! on its first column, the record's unique name, so re-ingesting a name
//! overwrites its whole row. The contents of a table on one connection
//! are modelled by the uninterpreted map [`table_rows`]; every trusted
//! wrapper below states its effect on that map, and everything else in
//! this module is proved against those statements.

use vstd::prelude::*;
use crate::cpu::amd::amd_column_name;
use crate::cpu::intel::intel_column_name;
use crate::dialect::views_of_strings;
use crate::text::contains_sub;

verus! {

#[verifier::external_type_specification]
#[verifier::external_body]
pub struct ExConnection(rusqlite::Connection);

#[verifier::external_type_specification]
#[verifier::external_body]
pub struct ExRusqliteError(rusqlite::Error);

/// The rows of one table on one connection, keyed by the text of the
/// first cell (the record's unique name). Cells are stored as text by
/// this library's ingestion, and only tables of this library's two
/// schemas are spoken of.
pub uninterp spec fn table_rows(c: rusqlite::Connection, table: Seq<char>) -> Map<
    Seq<char>,
    Seq<Seq<char>>,
>;

/// Whether the named table exists on the connection.
pub uninterp spec fn table_present(c: rusqlite::Connection, table: Seq<char>) -> bool;

/// A failure of the store, fatal to the enclosing operation: opening the
/// store, running schema or transaction statements, writing a row, or
/// querying. The text carries the underlying report.
#[derive(Debug)]
pub enum StoreError {
    Open(String),
    Exec(String),
    Query(String),
}

impl StoreError {
    /// The underlying report.
    pub fn message(&self) -> (r: &String)
        ensures
            *self matches StoreError::Open(m) ==> r == m,
            *self matches StoreError::Exec(m) ==> r == m,
            *self matches StoreError::Query(m) ==> r == m,
    {
        match self {
            StoreError::Open(m) => m,
            StoreError::Exec(m) => m,
            StoreError::Query(m) => m,
        }
    }
}

pub open spec fn amd_table() -> Seq<char> {
    "amd_cpus"@
}

/// The contents of a table that was just created: no rows.
pub open spec fn empty_rows() -> Map<Seq<char>, Seq<Seq<char>>> {
    Map::empty()
}

pub open spec fn intel_table() -> Seq<char> {
    "intel_cpus"@
}

/// The schema statement of the AMD table: 34 text columns in
/// source-column order, keyed on the name.
pub open spec fn amd_schema_sql() -> Seq<char> {
    "CREATE TABLE IF NOT EXISTS amd_cpus (name TEXT PRIMARY KEY, family TEXT, series TEXT, form_factor TEXT, cores TEXT, threads TEXT, max_boost_clock TEXT, base_clock TEXT, l1_cache TEXT, l2_cache TEXT, l3_cache TEXT, tdp TEXT, configurable_tdp TEXT, processor_technology TEXT, overclocking_enabled TEXT, socket TEXT, pib TEXT, recommended_cooler TEXT, mpk TEXT, operating_temperature_max TEXT, launch_date TEXT, os_support TEXT, pci_express_version TEXT, system_memory_type TEXT, memory_channels TEXT, system_memory_specification TEXT, graphics_model TEXT, graphics_cores TEXT, graphics_frequency TEXT, ryzen_ai_enabled TEXT, product_id_boxed TEXT, product_id_tray TEXT, product_id_mpk TEXT, supported_technologies TEXT)"@
}

/// The schema statement of the Intel table: 16 text columns in
/// source-column order, keyed on the product name.
pub open spec fn intel_schema_sql() -> Seq<char> {
    "CREATE TABLE IF NOT EXISTS intel_cpus (product TEXT PRIMARY KEY, status TEXT, release_date TEXT, code_name TEXT, cores TEXT, threads TEXT, lithography TEXT, max_turbo_freq TEXT, base_freq TEXT, thermal_design_power TEXT, cache TEXT, cache_info TEXT, max_memory_size TEXT, memory_types TEXT, max_memory_speed TEXT, graphics TEXT)"@
}

/// The upsert statement of the AMD table.
pub open spec fn amd_insert_sql() -> Seq<char> {
    "INSERT OR REPLACE INTO amd_cpus VALUES (?1,?2,?3,?4,?5,?6,?7,?8,?9,?10,?11,?12,?13,?14,?15,?16,?17,?18,?19,?20,?21,?22,?23,?24,?25,?26,?27,?28,?29,?30,?31,?32,?33,?34)"@
}

/// The upsert statement of the Intel table.
pub open spec fn intel_insert_sql() -> Seq<char> {
    "INSERT OR REPLACE INTO intel_cpus VALUES (?1,?2,?3,?4,?5,?6,?7,?8,?9,?10,?11,?12,?13,?14,?15,?16)"@
}

fn amd_schema_text() -> (r: &'static str)
    ensures
        r@ == amd_schema_sql(),
{
    "CREATE TABLE IF NOT EXISTS amd_cpus (name TEXT PRIMARY KEY, family TEXT, series TEXT, form_factor TEXT, cores TEXT, threads TEXT, max_boost_clock TEXT, base_clock TEXT, l1_cache TEXT, l2_cache TEXT, l3_cache TEXT, tdp TEXT, configurable_tdp TEXT, processor_technology TEXT, overclocking_enabled TEXT, socket TEXT, pib TEXT, recommended_cooler TEXT, mpk TEXT, operating_temperature_max TEXT, launch_date TEXT, os_support TEXT, pci_express_version TEXT, system_memory_type TEXT, memory_channels TEXT, system_memory_specification TEXT, graphics_model TEXT, graphics_cores TEXT, graphics_frequency TEXT, ryzen_ai_enabled TEXT, product_id_boxed TEXT, product_id_tray TEXT, product_id_mpk TEXT, supported_technologies TEXT)"
}

fn intel_schema_text() -> (r: &'static str)
    ensures
        r@ == intel_schema_sql(),
{
    "CREATE TABLE IF NOT EXISTS intel_cpus (product TEXT PRIMARY KEY, status TEXT, release_date TEXT, code_name TEXT, cores TEXT, threads TEXT, lithography TEXT, max_turbo_freq TEXT, base_freq TEXT, thermal_design_power TEXT, cache TEXT, cache_info TEXT, max_memory_size TEXT, memory_types TEXT, max_memory_speed TEXT, graphics TEXT)"
}

pub(crate) fn amd_insert_text() -> (r: &'static str)
    ensures
        r@ == amd_insert_sql(),
{
    "INSERT OR REPLACE INTO amd_cpus VALUES (?1,?2,?3,?4,?5,?6,?7,?8,?9,?10,?11,?12,?13,?14,?15,?16,?17,?18,?19,?20,?21,?22,?23,?24,?25,?26,?27,?28,?29,?30,?31,?32,?33,?34)"
}

pub(crate) fn intel_insert_text() -> (r: &'static str)
    ensures
        r@ == intel_insert_sql(),
{
    "INSERT OR REPLACE INTO intel_cpus VALUES (?1,?2,?3,?4,?5,?6,?7,?8,?9,?10,?11,?12,?13,?14,?15,?16)"
}

/// Relies on rusqlite::Connection::open: opens the store file at `path`
/// (creating it when absent), or reports why it cannot.
#[verifier::external_body]
fn conn_open(path: &str) -> Result<rusqlite::Connection, rusqlite::Error> {
    rusqlite::Connection::open(path)
}

/// Relies on rusqlite::Error's Display impl for a human-readable report.
#[verifier::external_body]
pub(crate) fn err_text(e: &rusqlite::Error) -> String {
    e.to_string()
}

/// Relies on rusqlite::Connection::execute running one CREATE TABLE IF
/// NOT EXISTS statement: afterwards the table exists; an existing table
/// (and every other table) keeps its rows; a freshly created one is
/// empty. On failure nothing is claimed.
#[verifier::external_body]
fn exec_schema(conn: &mut rusqlite::Connection, sql: &str, table: &str) -> (r: Result<(), rusqlite::Error>)
    requires
        (sql@ == amd_schema_sql() && table@ == amd_table()) || (sql@ == intel_schema_sql()
            && table@ == intel_table()),
    ensures
        r is Ok ==> table_present(*final(conn), table@),
        r is Ok && table_present(*old(conn), table@) ==> table_rows(*final(conn), table@)
            == table_rows(*old(conn), table@),
        r is Ok && !table_present(*old(conn), table@) ==> table_rows(*final(conn), table@)
            == empty_rows(),
        r is Ok ==> forall|t: Seq<char>|
            t != table@ ==> table_rows(*final(conn), t) == table_rows(*old(conn), t)
                && table_present(*final(conn), t) == table_present(*old(conn), t),
{
    conn.execute(sql, []).map(|_n| ())
}

/// Relies on rusqlite::Connection::execute running BEGIN: starting a
/// transaction changes no table.
#[verifier::external_body]
pub(crate) fn tx_begin(conn: &mut rusqlite::Connection) -> (r: Result<(), rusqlite::Error>)
    ensures
        r is Ok ==> forall|t: Seq<char>|
            table_rows(*final(conn), t) == table_rows(*old(conn), t) && table_present(
                *final(conn),
                t,
            ) == table_present(*old(conn), t),
{
    conn.execute("BEGIN", []).map(|_n| ())
}

/// Relies on rusqlite::Connection::execute running COMMIT: committing
/// makes the transaction durable and changes no visible table.
#[verifier::external_body]
pub(crate) fn tx_commit(conn: &mut rusqlite::Connection) -> (r: Result<(), rusqlite::Error>)
    ensures
        r is Ok ==> forall|t: Seq<char>|
            table_rows(*final(conn), t) == table_rows(*old(conn), t) && table_present(
                *final(conn),
                t,
            ) == table_present(*old(conn), t),
{
    conn.execute("COMMIT", []).map(|_n| ())
}

/// Relies on rusqlite::Connection::execute running ROLLBACK: abandons
/// the open transaction. Nothing is claimed of the table contents
/// afterwards.
#[verifier::external_body]
pub(crate) fn tx_rollback(conn: &mut rusqlite::Connection) -> Result<(), rusqlite::Error> {
    conn.execute("ROLLBACK", []).map(|_n| ())
}

/// Relies on rusqlite::Connection::execute running one INSERT OR REPLACE
/// statement with the given text parameters, against a table created by
/// [`exec_schema`] and therefore keyed on its first column: on success
/// the table maps the first value to the whole row, every other table is
/// untouched, and no table appears or disappears. On failure nothing is
/// claimed.
#[verifier::external_body]
pub(crate) fn exec_upsert(
    conn: &mut rusqlite::Connection,
    sql: &str,
    table: &str,
    values: &Vec<String>,
) -> (r: Result<(), rusqlite::Error>)
    requires
        (sql@ == amd_insert_sql() && table@ == amd_table() && values@.len() == 34) || (sql@
            == intel_insert_sql() && table@ == intel_table() && values@.len() == 16),
    ensures
        r is Ok ==> table_rows(*final(conn), table@) == table_rows(*old(conn), table@).insert(
            values@[0]@,
            views_of_strings(values@),
        ),
        r is Ok ==> forall|t: Seq<char>|
            t != table@ ==> table_rows(*final(conn), t) == table_rows(*old(conn), t),
        r is Ok ==> forall|t: Seq<char>|
            table_present(*final(conn), t) == table_present(*old(conn), t),
{
    conn.execute(sql, rusqlite::params_from_iter(values.iter())).map(|_n| ())
}

/// One cell of a fetched row either equals the stored cell or fell back
/// to the empty placeholder because it could not be read as text.
pub open spec fn cells_match(cs: Seq<Seq<char>>, row: Seq<Seq<char>>) -> bool {
    &&& cs.len() == row.len()
    &&& forall|i: int| 0 <= i < cs.len() ==> cs[i] == row[i] || cs[i] == Seq::<char>::empty()
}

/// The query shapes the store answers: one of the two vendor tables,
/// one of its declared column names with its row index, and its column
/// count.
pub open spec fn valid_query(table: Seq<char>, col: Seq<char>, idx: int, ncols: int) -> bool {
    ||| (table == amd_table() && ncols == 34 && 0 <= idx < 34 && col == amd_column_name(idx))
    ||| (table == intel_table() && ncols == 16 && 0 <= idx < 16 && col == intel_column_name(idx))
}

/// Relies on rusqlite::Connection::prepare, Statement::query, Rows::next
/// and Row::get, running one SELECT with a substring LIKE pattern built
/// from the keyword: a row comes back only from the queried table, its
/// cells read as text (a cell that cannot be read falls back to the
/// empty placeholder); absence comes back only when no stored cell of
/// the queried column contains the keyword as an exact substring, since
/// the LIKE match is a (case-insensitive) superset of exact containment.
/// On failure nothing is claimed.
#[allow(unused_variables)]
#[verifier::external_body]
pub(crate) fn query_row_like(
    conn: &rusqlite::Connection,
    table: &str,
    col: &str,
    col_idx: usize,
    ncols: usize,
    keyword: &str,
) -> (r: Result<Option<Vec<String>>, rusqlite::Error>)
    requires
        valid_query(table@, col@, col_idx as int, ncols as int),
    ensures
        r matches Ok(Some(cells)) ==> cells@.len() == ncols && exists|k: Seq<char>|
            #[trigger] table_rows(*conn, table@).contains_key(k) && cells_match(
                views_of_strings(cells@),
                table_rows(*conn, table@)[k],
            ),
        r matches Ok(None) ==> forall|k: Seq<char>|
            #[trigger] table_rows(*conn, table@).contains_key(k) ==> !contains_sub(
                table_rows(*conn, table@)[k][col_idx as int],
                keyword@,
            ),
{
    let sql = format!("SELECT * FROM {} WHERE {} LIKE ?1", table, col);
    let pattern = format!("%{}%", keyword);
    let mut stmt = conn.prepare(&sql)?;
    let mut rows = stmt.query((pattern,))?;
    match rows.next()? {
        None => Ok(None),
        Some(row) => {
            let mut cells: Vec<String> = Vec::new();
            for i in 0..ncols {
                cells.push(row.get::<usize, String>(i).unwrap_or_default());
            }
            Ok(Some(cells))
        },
    }
}

/// Opens (or creates) the store file; schema/connection failures are
/// fatal to the calling operation and reported as a typed failure.
pub fn open_store(path: &str) -> Result<rusqlite::Connection, StoreError> {
    match conn_open(path) {
        Ok(c) => Ok(c),
        Err(e) => Err(StoreError::Open(err_text(&e))),
    }
}

/// Ensures the AMD table exists; idempotent, never drops data.
pub fn ensure_amd_schema(conn: &mut rusqlite::Connection) -> (r: Result<(), StoreError>)
    ensures
        r is Ok ==> table_present(*final(conn), amd_table()),
        r is Ok && table_present(*old(conn), amd_table()) ==> table_rows(*final(conn), amd_table())
            == table_rows(*old(conn), amd_table()),
        r is Ok && !table_present(*old(conn), amd_table()) ==> table_rows(
            *final(conn),
            amd_table(),
        ) == empty_rows(),
        r is Ok ==> forall|t: Seq<char>|
            t != amd_table() ==> table_rows(*final(conn), t) == table_rows(*old(conn), t)
                && table_present(*final(conn), t) == table_present(*old(conn), t),
{
    match exec_schema(conn, amd_schema_text(), "amd_cpus") {
        Ok(()) => Ok(()),
        Err(e) => Err(StoreError::Exec(err_text(&e))),
    }
}

/// Ensures the Intel table exists; idempotent, never drops data.
pub fn ensure_intel_schema(conn: &mut rusqlite::Connection) -> (r: Result<(), StoreError>)
    ensures
        r is Ok ==> table_present(*final(conn), intel_table()),
        r is Ok && table_present(*old(conn), intel_table()) ==> table_rows(
            *final(conn),
            intel_table(),
        ) == table_rows(*old(conn), intel_table()),
        r is Ok && !table_present(*old(conn), intel_table()) ==> table_rows(
            *final(conn),
            intel_table(),
        ) == empty_rows(),
        r is Ok ==> forall|t: Seq<char>|
            t != intel_table() ==> table_rows(*final(conn), t) == table_rows(*old(conn), t)
                && table_present(*final(conn), t) == table_present(*old(conn), t),
{
    match exec_schema(conn, intel_schema_text(), "intel_cpus") {
        Ok(()) => Ok(()),
        Err(e) => Err(StoreError::Exec(err_text(&e))),
    }
}

/// The rows a table holds before an ingestion run: its current rows, or
/// none when the table does not exist yet.
pub open spec fn start_rows(c: rusqlite::Connection, table: Seq<char>) -> Map<
    Seq<char>,
    Seq<Seq<char>>,
> {
    if table_present(c, table) {
        table_rows(c, table)
    } else {
        empty_rows()
    }
}

/// A fetched row agrees, cell for cell up to the empty placeholder, with
/// some stored row of the table.
pub open spec fn row_match(c: rusqlite::Connection, table: Seq<char>, cs: Seq<Seq<char>>) -> bool {
    exists|k: Seq<char>|
        #[trigger] table_rows(c, table).contains_key(k) && cells_match(cs, table_rows(c, table)[k])
}

/// The rows vector's mathematical shape.
pub open spec fn rows_views(rs: Seq<Vec<String>>) -> Seq<Seq<Seq<char>>> {
    Seq::new(rs.len(), |i: int| views_of_strings(rs[i]@))
}

/// One upsert per row, in order, keyed on each row's first cell.
pub open spec fn upsert_all(
    m: Map<Seq<char>, Seq<Seq<char>>>,
    rows: Seq<Seq<Seq<char>>>,
) -> Map<Seq<char>, Seq<Seq<char>>>
    decreases rows.len(),
{
    if rows.len() == 0 {
        m
    } else {
        upsert_all(m, rows.drop_last()).insert(rows.last()[0], rows.last())
    }
}

/// The last row among `rows` whose name is `k`, if any.
pub open spec fn lookup_rows(rows: Seq<Seq<Seq<char>>>, k: Seq<char>) -> Option<Seq<Seq<char>>>
    decreases rows.len(),
{
    if rows.len() == 0 {
        None
    } else if rows.last()[0] == k {
        Some(rows.last())
    } else {
        lookup_rows(rows.drop_last(), k)
    }
}

/// Law: after an ingestion run the store holds, under every name,
/// exactly the last ingested row of that name — an earlier row of the
/// same name (a re-release) is overwritten, and names never ingested
/// keep their prior row.
pub proof fn lemma_upsert_all_lookup(
    m: Map<Seq<char>, Seq<Seq<char>>>,
    rows: Seq<Seq<Seq<char>>>,
    k: Seq<char>,
)
    ensures
        upsert_all(m, rows).contains_key(k) <==> (m.contains_key(k) || lookup_rows(rows, k)
            is Some),
        lookup_rows(rows, k) matches Some(r) ==> upsert_all(m, rows)[k] == r,
        lookup_rows(rows, k) is None && m.contains_key(k) ==> upsert_all(m, rows)[k] == m[k],
    decreases rows.len(),
{
    if rows.len() > 0 {
        lemma_upsert_all_lookup(m, rows.drop_last(), k);
    }
}

/// Law: ingesting the same rows twice leaves the store exactly as one
/// ingestion does — one row per unique name, with identical values.
pub proof fn lemma_upsert_all_idempotent(
    m: Map<Seq<char>, Seq<Seq<char>>>,
    rows: Seq<Seq<Seq<char>>>,
)
    ensures
        upsert_all(upsert_all(m, rows), rows) == upsert_all(m, rows),
{
    let once = upsert_all(m, rows);
    let twice = upsert_all(once, rows);
    assert forall|k: Seq<char>| #[trigger]
        twice.contains_key(k) implies once.contains_key(k) && twice[k] == once[k] by {
        lemma_upsert_all_lookup(m, rows, k);
        lemma_upsert_all_lookup(once, rows, k);
    }
    assert forall|k: Seq<char>| #[trigger] once.contains_key(k) implies twice.contains_key(k) by {
        lemma_upsert_all_lookup(m, rows, k);
        lemma_upsert_all_lookup(once, rows, k);
    }
    assert(twice =~= once);
}

} // verus!
