//! The storage backend: a SQLite database reached through `rusqlite`.
//!
//! Every item in this module that touches the database is a trusted wrapper:
//! its contract states, over named table contents, what the SQL statement in
//! its body does according to SQLite's documented semantics. All verified
//! store logic lives in the sibling modules and reasons only through these
//! contracts.

use vstd::prelude::*;

use crate::errors::{AppError, AppResult};
use crate::types::{
    Category, CategoryRow, IdlePeriod, IdleRow, ProcessSample, ScreenshotRow, TimeEntry, TimeRow,
    WindowActivity, WindowRow, category_row_of, idle_row_of, shot_row_of, time_row_of_entry,
    window_row_of,
};

verus! {

use vstd::multiset::Multiset;

/// The connection type of `rusqlite`, declared so it can stand in fields
/// and signatures. Verus sees nothing inside a value of it.
#[verifier::external_type_specification]
#[verifier::external_body]
pub struct ExConnection(rusqlite::Connection);

/// The rows of the `time_entries` table, keyed by id:
/// `id -> (start, end, label, color, category)`.
pub uninterp spec fn time_rows(c: rusqlite::Connection) -> Map<int, TimeRow>;

/// The rows of the `categories` table, keyed by id: `id -> (name, color)`.
pub uninterp spec fn category_rows(c: rusqlite::Connection) -> Map<int, CategoryRow>;

/// The rows of the `window_activity` table:
/// a bag of `(timestamp, window_title, process_name)`.
pub uninterp spec fn window_rows(c: rusqlite::Connection) -> Multiset<WindowRow>;

/// The rows of the `screenshots` table:
/// a bag of `(timestamp, file_path, day_id)`.
pub uninterp spec fn screenshot_rows(c: rusqlite::Connection) -> Multiset<ScreenshotRow>;

/// The rows of the `idle_periods` table, keyed by id:
/// `id -> (start, end, resolution)`.
pub uninterp spec fn idle_rows(c: rusqlite::Connection) -> Map<int, IdleRow>;

/// The rows of the `process_samples` table, keyed by their second-aligned
/// timestamp: `timestamp -> process_name`.
pub uninterp spec fn process_rows(c: rusqlite::Connection) -> Map<int, Seq<char>>;

/// A handle on the timeline database. All contracts about stored data are
/// stated over the named contents of `conn`'s tables.
pub struct Store {
    pub conn: rusqlite::Connection,
}

/// The `time_entries` table is the same in both stores.
pub open spec fn same_time_table(a: Store, b: Store) -> bool {
    time_rows(b.conn) == time_rows(a.conn)
}

/// The `categories` table is the same in both stores.
pub open spec fn same_category_table(a: Store, b: Store) -> bool {
    category_rows(b.conn) == category_rows(a.conn)
}

/// The `window_activity` table is the same in both stores.
pub open spec fn same_window_table(a: Store, b: Store) -> bool {
    window_rows(b.conn) == window_rows(a.conn)
}

/// The `screenshots` table is the same in both stores.
pub open spec fn same_screenshot_table(a: Store, b: Store) -> bool {
    screenshot_rows(b.conn) == screenshot_rows(a.conn)
}

/// The `idle_periods` table is the same in both stores.
pub open spec fn same_idle_table(a: Store, b: Store) -> bool {
    idle_rows(b.conn) == idle_rows(a.conn)
}

/// The `process_samples` table is the same in both stores.
pub open spec fn same_process_table(a: Store, b: Store) -> bool {
    process_rows(b.conn) == process_rows(a.conn)
}

/// No table of the store changed.
pub open spec fn store_unchanged(a: Store, b: Store) -> bool {
    &&& same_time_table(a, b)
    &&& same_category_table(a, b)
    &&& same_window_table(a, b)
    &&& same_screenshot_table(a, b)
    &&& same_idle_table(a, b)
    &&& same_process_table(a, b)
}

/// A fetched sequence of entries carries exactly the rows of the
/// `time_entries` map: every element is a stored row, ids are unique, and
/// every stored id is represented.
pub open spec fn rows_match_time(v: Seq<TimeEntry>, m: Map<int, TimeRow>) -> bool {
    &&& forall|i: int|
        0 <= i < v.len() ==> m.contains_pair((#[trigger] v[i]).id as int, time_row_of_entry(v[i]))
    &&& forall|i: int, j: int|
        0 <= i < v.len() && 0 <= j < v.len() && i != j ==> (#[trigger] v[i]).id != (
        #[trigger] v[j]).id
    &&& forall|k: int|
        #[trigger] m.dom().contains(k) ==> exists|i: int|
            0 <= i < v.len() && (#[trigger] v[i]).id as int == k
}

/// The entries are ordered by ascending start time.
pub open spec fn sorted_by_start(v: Seq<TimeEntry>) -> bool {
    forall|i: int, j: int|
        0 <= i < j < v.len() ==> (#[trigger] v[i]).start_time <= (#[trigger] v[j]).start_time
}

pub const SCHEMA_SQL: &'static str = "CREATE TABLE IF NOT EXISTS time_entries (id INTEGER PRIMARY KEY AUTOINCREMENT, start_time INTEGER NOT NULL, end_time INTEGER NOT NULL, label TEXT NOT NULL, color TEXT, category_id INTEGER); CREATE TABLE IF NOT EXISTS categories (id INTEGER PRIMARY KEY AUTOINCREMENT, name TEXT NOT NULL, color TEXT); CREATE TABLE IF NOT EXISTS screenshots (id INTEGER PRIMARY KEY AUTOINCREMENT, timestamp INTEGER NOT NULL, file_path TEXT NOT NULL, day_id INTEGER NOT NULL); CREATE TABLE IF NOT EXISTS window_activity (id INTEGER PRIMARY KEY AUTOINCREMENT, timestamp INTEGER NOT NULL, window_title TEXT NOT NULL, process_name TEXT NOT NULL); CREATE TABLE IF NOT EXISTS idle_periods (id INTEGER PRIMARY KEY AUTOINCREMENT, start_time INTEGER NOT NULL, end_time INTEGER NOT NULL, resolution TEXT); CREATE TABLE IF NOT EXISTS process_samples (timestamp INTEGER PRIMARY KEY, process_name TEXT NOT NULL, day_id INTEGER NOT NULL); CREATE INDEX IF NOT EXISTS idx_time_entries_start_time ON time_entries(start_time); CREATE INDEX IF NOT EXISTS idx_screenshots_timestamp ON screenshots(timestamp); CREATE INDEX IF NOT EXISTS idx_window_activity_timestamp ON window_activity(timestamp);";

impl Store {
    /// Opens a fresh in-memory database and creates the timeline schema.
    ///
    /// Relies on `rusqlite::Connection::open_in_memory` and `execute_batch`:
    /// a new in-memory database holds no rows in any table.
    #[verifier::external_body]
    pub fn open_in_memory() -> (r: AppResult<Store>)
        ensures
            r matches Ok(s) ==> {
                &&& time_rows(s.conn) == Map::<int, TimeRow>::empty()
                &&& category_rows(s.conn) == Map::<int, CategoryRow>::empty()
                &&& window_rows(s.conn) == Multiset::<WindowRow>::empty()
                &&& screenshot_rows(s.conn) == Multiset::<ScreenshotRow>::empty()
                &&& idle_rows(s.conn) == Map::<int, IdleRow>::empty()
                &&& process_rows(s.conn) == Map::<int, Seq<char>>::empty()
            },
    {
        let res: rusqlite::Result<rusqlite::Connection> = (|| {
            let conn = rusqlite::Connection::open_in_memory()?;
            conn.execute_batch(SCHEMA_SQL)?;
            Ok(conn)
        })();
        match res {
            Ok(conn) => Ok(Store { conn }),
            Err(e) => Err(AppError::Storage(format!("failed to open in-memory store: {}", e))),
        }
    }

    /// Opens (or creates) the database file at `path`, creates any missing
    /// tables, and enables write-ahead journaling with a 5 s busy timeout.
    ///
    /// Relies on `rusqlite::Connection::open`, `execute_batch`,
    /// `pragma_update` and `busy_timeout`. The file may already hold data,
    /// so nothing is promised about the table contents.
    #[verifier::external_body]
    pub fn open_at_path(path: &str) -> (r: AppResult<Store>) {
        let res: rusqlite::Result<rusqlite::Connection> = (|| {
            let conn = rusqlite::Connection::open(path)?;
            conn.execute_batch(SCHEMA_SQL)?;
            conn.pragma_update(None, "journal_mode", "WAL")?;
            conn.busy_timeout(std::time::Duration::from_secs(5))?;
            Ok(conn)
        })();
        res.map(|conn| Store { conn }).map_err(
            |e| AppError::Storage(format!("failed to open store at path: {}", e)),
        )
    }
}

/// Reads every time entry, ordered by ascending start time.
///
/// Relies on `rusqlite`'s `prepare`/`query_map` and SQLite's
/// `SELECT ... ORDER BY`: the result holds exactly the stored rows in
/// ascending start-time order.
#[verifier::external_body]
pub(crate) fn db_fetch_time_entries(s: &Store) -> (r: AppResult<Vec<TimeEntry>>)
    ensures
        r matches Ok(v) ==> rows_match_time(v@, time_rows(s.conn)) && sorted_by_start(v@),
        r is Err ==> r matches Err(AppError::Storage(_)),
{
    let res: rusqlite::Result<Vec<TimeEntry>> = (|| {
        let mut st = s.conn.prepare(
            "SELECT id, start_time, end_time, label, color, category_id FROM time_entries ORDER BY start_time",
        )?;
        let rows = st.query_map(
            (),
            |row| Ok(TimeEntry {
                id: row.get(0)?, start_time: row.get(1)?, end_time: row.get(2)?,
                label: row.get(3)?, color: row.get(4)?, category_id: row.get(5)?,
            }),
        )?;
        rows.collect()
    })();
    res.map_err(|e| AppError::Storage(format!("failed to read time entries: {}", e)))
}

/// Inserts one time entry row and returns the id SQLite assigned to it.
///
/// Relies on `rusqlite::Connection::execute` (SQL `INSERT`) and
/// `last_insert_rowid`: on success the table gains exactly this row under a
/// fresh positive id; a failed statement changes nothing.
#[verifier::external_body]
pub(crate) fn db_insert_time_entry(
    s: &mut Store,
    start: i64,
    end: i64,
    label: &String,
    color: &Option<String>,
    category_id: Option<i64>,
) -> (r: AppResult<i64>)
    ensures
        r matches Ok(id) ==> {
            &&& id > 0
            &&& !time_rows(old(s).conn).dom().contains(id as int)
            &&& time_rows(final(s).conn) == time_rows(old(s).conn).insert(
                id as int,
                (start as int, end as int, label@, crate::types::opt_str_view(*color),
                crate::types::opt_int_view(category_id)),
            )
            &&& same_category_table(*old(s), *final(s))
            &&& same_window_table(*old(s), *final(s))
            &&& same_screenshot_table(*old(s), *final(s))
            &&& same_idle_table(*old(s), *final(s))
            &&& same_process_table(*old(s), *final(s))
        },
        r is Err ==> (r matches Err(AppError::Storage(_))) && store_unchanged(*old(s), *final(s)),
{
    let res: rusqlite::Result<i64> = (|| {
        s.conn.execute(
            "INSERT INTO time_entries (start_time, end_time, label, color, category_id) VALUES (?1, ?2, ?3, ?4, ?5)",
            (start, end, label, color, category_id),
        )?;
        Ok(s.conn.last_insert_rowid())
    })();
    res.map_err(|e| AppError::Storage(format!("failed to insert time entry: {}", e)))
}

/// Rewrites every column of the time entry with the given id, returning the
/// number of rows that matched.
///
/// Relies on `rusqlite::Connection::execute` (SQL `UPDATE ... WHERE id = ?`):
/// when the id is stored the row is replaced, otherwise nothing changes; a
/// failed statement changes nothing.
#[verifier::external_body]
pub(crate) fn db_update_time_entry(
    s: &mut Store,
    id: i64,
    start: i64,
    end: i64,
    label: &String,
    color: &Option<String>,
    category_id: Option<i64>,
) -> (r: AppResult<usize>)
    ensures
        r matches Ok(n) ==> {
            &&& same_category_table(*old(s), *final(s))
            &&& same_window_table(*old(s), *final(s))
            &&& same_screenshot_table(*old(s), *final(s))
            &&& same_idle_table(*old(s), *final(s))
            &&& same_process_table(*old(s), *final(s))
            &&& if time_rows(old(s).conn).dom().contains(id as int) {
                n == 1 && time_rows(final(s).conn) == time_rows(old(s).conn).insert(
                    id as int,
                    (start as int, end as int, label@, crate::types::opt_str_view(*color),
                    crate::types::opt_int_view(category_id)),
                )
            } else {
                n == 0 && same_time_table(*old(s), *final(s))
            }
        },
        r is Err ==> (r matches Err(AppError::Storage(_))) && store_unchanged(*old(s), *final(s)),
{
    let res = s.conn.execute(
        "UPDATE time_entries SET start_time = ?2, end_time = ?3, label = ?4, color = ?5, category_id = ?6 WHERE id = ?1",
        (id, start, end, label, color, category_id),
    );
    res.map_err(|e| AppError::Storage(format!("failed to update time entry: {}", e)))
}

/// Deletes the time entry with the given id, returning the number of rows
/// removed.
///
/// Relies on `rusqlite::Connection::execute` (SQL `DELETE ... WHERE id = ?`):
/// exactly the row with this id disappears, if it was stored; a failed
/// statement changes nothing.
#[verifier::external_body]
pub(crate) fn db_delete_time_entry(s: &mut Store, id: i64) -> (r: AppResult<usize>)
    ensures
        r matches Ok(n) ==> {
            &&& same_category_table(*old(s), *final(s))
            &&& same_window_table(*old(s), *final(s))
            &&& same_screenshot_table(*old(s), *final(s))
            &&& same_idle_table(*old(s), *final(s))
            &&& same_process_table(*old(s), *final(s))
            &&& time_rows(final(s).conn) == time_rows(old(s).conn).remove(id as int)
            &&& n == if time_rows(old(s).conn).dom().contains(id as int) {
                1int
            } else {
                0int
            }
        },
        r is Err ==> (r matches Err(AppError::Storage(_))) && store_unchanged(*old(s), *final(s)),
{
    let res = s.conn.execute("DELETE FROM time_entries WHERE id = ?1", (id,));
    res.map_err(|e| AppError::Storage(format!("failed to delete time entry: {}", e)))
}

/// A fetched sequence of window samples carries exactly the bag of stored
/// rows, ordered by ascending timestamp.
pub open spec fn rows_match_window(v: Seq<WindowActivity>, b: Multiset<WindowRow>) -> bool {
    &&& v.map_values(|w: WindowActivity| window_row_of(w)).to_multiset() == b
    &&& forall|i: int| 0 <= i < v.len() ==> b.contains(window_row_of(#[trigger] v[i]))
    &&& forall|row: WindowRow|
        b.contains(row) ==> exists|i: int| 0 <= i < v.len() && window_row_of(#[trigger] v[i]) == row
    &&& forall|i: int, j: int|
        0 <= i < j < v.len() ==> (#[trigger] v[i]).timestamp <= (#[trigger] v[j]).timestamp
}

/// Reads every window-activity sample, ordered by ascending timestamp.
///
/// Relies on `rusqlite`'s `prepare`/`query_map` and SQLite's
/// `SELECT ... ORDER BY`.
#[verifier::external_body]
pub(crate) fn db_fetch_window_rows(s: &Store) -> (r: AppResult<Vec<WindowActivity>>)
    ensures
        r matches Ok(v) ==> rows_match_window(v@, window_rows(s.conn)),
        r is Err ==> r matches Err(AppError::Storage(_)),
{
    let res: rusqlite::Result<Vec<WindowActivity>> = (|| {
        let mut st = s.conn.prepare(
            "SELECT timestamp, window_title, process_name FROM window_activity ORDER BY timestamp",
        )?;
        let rows = st.query_map(
            (),
            |row| Ok(WindowActivity {
                timestamp: row.get(0)?, window_title: row.get(1)?, process_name: row.get(2)?,
            }),
        )?;
        rows.collect()
    })();
    res.map_err(|e| AppError::Storage(format!("failed to read window activity: {}", e)))
}

/// Inserts one window-activity row.
///
/// Relies on `rusqlite::Connection::execute` (SQL `INSERT`): on success the
/// table gains exactly this row; a failed statement changes nothing.
#[verifier::external_body]
pub(crate) fn db_insert_window_row(s: &mut Store, a: &WindowActivity) -> (r: AppResult<()>)
    ensures
        r is Ok ==> {
            &&& window_rows(final(s).conn) == window_rows(old(s).conn).insert(window_row_of(*a))
            &&& same_time_table(*old(s), *final(s))
            &&& same_category_table(*old(s), *final(s))
            &&& same_screenshot_table(*old(s), *final(s))
            &&& same_idle_table(*old(s), *final(s))
            &&& same_process_table(*old(s), *final(s))
        },
        r is Err ==> (r matches Err(AppError::Storage(_))) && store_unchanged(*old(s), *final(s)),
{
    let res = s.conn.execute(
        "INSERT INTO window_activity (timestamp, window_title, process_name) VALUES (?1, ?2, ?3)",
        (a.timestamp, &a.window_title, &a.process_name),
    );
    match res {
        Ok(_) => Ok(()),
        Err(e) => Err(AppError::Storage(format!("failed to insert window activity: {}", e))),
    }
}

/// Inserts a batch of window-activity rows inside one transaction: either
/// every row is persisted or none is.
///
/// Relies on `rusqlite::Connection::unchecked_transaction`, `execute` and
/// `Transaction::commit`; an uncommitted transaction rolls back when
/// dropped, so a failure on any row leaves the table unchanged.
#[verifier::external_body]
pub(crate) fn db_insert_window_rows_batch(s: &mut Store, rows: &Vec<WindowActivity>) -> (r:
    AppResult<()>)
    ensures
        r is Ok ==> {
            &&& window_rows(final(s).conn) == window_rows(old(s).conn).add(
                rows@.map_values(|w: WindowActivity| window_row_of(w)).to_multiset(),
            )
            &&& same_time_table(*old(s), *final(s))
            &&& same_category_table(*old(s), *final(s))
            &&& same_screenshot_table(*old(s), *final(s))
            &&& same_idle_table(*old(s), *final(s))
            &&& same_process_table(*old(s), *final(s))
        },
        r is Err ==> (r matches Err(AppError::Storage(_))) && store_unchanged(*old(s), *final(s)),
{
    let res: rusqlite::Result<()> = (|| {
        let tx = s.conn.unchecked_transaction()?;
        for a in rows.iter() {
            tx.execute(
                "INSERT INTO window_activity (timestamp, window_title, process_name) VALUES (?1, ?2, ?3)",
                (a.timestamp, &a.window_title, &a.process_name),
            )?;
        }
        tx.commit()
    })();
    res.map_err(|e| AppError::Storage(format!("failed to batch insert window activity: {}", e)))
}

/// A fetched sequence of screenshot records carries exactly the bag of
/// stored rows, ordered by ascending timestamp.
pub open spec fn rows_match_screenshot(v: Seq<(i64, String, i64)>, b: Multiset<ScreenshotRow>) -> bool {
    &&& v.map_values(|t: (i64, String, i64)| shot_row_of(t)).to_multiset() == b
    &&& forall|i: int| 0 <= i < v.len() ==> b.contains(shot_row_of(#[trigger] v[i]))
    &&& forall|row: ScreenshotRow|
        b.contains(row) ==> exists|i: int| 0 <= i < v.len() && shot_row_of(#[trigger] v[i]) == row
    &&& forall|i: int, j: int|
        0 <= i < j < v.len() ==> (#[trigger] v[i]).0 <= (#[trigger] v[j]).0
}

/// Reads every screenshot record as `(timestamp, file_path, day_id)`,
/// ordered by ascending timestamp.
///
/// Relies on `rusqlite`'s `prepare`/`query_map` and SQLite's
/// `SELECT ... ORDER BY`.
#[verifier::external_body]
pub(crate) fn db_fetch_screenshot_rows(s: &Store) -> (r: AppResult<Vec<(i64, String, i64)>>)
    ensures
        r matches Ok(v) ==> rows_match_screenshot(v@, screenshot_rows(s.conn)),
        r is Err ==> r matches Err(AppError::Storage(_)),
{
    let res: rusqlite::Result<Vec<(i64, String, i64)>> = (|| {
        let mut st = s.conn.prepare(
            "SELECT timestamp, file_path, day_id FROM screenshots ORDER BY timestamp",
        )?;
        let rows = st.query_map((), |row| Ok((row.get(0)?, row.get(1)?, row.get(2)?)))?;
        rows.collect()
    })();
    res.map_err(|e| AppError::Storage(format!("failed to read screenshots: {}", e)))
}

/// Inserts one screenshot record and returns the rowid SQLite assigned.
///
/// Relies on `rusqlite::Connection::execute` (SQL `INSERT`) and
/// `last_insert_rowid`: on success the table gains exactly this row; a
/// failed statement changes nothing.
#[verifier::external_body]
pub(crate) fn db_insert_screenshot(s: &mut Store, timestamp: i64, file_path: &String, day_id: i64)
    -> (r: AppResult<i64>)
    ensures
        r is Ok ==> {
            &&& screenshot_rows(final(s).conn) == screenshot_rows(old(s).conn).insert(
                (timestamp as int, file_path@, day_id as int),
            )
            &&& same_time_table(*old(s), *final(s))
            &&& same_category_table(*old(s), *final(s))
            &&& same_window_table(*old(s), *final(s))
            &&& same_idle_table(*old(s), *final(s))
            &&& same_process_table(*old(s), *final(s))
        },
        r is Err ==> (r matches Err(AppError::Storage(_))) && store_unchanged(*old(s), *final(s)),
{
    let res: rusqlite::Result<i64> = (|| {
        s.conn.execute(
            "INSERT INTO screenshots (timestamp, file_path, day_id) VALUES (?1, ?2, ?3)",
            (timestamp, file_path, day_id),
        )?;
        Ok(s.conn.last_insert_rowid())
    })();
    res.map_err(|e| AppError::Storage(format!("failed to insert screenshot: {}", e)))
}

/// A fetched sequence of idle periods carries exactly the rows of the
/// `idle_periods` map, with unique ids, ordered by ascending start time.
pub open spec fn rows_match_idle(v: Seq<IdlePeriod>, m: Map<int, IdleRow>) -> bool {
    &&& forall|i: int|
        0 <= i < v.len() ==> m.contains_pair((#[trigger] v[i]).id as int, idle_row_of(v[i]))
    &&& forall|i: int, j: int|
        0 <= i < v.len() && 0 <= j < v.len() && i != j ==> (#[trigger] v[i]).id != (
        #[trigger] v[j]).id
    &&& forall|k: int|
        #[trigger] m.dom().contains(k) ==> exists|i: int|
            0 <= i < v.len() && (#[trigger] v[i]).id as int == k
    &&& forall|i: int, j: int|
        0 <= i < j < v.len() ==> (#[trigger] v[i]).start_time <= (#[trigger] v[j]).start_time
}

/// Reads every idle period, ordered by ascending start time.
///
/// Relies on `rusqlite`'s `prepare`/`query_map` and SQLite's
/// `SELECT ... ORDER BY`.
#[verifier::external_body]
pub(crate) fn db_fetch_idle_rows(s: &Store) -> (r: AppResult<Vec<IdlePeriod>>)
    ensures
        r matches Ok(v) ==> rows_match_idle(v@, idle_rows(s.conn)),
        r is Err ==> r matches Err(AppError::Storage(_)),
{
    let res: rusqlite::Result<Vec<IdlePeriod>> = (|| {
        let mut st = s.conn.prepare(
            "SELECT id, start_time, end_time, resolution FROM idle_periods ORDER BY start_time",
        )?;
        let rows = st.query_map(
            (),
            |row| Ok(IdlePeriod {
                id: row.get(0)?, start_time: row.get(1)?, end_time: row.get(2)?,
                resolution: row.get(3)?,
            }),
        )?;
        rows.collect()
    })();
    res.map_err(|e| AppError::Storage(format!("failed to read idle periods: {}", e)))
}

/// Inserts an unresolved idle period and returns the id SQLite assigned.
///
/// Relies on `rusqlite::Connection::execute` (SQL `INSERT`) and
/// `last_insert_rowid`: on success the table gains exactly this row under a
/// fresh positive id; a failed statement changes nothing.
#[verifier::external_body]
pub(crate) fn db_insert_idle_period(s: &mut Store, start: i64, end: i64) -> (r: AppResult<i64>)
    ensures
        r matches Ok(id) ==> {
            &&& id > 0
            &&& !idle_rows(old(s).conn).dom().contains(id as int)
            &&& idle_rows(final(s).conn) == idle_rows(old(s).conn).insert(
                id as int,
                (start as int, end as int, None),
            )
            &&& same_time_table(*old(s), *final(s))
            &&& same_category_table(*old(s), *final(s))
            &&& same_window_table(*old(s), *final(s))
            &&& same_screenshot_table(*old(s), *final(s))
            &&& same_process_table(*old(s), *final(s))
        },
        r is Err ==> (r matches Err(AppError::Storage(_))) && store_unchanged(*old(s), *final(s)),
{
    let res: rusqlite::Result<i64> = (|| {
        s.conn.execute(
            "INSERT INTO idle_periods (start_time, end_time, resolution) VALUES (?1, ?2, NULL)",
            (start, end),
        )?;
        Ok(s.conn.last_insert_rowid())
    })();
    res.map_err(|e| AppError::Storage(format!("failed to insert idle period: {}", e)))
}

/// Overwrites the resolution of the idle period with the given id,
/// returning the number of rows that matched.
///
/// Relies on `rusqlite::Connection::execute` (SQL `UPDATE ... WHERE id = ?`).
#[verifier::external_body]
pub(crate) fn db_update_idle_resolution(s: &mut Store, id: i64, resolution: &String) -> (r:
    AppResult<usize>)
    ensures
        r matches Ok(n) ==> {
            &&& same_time_table(*old(s), *final(s))
            &&& same_category_table(*old(s), *final(s))
            &&& same_window_table(*old(s), *final(s))
            &&& same_screenshot_table(*old(s), *final(s))
            &&& same_process_table(*old(s), *final(s))
            &&& if idle_rows(old(s).conn).dom().contains(id as int) {
                n == 1 && idle_rows(final(s).conn) == idle_rows(old(s).conn).insert(
                    id as int,
                    (idle_rows(old(s).conn)[id as int].0, idle_rows(old(s).conn)[id as int].1,
                    Some(resolution@)),
                )
            } else {
                n == 0 && same_idle_table(*old(s), *final(s))
            }
        },
        r is Err ==> (r matches Err(AppError::Storage(_))) && store_unchanged(*old(s), *final(s)),
{
    let res = s.conn.execute(
        "UPDATE idle_periods SET resolution = ?2 WHERE id = ?1",
        (id, resolution),
    );
    res.map_err(|e| AppError::Storage(format!("failed to update idle period: {}", e)))
}

/// A fetched sequence of categories carries exactly the rows of the
/// `categories` map, with unique ids.
pub open spec fn rows_match_category(v: Seq<Category>, m: Map<int, CategoryRow>) -> bool {
    &&& forall|i: int|
        0 <= i < v.len() ==> m.contains_pair((#[trigger] v[i]).id as int, category_row_of(v[i]))
    &&& forall|i: int, j: int|
        0 <= i < v.len() && 0 <= j < v.len() && i != j ==> (#[trigger] v[i]).id != (
        #[trigger] v[j]).id
    &&& forall|k: int|
        #[trigger] m.dom().contains(k) ==> exists|i: int|
            0 <= i < v.len() && (#[trigger] v[i]).id as int == k
}

/// Reads every category, ordered by name.
///
/// Relies on `rusqlite`'s `prepare`/`query_map` and SQLite's
/// `SELECT ... ORDER BY`. The name order is SQLite's byte order and is not
/// restated here.
#[verifier::external_body]
pub(crate) fn db_fetch_categories(s: &Store) -> (r: AppResult<Vec<Category>>)
    ensures
        r matches Ok(v) ==> rows_match_category(v@, category_rows(s.conn)),
        r is Err ==> r matches Err(AppError::Storage(_)),
{
    let res: rusqlite::Result<Vec<Category>> = (|| {
        let mut st = s.conn.prepare("SELECT id, name, color FROM categories ORDER BY name")?;
        let rows = st.query_map(
            (),
            |row| Ok(Category { id: row.get(0)?, name: row.get(1)?, color: row.get(2)? }),
        )?;
        rows.collect()
    })();
    res.map_err(|e| AppError::Storage(format!("failed to read categories: {}", e)))
}

/// Inserts one category row and returns the id SQLite assigned.
///
/// Relies on `rusqlite::Connection::execute` (SQL `INSERT`) and
/// `last_insert_rowid`.
#[verifier::external_body]
pub(crate) fn db_insert_category(s: &mut Store, name: &String, color: &Option<String>) -> (r:
    AppResult<i64>)
    ensures
        r matches Ok(id) ==> {
            &&& id > 0
            &&& !category_rows(old(s).conn).dom().contains(id as int)
            &&& category_rows(final(s).conn) == category_rows(old(s).conn).insert(
                id as int,
                (name@, crate::types::opt_str_view(*color)),
            )
            &&& same_time_table(*old(s), *final(s))
            &&& same_window_table(*old(s), *final(s))
            &&& same_screenshot_table(*old(s), *final(s))
            &&& same_idle_table(*old(s), *final(s))
            &&& same_process_table(*old(s), *final(s))
        },
        r is Err ==> (r matches Err(AppError::Storage(_))) && store_unchanged(*old(s), *final(s)),
{
    let res: rusqlite::Result<i64> = (|| {
        s.conn.execute("INSERT INTO categories (name, color) VALUES (?1, ?2)", (name, color))?;
        Ok(s.conn.last_insert_rowid())
    })();
    res.map_err(|e| AppError::Storage(format!("failed to insert category: {}", e)))
}

/// Rewrites the name and color of the category with the given id,
/// returning the number of rows that matched.
///
/// Relies on `rusqlite::Connection::execute` (SQL `UPDATE ... WHERE id = ?`).
#[verifier::external_body]
pub(crate) fn db_update_category(s: &mut Store, id: i64, name: &String, color: &Option<String>)
    -> (r: AppResult<usize>)
    ensures
        r matches Ok(n) ==> {
            &&& same_time_table(*old(s), *final(s))
            &&& same_window_table(*old(s), *final(s))
            &&& same_screenshot_table(*old(s), *final(s))
            &&& same_idle_table(*old(s), *final(s))
            &&& same_process_table(*old(s), *final(s))
            &&& if category_rows(old(s).conn).dom().contains(id as int) {
                n == 1 && category_rows(final(s).conn) == category_rows(old(s).conn).insert(
                    id as int,
                    (name@, crate::types::opt_str_view(*color)),
                )
            } else {
                n == 0 && same_category_table(*old(s), *final(s))
            }
        },
        r is Err ==> (r matches Err(AppError::Storage(_))) && store_unchanged(*old(s), *final(s)),
{
    let res = s.conn.execute(
        "UPDATE categories SET name = ?2, color = ?3 WHERE id = ?1",
        (id, name, color),
    );
    res.map_err(|e| AppError::Storage(format!("failed to update category: {}", e)))
}

/// Deletes the category with the given id, returning the number of rows
/// removed.
///
/// Relies on `rusqlite::Connection::execute` (SQL `DELETE ... WHERE id = ?`).
#[verifier::external_body]
pub(crate) fn db_delete_category(s: &mut Store, id: i64) -> (r: AppResult<usize>)
    ensures
        r matches Ok(n) ==> {
            &&& same_time_table(*old(s), *final(s))
            &&& same_window_table(*old(s), *final(s))
            &&& same_screenshot_table(*old(s), *final(s))
            &&& same_idle_table(*old(s), *final(s))
            &&& same_process_table(*old(s), *final(s))
            &&& category_rows(final(s).conn) == category_rows(old(s).conn).remove(id as int)
            &&& n == if category_rows(old(s).conn).dom().contains(id as int) {
                1int
            } else {
                0int
            }
        },
        r is Err ==> (r matches Err(AppError::Storage(_))) && store_unchanged(*old(s), *final(s)),
{
    let res = s.conn.execute("DELETE FROM categories WHERE id = ?1", (id,));
    res.map_err(|e| AppError::Storage(format!("failed to delete category: {}", e)))
}

/// The time row `r`, with its category reference cleared when it points at
/// `cat`.
pub open spec fn row_without_category(r: TimeRow, cat: int) -> TimeRow {
    (r.0, r.1, r.2, r.3, if r.4 == Some(cat) {
        None
    } else {
        r.4
    })
}

/// Clears the category reference of every time entry that points at the
/// given category.
///
/// Relies on `rusqlite::Connection::execute`
/// (SQL `UPDATE ... SET category_id = NULL WHERE category_id = ?`).
#[verifier::external_body]
pub(crate) fn db_clear_category_refs(s: &mut Store, cat_id: i64) -> (r: AppResult<()>)
    ensures
        r is Ok ==> {
            &&& same_category_table(*old(s), *final(s))
            &&& same_window_table(*old(s), *final(s))
            &&& same_screenshot_table(*old(s), *final(s))
            &&& same_idle_table(*old(s), *final(s))
            &&& same_process_table(*old(s), *final(s))
            &&& time_rows(final(s).conn).dom() == time_rows(old(s).conn).dom()
            &&& forall|k: int|
                #[trigger] time_rows(old(s).conn).dom().contains(k) ==> time_rows(final(s).conn)[k]
                    == row_without_category(time_rows(old(s).conn)[k], cat_id as int)
        },
        r is Err ==> (r matches Err(AppError::Storage(_))) && store_unchanged(*old(s), *final(s)),
{
    let res = s.conn.execute(
        "UPDATE time_entries SET category_id = NULL WHERE category_id = ?1",
        (cat_id,),
    );
    match res {
        Ok(_) => Ok(()),
        Err(e) => Err(AppError::Storage(format!("failed to clear category references: {}", e))),
    }
}

/// A fetched sequence of process samples carries exactly the rows of the
/// `process_samples` map, keyed by timestamp, ordered by ascending
/// timestamp.
pub open spec fn rows_match_process(v: Seq<ProcessSample>, m: Map<int, Seq<char>>) -> bool {
    &&& forall|i: int|
        0 <= i < v.len() ==> m.contains_pair(
            (#[trigger] v[i]).timestamp as int,
            v[i].process_name@,
        )
    &&& forall|i: int, j: int|
        0 <= i < v.len() && 0 <= j < v.len() && i != j ==> (#[trigger] v[i]).timestamp != (
        #[trigger] v[j]).timestamp
    &&& forall|k: int|
        #[trigger] m.dom().contains(k) ==> exists|i: int|
            0 <= i < v.len() && (#[trigger] v[i]).timestamp as int == k
    &&& forall|i: int, j: int|
        0 <= i < j < v.len() ==> (#[trigger] v[i]).timestamp <= (#[trigger] v[j]).timestamp
}

/// Reads every process sample, ordered by ascending timestamp.
///
/// Relies on `rusqlite`'s `prepare`/`query_map` and SQLite's
/// `SELECT ... ORDER BY`; the timestamp is the table's primary key.
#[verifier::external_body]
pub(crate) fn db_fetch_process_samples(s: &Store) -> (r: AppResult<Vec<ProcessSample>>)
    ensures
        r matches Ok(v) ==> rows_match_process(v@, process_rows(s.conn)),
        r is Err ==> r matches Err(AppError::Storage(_)),
{
    let res: rusqlite::Result<Vec<ProcessSample>> = (|| {
        let mut st = s.conn.prepare(
            "SELECT timestamp, process_name FROM process_samples ORDER BY timestamp",
        )?;
        let rows = st.query_map(
            (),
            |row| Ok(ProcessSample { timestamp: row.get(0)?, process_name: row.get(1)? }),
        )?;
        rows.collect()
    })();
    res.map_err(|e| AppError::Storage(format!("failed to read process samples: {}", e)))
}

/// Writes one process sample, overwriting any sample stored under the same
/// timestamp.
///
/// Relies on `rusqlite::Connection::execute` (SQL `INSERT OR REPLACE` on
/// the timestamp primary key).
#[verifier::external_body]
pub(crate) fn db_upsert_process_sample(
    s: &mut Store,
    timestamp: i64,
    process_name: &String,
    day_id: i64,
) -> (r: AppResult<()>)
    ensures
        r is Ok ==> {
            &&& process_rows(final(s).conn) == process_rows(old(s).conn).insert(
                timestamp as int,
                process_name@,
            )
            &&& same_time_table(*old(s), *final(s))
            &&& same_category_table(*old(s), *final(s))
            &&& same_window_table(*old(s), *final(s))
            &&& same_screenshot_table(*old(s), *final(s))
            &&& same_idle_table(*old(s), *final(s))
        },
        r is Err ==> (r matches Err(AppError::Storage(_))) && store_unchanged(*old(s), *final(s)),
{
    let res = s.conn.execute(
        "INSERT OR REPLACE INTO process_samples (timestamp, process_name, day_id) VALUES (?1, ?2, ?3)",
        (timestamp, process_name, day_id),
    );
    match res {
        Ok(_) => Ok(()),
        Err(e) => Err(AppError::Storage(format!("failed to insert process sample: {}", e))),
    }
}

/// Deletes every process sample older than the cutoff, returning how many
/// rows were removed.
///
/// Relies on `rusqlite::Connection::execute`
/// (SQL `DELETE ... WHERE timestamp < ?`): afterwards exactly the samples
/// at or past the cutoff remain, and the returned count is SQLite's
/// changed-row count, the number of rows the table lost. A table holds
/// finitely many rows, so the keys before the call form a finite set.
#[verifier::external_body]
pub(crate) fn db_delete_process_samples_before(s: &mut Store, cutoff: i64) -> (r: AppResult<usize>)
    ensures
        r matches Ok(n) ==> {
            &&& process_rows(final(s).conn) == process_rows(old(s).conn).restrict(
                Set::new(|k: int| k >= cutoff as int),
            )
            &&& process_rows(old(s).conn).dom().finite()
            &&& n + process_rows(final(s).conn).dom().len() == process_rows(old(s).conn).dom().len()
            &&& same_time_table(*old(s), *final(s))
            &&& same_category_table(*old(s), *final(s))
            &&& same_window_table(*old(s), *final(s))
            &&& same_screenshot_table(*old(s), *final(s))
            &&& same_idle_table(*old(s), *final(s))
        },
        r is Err ==> (r matches Err(AppError::Storage(_))) && store_unchanged(*old(s), *final(s)),
{
    let res = s.conn.execute("DELETE FROM process_samples WHERE timestamp < ?1", (cutoff,));
    res.map_err(|e| AppError::Storage(format!("failed to delete old process samples: {}", e)))
}

} // verus!
