//! Export of the stored timeline: a full JSON-ready snapshot of every
//! table, and a CSV rendering of the time entries with optional date
//! bounds.

use vstd::prelude::*;

use crate::db::{
    Store, db_fetch_idle_rows, db_fetch_screenshot_rows, db_fetch_time_entries,
    db_fetch_window_rows, idle_rows, rows_match_idle, rows_match_screenshot, rows_match_time,
    rows_match_window, screenshot_rows, sorted_by_start, time_rows, window_rows,
};
use crate::errors::{AppError, AppResult};
use crate::strutil::dec_i64;
use crate::time_entries::clone_entry;
use crate::types::{
    ExportData, ExportOptions, ScreenshotRef, ScreenshotRow, TimeEntry, TimeRow,
    time_row_of_entry,
};

verus! {

use vstd::multiset::Multiset;

/// `v` lists, ordered by ascending timestamp, one reference per stored
/// screenshot.
pub open spec fn ref_backed(b: Multiset<ScreenshotRow>, r: ScreenshotRef) -> bool {
    exists|row: ScreenshotRow|
        #[trigger] b.contains(row) && row.0 == r.timestamp as int && row.1 == r.file_path@
}

/// `v` lists, ordered by ascending timestamp, one reference per stored
/// screenshot.
pub open spec fn screenshot_refs_match(v: Seq<ScreenshotRef>, b: Multiset<ScreenshotRow>) -> bool {
    &&& forall|i: int| 0 <= i < v.len() ==> ref_backed(b, #[trigger] v[i])
    &&& forall|row: ScreenshotRow|
        #[trigger] b.contains(row) ==> exists|i: int|
            0 <= i < v.len() && ((#[trigger] v[i]).timestamp as int, v[i].file_path@) == (
                row.0,
                row.1,
            )
    &&& forall|i: int, j: int|
        0 <= i < j < v.len() ==> (#[trigger] v[i]).timestamp <= (#[trigger] v[j]).timestamp
}

/// Assembles a full snapshot of the stored timeline: every time entry,
/// screenshot reference, window sample and idle period, each list ordered
/// by its natural key, stamped with the caller's export time.
#[verifier::rlimit(100)]
#[verifier::spinoff_prover]
pub fn export_data_impl(s: &Store, exported_at: String) -> (r: AppResult<ExportData>)
    ensures
        r matches Ok(d) ==> {
            &&& d.version@ == "1.0"@
            &&& d.exported_at@ == exported_at@
            &&& rows_match_time(d.time_entries@, time_rows(s.conn))
            &&& sorted_by_start(d.time_entries@)
            &&& rows_match_window(d.window_activities@, window_rows(s.conn))
            &&& rows_match_idle(d.idle_periods@, idle_rows(s.conn))
            &&& screenshot_refs_match(d.screenshots@, screenshot_rows(s.conn))
        },
        r is Err ==> r matches Err(AppError::Storage(_)),
{
    let time_entries = match db_fetch_time_entries(s) {
        Ok(v) => v,
        Err(e) => {
            return Err(e);
        },
    };
    let shots = match db_fetch_screenshot_rows(s) {
        Ok(v) => v,
        Err(e) => {
            return Err(e);
        },
    };
    let window_activities = match db_fetch_window_rows(s) {
        Ok(v) => v,
        Err(e) => {
            return Err(e);
        },
    };
    let idle_periods = match db_fetch_idle_rows(s) {
        Ok(v) => v,
        Err(e) => {
            return Err(e);
        },
    };
    let screenshots = screenshot_refs_of(&shots);
    proof {
        lemma_refs_match(screenshots@, shots@, screenshot_rows(s.conn));
    }
    Ok(
        ExportData {
            version: String::from_str("1.0"),
            exported_at,
            time_entries,
            screenshots,
            window_activities,
            idle_periods,
        },
    )
}

/// Each reference repeats, position for position, the timestamp and path
/// of the fetched screenshot row.
pub open spec fn refs_mirror_rows(v: Seq<ScreenshotRef>, shots: Seq<(i64, String, i64)>) -> bool {
    &&& v.len() == shots.len()
    &&& forall|j: int|
        0 <= j < v.len() ==> (#[trigger] v[j]).timestamp == shots[j].0 && v[j].file_path@
            == shots[j].1@
}

/// Turns fetched screenshot rows into export references, keeping order,
/// timestamps and paths.
fn screenshot_refs_of(shots: &Vec<(i64, String, i64)>) -> (r: Vec<ScreenshotRef>)
    ensures
        refs_mirror_rows(r@, shots@),
{
    let mut out: Vec<ScreenshotRef> = Vec::new();
    let mut i: usize = 0;
    while i < shots.len()
        invariant
            i <= shots@.len(),
            out@.len() == i,
            forall|j: int|
                0 <= j < i ==> (#[trigger] out@[j]).timestamp == shots@[j].0 && out@[j].file_path@
                    == shots@[j].1@,
        decreases shots@.len() - i,
    {
        out.push(ScreenshotRef { timestamp: shots[i].0, file_path: shots[i].1.clone() });
        i += 1;
    }
    out
}

/// References that mirror the fetched rows list exactly the stored
/// screenshots.
#[verifier::spinoff_prover]
proof fn lemma_refs_match(
    v: Seq<ScreenshotRef>,
    shots: Seq<(i64, String, i64)>,
    b: Multiset<ScreenshotRow>,
)
    requires
        refs_mirror_rows(v, shots),
        rows_match_screenshot(shots, b),
    ensures
        screenshot_refs_match(v, b),
{
    assert forall|j: int| 0 <= j < v.len() implies ref_backed(b, #[trigger] v[j]) by {
        let row = crate::types::shot_row_of(shots[j]);
        assert(b.contains(row));
        assert(row.0 == v[j].timestamp as int && row.1 == v[j].file_path@);
    }
    assert forall|row: ScreenshotRow| #[trigger] b.contains(row) implies exists|j: int|
        0 <= j < v.len() && ((#[trigger] v[j]).timestamp as int, v[j].file_path@) == (
            row.0,
            row.1,
        ) by {
        let l = choose|l: int|
            0 <= l < shots.len() && crate::types::shot_row_of(#[trigger] shots[l]) == row;
        assert(((v[l]).timestamp as int, v[l].file_path@) == (row.0, row.1));
    }
    assert forall|i2: int, j2: int| 0 <= i2 < j2 < v.len() implies (#[trigger] v[i2]).timestamp
        <= (#[trigger] v[j2]).timestamp by {
        assert(shots[i2].0 <= shots[j2].0);
    }
}

/// Whether a time entry falls inside the optional export bounds: at or
/// after the start date, ending at or before the end date.
pub open spec fn in_csv_range(row: TimeRow, start_date: Option<int>, end_date: Option<int>) -> bool {
    &&& (match start_date {
        Some(sd) => row.0 >= sd,
        None => true,
    })
    &&& (match end_date {
        Some(ed) => row.1 <= ed,
        None => true,
    })
}

/// `v` holds exactly the stored entries inside the export bounds, with
/// unique ids, ordered by ascending start time.
pub open spec fn entries_of_export(
    v: Seq<TimeEntry>,
    m: Map<int, TimeRow>,
    start_date: Option<int>,
    end_date: Option<int>,
) -> bool {
    &&& forall|i: int|
        0 <= i < v.len() ==> m.contains_pair(
            (#[trigger] v[i]).id as int,
            time_row_of_entry(v[i]),
        ) && in_csv_range(time_row_of_entry(v[i]), start_date, end_date)
    &&& forall|i: int, j: int|
        0 <= i < v.len() && 0 <= j < v.len() && i != j ==> (#[trigger] v[i]).id != (
        #[trigger] v[j]).id
    &&& forall|k: int|
        #[trigger] m.dom().contains(k) && in_csv_range(m[k], start_date, end_date)
            ==> exists|i: int| 0 <= i < v.len() && (#[trigger] v[i]).id as int == k
    &&& sorted_by_start(v)
}

/// The CSV column header.
pub open spec fn csv_header() -> Seq<char> {
    "id,start_time,end_time,label,color,category_id\n"@
}

/// The CSV line of one time entry.
pub open spec fn csv_line(e: TimeEntry) -> Seq<char> {
    crate::strutil::dec_i64(e.id as int) + seq![','] + crate::strutil::dec_i64(e.start_time as int)
        + seq![','] + crate::strutil::dec_i64(e.end_time as int) + seq![','] + e.label@ + seq![',']
        + (match e.color {
        Some(c) => c@,
        None => Seq::<char>::empty(),
    }) + seq![','] + (match e.category_id {
        Some(c) => crate::strutil::dec_i64(c as int),
        None => Seq::<char>::empty(),
    }) + seq!['\n']
}

/// The first `n` CSV lines of the listed entries.
pub open spec fn csv_body(v: Seq<TimeEntry>, n: int) -> Seq<char>
    decreases n,
{
    if n <= 0 {
        Seq::empty()
    } else {
        csv_body(v, n - 1) + csv_line(v[n - 1])
    }
}

/// Renders, as CSV text, the stored time entries inside the optional date
/// bounds, ordered by ascending start time: a fixed header line, then one
/// line per entry.
pub fn export_to_csv_impl(s: &Store, options: &ExportOptions) -> (r: AppResult<String>)
    ensures
        r matches Ok(text) ==> exists|sel: Seq<TimeEntry>|
            #[trigger] entries_of_export(
                sel,
                time_rows(s.conn),
                crate::types::opt_int_view(options.start_date),
                crate::types::opt_int_view(options.end_date),
            ) && text@ == csv_header() + csv_body(sel, sel.len() as int),
        r is Err ==> r matches Err(AppError::Storage(_)),
{
    let existing = match db_fetch_time_entries(s) {
        Ok(v) => v,
        Err(e) => {
            return Err(e);
        },
    };
    let ghost m = time_rows(s.conn);
    let ghost sd = crate::types::opt_int_view(options.start_date);
    let ghost ed = crate::types::opt_int_view(options.end_date);
    let mut sel: Vec<TimeEntry> = Vec::new();
    let mut i: usize = 0;
    while i < existing.len()
        invariant
            i <= existing@.len(),
            rows_match_time(existing@, m),
            sorted_by_start(existing@),
            sd == crate::types::opt_int_view(options.start_date),
            ed == crate::types::opt_int_view(options.end_date),
            forall|j: int|
                0 <= j < sel@.len() ==> exists|l: int|
                    0 <= l < i && crate::time_entries::entry_like(#[trigger] sel@[j], existing@[l]),
            forall|j: int|
                0 <= j < sel@.len() ==> m.contains_pair(
                    (#[trigger] sel@[j]).id as int,
                    time_row_of_entry(sel@[j]),
                ) && in_csv_range(time_row_of_entry(sel@[j]), sd, ed),
            forall|j1: int, j2: int|
                0 <= j1 < sel@.len() && 0 <= j2 < sel@.len() && j1 != j2 ==> (
                #[trigger] sel@[j1]).id != (#[trigger] sel@[j2]).id,
            sorted_by_start(sel@),
            forall|l: int|
                0 <= l < i && in_csv_range(time_row_of_entry(#[trigger] existing@[l]), sd, ed)
                    ==> exists|j: int|
                    0 <= j < sel@.len() && (#[trigger] sel@[j]).id == existing@[l].id,
        decreases existing@.len() - i,
    {
        let keep_start = match options.start_date {
            Some(v) => existing[i].start_time >= v,
            None => true,
        };
        let keep_end = match options.end_date {
            Some(v) => existing[i].end_time <= v,
            None => true,
        };
        if keep_start && keep_end {
            proof {
                assert forall|j: int| 0 <= j < sel@.len() implies (#[trigger] sel@[j]).id
                    != existing@[i as int].id && sel@[j].start_time <= existing@[
                i as int].start_time by {
                    let l = choose|l: int|
                        0 <= l < i && crate::time_entries::entry_like(sel@[j], #[trigger] existing@[l]);
                }
            }
            let picked = clone_entry(&existing[i]);
            let ghost sel_before = sel@;
            sel.push(picked);
            proof {
                assert(crate::time_entries::entry_like(sel@[sel@.len() - 1], existing@[i as int]));
                assert(m.contains_pair(
                    existing@[i as int].id as int,
                    time_row_of_entry(existing@[i as int]),
                ));
                assert(time_row_of_entry(sel@[sel@.len() - 1]) == time_row_of_entry(
                    existing@[i as int],
                ));
                assert forall|l: int|
                    0 <= l <= i && in_csv_range(
                        time_row_of_entry(#[trigger] existing@[l]),
                        sd,
                        ed,
                    ) implies exists|j: int|
                    0 <= j < sel@.len() && (#[trigger] sel@[j]).id == existing@[l].id by {
                    if l == i {
                        assert(sel@[sel@.len() - 1].id == existing@[l].id);
                    } else {
                        let j0 = choose|j0: int|
                            0 <= j0 < sel_before.len() && (#[trigger] sel_before[j0]).id
                                == existing@[l].id;
                        assert(sel@[j0].id == existing@[l].id);
                    }
                }
            }
        }
        i += 1;
    }
    let mut text = String::from_str("id,start_time,end_time,label,color,category_id\n");
    let mut j: usize = 0;
    while j < sel.len()
        invariant
            j <= sel@.len(),
            text@ == csv_header() + csv_body(sel@, j as int),
        decreases sel@.len() - j,
    {
        proof {
            reveal_strlit(",");
            reveal_strlit("\n");
        }
        text.append(i64_to_dec_str(sel[j].id).as_str());
        text.append(",");
        text.append(i64_to_dec_str(sel[j].start_time).as_str());
        text.append(",");
        text.append(i64_to_dec_str(sel[j].end_time).as_str());
        text.append(",");
        text.append(sel[j].label.as_str());
        text.append(",");
        match &sel[j].color {
            Some(c) => text.append(c.as_str()),
            None => (),
        }
        text.append(",");
        match sel[j].category_id {
            Some(c) => text.append(i64_to_dec_str(c).as_str()),
            None => (),
        }
        text.append("\n");
        proof {
            assert(","@ =~= seq![',']);
            assert("\n"@ =~= seq!['\n']);
            assert(text@ =~= csv_header() + csv_body(sel@, j as int) + csv_line(sel@[j as int]));
            assert(csv_body(sel@, j as int + 1) == csv_body(sel@, j as int) + csv_line(
                sel@[j as int],
            ));
            assert(text@ =~= csv_header() + csv_body(sel@, j as int + 1));
        }
        j += 1;
    }
    proof {
        assert(entries_of_export(sel@, m, sd, ed));
    }
    Ok(text)
}

/// Renders a signed value in decimal.
fn i64_to_dec_str(n: i64) -> (r: String)
    ensures
        r@ == dec_i64(n as int),
{
    crate::strutil::i64_to_dec(n)
}

} // verus!
