//! The interval-consistent heart of the timeline store: creation, partial
//! update, deletion and range queries of labeled time entries, with overlap
//! checking proved against the stored rows.

use vstd::prelude::*;

use crate::db::{
    Store, db_delete_time_entry, db_fetch_time_entries, db_insert_time_entry, db_update_time_entry,
    rows_match_time, same_category_table, same_idle_table, same_process_table,
    same_screenshot_table, same_time_table, same_window_table, sorted_by_start, store_unchanged,
    time_rows,
};
use crate::errors::{AppError, AppResult};
use crate::intervals::{intervals_overlap, overlaps};
use crate::types::{TimeEntry, TimeEntryInput, TimeEntryUpdate, TimeRow, opt_int_view,
    opt_str_view, time_row_of_input};

verus! {

/// A character the store treats as trimmable whitespace.
pub open spec fn is_trim_space(c: char) -> bool {
    c == ' ' || c == '\t' || c == '\n' || c == '\r'
}

/// A label is blank when every character of it is trimmable whitespace;
/// such a label is rejected.
pub open spec fn label_blank(s: Seq<char>) -> bool {
    forall|i: int| 0 <= i < s.len() ==> is_trim_space(#[trigger] s[i])
}

/// Whether the text consists only of trimmable whitespace.
pub fn text_is_blank(s: &str) -> (r: bool)
    ensures
        r == label_blank(s@),
{
    let n = s.unicode_len();
    let mut i: usize = 0;
    while i < n
        invariant
            i <= n,
            n == s@.len(),
            forall|j: int| 0 <= j < i ==> is_trim_space(#[trigger] s@[j]),
        decreases n - i,
    {
        let c = s.get_char(i);
        if !(c == ' ' || c == '\t' || c == '\n' || c == '\r') {
            return false;
        }
        i += 1;
    }
    true
}

/// A well-formed entry input: a forward interval and a non-blank label.
pub open spec fn valid_entry_shape(start: int, end: int, label: Seq<char>) -> bool {
    end > start && !label_blank(label)
}

/// The interval `[start, end)` overlaps some stored row.
pub open spec fn conflicts_with_any(m: Map<int, TimeRow>, start: int, end: int) -> bool {
    exists|k: int| #[trigger] m.dom().contains(k) && overlaps(start, end, m[k].0, m[k].1)
}

/// The interval `[start, end)` overlaps some stored row other than `id`.
pub open spec fn conflicts_with_other(m: Map<int, TimeRow>, id: int, start: int, end: int) -> bool {
    exists|k: int|
        #[trigger] m.dom().contains(k) && k != id && overlaps(start, end, m[k].0, m[k].1)
}

/// No two stored rows have overlapping intervals.
pub open spec fn no_overlapping_rows(m: Map<int, TimeRow>) -> bool {
    forall|k1: int, k2: int|
        #[trigger] m.dom().contains(k1) && #[trigger] m.dom().contains(k2) && k1 != k2
            ==> !overlaps(m[k1].0, m[k1].1, m[k2].0, m[k2].1)
}

/// Successful creations keep the store overlap-free: inserting a fresh row
/// whose interval overlaps no stored row preserves pairwise disjointness of
/// all stored intervals.
pub proof fn lemma_insert_disjoint_preserves_no_overlap(
    m: Map<int, TimeRow>,
    id: int,
    row: TimeRow,
)
    requires
        no_overlapping_rows(m),
        !m.dom().contains(id),
        !conflicts_with_any(m, row.0, row.1),
    ensures
        no_overlapping_rows(m.insert(id, row)),
{
    let m2 = m.insert(id, row);
    assert forall|k1: int, k2: int|
        #[trigger] m2.dom().contains(k1) && #[trigger] m2.dom().contains(k2) && k1 != k2
            implies !overlaps(m2[k1].0, m2[k1].1, m2[k2].0, m2[k2].1) by {
        if k1 == id {
            assert(m.dom().contains(k2));
            assert(!overlaps(row.0, row.1, m[k2].0, m[k2].1));
        } else if k2 == id {
            assert(m.dom().contains(k1));
            assert(!overlaps(row.0, row.1, m[k1].0, m[k1].1));
        } else {
            assert(m.dom().contains(k1) && m.dom().contains(k2));
        }
    }
}

/// `v` holds exactly the stored entries whose start time lies in
/// `[lo, hi)`, with unique ids, ordered by ascending start time.
pub open spec fn entries_of_range(v: Seq<TimeEntry>, m: Map<int, TimeRow>, lo: int, hi: int) -> bool {
    &&& forall|i: int|
        0 <= i < v.len() ==> m.contains_pair(
            (#[trigger] v[i]).id as int,
            crate::types::time_row_of_entry(v[i]),
        ) && lo <= v[i].start_time < hi
    &&& forall|i: int, j: int|
        0 <= i < v.len() && 0 <= j < v.len() && i != j ==> (#[trigger] v[i]).id != (
        #[trigger] v[j]).id
    &&& forall|k: int|
        #[trigger] m.dom().contains(k) && lo <= m[k].0 < hi ==> exists|i: int|
            0 <= i < v.len() && (#[trigger] v[i]).id as int == k
    &&& sorted_by_start(v)
}

/// Creates a time entry after validating its shape and checking its
/// interval against every stored entry.
///
/// Fails with `Validation` exactly on a malformed input (inverted interval
/// or blank label); fails with `Conflict` only when the interval overlaps a
/// stored entry; never reports `NotFound`. Any failure leaves the store
/// unchanged.
pub fn create_time_entry_impl(s: &mut Store, entry: &TimeEntryInput) -> (r: AppResult<TimeEntry>)
    ensures
        r matches Ok(e) ==> {
            &&& valid_entry_shape(entry.start_time as int, entry.end_time as int, entry.label@)
            &&& !conflicts_with_any(
                time_rows(old(s).conn),
                entry.start_time as int,
                entry.end_time as int,
            )
            &&& e.id > 0
            &&& !time_rows(old(s).conn).dom().contains(e.id as int)
            &&& e.start_time == entry.start_time
            &&& e.end_time == entry.end_time
            &&& e.label@ == entry.label@
            &&& opt_str_view(e.color) == opt_str_view(entry.color)
            &&& e.category_id == entry.category_id
            &&& time_rows(final(s).conn) == time_rows(old(s).conn).insert(
                e.id as int,
                time_row_of_input(*entry),
            )
            &&& same_category_table(*old(s), *final(s))
            &&& same_window_table(*old(s), *final(s))
            &&& same_screenshot_table(*old(s), *final(s))
            &&& same_idle_table(*old(s), *final(s))
            &&& same_process_table(*old(s), *final(s))
        },
        !valid_entry_shape(entry.start_time as int, entry.end_time as int, entry.label@)
            ==> r matches Err(AppError::Validation(_)),
        r matches Err(AppError::Validation(_)) ==> !valid_entry_shape(
            entry.start_time as int,
            entry.end_time as int,
            entry.label@,
        ),
        r matches Err(AppError::Conflict(_)) ==> conflicts_with_any(
            time_rows(old(s).conn),
            entry.start_time as int,
            entry.end_time as int,
        ),
        !(r matches Err(AppError::NotFound(_))),
        r is Err ==> store_unchanged(*old(s), *final(s)),
{
    if entry.end_time <= entry.start_time {
        return Err(
            AppError::Validation(String::from_str("end_time must be greater than start_time")),
        );
    }
    if text_is_blank(entry.label.as_str()) {
        return Err(AppError::Validation(String::from_str("Label cannot be empty")));
    }
    let existing = match db_fetch_time_entries(s) {
        Ok(v) => v,
        Err(e) => {
            return Err(e);
        },
    };
    let mut i: usize = 0;
    while i < existing.len()
        invariant
            i <= existing@.len(),
            s.conn == old(s).conn,
            entry.end_time > entry.start_time,
            !label_blank(entry.label@),
            rows_match_time(existing@, time_rows(s.conn)),
            forall|j: int|
                0 <= j < i ==> !overlaps(
                    entry.start_time as int,
                    entry.end_time as int,
                    (#[trigger] existing@[j]).start_time as int,
                    existing@[j].end_time as int,
                ),
        decreases existing@.len() - i,
    {
        if intervals_overlap(
            entry.start_time,
            entry.end_time,
            existing[i].start_time,
            existing[i].end_time,
        ) {
            return Err(AppError::Conflict(String::from_str(
                "Time entry overlaps with an existing entry",
            )));
        }
        i += 1;
    }
    proof {
        let m = time_rows(s.conn);
        assert forall|k: int| #[trigger]
            m.dom().contains(k) implies !overlaps(
            entry.start_time as int,
            entry.end_time as int,
            m[k].0,
            m[k].1,
        ) by {
            let wi = choose|wi: int| 0 <= wi < existing@.len() && (#[trigger] existing@[wi]).id as int == k;
            assert(m.contains_pair(existing@[wi].id as int, crate::types::time_row_of_entry(existing@[wi])));
        }
    }
    let id = match db_insert_time_entry(
        s,
        entry.start_time,
        entry.end_time,
        &entry.label,
        &entry.color,
        entry.category_id,
    ) {
        Ok(id) => id,
        Err(e) => {
            return Err(e);
        },
    };
    Ok(
        TimeEntry {
            id,
            start_time: entry.start_time,
            end_time: entry.end_time,
            label: entry.label.clone(),
            color: clone_opt_string(&entry.color),
            category_id: entry.category_id,
        },
    )
}

/// Clones an optional string, keeping its characters.
pub fn clone_opt_string(o: &Option<String>) -> (r: Option<String>)
    ensures
        opt_str_view(r) == opt_str_view(*o),
{
    match o {
        Some(v) => Some(v.clone()),
        None => None,
    }
}

/// An update carries no field at all.
pub open spec fn no_update_fields(u: TimeEntryUpdate) -> bool {
    &&& u.start_time is None
    &&& u.end_time is None
    &&& u.label is None
    &&& u.color is None
    &&& u.category_id is None
}

/// An update moves at least one interval boundary.
pub open spec fn boundary_changed(u: TimeEntryUpdate) -> bool {
    u.start_time is Some || u.end_time is Some
}

/// The row that results from merging the provided update fields over a
/// stored row.
pub open spec fn merged_row(u: TimeEntryUpdate, row: TimeRow) -> TimeRow {
    (
        match u.start_time {
            Some(v) => v as int,
            None => row.0,
        },
        match u.end_time {
            Some(v) => v as int,
            None => row.1,
        },
        match u.label {
            Some(l) => l@,
            None => row.2,
        },
        match u.color {
            Some(c) => Some(c@),
            None => row.3,
        },
        match u.category_id {
            Some(c) => Some(c as int),
            None => row.4,
        },
    )
}

/// Merges the provided fields of an update over the stored entry with the
/// given id, re-validating the interval and re-checking overlap against
/// every other stored entry whenever a boundary moves.
///
/// Fails with `NotFound` when the id is not stored; with `Validation` when
/// the merged interval is inverted, a provided label is blank, or no field
/// was provided; with `Conflict` only when the merged interval overlaps
/// another stored entry. Any failure leaves the store unchanged.
pub fn update_time_entry_impl(s: &mut Store, id: i64, updates: &TimeEntryUpdate) -> (r:
    AppResult<TimeEntry>)
    ensures
        r matches Err(AppError::NotFound(_)) ==> !time_rows(old(s).conn).dom().contains(id as int),
        !time_rows(old(s).conn).dom().contains(id as int) ==> !(r is Ok),
        r matches Ok(e) ==> {
            let m = time_rows(old(s).conn);
            let nrow = merged_row(*updates, m[id as int]);
            &&& m.dom().contains(id as int)
            &&& nrow.0 < nrow.1
            &&& !(updates.label matches Some(l) && label_blank(l@))
            &&& !no_update_fields(*updates)
            &&& (boundary_changed(*updates) ==> !conflicts_with_other(m, id as int, nrow.0, nrow.1))
            &&& e.id == id
            &&& crate::types::time_row_of_entry(e) == nrow
            &&& time_rows(final(s).conn) == m.insert(id as int, nrow)
            &&& same_category_table(*old(s), *final(s))
            &&& same_window_table(*old(s), *final(s))
            &&& same_screenshot_table(*old(s), *final(s))
            &&& same_idle_table(*old(s), *final(s))
            &&& same_process_table(*old(s), *final(s))
        },
        r matches Err(AppError::Validation(_)) ==> {
            let m = time_rows(old(s).conn);
            let nrow = merged_row(*updates, m[id as int]);
            &&& m.dom().contains(id as int)
            &&& (nrow.1 <= nrow.0 || (updates.label matches Some(l) && label_blank(l@))
                || no_update_fields(*updates))
        },
        r matches Err(AppError::Conflict(_)) ==> {
            let m = time_rows(old(s).conn);
            let nrow = merged_row(*updates, m[id as int]);
            &&& m.dom().contains(id as int)
            &&& boundary_changed(*updates)
            &&& nrow.0 < nrow.1
            &&& conflicts_with_other(m, id as int, nrow.0, nrow.1)
        },
        r is Err ==> store_unchanged(*old(s), *final(s)),
{
    let existing = match db_fetch_time_entries(s) {
        Ok(v) => v,
        Err(e) => {
            return Err(e);
        },
    };
    let ghost m = time_rows(s.conn);
    let mut found: Option<usize> = None;
    let mut j: usize = 0;
    while j < existing.len()
        invariant
            j <= existing@.len(),
            s.conn == old(s).conn,
            m == time_rows(s.conn),
            rows_match_time(existing@, m),
            found is None ==> forall|l: int| 0 <= l < j ==> (#[trigger] existing@[l]).id != id,
            found matches Some(fi) ==> fi < existing@.len() && existing@[fi as int].id == id,
        decreases existing@.len() - j,
    {
        if found.is_none() && existing[j].id == id {
            found = Some(j);
        }
        j += 1;
    }
    let fi = match found {
        Some(fi) => fi,
        None => {
            proof {
                if m.dom().contains(id as int) {
                    let wi = choose|wi: int|
                        0 <= wi < existing@.len() && (#[trigger] existing@[wi]).id as int
                            == id as int;
                    assert(existing@[wi].id != id);
                    assert(false);
                }
            }
            return Err(AppError::NotFound(String::from_str("Time entry not found")));
        },
    };
    proof {
        assert(m.contains_pair(
            existing@[fi as int].id as int,
            crate::types::time_row_of_entry(existing@[fi as int]),
        ));
    }
    let next_start = match updates.start_time {
        Some(v) => v,
        None => existing[fi].start_time,
    };
    let next_end = match updates.end_time {
        Some(v) => v,
        None => existing[fi].end_time,
    };
    if next_end <= next_start {
        return Err(
            AppError::Validation(String::from_str("end_time must be greater than start_time")),
        );
    }
    if updates.start_time.is_some() || updates.end_time.is_some() {
        let mut i: usize = 0;
        while i < existing.len()
            invariant
                i <= existing@.len(),
                s.conn == old(s).conn,
                m == time_rows(s.conn),
                rows_match_time(existing@, m),
                m.dom().contains(id as int),
                next_start as int == merged_row(*updates, m[id as int]).0,
                next_end as int == merged_row(*updates, m[id as int]).1,
                next_start < next_end,
                boundary_changed(*updates),
                forall|l: int|
                    0 <= l < i && (#[trigger] existing@[l]).id != id ==> !overlaps(
                        next_start as int,
                        next_end as int,
                        existing@[l].start_time as int,
                        existing@[l].end_time as int,
                    ),
            decreases existing@.len() - i,
        {
            if existing[i].id != id && intervals_overlap(
                next_start,
                next_end,
                existing[i].start_time,
                existing[i].end_time,
            ) {
                return Err(AppError::Conflict(String::from_str(
                    "Time entry overlaps with an existing entry",
                )));
            }
            i += 1;
        }
        proof {
            assert forall|k: int| #[trigger]
                m.dom().contains(k) && k != id as int implies !overlaps(
                next_start as int,
                next_end as int,
                m[k].0,
                m[k].1,
            ) by {
                let wi = choose|wi: int|
                    0 <= wi < existing@.len() && (#[trigger] existing@[wi]).id as int == k;
                assert(m.contains_pair(
                    existing@[wi].id as int,
                    crate::types::time_row_of_entry(existing@[wi]),
                ));
            }
        }
    }
    let new_label = match &updates.label {
        Some(l) => {
            if text_is_blank(l.as_str()) {
                return Err(AppError::Validation(String::from_str("Label cannot be empty")));
            }
            l.clone()
        },
        None => existing[fi].label.clone(),
    };
    let new_color = match &updates.color {
        Some(c) => Some(c.clone()),
        None => clone_opt_string(&existing[fi].color),
    };
    let new_category = match updates.category_id {
        Some(c) => Some(c),
        None => existing[fi].category_id,
    };
    if updates.start_time.is_none() && updates.end_time.is_none() && updates.label.is_none()
        && updates.color.is_none() && updates.category_id.is_none() {
        return Err(AppError::Validation(String::from_str("No updates provided")));
    }
    match db_update_time_entry(s, id, next_start, next_end, &new_label, &new_color, new_category) {
        Ok(_) => Ok(
            TimeEntry {
                id,
                start_time: next_start,
                end_time: next_end,
                label: new_label,
                color: new_color,
                category_id: new_category,
            },
        ),
        Err(e) => Err(e),
    }
}

/// Deletes the entry with the given id.
///
/// Fails with `NotFound` exactly when the id is not stored (and then
/// changes nothing); on success exactly that row disappears.
pub fn delete_time_entry_impl(s: &mut Store, id: i64) -> (r: AppResult<()>)
    ensures
        r is Ok ==> {
            &&& time_rows(old(s).conn).dom().contains(id as int)
            &&& time_rows(final(s).conn) == time_rows(old(s).conn).remove(id as int)
            &&& same_category_table(*old(s), *final(s))
            &&& same_window_table(*old(s), *final(s))
            &&& same_screenshot_table(*old(s), *final(s))
            &&& same_idle_table(*old(s), *final(s))
            &&& same_process_table(*old(s), *final(s))
        },
        r matches Err(AppError::NotFound(_)) ==> !time_rows(old(s).conn).dom().contains(
            id as int,
        ),
        !time_rows(old(s).conn).dom().contains(id as int) ==> !(r is Ok),
        r is Err ==> (r matches Err(AppError::NotFound(_))) || (r matches Err(
            AppError::Storage(_),
        )),
        r is Err ==> store_unchanged(*old(s), *final(s)),
{
    match db_delete_time_entry(s, id) {
        Ok(n) => {
            if n == 0 {
                proof {
                    assert(time_rows(final(s).conn) =~= time_rows(old(s).conn));
                }
                Err(AppError::NotFound(String::from_str("Time entry not found")))
            } else {
                Ok(())
            }
        },
        Err(e) => Err(e),
    }
}

/// Reads the stored entries whose start time lies in `[start_time,
/// end_time)`, ordered by ascending start time.
pub fn get_time_entries_by_range_impl(s: &Store, start_time: i64, end_time: i64) -> (r:
    AppResult<Vec<TimeEntry>>)
    ensures
        r matches Ok(v) ==> entries_of_range(
            v@,
            time_rows(s.conn),
            start_time as int,
            end_time as int,
        ),
        r is Err ==> r matches Err(AppError::Storage(_)),
{
    let existing = match db_fetch_time_entries(s) {
        Ok(v) => v,
        Err(e) => {
            return Err(e);
        },
    };
    let ghost m = time_rows(s.conn);
    let mut out: Vec<TimeEntry> = Vec::new();
    let mut i: usize = 0;
    while i < existing.len()
        invariant
            i <= existing@.len(),
            rows_match_time(existing@, m),
            sorted_by_start(existing@),
            forall|j: int|
                0 <= j < out@.len() ==> exists|l: int|
                    0 <= l < i && entry_like(#[trigger] out@[j], existing@[l]),
            forall|j: int|
                0 <= j < out@.len() ==> m.contains_pair(
                    (#[trigger] out@[j]).id as int,
                    crate::types::time_row_of_entry(out@[j]),
                ) && start_time <= out@[j].start_time < end_time,
            forall|j1: int, j2: int|
                0 <= j1 < out@.len() && 0 <= j2 < out@.len() && j1 != j2 ==> (
                #[trigger] out@[j1]).id != (#[trigger] out@[j2]).id,
            sorted_by_start(out@),
            forall|l: int|
                0 <= l < i && start_time <= (#[trigger] existing@[l]).start_time < end_time
                    ==> exists|j: int|
                    0 <= j < out@.len() && (#[trigger] out@[j]).id == existing@[l].id,
        decreases existing@.len() - i,
    {
        if start_time <= existing[i].start_time && existing[i].start_time < end_time {
            proof {
                assert forall|j: int| 0 <= j < out@.len() implies (#[trigger] out@[j]).id
                    != existing@[i as int].id && out@[j].start_time <= existing@[
                i as int].start_time by {
                    let l = choose|l: int| 0 <= l < i && entry_like(out@[j], existing@[l]);
                }
            }
            let picked = clone_entry(&existing[i]);
            proof {
                assert(entry_like(picked, existing@[i as int]));
                assert(m.contains_pair(
                    existing@[i as int].id as int,
                    crate::types::time_row_of_entry(existing@[i as int]),
                ));
                assert(crate::types::time_row_of_entry(picked) == crate::types::time_row_of_entry(
                    existing@[i as int],
                ));
            }
            let ghost out_before = out@;
            out.push(picked);
            proof {
                assert(out@ == out_before.push(picked));
                assert forall|l: int|
                    0 <= l <= i && start_time <= (#[trigger] existing@[l]).start_time
                        < end_time implies exists|j: int|
                    0 <= j < out@.len() && (#[trigger] out@[j]).id == existing@[l].id by {
                    if l == i {
                        assert(out@[out@.len() - 1].id == existing@[l].id);
                    } else {
                        let j0 = choose|j0: int|
                            0 <= j0 < out_before.len() && (#[trigger] out_before[j0]).id
                                == existing@[l].id;
                        assert(out@[j0].id == existing@[l].id);
                    }
                }
            }
        }
        i += 1;
    }
    Ok(out)
}

/// The two entries carry the same data, character for character.
pub open spec fn entry_like(a: TimeEntry, b: TimeEntry) -> bool {
    &&& a.id == b.id
    &&& a.start_time == b.start_time
    &&& a.end_time == b.end_time
    &&& a.label@ == b.label@
    &&& opt_str_view(a.color) == opt_str_view(b.color)
    &&& a.category_id == b.category_id
}

/// Copies a time entry, field by field.
pub fn clone_entry(e: &TimeEntry) -> (r: TimeEntry)
    ensures
        entry_like(r, *e),
{
    TimeEntry {
        id: e.id,
        start_time: e.start_time,
        end_time: e.end_time,
        label: e.label.clone(),
        color: clone_opt_string(&e.color),
        category_id: e.category_id,
    }
}

/// Reads the stored entries of the day window `[date, date + 86_400_000)`,
/// ordered by ascending start time.
pub fn get_time_entries_impl(s: &Store, date: i64) -> (r: AppResult<Vec<TimeEntry>>)
    requires
        date + 86_400_000 <= i64::MAX,
    ensures
        r matches Ok(v) ==> entries_of_range(
            v@,
            time_rows(s.conn),
            date as int,
            date + 86_400_000,
        ),
        r is Err ==> r matches Err(AppError::Storage(_)),
{
    get_time_entries_by_range_impl(s, date, date + 86_400_000)
}

} // verus!
