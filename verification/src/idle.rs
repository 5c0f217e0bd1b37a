//! Idle periods: the gap-detection state machine, persistence of closed
//! gaps, and the three resolution actions that reconcile a gap against the
//! timeline.

use vstd::prelude::*;

use crate::db::{
    Store, db_fetch_idle_rows, db_fetch_time_entries, db_insert_idle_period,
    db_update_idle_resolution, db_update_time_entry, idle_rows, rows_match_idle, rows_match_time,
    same_category_table, same_idle_table, same_process_table, same_screenshot_table,
    same_time_table, same_window_table, store_unchanged, time_rows,
};
use crate::errors::{AppError, AppResult};
use crate::strutil::texts_equal;
use crate::time_entries::{clone_opt_string, conflicts_with_any, label_blank, valid_entry_shape};
use crate::types::{
    IdlePeriod, IdlePeriodResolution, IdleRow, TimeEntryInput, TimeRow, opt_str_view,
};

verus! {

/// Stores a closed inactivity gap `[start_time, end_time)` with no
/// resolution yet, and returns its fresh id.
pub fn insert_idle_period(s: &mut Store, start_time: i64, end_time: i64) -> (r: AppResult<i64>)
    ensures
        r matches Ok(id) ==> {
            &&& id > 0
            &&& !idle_rows(old(s).conn).dom().contains(id as int)
            &&& idle_rows(final(s).conn) == idle_rows(old(s).conn).insert(
                id as int,
                (start_time as int, end_time as int, None),
            )
            &&& same_time_table(*old(s), *final(s))
            &&& same_category_table(*old(s), *final(s))
            &&& same_window_table(*old(s), *final(s))
            &&& same_screenshot_table(*old(s), *final(s))
            &&& same_process_table(*old(s), *final(s))
        },
        r is Err ==> (r matches Err(AppError::Storage(_))) && store_unchanged(*old(s), *final(s)),
{
    db_insert_idle_period(s, start_time, end_time)
}

/// Overwrites the stored resolution of an idle period. A missing id is
/// silently ignored, as the underlying update then matches no row.
pub fn update_idle_period_resolution(s: &mut Store, id: i64, resolution: &str) -> (r: AppResult<
    (),
>)
    ensures
        r is Ok ==> {
            &&& same_time_table(*old(s), *final(s))
            &&& same_category_table(*old(s), *final(s))
            &&& same_window_table(*old(s), *final(s))
            &&& same_screenshot_table(*old(s), *final(s))
            &&& same_process_table(*old(s), *final(s))
            &&& if idle_rows(old(s).conn).dom().contains(id as int) {
                idle_rows(final(s).conn) == idle_rows(old(s).conn).insert(
                    id as int,
                    (idle_rows(old(s).conn)[id as int].0, idle_rows(old(s).conn)[id as int].1,
                    Some(resolution@)),
                )
            } else {
                same_idle_table(*old(s), *final(s))
            }
        },
        r is Err ==> (r matches Err(AppError::Storage(_))) && store_unchanged(*old(s), *final(s)),
{
    let owned = resolution.to_owned();
    match db_update_idle_resolution(s, id, &owned) {
        Ok(_) => Ok(()),
        Err(e) => Err(e),
    }
}

/// Copies an idle period, field by field.
pub fn clone_idle_period(p: &IdlePeriod) -> (r: IdlePeriod)
    ensures
        r.id == p.id,
        r.start_time == p.start_time,
        r.end_time == p.end_time,
        opt_str_view(r.resolution) == opt_str_view(p.resolution),
{
    IdlePeriod {
        id: p.id,
        start_time: p.start_time,
        end_time: p.end_time,
        resolution: clone_opt_string(&p.resolution),
    }
}

/// Reads the idle period with the given id.
///
/// Fails with `NotFound` exactly when the id is not stored.
pub fn get_idle_period(s: &Store, id: i64) -> (r: AppResult<IdlePeriod>)
    ensures
        r matches Ok(p) ==> {
            &&& idle_rows(s.conn).dom().contains(id as int)
            &&& p.id == id
            &&& p.start_time as int == idle_rows(s.conn)[id as int].0
            &&& p.end_time as int == idle_rows(s.conn)[id as int].1
            &&& opt_str_view(p.resolution) == idle_rows(s.conn)[id as int].2
        },
        r matches Err(AppError::NotFound(_)) ==> !idle_rows(s.conn).dom().contains(id as int),
        !idle_rows(s.conn).dom().contains(id as int) ==> !(r is Ok),
        r is Err ==> (r matches Err(AppError::NotFound(_))) || (r matches Err(
            AppError::Storage(_),
        )),
{
    let fetched = match db_fetch_idle_rows(s) {
        Ok(v) => v,
        Err(e) => {
            return Err(e);
        },
    };
    let ghost m = idle_rows(s.conn);
    let mut j: usize = 0;
    let mut found: Option<usize> = None;
    while j < fetched.len()
        invariant
            j <= fetched@.len(),
            rows_match_idle(fetched@, m),
            found is None ==> forall|l: int| 0 <= l < j ==> (#[trigger] fetched@[l]).id != id,
            found matches Some(fi) ==> fi < fetched@.len() && fetched@[fi as int].id == id,
        decreases fetched@.len() - j,
    {
        if found.is_none() && fetched[j].id == id {
            found = Some(j);
        }
        j += 1;
    }
    match found {
        Some(fi) => {
            proof {
                assert(m.contains_pair(
                    fetched@[fi as int].id as int,
                    crate::types::idle_row_of(fetched@[fi as int]),
                ));
            }
            Ok(clone_idle_period(&fetched[fi]))
        },
        None => {
            proof {
                if m.dom().contains(id as int) {
                    let wi = choose|wi: int|
                        0 <= wi < fetched@.len() && (#[trigger] fetched@[wi]).id as int
                            == id as int;
                    assert(fetched@[wi].id != id);
                    assert(false);
                }
            }
            Err(AppError::NotFound(String::from_str("Idle period not found")))
        },
    }
}

/// `v` holds exactly the stored idle periods whose start time lies in
/// `[lo, hi)`, with unique ids, ordered by ascending start time.
pub open spec fn idle_periods_of_range(
    v: Seq<IdlePeriod>,
    m: Map<int, IdleRow>,
    lo: int,
    hi: int,
) -> bool {
    &&& forall|i: int|
        0 <= i < v.len() ==> m.contains_pair(
            (#[trigger] v[i]).id as int,
            crate::types::idle_row_of(v[i]),
        ) && lo <= v[i].start_time < hi
    &&& forall|i: int, j: int|
        0 <= i < v.len() && 0 <= j < v.len() && i != j ==> (#[trigger] v[i]).id != (
        #[trigger] v[j]).id
    &&& forall|k: int|
        #[trigger] m.dom().contains(k) && lo <= m[k].0 < hi ==> exists|i: int|
            0 <= i < v.len() && (#[trigger] v[i]).id as int == k
    &&& forall|i: int, j: int|
        0 <= i < j < v.len() ==> (#[trigger] v[i]).start_time <= (#[trigger] v[j]).start_time
}

/// Reads the stored idle periods whose start time lies in
/// `[day_start, day_end)`, ordered by ascending start time.
pub fn get_idle_periods_for_day(s: &Store, day_start: i64, day_end: i64) -> (r: AppResult<
    Vec<IdlePeriod>,
>)
    ensures
        r matches Ok(v) ==> idle_periods_of_range(
            v@,
            idle_rows(s.conn),
            day_start as int,
            day_end as int,
        ),
        r is Err ==> r matches Err(AppError::Storage(_)),
{
    let fetched = match db_fetch_idle_rows(s) {
        Ok(v) => v,
        Err(e) => {
            return Err(e);
        },
    };
    let ghost m = idle_rows(s.conn);
    let mut out: Vec<IdlePeriod> = Vec::new();
    let mut i: usize = 0;
    while i < fetched.len()
        invariant
            i <= fetched@.len(),
            rows_match_idle(fetched@, m),
            forall|j: int|
                0 <= j < out@.len() ==> m.contains_pair(
                    (#[trigger] out@[j]).id as int,
                    crate::types::idle_row_of(out@[j]),
                ) && day_start <= out@[j].start_time < day_end,
            forall|j: int|
                0 <= j < out@.len() ==> exists|l: int|
                    0 <= l < i && (#[trigger] out@[j]).id == fetched@[l].id,
            forall|j1: int, j2: int|
                0 <= j1 < out@.len() && 0 <= j2 < out@.len() && j1 != j2 ==> (
                #[trigger] out@[j1]).id != (#[trigger] out@[j2]).id,
            forall|j1: int, j2: int|
                0 <= j1 < j2 < out@.len() ==> (#[trigger] out@[j1]).start_time <= (
                #[trigger] out@[j2]).start_time,
            forall|l: int|
                0 <= l < i && day_start <= (#[trigger] fetched@[l]).start_time < day_end
                    ==> exists|j: int| 0 <= j < out@.len() && (#[trigger] out@[j]).id == fetched@[l].id,
        decreases fetched@.len() - i,
    {
        if day_start <= fetched[i].start_time && fetched[i].start_time < day_end {
            proof {
                assert forall|j: int| 0 <= j < out@.len() implies (#[trigger] out@[j]).id
                    != fetched@[i as int].id && out@[j].start_time <= fetched@[
                i as int].start_time by {
                    let l = choose|l: int|
                        0 <= l < i && (#[trigger] out@[j]).id == fetched@[l].id;
                    assert(fetched@[l].id != fetched@[i as int].id);
                    assert(fetched@[l].start_time <= fetched@[i as int].start_time);
                }
            }
            let ghost out_before = out@;
            let picked = clone_idle_period(&fetched[i]);
            out.push(picked);
            proof {
                assert(out@[out@.len() - 1].id == fetched@[i as int].id);
                assert(crate::types::idle_row_of(out@[out@.len() - 1])
                    == crate::types::idle_row_of(fetched@[i as int]));
                assert(m.contains_pair(
                    fetched@[i as int].id as int,
                    crate::types::idle_row_of(fetched@[i as int]),
                ));
                assert forall|l: int|
                    0 <= l <= i && day_start <= (#[trigger] fetched@[l]).start_time
                        < day_end implies exists|j: int|
                    0 <= j < out@.len() && (#[trigger] out@[j]).id == fetched@[l].id by {
                    if l == i {
                        assert(out@[out@.len() - 1].id == fetched@[l].id);
                    } else {
                        let j0 = choose|j0: int|
                            0 <= j0 < out_before.len() && (#[trigger] out_before[j0]).id
                                == fetched@[l].id;
                        assert(out@[j0].id == fetched@[l].id);
                    }
                }
            }
        }
        i += 1;
    }
    Ok(out)
}

/// The resolution request carries every field its kind requires.
pub open spec fn resolution_shape_ok(res: IdlePeriodResolution) -> bool {
    ||| (res.resolution@ == "discarded"@)
    ||| (res.resolution@ == "merged"@ && res.target_entry_id is Some)
    ||| (res.resolution@ == "labeled"@ && res.new_entry_label is Some)
}

/// The effect of a "merged" resolution on the time entries: the target
/// entry's end time is extended to `new_end` when the target is stored,
/// and nothing changes otherwise.
pub open spec fn merged_time_effect(
    a: Map<int, TimeRow>,
    b: Map<int, TimeRow>,
    t: int,
    new_end: int,
) -> bool {
    if a.dom().contains(t) {
        b == a.insert(t, (a[t].0, new_end, a[t].2, a[t].3, a[t].4))
    } else {
        b == a
    }
}

/// The effect a `"labeled"` resolution leaves on the time entries: the
/// gap entry, inserted under some fresh id.
pub open spec fn labeled_time_effect(
    a: Map<int, TimeRow>,
    b: Map<int, TimeRow>,
    start: int,
    end: int,
    lab: Seq<char>,
) -> bool {
    exists|nid: int| !a.dom().contains(nid) && b == a.insert(nid, (start, end, lab, None, None))
}

/// Applies one of the three resolution actions to an idle period:
/// `"discarded"` only records the resolution; `"merged"` extends the
/// target entry's end time to the gap's end; `"labeled"` creates a new
/// time entry spanning the gap, under the store's normal validation and
/// overlap rules. The recorded resolution is overwritten even when the
/// period was already resolved.
///
/// Fails with `Validation` exactly when the kind is unrecognized, a
/// required field is missing, or a `"labeled"` gap would make a malformed
/// entry; with `Conflict` exactly when a `"labeled"` gap overlaps a
/// stored entry; with `NotFound` exactly when no period has the requested
/// id. All three leave the store unchanged. On a well-formed request for
/// a stored period only the database itself can fail, and then nothing
/// beyond the action's own time-entry effect has happened.
pub fn resolve_idle_period_with_action(s: &mut Store, resolution: &IdlePeriodResolution) -> (r:
    AppResult<IdlePeriod>)
    ensures
        !resolution_shape_ok(*resolution) ==> (r matches Err(AppError::Validation(_))),
        r matches Err(AppError::Validation(_)) ==> store_unchanged(*old(s), *final(s)) && {
            let m = idle_rows(old(s).conn);
            let row = m[resolution.id as int];
            ||| !resolution_shape_ok(*resolution)
            ||| (resolution.new_entry_label matches Some(lab) && resolution.resolution@
                == "labeled"@ && m.dom().contains(resolution.id as int) && !valid_entry_shape(
                row.0,
                row.1,
                lab@,
            ))
        },
        r matches Err(AppError::Conflict(_)) ==> store_unchanged(*old(s), *final(s)) && {
            let m = idle_rows(old(s).conn);
            let row = m[resolution.id as int];
            &&& resolution_shape_ok(*resolution)
            &&& resolution.resolution@ == "labeled"@
            &&& m.dom().contains(resolution.id as int)
            &&& conflicts_with_any(time_rows(old(s).conn), row.0, row.1)
        },
        r matches Err(AppError::NotFound(_)) ==> resolution_shape_ok(*resolution) && !idle_rows(
            old(s).conn,
        ).dom().contains(resolution.id as int) && store_unchanged(*old(s), *final(s)),
        !idle_rows(old(s).conn).dom().contains(resolution.id as int) ==> !(r is Ok),
        (resolution_shape_ok(*resolution) && idle_rows(old(s).conn).dom().contains(
            resolution.id as int,
        ) && (resolution.resolution@ == "discarded"@ || resolution.resolution@ == "merged"@)) ==> (
        r is Ok || (r matches Err(AppError::Storage(_)))),
        (resolution_shape_ok(*resolution) && idle_rows(old(s).conn).dom().contains(
            resolution.id as int,
        ) && resolution.resolution@ == "labeled"@ && (resolution.new_entry_label matches Some(lab)
            && valid_entry_shape(
            idle_rows(old(s).conn)[resolution.id as int].0,
            idle_rows(old(s).conn)[resolution.id as int].1,
            lab@,
        ) && !conflicts_with_any(
            time_rows(old(s).conn),
            idle_rows(old(s).conn)[resolution.id as int].0,
            idle_rows(old(s).conn)[resolution.id as int].1,
        ))) ==> (r is Ok || (r matches Err(AppError::Storage(_)))),
        r matches Err(AppError::Storage(_)) ==> {
            let m = idle_rows(old(s).conn);
            let row = m[resolution.id as int];
            &&& same_idle_table(*old(s), *final(s))
            &&& same_category_table(*old(s), *final(s))
            &&& same_window_table(*old(s), *final(s))
            &&& same_screenshot_table(*old(s), *final(s))
            &&& same_process_table(*old(s), *final(s))
            &&& (same_time_table(*old(s), *final(s)) || (resolution.target_entry_id matches Some(
                t,
            ) && resolution.resolution@ == "merged"@ && m.dom().contains(resolution.id as int)
                && merged_time_effect(
                time_rows(old(s).conn),
                time_rows(final(s).conn),
                t as int,
                row.1,
            )) || (resolution.new_entry_label matches Some(lab) && resolution.resolution@
                == "labeled"@ && m.dom().contains(resolution.id as int) && labeled_time_effect(
                time_rows(old(s).conn),
                time_rows(final(s).conn),
                row.0,
                row.1,
                lab@,
            )))
        },
        r matches Ok(p) ==> {
            let m = idle_rows(old(s).conn);
            let row = m[resolution.id as int];
            &&& resolution_shape_ok(*resolution)
            &&& m.dom().contains(resolution.id as int)
            &&& p.id == resolution.id
            &&& p.start_time as int == row.0
            &&& p.end_time as int == row.1
            &&& opt_str_view(p.resolution) == Some(resolution.resolution@)
            &&& idle_rows(final(s).conn) == m.insert(
                resolution.id as int,
                (row.0, row.1, Some(resolution.resolution@)),
            )
            &&& same_category_table(*old(s), *final(s))
            &&& same_window_table(*old(s), *final(s))
            &&& same_screenshot_table(*old(s), *final(s))
            &&& same_process_table(*old(s), *final(s))
            &&& (resolution.resolution@ == "discarded"@ ==> same_time_table(*old(s), *final(s)))
            &&& (resolution.resolution@ == "merged"@ ==> (resolution.target_entry_id matches Some(
                t,
            ) && merged_time_effect(
                time_rows(old(s).conn),
                time_rows(final(s).conn),
                t as int,
                row.1,
            )))
            &&& (resolution.resolution@ == "labeled"@ ==> (resolution.new_entry_label matches Some(
                lab,
            ) && valid_entry_shape(row.0, row.1, lab@) && !conflicts_with_any(
                time_rows(old(s).conn),
                row.0,
                row.1,
            ) && labeled_time_effect(
                time_rows(old(s).conn),
                time_rows(final(s).conn),
                row.0,
                row.1,
                lab@,
            )))
        },
{
    proof {
        reveal_strlit("discarded");
        reveal_strlit("merged");
        reveal_strlit("labeled");
        assert("discarded"@.len() == 9);
        assert("labeled"@.len() == 7);
        assert("merged"@.len() == 6);
        assert("discarded"@ != "merged"@);
        assert("discarded"@ != "labeled"@);
        assert("merged"@ != "labeled"@);
    }
    let kind_discarded = texts_equal(resolution.resolution.as_str(), "discarded");
    let kind_merged = texts_equal(resolution.resolution.as_str(), "merged");
    let kind_labeled = texts_equal(resolution.resolution.as_str(), "labeled");
    if !kind_discarded && !kind_merged && !kind_labeled {
        return Err(AppError::Validation(String::from_str("Invalid resolution type")));
    }
    if kind_merged && resolution.target_entry_id.is_none() {
        return Err(
            AppError::Validation(
                String::from_str("target_entry_id required for 'merged' resolution"),
            ),
        );
    }
    if kind_labeled && resolution.new_entry_label.is_none() {
        return Err(
            AppError::Validation(
                String::from_str("new_entry_label required for 'labeled' resolution"),
            ),
        );
    }
    let period = match get_idle_period(s, resolution.id) {
        Ok(p) => p,
        Err(e) => {
            return Err(e);
        },
    };
    if kind_merged {
        let target = match resolution.target_entry_id {
            Some(t) => t,
            None => {
                return Err(
                    AppError::Validation(
                        String::from_str("target_entry_id required for 'merged' resolution"),
                    ),
                );
            },
        };
        let entries = match db_fetch_time_entries(s) {
            Ok(v) => v,
            Err(e) => {
                return Err(e);
            },
        };
        let ghost tm = time_rows(s.conn);
        let mut j: usize = 0;
        let mut found: Option<usize> = None;
        while j < entries.len()
            invariant
                j <= entries@.len(),
                s.conn == old(s).conn,
                rows_match_time(entries@, tm),
                found is None ==> forall|l: int|
                    0 <= l < j ==> (#[trigger] entries@[l]).id != target,
                found matches Some(fi) ==> fi < entries@.len() && entries@[fi as int].id == target,
            decreases entries@.len() - j,
        {
            if found.is_none() && entries[j].id == target {
                found = Some(j);
            }
            j += 1;
        }
        match found {
            Some(fi) => {
                proof {
                    assert(tm.contains_pair(
                        entries@[fi as int].id as int,
                        crate::types::time_row_of_entry(entries@[fi as int]),
                    ));
                }
                let cur = &entries[fi];
                let label = cur.label.clone();
                let color = clone_opt_string(&cur.color);
                match db_update_time_entry(
                    s,
                    target,
                    cur.start_time,
                    period.end_time,
                    &label,
                    &color,
                    cur.category_id,
                ) {
                    Ok(_) => (),
                    Err(e) => {
                        return Err(e);
                    },
                }
            },
            None => {
                proof {
                    if tm.dom().contains(target as int) {
                        let wi = choose|wi: int|
                            0 <= wi < entries@.len() && (#[trigger] entries@[wi]).id as int
                                == target as int;
                        assert(entries@[wi].id != target);
                        assert(false);
                    }
                }
            },
        }
    } else if kind_labeled {
        let label = match &resolution.new_entry_label {
            Some(l) => l.clone(),
            None => {
                return Err(
                    AppError::Validation(
                        String::from_str("new_entry_label required for 'labeled' resolution"),
                    ),
                );
            },
        };
        let entry_input = TimeEntryInput {
            start_time: period.start_time,
            end_time: period.end_time,
            label,
            color: None,
            category_id: None,
        };
        match crate::time_entries::create_time_entry_impl(s, &entry_input) {
            Ok(created) => {
                proof {
                    assert(valid_entry_shape(
                        period.start_time as int,
                        period.end_time as int,
                        entry_input.label@,
                    ));
                    assert(!conflicts_with_any(
                        time_rows(old(s).conn),
                        period.start_time as int,
                        period.end_time as int,
                    ));
                    assert(exists|nid: int|
                        !time_rows(old(s).conn).dom().contains(nid) && time_rows(s.conn)
                            == time_rows(old(s).conn).insert(
                            nid,
                            (period.start_time as int, period.end_time as int, entry_input.label@,
                            None, None),
                        )) by {
                        assert(!time_rows(old(s).conn).dom().contains(created.id as int)
                            && time_rows(s.conn) == time_rows(old(s).conn).insert(
                            created.id as int,
                            (period.start_time as int, period.end_time as int, entry_input.label@,
                            None, None),
                        ));
                    }
                }
            },
            Err(e) => {
                return Err(e);
            },
        }
    }
    match update_idle_period_resolution(s, resolution.id, resolution.resolution.as_str()) {
        Ok(()) => Ok(
            IdlePeriod {
                id: resolution.id,
                start_time: period.start_time,
                end_time: period.end_time,
                resolution: Some(resolution.resolution.clone()),
            },
        ),
        Err(e) => Err(e),
    }
}

/// The inactivity-gap state machine: no open gap while input keeps
/// arriving, a gap opened at the last activity time once inactivity
/// reaches the threshold, and the gap `[start, now)` reported the moment
/// activity resumes.
pub struct IdleTracker {
    pub threshold_ms: i64,
    pub idle_since: Option<i64>,
}

impl IdleTracker {
    /// A tracker with no open gap.
    pub fn new(threshold_ms: i64) -> (r: IdleTracker)
        ensures
            r.threshold_ms == threshold_ms,
            r.idle_since is None,
    {
        IdleTracker { threshold_ms, idle_since: None }
    }

    /// Feeds one observation: the current time and the time of the last
    /// detected input. Returns the closed gap to persist, if the
    /// observation closes one.
    pub fn observe(&mut self, now_ms: i64, last_activity_ms: i64) -> (gap: Option<(i64, i64)>)
        requires
            last_activity_ms <= now_ms,
            now_ms as int - last_activity_ms as int <= i64::MAX as int,
        ensures
            final(self).threshold_ms == old(self).threshold_ms,
            now_ms - last_activity_ms >= old(self).threshold_ms ==> {
                &&& gap is None
                &&& final(self).idle_since == (match old(self).idle_since {
                    Some(st) => Some(st),
                    None => Some(last_activity_ms),
                })
            },
            now_ms - last_activity_ms < old(self).threshold_ms ==> {
                &&& final(self).idle_since is None
                &&& gap == (match old(self).idle_since {
                    Some(st) => Some((st, now_ms)),
                    None => None::<(i64, i64)>,
                })
            },
    {
        if now_ms - last_activity_ms >= self.threshold_ms {
            if self.idle_since.is_none() {
                self.idle_since = Some(last_activity_ms);
            }
            None
        } else {
            let gap = match self.idle_since {
                Some(st) => Some((st, now_ms)),
                None => None,
            };
            self.idle_since = None;
            gap
        }
    }
}

} // verus!
