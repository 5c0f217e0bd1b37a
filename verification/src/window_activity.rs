//! Append-only storage of window-activity samples, with an all-or-nothing
//! batched insert.

use vstd::prelude::*;

use crate::db::{
    Store, db_fetch_window_rows, db_insert_window_row, db_insert_window_rows_batch,
    same_category_table, same_idle_table, same_process_table, same_screenshot_table,
    same_time_table, store_unchanged, window_rows,
};
use crate::errors::{AppError, AppResult};
use crate::types::{WindowActivity, WindowRow, window_row_of};

verus! {

/// Stores one window-activity sample.
pub fn insert_window_activity(s: &mut Store, activity: &WindowActivity) -> (r: AppResult<()>)
    ensures
        r is Ok ==> {
            &&& window_rows(final(s).conn) == window_rows(old(s).conn).insert(
                window_row_of(*activity),
            )
            &&& same_time_table(*old(s), *final(s))
            &&& same_category_table(*old(s), *final(s))
            &&& same_screenshot_table(*old(s), *final(s))
            &&& same_idle_table(*old(s), *final(s))
            &&& same_process_table(*old(s), *final(s))
        },
        r is Err ==> (r matches Err(AppError::Storage(_))) && store_unchanged(*old(s), *final(s)),
{
    db_insert_window_row(s, activity)
}

/// Stores a batch of window-activity samples atomically: either every
/// sample of the batch is persisted or none is, and a failure leaves the
/// store exactly as it was.
pub fn insert_window_activities_batch(s: &mut Store, activities: &Vec<WindowActivity>) -> (r:
    AppResult<()>)
    ensures
        r is Ok ==> {
            &&& window_rows(final(s).conn) == window_rows(old(s).conn).add(
                activities@.map_values(|w: WindowActivity| window_row_of(w)).to_multiset(),
            )
            &&& same_time_table(*old(s), *final(s))
            &&& same_category_table(*old(s), *final(s))
            &&& same_screenshot_table(*old(s), *final(s))
            &&& same_idle_table(*old(s), *final(s))
            &&& same_process_table(*old(s), *final(s))
        },
        r is Err ==> (r matches Err(AppError::Storage(_))) && store_unchanged(*old(s), *final(s)),
{
    db_insert_window_rows_batch(s, activities)
}

/// Copies a window sample, field by field.
pub fn clone_window_activity(w: &WindowActivity) -> (r: WindowActivity)
    ensures
        window_row_of(r) == window_row_of(*w),
        r.timestamp == w.timestamp,
{
    WindowActivity {
        timestamp: w.timestamp,
        window_title: w.window_title.clone(),
        process_name: w.process_name.clone(),
    }
}

/// `v` holds exactly the stored window samples whose timestamp lies in
/// `[lo, hi)`, ordered by ascending timestamp.
pub open spec fn window_samples_of_range(
    v: Seq<WindowActivity>,
    b: vstd::multiset::Multiset<WindowRow>,
    lo: int,
    hi: int,
) -> bool {
    &&& forall|i: int|
        0 <= i < v.len() ==> b.contains(window_row_of(#[trigger] v[i])) && lo <= v[i].timestamp
            < hi
    &&& forall|row: WindowRow|
        #[trigger] b.contains(row) && lo <= row.0 < hi ==> exists|i: int|
            0 <= i < v.len() && window_row_of(#[trigger] v[i]) == row
    &&& forall|i: int, j: int|
        0 <= i < j < v.len() ==> (#[trigger] v[i]).timestamp <= (#[trigger] v[j]).timestamp
}

/// Reads the stored window samples whose timestamp lies in
/// `[start_time, end_time)`, ordered by ascending timestamp.
pub fn get_window_activities(s: &Store, start_time: i64, end_time: i64) -> (r: AppResult<
    Vec<WindowActivity>,
>)
    ensures
        r matches Ok(v) ==> window_samples_of_range(
            v@,
            window_rows(s.conn),
            start_time as int,
            end_time as int,
        ),
        r is Err ==> r matches Err(AppError::Storage(_)),
{
    let fetched = match db_fetch_window_rows(s) {
        Ok(v) => v,
        Err(e) => {
            return Err(e);
        },
    };
    let ghost b = window_rows(s.conn);
    let mut out: Vec<WindowActivity> = Vec::new();
    let mut i: usize = 0;
    while i < fetched.len()
        invariant
            i <= fetched@.len(),
            crate::db::rows_match_window(fetched@, b),
            forall|j: int|
                0 <= j < out@.len() ==> b.contains(window_row_of(#[trigger] out@[j])) && start_time
                    <= out@[j].timestamp < end_time,
            forall|j: int|
                0 <= j < out@.len() ==> exists|l: int|
                    0 <= l < i && window_row_of(#[trigger] out@[j]) == window_row_of(fetched@[l])
                        && out@[j].timestamp == fetched@[l].timestamp,
            forall|j1: int, j2: int|
                0 <= j1 < j2 < out@.len() ==> (#[trigger] out@[j1]).timestamp <= (
                #[trigger] out@[j2]).timestamp,
            forall|l: int|
                0 <= l < i && start_time <= (#[trigger] fetched@[l]).timestamp < end_time
                    ==> exists|j: int|
                    0 <= j < out@.len() && window_row_of(#[trigger] out@[j]) == window_row_of(
                        fetched@[l],
                    ),
        decreases fetched@.len() - i,
    {
        if start_time <= fetched[i].timestamp && fetched[i].timestamp < end_time {
            proof {
                assert forall|j: int| 0 <= j < out@.len() implies (#[trigger] out@[j]).timestamp
                    <= fetched@[i as int].timestamp by {
                    let l = choose|l: int|
                        0 <= l < i && window_row_of(#[trigger] out@[j]) == window_row_of(
                            fetched@[l],
                        ) && out@[j].timestamp == fetched@[l].timestamp;
                    assert(fetched@[l].timestamp <= fetched@[i as int].timestamp);
                }
            }
            let ghost out_before = out@;
            let picked = clone_window_activity(&fetched[i]);
            out.push(picked);
            proof {
                assert(window_row_of(out@[out@.len() - 1]) == window_row_of(fetched@[i as int]));
                assert forall|l: int|
                    0 <= l <= i && start_time <= (#[trigger] fetched@[l]).timestamp
                        < end_time implies exists|j: int|
                    0 <= j < out@.len() && window_row_of(#[trigger] out@[j]) == window_row_of(
                        fetched@[l],
                    ) by {
                    if l == i {
                        assert(window_row_of(out@[out@.len() - 1]) == window_row_of(fetched@[l]));
                    } else {
                        let j0 = choose|j0: int|
                            0 <= j0 < out_before.len() && window_row_of(#[trigger] out_before[j0])
                                == window_row_of(fetched@[l]);
                        assert(window_row_of(out@[j0]) == window_row_of(fetched@[l]));
                    }
                }
            }
        }
        i += 1;
    }
    proof {
        assert forall|row: WindowRow|
            #[trigger] b.contains(row) && start_time <= row.0 < end_time implies exists|j: int|
            0 <= j < out@.len() && window_row_of(#[trigger] out@[j]) == row by {
            let l = choose|l: int|
                0 <= l < fetched@.len() && window_row_of(#[trigger] fetched@[l]) == row;
            assert(start_time <= fetched@[l].timestamp < end_time);
        }
    }
    Ok(out)
}

} // verus!
