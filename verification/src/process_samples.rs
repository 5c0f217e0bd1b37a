//! Second-aligned samples of the foreground process: upsert on timestamp
//! collision, day-ranged reads, and retention cleanup.

use vstd::prelude::*;

use crate::calendar::timestamp_to_day_id;
use crate::db::{
    Store, db_delete_process_samples_before, db_fetch_process_samples, db_upsert_process_sample,
    process_rows, rows_match_process, same_category_table, same_idle_table, same_screenshot_table,
    same_time_table, same_window_table, store_unchanged,
};
use crate::errors::{AppError, AppResult};
use crate::types::ProcessSample;

verus! {

/// Stores one process sample, overwriting any sample already stored under
/// the same timestamp.
pub fn insert_process_sample(s: &mut Store, timestamp: i64, process_name: &str) -> (r: AppResult<
    (),
>)
    ensures
        r is Ok ==> {
            &&& process_rows(final(s).conn) == process_rows(old(s).conn).insert(
                timestamp as int,
                process_name@,
            )
            &&& same_time_table(*old(s), *final(s))
            &&& same_category_table(*old(s), *final(s))
            &&& same_window_table(*old(s), *final(s))
            &&& same_screenshot_table(*old(s), *final(s))
            &&& same_idle_table(*old(s), *final(s))
        },
        r is Err ==> (r matches Err(AppError::Storage(_))) && store_unchanged(*old(s), *final(s)),
{
    let day_id = timestamp_to_day_id(timestamp);
    let owned = process_name.to_owned();
    db_upsert_process_sample(s, timestamp, &owned, day_id)
}

/// `v` holds exactly the stored process samples whose timestamp lies in
/// `[lo, hi)`, with unique timestamps, ordered ascending.
pub open spec fn samples_of_range(
    v: Seq<ProcessSample>,
    m: Map<int, Seq<char>>,
    lo: int,
    hi: int,
) -> bool {
    &&& forall|i: int|
        0 <= i < v.len() ==> m.contains_pair(
            (#[trigger] v[i]).timestamp as int,
            v[i].process_name@,
        ) && lo <= v[i].timestamp < hi
    &&& forall|i: int, j: int|
        0 <= i < v.len() && 0 <= j < v.len() && i != j ==> (#[trigger] v[i]).timestamp != (
        #[trigger] v[j]).timestamp
    &&& forall|k: int|
        #[trigger] m.dom().contains(k) && lo <= k < hi ==> exists|i: int|
            0 <= i < v.len() && (#[trigger] v[i]).timestamp as int == k
    &&& forall|i: int, j: int|
        0 <= i < j < v.len() ==> (#[trigger] v[i]).timestamp <= (#[trigger] v[j]).timestamp
}

/// Reads the stored process samples whose timestamp lies in
/// `[start_of_day, end_of_day)`, ordered by ascending timestamp.
pub fn get_process_samples_for_day(s: &Store, start_of_day: i64, end_of_day: i64) -> (r: AppResult<
    Vec<ProcessSample>,
>)
    ensures
        r matches Ok(v) ==> samples_of_range(
            v@,
            process_rows(s.conn),
            start_of_day as int,
            end_of_day as int,
        ),
        r is Err ==> r matches Err(AppError::Storage(_)),
{
    let fetched = match db_fetch_process_samples(s) {
        Ok(v) => v,
        Err(e) => {
            return Err(e);
        },
    };
    let ghost m = process_rows(s.conn);
    let mut out: Vec<ProcessSample> = Vec::new();
    let mut i: usize = 0;
    while i < fetched.len()
        invariant
            i <= fetched@.len(),
            rows_match_process(fetched@, m),
            forall|j: int|
                0 <= j < out@.len() ==> m.contains_pair(
                    (#[trigger] out@[j]).timestamp as int,
                    out@[j].process_name@,
                ) && start_of_day <= out@[j].timestamp < end_of_day,
            forall|j: int|
                0 <= j < out@.len() ==> exists|l: int|
                    0 <= l < i && (#[trigger] out@[j]).timestamp == fetched@[l].timestamp,
            forall|j1: int, j2: int|
                0 <= j1 < out@.len() && 0 <= j2 < out@.len() && j1 != j2 ==> (
                #[trigger] out@[j1]).timestamp != (#[trigger] out@[j2]).timestamp,
            forall|j1: int, j2: int|
                0 <= j1 < j2 < out@.len() ==> (#[trigger] out@[j1]).timestamp <= (
                #[trigger] out@[j2]).timestamp,
            forall|l: int|
                0 <= l < i && start_of_day <= (#[trigger] fetched@[l]).timestamp < end_of_day
                    ==> exists|j: int|
                    0 <= j < out@.len() && (#[trigger] out@[j]).timestamp == fetched@[l].timestamp,
        decreases fetched@.len() - i,
    {
        if start_of_day <= fetched[i].timestamp && fetched[i].timestamp < end_of_day {
            proof {
                assert forall|j: int| 0 <= j < out@.len() implies (#[trigger] out@[j]).timestamp
                    != fetched@[i as int].timestamp && out@[j].timestamp <= fetched@[
                i as int].timestamp by {
                    let l = choose|l: int|
                        0 <= l < i && (#[trigger] out@[j]).timestamp == fetched@[l].timestamp;
                    assert(fetched@[l].timestamp != fetched@[i as int].timestamp);
                    assert(fetched@[l].timestamp <= fetched@[i as int].timestamp);
                }
            }
            let ghost out_before = out@;
            out.push(ProcessSample {
                timestamp: fetched[i].timestamp,
                process_name: fetched[i].process_name.clone(),
            });
            proof {
                assert(out@[out@.len() - 1].timestamp == fetched@[i as int].timestamp);
                assert(out@[out@.len() - 1].process_name@ == fetched@[i as int].process_name@);
                assert(m.contains_pair(
                    fetched@[i as int].timestamp as int,
                    fetched@[i as int].process_name@,
                ));
                assert forall|l: int|
                    0 <= l <= i && start_of_day <= (#[trigger] fetched@[l]).timestamp
                        < end_of_day implies exists|j: int|
                    0 <= j < out@.len() && (#[trigger] out@[j]).timestamp
                        == fetched@[l].timestamp by {
                    if l == i {
                        assert(out@[out@.len() - 1].timestamp == fetched@[l].timestamp);
                    } else {
                        let j0 = choose|j0: int|
                            0 <= j0 < out_before.len() && (#[trigger] out_before[j0]).timestamp
                                == fetched@[l].timestamp;
                        assert(out@[j0].timestamp == fetched@[l].timestamp);
                    }
                }
            }
        }
        i += 1;
    }
    proof {
        assert forall|k: int|
            #[trigger] m.dom().contains(k) && start_of_day <= k < end_of_day implies exists|j: int|
            0 <= j < out@.len() && (#[trigger] out@[j]).timestamp as int == k by {
            let l = choose|l: int|
                0 <= l < fetched@.len() && (#[trigger] fetched@[l]).timestamp as int == k;
            assert(start_of_day <= fetched@[l].timestamp < end_of_day);
            let j = choose|j: int|
                0 <= j < out@.len() && (#[trigger] out@[j]).timestamp == fetched@[l].timestamp;
            assert(out@[j].timestamp as int == k);
        }
    }
    Ok(out)
}

/// Deletes every process sample strictly older than the cutoff, returning
/// how many rows were removed: afterwards exactly the samples at or past
/// the cutoff remain, and the count is the number of keys the table lost.
pub fn delete_process_samples_before(s: &mut Store, cutoff_timestamp: i64) -> (r: AppResult<usize>)
    ensures
        r matches Ok(n) ==> {
            &&& process_rows(final(s).conn) == process_rows(old(s).conn).restrict(
                Set::new(|k: int| k >= cutoff_timestamp as int),
            )
            &&& process_rows(old(s).conn).dom().finite()
            &&& n + process_rows(final(s).conn).dom().len() == process_rows(old(s).conn).dom().len()
            &&& same_time_table(*old(s), *final(s))
            &&& same_category_table(*old(s), *final(s))
            &&& same_window_table(*old(s), *final(s))
            &&& same_screenshot_table(*old(s), *final(s))
            &&& same_idle_table(*old(s), *final(s))
        },
        r is Err ==> (r matches Err(AppError::Storage(_))) && store_unchanged(*old(s), *final(s)),
{
    db_delete_process_samples_before(s, cutoff_timestamp)
}

} // verus!
