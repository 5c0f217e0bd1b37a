//! Screenshot records: day-sharded storage and retrieval, the
//! nearest-in-time lookup behind previews, and the dated paths and
//! filenames under which image files are stored.

use vstd::prelude::*;

use crate::calendar::{civil_of, day_id_of, timestamp_to_day_id};
use crate::db::{
    Store, db_fetch_screenshot_rows, db_insert_screenshot, rows_match_screenshot,
    same_category_table, same_idle_table, same_process_table, same_time_table, same_window_table,
    screenshot_rows, store_unchanged,
};
use crate::errors::{AppError, AppResult};
use crate::strutil::{chars_eq_ci, char_lower_code, pad2, pad4};
use crate::types::ScreenshotRow;

verus! {

use vstd::multiset::Multiset;

/// Records one captured screenshot under its timestamp and stored path;
/// the record carries the `YYYYMMDD` day of its timestamp for day-scoped
/// lookups.
pub fn insert_screenshot(s: &mut Store, timestamp: i64, file_path: &str) -> (r: AppResult<i64>)
    ensures
        r is Ok ==> {
            &&& (exists|d: int|
                screenshot_rows(final(s).conn) == screenshot_rows(old(s).conn).insert(
                    (timestamp as int, file_path@, d),
                ))
            &&& (-8_000_000_000_000_000 <= timestamp <= 8_000_000_000_000_000
                ==> screenshot_rows(final(s).conn) == screenshot_rows(old(s).conn).insert(
                (timestamp as int, file_path@, day_id_of(civil_of(timestamp as int))),
            ))
            &&& same_time_table(*old(s), *final(s))
            &&& same_category_table(*old(s), *final(s))
            &&& same_window_table(*old(s), *final(s))
            &&& same_idle_table(*old(s), *final(s))
            &&& same_process_table(*old(s), *final(s))
        },
        r is Err ==> (r matches Err(AppError::Storage(_))) && store_unchanged(*old(s), *final(s)),
{
    let day_id = timestamp_to_day_id(timestamp);
    let owned = file_path.to_owned();
    db_insert_screenshot(s, timestamp, &owned, day_id)
}

/// The distance between two instants.
pub open spec fn dist(a: int, b: int) -> int {
    if a >= b {
        a - b
    } else {
        b - a
    }
}

/// Finds the stored path of the screenshot nearest to `timestamp`, if one
/// lies within `tolerance_ms` of it (inclusive on both sides).
pub fn get_screenshot_near_time(s: &Store, timestamp: i64, tolerance_ms: i64) -> (r: AppResult<
    Option<String>,
>)
    requires
        tolerance_ms >= 0,
        i64::MIN as int <= timestamp as int - tolerance_ms as int,
        timestamp as int + tolerance_ms as int <= i64::MAX as int,
    ensures
        r matches Ok(p) ==> {
            let b = screenshot_rows(s.conn);
            match p {
                Some(path) => exists|row: ScreenshotRow|
                    #[trigger] b.contains(row) && row.1 == path@ && dist(row.0, timestamp as int)
                        <= tolerance_ms && (forall|r2: ScreenshotRow|
                        #[trigger] b.contains(r2) && dist(r2.0, timestamp as int) <= tolerance_ms
                            ==> dist(row.0, timestamp as int) <= dist(r2.0, timestamp as int)),
                None => forall|row: ScreenshotRow|
                    #[trigger] b.contains(row) ==> dist(row.0, timestamp as int) > tolerance_ms,
            }
        },
        r is Err ==> r matches Err(AppError::Storage(_)),
{
    let fetched = match db_fetch_screenshot_rows(s) {
        Ok(v) => v,
        Err(e) => {
            return Err(e);
        },
    };
    let ghost b = screenshot_rows(s.conn);
    let lo = timestamp - tolerance_ms;
    let hi = timestamp + tolerance_ms;
    let mut best_path: Option<String> = None;
    let mut best_diff: i64 = 0;
    let ghost mut best_row: ScreenshotRow = (0, Seq::empty(), 0);
    let mut i: usize = 0;
    while i < fetched.len()
        invariant
            i <= fetched@.len(),
            rows_match_screenshot(fetched@, b),
            tolerance_ms >= 0,
            lo as int == timestamp as int - tolerance_ms as int,
            hi as int == timestamp as int + tolerance_ms as int,
            best_path is None ==> forall|l: int|
                0 <= l < i ==> dist((#[trigger] fetched@[l]).0 as int, timestamp as int)
                    > tolerance_ms,
            best_path matches Some(path) ==> {
                &&& b.contains(best_row)
                &&& best_row.1 == path@
                &&& best_diff as int == dist(best_row.0, timestamp as int)
                &&& best_diff <= tolerance_ms
                &&& forall|l: int|
                    0 <= l < i && dist((#[trigger] fetched@[l]).0 as int, timestamp as int)
                        <= tolerance_ms ==> best_diff as int <= dist(
                        fetched@[l].0 as int,
                        timestamp as int,
                    )
            },
        decreases fetched@.len() - i,
    {
        let ts = fetched[i].0;
        if lo <= ts && ts <= hi {
            let diff = if ts >= timestamp {
                ts - timestamp
            } else {
                timestamp - ts
            };
            let better = match &best_path {
                None => true,
                Some(_) => diff < best_diff,
            };
            if better {
                best_path = Some(fetched[i].1.clone());
                best_diff = diff;
                proof {
                    best_row = crate::types::shot_row_of(fetched@[i as int]);
                    assert(b.contains(best_row));
                }
            }
        }
        i += 1;
    }
    match &best_path {
        Some(_) => {
            proof {
                assert forall|r2: ScreenshotRow|
                    #[trigger] b.contains(r2) && dist(r2.0, timestamp as int)
                        <= tolerance_ms implies best_diff as int <= dist(
                    r2.0,
                    timestamp as int,
                ) by {
                    let l = choose|l: int|
                        0 <= l < fetched@.len() && crate::types::shot_row_of(
                            #[trigger] fetched@[l],
                        ) == r2;
                }
            }
        },
        None => {
            proof {
                assert forall|row: ScreenshotRow| #[trigger]
                    b.contains(row) implies dist(row.0, timestamp as int) > tolerance_ms by {
                    let l = choose|l: int|
                        0 <= l < fetched@.len() && crate::types::shot_row_of(
                            #[trigger] fetched@[l],
                        ) == row;
                }
            }
        },
    }
    Ok(best_path)
}

/// `v` holds exactly the stored screenshots of the given day, as
/// `(timestamp, file_path)` pairs ordered by ascending timestamp.
pub open spec fn screenshots_of_day(
    v: Seq<(i64, String)>,
    b: Multiset<ScreenshotRow>,
    day_id: int,
) -> bool {
    &&& forall|i: int|
        0 <= i < v.len() ==> b.contains(
            ((#[trigger] v[i]).0 as int, v[i].1@, day_id),
        )
    &&& forall|row: ScreenshotRow|
        #[trigger] b.contains(row) && row.2 == day_id ==> exists|i: int|
            0 <= i < v.len() && ((#[trigger] v[i]).0 as int, v[i].1@) == (row.0, row.1)
    &&& forall|i: int, j: int| 0 <= i < j < v.len() ==> (#[trigger] v[i]).0 <= (#[trigger] v[j]).0
}

/// Reads the stored screenshots whose day identifier matches, as
/// `(timestamp, file_path)` pairs ordered by ascending timestamp.
pub fn get_screenshots_for_day(s: &Store, day_id: i64) -> (r: AppResult<Vec<(i64, String)>>)
    ensures
        r matches Ok(v) ==> screenshots_of_day(v@, screenshot_rows(s.conn), day_id as int),
        r is Err ==> r matches Err(AppError::Storage(_)),
{
    let fetched = match db_fetch_screenshot_rows(s) {
        Ok(v) => v,
        Err(e) => {
            return Err(e);
        },
    };
    let ghost b = screenshot_rows(s.conn);
    let mut out: Vec<(i64, String)> = Vec::new();
    let mut i: usize = 0;
    while i < fetched.len()
        invariant
            i <= fetched@.len(),
            rows_match_screenshot(fetched@, b),
            forall|j: int|
                0 <= j < out@.len() ==> b.contains(
                    ((#[trigger] out@[j]).0 as int, out@[j].1@, day_id as int),
                ),
            forall|j: int|
                0 <= j < out@.len() ==> exists|l: int|
                    0 <= l < i && ((#[trigger] out@[j]).0 as int, out@[j].1@) == (
                        fetched@[l].0 as int,
                        fetched@[l].1@,
                    ) && out@[j].0 == fetched@[l].0,
            forall|j1: int, j2: int|
                0 <= j1 < j2 < out@.len() ==> (#[trigger] out@[j1]).0 <= (#[trigger] out@[j2]).0,
            forall|l: int|
                0 <= l < i && (#[trigger] fetched@[l]).2 == day_id ==> exists|j: int|
                    0 <= j < out@.len() && ((#[trigger] out@[j]).0 as int, out@[j].1@) == (
                        fetched@[l].0 as int,
                        fetched@[l].1@,
                    ),
        decreases fetched@.len() - i,
    {
        if fetched[i].2 == day_id {
            proof {
                assert forall|j: int| 0 <= j < out@.len() implies (#[trigger] out@[j]).0
                    <= fetched@[i as int].0 by {
                    let l = choose|l: int|
                        0 <= l < i && ((#[trigger] out@[j]).0 as int, out@[j].1@) == (
                            fetched@[l].0 as int,
                            fetched@[l].1@,
                        ) && out@[j].0 == fetched@[l].0;
                    assert(fetched@[l].0 <= fetched@[i as int].0);
                }
            }
            let ghost out_before = out@;
            out.push((fetched[i].0, fetched[i].1.clone()));
            proof {
                assert(((out@[out@.len() - 1]).0 as int, out@[out@.len() - 1].1@) == (
                    fetched@[i as int].0 as int,
                    fetched@[i as int].1@,
                ));
                assert(b.contains(crate::types::shot_row_of(fetched@[i as int])));
                assert forall|l: int|
                    0 <= l <= i && (#[trigger] fetched@[l]).2 == day_id implies exists|j: int|
                    0 <= j < out@.len() && ((#[trigger] out@[j]).0 as int, out@[j].1@) == (
                        fetched@[l].0 as int,
                        fetched@[l].1@,
                    ) by {
                    if l == i {
                        assert(((out@[out@.len() - 1]).0 as int, out@[out@.len() - 1].1@) == (
                            fetched@[l].0 as int,
                            fetched@[l].1@,
                        ));
                    } else {
                        let j0 = choose|j0: int|
                            0 <= j0 < out_before.len() && ((#[trigger] out_before[j0]).0 as int,
                            out_before[j0].1@) == (fetched@[l].0 as int, fetched@[l].1@);
                        assert(((out@[j0]).0 as int, out@[j0].1@) == (
                            fetched@[l].0 as int,
                            fetched@[l].1@,
                        ));
                    }
                }
            }
        }
        i += 1;
    }
    proof {
        assert forall|row: ScreenshotRow|
            #[trigger] b.contains(row) && row.2 == day_id as int implies exists|i2: int|
            0 <= i2 < out@.len() && ((#[trigger] out@[i2]).0 as int, out@[i2].1@) == (
                row.0,
                row.1,
            ) by {
            let l = choose|l: int|
                0 <= l < fetched@.len() && crate::types::shot_row_of(#[trigger] fetched@[l])
                    == row;
            assert(fetched@[l].2 == day_id);
        }
    }
    Ok(out)
}

/// Some stored screenshot has this timestamp.
pub open spec fn has_shot_at(b: Multiset<ScreenshotRow>, ts: int) -> bool {
    exists|row: ScreenshotRow| #[trigger] b.contains(row) && row.0 == ts
}

/// Every stored screenshot timestamp in `[lo, hi)` appears in `v`.
pub open spec fn ts_list_complete(v: Seq<i64>, b: Multiset<ScreenshotRow>, lo: int, hi: int) -> bool {
    forall|row: ScreenshotRow|
        #[trigger] b.contains(row) && lo <= row.0 < hi ==> exists|i: int|
            0 <= i < v.len() && (#[trigger] v[i]) as int == row.0
}

/// A timestamp list that carries every fetched in-range timestamp carries
/// every stored in-range timestamp.
#[verifier::spinoff_prover]
proof fn lemma_ts_list_complete(
    fetched: Seq<(i64, String, i64)>,
    out: Seq<i64>,
    b: Multiset<ScreenshotRow>,
    lo: int,
    hi: int,
)
    requires
        rows_match_screenshot(fetched, b),
        forall|l: int|
            0 <= l < fetched.len() && lo <= (#[trigger] fetched[l]).0 < hi ==> exists|j: int|
                0 <= j < out.len() && (#[trigger] out[j]) as int == fetched[l].0 as int,
    ensures
        ts_list_complete(out, b, lo, hi),
{
    assert forall|row: ScreenshotRow|
        #[trigger] b.contains(row) && lo <= row.0 < hi implies exists|i2: int|
        0 <= i2 < out.len() && (#[trigger] out[i2]) as int == row.0 by {
        let l = choose|l: int|
            0 <= l < fetched.len() && crate::types::shot_row_of(#[trigger] fetched[l]) == row;
        assert(lo <= fetched[l].0 < hi);
        let j = choose|j: int|
            0 <= j < out.len() && (#[trigger] out[j]) as int == fetched[l].0 as int;
        assert(out[j] as int == row.0);
    }
}

/// Reads, ordered ascending, the timestamps of the stored screenshots
/// lying in `[start_of_day, end_of_day)`.
#[verifier::rlimit(100)]
#[verifier::spinoff_prover]
pub fn get_screenshot_timestamps_for_day(s: &Store, start_of_day: i64, end_of_day: i64) -> (r:
    AppResult<Vec<i64>>)
    ensures
        r matches Ok(v) ==> {
            let b = screenshot_rows(s.conn);
            &&& forall|i: int|
                0 <= i < v@.len() ==> start_of_day <= (#[trigger] v@[i]) < end_of_day
                    && has_shot_at(b, v@[i] as int)
            &&& ts_list_complete(v@, b, start_of_day as int, end_of_day as int)
            &&& forall|i: int, j: int|
                0 <= i < j < v@.len() ==> (#[trigger] v@[i]) <= (#[trigger] v@[j])
        },
        r is Err ==> r matches Err(AppError::Storage(_)),
{
    let fetched = match db_fetch_screenshot_rows(s) {
        Ok(v) => v,
        Err(e) => {
            return Err(e);
        },
    };
    let ghost b = screenshot_rows(s.conn);
    let mut out: Vec<i64> = Vec::new();
    let mut i: usize = 0;
    while i < fetched.len()
        invariant
            i <= fetched@.len(),
            rows_match_screenshot(fetched@, b),
            forall|j: int|
                0 <= j < out@.len() ==> start_of_day <= (#[trigger] out@[j]) < end_of_day
                    && has_shot_at(b, out@[j] as int),
            forall|j: int|
                0 <= j < out@.len() ==> exists|l: int|
                    0 <= l < i && (#[trigger] out@[j]) == fetched@[l].0,
            forall|j1: int, j2: int|
                0 <= j1 < j2 < out@.len() ==> (#[trigger] out@[j1]) <= (#[trigger] out@[j2]),
            forall|l: int|
                0 <= l < i && start_of_day <= (#[trigger] fetched@[l]).0 < end_of_day
                    ==> exists|j: int|
                    0 <= j < out@.len() && (#[trigger] out@[j]) as int == fetched@[l].0 as int,
        decreases fetched@.len() - i,
    {
        if start_of_day <= fetched[i].0 && fetched[i].0 < end_of_day {
            proof {
                assert forall|j: int| 0 <= j < out@.len() implies (#[trigger] out@[j]) <= fetched@[
                i as int].0 by {
                    let l = choose|l: int| 0 <= l < i && (#[trigger] out@[j]) == fetched@[l].0;
                    assert(fetched@[l].0 <= fetched@[i as int].0);
                }
            }
            let ghost out_before = out@;
            out.push(fetched[i].0);
            proof {
                assert(out@[out@.len() - 1] == fetched@[i as int].0);
                assert(b.contains(crate::types::shot_row_of(fetched@[i as int])));
                assert(has_shot_at(b, fetched@[i as int].0 as int));
                assert forall|l: int|
                    0 <= l <= i && start_of_day <= (#[trigger] fetched@[l]).0
                        < end_of_day implies exists|j: int|
                    0 <= j < out@.len() && (#[trigger] out@[j]) as int == fetched@[l].0 as int by {
                    if l == i {
                        assert(out@[out@.len() - 1] as int == fetched@[l].0 as int);
                    } else {
                        let j0 = choose|j0: int|
                            0 <= j0 < out_before.len() && (#[trigger] out_before[j0]) as int
                                == fetched@[l].0 as int;
                        assert(out@[j0] as int == fetched@[l].0 as int);
                    }
                }
            }
        }
        i += 1;
    }
    proof {
        lemma_ts_list_complete(
            fetched@,
            out@,
            b,
            start_of_day as int,
            end_of_day as int,
        );
    }
    Ok(out)
}

/// The screenshots directory under a base path.
pub fn get_screenshot_path(base_path: &str) -> (r: String)
    ensures
        r@ == base_path@ + "/screenshots"@,
{
    let mut s = base_path.to_owned();
    s.append("/screenshots");
    s
}

/// The path has the given extension: a dot, then the extension's
/// characters, case-insensitively, at the very end.
pub open spec fn has_ext_ci(path: Seq<char>, ext: Seq<char>) -> bool {
    &&& path.len() > ext.len()
    &&& path[path.len() - ext.len() - 1] == '.'
    &&& forall|i: int|
        0 <= i < ext.len() ==> chars_eq_ci(path[path.len() - ext.len() + i], #[trigger] ext[i])
}

/// Whether the path ends in a dot followed by the extension, compared up
/// to ASCII case.
fn ends_with_dot_ext(path: &str, ext: &str) -> (r: bool)
    ensures
        r == has_ext_ci(path@, ext@),
{
    let n = path.unicode_len();
    let m = ext.unicode_len();
    if n <= m {
        return false;
    }
    if path.get_char(n - m - 1) != '.' {
        return false;
    }
    let mut i: usize = 0;
    while i < m
        invariant
            i <= m,
            m < n,
            n == path@.len(),
            m == ext@.len(),
            path@[n - m - 1] == '.',
            forall|l: int| 0 <= l < i ==> chars_eq_ci(path@[n - m + l], #[trigger] ext@[l]),
        decreases m - i,
    {
        if char_lower_code(path.get_char(n - m + i)) != char_lower_code(ext.get_char(i)) {
            proof {
                assert(!chars_eq_ci(path@[n - m + i], ext@[i as int]));
            }
            return false;
        }
        i += 1;
    }
    true
}

/// The MIME type matching a stored path's extension. Extensions are
/// compared case-insensitively against the image types the capture
/// pipeline writes; anything else is reported as PNG.
pub open spec fn mime_of(path: Seq<char>) -> Seq<char> {
    if has_ext_ci(path, "webp"@) {
        "image/webp"@
    } else if has_ext_ci(path, "jpg"@) || has_ext_ci(path, "jpeg"@) {
        "image/jpeg"@
    } else if has_ext_ci(path, "gif"@) {
        "image/gif"@
    } else if has_ext_ci(path, "bmp"@) {
        "image/bmp"@
    } else if has_ext_ci(path, "tiff"@) || has_ext_ci(path, "tif"@) {
        "image/tiff"@
    } else {
        "image/png"@
    }
}

/// Infers the MIME type of a stored screenshot from its file extension.
pub fn infer_mime_type_from_path(path: &str) -> (r: &'static str)
    ensures
        r@ == mime_of(path@),
{
    if ends_with_dot_ext(path, "webp") {
        "image/webp"
    } else if ends_with_dot_ext(path, "jpg") || ends_with_dot_ext(path, "jpeg") {
        "image/jpeg"
    } else if ends_with_dot_ext(path, "gif") {
        "image/gif"
    } else if ends_with_dot_ext(path, "bmp") {
        "image/bmp"
    } else if ends_with_dot_ext(path, "tiff") || ends_with_dot_ext(path, "tif") {
        "image/tiff"
    } else {
        "image/png"
    }
}

/// The dated directory of a capture day under a root:
/// `root/YYYY/MM/DD`.
pub fn screenshot_day_dir(root: &str, year: u64, month: u64, day: u64) -> (r: String)
    requires
        year < 10000,
        month < 100,
        day < 100,
    ensures
        r@ == root@ + "/"@ + crate::strutil::pad4_view(year as int) + "/"@
            + crate::strutil::pad2_view(month as int) + "/"@ + crate::strutil::pad2_view(
            day as int,
        ),
{
    let mut s = root.to_owned();
    s.append("/");
    s.append(pad4(year).as_str());
    s.append("/");
    s.append(pad2(month).as_str());
    s.append("/");
    s.append(pad2(day).as_str());
    s
}

/// The filename of a capture at the given UTC date and time:
/// `screenshot_YYYYMMDD_HHMMSS.webp`.
pub fn screenshot_filename(
    year: u64,
    month: u64,
    day: u64,
    hour: u64,
    minute: u64,
    second: u64,
) -> (r: String)
    requires
        year < 10000,
        month < 100,
        day < 100,
        hour < 100,
        minute < 100,
        second < 100,
    ensures
        r@ == "screenshot_"@ + crate::strutil::pad4_view(year as int) + crate::strutil::pad2_view(
            month as int,
        ) + crate::strutil::pad2_view(day as int) + "_"@ + crate::strutil::pad2_view(hour as int)
            + crate::strutil::pad2_view(minute as int) + crate::strutil::pad2_view(second as int)
            + ".webp"@,
{
    let mut s = String::from_str("screenshot_");
    s.append(pad4(year).as_str());
    s.append(pad2(month).as_str());
    s.append(pad2(day).as_str());
    s.append("_");
    s.append(pad2(hour).as_str());
    s.append(pad2(minute).as_str());
    s.append(pad2(second).as_str());
    s.append(".webp");
    s
}

/// The path recorded for a stored screenshot: relative under the managed
/// root when no custom storage directory is set, absolute under the
/// custom root otherwise.
pub fn stored_screenshot_path(
    custom_root: &Option<String>,
    year: u64,
    month: u64,
    day: u64,
    filename: &str,
) -> (r: String)
    requires
        year < 10000,
        month < 100,
        day < 100,
    ensures
        custom_root is None ==> r@ == "screenshots/"@ + crate::strutil::pad4_view(year as int)
            + "/"@ + crate::strutil::pad2_view(month as int) + "/"@ + crate::strutil::pad2_view(
            day as int,
        ) + "/"@ + filename@,
        custom_root matches Some(root) ==> r@ == root@ + "/"@ + crate::strutil::pad4_view(
            year as int,
        ) + "/"@ + crate::strutil::pad2_view(month as int) + "/"@ + crate::strutil::pad2_view(
            day as int,
        ) + "/"@ + filename@,
{
    let mut s = match custom_root {
        Some(root) => screenshot_day_dir(root.as_str(), year, month, day),
        None => screenshot_day_dir("screenshots", year, month, day),
    };
    s.append("/");
    s.append(filename);
    proof {
        reveal_strlit("screenshots");
        reveal_strlit("screenshots/");
        assert("screenshots"@ + "/"@ =~= "screenshots/"@) by {
            reveal_strlit("/");
        }
        if custom_root is None {
            assert(s@ =~= "screenshots/"@ + crate::strutil::pad4_view(year as int) + "/"@
                + crate::strutil::pad2_view(month as int) + "/"@ + crate::strutil::pad2_view(
                day as int,
            ) + "/"@ + filename@);
        } else {
            assert(s@ =~= custom_root->0@ + "/"@ + crate::strutil::pad4_view(year as int) + "/"@
                + crate::strutil::pad2_view(month as int) + "/"@ + crate::strutil::pad2_view(
                day as int,
            ) + "/"@ + filename@);
        }
    }
    s
}

/// The standard base64 rendering of a byte sequence. The rendering is a
/// function of the bytes alone.
pub uninterp spec fn base64_of(bytes: Seq<u8>) -> Seq<char>;

/// Relies on base64's `Engine::encode` with the standard alphabet: the
/// text produced depends on the input bytes alone, and no input is
/// rejected.
#[verifier::external_body]
fn base64_encode(bytes: &Vec<u8>) -> (r: String)
    ensures
        r@ == base64_of(bytes@),
{
    <base64::engine::GeneralPurpose as base64::Engine>::encode(
        &base64::engine::general_purpose::STANDARD,
        bytes.as_slice(),
    )
}

/// Builds the inline `data:` URL of a stored screenshot from its stored
/// path and the bytes read from it: the MIME type inferred from the
/// path's extension, then the base64 rendering of the bytes.
pub fn screenshot_data_url(stored_path: &str, bytes: &Vec<u8>) -> (r: String)
    ensures
        r@ == "data:"@ + mime_of(stored_path@) + ";base64,"@ + base64_of(bytes@),
{
    let mut s = String::from_str("data:");
    s.append(infer_mime_type_from_path(stored_path));
    s.append(";base64,");
    s.append(base64_encode(bytes).as_str());
    s
}

} // verus!
