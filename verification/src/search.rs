//! Case-insensitive search across time-entry labels and window-activity
//! titles: results from both sources, newest first, capped at 100 rows.

use vstd::prelude::*;

use crate::db::{
    Store, db_fetch_time_entries, db_fetch_window_rows, rows_match_time, rows_match_window,
    sorted_by_start, time_rows, window_rows,
};
use crate::errors::{AppError, AppResult};
use crate::strutil::{contains_ci, text_contains_ci};
use crate::time_entries::clone_opt_string;
use crate::types::{SearchResult, TimeEntry, TimeRow, WindowActivity, WindowRow, opt_str_view,
    time_row_of_entry, window_row_of};

verus! {

use vstd::multiset::Multiset;

/// Whether a timestamp lies in the optional half-open range.
pub open spec fn in_opt_range(ts: int, range: Option<(int, int)>) -> bool {
    match range {
        None => true,
        Some(r) => r.0 <= ts < r.1,
    }
}

/// A stored time entry row matches the query within the range.
pub open spec fn entry_hit(row: TimeRow, q: Seq<char>, range: Option<(int, int)>) -> bool {
    contains_ci(row.2, q) && in_opt_range(row.0, range)
}

/// A stored window row matches the query within the range.
pub open spec fn window_hit(row: WindowRow, q: Seq<char>, range: Option<(int, int)>) -> bool {
    contains_ci(row.1, q) && in_opt_range(row.0, range)
}

/// The search result reports the given time entry row.
pub open spec fn result_from_entry(res: SearchResult, row: TimeRow) -> bool {
    &&& res.kind@ == "time_entry"@
    &&& res.timestamp as int == row.0
    &&& res.title@ == row.2
    &&& res.process_name is None
}

/// The search result reports the given window row.
pub open spec fn result_from_window(res: SearchResult, row: WindowRow) -> bool {
    &&& res.kind@ == "window_activity"@
    &&& res.timestamp as int == row.0
    &&& res.title@ == row.1
    &&& opt_str_view(res.process_name) == Some(row.2)
}

/// The two results carry the same data, character for character.
pub open spec fn result_like(a: SearchResult, b: SearchResult) -> bool {
    &&& a.kind@ == b.kind@
    &&& a.timestamp == b.timestamp
    &&& a.title@ == b.title@
    &&& opt_str_view(a.process_name) == opt_str_view(b.process_name)
}

/// The results are ordered by descending timestamp.
pub open spec fn sorted_desc(v: Seq<SearchResult>) -> bool {
    forall|i: int, j: int|
        0 <= i < j < v.len() ==> (#[trigger] v[i]).timestamp >= (#[trigger] v[j]).timestamp
}

/// The result reports some stored row that matches the query.
pub open spec fn result_supported_one(
    res: SearchResult,
    m: Map<int, TimeRow>,
    w: Multiset<WindowRow>,
    q: Seq<char>,
    range: Option<(int, int)>,
) -> bool {
    ||| (exists|k: int|
        #[trigger] m.dom().contains(k) && entry_hit(m[k], q, range) && result_from_entry(
            res,
            m[k],
        ))
    ||| (exists|row: WindowRow|
        #[trigger] w.contains(row) && window_hit(row, q, range) && result_from_window(res, row))
}

/// Every element of `v` reports a stored row that matches the query.
pub open spec fn results_supported(
    v: Seq<SearchResult>,
    m: Map<int, TimeRow>,
    w: Multiset<WindowRow>,
    q: Seq<char>,
    range: Option<(int, int)>,
) -> bool {
    forall|i: int| 0 <= i < v.len() ==> result_supported_one(#[trigger] v[i], m, w, q, range)
}

/// The number of fetched time entries in the prefix `[0, i)` whose label
/// matches the query within the range.
spec fn entry_hits_upto(f: Seq<TimeEntry>, q: Seq<char>, range: Option<(int, int)>, i: int) -> int
    decreases i,
{
    if i <= 0 {
        0
    } else {
        entry_hits_upto(f, q, range, i - 1) + if entry_hit(
            time_row_of_entry(f[i - 1]),
            q,
            range,
        ) {
            1int
        } else {
            0int
        }
    }
}

/// The number of fetched window samples in the prefix `[0, i)` whose
/// title matches the query within the range.
spec fn window_hits_upto(
    f: Seq<WindowActivity>,
    q: Seq<char>,
    range: Option<(int, int)>,
    i: int,
) -> int
    decreases i,
{
    if i <= 0 {
        0
    } else {
        window_hits_upto(f, q, range, i - 1) + if window_hit(
            window_row_of(f[i - 1]),
            q,
            range,
        ) {
            1int
        } else {
            0int
        }
    }
}

/// The stored time-entry keys whose row matches the query within the
/// range.
pub open spec fn entry_match_keys(
    m: Map<int, TimeRow>,
    q: Seq<char>,
    range: Option<(int, int)>,
) -> Set<int> {
    Set::new(|k: int| m.dom().contains(k) && entry_hit(m[k], q, range))
}

/// Whether a stored window row matches the query within the range, as a
/// reusable predicate value.
pub open spec fn window_hit_pred(q: Seq<char>, range: Option<(int, int)>) -> spec_fn(
    WindowRow,
) -> bool {
    |row: WindowRow| window_hit(row, q, range)
}

/// The total multiplicity of stored window rows matching the query within
/// the range.
pub open spec fn window_match_count(
    w: Multiset<WindowRow>,
    q: Seq<char>,
    range: Option<(int, int)>,
) -> nat {
    w.filter(window_hit_pred(q, range)).len()
}

/// `x` capped at 100.
pub open spec fn capped_at_100(x: int) -> int {
    if x < 100 {
        x
    } else {
        100
    }
}

/// The keys of the matching entries in the prefix `[0, i)` of the fetched
/// list.
spec fn entry_keys_upto(f: Seq<TimeEntry>, q: Seq<char>, range: Option<(int, int)>, i: int) -> Set<
    int,
>
    decreases i,
{
    if i <= 0 {
        Set::empty()
    } else {
        let rest = entry_keys_upto(f, q, range, i - 1);
        if entry_hit(time_row_of_entry(f[i - 1]), q, range) {
            rest.insert(f[i - 1].id as int)
        } else {
            rest
        }
    }
}

/// A key lies in the prefix key set exactly when some fetched entry of the
/// prefix carries it and matches.
proof fn lemma_entry_keys_upto_contains(
    f: Seq<TimeEntry>,
    q: Seq<char>,
    range: Option<(int, int)>,
    i: int,
    k: int,
)
    requires
        0 <= i <= f.len(),
    ensures
        entry_keys_upto(f, q, range, i).contains(k) <==> exists|l: int|
            0 <= l < i && (#[trigger] f[l]).id as int == k && entry_hit(
                time_row_of_entry(f[l]),
                q,
                range,
            ),
    decreases i,
{
    broadcast use vstd::set::group_set_axioms;

    if i > 0 {
        lemma_entry_keys_upto_contains(f, q, range, i - 1, k);
        if entry_keys_upto(f, q, range, i).contains(k) {
            if entry_hit(time_row_of_entry(f[i - 1]), q, range) && f[i - 1].id as int == k {
                assert(0 <= i - 1 < i && f[i - 1].id as int == k);
            }
        }
        if exists|l: int|
            0 <= l < i && (#[trigger] f[l]).id as int == k && entry_hit(
                time_row_of_entry(f[l]),
                q,
                range,
            ) {
            let l = choose|l: int|
                0 <= l < i && (#[trigger] f[l]).id as int == k && entry_hit(
                    time_row_of_entry(f[l]),
                    q,
                    range,
                );
            if l == i - 1 {
                assert(entry_keys_upto(f, q, range, i).contains(k));
            } else {
                assert(0 <= l < i - 1 && f[l].id as int == k && entry_hit(
                    time_row_of_entry(f[l]),
                    q,
                    range,
                ));
            }
        }
    }
}

/// With pairwise-distinct ids, the prefix key set counts exactly the
/// matching prefix entries.
proof fn lemma_entry_keys_upto_len(
    f: Seq<TimeEntry>,
    q: Seq<char>,
    range: Option<(int, int)>,
    i: int,
)
    requires
        0 <= i <= f.len(),
        forall|a: int, b: int|
            0 <= a < f.len() && 0 <= b < f.len() && a != b ==> (#[trigger] f[a]).id != (
            #[trigger] f[b]).id,
    ensures
        entry_keys_upto(f, q, range, i).finite(),
        entry_keys_upto(f, q, range, i).len() == entry_hits_upto(f, q, range, i),
    decreases i,
{
    broadcast use vstd::set::group_set_axioms;

    if i > 0 {
        lemma_entry_keys_upto_len(f, q, range, i - 1);
        if entry_hit(time_row_of_entry(f[i - 1]), q, range) {
            lemma_entry_keys_upto_contains(f, q, range, i - 1, f[i - 1].id as int);
            assert(!entry_keys_upto(f, q, range, i - 1).contains(f[i - 1].id as int));
        }
    }
}

/// The matching-key set of the stored map is finite and counts exactly
/// the matching entries of any fetched list that mirrors the map.
proof fn lemma_entry_match_count(
    f: Seq<TimeEntry>,
    m: Map<int, TimeRow>,
    q: Seq<char>,
    range: Option<(int, int)>,
)
    requires
        rows_match_time(f, m),
    ensures
        entry_match_keys(m, q, range).finite(),
        entry_match_keys(m, q, range).len() == entry_hits_upto(f, q, range, f.len() as int),
{
    broadcast use vstd::set::group_set_axioms;

    let n = f.len() as int;
    lemma_entry_keys_upto_len(f, q, range, n);
    assert forall|k: int| #[trigger]
        entry_keys_upto(f, q, range, n).contains(k) implies entry_match_keys(
        m,
        q,
        range,
    ).contains(k) by {
        lemma_entry_keys_upto_contains(f, q, range, n, k);
        let l = choose|l: int|
            0 <= l < n && (#[trigger] f[l]).id as int == k && entry_hit(
                time_row_of_entry(f[l]),
                q,
                range,
            );
        assert(m.contains_pair(f[l].id as int, time_row_of_entry(f[l])));
    }
    assert forall|k: int| #[trigger]
        entry_match_keys(m, q, range).contains(k) implies entry_keys_upto(
        f,
        q,
        range,
        n,
    ).contains(k) by {
        assert(m.dom().contains(k));
        let l = choose|l: int| 0 <= l < f.len() && (#[trigger] f[l]).id as int == k;
        assert(m.contains_pair(f[l].id as int, time_row_of_entry(f[l])));
        assert(entry_hit(time_row_of_entry(f[l]), q, range));
        lemma_entry_keys_upto_contains(f, q, range, n, k);
    }
    assert(entry_keys_upto(f, q, range, n) =~= entry_match_keys(m, q, range));
}

/// Filtering after adding one element adds the element exactly when it
/// passes the filter.
proof fn lemma_filter_insert(ms: Multiset<WindowRow>, p: spec_fn(WindowRow) -> bool, x: WindowRow)
    ensures
        ms.insert(x).filter(p) == (if p(x) {
            ms.filter(p).insert(x)
        } else {
            ms.filter(p)
        }),
{
    broadcast use vstd::multiset::group_multiset_axioms;

    if p(x) {
        assert forall|v: WindowRow| #[trigger]
            ms.insert(x).filter(p).count(v) == ms.filter(p).insert(x).count(v) by {}
        assert(ms.insert(x).filter(p) =~= ms.filter(p).insert(x));
    } else {
        assert forall|v: WindowRow| #[trigger]
            ms.insert(x).filter(p).count(v) == ms.filter(p).count(v) by {}
        assert(ms.insert(x).filter(p) =~= ms.filter(p));
    }
}

/// The filtered multiplicity of the bag of a row prefix counts exactly
/// its matching rows.
proof fn lemma_row_prefix_count(
    rows: Seq<WindowRow>,
    f: Seq<WindowActivity>,
    q: Seq<char>,
    range: Option<(int, int)>,
    i: int,
)
    requires
        0 <= i <= f.len(),
        rows.len() == f.len(),
        forall|l: int| 0 <= l < f.len() ==> rows[l] == window_row_of(#[trigger] f[l]),
    ensures
        rows.take(i).to_multiset().filter(window_hit_pred(q, range)).len() == window_hits_upto(
            f,
            q,
            range,
            i,
        ),
    decreases i,
{
    broadcast use vstd::multiset::group_multiset_axioms;

    let p = window_hit_pred(q, range);
    if i == 0 {
        assert(rows.take(0) =~= Seq::<WindowRow>::empty());
        rows.take(0).to_multiset_ensures();
        vstd::multiset::lemma_multiset_empty_len(rows.take(0).to_multiset());
        assert(rows.take(0).to_multiset() =~= Multiset::<WindowRow>::empty());
        assert forall|v: WindowRow| #[trigger]
            Multiset::<WindowRow>::empty().filter(p).count(v) == 0 by {}
        assert(Multiset::<WindowRow>::empty().filter(p) =~= Multiset::<WindowRow>::empty());
    } else {
        lemma_row_prefix_count(rows, f, q, range, i - 1);
        assert(rows.take(i) =~= rows.take(i - 1).push(rows[i - 1]));
        rows.take(i - 1).to_multiset_ensures();
        assert(rows.take(i).to_multiset() == rows.take(i - 1).to_multiset().insert(rows[i - 1]));
        lemma_filter_insert(rows.take(i - 1).to_multiset(), p, rows[i - 1]);
        assert(p(rows[i - 1]) == window_hit(window_row_of(f[i - 1]), q, range));
    }
}

/// The matching multiplicity of the stored window bag counts exactly the
/// matching samples of any fetched list that mirrors the bag.
proof fn lemma_window_match_count(
    f: Seq<WindowActivity>,
    w: Multiset<WindowRow>,
    q: Seq<char>,
    range: Option<(int, int)>,
)
    requires
        rows_match_window(f, w),
    ensures
        window_match_count(w, q, range) == window_hits_upto(f, q, range, f.len() as int),
{
    let rows = f.map_values(|wa: WindowActivity| window_row_of(wa));
    assert(rows =~= f.map_values(|w2: WindowActivity| window_row_of(w2)));
    assert(w == rows.to_multiset());
    assert(rows.take(f.len() as int) =~= rows);
    lemma_row_prefix_count(rows, f, q, range, f.len() as int);
}

/// The search answer is correct: at most 100 rows, newest first, every row
/// reports a stored match, and every stored match either appears or was
/// displaced by 100 rows with newer-or-equal timestamps.
pub open spec fn search_answer_ok(
    v: Seq<SearchResult>,
    m: Map<int, TimeRow>,
    w: Multiset<WindowRow>,
    q: Seq<char>,
    range: Option<(int, int)>,
) -> bool {
    &&& v.len() <= 100
    &&& entry_match_keys(m, q, range).finite()
    &&& v.len() == capped_at_100(
        entry_match_keys(m, q, range).len() + window_match_count(w, q, range) as int,
    )
    &&& sorted_desc(v)
    &&& results_supported(v, m, w, q, range)
    &&& forall|k: int|
        #[trigger] m.dom().contains(k) && entry_hit(m[k], q, range) ==> ((exists|i: int|
            0 <= i < v.len() && result_from_entry(#[trigger] v[i], m[k])) || (v.len() == 100
            && forall|i: int| 0 <= i < v.len() ==> (#[trigger] v[i]).timestamp as int >= m[k].0))
    &&& forall|row: WindowRow|
        #[trigger] w.contains(row) && window_hit(row, q, range) ==> ((exists|i: int|
            0 <= i < v.len() && result_from_window(#[trigger] v[i], row)) || (v.len() == 100
            && forall|i: int| 0 <= i < v.len() ==> (#[trigger] v[i]).timestamp as int >= row.0))
}

/// Copies a search result, field by field.
pub fn clone_result(r: &SearchResult) -> (o: SearchResult)
    ensures
        result_like(o, *r),
{
    SearchResult {
        kind: r.kind.clone(),
        timestamp: r.timestamp,
        title: r.title.clone(),
        process_name: clone_opt_string(&r.process_name),
    }
}

/// Whether the timestamp lies in the optional executable range.
fn ts_in_range(ts: i64, range: &Option<(i64, i64)>) -> (r: bool)
    ensures
        r == in_opt_range(
            ts as int,
            match *range {
                Some(p) => Some((p.0 as int, p.1 as int)),
                None => None,
            },
        ),
{
    match range {
        None => true,
        Some(p) => p.0 <= ts && ts < p.1,
    }
}

/// The spec-level view of the optional range.
pub open spec fn range_view(range: Option<(i64, i64)>) -> Option<(int, int)> {
    match range {
        Some(p) => Some((p.0 as int, p.1 as int)),
        None => None,
    }
}

/// Some element of `v` reports the given time entry row.
pub open spec fn has_entry_result(v: Seq<SearchResult>, row: TimeRow) -> bool {
    exists|j: int| 0 <= j < v.len() && result_from_entry(#[trigger] v[j], row)
}

/// Some element of `v` reports the given window row.
pub open spec fn has_window_result(v: Seq<SearchResult>, row: WindowRow) -> bool {
    exists|j: int| 0 <= j < v.len() && result_from_window(#[trigger] v[j], row)
}

/// The result reports some matching entry in the suffix of `fetched` that
/// starts at `lo`.
pub open spec fn entry_rep(
    res: SearchResult,
    fetched: Seq<TimeEntry>,
    lo: int,
    q: Seq<char>,
    range: Option<(int, int)>,
) -> bool {
    exists|l: int|
        lo <= l < fetched.len() && entry_hit(time_row_of_entry(#[trigger] fetched[l]), q, range)
            && result_from_entry(res, time_row_of_entry(fetched[l]))
}

/// The result reports some matching window sample in the suffix of
/// `fetched` that starts at `lo`.
pub open spec fn window_rep(
    res: SearchResult,
    fetched: Seq<WindowActivity>,
    lo: int,
    q: Seq<char>,
    range: Option<(int, int)>,
) -> bool {
    exists|l: int|
        lo <= l < fetched.len() && window_hit(window_row_of(#[trigger] fetched[l]), q, range)
            && result_from_window(res, window_row_of(fetched[l]))
}

/// A result reported by a suffix is reported by any wider suffix.
proof fn lemma_entry_rep_widen(
    res: SearchResult,
    fetched: Seq<TimeEntry>,
    lo: int,
    lo2: int,
    q: Seq<char>,
    range: Option<(int, int)>,
)
    requires
        entry_rep(res, fetched, lo, q, range),
        lo2 <= lo,
    ensures
        entry_rep(res, fetched, lo2, q, range),
{
    let l = choose|l: int|
        lo <= l < fetched.len() && entry_hit(time_row_of_entry(#[trigger] fetched[l]), q, range)
            && result_from_entry(res, time_row_of_entry(fetched[l]));
    assert(lo2 <= l < fetched.len() && entry_hit(time_row_of_entry(fetched[l]), q, range)
        && result_from_entry(res, time_row_of_entry(fetched[l])));
}

/// A result reported by a suffix is reported by any wider suffix.
proof fn lemma_window_rep_widen(
    res: SearchResult,
    fetched: Seq<WindowActivity>,
    lo: int,
    lo2: int,
    q: Seq<char>,
    range: Option<(int, int)>,
)
    requires
        window_rep(res, fetched, lo, q, range),
        lo2 <= lo,
    ensures
        window_rep(res, fetched, lo2, q, range),
{
    let l = choose|l: int|
        lo <= l < fetched.len() && window_hit(window_row_of(#[trigger] fetched[l]), q, range)
            && result_from_window(res, window_row_of(fetched[l]));
    assert(lo2 <= l < fetched.len() && window_hit(window_row_of(fetched[l]), q, range)
        && result_from_window(res, window_row_of(fetched[l])));
}

/// A result reported by the suffix at `lo` is no older than the sample at
/// `lo` when the samples are ordered by ascending start time.
proof fn lemma_entry_rep_newer(
    res: SearchResult,
    fetched: Seq<TimeEntry>,
    lo: int,
    q: Seq<char>,
    range: Option<(int, int)>,
)
    requires
        entry_rep(res, fetched, lo, q, range),
        sorted_by_start(fetched),
        0 <= lo < fetched.len(),
    ensures
        res.timestamp >= fetched[lo].start_time,
{
    let l = choose|l: int|
        lo <= l < fetched.len() && entry_hit(time_row_of_entry(#[trigger] fetched[l]), q, range)
            && result_from_entry(res, time_row_of_entry(fetched[l]));
    assert(fetched[lo].start_time <= fetched[l].start_time);
}

/// A result reported by the suffix at `lo` is no older than the sample at
/// `lo` when the samples are ordered by ascending timestamp.
proof fn lemma_window_rep_newer(
    res: SearchResult,
    fetched: Seq<WindowActivity>,
    lo: int,
    q: Seq<char>,
    range: Option<(int, int)>,
)
    requires
        window_rep(res, fetched, lo, q, range),
        forall|a: int, b: int|
            0 <= a < b < fetched.len() ==> (#[trigger] fetched[a]).timestamp <= (
            #[trigger] fetched[b]).timestamp,
        0 <= lo < fetched.len(),
    ensures
        res.timestamp >= fetched[lo].timestamp,
{
    let l = choose|l: int|
        lo <= l < fetched.len() && window_hit(window_row_of(#[trigger] fetched[l]), q, range)
            && result_from_window(res, window_row_of(fetched[l]));
    assert(fetched[lo].timestamp <= fetched[l].timestamp);
}

/// Pushing one more result keeps every already-reported row reported.
proof fn lemma_has_entry_result_push(v: Seq<SearchResult>, x: SearchResult, row: TimeRow)
    requires
        has_entry_result(v, row),
    ensures
        has_entry_result(v.push(x), row),
{
    let j = choose|j: int| 0 <= j < v.len() && result_from_entry(#[trigger] v[j], row);
    assert(v.push(x)[j] == v[j]);
    assert(result_from_entry(v.push(x)[j], row));
}

/// Pushing one more result keeps every already-reported row reported.
proof fn lemma_has_window_result_push(v: Seq<SearchResult>, x: SearchResult, row: WindowRow)
    requires
        has_window_result(v, row),
    ensures
        has_window_result(v.push(x), row),
{
    let j = choose|j: int| 0 <= j < v.len() && result_from_window(#[trigger] v[j], row);
    assert(v.push(x)[j] == v[j]);
    assert(result_from_window(v.push(x)[j], row));
}

/// Collects, newest first, one result per fetched time entry whose label
/// matches the query within the range.
fn collect_entry_hits(fetched: &Vec<TimeEntry>, query: &str, range: &Option<(i64, i64)>) -> (out:
    Vec<SearchResult>)
    requires
        sorted_by_start(fetched@),
    ensures
        sorted_desc(out@),
        out@.len() == entry_hits_upto(
            fetched@,
            query@,
            range_view(*range),
            fetched@.len() as int,
        ),
        forall|j: int|
            0 <= j < out@.len() ==> entry_rep(#[trigger] out@[j], fetched@, 0, query@, range_view(*range)),
        forall|l: int|
            0 <= l < fetched@.len() && entry_hit(
                time_row_of_entry(#[trigger] fetched@[l]),
                query@,
                range_view(*range),
            ) ==> has_entry_result(out@, time_row_of_entry(fetched@[l])),
{
    let ghost q = query@;
    let ghost rv = range_view(*range);
    let mut out: Vec<SearchResult> = Vec::new();
    let mut i: usize = fetched.len();
    while i > 0
        invariant
            i <= fetched@.len(),
            sorted_by_start(fetched@),
            sorted_desc(out@),
            q == query@,
            rv == range_view(*range),
            out@.len() + entry_hits_upto(fetched@, q, rv, i as int) == entry_hits_upto(
                fetched@,
                q,
                rv,
                fetched@.len() as int,
            ),
            forall|j: int|
                0 <= j < out@.len() ==> entry_rep(#[trigger] out@[j], fetched@, i as int, q, rv),
            forall|l: int|
                i <= l < fetched@.len() && entry_hit(
                    time_row_of_entry(#[trigger] fetched@[l]),
                    q,
                    rv,
                ) ==> has_entry_result(out@, time_row_of_entry(fetched@[l])),
        decreases i,
    {
        i -= 1;
        proof {
            assert(entry_hits_upto(fetched@, q, rv, i as int + 1) == entry_hits_upto(
                fetched@,
                q,
                rv,
                i as int,
            ) + (if entry_hit(time_row_of_entry(fetched@[i as int]), q, rv) {
                1int
            } else {
                0int
            }));
        }
        let is_hit = text_contains_ci(fetched[i].label.as_str(), query) && ts_in_range(
            fetched[i].start_time,
            range,
        );
        if is_hit {
            proof {
                assert forall|j: int| 0 <= j < out@.len() implies (#[trigger] out@[j]).timestamp
                    >= fetched@[i as int].start_time by {
                    lemma_entry_rep_newer(out@[j], fetched@, i + 1, q, rv);
                }
            }
            let ghost out_before = out@;
            out.push(SearchResult {
                kind: String::from_str("time_entry"),
                timestamp: fetched[i].start_time,
                title: fetched[i].label.clone(),
                process_name: None,
            });
            proof {
                let ghost row_i = time_row_of_entry(fetched@[i as int]);
                assert(result_from_entry(out@[out@.len() - 1], row_i));
                assert(entry_rep(out@[out@.len() - 1], fetched@, i as int, q, rv));
                assert(has_entry_result(out@, row_i));
                assert forall|j: int| 0 <= j < out@.len() - 1 implies entry_rep(
                    #[trigger] out@[j],
                    fetched@,
                    i as int,
                    q,
                    rv,
                ) by {
                    assert(out@[j] == out_before[j]);
                    lemma_entry_rep_widen(out_before[j], fetched@, i + 1, i as int, q, rv);
                }
                assert forall|l: int|
                    i <= l < fetched@.len() && entry_hit(
                        time_row_of_entry(#[trigger] fetched@[l]),
                        q,
                        rv,
                    ) implies has_entry_result(out@, time_row_of_entry(fetched@[l])) by {
                    if l == i {
                        assert(has_entry_result(out@, row_i));
                    } else {
                        lemma_has_entry_result_push(
                            out_before,
                            out@[out@.len() - 1],
                            time_row_of_entry(fetched@[l]),
                        );
                        assert(out@ == out_before.push(out@[out@.len() - 1]));
                    }
                }
            }
        } else {
            proof {
                assert forall|j: int| 0 <= j < out@.len() implies entry_rep(
                    #[trigger] out@[j],
                    fetched@,
                    i as int,
                    q,
                    rv,
                ) by {
                    lemma_entry_rep_widen(out@[j], fetched@, i + 1, i as int, q, rv);
                }
                assert(!entry_hit(time_row_of_entry(fetched@[i as int]), q, rv));
            }
        }
    }
    out
}

/// Collects, newest first, one result per fetched window sample whose
/// title matches the query within the range.
fn collect_window_hits(fetched: &Vec<WindowActivity>, query: &str, range: &Option<(i64, i64)>)
    -> (out: Vec<SearchResult>)
    requires
        forall|i: int, j: int|
            0 <= i < j < fetched@.len() ==> (#[trigger] fetched@[i]).timestamp <= (
            #[trigger] fetched@[j]).timestamp,
    ensures
        sorted_desc(out@),
        out@.len() == window_hits_upto(
            fetched@,
            query@,
            range_view(*range),
            fetched@.len() as int,
        ),
        forall|j: int|
            0 <= j < out@.len() ==> window_rep(#[trigger] out@[j], fetched@, 0, query@, range_view(*range)),
        forall|l: int|
            0 <= l < fetched@.len() && window_hit(
                window_row_of(#[trigger] fetched@[l]),
                query@,
                range_view(*range),
            ) ==> has_window_result(out@, window_row_of(fetched@[l])),
{
    let ghost q = query@;
    let ghost rv = range_view(*range);
    let mut out: Vec<SearchResult> = Vec::new();
    let mut i: usize = fetched.len();
    while i > 0
        invariant
            i <= fetched@.len(),
            forall|a: int, b: int|
                0 <= a < b < fetched@.len() ==> (#[trigger] fetched@[a]).timestamp <= (
                #[trigger] fetched@[b]).timestamp,
            sorted_desc(out@),
            q == query@,
            rv == range_view(*range),
            out@.len() + window_hits_upto(fetched@, q, rv, i as int) == window_hits_upto(
                fetched@,
                q,
                rv,
                fetched@.len() as int,
            ),
            forall|j: int|
                0 <= j < out@.len() ==> window_rep(#[trigger] out@[j], fetched@, i as int, q, rv),
            forall|l: int|
                i <= l < fetched@.len() && window_hit(
                    window_row_of(#[trigger] fetched@[l]),
                    q,
                    rv,
                ) ==> has_window_result(out@, window_row_of(fetched@[l])),
        decreases i,
    {
        i -= 1;
        proof {
            assert(window_hits_upto(fetched@, q, rv, i as int + 1) == window_hits_upto(
                fetched@,
                q,
                rv,
                i as int,
            ) + (if window_hit(window_row_of(fetched@[i as int]), q, rv) {
                1int
            } else {
                0int
            }));
        }
        let is_hit = text_contains_ci(fetched[i].window_title.as_str(), query) && ts_in_range(
            fetched[i].timestamp,
            range,
        );
        if is_hit {
            proof {
                assert forall|j: int| 0 <= j < out@.len() implies (#[trigger] out@[j]).timestamp
                    >= fetched@[i as int].timestamp by {
                    lemma_window_rep_newer(out@[j], fetched@, i + 1, q, rv);
                }
            }
            let ghost out_before = out@;
            out.push(SearchResult {
                kind: String::from_str("window_activity"),
                timestamp: fetched[i].timestamp,
                title: fetched[i].window_title.clone(),
                process_name: Some(fetched[i].process_name.clone()),
            });
            proof {
                let ghost row_i = window_row_of(fetched@[i as int]);
                assert(result_from_window(out@[out@.len() - 1], row_i));
                assert(window_rep(out@[out@.len() - 1], fetched@, i as int, q, rv));
                assert(has_window_result(out@, row_i));
                assert forall|j: int| 0 <= j < out@.len() - 1 implies window_rep(
                    #[trigger] out@[j],
                    fetched@,
                    i as int,
                    q,
                    rv,
                ) by {
                    assert(out@[j] == out_before[j]);
                    lemma_window_rep_widen(out_before[j], fetched@, i + 1, i as int, q, rv);
                }
                assert forall|l: int|
                    i <= l < fetched@.len() && window_hit(
                        window_row_of(#[trigger] fetched@[l]),
                        q,
                        rv,
                    ) implies has_window_result(out@, window_row_of(fetched@[l])) by {
                    if l == i {
                        assert(has_window_result(out@, row_i));
                    } else {
                        lemma_has_window_result_push(
                            out_before,
                            out@[out@.len() - 1],
                            window_row_of(fetched@[l]),
                        );
                        assert(out@ == out_before.push(out@[out@.len() - 1]));
                    }
                }
            }
        } else {
            proof {
                assert forall|j: int| 0 <= j < out@.len() implies window_rep(
                    #[trigger] out@[j],
                    fetched@,
                    i as int,
                    q,
                    rv,
                ) by {
                    lemma_window_rep_widen(out@[j], fetched@, i + 1, i as int, q, rv);
                }
                assert(!window_hit(window_row_of(fetched@[i as int]), q, rv));
            }
        }
    }
    out
}

/// Merges two newest-first result lists into one newest-first list holding
/// a copy of every element of both.
fn merge_desc(a: &Vec<SearchResult>, b: &Vec<SearchResult>) -> (out: Vec<SearchResult>)
    requires
        sorted_desc(a@),
        sorted_desc(b@),
    ensures
        sorted_desc(out@),
        out@.len() == a@.len() + b@.len(),
        forall|j: int|
            0 <= j < out@.len() ==> (exists|l: int|
                0 <= l < a@.len() && result_like(#[trigger] out@[j], a@[l])) || (exists|l: int|
                0 <= l < b@.len() && result_like(out@[j], b@[l])),
        forall|l: int|
            0 <= l < a@.len() ==> exists|j: int|
                0 <= j < out@.len() && result_like(#[trigger] out@[j], #[trigger] a@[l]),
        forall|l: int|
            0 <= l < b@.len() ==> exists|j: int|
                0 <= j < out@.len() && result_like(#[trigger] out@[j], #[trigger] b@[l]),
{
    let mut out: Vec<SearchResult> = Vec::new();
    let mut ia: usize = 0;
    let mut ib: usize = 0;
    while ia < a.len() || ib < b.len()
        invariant
            ia <= a@.len(),
            ib <= b@.len(),
            sorted_desc(a@),
            sorted_desc(b@),
            sorted_desc(out@),
            out@.len() == ia + ib,
            ia < a@.len() ==> forall|j: int|
                0 <= j < out@.len() ==> (#[trigger] out@[j]).timestamp >= a@[ia as int].timestamp,
            ib < b@.len() ==> forall|j: int|
                0 <= j < out@.len() ==> (#[trigger] out@[j]).timestamp >= b@[ib as int].timestamp,
            forall|j: int|
                0 <= j < out@.len() ==> (exists|l: int|
                    0 <= l < ia && result_like(#[trigger] out@[j], a@[l])) || (exists|l: int|
                    0 <= l < ib && result_like(out@[j], b@[l])),
            forall|l: int|
                0 <= l < ia ==> exists|j: int|
                    0 <= j < out@.len() && result_like(#[trigger] out@[j], #[trigger] a@[l]),
            forall|l: int|
                0 <= l < ib ==> exists|j: int|
                    0 <= j < out@.len() && result_like(#[trigger] out@[j], #[trigger] b@[l]),
        decreases a@.len() + b@.len() - ia - ib,
    {
        let take_a = if ia < a.len() {
            if ib < b.len() {
                a[ia].timestamp >= b[ib].timestamp
            } else {
                true
            }
        } else {
            false
        };
        let ghost out_before = out@;
        if take_a {
            out.push(clone_result(&a[ia]));
            proof {
                assert(result_like(out@[out@.len() - 1], a@[ia as int]));
                assert forall|l: int| 0 <= l < ia + 1 implies exists|j: int|
                    0 <= j < out@.len() && result_like(#[trigger] out@[j], #[trigger] a@[l]) by {
                    if l == ia {
                        assert(result_like(out@[out@.len() - 1], a@[l]));
                    } else {
                        let j0 = choose|j0: int|
                            0 <= j0 < out_before.len() && result_like(
                                #[trigger] out_before[j0],
                                a@[l],
                            );
                        assert(result_like(out@[j0], a@[l]));
                    }
                }
                assert forall|l: int| 0 <= l < ib implies exists|j: int|
                    0 <= j < out@.len() && result_like(#[trigger] out@[j], #[trigger] b@[l]) by {
                    let j0 = choose|j0: int|
                        0 <= j0 < out_before.len() && result_like(#[trigger] out_before[j0], b@[l]);
                    assert(result_like(out@[j0], b@[l]));
                }
            }
            ia += 1;
        } else {
            out.push(clone_result(&b[ib]));
            proof {
                assert(result_like(out@[out@.len() - 1], b@[ib as int]));
                assert forall|l: int| 0 <= l < ib + 1 implies exists|j: int|
                    0 <= j < out@.len() && result_like(#[trigger] out@[j], #[trigger] b@[l]) by {
                    if l == ib {
                        assert(result_like(out@[out@.len() - 1], b@[l]));
                    } else {
                        let j0 = choose|j0: int|
                            0 <= j0 < out_before.len() && result_like(
                                #[trigger] out_before[j0],
                                b@[l],
                            );
                        assert(result_like(out@[j0], b@[l]));
                    }
                }
                assert forall|l: int| 0 <= l < ia implies exists|j: int|
                    0 <= j < out@.len() && result_like(#[trigger] out@[j], #[trigger] a@[l]) by {
                    let j0 = choose|j0: int|
                        0 <= j0 < out_before.len() && result_like(#[trigger] out_before[j0], a@[l]);
                    assert(result_like(out@[j0], a@[l]));
                }
            }
            ib += 1;
        }
    }
    out
}

/// Runs the search against the store: every stored time entry and window
/// sample whose label or title contains the query (up to ASCII case) and
/// whose timestamp lies in the range, newest first, capped at 100 rows.
#[verifier::rlimit(100)]
#[verifier::spinoff_prover]
fn search_core(s: &Store, query: &str, range: Option<(i64, i64)>) -> (r: AppResult<
    Vec<SearchResult>,
>)
    ensures
        r matches Ok(v) ==> search_answer_ok(
            v@,
            time_rows(s.conn),
            window_rows(s.conn),
            query@,
            range_view(range),
        ),
        r is Err ==> r matches Err(AppError::Storage(_)),
{
    let ghost m = time_rows(s.conn);
    let ghost w = window_rows(s.conn);
    let ghost q = query@;
    let ghost rv = range_view(range);
    let entries = match db_fetch_time_entries(s) {
        Ok(v) => v,
        Err(e) => {
            return Err(e);
        },
    };
    let windows = match db_fetch_window_rows(s) {
        Ok(v) => v,
        Err(e) => {
            return Err(e);
        },
    };
    let ea = collect_entry_hits(&entries, query, &range);
    let wa = collect_window_hits(&windows, query, &range);
    let mut merged = merge_desc(&ea, &wa);
    let ghost full = merged@;
    merged.truncate(100);
    proof {
        // Every element of the merged list reports a stored match.
        assert forall|i: int| 0 <= i < full.len() implies result_supported_one(
            #[trigger] full[i],
            m,
            w,
            q,
            rv,
        ) by {
            if exists|l: int| 0 <= l < ea@.len() && result_like(full[i], #[trigger] ea@[l]) {
                let l = choose|l: int| 0 <= l < ea@.len() && result_like(full[i], #[trigger] ea@[l]);
                let l2 = choose|l2: int|
                    0 <= l2 < entries@.len() && entry_hit(
                        time_row_of_entry(#[trigger] entries@[l2]),
                        q,
                        rv,
                    ) && result_from_entry(ea@[l], time_row_of_entry(entries@[l2]));
                assert(m.contains_pair(
                    entries@[l2].id as int,
                    time_row_of_entry(entries@[l2]),
                ));
                assert(m.dom().contains(entries@[l2].id as int));
                assert(result_from_entry(full[i], m[entries@[l2].id as int]));
            } else {
                let l = choose|l: int| 0 <= l < wa@.len() && result_like(full[i], #[trigger] wa@[l]);
                let l2 = choose|l2: int|
                    0 <= l2 < windows@.len() && window_hit(
                        window_row_of(#[trigger] windows@[l2]),
                        q,
                        rv,
                    ) && result_from_window(wa@[l], window_row_of(windows@[l2]));
                assert(w.contains(window_row_of(windows@[l2])));
                assert(result_from_window(full[i], window_row_of(windows@[l2])));
            }
        }
        assert(merged@ == full.subrange(0, if full.len() < 100 { full.len() as int } else { 100 }));
        assert forall|i: int| 0 <= i < merged@.len() implies merged@[i] == full[i] by {}
        // Every stored entry match is reported or displaced.
        assert forall|k: int| #[trigger] m.dom().contains(k) && entry_hit(m[k], q, rv) implies ((
        exists|i: int| 0 <= i < merged@.len() && result_from_entry(#[trigger] merged@[i], m[k])) || (
        merged@.len() == 100 && forall|i: int|
            0 <= i < merged@.len() ==> (#[trigger] merged@[i]).timestamp as int >= m[k].0)) by {
            let l = choose|l: int|
                0 <= l < entries@.len() && (#[trigger] entries@[l]).id as int == k;
            assert(m.contains_pair(entries@[l].id as int, time_row_of_entry(entries@[l])));
            assert(time_row_of_entry(entries@[l]) == m[k]);
            assert(has_entry_result(ea@, time_row_of_entry(entries@[l])));
            let j = choose|j: int|
                0 <= j < ea@.len() && result_from_entry(#[trigger] ea@[j], m[k]);
            let jm = choose|jm: int|
                0 <= jm < full.len() && result_like(#[trigger] full[jm], ea@[j]);
            assert(result_from_entry(full[jm], m[k]));
            if jm < 100 {
                assert(merged@[jm] == full[jm]);
            } else {
                assert(full.len() > 100);
                assert(merged@.len() == 100);
                assert forall|i: int| 0 <= i < merged@.len() implies (
                #[trigger] merged@[i]).timestamp as int >= m[k].0 by {
                    assert(merged@[i] == full[i]);
                    assert(full[i].timestamp >= full[jm].timestamp);
                }
            }
        }
        // Every stored window match is reported or displaced.
        assert forall|row: WindowRow| #[trigger] w.contains(row) && window_hit(row, q, rv) implies ((
        exists|i: int| 0 <= i < merged@.len() && result_from_window(#[trigger] merged@[i], row)) || (
        merged@.len() == 100 && forall|i: int|
            0 <= i < merged@.len() ==> (#[trigger] merged@[i]).timestamp as int >= row.0)) by {
            let l = choose|l: int|
                0 <= l < windows@.len() && window_row_of(#[trigger] windows@[l]) == row;
            assert(window_hit(window_row_of(windows@[l]), q, rv));
            assert(has_window_result(wa@, row));
            let j = choose|j: int|
                0 <= j < wa@.len() && result_from_window(#[trigger] wa@[j], row);
            let jm = choose|jm: int|
                0 <= jm < full.len() && result_like(#[trigger] full[jm], wa@[j]);
            assert(result_from_window(full[jm], row));
            if jm < 100 {
                assert(merged@[jm] == full[jm]);
            } else {
                assert(full.len() > 100);
                assert(merged@.len() == 100);
                assert forall|i: int| 0 <= i < merged@.len() implies (
                #[trigger] merged@[i]).timestamp as int >= row.0 by {
                    assert(merged@[i] == full[i]);
                    assert(full[i].timestamp >= full[jm].timestamp);
                }
            }
        }
        assert forall|i: int, j: int| 0 <= i < j < merged@.len() implies (
        #[trigger] merged@[i]).timestamp >= (#[trigger] merged@[j]).timestamp by {
            assert(merged@[i] == full[i] && merged@[j] == full[j]);
        }
        assert forall|i: int| 0 <= i < merged@.len() implies result_supported_one(
            #[trigger] merged@[i],
            m,
            w,
            q,
            rv,
        ) by {
            assert(merged@[i] == full[i]);
        }
        lemma_entry_match_count(entries@, m, q, rv);
        lemma_window_match_count(windows@, w, q, rv);
        assert(full.len() == entry_match_keys(m, q, rv).len() + window_match_count(w, q, rv));
        assert(merged@.len() == capped_at_100(
            entry_match_keys(m, q, rv).len() + window_match_count(w, q, rv) as int,
        ));
    }
    Ok(merged)
}

/// Searches time-entry labels and window titles for the query text,
/// case-insensitively.
///
/// Fails with `Validation` exactly when the query is shorter than two
/// characters; otherwise returns, newest first and capped at 100 rows,
/// every stored match.
pub fn search_activities_impl(s: &Store, query: &str) -> (r: AppResult<Vec<SearchResult>>)
    ensures
        (r matches Err(AppError::Validation(_))) <==> query@.len() < 2,
        r matches Ok(v) ==> search_answer_ok(
            v@,
            time_rows(s.conn),
            window_rows(s.conn),
            query@,
            None,
        ),
        r is Err ==> (r matches Err(AppError::Validation(_))) || (r matches Err(
            AppError::Storage(_),
        )),
{
    if query.unicode_len() < 2 {
        return Err(AppError::Validation(String::from_str("Query must be at least 2 characters")));
    }
    search_core(s, query, None)
}

/// Searches time-entry labels and window titles for the query text within
/// the half-open time range `[start_of_day, end_of_day)`.
///
/// Fails with `Validation` exactly when the query is shorter than two
/// characters; otherwise returns, newest first and capped at 100 rows,
/// every stored match in the range.
pub fn search_activities_by_date_impl(
    s: &Store,
    query: &str,
    start_of_day: i64,
    end_of_day: i64,
) -> (r: AppResult<Vec<SearchResult>>)
    ensures
        (r matches Err(AppError::Validation(_))) <==> query@.len() < 2,
        r matches Ok(v) ==> search_answer_ok(
            v@,
            time_rows(s.conn),
            window_rows(s.conn),
            query@,
            Some((start_of_day as int, end_of_day as int)),
        ),
        r is Err ==> (r matches Err(AppError::Validation(_))) || (r matches Err(
            AppError::Storage(_),
        )),
{
    if query.unicode_len() < 2 {
        return Err(AppError::Validation(String::from_str("Query must be at least 2 characters")));
    }
    search_core(s, query, Some((start_of_day, end_of_day)))
}

} // verus!
