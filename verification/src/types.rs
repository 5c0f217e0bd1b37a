//! The record types of the timeline: labeled time entries, categories,
//! window-activity samples, screenshots, idle periods and process samples,
//! together with the spec-level row shapes the store's contracts use.

use vstd::prelude::*;

verus! {

/// A labeled block of time `[start_time, end_time)` in epoch milliseconds.
#[derive(Debug)]
pub struct TimeEntry {
    pub id: i64,
    pub start_time: i64,
    pub end_time: i64,
    pub label: String,
    pub color: Option<String>,
    pub category_id: Option<i64>,
}

/// Input for creating a time entry; the id is assigned by the store.
#[derive(Debug)]
pub struct TimeEntryInput {
    pub start_time: i64,
    pub end_time: i64,
    pub label: String,
    pub color: Option<String>,
    pub category_id: Option<i64>,
}

/// A partial update of a time entry: only the present fields change.
#[derive(Debug)]
pub struct TimeEntryUpdate {
    pub start_time: Option<i64>,
    pub end_time: Option<i64>,
    pub label: Option<String>,
    pub color: Option<String>,
    pub category_id: Option<i64>,
}

/// A user-defined category that time entries may reference.
#[derive(Debug)]
pub struct Category {
    pub id: i64,
    pub name: String,
    pub color: Option<String>,
}

/// Input for creating or updating a category.
#[derive(Debug)]
pub struct CategoryInput {
    pub name: String,
    pub color: Option<String>,
}

/// One sample of the active window: what was focused and when.
#[derive(Debug)]
pub struct WindowActivity {
    pub timestamp: i64,
    pub window_title: String,
    pub process_name: String,
}

/// A freshly captured window sample, before it is stored.
#[derive(Debug)]
pub struct WindowActivityCapture {
    pub timestamp: i64,
    pub window_title: String,
    pub process_name: String,
}

/// One second-aligned sample of the foreground process.
#[derive(Debug)]
pub struct ProcessSample {
    pub timestamp: i64,
    pub process_name: String,
}

/// A span of detected inactivity, awaiting or carrying a resolution.
#[derive(Debug)]
pub struct IdlePeriod {
    pub id: i64,
    pub start_time: i64,
    pub end_time: i64,
    pub resolution: Option<String>,
}

/// A request to resolve an idle period: the kind of resolution and the
/// fields the kind requires.
#[derive(Debug)]
pub struct IdlePeriodResolution {
    pub id: i64,
    pub resolution: String,
    pub target_entry_id: Option<i64>,
    pub new_entry_label: Option<String>,
}

/// One hit of a search over time-entry labels and window titles.
#[derive(Debug)]
pub struct SearchResult {
    pub kind: String,
    pub timestamp: i64,
    pub title: String,
    pub process_name: Option<String>,
}

/// A search request: the query text and an optional row cap.
#[derive(Debug)]
pub struct SearchQuery {
    pub query: String,
    pub limit: Option<i32>,
}

/// What a screenshot lookup near a timestamp yields: a stored path, an
/// inline preview, or a placeholder when nothing is near enough.
#[derive(Debug)]
pub struct ScreenshotInfo {
    pub file_path: Option<String>,
    pub data_url: Option<String>,
    pub placeholder: Option<String>,
}

/// Range and content options for a CSV export.
#[derive(Debug)]
pub struct ExportOptions {
    pub start_date: Option<i64>,
    pub end_date: Option<i64>,
    pub include_screenshots: bool,
}

/// A full snapshot of the stored timeline.
#[derive(Debug)]
pub struct ExportData {
    pub version: String,
    pub exported_at: String,
    pub time_entries: Vec<TimeEntry>,
    pub screenshots: Vec<ScreenshotRef>,
    pub window_activities: Vec<WindowActivity>,
    pub idle_periods: Vec<IdlePeriod>,
}

/// A reference to one stored screenshot file.
#[derive(Debug)]
pub struct ScreenshotRef {
    pub timestamp: i64,
    pub file_path: String,
}

/// The spec-level view of an optional string.
pub open spec fn opt_str_view(o: Option<String>) -> Option<Seq<char>> {
    match o {
        Some(s) => Some(s@),
        None => None,
    }
}

/// The spec-level view of an optional integer.
pub open spec fn opt_int_view(o: Option<i64>) -> Option<int> {
    match o {
        Some(n) => Some(n as int),
        None => None,
    }
}

/// The stored shape of a time entry: `(start, end, label, color, category)`.
pub type TimeRow = (int, int, Seq<char>, Option<Seq<char>>, Option<int>);

/// The stored shape of a category: `(name, color)`.
pub type CategoryRow = (Seq<char>, Option<Seq<char>>);

/// The stored shape of a window-activity sample:
/// `(timestamp, window_title, process_name)`.
pub type WindowRow = (int, Seq<char>, Seq<char>);

/// The stored shape of a screenshot record: `(timestamp, file_path, day_id)`.
pub type ScreenshotRow = (int, Seq<char>, int);

/// The stored shape of an idle period: `(start, end, resolution)`.
pub type IdleRow = (int, int, Option<Seq<char>>);

/// The stored row of a time entry, as written from an input.
pub open spec fn time_row_of_input(e: TimeEntryInput) -> TimeRow {
    (e.start_time as int, e.end_time as int, e.label@, opt_str_view(e.color), opt_int_view(
        e.category_id,
    ))
}

/// The stored row matching a full entry.
pub open spec fn time_row_of_entry(e: TimeEntry) -> TimeRow {
    (e.start_time as int, e.end_time as int, e.label@, opt_str_view(e.color), opt_int_view(
        e.category_id,
    ))
}

/// The stored row of a window-activity sample.
pub open spec fn window_row_of(w: WindowActivity) -> WindowRow {
    (w.timestamp as int, w.window_title@, w.process_name@)
}

/// The stored row of a screenshot record, from its timestamp, path and
/// day id.
pub open spec fn shot_row_of(t: (i64, String, i64)) -> ScreenshotRow {
    (t.0 as int, t.1@, t.2 as int)
}

/// The stored row matching an idle period (its id is the key).
pub open spec fn idle_row_of(p: IdlePeriod) -> IdleRow {
    (p.start_time as int, p.end_time as int, opt_str_view(p.resolution))
}

/// The stored row matching a category (its id is the key).
pub open spec fn category_row_of(c: Category) -> CategoryRow {
    (c.name@, opt_str_view(c.color))
}

} // verus!
