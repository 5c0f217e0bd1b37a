use digital_diary::db::Store;
use digital_diary::search::{search_activities_by_date_impl, search_activities_impl};
use digital_diary::time_entries::create_time_entry_impl;
use digital_diary::types::{TimeEntryInput, WindowActivity};
use digital_diary::window_activity::insert_window_activity;

fn setup_test_db() -> Store {
    Store::open_in_memory().unwrap()
}

fn add_entry(conn: &mut Store, start: i64, end: i64, label: &str) {
    let input = TimeEntryInput {
        start_time: start,
        end_time: end,
        label: label.to_string(),
        color: None,
        category_id: None,
    };
    create_time_entry_impl(conn, &input).unwrap();
}

fn add_window(conn: &mut Store, timestamp: i64, title: &str, process: &str) {
    let activity = WindowActivity {
        timestamp,
        window_title: title.to_string(),
        process_name: process.to_string(),
    };
    insert_window_activity(conn, &activity).unwrap();
}

#[test]
fn test_search_minimum_length() {
    let conn = setup_test_db();
    let result = search_activities_impl(&conn, "a");
    assert!(result.is_err());
    assert_eq!(
        result.unwrap_err().message(),
        &"Query must be at least 2 characters".to_string()
    );
}

#[test]
fn test_search_empty_results() {
    let conn = setup_test_db();
    let result = search_activities_impl(&conn, "nothing").unwrap();
    assert!(result.is_empty());
}

#[test]
fn test_search_time_entries() {
    let mut conn = setup_test_db();

    add_entry(&mut conn, 1000, 2000, "Working on project");

    let result = search_activities_impl(&conn, "project").unwrap();

    assert_eq!(result.len(), 1);
    assert_eq!(result[0].kind, "time_entry");
    assert_eq!(result[0].title, "Working on project");
    assert!(result[0].process_name.is_none());
}

#[test]
fn test_search_window_activities() {
    let mut conn = setup_test_db();

    add_window(&mut conn, 1500, "VS Code - myproject", "code.exe");

    let result = search_activities_impl(&conn, "VS Code").unwrap();

    assert_eq!(result.len(), 1);
    assert_eq!(result[0].kind, "window_activity");
    assert_eq!(result[0].title, "VS Code - myproject");
    assert_eq!(result[0].process_name, Some("code.exe".to_string()));
}

#[test]
fn test_search_combined_results() {
    let mut conn = setup_test_db();

    add_entry(&mut conn, 1000, 2000, "Code review");
    add_window(&mut conn, 1500, "Visual Studio Code", "code.exe");

    let result = search_activities_impl(&conn, "Code").unwrap();

    assert_eq!(result.len(), 2);
}

#[test]
fn test_search_case_insensitive() {
    let mut conn = setup_test_db();

    add_entry(&mut conn, 1000, 2000, "MEETING notes");

    let result = search_activities_impl(&conn, "meeting").unwrap();
    assert_eq!(result.len(), 1);
}

#[test]
fn test_search_ordering_by_timestamp_desc() {
    let mut conn = setup_test_db();

    add_entry(&mut conn, 1000, 2000, "First task");
    add_entry(&mut conn, 3000, 4000, "Second task");

    let result = search_activities_impl(&conn, "task").unwrap();

    assert_eq!(result.len(), 2);
    assert_eq!(result[0].title, "Second task"); // newest first
    assert_eq!(result[1].title, "First task");
}

#[test]
fn search_mixed_case_substring_is_found() {
    let mut conn = setup_test_db();

    add_entry(&mut conn, 1000, 2000, "Absolutely focused");

    let result = search_activities_impl(&conn, "ab").unwrap();
    assert_eq!(result.len(), 1);
    assert_eq!(result[0].title, "Absolutely focused");
}

#[test]
fn search_is_capped_at_one_hundred_rows() {
    let mut conn = setup_test_db();

    let mut i: i64 = 0;
    while i < 120 {
        add_entry(&mut conn, i * 1000, i * 1000 + 500, "bulk work");
        i += 1;
    }

    let result = search_activities_impl(&conn, "bulk").unwrap();
    assert_eq!(result.len(), 100);
    // Newest first: the cap keeps the latest timestamps.
    assert_eq!(result[0].timestamp, 119_000);
    assert_eq!(result[99].timestamp, 20_000);
}

#[test]
fn search_by_range_filters_timestamps() {
    let mut conn = setup_test_db();

    add_entry(&mut conn, 1000, 2000, "ranged work");
    add_entry(&mut conn, 5000, 6000, "ranged play");
    add_window(&mut conn, 5500, "ranged window", "x.exe");

    let result = search_activities_by_date_impl(&conn, "ranged", 4000, 7000).unwrap();
    assert_eq!(result.len(), 2);
    assert_eq!(result[0].timestamp, 5500);
    assert_eq!(result[1].timestamp, 5000);
}

#[test]
fn search_returns_one_result_per_stored_row() {
    let mut conn = setup_test_db();

    add_entry(&mut conn, 1000, 2000, "dup task");
    add_entry(&mut conn, 3000, 4000, "dup task");
    add_window(&mut conn, 5000, "dup task window", "x.exe");

    let result = search_activities_impl(&conn, "dup").unwrap();
    assert_eq!(result.len(), 3);
}
