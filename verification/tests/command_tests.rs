// End-to-end tests against a file-backed store.

use tempfile::TempDir;

use digital_diary::db::Store;
use digital_diary::export::export_to_csv_impl;
use digital_diary::search::search_activities_impl;
use digital_diary::time_entries::{
    create_time_entry_impl, delete_time_entry_impl, get_time_entries_impl, update_time_entry_impl,
};
use digital_diary::types::{ExportOptions, TimeEntryInput, TimeEntryUpdate};

fn open_store(dir: &TempDir) -> Store {
    let path = dir.path().join("test.db");
    Store::open_at_path(path.to_str().unwrap()).expect("Failed to initialize database")
}

#[test]
fn test_create_time_entry_command() {
    let temp_dir = TempDir::new().expect("Failed to create temp directory");
    let mut conn = open_store(&temp_dir);

    let input = TimeEntryInput {
        start_time: 1000,
        end_time: 2000,
        label: "Test Entry".to_string(),
        color: Some("#4CAF50".to_string()),
        category_id: None,
    };

    let result = create_time_entry_impl(&mut conn, &input);
    assert!(result.is_ok(), "Create time entry should succeed");

    let entry = result.unwrap();
    assert!(entry.id > 0, "Entry ID should be positive");

    let count: i64 = conn
        .conn
        .query_row("SELECT COUNT(*) FROM time_entries WHERE id = ?1", (entry.id,), |row| {
            row.get(0)
        })
        .expect("Failed to query time entry");

    assert_eq!(count, 1, "Entry should exist in database");
}

#[test]
fn test_get_time_entries_command() {
    let temp_dir = TempDir::new().expect("Failed to create temp directory");
    let mut conn = open_store(&temp_dir);

    for (start, end, label) in [(1000, 2000, "One"), (3000, 4000, "Two"), (5000, 6000, "Three")] {
        let input = TimeEntryInput {
            start_time: start,
            end_time: end,
            label: label.to_string(),
            color: None,
            category_id: None,
        };
        create_time_entry_impl(&mut conn, &input).unwrap();
    }

    let entries = get_time_entries_impl(&conn, 0).unwrap();
    assert_eq!(entries.len(), 3);
    assert_eq!(entries[0].label, "One");
    assert_eq!(entries[2].label, "Three");
}

#[test]
fn test_update_time_entry_command() {
    let temp_dir = TempDir::new().expect("Failed to create temp directory");
    let mut conn = open_store(&temp_dir);

    let input = TimeEntryInput {
        start_time: 1000,
        end_time: 2000,
        label: "Before".to_string(),
        color: None,
        category_id: None,
    };
    let entry = create_time_entry_impl(&mut conn, &input).unwrap();

    let updates = TimeEntryUpdate {
        start_time: Some(1500),
        end_time: Some(2500),
        label: Some("After".to_string()),
        color: None,
        category_id: None,
    };
    let updated = update_time_entry_impl(&mut conn, entry.id, &updates).unwrap();
    assert_eq!(updated.label, "After");
    assert_eq!(updated.start_time, 1500);
    assert_eq!(updated.end_time, 2500);
}

#[test]
fn test_delete_time_entry_command() {
    let temp_dir = TempDir::new().expect("Failed to create temp directory");
    let mut conn = open_store(&temp_dir);

    let input = TimeEntryInput {
        start_time: 1000,
        end_time: 2000,
        label: "Doomed".to_string(),
        color: None,
        category_id: None,
    };
    let entry = create_time_entry_impl(&mut conn, &input).unwrap();

    delete_time_entry_impl(&mut conn, entry.id).unwrap();

    let count: i64 = conn
        .conn
        .query_row("SELECT COUNT(*) FROM time_entries", (), |row| row.get(0))
        .unwrap();
    assert_eq!(count, 0);
}

#[test]
fn test_search_activities_command() {
    let temp_dir = TempDir::new().expect("Failed to create temp directory");
    let mut conn = open_store(&temp_dir);

    let input = TimeEntryInput {
        start_time: 1000,
        end_time: 2000,
        label: "Searchable work".to_string(),
        color: None,
        category_id: None,
    };
    create_time_entry_impl(&mut conn, &input).unwrap();

    let hits = search_activities_impl(&conn, "searchable").unwrap();
    assert_eq!(hits.len(), 1);
    assert_eq!(hits[0].title, "Searchable work");
}

#[test]
fn test_export_to_csv_command() {
    let temp_dir = TempDir::new().expect("Failed to create temp directory");
    let mut conn = open_store(&temp_dir);

    let input = TimeEntryInput {
        start_time: 1000,
        end_time: 2000,
        label: "Work".to_string(),
        color: Some("#FF0000".to_string()),
        category_id: None,
    };
    create_time_entry_impl(&mut conn, &input).unwrap();

    let options = ExportOptions { start_date: None, end_date: None, include_screenshots: false };
    let content = export_to_csv_impl(&conn, &options).unwrap();
    assert!(content.starts_with("id,start_time,end_time,label,color,category_id\n"));
    assert!(content.contains("Work"));
    assert!(content.contains("#FF0000"));
}

#[test]
fn test_command_error_handling() {
    let temp_dir = TempDir::new().expect("Failed to create temp directory");
    let mut conn = open_store(&temp_dir);

    let update = TimeEntryUpdate {
        start_time: None,
        end_time: None,
        label: Some("Updated Label".to_string()),
        color: None,
        category_id: None,
    };

    let result = update_time_entry_impl(&mut conn, 99999, &update);
    assert!(result.is_err(), "Update non-existent entry should fail");

    let result = delete_time_entry_impl(&mut conn, 99999);
    assert!(result.is_err(), "Delete non-existent entry should fail");
}

#[test]
fn test_command_validation() {
    let temp_dir = TempDir::new().expect("Failed to create temp directory");
    let mut conn = open_store(&temp_dir);

    let input = TimeEntryInput {
        start_time: 2000,
        end_time: 1000,
        label: "Invalid Entry".to_string(),
        color: Some("#4CAF50".to_string()),
        category_id: None,
    };

    let result = create_time_entry_impl(&mut conn, &input);
    assert!(result.is_err(), "Create entry with invalid data should fail");

    let count: i64 = conn
        .conn
        .query_row("SELECT COUNT(*) FROM time_entries", (), |row| row.get(0))
        .expect("Failed to query time entries");

    assert_eq!(count, 0, "Entry should not be created");
}

#[test]
fn test_database_initialization() {
    let temp_dir = TempDir::new().expect("Failed to create temp directory");
    let conn = open_store(&temp_dir);

    for table in
        ["time_entries", "categories", "screenshots", "window_activity", "idle_periods",
        "process_samples"]
    {
        let exists: i64 = conn
            .conn
            .query_row(
                "SELECT COUNT(*) FROM sqlite_master WHERE type='table' AND name=?1",
                (table,),
                |row| row.get(0),
            )
            .expect("Failed to query database");
        assert_eq!(exists, 1, "table should exist");
    }
}

#[test]
fn test_database_connection_persistence() {
    let temp_dir = TempDir::new().expect("Failed to create temp directory");
    {
        let mut conn = open_store(&temp_dir);
        let input = TimeEntryInput {
            start_time: 1000,
            end_time: 2000,
            label: "Persisted".to_string(),
            color: None,
            category_id: None,
        };
        create_time_entry_impl(&mut conn, &input).unwrap();
    }

    // Reopen the same file: the entry must still be there.
    let conn = open_store(&temp_dir);
    let entries = get_time_entries_impl(&conn, 0).unwrap();
    assert_eq!(entries.len(), 1);
    assert_eq!(entries[0].label, "Persisted");
}
