use digital_diary::db::Store;
use digital_diary::time_entries::{
    create_time_entry_impl, delete_time_entry_impl, get_time_entries_impl, update_time_entry_impl,
};
use digital_diary::types::{TimeEntryInput, TimeEntryUpdate};

fn setup_test_db() -> Store {
    Store::open_in_memory().unwrap()
}

fn input(start: i64, end: i64, label: &str, color: Option<&str>) -> TimeEntryInput {
    TimeEntryInput {
        start_time: start,
        end_time: end,
        label: label.to_string(),
        color: color.map(|c| c.to_string()),
        category_id: None,
    }
}

#[test]
fn test_create_time_entry() {
    let mut conn = setup_test_db();

    let input = input(1705490400000, 1705494000000, "Test Task", Some("#4CAF50"));

    let result = create_time_entry_impl(&mut conn, &input);
    assert!(result.is_ok());

    let entry = result.unwrap();
    assert_eq!(entry.label, "Test Task");
    assert_eq!(entry.start_time, 1705490400000);
    assert_eq!(entry.end_time, 1705494000000);
    assert_eq!(entry.color, Some("#4CAF50".to_string()));
}

#[test]
fn test_create_time_entry_validation() {
    let mut conn = setup_test_db();

    // Invalid: end_time <= start_time
    let input = input(1705494000000, 1705490400000, "Invalid Task", None);

    let result = create_time_entry_impl(&mut conn, &input);
    assert!(result.is_err());
    assert!(result
        .unwrap_err()
        .message()
        .contains("end_time must be greater than start_time"));
}

#[test]
fn test_get_time_entries() {
    let mut conn = setup_test_db();

    create_time_entry_impl(&mut conn, &input(1705490400000, 1705494000000, "Task 1", None))
        .unwrap();
    create_time_entry_impl(&mut conn, &input(1705497600000, 1705501200000, "Task 2", None))
        .unwrap();

    let day_start = 1705449600000;
    let result = get_time_entries_impl(&conn, day_start);
    assert!(result.is_ok());

    let entries = result.unwrap();
    assert_eq!(entries.len(), 2);
    assert_eq!(entries[0].label, "Task 1");
    assert_eq!(entries[1].label, "Task 2");
}

#[test]
fn test_update_time_entry() {
    let mut conn = setup_test_db();

    let entry = create_time_entry_impl(
        &mut conn,
        &input(1705490400000, 1705494000000, "Original Task", None),
    )
    .unwrap();

    let updates = TimeEntryUpdate {
        start_time: None,
        end_time: None,
        label: Some("Updated Task".to_string()),
        color: Some("#FF5733".to_string()),
        category_id: None,
    };

    let result = update_time_entry_impl(&mut conn, entry.id, &updates);
    assert!(result.is_ok());

    let updated = result.unwrap();
    assert_eq!(updated.label, "Updated Task");
    assert_eq!(updated.color, Some("#FF5733".to_string()));
}

#[test]
fn test_delete_time_entry() {
    let mut conn = setup_test_db();

    let entry = create_time_entry_impl(
        &mut conn,
        &input(1705490400000, 1705494000000, "Task to Delete", None),
    )
    .unwrap();

    let result = delete_time_entry_impl(&mut conn, entry.id);
    assert!(result.is_ok());

    let day_start = 1705449600000;
    let entries = get_time_entries_impl(&conn, day_start).unwrap();
    assert_eq!(entries.len(), 0);
}

#[test]
fn test_empty_label_validation() {
    let mut conn = setup_test_db();

    let input = input(1705490400000, 1705494000000, "", None);

    let result = create_time_entry_impl(&mut conn, &input);
    assert!(result.is_err());
    assert!(result.unwrap_err().message().contains("Label cannot be empty"));
}

#[test]
fn test_overlap_detection() {
    let mut conn = setup_test_db();

    create_time_entry_impl(&mut conn, &input(1705490400000, 1705494000000, "Task 1", None))
        .unwrap();

    // Overlapping entry (10:30 - 11:30)
    let result = create_time_entry_impl(
        &mut conn,
        &input(1705492200000, 1705495800000, "Task 2", None),
    );
    assert!(result.is_err());
    assert!(result.unwrap_err().message().contains("overlaps"));
}

#[test]
fn test_no_overlap_adjacent() {
    let mut conn = setup_test_db();

    create_time_entry_impl(&mut conn, &input(1705490400000, 1705494000000, "Task 1", None))
        .unwrap();

    // Adjacent entry (11:00 - 12:00) must not be treated as an overlap.
    let result = create_time_entry_impl(
        &mut conn,
        &input(1705494000000, 1705497600000, "Task 2", None),
    );
    assert!(result.is_ok());
}

#[test]
fn end_to_end_conflict_then_adjacent() {
    let mut conn = setup_test_db();

    create_time_entry_impl(&mut conn, &input(1000, 2000, "Work", None)).unwrap();

    let conflict = create_time_entry_impl(&mut conn, &input(1500, 2500, "Lunch", None));
    assert!(conflict.is_err());
    assert!(conflict.unwrap_err().message().contains("overlaps"));

    let adjacent = create_time_entry_impl(&mut conn, &input(2000, 3000, "Lunch", None));
    assert!(adjacent.is_ok());

    let entries = get_time_entries_impl(&conn, 0).unwrap();
    assert_eq!(entries.len(), 2);
    assert_eq!(entries[0].label, "Work");
    assert_eq!(entries[1].label, "Lunch");
}

#[test]
fn update_into_overlap_fails_and_keeps_store() {
    let mut conn = setup_test_db();

    create_time_entry_impl(&mut conn, &input(1000, 2000, "First", None)).unwrap();
    let second = create_time_entry_impl(&mut conn, &input(3000, 4000, "Second", None)).unwrap();

    let updates = TimeEntryUpdate {
        start_time: Some(1500),
        end_time: Some(2500),
        label: None,
        color: None,
        category_id: None,
    };

    let result = update_time_entry_impl(&mut conn, second.id, &updates);
    assert!(result.is_err());
    assert!(result.unwrap_err().message().contains("overlaps"));

    let entries = get_time_entries_impl(&conn, 0).unwrap();
    assert_eq!(entries.len(), 2);
    assert_eq!(entries[1].start_time, 3000);
    assert_eq!(entries[1].end_time, 4000);
}

#[test]
fn update_no_fields_is_rejected() {
    let mut conn = setup_test_db();

    let entry = create_time_entry_impl(&mut conn, &input(1000, 2000, "Task", None)).unwrap();
    let updates = TimeEntryUpdate {
        start_time: None,
        end_time: None,
        label: None,
        color: None,
        category_id: None,
    };
    let result = update_time_entry_impl(&mut conn, entry.id, &updates);
    assert!(result.is_err());
    assert!(result.unwrap_err().message().contains("No updates provided"));
}
