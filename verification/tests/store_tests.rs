use digital_diary::calendar::timestamp_to_day_id;
use digital_diary::categories::{
    create_category_impl, delete_category_impl, get_categories_impl, update_category_impl,
};
use digital_diary::db::Store;
use digital_diary::export::{export_data_impl, export_to_csv_impl};
use digital_diary::idle::{
    get_idle_period, get_idle_periods_for_day, insert_idle_period, resolve_idle_period_with_action,
    update_idle_period_resolution,
};
use digital_diary::process_samples::{
    delete_process_samples_before, get_process_samples_for_day, insert_process_sample,
};
use digital_diary::screenshot::{
    get_screenshot_near_time, get_screenshot_timestamps_for_day, get_screenshots_for_day,
    insert_screenshot,
};
use digital_diary::time_entries::{create_time_entry_impl, get_time_entries_impl};
use digital_diary::types::{
    CategoryInput, ExportOptions, IdlePeriodResolution, TimeEntryInput, WindowActivity,
};
use digital_diary::window_activity::{
    get_window_activities, insert_window_activities_batch, insert_window_activity,
};

fn setup_test_db() -> Store {
    Store::open_in_memory().unwrap()
}

fn add_entry(conn: &mut Store, start: i64, end: i64, label: &str, color: Option<&str>) -> i64 {
    let input = TimeEntryInput {
        start_time: start,
        end_time: end,
        label: label.to_string(),
        color: color.map(|c| c.to_string()),
        category_id: None,
    };
    create_time_entry_impl(conn, &input).unwrap().id
}

#[test]
fn test_timestamp_to_day_id() {
    // 2025-01-17 00:00:00 UTC
    let timestamp = 1737110400000;
    let day_id = timestamp_to_day_id(timestamp);

    assert_eq!(day_id, 20250117);
}

#[test]
fn day_id_of_epoch_start() {
    assert_eq!(timestamp_to_day_id(0), 19700101);
}

#[test]
fn test_idle_period_crud() {
    let mut conn = setup_test_db();

    let id = insert_idle_period(&mut conn, 10_000, 400_000).unwrap();
    assert!(id > 0);

    let period = get_idle_period(&conn, id).unwrap();
    assert_eq!(period.start_time, 10_000);
    assert_eq!(period.end_time, 400_000);
    assert!(period.resolution.is_none());

    update_idle_period_resolution(&mut conn, id, "discarded").unwrap();
    let resolved = get_idle_period(&conn, id).unwrap();
    assert_eq!(resolved.resolution, Some("discarded".to_string()));

    let for_day = get_idle_periods_for_day(&conn, 0, 86_400_000).unwrap();
    assert_eq!(for_day.len(), 1);
    assert_eq!(for_day[0].id, id);
}

#[test]
fn resolve_merged_without_target_fails_and_keeps_resolution_null() {
    let mut conn = setup_test_db();

    let id = insert_idle_period(&mut conn, 1000, 2000).unwrap();

    let request = IdlePeriodResolution {
        id,
        resolution: "merged".to_string(),
        target_entry_id: None,
        new_entry_label: None,
    };

    let result = resolve_idle_period_with_action(&mut conn, &request);
    assert!(result.is_err());
    assert!(result.unwrap_err().message().contains("target_entry_id required"));

    let period = get_idle_period(&conn, id).unwrap();
    assert!(period.resolution.is_none());
}

#[test]
fn resolve_merged_extends_target_entry() {
    let mut conn = setup_test_db();

    let entry_id = add_entry(&mut conn, 1000, 2000, "Work", None);
    let idle_id = insert_idle_period(&mut conn, 2000, 5000).unwrap();

    let request = IdlePeriodResolution {
        id: idle_id,
        resolution: "merged".to_string(),
        target_entry_id: Some(entry_id),
        new_entry_label: None,
    };

    let period = resolve_idle_period_with_action(&mut conn, &request).unwrap();
    assert_eq!(period.resolution, Some("merged".to_string()));

    let entries = get_time_entries_impl(&conn, 0).unwrap();
    assert_eq!(entries.len(), 1);
    assert_eq!(entries[0].end_time, 5000);
}

#[test]
fn resolve_labeled_creates_entry() {
    let mut conn = setup_test_db();

    let idle_id = insert_idle_period(&mut conn, 7000, 9000).unwrap();

    let request = IdlePeriodResolution {
        id: idle_id,
        resolution: "labeled".to_string(),
        target_entry_id: None,
        new_entry_label: Some("Reading".to_string()),
    };

    let period = resolve_idle_period_with_action(&mut conn, &request).unwrap();
    assert_eq!(period.resolution, Some("labeled".to_string()));

    let entries = get_time_entries_impl(&conn, 0).unwrap();
    assert_eq!(entries.len(), 1);
    assert_eq!(entries[0].label, "Reading");
    assert_eq!(entries[0].start_time, 7000);
    assert_eq!(entries[0].end_time, 9000);
}

#[test]
fn resolve_unknown_kind_is_rejected() {
    let mut conn = setup_test_db();
    let idle_id = insert_idle_period(&mut conn, 7000, 9000).unwrap();
    let request = IdlePeriodResolution {
        id: idle_id,
        resolution: "postponed".to_string(),
        target_entry_id: None,
        new_entry_label: None,
    };
    let result = resolve_idle_period_with_action(&mut conn, &request);
    assert!(result.is_err());
    assert!(result.unwrap_err().message().contains("Invalid resolution type"));
    let period = get_idle_period(&conn, idle_id).unwrap();
    assert!(period.resolution.is_none());
}

#[test]
fn batched_window_insert_is_all_or_nothing() {
    let mut conn = setup_test_db();

    // Simulate a mid-batch storage failure: the third inserted row trips a
    // trigger installed directly on the underlying database.
    conn.conn
        .execute_batch(
            "CREATE TRIGGER fail_third BEFORE INSERT ON window_activity WHEN (SELECT COUNT(*) FROM window_activity) >= 2 BEGIN SELECT RAISE(ABORT, 'simulated failure'); END;",
        )
        .unwrap();

    let mut batch = Vec::new();
    let mut i: i64 = 0;
    while i < 5 {
        batch.push(WindowActivity {
            timestamp: 1000 + i,
            window_title: format!("win {}", i),
            process_name: "p.exe".to_string(),
        });
        i += 1;
    }

    let result = insert_window_activities_batch(&mut conn, &batch);
    assert!(result.is_err());

    let rows = get_window_activities(&conn, 0, 10_000).unwrap();
    assert_eq!(rows.len(), 0, "no row of the failed batch may be committed");
}

#[test]
fn batched_window_insert_persists_all() {
    let mut conn = setup_test_db();

    let mut batch = Vec::new();
    let mut i: i64 = 0;
    while i < 5 {
        batch.push(WindowActivity {
            timestamp: 1000 + i,
            window_title: format!("win {}", i),
            process_name: "p.exe".to_string(),
        });
        i += 1;
    }

    insert_window_activities_batch(&mut conn, &batch).unwrap();

    let rows = get_window_activities(&conn, 0, 10_000).unwrap();
    assert_eq!(rows.len(), 5);
    assert_eq!(rows[0].window_title, "win 0");
    assert_eq!(rows[4].window_title, "win 4");
}

#[test]
fn categories_crud_and_reference_cleanup() {
    let mut conn = setup_test_db();

    let cat = create_category_impl(
        &mut conn,
        &CategoryInput { name: "Deep work".to_string(), color: Some("#123456".to_string()) },
    )
    .unwrap();
    assert!(cat.id > 0);

    let renamed = update_category_impl(
        &mut conn,
        cat.id,
        &CategoryInput { name: "Focus".to_string(), color: None },
    )
    .unwrap();
    assert_eq!(renamed.name, "Focus");

    let entry = TimeEntryInput {
        start_time: 1000,
        end_time: 2000,
        label: "Categorized".to_string(),
        color: None,
        category_id: Some(cat.id),
    };
    let entry_id = create_time_entry_impl(&mut conn, &entry).unwrap().id;

    delete_category_impl(&mut conn, cat.id).unwrap();

    let cats = get_categories_impl(&conn).unwrap();
    assert!(cats.is_empty());

    // The entry survives with its category reference cleared.
    let entries = get_time_entries_impl(&conn, 0).unwrap();
    assert_eq!(entries.len(), 1);
    assert_eq!(entries[0].id, entry_id);
    assert!(entries[0].category_id.is_none());
}

#[test]
fn blank_category_name_is_rejected() {
    let mut conn = setup_test_db();
    let result = create_category_impl(
        &mut conn,
        &CategoryInput { name: "   ".to_string(), color: None },
    );
    assert!(result.is_err());
    assert!(result.unwrap_err().message().contains("Category name cannot be empty"));
}

#[test]
fn process_samples_upsert_and_retention() {
    let mut conn = setup_test_db();

    insert_process_sample(&mut conn, 5000, "first.exe").unwrap();
    insert_process_sample(&mut conn, 5000, "second.exe").unwrap();
    insert_process_sample(&mut conn, 9000, "third.exe").unwrap();

    let samples = get_process_samples_for_day(&conn, 0, 86_400_000).unwrap();
    assert_eq!(samples.len(), 2);
    assert_eq!(samples[0].timestamp, 5000);
    assert_eq!(samples[0].process_name, "second.exe");
    assert_eq!(samples[1].process_name, "third.exe");

    let removed = delete_process_samples_before(&mut conn, 6000).unwrap();
    assert_eq!(removed, 1);
    let left = get_process_samples_for_day(&conn, 0, 86_400_000).unwrap();
    assert_eq!(left.len(), 1);
    assert_eq!(left[0].timestamp, 9000);
}

#[test]
fn screenshot_records_and_nearest_lookup() {
    let mut conn = setup_test_db();

    insert_screenshot(&mut conn, 1737110400000, "screenshots/2025/01/17/a.webp").unwrap();
    insert_screenshot(&mut conn, 1737110700000, "screenshots/2025/01/17/b.webp").unwrap();

    let near = get_screenshot_near_time(&conn, 1737110410000, 300_000).unwrap();
    assert_eq!(near, Some("screenshots/2025/01/17/a.webp".to_string()));

    let far = get_screenshot_near_time(&conn, 1737200000000, 300_000).unwrap();
    assert!(far.is_none());

    let day = get_screenshots_for_day(&conn, 20250117).unwrap();
    assert_eq!(day.len(), 2);
    assert_eq!(day[0].1, "screenshots/2025/01/17/a.webp");

    let stamps =
        get_screenshot_timestamps_for_day(&conn, 1737072000000, 1737158400000).unwrap();
    assert_eq!(stamps, vec![1737110400000, 1737110700000]);
}

#[test]
fn test_export_data_empty() {
    let conn = setup_test_db();
    let result = export_data_impl(&conn, "2026-01-28T00:00:00Z".to_string()).unwrap();

    assert_eq!(result.version, "1.0");
    assert!(result.time_entries.is_empty());
    assert!(result.screenshots.is_empty());
    assert!(result.window_activities.is_empty());
    assert!(result.idle_periods.is_empty());
    assert!(!result.exported_at.is_empty());
}

#[test]
fn test_export_data_with_entries() {
    let mut conn = setup_test_db();

    add_entry(&mut conn, 1000, 2000, "Work", Some("#FF0000"));
    insert_screenshot(&mut conn, 1500, "screenshots/2026/01/28/shot.png").unwrap();
    insert_window_activity(
        &mut conn,
        &WindowActivity {
            timestamp: 1200,
            window_title: "VS Code".to_string(),
            process_name: "code.exe".to_string(),
        },
    )
    .unwrap();
    let idle_id = insert_idle_period(&mut conn, 3000, 4000).unwrap();
    update_idle_period_resolution(&mut conn, idle_id, "discarded").unwrap();

    let result = export_data_impl(&conn, "2026-01-28T00:00:00Z".to_string()).unwrap();

    assert_eq!(result.time_entries.len(), 1);
    assert_eq!(result.time_entries[0].label, "Work");
    assert_eq!(result.screenshots.len(), 1);
    assert_eq!(result.screenshots[0].file_path, "screenshots/2026/01/28/shot.png");
    assert_eq!(result.window_activities.len(), 1);
    assert_eq!(result.window_activities[0].window_title, "VS Code");
    assert_eq!(result.idle_periods.len(), 1);
    assert_eq!(result.idle_periods[0].resolution, Some("discarded".to_string()));
}

#[test]
fn test_export_data_ordering() {
    let mut conn = setup_test_db();

    add_entry(&mut conn, 2000, 3000, "Second", None);
    add_entry(&mut conn, 1000, 2000, "First", None);

    let result = export_data_impl(&conn, "2026-01-28T00:00:00Z".to_string()).unwrap();

    assert_eq!(result.time_entries.len(), 2);
    assert_eq!(result.time_entries[0].label, "First");
    assert_eq!(result.time_entries[1].label, "Second");
}

#[test]
fn test_export_to_csv() {
    let mut conn = setup_test_db();

    add_entry(&mut conn, 1000, 2000, "Work", Some("#FF0000"));

    let options = ExportOptions { start_date: None, end_date: None, include_screenshots: false };

    let content = export_to_csv_impl(&conn, &options).unwrap();

    assert!(content.starts_with("id,start_time,end_time,label,color,category_id\n"));
    assert!(content.contains("Work"));
    assert!(content.contains("#FF0000"));
}

#[test]
fn export_to_csv_respects_date_bounds() {
    let mut conn = setup_test_db();

    add_entry(&mut conn, 1000, 2000, "Early", None);
    add_entry(&mut conn, 5000, 6000, "Late", None);

    let options = ExportOptions {
        start_date: Some(3000),
        end_date: None,
        include_screenshots: false,
    };
    let content = export_to_csv_impl(&conn, &options).unwrap();
    assert!(!content.contains("Early"));
    assert!(content.contains("Late"));
}
