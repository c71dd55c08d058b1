use daily_logger::storage::{get_all_today_records_for_summary, get_today_records_sync, Record};

/// Helper: a record with a given UTC timestamp string.
fn rec(ts: &str, content: &str) -> Record {
    Record {
        id: 0,
        timestamp: ts.to_string(),
        source_type: "manual".to_string(),
        content: content.to_string(),
        screenshot_path: None,
    }
}

/// Helper: convert a local NaiveDateTime to UTC RFC3339 string.
fn local_to_utc_rfc3339(naive: chrono::NaiveDateTime) -> String {
    naive
        .and_local_timezone(chrono::Local)
        .unwrap()
        .with_timezone(&chrono::Utc)
        .to_rfc3339()
}

/// Helper: the UTC RFC3339 string for the start of the local day.
fn today_start_utc() -> String {
    local_to_utc_rfc3339(
        chrono::Local::now().date_naive().and_hms_opt(0, 0, 0).unwrap(),
    )
}

// ── Boundary tests for the today selection ──

#[test]
fn finds_record_saved_near_local_midnight() {
    // Local 01:00 today — in UTC+8 this is yesterday 17:00 UTC.
    let today = chrono::Local::now().date_naive();
    let ts = local_to_utc_rfc3339(today.and_hms_opt(1, 0, 0).unwrap());
    let records = vec![rec(&ts, "early morning note")];

    let out = get_today_records_sync(records, &today_start_utc());
    assert!(
        out.iter().any(|r| r.content == "early morning note"),
        "Record at local 01:00 (UTC {}) must appear in today's records",
        ts
    );
}

#[test]
fn finds_record_at_last_second_of_local_today() {
    // Local 23:59:59 today — should still be "today".
    let today = chrono::Local::now().date_naive();
    let ts = local_to_utc_rfc3339(today.and_hms_opt(23, 59, 59).unwrap());
    let records = vec![rec(&ts, "end of day note")];

    let out = get_today_records_sync(records, &today_start_utc());
    assert!(
        out.iter().any(|r| r.content == "end of day note"),
        "Record at local 23:59:59 (UTC {}) must appear in today's records",
        ts
    );
}

#[test]
fn excludes_record_from_yesterday() {
    // Local 23:59:59 yesterday — must NOT appear in today's records.
    let yesterday = chrono::Local::now().date_naive() - chrono::Duration::days(1);
    let ts = local_to_utc_rfc3339(yesterday.and_hms_opt(23, 59, 59).unwrap());
    let records = vec![rec(&ts, "yesterday's note")];

    let out = get_today_records_sync(records, &today_start_utc());
    assert!(
        !out.iter().any(|r| r.content == "yesterday's note"),
        "Record at local yesterday 23:59:59 (UTC {}) must NOT appear in today's records",
        ts
    );
}

#[test]
fn finds_record_at_exact_local_midnight() {
    // Local 00:00:00 today — the boundary itself should be included.
    let today = chrono::Local::now().date_naive();
    let ts = local_to_utc_rfc3339(today.and_hms_opt(0, 0, 0).unwrap());
    let records = vec![rec(&ts, "midnight note")];

    let out = get_today_records_sync(records, &today_start_utc());
    assert!(
        out.iter().any(|r| r.content == "midnight note"),
        "Record at exactly local midnight (UTC {}) must appear in today's records",
        ts
    );
}

#[test]
fn records_ordered_by_timestamp_descending() {
    // Insert two records with known order
    let today = chrono::Local::now().date_naive();
    let ts_early = local_to_utc_rfc3339(today.and_hms_opt(9, 0, 0).unwrap());
    let ts_late = local_to_utc_rfc3339(today.and_hms_opt(15, 0, 0).unwrap());

    let records = vec![rec(&ts_early, "morning"), rec(&ts_late, "afternoon")];

    let out = get_today_records_sync(records, &today_start_utc());
    let pos_afternoon = out.iter().position(|r| r.content == "afternoon");
    let pos_morning = out.iter().position(|r| r.content == "morning");
    assert!(
        pos_afternoon.is_some() && pos_morning.is_some(),
        "Both records must be present"
    );
    assert!(
        pos_afternoon.unwrap() < pos_morning.unwrap(),
        "afternoon (15:00) should appear before morning (09:00) in DESC order"
    );
}

#[test]
fn summary_selection_matches_today_selection() {
    let today = chrono::Local::now().date_naive();
    let ts = local_to_utc_rfc3339(today.and_hms_opt(12, 0, 0).unwrap());
    let records = vec![rec(&ts, "noon note")];
    let out = get_all_today_records_for_summary(records, &today_start_utc());
    assert_eq!(out.len(), 1);
    assert_eq!(out[0].content, "noon note");
}
