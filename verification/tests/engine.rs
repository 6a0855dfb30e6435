use journal_viewer::journal::{Journal, StepOutcome};
use journal_viewer::libsdjournal::JournalError;
use journal_viewer::journal_entries::JournalEntries;
use journal_viewer::query_builder::QueryBuilder;
use journal_viewer::store::{OpenFlags, StoreEntry};

fn entry(realtime: u64, pairs: &[(&str, &str)]) -> StoreEntry {
    StoreEntry {
        realtime,
        fields: pairs
            .iter()
            .map(|(k, v)| (k.to_string(), v.to_string()))
            .collect(),
    }
}

fn plain_entry(ts: u64, severity: &str, unit: &str, message: &str) -> StoreEntry {
    let ts_string = ts.to_string();
    entry(
        ts,
        &[
            ("MESSAGE", message),
            ("PRIORITY", severity),
            ("_SOURCE_REALTIME_TIMESTAMP", ts_string.as_str()),
            ("UNIT", unit),
            ("_SYSTEMD_UNIT", unit),
            ("_TRANSPORT", "syslog"),
        ],
    )
}

fn open(entries: Vec<StoreEntry>) -> Journal {
    Journal::open(OpenFlags::local_system_user(), entries).unwrap()
}

fn column(result: &JournalEntries, name: &str) -> usize {
    result.headers.iter().position(|h| h == name).unwrap()
}

#[test]
fn limit_bounds_row_count() {
    let mut entries = Vec::new();
    for i in 0..10u64 {
        entries.push(plain_entry(1000 + i, "3", "a.service", "hello"));
    }
    let mut j = open(entries);
    let q = QueryBuilder::default().with_limit(3).build();
    let result = j.query_logs(&q).unwrap();
    assert_eq!(result.rows.len(), 3);
    // the three newest entries, newest first
    let ts = column(&result, "_SOURCE_REALTIME_TIMESTAMP");
    assert_eq!(result.rows[0][ts], "1009");
    assert_eq!(result.rows[1][ts], "1008");
    assert_eq!(result.rows[2][ts], "1007");
}

#[test]
fn rows_descend_by_source_timestamp() {
    let mut entries = Vec::new();
    for i in 0..8u64 {
        entries.push(plain_entry(2000 + 3 * i, "2", "a.service", "msg"));
    }
    let mut j = open(entries);
    let q = QueryBuilder::default().build();
    let result = j.query_logs(&q).unwrap();
    assert_eq!(result.rows.len(), 8);
    let ts = column(&result, "_SOURCE_REALTIME_TIMESTAMP");
    let mut prev = u64::MAX;
    for row in &result.rows {
        let v: u64 = row[ts].parse().unwrap();
        assert!(v < prev);
        prev = v;
    }
}

#[test]
fn every_row_matches_headers_len() {
    let entries = vec![
        plain_entry(100, "1", "a.service", "one"),
        plain_entry(200, "2", "b.service", "two"),
    ];
    let mut j = open(entries);
    let q = QueryBuilder::default().build();
    let result = j.query_logs(&q).unwrap();
    assert_eq!(result.headers.len(), 12);
    for row in &result.rows {
        assert_eq!(row.len(), result.headers.len());
    }
}

#[test]
fn nginx_priority_limit_scenario() {
    // ten nginx entries spanning severities 0..=7 (and around again), plus
    // two entries of another unit
    let mut entries = Vec::new();
    let severities = ["0", "1", "2", "3", "4", "5", "6", "7", "0", "1"];
    for (i, sev) in severities.iter().enumerate() {
        entries.push(plain_entry(5000 + i as u64, sev, "nginx.service", "served"));
    }
    entries.push(plain_entry(6000, "0", "other.service", "noise"));
    entries.push(plain_entry(6001, "1", "other.service", "noise"));

    let mut j = open(entries);
    let q = QueryBuilder::default()
        .with_units(vec!["nginx.service".to_string()])
        .with_priority_above_or_equal_to(3)
        .with_limit(5)
        .build();
    let result = j.query_logs(&q).unwrap();

    assert!(result.rows.len() <= 5);
    assert_eq!(result.rows.len(), 5);
    let sev = column(&result, "PRIORITY");
    let unit = column(&result, "_SYSTEMD_UNIT");
    for row in &result.rows {
        let s: u32 = row[sev].parse().unwrap();
        assert!(s <= 3);
        assert_eq!(row[unit], "nginx.service");
    }
}

#[test]
fn quick_search_case_variants_scenario() {
    let entries = vec![
        plain_entry(100, "3", "a.service", "unrelated text"),
        plain_entry(200, "3", "a.service", "Timeout while connecting"),
        plain_entry(300, "3", "a.service", "TIMEOUT again"),
    ];
    let mut j = open(entries);
    let q = QueryBuilder::default()
        .with_quick_search("timeout".to_string())
        .with_limit(100)
        .build();
    let result = j.query_logs(&q).unwrap();
    assert_eq!(result.rows.len(), 2);
    let msg = column(&result, "MESSAGE");
    assert_eq!(result.rows[0][msg], "TIMEOUT again");
    assert_eq!(result.rows[1][msg], "Timeout while connecting");
}

#[test]
fn quick_search_misses_never_count_against_limit() {
    // the newest entry misses the search; with limit 1 the older match
    // must still come out
    let entries = vec![
        plain_entry(100, "3", "a.service", "timeout here"),
        plain_entry(200, "3", "a.service", "nothing to see"),
    ];
    let mut j = open(entries);
    let q = QueryBuilder::default()
        .with_quick_search("timeout".to_string())
        .with_limit(1)
        .build();
    let result = j.query_logs(&q).unwrap();
    assert_eq!(result.rows.len(), 1);
    let msg = column(&result, "MESSAGE");
    assert_eq!(result.rows[0][msg], "timeout here");
}

#[test]
fn date_bounds_window_scenario() {
    let entries = vec![
        plain_entry(500, "3", "a.service", "too old"),
        plain_entry(1000, "3", "a.service", "at lower bound"),
        plain_entry(1500, "3", "a.service", "inside"),
        plain_entry(3000, "3", "a.service", "at upper bound"),
        plain_entry(3500, "3", "a.service", "too new"),
    ];
    let mut j = open(entries);
    let q = QueryBuilder::default()
        .with_date_more_than(1000)
        .with_date_less_than(3000)
        .build();
    let result = j.query_logs(&q).unwrap();
    let ts = column(&result, "_SOURCE_REALTIME_TIMESTAMP");
    assert_eq!(result.rows.len(), 2);
    for row in &result.rows {
        let v: u64 = row[ts].parse().unwrap();
        assert!(1000 < v && v <= 3000);
    }
    assert_eq!(result.rows[0][ts], "3000");
    assert_eq!(result.rows[1][ts], "1500");
}

#[test]
fn empty_store_unlimited_scenario() {
    let mut j = open(Vec::new());
    let q = QueryBuilder::default().with_limit(0).build();
    let result = j.query_logs(&q).unwrap();
    assert_eq!(result.headers.len(), 12);
    assert_eq!(result.headers[0], "MESSAGE");
    assert!(result.rows.is_empty());
}

#[test]
fn severity_bound_keeps_low_severities_only() {
    let mut entries = Vec::new();
    for (i, sev) in ["0", "1", "2", "3", "4", "5", "6", "7"].iter().enumerate() {
        entries.push(plain_entry(100 + i as u64, sev, "a.service", "m"));
    }
    let mut j = open(entries);
    let q = QueryBuilder::default()
        .with_priority_above_or_equal_to(3)
        .build();
    let result = j.query_logs(&q).unwrap();
    assert_eq!(result.rows.len(), 4);
    let sev = column(&result, "PRIORITY");
    for row in &result.rows {
        let s: u32 = row[sev].parse().unwrap();
        assert!(s <= 3);
    }
}

#[test]
fn reused_handle_has_no_filter_bleed_through() {
    let entries = vec![
        plain_entry(100, "3", "a.service", "one"),
        plain_entry(200, "3", "b.service", "two"),
    ];
    let mut j = open(entries);

    let narrow = QueryBuilder::default()
        .with_units(vec!["missing.service".to_string()])
        .build();
    let first = j.query_logs(&narrow).unwrap();
    assert_eq!(first.rows.len(), 0);

    // the second query must see everything: the prior unit filter is gone
    let wide = QueryBuilder::default().build();
    let second = j.query_logs(&wide).unwrap();
    assert_eq!(second.rows.len(), 2);
}

#[test]
fn missing_field_yields_empty_cell_not_error() {
    // no ERRNO stored on the entry: its cell is empty, the row survives
    let entries = vec![plain_entry(100, "3", "a.service", "m")];
    let mut j = open(entries);
    let q = QueryBuilder::default().build();
    let result = j.query_logs(&q).unwrap();
    assert_eq!(result.rows.len(), 1);
    let errno = column(&result, "ERRNO");
    assert_eq!(result.rows[0][errno], "");
}

#[test]
fn virtual_realtime_field_uses_receipt_accessor() {
    let entries = vec![plain_entry(123456, "3", "a.service", "m")];
    let mut j = open(entries);
    let q = QueryBuilder::default()
        .with_fields(vec!["__REALTIME".to_string(), "MESSAGE".to_string()])
        .build();
    let result = j.query_logs(&q).unwrap();
    assert_eq!(result.headers, vec!["__REALTIME", "MESSAGE"]);
    assert_eq!(result.rows[0][0], "123456");
    assert_eq!(result.rows[0][1], "m");
}

#[test]
fn fetch_full_exact_timestamp_scenario() {
    let entries = vec![
        plain_entry(1699999999999999, "4", "a.service", "before"),
        plain_entry(1700000000000000, "2", "b.service", "exact hit"),
        plain_entry(1700000000000001, "4", "c.service", "after"),
    ];
    let mut j = open(entries);
    let full = j.get_full_entry(1700000000000000).unwrap();
    assert_eq!(full.headers.len(), full.values.len());
    let find = |name: &str| -> Option<usize> { full.headers.iter().position(|h| h == name) };
    let msg = find("MESSAGE").unwrap();
    assert_eq!(full.values[msg], "exact hit");
    let sev = find("PRIORITY").unwrap();
    assert_eq!(full.values[sev], "2");
    assert!(find("_SYSTEMD_UNIT").is_some());
}

#[test]
fn fetch_full_not_found_returns_error_not_partial() {
    let entries = vec![
        plain_entry(100, "3", "a.service", "one"),
        plain_entry(300, "3", "a.service", "three"),
    ];
    let mut j = open(entries);
    // between two entries: the seek lands on an older entry, which is not
    // the requested one
    assert_eq!(j.get_full_entry(200).unwrap_err(), JournalError::Internal(0));
    // before every entry: nothing to land on at all
    assert_eq!(j.get_full_entry(50).unwrap_err(), JournalError::Internal(0));
}

#[test]
fn fetch_full_skips_unreadable_fields() {
    // an empty-name pair stands for a field the store reports as oversized
    let ts_string = 500u64.to_string();
    let entries = vec![entry(
        500,
        &[
            ("MESSAGE", "m"),
            ("", "oversized payload"),
            ("_SOURCE_REALTIME_TIMESTAMP", ts_string.as_str()),
        ],
    )];
    let mut j = open(entries);
    let full = j.get_full_entry(500).unwrap();
    assert_eq!(full.headers, vec!["MESSAGE", "_SOURCE_REALTIME_TIMESTAMP"]);
    assert_eq!(full.values, vec!["m", "500"]);
}

#[test]
fn add_match_accepts_only_field_value_expressions() {
    let mut j = open(Vec::new());
    assert!(j.add_match("PRIORITY=3".to_string()).is_ok());
    assert_eq!(
        j.add_match("garbage".to_string()).unwrap_err(),
        JournalError::Internal(-22)
    );
    assert_eq!(
        j.add_match("=value".to_string()).unwrap_err(),
        JournalError::Internal(-22)
    );
}

#[test]
fn get_logs_runs_the_default_query() {
    let entries = vec![
        plain_entry(100, "3", "a.service", "kept"),
        plain_entry(200, "6", "a.service", "too mild"),
    ];
    let mut j = open(entries);
    let result = j.get_logs().unwrap();
    assert_eq!(result.rows.len(), 1);
    let msg = column(&result, "MESSAGE");
    assert_eq!(result.rows[0][msg], "kept");
}

#[test]
fn default_transports_exclude_other_channels() {
    let ts1 = 100u64.to_string();
    let ts2 = 200u64.to_string();
    let entries = vec![
        entry(
            100,
            &[
                ("MESSAGE", "from kernel"),
                ("PRIORITY", "3"),
                ("_SOURCE_REALTIME_TIMESTAMP", ts1.as_str()),
                ("_TRANSPORT", "kernel"),
            ],
        ),
        entry(
            200,
            &[
                ("MESSAGE", "from syslog"),
                ("PRIORITY", "3"),
                ("_SOURCE_REALTIME_TIMESTAMP", ts2.as_str()),
                ("_TRANSPORT", "syslog"),
            ],
        ),
    ];
    let mut j = open(entries);
    let result = j.get_logs().unwrap();
    assert_eq!(result.rows.len(), 1);
    let msg = column(&result, "MESSAGE");
    assert_eq!(result.rows[0][msg], "from syslog");
}

#[test]
fn traversal_step_orders_its_checks() {
    // quick-search miss wins over the limit: a skipped entry is not counted
    let q = QueryBuilder::default()
        .with_quick_search("needle".to_string())
        .with_limit(1)
        .build();
    let (wm, outcome) = journal_viewer::journal::traversal_step(
        &q,
        1,
        0,
        Some(500),
        Some(&"no match here".to_string()),
    );
    assert_eq!(wm, 500);
    assert_eq!(outcome, StepOutcome::Skip);

    // limit before lower bound
    let q = QueryBuilder::default()
        .with_limit(1)
        .with_date_more_than(1000)
        .build();
    let (wm, outcome) =
        journal_viewer::journal::traversal_step(&q, 1, 0, Some(500), None);
    assert_eq!(wm, 500);
    assert_eq!(outcome, StepOutcome::LimitReached);

    // lower bound on the advanced watermark
    let q = QueryBuilder::default().with_date_more_than(1000).build();
    let (wm, outcome) =
        journal_viewer::journal::traversal_step(&q, 0, 2000, Some(900), None);
    assert_eq!(wm, 900);
    assert_eq!(outcome, StepOutcome::BoundReached);

    // otherwise the entry is collected, keeping the old watermark when the
    // entry stores no source timestamp
    let q = QueryBuilder::default().build();
    let (wm, outcome) = journal_viewer::journal::traversal_step(&q, 0, 700, None, None);
    assert_eq!(wm, 700);
    assert_eq!(outcome, StepOutcome::Collect);
}

#[test]
fn open_flags_encode_as_bits() {
    assert_eq!(OpenFlags::none().bits(), 0);
    assert_eq!(OpenFlags::local_system_user().bits(), 13);
    let all = OpenFlags {
        local_only: true,
        runtime_only: true,
        system: true,
        current_user: true,
    };
    assert_eq!(all.bits(), 15);
}

#[test]
fn compile_match_exprs_emits_the_protocol_order() {
    let q = QueryBuilder::default()
        .with_pid(1)
        .with_priority_above_or_equal_to(1)
        .with_units(vec!["a.service".to_string()])
        .within_slice("system.slice")
        .with_boot_ids(vec!["b1".to_string()])
        .with_transports(vec!["syslog".to_string()])
        .build();
    let exprs = journal_viewer::filter::compile_match_exprs(&q);
    assert_eq!(
        exprs,
        vec![
            "_PID=1",
            "PRIORITY=0",
            "PRIORITY=1",
            "UNIT=a.service",
            "_SYSTEMD_SLICE=system.slice",
            "_BOOT_ID=b1",
            "_TRANSPORT=syslog",
        ]
    );
}
