use journal_viewer::query_builder::QueryBuilder;

#[test]
fn default_query_values() {
    let q = QueryBuilder::default().build();
    assert_eq!(q.pid, 0);
    assert_eq!(q.minimum_priority, 4);
    assert_eq!(q.limit, 100);
    assert!(q.units.is_empty());
    assert!(q.boot_ids.is_empty());
    assert_eq!(q.slice, "");
    assert_eq!(q.quick_search, "");
    assert!(q.reset_position);
    assert_eq!(q.date_less_than, 0);
    assert_eq!(q.date_more_than, 0);
    assert_eq!(q.transports, vec!["syslog", "journal", "stdout"]);
    assert_eq!(
        q.fields,
        vec![
            "MESSAGE",
            "PRIORITY",
            "ERRNO",
            "_SOURCE_REALTIME_TIMESTAMP",
            "_PID",
            "_UID",
            "_COMM",
            "_SYSTEMD_SLICE",
            "_SYSTEMD_UNIT",
            "_SYSTEMD_CGROUP",
            "_BOOT_ID",
            "_TRANSPORT",
        ]
    );
}

#[test]
fn with_fields_replaces_the_list() {
    let mut qb = QueryBuilder::default();
    qb.with_fields(vec!["MESSAGE".to_string(), "_PID".to_string()]);
    let q = qb.build();
    assert_eq!(q.fields, vec!["MESSAGE", "_PID"]);
}

#[test]
fn priority_clamps_to_seven() {
    let mut qb = QueryBuilder::default();
    qb.with_priority_above_or_equal_to(9);
    let q = qb.build();
    assert_eq!(q.minimum_priority, 7);

    let mut qb = QueryBuilder::default();
    qb.with_priority_above_or_equal_to(3);
    let q = qb.build();
    assert_eq!(q.minimum_priority, 3);
}

#[test]
fn with_priority_above_rejects_out_of_scale() {
    let mut qb = QueryBuilder::default();
    assert!(qb.with_priority_above(8).is_err());
    let q = qb.build();
    assert_eq!(q.minimum_priority, 4);

    let mut qb = QueryBuilder::default();
    assert!(qb.with_priority_above(2).is_ok());
    let q = qb.build();
    assert_eq!(q.minimum_priority, 2);
}

#[test]
fn quick_search_is_stored_lowercase() {
    let mut qb = QueryBuilder::default();
    qb.with_quick_search("TimeOut".to_string());
    let q = qb.build();
    assert_eq!(q.quick_search, "timeout");
}

#[test]
fn with_unit_completes_service_names() {
    let mut qb = QueryBuilder::default();
    qb.with_unit("nginx");
    let q = qb.build();
    assert_eq!(q.units, vec!["nginx.service"]);

    let mut qb = QueryBuilder::default();
    qb.with_unit("dev-sda.device");
    let q = qb.build();
    assert_eq!(q.units, vec!["dev-sda.device"]);
}

#[test]
fn build_resets_the_builder() {
    let mut qb = QueryBuilder::default();
    qb.with_pid(42).with_limit(7);
    let q = qb.build();
    assert_eq!(q.pid, 42);
    assert_eq!(q.limit, 7);

    // single-use-then-reset: the next build stages the defaults again
    let q2 = qb.build();
    assert_eq!(q2.pid, 0);
    assert_eq!(q2.limit, 100);
}

#[test]
fn fluent_mutators_set_their_fields() {
    let mut qb = QueryBuilder::default();
    qb.with_pid(1)
        .with_limit(5)
        .reset_position(false)
        .with_date_less_than(2000)
        .with_date_more_than(1000)
        .within_slice("system.slice")
        .with_units(vec!["a.service".to_string()])
        .with_boot_ids(vec!["boot-1".to_string()])
        .with_transports(vec!["kernel".to_string()]);
    let q = qb.build();
    assert_eq!(q.pid, 1);
    assert_eq!(q.limit, 5);
    assert!(!q.reset_position);
    assert_eq!(q.date_less_than, 2000);
    assert_eq!(q.date_more_than, 1000);
    assert_eq!(q.slice, "system.slice");
    assert_eq!(q.units, vec!["a.service"]);
    assert_eq!(q.boot_ids, vec!["boot-1"]);
    assert_eq!(q.transports, vec!["kernel"]);
}

#[test]
fn legacy_date_and_boot_setters() {
    let mut qb = QueryBuilder::default();
    qb.with_date_from(12345).with_boot_id("boot-7");
    let q = qb.build();
    assert_eq!(q.date_more_than, 12345);
    assert_eq!(q.boot_ids, vec!["boot-7"]);
}
