use journal_viewer::boot::Boot;
use journal_viewer::journal_controller::{JournalQuery, SummaryQuery};
use journal_viewer::journal_entries::{JournalEntries, JournalEntry};
use journal_viewer::unit::{resolve_init_selection, services_with_init, Unit, INIT_UNIT};

fn unit(name: &str) -> Unit {
    Unit {
        unit_file: name.to_string(),
        state: "enabled".to_string(),
        preset: None,
    }
}

#[test]
fn service_listing_injects_exactly_one_init_entry_at_position_zero() {
    let listed = vec![unit("a.service"), unit("b.service")];
    let with_init = services_with_init(listed);
    assert_eq!(with_init.len(), 3);
    assert_eq!(with_init[0].unit_file, INIT_UNIT);
    assert_eq!(with_init[0].state, "");
    assert!(with_init[0].preset.is_none());
    assert_eq!(with_init[1].unit_file, "a.service");
    assert_eq!(with_init[2].unit_file, "b.service");
}

#[test]
fn selecting_init_becomes_a_pid_filter() {
    let mut services = vec![INIT_UNIT.to_string(), "a.service".to_string()];
    assert!(resolve_init_selection(&mut services));
    assert_eq!(services, vec!["a.service"]);

    let mut services = vec!["a.service".to_string()];
    assert!(!resolve_init_selection(&mut services));
    assert_eq!(services, vec!["a.service"]);
}

fn request(services: Vec<String>) -> JournalQuery {
    JournalQuery {
        fields: vec!["MESSAGE".to_string()],
        priority: 3,
        limit: 50,
        quick_search: "".to_string(),
        reset_position: true,
        services,
        transports: vec!["syslog".to_string()],
        datetime_from: "".to_string(),
        datetime_to: "".to_string(),
        boot_ids: Vec::new(),
    }
}

#[test]
fn request_with_init_selection_translates_to_pid_one() {
    let r = request(vec![INIT_UNIT.to_string(), "a.service".to_string()]);
    let q = r.into_query(None, None, 999);
    assert_eq!(q.pid, 1);
    assert_eq!(q.units, vec!["a.service"]);
    assert_eq!(q.date_less_than, 999);
    assert_eq!(q.date_more_than, 0);
}

#[test]
fn request_without_init_keeps_units_and_no_pid() {
    let r = request(vec!["a.service".to_string()]);
    let q = r.into_query(Some(111), Some(222), 999);
    assert_eq!(q.pid, 0);
    assert_eq!(q.units, vec!["a.service"]);
    assert_eq!(q.date_more_than, 111);
    assert_eq!(q.date_less_than, 222);
    assert_eq!(q.minimum_priority, 3);
    assert_eq!(q.limit, 50);
}

#[test]
fn summary_request_projects_only_the_receipt_time() {
    let q = SummaryQuery { priority: 9 }.into_query(10, 20);
    assert_eq!(q.fields, vec!["__REALTIME"]);
    assert_eq!(q.limit, 10000);
    assert_eq!(q.minimum_priority, 7);
    assert_eq!(q.date_more_than, 10);
    assert_eq!(q.date_less_than, 20);
    assert!(q.reset_position);
}

#[test]
fn result_containers_start_empty() {
    let entries = JournalEntries::new(16);
    assert!(entries.headers.is_empty());
    assert!(entries.rows.is_empty());

    let record = JournalEntry::new();
    assert!(record.headers.is_empty());
    assert!(record.values.is_empty());
}

#[test]
fn boot_record_carries_its_session() {
    let b = Boot {
        index: -1,
        boot_id: "abc123".to_string(),
        first_entry: 100,
        last_entry: 900,
    };
    assert_eq!(b.index, -1);
    assert_eq!(b.boot_id, "abc123");
    assert_eq!(b.first_entry, 100);
    assert_eq!(b.last_entry, 900);
}
