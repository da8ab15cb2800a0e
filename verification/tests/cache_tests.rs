use logcat::data::ProcessRecords;

fn enabled_cache() -> ProcessRecords {
    let mut pr = ProcessRecords::default();
    pr.enabled = true;
    pr
}

#[test]
fn disabled_cache_always_answers_the_placeholder() {
    let mut pr = ProcessRecords::default();
    assert!(!pr.enabled);
    for pid in [0u32, 1, 24103, u32::MAX] {
        // A disabled cache never needs the external query ...
        assert!(!pr.needs_point_query(pid));
        // ... and always answers the synthetic name.
        let name = pr.get_process_name(pid, None);
        assert_eq!(name, format!("pid-{}", pid));
        assert!(pr.get_process_record_map(pid).is_none());
    }
}

#[test]
fn refresh_replaces_the_whole_table() {
    let mut pr = enabled_cache();
    let out = "USER PID PPID VSZ RSS WCHAN ADDR S NAME\n\
               u0_a153      24103   772 16935184 232896 0                  0 S com.google.android.GoogleCamera\n\
               root 1 0 100 200 0 0 S init\n\
               not a parsable row\n";
    pr.apply_refresh(out);
    let cam = pr.get_process_record_map(24103).unwrap();
    assert_eq!(cam.name, "com.google.android.GoogleCamera");
    assert_eq!(cam.user, "u0_a153");
    assert_eq!(cam.ppid, 772);
    assert_eq!(cam.rss, 232896);
    let init = pr.get_process_record_map(1).unwrap();
    assert_eq!(init.name, "init");
    assert!(pr.get_process_record_map(999).is_none());
}

#[test]
fn refresh_is_idempotent() {
    let mut pr = enabled_cache();
    let out = "HEADER\nroot 1 0 100 200 0 0 S init\nu0 7 1 5 6 0 0 S app one\n";
    pr.apply_refresh(out);
    let a1 = pr.get_process_record_map(1).unwrap();
    let a7 = pr.get_process_record_map(7).unwrap();
    pr.apply_refresh(out);
    let b1 = pr.get_process_record_map(1).unwrap();
    let b7 = pr.get_process_record_map(7).unwrap();
    assert_eq!(a1.name, b1.name);
    assert_eq!(a1.user, b1.user);
    assert_eq!(a7.name, b7.name);
    assert_eq!(a7.pc, b7.pc);
}

#[test]
fn refresh_drops_entries_absent_from_the_new_output() {
    let mut pr = enabled_cache();
    pr.apply_refresh("HEADER\nroot 1 0 100 200 0 0 S init\nu0 7 1 5 6 0 0 S app\n");
    assert!(pr.get_process_record_map(7).is_some());
    pr.apply_refresh("HEADER\nroot 1 0 100 200 0 0 S init\n");
    assert!(pr.get_process_record_map(7).is_none());
    assert!(pr.get_process_record_map(1).is_some());
}

#[test]
fn refresh_without_rows_empties_the_table() {
    let mut pr = enabled_cache();
    pr.apply_refresh("HEADER\nroot 1 0 100 200 0 0 S init\n");
    assert!(pr.get_process_record_map(1).is_some());
    // No newline at all: no rows, a bulk-query failure tick.
    pr.apply_refresh("");
    assert!(pr.get_process_record_map(1).is_none());
}

#[test]
fn later_rows_with_the_same_pid_win() {
    let mut pr = enabled_cache();
    pr.apply_refresh("HEADER\nroot 5 0 1 2 0 0 S first\nroot 5 0 1 2 0 0 S second\n");
    assert_eq!(pr.get_process_record_map(5).unwrap().name, "second");
}

#[test]
fn point_query_success_is_cached() {
    let mut pr = enabled_cache();
    assert!(pr.needs_point_query(42));
    let name = pr.get_process_name(42, Some("com.example.app".to_string()));
    assert_eq!(name, "com.example.app");
    // The result is cached, so the query is no longer needed ...
    assert!(!pr.needs_point_query(42));
    // ... and the cached name answers without a query outcome.
    assert_eq!(pr.get_process_name(42, None), "com.example.app");
    let rec = pr.get_process_record_map(42).unwrap();
    assert_eq!(rec.pid, 42);
    assert_eq!(rec.user, "");
    assert_eq!(rec.ppid, 0);
}

#[test]
fn point_query_failure_is_not_cached() {
    let mut pr = enabled_cache();
    let name = pr.get_process_name(9, None);
    assert_eq!(name, "pid-9");
    // No negative result is cached: the next access retries.
    assert!(pr.needs_point_query(9));
    assert!(pr.get_process_record_map(9).is_none());
}

#[test]
fn cached_entries_answer_without_a_query() {
    let mut pr = enabled_cache();
    pr.apply_refresh("HEADER\nroot 1 0 100 200 0 0 S init\n");
    assert!(!pr.needs_point_query(1));
    assert_eq!(pr.get_process_name(1, None), "init");
}

#[test]
fn default_cache_is_empty_and_disabled() {
    let pr = ProcessRecords::default();
    assert!(!pr.enabled);
    assert_eq!(pr.adb_cmd, "adb");
    assert!(pr.get_process_record_map(0).is_none());
}
