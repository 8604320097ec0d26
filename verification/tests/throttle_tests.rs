use pagewatch::throttle::{
    parse_record, record_file_name, try_acquire, try_acquire_text, ThrottleRecord,
    DEFAULT_MAX_PER_WINDOW, DEFAULT_WINDOW_SECONDS,
};

#[test]
fn burst_of_three_permits_then_fourth_is_denied() {
    let max = DEFAULT_MAX_PER_WINDOW;
    let window = DEFAULT_WINDOW_SECONDS;
    let t0: i64 = 1_000_000;

    // No record yet: permit and open a window of one.
    let (ok1, stored1) = try_acquire_text(None, t0, max, window);
    assert!(ok1);
    let stored1 = stored1.unwrap();
    assert_eq!(stored1, "1000000|1");

    // Two more within seconds: still under the burst quota.
    let (ok2, stored2) = try_acquire_text(Some(&stored1), t0 + 3, max, window);
    assert!(ok2);
    let stored2 = stored2.unwrap();
    assert_eq!(stored2, "1000000|2");

    let (ok3, stored3) = try_acquire_text(Some(&stored2), t0 + 6, max, window);
    assert!(ok3);
    let stored3 = stored3.unwrap();
    assert_eq!(stored3, "1000000|3");

    // Fourth within ten seconds: quota used up, window still open.
    let (ok4, stored4) = try_acquire_text(Some(&stored3), t0 + 9, max, window);
    assert!(!ok4);
    assert!(stored4.is_none());
}

#[test]
fn expired_window_permits_and_resets_count_to_one() {
    let max = DEFAULT_MAX_PER_WINDOW;
    let window = DEFAULT_WINDOW_SECONDS;
    let t0: i64 = 1_000_000;
    let full = "1000000|3".to_string();

    // Still denied right at the boundary.
    let (at_boundary, _) = try_acquire_text(Some(&full), t0 + 300, max, window);
    assert!(!at_boundary);

    // More than the window after the first call: permit, count back to one.
    let (ok5, stored5) = try_acquire_text(Some(&full), t0 + 301, max, window);
    assert!(ok5);
    assert_eq!(stored5.unwrap(), "1000301|1");
}

#[test]
fn corrupted_record_permits_and_is_overwritten() {
    let garbage = "garbage".to_string();
    assert!(parse_record(&garbage).is_none());
    let (ok, stored) = try_acquire_text(Some(&garbage), 1_000_000, 3, 300);
    assert!(ok);
    let stored = stored.unwrap();
    assert_eq!(stored, "1000000|1");
    assert!(parse_record(&stored).is_some());
}

#[test]
fn wrong_field_count_is_malformed() {
    assert!(parse_record("123").is_none());
    assert!(parse_record("1|2|3").is_none());
    assert!(parse_record("").is_none());
}

#[test]
fn unparseable_integers_are_malformed() {
    assert!(parse_record("abc|2").is_none());
    assert!(parse_record("123|x").is_none());
    assert!(parse_record("123|").is_none());
    assert!(parse_record("|3").is_none());
    // Far beyond either integer's range.
    assert!(parse_record("99999999999999999999999999|1").is_none());
}

#[test]
fn well_formed_record_round_trips() {
    let rec = parse_record("1700000000|2").unwrap();
    assert_eq!(rec, ThrottleRecord { last_sent: 1_700_000_000, count: 2 });
    let rec = parse_record("-5|1").unwrap();
    assert_eq!(rec, ThrottleRecord { last_sent: -5, count: 1 });
}

#[test]
fn burst_leaves_window_clock_alone() {
    // While under the quota the stored timestamp does not move.
    let rec = ThrottleRecord { last_sent: 500, count: 1 };
    let (ok, stored) = try_acquire(Some(rec), 9_000, 3, 300);
    assert!(ok);
    assert_eq!(stored.unwrap(), ThrottleRecord { last_sent: 500, count: 2 });
}

#[test]
fn record_file_name_is_dir_prefix_and_domain() {
    assert_eq!(
        record_file_name("./", "example.com"),
        "./last_checked-example.com"
    );
    assert_eq!(record_file_name("/var/lib/", ""), "/var/lib/last_checked-");
}

#[test]
fn integer_range_edges_of_the_record_format() {
    // A count may use the full unsigned 64-bit range.
    let rec = parse_record("5|18446744073709551615").unwrap();
    assert_eq!(rec.count, u64::MAX);
    // One past it is malformed.
    assert!(parse_record("5|18446744073709551616").is_none());
    // A timestamp beyond the signed 64-bit range is malformed.
    assert!(parse_record("9223372036854775808|1").is_none());
    assert_eq!(
        parse_record("9223372036854775807|1").unwrap().last_sent,
        i64::MAX
    );
}

#[test]
fn negative_clock_still_renders_a_valid_record() {
    let (ok, stored) = try_acquire_text(None, -5, 3, 300);
    assert!(ok);
    assert_eq!(stored.unwrap(), "-5|1");
}
