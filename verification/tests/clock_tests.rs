use audit_core::clock::{LogicalClock, format_datetime, next_log_id};

#[test]
fn offset_calibrates_now_to_server_time() {
    let mut clock = LogicalClock::new();
    assert_eq!(clock.now_ms(5_000), 5_000);
    let local = 1_700_000_000_000;
    let server = 1_700_000_007_500;
    clock.update_offset(server, local);
    assert_eq!(clock.now_ms(local), server);
    assert_eq!(clock.now_ms(local + 250), server + 250);
}

#[test]
fn later_calibration_replaces_offset_outright() {
    let mut clock = LogicalClock::new();
    clock.update_offset(2_000, 1_000);
    clock.update_offset(1_500, 1_000);
    // not cumulative: the second offset is 500, not 1500
    assert_eq!(clock.offset_ms, 500);
    assert_eq!(clock.now_ms(1_000), 1_500);
}

#[test]
fn negative_offset_is_kept() {
    let mut clock = LogicalClock::new();
    clock.update_offset(900, 1_000);
    assert_eq!(clock.offset_ms, -100);
    assert_eq!(clock.now_ms(2_000), 1_900);
}

#[test]
fn now_str_renders_the_logical_time() {
    let mut clock = LogicalClock::new();
    clock.update_offset(123, 0);
    assert_eq!(clock.now_str(0), "Timestamp: 123");
    clock.update_offset(-45, 0);
    assert_eq!(clock.now_str(0), "Timestamp: -45");
}

#[test]
fn log_ids_carry_time_and_sequence() {
    assert_eq!(next_log_id(1_700_000_000_123, 0), "1700000000123-0");
    assert_eq!(next_log_id(1_700_000_000_123, 41), "1700000000123-41");
    assert_eq!(next_log_id(-7, 3), "-7-3");
}

#[test]
fn datetime_rendering_pads_every_field() {
    assert_eq!(format_datetime(2024, 1, 5, 3, 7, 9), "2024-01-05 03:07:09");
    assert_eq!(format_datetime(999, 12, 31, 23, 59, 59), "0999-12-31 23:59:59");
    assert_eq!(format_datetime(0, 2, 2, 0, 0, 0), "0000-02-02 00:00:00");
    assert_eq!(format_datetime(10000, 1, 1, 1, 1, 1), "10000-01-01 01:01:01");
}
