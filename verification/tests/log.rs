use ping_plotter::log::{
    after_write, cycle_entry, final_entries, final_header, local_timestamp, log_opened,
    offset_in_range, should_write, stamp_seconds, stamped_cycle_entry, stamped_final_entries,
    unreachable_line, LogState, StampError, WriteOutcome, STAMP_RANGE_SECS,
};
use ping_plotter::schedule::WallClock;

fn since(secs: u64) -> WallClock {
    WallClock::SinceEpoch { secs, subsec_nanos: 0 }
}

fn names(list: &[&str]) -> Vec<String> {
    list.iter().map(|s| s.to_string()).collect()
}

fn is_stamp(text: &str) -> bool {
    let shape = "dddd-dd-dd dd:dd:dd";
    text.len() == shape.len()
        && text.chars().zip(shape.chars()).all(|(c, s)| if s == 'd' { c.is_ascii_digit() } else { c == s })
}

#[test]
fn unreachable_line_joins_with_comma_and_space() {
    assert_eq!(
        unreachable_line("2024-05-01 12:00:00", &names(&["10.0.0.1", "host.example", "b"])),
        "[2024-05-01 12:00:00] unreachable: 10.0.0.1, host.example, b"
    );
    assert_eq!(unreachable_line("s", &names(&["only"])), "[s] unreachable: only");
    assert_eq!(unreachable_line("", &names(&[])), "[] unreachable: ");
}

#[test]
fn no_flag_means_no_line() {
    assert_eq!(cycle_entry("2024-05-01 12:00:00", &names(&[])), None);
    assert_eq!(
        cycle_entry("2024-05-01 12:00:00", &names(&["a", "b"])),
        Some("[2024-05-01 12:00:00] unreachable: a, b".to_string())
    );
    assert_eq!(stamped_cycle_entry(since(1_700_000_000), 0, &names(&[])), Ok(None));
    assert_eq!(stamped_cycle_entry(since(u64::MAX), 0, &names(&[])), Ok(None));
    assert_eq!(stamped_cycle_entry(since(0), 86_400, &names(&[])), Ok(None));
}

#[test]
fn final_block_is_header_and_last_table() {
    assert_eq!(final_header("2024-05-01 12:00:06"), "[2024-05-01 12:00:06] Final state:");
    let table = names(&["head", "row a", "row b"]);
    assert_eq!(
        final_entries("2024-05-01 12:00:06", table),
        names(&["[2024-05-01 12:00:06] Final state:", "head", "row a", "row b"])
    );
    assert_eq!(final_entries("x", Vec::new()), names(&["[x] Final state:"]));
}

#[test]
fn stamped_lines_carry_the_date_and_time() {
    let wall = WallClock::SinceEpoch { secs: 1_700_000_000, subsec_nanos: 987_654_321 };
    assert_eq!(
        stamped_cycle_entry(wall, 3_600, &names(&["a", "b"])),
        Ok(Some("[2023-11-14 23:13:20] unreachable: a, b".to_string()))
    );
    assert_eq!(
        stamped_final_entries(wall, -8 * 3_600, names(&["head", "row"])),
        Ok(names(&["[2023-11-14 14:13:20] Final state:", "head", "row"]))
    );
}

#[test]
fn stamp_follows_the_reading_and_the_offset() {
    assert_eq!(local_timestamp(since(0), 0), Ok("1970-01-01 00:00:00".to_string()));
    assert_eq!(local_timestamp(since(1_700_000_000), 0), Ok("2023-11-14 22:13:20".to_string()));
    assert_eq!(local_timestamp(since(1_700_000_001), 0), Ok("2023-11-14 22:13:21".to_string()));
    assert_eq!(local_timestamp(since(1_700_000_000), 7_200), Ok("2023-11-15 00:13:20".to_string()));
    assert_eq!(local_timestamp(since(1_700_000_000), -5_400), Ok("2023-11-14 20:43:20".to_string()));
    assert_eq!(local_timestamp(since(951_782_400), 0), Ok("2000-02-29 00:00:00".to_string()));
    assert_eq!(local_timestamp(since(0), -1), Ok("1969-12-31 23:59:59".to_string()));
    assert_eq!(local_timestamp(since(0), 86_399), Ok("1970-01-01 23:59:59".to_string()));
    let stamp = local_timestamp(since(1_700_000_000), 0).unwrap();
    assert!(is_stamp(&stamp));
}

#[test]
fn readings_before_the_epoch_are_stamped_too() {
    let just = WallClock::BeforeEpoch { secs: 0, subsec_nanos: 1 };
    assert_eq!(local_timestamp(just, 0), Ok("1969-12-31 23:59:59".to_string()));
    let early = WallClock::BeforeEpoch { secs: 86_400 * 400, subsec_nanos: 0 };
    assert_eq!(local_timestamp(early, 0), Ok("1968-11-27 00:00:00".to_string()));
    let far = WallClock::BeforeEpoch { secs: STAMP_RANGE_SECS as u64, subsec_nanos: 0 };
    let stamp = local_timestamp(far, 0).unwrap();
    assert!(stamp.starts_with("-1199-"), "stamp {:?}", stamp);
    assert!(stamp.chars().count() >= 19);
}

#[test]
fn offsets_of_a_day_or_more_are_refused() {
    assert!(offset_in_range(0));
    assert!(offset_in_range(86_399));
    assert!(offset_in_range(-86_399));
    assert!(!offset_in_range(86_400));
    assert!(!offset_in_range(-86_400));
    assert!(!offset_in_range(i32::MIN));
    assert_eq!(local_timestamp(since(0), 86_400), Err(StampError::BadOffset));
    assert_eq!(local_timestamp(since(0), -86_400), Err(StampError::BadOffset));
    assert_eq!(
        stamped_cycle_entry(since(0), i32::MAX, &names(&["a"])),
        Err(StampError::BadOffset)
    );
    assert_eq!(
        stamped_final_entries(since(0), i32::MIN, names(&["head"])),
        Err(StampError::BadOffset)
    );
    assert_eq!(local_timestamp(since(u64::MAX), 86_400), Err(StampError::OutOfRange));
}

#[test]
fn stamp_seconds_round_down() {
    assert_eq!(stamp_seconds(WallClock::SinceEpoch { secs: 12, subsec_nanos: 999_999_999 }), Some(12));
    assert_eq!(stamp_seconds(WallClock::SinceEpoch { secs: 0, subsec_nanos: 0 }), Some(0));
    assert_eq!(stamp_seconds(WallClock::BeforeEpoch { secs: 0, subsec_nanos: 0 }), Some(0));
    assert_eq!(stamp_seconds(WallClock::BeforeEpoch { secs: 0, subsec_nanos: 1 }), Some(-1));
    assert_eq!(stamp_seconds(WallClock::BeforeEpoch { secs: 12, subsec_nanos: 0 }), Some(-12));
    assert_eq!(stamp_seconds(WallClock::BeforeEpoch { secs: 12, subsec_nanos: 5 }), Some(-13));
}

#[test]
fn readings_out_of_range_are_refused() {
    let range = STAMP_RANGE_SECS as u64;
    assert_eq!(stamp_seconds(since(range)), Some(STAMP_RANGE_SECS));
    assert_eq!(stamp_seconds(since(range + 1)), None);
    assert_eq!(stamp_seconds(WallClock::BeforeEpoch { secs: range, subsec_nanos: 0 }), Some(-STAMP_RANGE_SECS));
    assert_eq!(stamp_seconds(WallClock::BeforeEpoch { secs: range, subsec_nanos: 1 }), None);
    assert_eq!(stamp_seconds(WallClock::BeforeEpoch { secs: u64::MAX, subsec_nanos: 7 }), None);
    assert_eq!(local_timestamp(since(range), 0), Ok("5138-11-16 09:46:40".to_string()));
    assert_eq!(local_timestamp(since(range + 1), 0), Err(StampError::OutOfRange));
    assert_eq!(
        stamped_cycle_entry(since(u64::MAX), 0, &names(&["a"])),
        Err(StampError::OutOfRange)
    );
    assert_eq!(
        stamped_final_entries(since(u64::MAX), 0, names(&["head"])),
        Err(StampError::OutOfRange)
    );
}

#[test]
fn first_failed_write_disables_the_log() {
    let mut state = log_opened(true);
    assert_eq!(state, LogState::Open);
    assert!(should_write(state));
    let ok = after_write(state, true);
    assert_eq!(ok, WriteOutcome { state: LogState::Open, announce: false });
    state = ok.state;
    let failed = after_write(state, false);
    assert_eq!(failed, WriteOutcome { state: LogState::Disabled, announce: true });
    state = failed.state;
    assert!(!should_write(state));
    assert_eq!(after_write(state, true), WriteOutcome { state: LogState::Disabled, announce: false });
    assert_eq!(after_write(state, false), WriteOutcome { state: LogState::Disabled, announce: false });
}

#[test]
fn log_that_did_not_open_is_disabled() {
    let state = log_opened(false);
    assert_eq!(state, LogState::Disabled);
    assert!(!should_write(state));
}
