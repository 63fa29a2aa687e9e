use ping_plotter::accumulator::Accumulator;
use ping_plotter::log::cycle_entry;
use ping_plotter::monitor::{became_unreachable, Monitor, PreviousSnapshot};
use ping_plotter::probe::{probe_reading, ProbeOutcome};
use ping_plotter::table::header_line;

fn names(list: &[&str]) -> Vec<String> {
    list.iter().map(|s| s.to_string()).collect()
}

fn snapshot(total: u64, success: u64) -> PreviousSnapshot {
    PreviousSnapshot { prior_total: total, prior_success: success }
}

#[test]
fn unreachable_iff_probes_grew_and_successes_did_not() {
    assert!(became_unreachable(snapshot(0, 0), 1, 0));
    assert!(became_unreachable(snapshot(4, 2), 5, 2));
    assert!(became_unreachable(snapshot(4, 2), 9, 2));
    assert!(!became_unreachable(snapshot(4, 2), 4, 2));
    assert!(!became_unreachable(snapshot(4, 2), 5, 3));
    assert!(!became_unreachable(snapshot(4, 2), 6, 3));
    assert!(!became_unreachable(snapshot(0, 0), 0, 0));
    assert!(!became_unreachable(snapshot(0, 0), 1, 1));
}

#[test]
fn counts_behind_the_snapshot_count_as_not_grown() {
    assert!(!became_unreachable(snapshot(5, 2), 3, 1));
    assert!(became_unreachable(snapshot(5, 4), 6, 1));
    assert!(!became_unreachable(snapshot(u64::MAX, 0), 7, 0));
    assert!(became_unreachable(snapshot(0, u64::MAX), u64::MAX, 0));
}

#[test]
fn first_cycle_before_any_result() {
    let mut monitor = Monitor::new(names(&["a", "b"]));
    assert_eq!(monitor.target_count(), 2);
    assert!(monitor.last_display().is_empty());
    let acc = Accumulator::new();
    let report = monitor.render_cycle(&acc);
    assert_eq!(report.lines.len(), 3);
    assert_eq!(report.lines[0], header_line());
    assert_eq!(report.lines[1], format!("{:<20} {:>16} {:>10} {:>10} {:>10}", "a", "0/0", "-", "-", "-"));
    assert_eq!(report.lines[2], format!("{:<20} {:>16} {:>10} {:>10} {:>10}", "b", "0/0", "-", "-", "-"));
    assert!(report.unreachable.is_empty());
    assert_eq!(monitor.last_display(), report.lines);
}

#[test]
fn always_up_and_always_down_over_three_cycles() {
    let mut monitor = Monitor::new(names(&["A", "B"]));
    let mut acc = Accumulator::new();
    let good = ProbeOutcome::Exited {
        success: true,
        stdout: b"64 bytes from A: icmp_seq=1 ttl=64 time=5.00 ms\n".to_vec(),
    };
    let bad = ProbeOutcome::Exited { success: false, stdout: Vec::new() };
    let mut last = Vec::new();
    for cycle in 1..=3 {
        let (ok, latency) = probe_reading(&good);
        acc.record("A", ok, latency);
        let (ok, latency) = probe_reading(&bad);
        acc.record("B", ok, latency);
        let report = monitor.render_cycle(&acc);
        assert_eq!(report.unreachable, names(&["B"]), "cycle {}", cycle);
        let entry = cycle_entry("2024-05-01 12:00:00", &report.unreachable);
        assert_eq!(entry, Some("[2024-05-01 12:00:00] unreachable: B".to_string()));
        last = report.lines;
    }
    let a = acc.get("A");
    assert_eq!((a.success(), a.total()), (3, 3));
    assert_eq!(a.min_us(), Some(5_000));
    assert_eq!(a.avg_us(), Some(5_000));
    assert_eq!(a.max_us(), Some(5_000));
    let b = acc.get("B");
    assert_eq!((b.success(), b.total()), (0, 3));
    assert_eq!(last[1], format!("{:<20} {:>16} {:>10} {:>10} {:>10}", "A", "3/3", "5.00", "5.00", "5.00"));
    assert_eq!(last[2], format!("{:<20} {:>16} {:>10} {:>10} {:>10}", "B", "0/3", "-", "-", "-"));
    assert_eq!(monitor.last_display(), last);
}

#[test]
fn flagged_only_from_the_cycle_in_which_it_fails() {
    let mut monitor = Monitor::new(names(&["host"]));
    let mut acc = Accumulator::new();
    acc.record("host", true, Some(3_000));
    assert!(monitor.render_cycle(&acc).unreachable.is_empty());
    acc.record("host", true, Some(4_000));
    assert!(monitor.render_cycle(&acc).unreachable.is_empty());
    acc.record("host", false, None);
    let third = monitor.render_cycle(&acc);
    assert_eq!(third.unreachable, names(&["host"]));
    assert_eq!(third.lines[1], format!("{:<20} {:>16} {:>10} {:>10} {:>10}", "host", "2/3", "3.00", "3.50", "4.00"));
    acc.record("host", false, None);
    assert_eq!(monitor.render_cycle(&acc).unreachable, names(&["host"]));
    acc.record("host", true, None);
    assert!(monitor.render_cycle(&acc).unreachable.is_empty());
}

#[test]
fn no_new_probe_means_no_flag() {
    let mut monitor = Monitor::new(names(&["x"]));
    let mut acc = Accumulator::new();
    acc.record("x", false, None);
    assert_eq!(monitor.render_cycle(&acc).unreachable, names(&["x"]));
    assert!(monitor.render_cycle(&acc).unreachable.is_empty());
    assert!(monitor.render_cycle(&acc).unreachable.is_empty());
}

#[test]
fn one_success_among_failures_clears_the_flag() {
    let mut monitor = Monitor::new(names(&["x"]));
    let mut acc = Accumulator::new();
    acc.record("x", false, None);
    acc.record("x", true, None);
    acc.record("x", false, None);
    assert!(monitor.render_cycle(&acc).unreachable.is_empty());
}

#[test]
fn flags_come_in_target_order() {
    let mut monitor = Monitor::new(names(&["c", "a", "b"]));
    let mut acc = Accumulator::new();
    acc.record("a", false, None);
    acc.record("b", true, None);
    acc.record("c", false, None);
    let report = monitor.render_cycle(&acc);
    assert_eq!(report.unreachable, names(&["c", "a"]));
    assert_eq!(
        cycle_entry("t", &report.unreachable),
        Some("[t] unreachable: c, a".to_string())
    );
}

#[test]
fn repeated_name_is_reported_once() {
    let mut monitor = Monitor::new(names(&["dup", "other", "dup"]));
    let mut acc = Accumulator::new();
    acc.record("dup", false, None);
    acc.record("dup", false, None);
    let report = monitor.render_cycle(&acc);
    assert_eq!(report.unreachable, names(&["dup"]));
    assert_eq!(report.lines.len(), 4);
    assert_eq!(report.lines[1], report.lines[3]);
    assert!(monitor.render_cycle(&acc).unreachable.is_empty());
}

#[test]
fn results_of_unlisted_targets_are_not_shown() {
    let mut monitor = Monitor::new(names(&["a"]));
    let mut acc = Accumulator::new();
    acc.record("ghost", false, None);
    let report = monitor.render_cycle(&acc);
    assert_eq!(report.lines.len(), 2);
    assert!(report.unreachable.is_empty());
}
