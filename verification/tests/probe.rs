use ping_plotter::probe::{
    probe_command, probe_reading, timeout_seconds, Platform, ProbeOutcome, PING_TIMEOUT_MS,
};

fn names(list: &[&str]) -> Vec<String> {
    list.iter().map(|s| s.to_string()).collect()
}

#[test]
fn timeout_is_just_under_the_interval() {
    assert_eq!(PING_TIMEOUT_MS, 1900);
    assert!(PING_TIMEOUT_MS * 1_000_000 < ping_plotter::schedule::INTERVAL_NANOS);
}

#[test]
fn timeout_in_whole_seconds_rounds_up() {
    assert_eq!(timeout_seconds(1900), 2);
    assert_eq!(timeout_seconds(0), 1);
    assert_eq!(timeout_seconds(1), 1);
    assert_eq!(timeout_seconds(1000), 1);
    assert_eq!(timeout_seconds(1001), 2);
    assert_eq!(timeout_seconds(2000), 2);
    assert_eq!(timeout_seconds(u64::MAX), u64::MAX / 1000 + 1);
}

#[test]
fn ping_command_per_platform() {
    let windows = probe_command(None, Platform::Windows, "1.1.1.1");
    assert_eq!(windows.program, "ping");
    assert_eq!(windows.args, names(&["-n", "1", "-w", "1900", "1.1.1.1"]));
    let mac = probe_command(None, Platform::MacOs, "1.1.1.1");
    assert_eq!(mac.program, "ping");
    assert_eq!(mac.args, names(&["-c", "1", "-W", "1900", "1.1.1.1"]));
    let other = probe_command(None, Platform::Other, "example.org");
    assert_eq!(other.program, "ping");
    assert_eq!(other.args, names(&["-c", "1", "-W", "2", "example.org"]));
}

#[test]
fn stand_in_program_gets_the_target_only() {
    let command = probe_command(Some("/tmp/mock_ping".to_string()), Platform::Windows, "1.1.1.1");
    assert_eq!(command.program, "/tmp/mock_ping");
    assert_eq!(command.args, names(&["1.1.1.1"]));
}

#[test]
fn exited_probe_reports_success_and_latency() {
    let command = probe_command(Some("mock_ping".to_string()), Platform::Other, "1.1.1.1");
    assert_eq!(command.args, names(&["1.1.1.1"]));
    let outcome = ProbeOutcome::Exited {
        success: true,
        stdout: b"64 bytes from 1.1.1.1: time=7.89 ms\n".to_vec(),
    };
    let (success, latency) = probe_reading(&outcome);
    assert!(success);
    assert_eq!(latency, Some(7_890));
    assert_eq!(latency.map(|us| us as f64 / 1000.0), Some(7.89));
}

#[test]
fn success_without_a_readable_time_has_no_latency() {
    let outcome = ProbeOutcome::Exited { success: true, stdout: b"all fine\n".to_vec() };
    assert_eq!(probe_reading(&outcome), (true, None));
    let silent = ProbeOutcome::Exited { success: true, stdout: Vec::new() };
    assert_eq!(probe_reading(&silent), (true, None));
}

#[test]
fn exited_probe_reports_failure() {
    let outcome = ProbeOutcome::Exited { success: false, stdout: Vec::new() };
    let (success, latency) = probe_reading(&outcome);
    assert!(!success);
    assert_eq!(latency, None);
}

#[test]
fn failure_carries_no_latency_even_if_one_is_printed() {
    let outcome = ProbeOutcome::Exited { success: false, stdout: b"time=7.89 ms".to_vec() };
    assert_eq!(probe_reading(&outcome), (false, None));
    let quiet = ProbeOutcome::Exited { success: false, stdout: Vec::new() };
    assert_eq!(probe_reading(&quiet), (false, None));
}

#[test]
fn timed_out_probe_is_a_failure_without_latency() {
    let (success, latency) = probe_reading(&ProbeOutcome::TimedOut);
    assert!(!success);
    assert_eq!(latency, None);
}

#[test]
fn every_other_trouble_is_a_failure_without_latency() {
    assert_eq!(probe_reading(&ProbeOutcome::SpawnFailed), (false, None));
    assert_eq!(probe_reading(&ProbeOutcome::WaitFailed), (false, None));
    assert_eq!(probe_reading(&ProbeOutcome::OutputFailed), (false, None));
}
