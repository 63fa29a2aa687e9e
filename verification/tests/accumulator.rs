use ping_plotter::accumulator::{Accumulator, ProbeResult};

#[test]
fn unknown_target_reads_as_zeroed() {
    let acc = Accumulator::new();
    let stats = acc.get("10.0.0.1");
    assert_eq!(stats.total(), 0);
    assert_eq!(stats.success(), 0);
    assert_eq!(stats.avg_us(), None);
    assert!(acc.has_room("10.0.0.1"));
}

#[test]
fn record_touches_one_target_only() {
    let mut acc = Accumulator::new();
    acc.record("a", true, Some(5_000));
    acc.record("b", false, None);
    acc.record("a", true, Some(7_000));
    let a = acc.get("a");
    let b = acc.get("b");
    assert_eq!((a.success(), a.total()), (2, 2));
    assert_eq!(a.min_us(), Some(5_000));
    assert_eq!(a.max_us(), Some(7_000));
    assert_eq!(a.avg_us(), Some(6_000));
    assert_eq!((b.success(), b.total()), (0, 1));
    assert_eq!(b.avg_us(), None);
    assert_eq!(acc.get("c").total(), 0);
}

#[test]
fn names_are_told_apart_exactly() {
    let mut acc = Accumulator::new();
    acc.record("host", true, None);
    acc.record("Host", false, None);
    acc.record("host ", false, None);
    assert_eq!(acc.get("host").total(), 1);
    assert_eq!(acc.get("host").success(), 1);
    assert_eq!(acc.get("Host").total(), 1);
    assert_eq!(acc.get("host ").success(), 0);
    assert_eq!(acc.get("").total(), 0);
}

#[test]
fn record_result_counts_for_its_target() {
    let mut acc = Accumulator::new();
    let result = ProbeResult { target: "1.1.1.1".to_string(), success: true, latency_us: Some(7_890) };
    acc.record_result(&result);
    acc.record_result(&ProbeResult { target: "1.1.1.1".to_string(), success: false, latency_us: None });
    let stats = acc.get("1.1.1.1");
    assert_eq!(stats.total(), 2);
    assert_eq!(stats.success(), 1);
    assert_eq!(stats.avg_us(), Some(7_890));
}

#[test]
fn interleaved_outcomes_keep_every_record_sound() {
    let names = ["a", "b", "c", "d"];
    let mut acc = Accumulator::new();
    for round in 0..60u64 {
        let name = names[(round % 4) as usize];
        let success = round % 3 != 0;
        let latency = if round % 5 == 0 { None } else { Some(round * 100) };
        acc.record(name, success, latency);
        for other in names {
            let stats = acc.get(other);
            assert!(stats.success() <= stats.total());
            assert!(stats.samples() <= stats.success());
            if let Some(avg) = stats.avg_us() {
                assert!(stats.min_us().unwrap() <= avg && avg <= stats.max_us().unwrap());
            }
        }
    }
    let total: u64 = names.iter().map(|n| acc.get(n).total()).sum();
    assert_eq!(total, 60);
}

#[test]
fn absorb_counts_results_in_their_order() {
    let results = vec![
        ProbeResult { target: "a".to_string(), success: true, latency_us: Some(9_000) },
        ProbeResult { target: "b".to_string(), success: false, latency_us: None },
        ProbeResult { target: "a".to_string(), success: true, latency_us: Some(1_000) },
        ProbeResult { target: "a".to_string(), success: false, latency_us: Some(77) },
    ];
    let mut acc = Accumulator::new();
    assert_eq!(acc.absorb(&results), 4);
    assert_eq!(acc.absorb(&Vec::new()), 0);
    let a = acc.get("a");
    assert_eq!((a.success(), a.total(), a.samples()), (2, 3, 2));
    assert_eq!((a.min_us(), a.avg_us(), a.max_us()), (Some(1_000), Some(5_000), Some(9_000)));
    let b = acc.get("b");
    assert_eq!((b.success(), b.total()), (0, 1));

    let mut one_by_one = Accumulator::new();
    for result in &results {
        one_by_one.record_result(result);
    }
    for name in ["a", "b", "c"] {
        let left = acc.get(name);
        let right = one_by_one.get(name);
        assert_eq!(left.total(), right.total());
        assert_eq!(left.success(), right.success());
        assert_eq!(left.sum_us(), right.sum_us());
        assert_eq!(left.min_us(), right.min_us());
        assert_eq!(left.max_us(), right.max_us());
    }
}
