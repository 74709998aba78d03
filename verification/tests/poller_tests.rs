use orqos::poller::{cpu_fraction_milli, process_container_stats, run_poll_cycle, StatsObservation};
use orqos::registry::MetricRegistry;
use orqos::snapshots::{CpuSnapshot, SnapshotTracker};

fn obs(total: u64, sys: u64, cores: u32, mem: u64) -> StatsObservation {
    StatsObservation {
        cpu_total: Some(total),
        system_cpu: Some(sys),
        online_cores: Some(cores),
        memory_bytes: Some(mem),
    }
}

#[test]
fn first_observation_records_zero() {
    // No prior snapshot: the fraction is exactly 0, whatever the counters.
    assert_eq!(cpu_fraction_milli(None, 123_456, 999_999, 64), 0);
    assert_eq!(cpu_fraction_milli(None, u64::MAX, 1, 1), 0);

    let mut reg = MetricRegistry::new();
    let mut tracker = SnapshotTracker::new();
    process_container_stats(&mut reg, &mut tracker, "c1", &obs(5_000, 90_000, 8, 42), 1_000);
    assert_eq!(reg.cpu_avg("c1", 1_000, 60_000), Some(0));
}

#[test]
fn delta_method_fraction() {
    // usage 1000 -> 1500, system 10000 -> 11000, 4 cores:
    // (500 / 1000) * 4 = 2.0 cores, i.e. 2000 thousandths.
    let prev = CpuSnapshot { total_usage: 1_000, system_usage: 10_000 };
    assert_eq!(cpu_fraction_milli(Some(prev), 1_500, 11_000, 4), 2_000);
}

#[test]
fn degenerate_deltas_record_zero() {
    let prev = CpuSnapshot { total_usage: 1_000, system_usage: 10_000 };
    // System counter did not move.
    assert_eq!(cpu_fraction_milli(Some(prev), 1_500, 10_000, 4), 0);
    // CPU counter did not move.
    assert_eq!(cpu_fraction_milli(Some(prev), 1_000, 11_000, 4), 0);
    // Counters went backwards: clamped, recorded as 0, no fault.
    assert_eq!(cpu_fraction_milli(Some(prev), 900, 9_000, 4), 0);
}

#[test]
fn snapshot_overwritten_every_cycle() {
    let mut reg = MetricRegistry::new();
    let mut tracker = SnapshotTracker::new();
    process_container_stats(&mut reg, &mut tracker, "c1", &obs(1_000, 10_000, 4, 0), 1_000);
    let snap = tracker.lookup("c1").unwrap();
    assert_eq!(snap.total_usage, 1_000);
    assert_eq!(snap.system_usage, 10_000);
    // Even a cycle whose fraction is 0 must refresh the baseline.
    process_container_stats(&mut reg, &mut tracker, "c1", &obs(1_000, 10_000, 4, 0), 2_000);
    process_container_stats(&mut reg, &mut tracker, "c1", &obs(1_500, 11_000, 4, 0), 3_000);
    assert_eq!(reg.cpu_avg("c1", 3_000, 100), Some(2_000));
    let snap = tracker.lookup("c1").unwrap();
    assert_eq!(snap.total_usage, 1_500);
}

#[test]
fn missing_cpu_counters_skip_container() {
    let mut reg = MetricRegistry::new();
    let mut tracker = SnapshotTracker::new();
    let partial = StatsObservation {
        cpu_total: None,
        system_cpu: Some(10_000),
        online_cores: Some(2),
        memory_bytes: Some(4_096),
    };
    process_container_stats(&mut reg, &mut tracker, "c1", &partial, 1_000);
    assert_eq!(reg.cpu_avg("c1", 1_000, 60_000), None);
    assert_eq!(reg.mem_max("c1", 1_000, 60_000), None);
    assert!(tracker.lookup("c1").is_none());
}

#[test]
fn missing_cores_falls_back_to_one() {
    let mut reg = MetricRegistry::new();
    let mut tracker = SnapshotTracker::new();
    let mut o = obs(1_000, 10_000, 1, 0);
    o.online_cores = None;
    process_container_stats(&mut reg, &mut tracker, "c1", &o, 1_000);
    let mut o2 = obs(1_500, 11_000, 1, 0);
    o2.online_cores = None;
    process_container_stats(&mut reg, &mut tracker, "c1", &o2, 2_000);
    // (500 / 1000) * 1 = 0.5 cores.
    assert_eq!(reg.cpu_avg("c1", 2_000, 100), Some(500));
}

#[test]
fn missing_memory_records_zero() {
    let mut reg = MetricRegistry::new();
    let mut tracker = SnapshotTracker::new();
    let mut o = obs(1_000, 10_000, 2, 0);
    o.memory_bytes = None;
    process_container_stats(&mut reg, &mut tracker, "c1", &o, 1_000);
    assert_eq!(reg.mem_max("c1", 1_000, 60_000), Some(0));
}

#[test]
fn two_cycle_average_and_memory() {
    // Two poll cycles for "c1": counters (1000, 10000) -> (1800, 10800)
    // with 2 cores. The first-ever observation records 0; the second
    // records (800 / 800) * 2 = 2.0 cores.
    let mut reg = MetricRegistry::new();
    let mut tracker = SnapshotTracker::new();
    let cycle1 = vec![("c1".to_string(), obs(1_000, 10_000, 2, 1_048_576))];
    let cycle2 = vec![("c1".to_string(), obs(1_800, 10_800, 2, 2_097_152))];
    run_poll_cycle(&mut reg, &mut tracker, &cycle1, 1_000);
    run_poll_cycle(&mut reg, &mut tracker, &cycle2, 6_000);
    // A window holding only the second sample shows the derived rate.
    assert_eq!(reg.cpu_avg("c1", 6_000, 1_000), Some(2_000));
    // The 60 s window still holds the first-observation zero as well.
    assert_eq!(reg.cpu_avg("c1", 6_000, 60_000), Some(1_000));
    // Memory: the maximum equals the latest value exactly when the window
    // holds one sample, and the latest published value is reported.
    assert_eq!(reg.mem_max("c1", 6_000, 1_000), Some(2_097_152));
    assert_eq!(reg.mem_max("c1", 6_000, 60_000), Some(2_097_152));
}

#[test]
fn cycle_processes_each_container() {
    let mut reg = MetricRegistry::new();
    let mut tracker = SnapshotTracker::new();
    let cycle = vec![
        ("a".to_string(), obs(1_000, 10_000, 1, 10)),
        ("b".to_string(), obs(2_000, 10_000, 1, 20)),
    ];
    run_poll_cycle(&mut reg, &mut tracker, &cycle, 1_000);
    assert_eq!(reg.mem_max("a", 1_000, 60_000), Some(10));
    assert_eq!(reg.mem_max("b", 1_000, 60_000), Some(20));
    assert!(tracker.lookup("a").is_some());
    assert!(tracker.lookup("b").is_some());
}

#[test]
fn saturating_fraction_never_negative() {
    let prev = CpuSnapshot { total_usage: 0, system_usage: 0 };
    // Enormous delta with many cores saturates instead of overflowing.
    let r = cpu_fraction_milli(Some(prev), u64::MAX, 1, u32::MAX);
    assert_eq!(r, u64::MAX);
}
