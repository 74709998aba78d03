use orqos::registry::MetricRegistry;

#[test]
fn unknown_container_has_no_metrics() {
    let reg = MetricRegistry::new();
    assert_eq!(reg.cpu_avg("nope", 1_000, 60_000), None);
    assert_eq!(reg.mem_max("nope", 1_000, 60_000), None);
    assert!(reg.container_ids().is_empty());
}

#[test]
fn recorded_cpu_is_queryable() {
    let mut reg = MetricRegistry::new();
    reg.record_cpu("c1", 1_000, 500);
    reg.record_cpu("c1", 2_000, 1_500);
    assert_eq!(reg.cpu_avg("c1", 2_000, 60_000), Some(1_000));
    // The registry must have stored exactly what was recorded, not an
    // unrelated or unchanged window.
    assert_eq!(reg.cpu_avg("c1", 2_000, 500), Some(1_500));
}

#[test]
fn recorded_mem_maximum() {
    let mut reg = MetricRegistry::new();
    reg.record_mem("c1", 1_000, 800);
    reg.record_mem("c1", 2_000, 300);
    assert_eq!(reg.mem_max("c1", 2_000, 60_000), Some(800));
    assert_eq!(reg.mem_max("c1", 2_000, 500), Some(300));
}

#[test]
fn windows_are_per_container() {
    let mut reg = MetricRegistry::new();
    reg.record_cpu("a", 1_000, 100);
    reg.record_cpu("b", 1_000, 900);
    assert_eq!(reg.cpu_avg("a", 1_000, 60_000), Some(100));
    assert_eq!(reg.cpu_avg("b", 1_000, 60_000), Some(900));
}

#[test]
fn old_samples_age_out_of_queries() {
    let mut reg = MetricRegistry::new();
    reg.record_cpu("c1", 1_000, 100);
    assert_eq!(reg.cpu_avg("c1", 50_000, 10_000), None);
}

#[test]
fn container_ids_lists_each_once() {
    let mut reg = MetricRegistry::new();
    reg.record_cpu("a", 1_000, 1);
    reg.record_cpu("b", 1_000, 2);
    reg.record_cpu("a", 2_000, 3);
    let mut ids = reg.container_ids();
    ids.sort();
    assert_eq!(ids, vec!["a".to_string(), "b".to_string()]);
}

#[test]
fn stats_rows_reports_both_metrics() {
    let mut reg = MetricRegistry::new();
    reg.record_cpu("c1", 1_000, 2_000);
    reg.record_mem("c1", 1_000, 777);
    let rows = reg.stats_rows(1_000, 10_000);
    assert_eq!(rows.len(), 1);
    assert_eq!(rows[0].0, "c1");
    assert_eq!(rows[0].1, Some(2_000));
    assert_eq!(rows[0].2, Some(777));
}

#[test]
fn stats_rows_cpu_only_container() {
    let mut reg = MetricRegistry::new();
    reg.record_cpu("c1", 1_000, 2_000);
    let rows = reg.stats_rows(1_000, 10_000);
    assert_eq!(rows.len(), 1);
    assert_eq!(rows[0].1, Some(2_000));
    assert_eq!(rows[0].2, None);
}

#[test]
fn sweep_drops_fully_aged_containers() {
    let mut reg = MetricRegistry::new();
    reg.record_cpu("old", 1_000, 100);
    reg.record_mem("old", 1_000, 10);
    reg.record_cpu("fresh", 70_000, 200);
    reg.record_mem("fresh", 70_000, 20);
    // At 70 s, "old"'s samples are beyond the 60 s horizon.
    reg.sweep_stale(70_000);
    let ids = reg.container_ids();
    assert_eq!(ids, vec!["fresh".to_string()]);
    assert_eq!(reg.cpu_avg("old", 70_000, 60_000), None);
    assert_eq!(reg.mem_max("old", 70_000, 60_000), None);
    assert_eq!(reg.cpu_avg("fresh", 70_000, 60_000), Some(200));
    assert_eq!(reg.mem_max("fresh", 70_000, 60_000), Some(20));
}
