use std::time::{Duration, Instant};

use aetherless::harness::{
    category_selected, eq_ignore_ascii_case, group_by_category, measure, measure_n, report_label, run_plan,
    BenchmarkCategory, BenchmarkHarness, Timer,
};

fn spin(d: Duration) {
    let start = Instant::now();
    while start.elapsed() < d {}
}

#[test]
fn test_harness_basic() {
    let harness = BenchmarkHarness::new().warmup(5).iterations(20);
    let samples = harness.run(|| spin(Duration::from_micros(100)));
    assert_eq!(samples.len(), 20);
    for sample in &samples {
        assert!(*sample >= 100_000, "Sample {} < 100μs", sample);
    }
}

#[test]
fn test_timer() {
    let timer = Timer::start();
    spin(Duration::from_millis(10));
    let elapsed = timer.stop();
    assert!(elapsed >= 10_000_000, "Elapsed {} < 10ms", elapsed);
}

#[test]
fn test_measure() {
    let (result, duration) = measure(|| {
        spin(Duration::from_millis(5));
        42
    });
    assert_eq!(result, 42);
    assert!(duration >= Duration::from_millis(5));
}

#[test]
fn test_measure_n() {
    let samples = measure_n(10, || spin(Duration::from_micros(50)));
    assert_eq!(samples.len(), 10);
}

#[test]
fn warmup_runs_before_measured_runs() {
    let mut calls = 0u32;
    let harness = BenchmarkHarness::new().warmup(3).iterations(4).keep_samples(false);
    assert!(!harness.should_keep_samples());
    let samples = harness.run(|| calls += 1);
    assert_eq!(samples.len(), 4);
    assert_eq!(calls, 7);
    let (mut setups, mut teardowns) = (0u32, 0u32);
    let samples = BenchmarkHarness::default().warmup(1).iterations(2).run_with_setup(|| setups += 1, || {}, || teardowns += 1);
    assert_eq!(samples.len(), 2);
    assert_eq!((setups, teardowns), (3, 3));
    let (ops, nanos) = BenchmarkHarness::new().warmup(0).run_throughput(Duration::from_millis(2), || 8);
    assert!(ops > 0);
    assert!(nanos >= 2_000_000);
}

#[test]
fn category_labels() {
    assert_eq!(BenchmarkCategory::ColdStart.label(), "cold_start");
    assert_eq!(BenchmarkCategory::EndToEnd.label(), "e2e");
    assert_eq!(BenchmarkCategory::RingBuffer.label(), "ring_buffer");
}

#[test]
fn every_category_runs_when_none_is_named() {
    assert!(category_selected(&None, "ring_buffer"));
    assert!(category_selected(&None, "cold_start"));
}

#[test]
fn named_categories_match_in_any_ascii_case() {
    let selected = Some(vec!["IPC".to_string(), "Cold_Start".to_string()]);
    assert!(category_selected(&selected, "ipc"));
    assert!(category_selected(&selected, "cold_start"));
    assert!(!category_selected(&selected, "ring_buffer"));
    assert!(!category_selected(&Some(Vec::new()), "ipc"));
}

#[test]
fn ascii_case_folding_leaves_other_characters_alone() {
    assert!(eq_ignore_ascii_case("Ring_Buffer", "ring_buffer"));
    assert!(!eq_ignore_ascii_case("ring", "ring_buffer"));
    assert!(!eq_ignore_ascii_case("Ä", "ä"));
    assert!(eq_ignore_ascii_case("ä", "ä"));
}

#[test]
fn run_plans() {
    let quick = run_plan(100, true);
    assert_eq!((quick.iterations, quick.warmup, quick.cold_start_iterations, quick.cold_start_warmup), (10, 1, 10, 5));
    let full = run_plan(100, false);
    assert_eq!((full.iterations, full.warmup, full.cold_start_iterations), (100, 10, 50));
    let few = run_plan(7, false);
    assert_eq!((few.iterations, few.warmup, few.cold_start_iterations), (7, 0, 7));
}

#[test]
fn results_are_grouped_by_category() {
    let (ipc, cold, ring) = (BenchmarkCategory::Ipc, BenchmarkCategory::ColdStart, BenchmarkCategory::RingBuffer);
    let cats = vec![ipc, cold, ipc, ring, cold, ipc];
    let (groups, positions) = group_by_category(&cats);
    assert_eq!(groups, vec![ipc, cold, ring]);
    assert_eq!(positions, vec![vec![0, 2, 5], vec![1, 4], vec![3]]);
    let (groups, positions) = group_by_category(&Vec::new());
    assert!(groups.is_empty() && positions.is_empty());
}

#[test]
fn report_file_labels() {
    assert_eq!(report_label(Some(BenchmarkCategory::EndToEnd)), "e2e");
    assert_eq!(report_label(None), "mixed");
}

#[test]
fn zero_duration_measures_no_run() {
    let mut calls = 0u64;
    let (ops, _nanos) = BenchmarkHarness::new().warmup(3).run_throughput(Duration::ZERO, || {
        calls += 1;
        1
    });
    assert_eq!(ops, 0);
    assert_eq!(calls, 3);
}

#[test]
fn throughput_time_covers_the_duration() {
    let d = Duration::from_millis(3);
    let mut calls = 0u64;
    let (ops, nanos) = BenchmarkHarness::new().warmup(2).run_throughput(d, || {
        calls += 1;
        1
    });
    assert!(nanos >= d.as_nanos() as u64);
    assert_eq!(calls, ops + 2);
}

#[test]
fn run_calls_warmup_then_measured_runs() {
    let mut calls = 0u64;
    let samples = BenchmarkHarness::new().warmup(4).iterations(6).run(|| calls += 1);
    assert_eq!(samples.len(), 6);
    assert_eq!(calls, 10);
}
