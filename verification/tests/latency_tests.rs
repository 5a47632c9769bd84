use aetherless::latency::{kept_samples, order_samples, sample_total, RAW_SAMPLE_LIMIT};

#[test]
fn test_latency_metrics_from_samples() {
    let samples = vec![100, 200, 300, 400, 500, 600, 700, 800, 900, 1000];
    let len = samples.len();
    let order = order_samples(samples).unwrap();

    assert_eq!(order.min_ns, 100);
    assert_eq!(order.max_ns, 1000);
    assert_eq!(order.median_ns, 600);
    let mean_ns = order.total_ns as f64 / len as f64;
    assert!((mean_ns - 550.0).abs() < 0.01);
    assert!(kept_samples(order.sorted, false).is_none());
}

#[test]
fn order_of_unsorted_samples() {
    let order = order_samples(vec![900, 100, 500, 300, 700]).unwrap();
    assert_eq!(order.sorted, vec![100, 300, 500, 700, 900]);
    assert_eq!(order.min_ns, 100);
    assert_eq!(order.max_ns, 900);
    assert_eq!(order.median_ns, 500);
    assert_eq!(order.total_ns, 2500);
}

#[test]
fn order_keeps_repeated_samples() {
    let order = order_samples(vec![5, 1, 5, 1, 5]).unwrap();
    assert_eq!(order.sorted, vec![1, 1, 5, 5, 5]);
    assert_eq!(order.median_ns, 5);
}

#[test]
fn no_samples_no_order() {
    assert!(order_samples(Vec::new()).is_none());
}

#[test]
fn total_does_not_overflow_u64() {
    assert_eq!(sample_total(&vec![u64::MAX, u64::MAX]), 2 * (u64::MAX as u128));
}

#[test]
fn short_run_keeps_every_sample() {
    let sorted: Vec<u64> = (0..RAW_SAMPLE_LIMIT as u64).collect();
    let kept = kept_samples(sorted.clone(), true).unwrap();
    assert_eq!(kept, sorted);
}

#[test]
fn long_run_keeps_every_nth_sample() {
    let sorted: Vec<u64> = (0..20_000u64).collect();
    let kept = kept_samples(sorted, true).unwrap();
    assert_eq!(kept.len(), 1000);
    assert_eq!(kept[0], 0);
    assert_eq!(kept[1], 20);
    assert_eq!(kept[999], 19_980);
}

#[test]
fn uneven_long_run_keeps_the_last_partial_stride() {
    let sorted: Vec<u64> = (0..10_005u64).collect();
    let kept = kept_samples(sorted, true).unwrap();
    // stride 10: indices 0, 10, ..., 10000
    assert_eq!(kept.len(), 1001);
    assert_eq!(kept[1000], 10_000);
}
