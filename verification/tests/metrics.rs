use goose::metrics::{
    bucket_of, merge_from_client, merge_snapshots, percentile, GooseAggregator, GooseMethod,
    GooseRequest, GooseRequestMetric,
};

fn metric(endpoint: usize, elapsed: u64, success: bool, user: usize) -> GooseRequestMetric {
    GooseRequestMetric {
        endpoint,
        method: GooseMethod::Get,
        url: String::new(),
        started_at: 0,
        elapsed,
        status: if success { 200 } else { 500 },
        success,
        user,
        coordinated_omission: false,
        error: if success { None } else { Some("server error".to_string()) },
    }
}

fn assert_requests_equal(a: &GooseRequest, b: &GooseRequest) {
    assert_eq!(a.total, b.total);
    assert_eq!(a.successes, b.successes);
    assert_eq!(a.failures, b.failures);
    assert_eq!(a.min_ms, b.min_ms);
    assert_eq!(a.max_ms, b.max_ms);
    assert_eq!(a.histogram, b.histogram);
}

fn filled(latencies: &[u64]) -> GooseRequest {
    let mut r = GooseRequest::new();
    for l in latencies {
        r.record(*l, true);
    }
    r
}

#[test]
fn test_bucket_of_log_scale() {
    assert_eq!(bucket_of(0), 0);
    assert_eq!(bucket_of(1), 0);
    assert_eq!(bucket_of(2), 1);
    assert_eq!(bucket_of(3), 1);
    assert_eq!(bucket_of(4), 2);
    assert_eq!(bucket_of(1024), 10);
    assert_eq!(bucket_of(2047), 10);
    assert_eq!(bucket_of(65535), 15);
    assert_eq!(bucket_of(65536), 16);
    assert_eq!(bucket_of(u64::MAX), 16);
}

#[test]
fn test_record_counters() {
    let mut r = GooseRequest::new();
    assert_eq!(r.total, 0);
    assert_eq!(r.min_ms, u64::MAX);
    assert_eq!(r.max_ms, 0);
    r.record(5, true);
    r.record(100, false);
    r.record(7, true);
    assert_eq!(r.total, 3);
    assert_eq!(r.successes, 2);
    assert_eq!(r.failures, 1);
    assert_eq!(r.min_ms, 5);
    assert_eq!(r.max_ms, 100);
    assert_eq!(r.histogram[2], 2);
    assert_eq!(r.histogram[6], 1);
}

#[test]
// Merge is commutative and associative over aggregated records.
fn test_merge_commutative_associative() {
    let a = filled(&[1, 2, 3]);
    let b = filled(&[100, 200]);
    let c = filled(&[7000]);
    let ab = merge_from_client(&a, &b);
    let ba = merge_from_client(&b, &a);
    assert_requests_equal(&ab, &ba);
    let ab_c = merge_from_client(&merge_from_client(&a, &b), &c);
    let a_bc = merge_from_client(&a, &merge_from_client(&b, &c));
    assert_requests_equal(&ab_c, &a_bc);
    assert_eq!(ab_c.total, 6);
    assert_eq!(ab_c.min_ms, 1);
    assert_eq!(ab_c.max_ms, 7000);
}

#[test]
// Aggregating a log counts every outcome for its endpoint: no loss, no
// duplication.
fn test_aggregate_counts_every_outcome() {
    let log = vec![
        metric(0, 10, true, 0),
        metric(1, 20, true, 0),
        metric(0, 30, false, 1),
        metric(0, 40, true, 2),
        metric(2, 50, true, 1),
    ];
    let agg = GooseAggregator::aggregate_all(3, &log);
    assert_eq!(agg.buckets[0].total, 3);
    assert_eq!(agg.buckets[1].total, 1);
    assert_eq!(agg.buckets[2].total, 1);
    assert_eq!(agg.buckets[0].successes, 2);
    assert_eq!(agg.buckets[0].failures, 1);
    assert_eq!(agg.buckets[0].min_ms, 10);
    assert_eq!(agg.buckets[0].max_ms, 40);
}

#[test]
// Distributed aggregation equivalence: two workers each execute 1000 requests
// against the same endpoint; the manager's merge counts all 2000 and sums the
// histograms element-wise.
fn test_distributed_aggregation_equivalence() {
    let mut log1 = Vec::new();
    let mut log2 = Vec::new();
    for i in 0..1000u64 {
        log1.push(metric(0, 1 + (i % 16), true, 0));
        log2.push(metric(0, 1 + (i % 64), true, 1));
    }
    let w1 = GooseAggregator::aggregate_all(1, &log1);
    let w2 = GooseAggregator::aggregate_all(1, &log2);
    let snapshots = vec![w1, w2];
    let merged = merge_snapshots(1, &snapshots);
    assert_eq!(merged.buckets[0].total, 2000);
    for k in 0..merged.buckets[0].histogram.len() {
        assert_eq!(
            merged.buckets[0].histogram[k],
            snapshots[0].buckets[0].histogram[k] + snapshots[1].buckets[0].histogram[k]
        );
    }
}

#[test]
fn test_percentile_interpolation() {
    // 100 outcomes of 1 ms: the median interpolates halfway into the first
    // bucket.
    let r = filled(&[1; 100]);
    assert_eq!(percentile(&r, 50), 1);
    assert_eq!(percentile(&r, 100), 2);
    // An empty record has no percentile.
    let empty = GooseRequest::new();
    assert_eq!(percentile(&empty, 99), 0);
    // A tail of slow outcomes pulls the high percentiles into their bucket.
    let mut r = filled(&[1; 98]);
    r.record(2000, true);
    r.record(2000, true);
    assert!(percentile(&r, 99) >= 1024);
    assert!(percentile(&r, 50) < 10);
}
