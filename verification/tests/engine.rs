use goose::config::GooseConfiguration;
use goose::engine::{run_load_test, SimScenario, SimTarget};
use goose::metrics::percentile;
use goose::scheduler::{expand_weighted, hatch_schedule, next_weighted_index, timer_expired};
use goose::user::synthesize_coordinated_omission;
use goose::metrics::GooseMethod;

fn fast_target(n: usize) -> SimTarget {
    SimTarget {
        latencies_ms: vec![1; n],
        stall_from_us: 0,
        stall_until_us: 0,
        stall_extra_ms: 0,
    }
}

fn one_endpoint_scenario() -> SimScenario {
    SimScenario { expansion: vec![0], wait_ms: 0, on_stop_endpoints: vec![], co_factor: 0 }
}

#[test]
// With zero users the run completes immediately with an empty report.
fn test_zero_users_empty_report() {
    let mut configuration = GooseConfiguration::default();
    configuration.users = 0;
    configuration.run_time = 3;
    let report =
        run_load_test(&configuration, &one_endpoint_scenario(), &fast_target(1), None, false);
    assert_eq!(report.log.len(), 0);
    assert_eq!(report.aggregator.buckets[0].total, 0);
    assert_eq!(report.exit_code, 0);
}

#[test]
// Every user's iteration counter equals the completed loops its records show
// in the metrics stream.
fn test_iterations_match_metrics_stream() {
    let mut configuration = GooseConfiguration::default();
    configuration.users = 3;
    configuration.hatch_rate = 3;
    configuration.run_time = 1;
    let scenario =
        SimScenario { expansion: vec![0, 1], wait_ms: 10, on_stop_endpoints: vec![], co_factor: 0 };
    let report = run_load_test(&configuration, &scenario, &fast_target(2), None, false);
    let hatch = hatch_schedule(3, 3);
    for u in 0..3usize {
        let count = report.log[..report.main_log_len]
            .iter()
            .filter(|m| m.user == u && !m.coordinated_omission)
            .count();
        assert_eq!(
            report.iterations[u] as usize * 2 + report.loop_positions[u],
            count
        );
        // A user's records never start before its hatch slot.
        for m in report.log[..report.main_log_len].iter().filter(|m| m.user == u) {
            assert!(m.started_at >= hatch[u]);
        }
        // A user with a completed loop hit every endpoint of the expansion.
        if report.iterations[u] >= 1 {
            for endpoint in [0usize, 1usize] {
                assert!(report.log[..report.main_log_len]
                    .iter()
                    .any(|m| m.user == u && m.endpoint == endpoint));
            }
        }
    }
}

#[test]
// With a hatch rate above the user count, every user hatches within the first
// second.
fn test_fast_hatch_within_one_second() {
    let schedule = hatch_schedule(5, 10);
    assert_eq!(schedule.len(), 5);
    for t in &schedule {
        assert!(*t < 1_000_000);
    }
    // And hatching is monotone.
    for w in schedule.windows(2) {
        assert!(w[0] <= w[1]);
    }
}

#[test]
fn test_weighted_expansion_round_robin() {
    let expansion = expand_weighted(&vec![2, 0, 1]);
    assert_eq!(expansion, vec![0, 0, 2]);
    assert_eq!(next_weighted_index(&expansion, 0), 0);
    assert_eq!(next_weighted_index(&expansion, 2), 2);
    assert_eq!(next_weighted_index(&expansion, 3), 0);
    assert_eq!(next_weighted_index(&expansion, 5), 2);
}

#[test]
fn test_timer_expired() {
    assert!(!timer_expired(0, 0, u64::MAX / 2));
    assert!(!timer_expired(1_000_000, 3, 3_999_999));
    assert!(timer_expired(1_000_000, 3, 4_000_000));
}

#[test]
// A stalled target produces synthesized records with decreasing latencies,
// and the tail percentile reflects the stall.
fn test_coordinated_omission() {
    let mut configuration = GooseConfiguration::default();
    configuration.users = 1;
    configuration.hatch_rate = 1;
    configuration.run_time = 8;
    // Cadence-expected loop time is 100 ms; the target stalls for 2 s at
    // t = 5 s.
    let scenario =
        SimScenario { expansion: vec![0], wait_ms: 50, on_stop_endpoints: vec![], co_factor: 2 };
    let target = SimTarget {
        latencies_ms: vec![50],
        stall_from_us: 5_000_000,
        stall_until_us: 5_100_000,
        stall_extra_ms: 2_000,
    };
    let report = run_load_test(&configuration, &scenario, &target, None, false);
    let synthesized: Vec<_> =
        report.log.iter().filter(|m| m.coordinated_omission).collect();
    assert!(synthesized.len() > 1);
    for pair in synthesized.windows(2) {
        assert!(pair[1].elapsed < pair[0].elapsed);
    }
    assert!(synthesized.iter().any(|m| m.elapsed > 1_000));
    assert!(percentile(&report.aggregator.buckets[0], 99) > 1_000);
}

#[test]
// The synthesized records of one stall: one per missed loop, latencies
// decreasing by one cadence each.
fn test_synthesize_coordinated_omission_records() {
    let records =
        synthesize_coordinated_omission(0, GooseMethod::Get, "/", 4, 777, 2_100, 100);
    assert_eq!(records.len(), 20);
    for (k, m) in records.iter().enumerate() {
        assert!(m.coordinated_omission);
        assert!(m.success);
        assert_eq!(m.endpoint, 0);
        assert_eq!(m.user, 4);
        assert_eq!(m.started_at, 777);
        assert_eq!(m.elapsed, 2_100 - (k as u64 + 1) * 100);
    }
}

#[test]
// A single cancel mid-run stops every user before the cancel time and runs
// the on-stop transactions; a forced exit skips them and exits with code 2.
fn test_graceful_cancel() {
    let mut configuration = GooseConfiguration::default();
    configuration.users = 2;
    configuration.hatch_rate = 2;
    configuration.run_time = 10;
    let scenario =
        SimScenario { expansion: vec![0], wait_ms: 0, on_stop_endpoints: vec![0], co_factor: 0 };
    let cancel_at = Some(2_000_000);

    let report = run_load_test(&configuration, &scenario, &fast_target(1), cancel_at, false);
    assert_eq!(report.exit_code, 0);
    for m in &report.log[..report.main_log_len] {
        assert!(m.started_at < 2_000_000);
    }
    // Each user ran its one on-stop transaction after the cancel.
    assert_eq!(report.log.len(), report.main_log_len + 2);
    for m in &report.log[report.main_log_len..] {
        assert_eq!(m.started_at, 2_000_000);
    }

    // A second cancel right after the first forces an immediate exit.
    let report = run_load_test(&configuration, &scenario, &fast_target(1), cancel_at, true);
    assert_eq!(report.exit_code, 2);
    assert_eq!(report.log.len(), report.main_log_len);
}
