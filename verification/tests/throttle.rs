use goose::command::GooseClientCommand;
use goose::config::GooseConfiguration;
use goose::engine::{run_load_test, GooseAttackReport, SimScenario, SimTarget};
use goose::manager::{GooseClientSpec, ManagerAction, ManagerState, WorkerMessage};
use goose::metrics::GooseAggregator;

const INDEX_KEY: usize = 0;
const ABOUT_KEY: usize = 1;

const THROTTLE_REQUESTS: u64 = 25;
const USERS: u64 = 5;
const RUN_TIME: u64 = 3;
const EXPECT_WORKERS: u64 = 2;

// Both endpoints of the load test, with a fast target.
fn build_target() -> SimTarget {
    SimTarget {
        latencies_ms: vec![1, 1],
        stall_from_us: 0,
        stall_until_us: 0,
        stall_extra_ms: 0,
    }
}

// One scenario hitting the index and the about page in turn.
fn build_scenario() -> SimScenario {
    SimScenario {
        expansion: vec![INDEX_KEY, ABOUT_KEY],
        wait_ms: 0,
        on_stop_endpoints: vec![],
        co_factor: 0,
    }
}

fn common_build_configuration(throttle_requests: u64, users: u64, run_time: u64) -> GooseConfiguration {
    let mut configuration = GooseConfiguration::default();
    configuration.users = users;
    configuration.hatch_rate = users;
    configuration.run_time = run_time;
    configuration.throttle_requests = throttle_requests;
    configuration
}

// Common validation: the metrics stream stays under the throttle's budget and
// both endpoints were loaded.
fn validate_throttle(
    reports: &[GooseAttackReport],
    throttle_value: u64,
    previous_metrics_file_lines: Option<usize>,
) -> usize {
    let mut current_metrics_file_lines = 0;
    for report in reports {
        // Requests are made while users are hatched, and then for RUN_TIME
        // seconds.
        assert!(report.log.len() as u64 <= (RUN_TIME + 1) * throttle_value);
        current_metrics_file_lines += report.log.len();
        // Confirm that we loaded both endpoints.
        assert!(report.aggregator.buckets[INDEX_KEY].total > 0);
        assert!(report.aggregator.buckets[ABOUT_KEY].total > 0);
    }

    if let Some(previous_lines) = previous_metrics_file_lines {
        // The second load test must generate more than 4x the load of the
        // first, and less than 6x.
        assert!(current_metrics_file_lines > previous_lines * 4);
        assert!(current_metrics_file_lines < previous_lines * 6);
    }

    current_metrics_file_lines
}

#[test]
// Verify that the throttle limits the number of requests per second, and that
// increasing the throttle increases the number of requests per second.
fn test_throttle() {
    let configuration = common_build_configuration(THROTTLE_REQUESTS, USERS, RUN_TIME);
    let report = run_load_test(&configuration, &build_scenario(), &build_target(), None, false);
    let test1_lines = validate_throttle(&[report], THROTTLE_REQUESTS, None);

    let increased_throttle = THROTTLE_REQUESTS * 5;
    let configuration = common_build_configuration(increased_throttle, USERS, RUN_TIME);
    let report = run_load_test(&configuration, &build_scenario(), &build_target(), None, false);
    let _ = validate_throttle(&[report], increased_throttle, Some(test1_lines));
}

fn client_spec() -> GooseClientSpec {
    GooseClientSpec {
        task_sets_index: 0,
        default_host: None,
        task_set_host: None,
        min_wait: 0,
        max_wait: 0,
    }
}

// Drive the manager protocol and two simulated workers through one whole
// distributed run, returning the workers' reports and the manager's state.
fn run_gaggle(throttle_requests: u64) -> (Vec<GooseAttackReport>, ManagerState) {
    let hash: u64 = 54321;
    let mut manager_configuration = GooseConfiguration::default();
    manager_configuration.manager = true;
    manager_configuration.expect_workers = EXPECT_WORKERS;
    manager_configuration.users = USERS;
    manager_configuration.hatch_rate = USERS;
    manager_configuration.run_time = RUN_TIME;

    let clients = vec![client_spec(), client_spec(), client_spec(), client_spec(), client_spec()];
    let mut manager = ManagerState::new(manager_configuration, hash, 2, clients).unwrap();

    // Two workers connect and offer the right hash; each receives its
    // allotment of users.
    let mut allotted = Vec::new();
    for pipe_id in 1..=EXPECT_WORKERS {
        manager.pipe_added();
        let action = manager.handle_worker_message(
            WorkerMessage { pipe_id, hash: Some(hash), delta: GooseAggregator::new(2) },
            0,
        );
        match action {
            ManagerAction::SendAllotment(batch) => allotted.push(batch),
            _ => panic!("worker was not enrolled"),
        }
    }
    assert_eq!(allotted[0].len() + allotted[1].len(), USERS as usize);

    // Each worker runs its allotment locally and ships its delta.
    let mut reports = Vec::new();
    for (w, batch) in allotted.iter().enumerate() {
        let mut worker_configuration = GooseConfiguration::default();
        worker_configuration.users = batch.len() as u64;
        worker_configuration.hatch_rate = batch.len() as u64;
        worker_configuration.run_time = RUN_TIME;
        worker_configuration.throttle_requests = throttle_requests;
        let report =
            run_load_test(&worker_configuration, &build_scenario(), &build_target(), None, false);
        let pipe_id = (w + 1) as u64;
        let action = manager.handle_worker_message(
            WorkerMessage { pipe_id, hash: None, delta: clone_aggregator(&report.aggregator) },
            1_000_000,
        );
        match action {
            ManagerAction::Reply(GooseClientCommand::RUN) => {}
            _ => panic!("running worker was not told to keep running"),
        }
        reports.push(report);
    }
    (reports, manager)
}

fn clone_aggregator(a: &GooseAggregator) -> GooseAggregator {
    let mut buckets = Vec::new();
    for b in &a.buckets {
        buckets.push(goose::metrics::GooseRequest {
            total: b.total,
            successes: b.successes,
            failures: b.failures,
            min_ms: b.min_ms,
            max_ms: b.max_ms,
            histogram: b.histogram.clone(),
        });
    }
    GooseAggregator { buckets }
}

#[test]
// Verify that the throttle limits the number of requests per second of every
// worker of a distributed load test, that the manager's merged aggregation
// accounts for every worker request, and that increasing the throttle
// increases the number of requests per second across the gaggle.
fn test_throttle_gaggle() {
    let (reports, manager) = run_gaggle(THROTTLE_REQUESTS);
    let test1_lines = validate_throttle(&reports, THROTTLE_REQUESTS, None);
    let merged_total: u64 =
        manager.merged.buckets.iter().map(|b| b.total).sum();
    assert_eq!(merged_total as usize, test1_lines);

    let increased_throttle = THROTTLE_REQUESTS * 5;
    let (reports, manager) = run_gaggle(increased_throttle);
    let test2_lines = validate_throttle(&reports, increased_throttle, Some(test1_lines));
    let merged_total: u64 =
        manager.merged.buckets.iter().map(|b| b.total).sum();
    assert_eq!(merged_total as usize, test2_lines);
}

#[test]
// With a throttle of one request per second, even a hundred users never issue
// more than two requests in any one-second window.
fn test_throttle_one_per_second_window() {
    let mut configuration = GooseConfiguration::default();
    configuration.users = 100;
    configuration.hatch_rate = 100;
    configuration.run_time = RUN_TIME;
    configuration.throttle_requests = 1;
    let report = run_load_test(&configuration, &build_scenario(), &build_target(), None, false);
    assert!(report.log.len() > 0);
    let starts: Vec<u64> = report.log.iter().map(|m| m.started_at).collect();
    for a in &starts {
        let in_window =
            starts.iter().filter(|b| **b >= *a && **b < *a + 1_000_000).count();
        assert!(in_window <= 2);
    }
}
