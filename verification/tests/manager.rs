use goose::command::{command_from_tag, command_tag, GooseClientCommand};
use goose::config::{ConfigIssue, GooseConfiguration, GooseError};
use goose::manager::{GooseClientSpec, ManagerAction, ManagerState, WorkerMessage};
use goose::metrics::GooseAggregator;
use goose::user::{CodecGooseUser, Goose, TransactionError};
use goose::worker::{WorkerPhase, WorkerState};

fn client_spec() -> GooseClientSpec {
    GooseClientSpec {
        task_sets_index: 0,
        default_host: None,
        task_set_host: None,
        min_wait: 0,
        max_wait: 0,
    }
}

fn manager_config(users: u64, expect_workers: u64) -> GooseConfiguration {
    let mut configuration = GooseConfiguration::default();
    configuration.manager = true;
    configuration.users = users;
    configuration.expect_workers = expect_workers;
    configuration.run_time = 3;
    configuration
}

fn new_manager(users: u64, expect_workers: u64, hash: u64) -> ManagerState {
    let clients = (0..users).map(|_| client_spec()).collect();
    ManagerState::new(manager_config(users, expect_workers), hash, 1, clients).unwrap()
}

#[test]
fn test_command_wire_tags() {
    assert_eq!(command_tag(GooseClientCommand::WAIT), 0);
    assert_eq!(command_tag(GooseClientCommand::RUN), 1);
    assert_eq!(command_tag(GooseClientCommand::EXIT), 2);
    for c in [GooseClientCommand::WAIT, GooseClientCommand::RUN, GooseClientCommand::EXIT] {
        assert_eq!(command_from_tag(command_tag(c)), Some(c));
    }
    assert_eq!(command_from_tag(3), None);
}

#[test]
fn test_config_validation() {
    let mut c = GooseConfiguration::default();
    assert!(c.validate().is_ok());
    c.manager = true;
    c.worker = true;
    assert_eq!(
        c.validate(),
        Err(GooseError::ConfigError(ConfigIssue::ManagerAndWorker))
    );
    c.worker = false;
    assert_eq!(
        c.validate(),
        Err(GooseError::ConfigError(ConfigIssue::NoWorkersExpected))
    );
    c.expect_workers = 2;
    assert!(c.validate().is_ok());
    c.users = 2;
    assert!(c.validate().is_ok());
    c.throttle_requests = 2_000_000;
    assert_eq!(
        c.validate(),
        Err(GooseError::ConfigError(ConfigIssue::ThrottleTooHigh))
    );
    c.throttle_requests = 0;
    c.hatch_rate = 0;
    assert_eq!(
        c.validate(),
        Err(GooseError::ConfigError(ConfigIssue::ZeroHatchRate))
    );
}

#[test]
// A worker proposing the wrong hash is told to exit and is never enrolled;
// the pipe event then brings the active-worker count back to zero.
fn test_hash_mismatch_rejection() {
    let mut manager = new_manager(4, 2, 1111);
    manager.pipe_added();
    let action = manager.handle_worker_message(
        WorkerMessage { pipe_id: 7, hash: Some(2222), delta: GooseAggregator::new(1) },
        0,
    );
    assert!(matches!(action, ManagerAction::Reply(GooseClientCommand::EXIT)));
    assert_eq!(manager.worker_pipes.len(), 0);
    manager.pipe_removed();
    assert_eq!(manager.active_workers, 0);
    // With no_hash_check set, the same worker is accepted.
    let mut lenient = manager_config(4, 2);
    lenient.no_hash_check = true;
    let clients = (0..4).map(|_| client_spec()).collect();
    let mut manager = ManagerState::new(lenient, 1111, 1, clients).unwrap();
    manager.pipe_added();
    let action = manager.handle_worker_message(
        WorkerMessage { pipe_id: 7, hash: Some(2222), delta: GooseAggregator::new(1) },
        0,
    );
    assert!(matches!(action, ManagerAction::SendAllotment(_)));
}

#[test]
// The allotment splits the users over the workers: the remainder goes one
// extra each to the earliest workers, and the last enrollment starts the run.
fn test_allotment_split() {
    let mut manager = new_manager(5, 2, 99);
    manager.pipe_added();
    let first = manager.handle_worker_message(
        WorkerMessage { pipe_id: 1, hash: Some(99), delta: GooseAggregator::new(1) },
        10,
    );
    let first_batch = match first {
        ManagerAction::SendAllotment(batch) => batch,
        _ => panic!("first worker was not enrolled"),
    };
    assert_eq!(first_batch.len(), 3);
    assert!(first_batch.iter().all(|c| c.worker_id == 1));
    assert!(!manager.load_test_running);
    manager.pipe_added();
    let second = manager.handle_worker_message(
        WorkerMessage { pipe_id: 2, hash: Some(99), delta: GooseAggregator::new(1) },
        20,
    );
    let second_batch = match second {
        ManagerAction::SendAllotment(batch) => batch,
        _ => panic!("second worker was not enrolled"),
    };
    assert_eq!(second_batch.len(), 2);
    assert!(manager.load_test_running);
    assert_eq!(manager.started, 20);
    assert_eq!(manager.available_clients.len(), 0);
    // A known worker polling now is told to keep running.
    let action = manager.handle_worker_message(
        WorkerMessage { pipe_id: 1, hash: None, delta: GooseAggregator::new(1) },
        30,
    );
    assert!(matches!(action, ManagerAction::Reply(GooseClientCommand::RUN)));
    // A latecomer beyond the expected count is told to exit.
    let action = manager.handle_worker_message(
        WorkerMessage { pipe_id: 3, hash: Some(99), delta: GooseAggregator::new(1) },
        40,
    );
    assert!(matches!(action, ManagerAction::Reply(GooseClientCommand::EXIT)));
}

#[test]
// A worker lost while the test runs turns the run into a drain: the test is
// finished, the drain timer starts, and everything merged so far is kept. A
// worker lost during start-up aborts.
fn test_worker_disconnect() {
    let mut manager = new_manager(2, 2, 7);
    for pipe_id in 1..=2 {
        manager.pipe_added();
        manager.handle_worker_message(
            WorkerMessage { pipe_id, hash: Some(7), delta: GooseAggregator::new(1) },
            0,
        );
    }
    assert!(manager.load_test_running);
    // One worker delivers a delta, then vanishes one second into the run.
    let mut delta = GooseAggregator::new(1);
    delta.apply(&goose::metrics::GooseRequestMetric {
        endpoint: 0,
        method: goose::metrics::GooseMethod::Get,
        url: String::new(),
        started_at: 0,
        elapsed: 3,
        status: 200,
        success: true,
        user: 0,
        coordinated_omission: false,
        error: None,
    });
    manager.handle_worker_message(WorkerMessage { pipe_id: 1, hash: None, delta }, 500_000);
    manager.pipe_removed();
    let action = manager.check_workers(1_000_000);
    assert!(matches!(action, ManagerAction::Continue));
    assert!(manager.load_test_finished);
    assert_eq!(manager.exit_timer, 1_000_000);
    // The aggregation received before the disconnect is kept.
    assert_eq!(manager.merged.buckets[0].total, 1);
    // After the drain timeout the control loop leaves.
    assert!(manager.check_timers(31_000_001, false));

    // During start-up the same loss is fatal.
    let mut manager = new_manager(2, 2, 7);
    manager.pipe_added();
    manager.handle_worker_message(
        WorkerMessage { pipe_id: 1, hash: Some(7), delta: GooseAggregator::new(1) },
        0,
    );
    manager.pipe_removed();
    let action = manager.check_workers(1_000_000);
    assert!(matches!(action, ManagerAction::Fatal(GooseError::ManagerProtocolError)));
}

#[test]
// A distributed run with zero users is accepted: every worker receives an
// empty allotment, the run starts, and the merged report stays empty.
fn test_manager_zero_users() {
    let mut manager = new_manager(0, 2, 3);
    for pipe_id in 1..=2 {
        manager.pipe_added();
        let action = manager.handle_worker_message(
            WorkerMessage { pipe_id, hash: Some(3), delta: GooseAggregator::new(1) },
            0,
        );
        match action {
            ManagerAction::SendAllotment(batch) => assert_eq!(batch.len(), 0),
            _ => panic!("worker was not enrolled"),
        }
    }
    assert!(manager.load_test_running);
    // A poll right away merges an empty delta and keeps the worker running.
    let action = manager.handle_worker_message(
        WorkerMessage { pipe_id: 1, hash: None, delta: GooseAggregator::new(1) },
        5,
    );
    assert!(matches!(action, ManagerAction::Reply(GooseClientCommand::RUN)));
    assert_eq!(manager.merged.buckets[0].total, 0);
}

#[test]
// The worker side of the protocol: hash offered, allotment taken while
// waiting, released on RUN, stopped on EXIT, and each poll ships the whole
// pending delta exactly once.
fn test_worker_protocol() {
    let mut worker = WorkerState::new(42, 1);
    assert_eq!(worker.phase, WorkerPhase::Connecting);
    worker.on_allotment(Vec::new());
    assert_eq!(worker.phase, WorkerPhase::Waiting);
    worker.on_command(GooseClientCommand::WAIT, 5);
    assert_eq!(worker.phase, WorkerPhase::Waiting);
    worker.on_command(GooseClientCommand::RUN, 9);
    assert_eq!(worker.phase, WorkerPhase::Running);
    assert_eq!(worker.started, 9);
    worker.record_outcome(&goose::metrics::GooseRequestMetric {
        endpoint: 0,
        method: goose::metrics::GooseMethod::Get,
        url: String::new(),
        started_at: 10,
        elapsed: 4,
        status: 200,
        success: true,
        user: 0,
        coordinated_omission: false,
        error: None,
    });
    let delta = worker.take_delta();
    assert_eq!(delta.buckets[0].total, 1);
    // The pending delta was cleared: nothing ships twice.
    let empty = worker.take_delta();
    assert_eq!(empty.buckets[0].total, 0);
    worker.on_command(GooseClientCommand::EXIT, 12);
    assert_eq!(worker.phase, WorkerPhase::Stopped);
}

#[test]
fn test_build_url() {
    let configuration = GooseConfiguration::default();
    let user = CodecGooseUser::new(0, "http://example.com/".to_string(), &configuration, 1, 0)
        .unwrap();
    assert_eq!(user.build_url("/about.html").unwrap(), "http://example.com/about.html");
    // A path that is itself an absolute URL with a host is used as it stands.
    assert_eq!(user.build_url("http://other.example/x").unwrap(), "http://other.example/x");
    // A base that is no URL cannot resolve a relative path.
    let broken = CodecGooseUser::new(0, "not a url".to_string(), &configuration, 1, 0).unwrap();
    assert_eq!(broken.build_url("/about.html"), Err(TransactionError::UrlParse));
}

#[test]
fn test_user_state() {
    let configuration = GooseConfiguration::default();
    let mut user =
        CodecGooseUser::new(3, "http://example.com/".to_string(), &configuration, 5, 100).unwrap();
    assert_eq!(user.scenarios_index(), 3);
    assert_eq!(user.started(), 100);
    assert_eq!(user.weighted_users_index(), usize::MAX);
    assert_eq!(user.timeout, 60_000);
    user.set_weighted_users_index(2);
    assert_eq!(user.weighted_users_index(), 2);
    assert_eq!(user.iterations(), 0);
    user.add_iterations(4);
    assert_eq!(user.iterations(), 4);
    user.set_transaction_name("login".to_string());
    assert_eq!(user.take_transaction_name(), Some("login".to_string()));
    assert_eq!(user.take_transaction_name(), None);
    // The optional session blob is carried opaquely.
    assert!(user.session_data.is_none());
    user.set_session_data(vec![1, 2, 3]);
    assert_eq!(user.take_session_data(), Some(vec![1, 2, 3]));
    assert!(user.take_session_data().is_none());
    // A single-use user is unthrottled and already has its identity, and is
    // otherwise a fresh user.
    let single =
        CodecGooseUser::single("http://example.com/".to_string(), &configuration, 7).unwrap();
    assert!(!single.is_throttled);
    assert_eq!(single.weighted_users_index(), 0);
    assert_eq!(single.started(), 7);
    assert_eq!(single.timeout, 60_000);
    assert_eq!(single.slept, 0);
    assert!(single.session_data.is_none());
    // Marking outcomes.
    let mut m = goose::metrics::GooseRequestMetric {
        endpoint: 0,
        method: goose::metrics::GooseMethod::Get,
        url: String::new(),
        started_at: 0,
        elapsed: 1,
        status: 0,
        success: false,
        user: 0,
        coordinated_omission: false,
        error: None,
    };
    assert!(user.set_success(&mut m).is_ok());
    assert!(m.success);
    let r = user.set_failure("bad response".to_string(), &mut m);
    assert_eq!(r, Err(TransactionError::Failure));
    assert!(!m.success);
    assert_eq!(m.error, Some("bad response".to_string()));
}
