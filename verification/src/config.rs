//! The validated configuration record the engine runs from, and the error
//! taxonomy of the whole system.

use vstd::prelude::*;
use crate::throttle::MAX_THROTTLE_REQUESTS;

verus! {

/// The default per-request timeout, milliseconds.
pub const GOOSE_REQUEST_TIMEOUT: u64 = 60_000;

/// Everything the engine needs to know about one run. The command-line
/// parser (outside the engine) fills this in; `validate` decides whether the
/// combination is runnable.
#[derive(Debug)]
pub struct GooseConfiguration {
    /// How many virtual users to hatch.
    pub users: u64,
    /// How many users to hatch per second.
    pub hatch_rate: u64,
    /// How long the load test runs after the last user hatched, seconds.
    pub run_time: u64,
    /// Cap on requests per second for this process; 0 means unthrottled.
    pub throttle_requests: u64,
    /// Where to append one record per request; empty means no metrics file.
    pub metrics_file: String,
    /// Run as the manager of a distributed load test.
    pub manager: bool,
    /// Run as a worker of a distributed load test.
    pub worker: bool,
    /// The host the manager binds its socket to.
    pub manager_bind_host: String,
    /// The port the manager binds its socket to.
    pub manager_bind_port: u16,
    /// How many workers the manager waits for before starting.
    pub expect_workers: u64,
    /// Accept workers whose load-test hash differs.
    pub no_hash_check: bool,
    /// Suppress periodic snapshots; only print the final summary.
    pub only_summary: bool,
    /// Per-request timeout in milliseconds; `None` means the default.
    pub timeout: Option<u64>,
}

/// The error taxonomy. Configuration and protocol errors are fatal;
/// transport errors and timeouts are recorded on the outcome and the user
/// continues; a closed throttle and a cancel are graceful-shutdown signals.
#[derive(Clone, Copy, Debug, PartialEq, Eq, Structural)]
pub enum GooseError {
    /// Invalid configuration: an impossible combination of options.
    ConfigError(ConfigIssue),
    /// The transport failed to complete a request.
    TransportError,
    /// The throttle channel closed: the process is shutting down.
    ThrottleClosed,
    /// The aggregator exited before this user; further outcomes are dropped.
    MetricsChannelClosed,
    /// A malformed worker message, a hash mismatch, or a worker lost before
    /// the load test was running.
    ManagerProtocolError,
    /// A request exceeded its deadline.
    Timeout,
    /// An external interrupt asked for a graceful shutdown.
    Cancelled,
}

/// The precise configuration rule an invalid configuration breaks.
#[derive(Clone, Copy, Debug, PartialEq, Eq, Structural)]
pub enum ConfigIssue {
    /// `manager` and `worker` cannot both be set.
    ManagerAndWorker,
    /// A manager must expect at least one worker.
    NoWorkersExpected,
    /// The throttle cap is above the largest supported rate.
    ThrottleTooHigh,
    /// Users are hatched at a positive rate.
    ZeroHatchRate,
}

impl GooseConfiguration {
    /// The configuration rules, as one predicate: exactly the combinations
    /// `validate` accepts.
    pub open spec fn spec_valid(&self) -> bool {
        &&& !(self.manager && self.worker)
        &&& self.manager ==> self.expect_workers >= 1
        &&& self.throttle_requests <= MAX_THROTTLE_REQUESTS
        &&& self.hatch_rate >= 1
    }

    /// The outcome `validate` is bound to: `Ok` exactly on valid
    /// combinations, and on an invalid one the first broken rule, in the
    /// order of `spec_valid`.
    pub open spec fn spec_validate(&self) -> Result<(), GooseError> {
        if self.manager && self.worker {
            Err(GooseError::ConfigError(ConfigIssue::ManagerAndWorker))
        } else if self.manager && self.expect_workers < 1 {
            Err(GooseError::ConfigError(ConfigIssue::NoWorkersExpected))
        } else if self.throttle_requests > MAX_THROTTLE_REQUESTS {
            Err(GooseError::ConfigError(ConfigIssue::ThrottleTooHigh))
        } else if self.hatch_rate < 1 {
            Err(GooseError::ConfigError(ConfigIssue::ZeroHatchRate))
        } else {
            Ok(())
        }
    }

    /// Check the configuration: exactly the rules of `spec_valid`, the first
    /// broken rule named, in order.
    pub fn validate(&self) -> (r: Result<(), GooseError>)
        ensures
            r is Ok <==> self.spec_valid(),
            r == self.spec_validate(),
    {
        if self.manager && self.worker {
            Err(GooseError::ConfigError(ConfigIssue::ManagerAndWorker))
        } else if self.manager && self.expect_workers < 1 {
            Err(GooseError::ConfigError(ConfigIssue::NoWorkersExpected))
        } else if self.throttle_requests > MAX_THROTTLE_REQUESTS {
            Err(GooseError::ConfigError(ConfigIssue::ThrottleTooHigh))
        } else if self.hatch_rate < 1 {
            Err(GooseError::ConfigError(ConfigIssue::ZeroHatchRate))
        } else {
            Ok(())
        }
    }

    /// The per-request timeout this configuration asks for: the configured
    /// value, or the default of sixty seconds.
    pub fn request_timeout(&self) -> (r: u64)
        ensures
            r == match self.timeout {
                Some(t) => t,
                None => GOOSE_REQUEST_TIMEOUT,
            },
    {
        match self.timeout {
            Some(t) => t,
            None => GOOSE_REQUEST_TIMEOUT,
        }
    }
}

impl Clone for GooseConfiguration {
    /// Copy the configuration, every field kept.
    fn clone(&self) -> (r: Self)
        ensures
            r == *self,
    {
        GooseConfiguration {
            users: self.users,
            hatch_rate: self.hatch_rate,
            run_time: self.run_time,
            throttle_requests: self.throttle_requests,
            metrics_file: self.metrics_file.clone(),
            manager: self.manager,
            worker: self.worker,
            manager_bind_host: self.manager_bind_host.clone(),
            manager_bind_port: self.manager_bind_port,
            expect_workers: self.expect_workers,
            no_hash_check: self.no_hash_check,
            only_summary: self.only_summary,
            timeout: self.timeout,
        }
    }
}

impl Default for GooseConfiguration {
    /// A standalone, unthrottled single-user configuration.
    fn default() -> (r: GooseConfiguration)
        ensures
            r.users == 1,
            r.hatch_rate == 1,
            r.run_time == 0,
            r.throttle_requests == 0,
            r.metrics_file@.len() == 0,
            !r.manager && !r.worker,
            r.expect_workers == 0,
            !r.no_hash_check,
            !r.only_summary,
            r.timeout is None,
            r.spec_valid(),
    {
        GooseConfiguration {
            users: 1,
            hatch_rate: 1,
            run_time: 0,
            throttle_requests: 0,
            metrics_file: String::new(),
            manager: false,
            worker: false,
            manager_bind_host: String::new(),
            manager_bind_port: 5115,
            expect_workers: 0,
            no_hash_check: false,
            only_summary: false,
            timeout: None,
        }
    }
}

} // verus!
