//! The manager of a distributed load test: it accepts workers, checks their
//! load-test hash, assigns each its allotment of users, merges the metrics
//! deltas they deliver, and orchestrates start, drain and stop.
//!
//! The manager here is a state machine: the transport loop around it reads
//! a worker message or a pipe event off the socket, hands it in as plain
//! values, and performs the returned action (reply, send an allotment, or
//! stop). Every decision the protocol makes is in this module.

use vstd::prelude::*;
use crate::command::GooseClientCommand;
use crate::config::{GooseConfiguration, GooseError};
use crate::metrics::{
    merge_fits, merge_state, spec_fold_merge, spec_merge_fits, spec_merge_state, BucketModel,
    GooseAggregator,
};
use crate::scheduler::timer_expired;
use crate::throttle::MICROS_PER_SECOND;

verus! {

/// How long the manager waits for workers to drain once the test finished,
/// seconds. After this the manager exits unconditionally.
pub const DRAIN_TIMEOUT_SECS: u64 = 30;

/// All elements required to initialize one user in a worker process: one
/// record per user of the worker's allotment.
pub struct GooseClientInitializer {
    /// Which scenario the user runs: an index into the registered scenarios.
    pub task_sets_index: usize,
    /// The global default host, if one is set.
    pub default_host: Option<String>,
    /// The scenario's host override, if one is set.
    pub task_set_host: Option<String>,
    /// Minimum time to sleep after a transaction, milliseconds.
    pub min_wait: u64,
    /// Maximum time to sleep after a transaction, milliseconds.
    pub max_wait: u64,
    /// A local copy of the global configuration.
    pub config: GooseConfiguration,
    /// Which worker this user belongs to.
    pub worker_id: usize,
}

/// What one not-yet-allotted user looks like in the manager's pool.
pub struct GooseClientSpec {
    /// Which scenario the user runs.
    pub task_sets_index: usize,
    /// The global default host, if one is set.
    pub default_host: Option<String>,
    /// The scenario's host override, if one is set.
    pub task_set_host: Option<String>,
    /// Minimum time to sleep after a transaction, milliseconds.
    pub min_wait: u64,
    /// Maximum time to sleep after a transaction, milliseconds.
    pub max_wait: u64,
}

/// One message from a worker, already decoded by the transport: the pipe it
/// arrived on, the load-test hash if this is the worker's first message, and
/// the metrics delta it carries (possibly empty).
pub struct WorkerMessage {
    /// The identity of the connection the message arrived on.
    pub pipe_id: u64,
    /// The worker's proposed load-test hash, on a first message.
    pub hash: Option<u64>,
    /// The metrics delta the worker ships.
    pub delta: GooseAggregator,
}

/// What the transport loop must do after the manager took a step.
pub enum ManagerAction {
    /// Reply with a bare command.
    Reply(GooseClientCommand),
    /// Reply with the new worker's allotment, then keep it waiting.
    SendAllotment(Vec<GooseClientInitializer>),
    /// Abort the whole process: a protocol rule was broken.
    Fatal(GooseError),
    /// Nothing to send.
    Continue,
    /// Every worker has exited: leave the control loop.
    AllWorkersExited,
}

/// The manager's whole state between transport events.
pub struct ManagerState {
    /// The validated configuration of this run.
    pub config: GooseConfiguration,
    /// The hash of the registered scenarios all workers must match.
    pub load_test_hash: u64,
    /// How many endpoints the aggregation is keyed over.
    pub n_endpoints: usize,
    /// The pipe identities of accepted workers, in connection order.
    pub worker_pipes: Vec<u64>,
    /// Connections currently alive, maintained by pipe events.
    pub active_workers: u64,
    /// All expected workers connected; the load test is running.
    pub load_test_running: bool,
    /// The load test is over; workers are draining.
    pub load_test_finished: bool,
    /// When the load test truly started, microseconds.
    pub started: u64,
    /// When the drain started, microseconds.
    pub exit_timer: u64,
    /// Users not yet assigned to a worker.
    pub available_clients: Vec<GooseClientSpec>,
    /// How many users every worker gets at least.
    pub split_clients: u64,
    /// How many of the next workers get one extra user.
    pub split_remainder: u64,
    /// The global aggregation of every delta merged so far.
    pub merged: GooseAggregator,
    /// Every delta merged so far, in delivery order.
    pub deltas: Ghost<Seq<Seq<BucketModel>>>,
}

impl ManagerState {
    /// All expected workers have connected.
    pub open spec fn spec_all_connected(&self) -> bool {
        self.worker_pipes@.len() == self.config.expect_workers
    }

    /// Whether the manager accepts a worker proposing this hash.
    pub open spec fn spec_accepts_hash(&self, hash: Option<u64>) -> bool {
        self.config.no_hash_check || hash == Some(self.load_test_hash)
    }

    /// The manager's invariant: the configuration is a valid manager
    /// configuration, no more workers are accepted than expected, the pool
    /// still holds exactly the users owed to the workers yet to connect, and
    /// the merged aggregation is precisely the fold of the delivered deltas.
    pub open spec fn wf(&self) -> bool {
        &&& self.config.spec_valid()
        &&& self.config.manager
        &&& self.worker_pipes@.len() <= self.config.expect_workers
        &&& forall|i: int, j: int|
            0 <= i < j < self.worker_pipes@.len() ==> self.worker_pipes@[i]
                != self.worker_pipes@[j]
        &&& (self.load_test_running ==> self.spec_all_connected())
        &&& self.split_remainder <= self.config.expect_workers - self.worker_pipes@.len()
        &&& self.available_clients@.len() == self.split_clients * (self.config.expect_workers
            - self.worker_pipes@.len()) + self.split_remainder
        &&& self.merged.wf()
        &&& self.merged@.len() == self.n_endpoints
        &&& self.merged@ =~= spec_fold_merge(self.n_endpoints as int, self.deltas@)
    }

    /// Set up a manager: each of `expect_workers` workers will be
    /// responsible for `users / expect_workers` users, and the remainder is
    /// spread one extra user each over the first workers to connect.
    pub fn new(
        config: GooseConfiguration,
        load_test_hash: u64,
        n_endpoints: usize,
        weighted_clients: Vec<GooseClientSpec>,
    ) -> (r: Result<ManagerState, GooseError>)
        requires
            weighted_clients@.len() == config.users,
        ensures
            (config.spec_valid() && config.manager) <==> r is Ok,
            r is Ok ==> {
                &&& r->Ok_0.wf()
                &&& r->Ok_0.worker_pipes@.len() == 0
                &&& !r->Ok_0.load_test_running
                &&& !r->Ok_0.load_test_finished
                &&& r->Ok_0.deltas@.len() == 0
                &&& r->Ok_0.load_test_hash == load_test_hash
                &&& r->Ok_0.n_endpoints == n_endpoints
            },
    {
        if let Err(e) = config.validate() {
            return Err(e);
        }
        if !config.manager {
            return Err(GooseError::ManagerProtocolError);
        }
        let split_clients = config.users / config.expect_workers;
        let split_remainder = config.users % config.expect_workers;
        proof {
            vstd::arithmetic::div_mod::lemma_fundamental_div_mod(
                config.users as int,
                config.expect_workers as int,
            );
            vstd::arithmetic::div_mod::lemma_mod_bound(
                config.users as int,
                config.expect_workers as int,
            );
            assert(split_clients as int * (config.expect_workers as int)
                == config.expect_workers as int * (split_clients as int)) by (nonlinear_arith);
            assert(weighted_clients@.len() == split_clients * (config.expect_workers as int - 0)
                + split_remainder);
        }
        Ok(
            ManagerState {
                config,
                load_test_hash,
                n_endpoints,
                worker_pipes: Vec::new(),
                active_workers: 0,
                load_test_running: false,
                load_test_finished: false,
                started: 0,
                exit_timer: 0,
                available_clients: weighted_clients,
                split_clients,
                split_remainder,
                merged: GooseAggregator::new(n_endpoints),
                deltas: Ghost(Seq::empty()),
            },
        )
    }

    /// A connection appeared: one more worker pipe is alive.
    pub fn pipe_added(&mut self)
        requires
            old(self).wf(),
            old(self).active_workers < u64::MAX,
        ensures
            final(self).wf(),
            final(self).active_workers == old(self).active_workers + 1,
            (*final(self) == ManagerState {
                active_workers: final(self).active_workers,
                ..*old(self)
            }),
    {
        self.active_workers = self.active_workers + 1;
    }

    /// A connection vanished: one worker pipe is gone.
    pub fn pipe_removed(&mut self)
        requires
            old(self).wf(),
            old(self).active_workers > 0,
        ensures
            final(self).wf(),
            final(self).active_workers == old(self).active_workers - 1,
            (*final(self) == ManagerState {
                active_workers: final(self).active_workers,
                ..*old(self)
            }),
    {
        self.active_workers = self.active_workers - 1;
    }

    /// React to worker loss, as the control loop does between messages. A
    /// worker that vanishes while the load test is running turns the run
    /// into a drain: the test is finished, the drain timer starts at `now`,
    /// and everything merged so far is kept. A worker that vanishes during
    /// start-up aborts the run. When every worker has exited, the manager
    /// leaves its loop.
    pub fn check_workers(&mut self, now: u64) -> (r: ManagerAction)
        requires
            old(self).wf(),
        ensures
            final(self).wf(),
            final(self).merged@ =~= old(self).merged@,
            final(self).deltas@ == old(self).deltas@,
            final(self).active_workers == old(self).active_workers,
            final(self).worker_pipes@ == old(self).worker_pipes@,
            final(self).available_clients@ == old(self).available_clients@,
            final(self).config == old(self).config,
            final(self).load_test_hash == old(self).load_test_hash,
            final(self).n_endpoints == old(self).n_endpoints,
            final(self).split_clients == old(self).split_clients,
            final(self).split_remainder == old(self).split_remainder,
            final(self).load_test_running == old(self).load_test_running,
            final(self).started == old(self).started,
            ({
                let lost = !old(self).load_test_finished && old(self).active_workers < old(self).worker_pipes@.len();
                if lost && old(self).load_test_running {
                    &&& final(self).load_test_finished
                    &&& final(self).exit_timer == now
                    &&& r is Continue
                } else if lost {
                    r is Fatal && r->Fatal_0 == GooseError::ManagerProtocolError
                } else if old(self).worker_pipes@.len() > 0 && old(self).active_workers == 0 {
                    r is AllWorkersExited && *final(self) == *old(self)
                } else {
                    r is Continue && *final(self) == *old(self)
                }
            }),
    {
        if !self.load_test_finished && self.active_workers < self.worker_pipes.len() as u64 {
            if self.load_test_running {
                self.load_test_finished = true;
                self.exit_timer = now;
                return ManagerAction::Continue;
            } else {
                return ManagerAction::Fatal(GooseError::ManagerProtocolError);
            }
        }
        if self.worker_pipes.len() > 0 && self.active_workers == 0 {
            return ManagerAction::AllWorkersExited;
        }
        ManagerAction::Continue
    }

    /// Advance the run's clocks: a running test finishes when its run time
    /// expires or a cancel arrived, and a finished test leaves the control
    /// loop once the drain timeout passes.
    pub fn check_timers(&mut self, now: u64, canceled: bool) -> (r: bool)
        requires
            old(self).wf(),
            old(self).started + old(self).config.run_time * MICROS_PER_SECOND <= u64::MAX,
            old(self).exit_timer + DRAIN_TIMEOUT_SECS * MICROS_PER_SECOND <= u64::MAX,
            now + DRAIN_TIMEOUT_SECS * MICROS_PER_SECOND <= u64::MAX,
        ensures
            final(self).wf(),
            final(self).merged@ =~= old(self).merged@,
            final(self).deltas@ == old(self).deltas@,
            final(self).active_workers == old(self).active_workers,
            final(self).worker_pipes@ == old(self).worker_pipes@,
            final(self).available_clients@ == old(self).available_clients@,
            final(self).config == old(self).config,
            final(self).load_test_hash == old(self).load_test_hash,
            final(self).n_endpoints == old(self).n_endpoints,
            final(self).split_clients == old(self).split_clients,
            final(self).split_remainder == old(self).split_remainder,
            final(self).load_test_running == old(self).load_test_running,
            final(self).started == old(self).started,
            ({
                let expired = old(self).config.run_time > 0 && now >= old(self).started + old(self).config.run_time * MICROS_PER_SECOND;
                let newly_finished = old(self).load_test_running && !old(self).load_test_finished
                    && (expired || canceled);
                &&& final(self).load_test_finished == (old(self).load_test_finished
                    || newly_finished)
                &&& newly_finished ==> final(self).exit_timer == now
                &&& r == (old(self).load_test_running && final(self).load_test_finished && now
                    >= final(self).exit_timer + DRAIN_TIMEOUT_SECS * MICROS_PER_SECOND)
            }),
    {
        if self.load_test_running {
            if !self.load_test_finished {
                if timer_expired(self.started, self.config.run_time, now) || canceled {
                    self.load_test_finished = true;
                    self.exit_timer = now;
                }
            }
            if self.load_test_finished && timer_expired(self.exit_timer, DRAIN_TIMEOUT_SECS, now) {
                return true;
            }
        }
        false
    }

    /// One step of the reply protocol, for one decoded worker message at
    /// time `now`.
    ///
    /// A known worker polling while all expected workers are connected has
    /// its delta merged and is told to keep running, or to exit once the
    /// test finished; a delta whose counters cannot fit is malformed and
    /// fatal. A known worker polling earlier is told to wait. An unknown
    /// worker beyond the expected count, or one whose proposed hash the
    /// manager does not accept, is told to exit and is never enrolled. Any
    /// other unknown worker is enrolled: it receives one initializer per
    /// user of its allotment, and when it completes the expected count the
    /// load test starts at `now` with every user allotted.
    pub fn handle_worker_message(&mut self, msg: WorkerMessage, now: u64) -> (r: ManagerAction)
        requires
            old(self).wf(),
            msg.delta.wf(),
            msg.delta@.len() == old(self).n_endpoints,
        ensures
            final(self).wf(),
            final(self).active_workers == old(self).active_workers,
            final(self).config == old(self).config,
            final(self).load_test_hash == old(self).load_test_hash,
            final(self).n_endpoints == old(self).n_endpoints,
            final(self).split_clients == old(self).split_clients,
            final(self).exit_timer == old(self).exit_timer,
            final(self).load_test_finished == old(self).load_test_finished,
            ({
                let known = old(self).worker_pipes@.contains(msg.pipe_id);
                if known && old(self).spec_all_connected() {
                    if spec_merge_fits(old(self).merged@, msg.delta@) {
                        &&& final(self).merged@ =~= spec_merge_state(old(self).merged@, msg.delta@)
                        &&& final(self).deltas@ == old(self).deltas@.push(msg.delta@)
                        &&& final(self).worker_pipes@ == old(self).worker_pipes@
                        &&& final(self).available_clients@ == old(self).available_clients@
                        &&& final(self).split_remainder == old(self).split_remainder
                        &&& final(self).load_test_running == old(self).load_test_running
                        &&& final(self).started == old(self).started
                        &&& (r == ManagerAction::Reply(
                            if old(self).load_test_finished {
                                GooseClientCommand::EXIT
                            } else {
                                GooseClientCommand::RUN
                            },
                        ))
                    } else {
                        &&& (r == ManagerAction::Fatal(GooseError::ManagerProtocolError))
                        &&& *final(self) == *old(self)
                    }
                } else if known {
                    &&& (r == ManagerAction::Reply(GooseClientCommand::WAIT))
                    &&& *final(self) == *old(self)
                } else if old(self).spec_all_connected() || !old(self).spec_accepts_hash(
                    msg.hash,
                ) {
                    &&& (r == ManagerAction::Reply(GooseClientCommand::EXIT))
                    &&& *final(self) == *old(self)
                } else {
                    &&& final(self).worker_pipes@ == old(self).worker_pipes@.push(msg.pipe_id)
                    &&& r is SendAllotment
                    &&& r->SendAllotment_0@.len() == old(self).split_clients + (
                    if old(self).split_remainder > 0 {
                        1int
                    } else {
                        0int
                    })
                    &&& (forall|k: int|
                        0 <= k < r->SendAllotment_0@.len() ==> {
                            let src = old(self).available_clients@[old(
                                self,
                            ).available_clients@.len() - 1 - k];
                            &&& (#[trigger] r->SendAllotment_0@[k]).worker_id == old(
                                self,
                            ).worker_pipes@.len() + 1
                            &&& r->SendAllotment_0@[k].task_sets_index == src.task_sets_index
                            &&& r->SendAllotment_0@[k].default_host == src.default_host
                            &&& r->SendAllotment_0@[k].task_set_host == src.task_set_host
                            &&& r->SendAllotment_0@[k].min_wait == src.min_wait
                            &&& r->SendAllotment_0@[k].max_wait == src.max_wait
                            &&& r->SendAllotment_0@[k].config == old(self).config
                        })
                    &&& (final(self).available_clients@ =~= old(self).available_clients@.take(
                        old(self).available_clients@.len() - r->SendAllotment_0@.len(),
                    ))
                    &&& final(self).split_remainder == if old(self).split_remainder > 0 {
                        old(self).split_remainder - 1
                    } else {
                        0int
                    }
                    &&& final(self).load_test_running == (old(self).worker_pipes@.len() + 1 == old(self).config.expect_workers)
                    &&& (final(self).load_test_running ==> final(self).started == now && final(self).available_clients@.len() == 0)
                    &&& (!final(self).load_test_running ==> final(self).started == old(self).started)
                    &&& final(self).merged@ =~= old(self).merged@
                    &&& final(self).deltas@ == old(self).deltas@
                }
            }),
    {
        let known = self.knows_pipe(msg.pipe_id);
        if known {
            if self.worker_pipes.len() as u64 == self.config.expect_workers {
                if merge_fits(&self.merged, &msg.delta) {
                    merge_state(&mut self.merged, &msg.delta);
                    proof {
                        self.deltas@ = self.deltas@.push(msg.delta@);
                        assert(self.deltas@.drop_last() =~= old(self).deltas@);
                        assert(self.merged@ =~= spec_fold_merge(
                            self.n_endpoints as int,
                            self.deltas@,
                        ));
                    }
                    if self.load_test_finished {
                        ManagerAction::Reply(GooseClientCommand::EXIT)
                    } else {
                        ManagerAction::Reply(GooseClientCommand::RUN)
                    }
                } else {
                    ManagerAction::Fatal(GooseError::ManagerProtocolError)
                }
            } else {
                ManagerAction::Reply(GooseClientCommand::WAIT)
            }
        } else {
            if self.worker_pipes.len() as u64 >= self.config.expect_workers {
                return ManagerAction::Reply(GooseClientCommand::EXIT);
            }
            let hash_ok = match msg.hash {
                Some(h) => h == self.load_test_hash,
                None => false,
            };
            if !self.config.no_hash_check && !hash_ok {
                return ManagerAction::Reply(GooseClientCommand::EXIT);
            }
            let ghost seen_old = self.worker_pipes@.len() as int;
            let ghost expect = self.config.expect_workers as int;
            let ghost rem_old = self.split_remainder as int;
            let avail = self.available_clients.len();
            self.worker_pipes.push(msg.pipe_id);
            let mut batch = self.split_clients;
            if self.split_remainder > 0 {
                self.split_remainder = self.split_remainder - 1;
                proof {
                    assert(batch as int + 1 <= avail as int) by (nonlinear_arith)
                        requires
                            avail as int == batch as int * (expect - seen_old) + rem_old,
                            expect - seen_old >= 1,
                            rem_old >= 1,
                            batch as int >= 0,
                    ;
                }
                batch = batch + 1;
            } else {
                proof {
                    assert(batch as int <= avail as int) by (nonlinear_arith)
                        requires
                            avail as int == batch as int * (expect - seen_old) + rem_old,
                            expect - seen_old >= 1,
                            rem_old >= 0,
                            batch as int >= 0,
                    ;
                }
            }
            let worker_id = self.worker_pipes.len();
            let config_copy = self.config.clone();
            let mut pool: Vec<GooseClientSpec> = Vec::new();
            core::mem::swap(&mut pool, &mut self.available_clients);
            let mut clients: Vec<GooseClientInitializer> = Vec::new();
            let mut c: u64 = 0;
            proof {
                assert(pool@ =~= old(self).available_clients@.take(avail as int));
            }
            while c < batch
                invariant
                    c <= batch,
                    batch <= avail,
                    avail == old(self).available_clients@.len(),
                    pool@ =~= old(self).available_clients@.take(avail - c),
                    clients@.len() == c,
                    config_copy == old(self).config,
                    forall|k: int|
                        0 <= k < c ==> {
                            let src = old(self).available_clients@[avail - 1 - k];
                            &&& (#[trigger] clients@[k]).worker_id == worker_id
                            &&& clients@[k].task_sets_index == src.task_sets_index
                            &&& clients@[k].default_host == src.default_host
                            &&& clients@[k].task_set_host == src.task_set_host
                            &&& clients@[k].min_wait == src.min_wait
                            &&& clients@[k].max_wait == src.max_wait
                            &&& clients@[k].config == old(self).config
                        },
                decreases batch - c,
            {
                proof {
                    assert(pool@.len() > 0);
                    assert(pool@.last() == old(self).available_clients@[avail - 1 - c]);
                }
                let client = match pool.pop() {
                    Some(client) => client,
                    None => {
                        proof {
                            assert(false);
                        }
                        return ManagerAction::Fatal(GooseError::ManagerProtocolError);
                    },
                };
                clients.push(
                    GooseClientInitializer {
                        task_sets_index: client.task_sets_index,
                        default_host: client.default_host,
                        task_set_host: client.task_set_host,
                        min_wait: client.min_wait,
                        max_wait: client.max_wait,
                        config: config_copy.clone(),
                        worker_id,
                    },
                );
                c = c + 1;
                proof {
                    assert(pool@ =~= old(self).available_clients@.take(avail - c));
                }
            }
            core::mem::swap(&mut pool, &mut self.available_clients);
            proof {
                let split = self.split_clients as int;
                assert(split * (expect - seen_old) - split == split * (expect - (seen_old + 1)))
                    by (nonlinear_arith);
            }
            if self.worker_pipes.len() as u64 == self.config.expect_workers {
                self.load_test_running = true;
                self.started = now;
                proof {
                    let split = self.split_clients as int;
                    assert(split * (expect - (seen_old + 1)) == 0) by (nonlinear_arith)
                        requires expect == seen_old + 1;
                }
            }
            ManagerAction::SendAllotment(clients)
        }
    }

    /// Whether a pipe identity belongs to an accepted worker.
    pub fn knows_pipe(&self, pipe_id: u64) -> (r: bool)
        ensures
            r == self.worker_pipes@.contains(pipe_id),
    {
        let mut i: usize = 0;
        while i < self.worker_pipes.len()
            invariant
                i <= self.worker_pipes@.len(),
                forall|j: int| 0 <= j < i ==> self.worker_pipes@[j] != pipe_id,
            decreases self.worker_pipes@.len() - i,
        {
            if self.worker_pipes[i] == pipe_id {
                proof {
                    assert(self.worker_pipes@[i as int] == pipe_id);
                }
                return true;
            }
            i = i + 1;
        }
        proof {
            assert(!self.worker_pipes@.contains(pipe_id));
        }
        false
    }
}

} // verus!
