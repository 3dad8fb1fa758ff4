//! The load-generation engine: hatch users on schedule, drive each through
//! its weighted transaction loop under the global throttle, correct for
//! coordinated omission, observe shutdown, run the on-stop drain, and
//! aggregate every outcome.
//!
//! The engine is deterministic: the target's behaviour (per-endpoint
//! latency, an optional stall window) and any cancel signal come in as plain
//! values, so a run can be replayed and checked record by record.

use vstd::prelude::*;
use crate::config::GooseConfiguration;
use crate::metrics::{spec_aggregate, GooseAggregator, GooseMethod, GooseRequestMetric};
use crate::scheduler::hatch_schedule;
use crate::throttle::{lemma_total_bound, permits_spaced, spec_quantum, Throttle, MICROS_PER_SECOND};
use crate::user::{synthesize_coordinated_omission, url_to_string, GooseRequestCadence};

verus! {

/// The largest user count, run time (seconds), hatch rate, latency and wait
/// (milliseconds) a simulated run accepts: generous for any load test, and
/// small enough that every time stays far from the clock type's range.
pub const MAX_SIM_PARAM: u64 = 1_000_000;

/// The number of engine steps a run is given before it stops taking new
/// requests; each step issues at most one request. Far beyond any bounded
/// run, and a hard guarantee that a run ends.
pub const MAX_SIM_STEPS: u64 = 10_000_000;

/// Every simulated clock stays below this, microseconds: run ends are at
/// most 2e12, and one loop step adds at most a few seconds.
pub const READY_CAP: u64 = 3_000_000_000_000;

/// What one virtual user executes, already expanded: the endpoint of each
/// transaction of one scenario loop in order, the wait between loops, and
/// the endpoints of the on-stop transactions run at shutdown.
pub struct SimScenario {
    /// One endpoint per transaction slot of the weighted expansion.
    pub expansion: Vec<usize>,
    /// Sleep between two scenario loops, milliseconds.
    pub wait_ms: u64,
    /// Endpoints of the on-stop transactions, run unthrottled at shutdown.
    pub on_stop_endpoints: Vec<usize>,
    /// Coordinated-omission correction kicks in when a loop gap exceeds the
    /// expected cadence by this factor (never below the built-in minimum of
    /// two); zero leaves the correction off.
    pub co_factor: u64,
}

/// How the target behaves: a base latency per endpoint, and one optional
/// stall window during which every request takes extra time.
pub struct SimTarget {
    /// Base latency of each endpoint, milliseconds; its length is the number
    /// of registered endpoints.
    pub latencies_ms: Vec<u64>,
    /// Requests issued at or after this time stall, microseconds.
    pub stall_from_us: u64,
    /// Requests issued before this time stall, microseconds.
    pub stall_until_us: u64,
    /// How much longer a stalled request takes, milliseconds.
    pub stall_extra_ms: u64,
}

/// The state of one running virtual user.
#[derive(Clone, Copy)]
pub struct SimUser {
    /// When the user next acts, microseconds.
    pub ready: u64,
    /// Where in the expansion the user stands.
    pub pos: usize,
    /// Completed scenario loops.
    pub iterations: u64,
    /// The user observed shutdown and stopped.
    pub stopped: bool,
    /// The cadence tracker feeding coordinated-omission correction.
    pub cadence: GooseRequestCadence,
}

/// Everything a finished run reports.
pub struct GooseAttackReport {
    /// One record per request, in issue order: the metrics stream.
    pub log: Vec<GooseRequestMetric>,
    /// Where the shutdown drain begins in the log: records before this index
    /// belong to running users, records from it on to on-stop transactions.
    pub main_log_len: usize,
    /// The aggregation of the whole log.
    pub aggregator: GooseAggregator,
    /// Completed scenario loops per user.
    pub iterations: Vec<u64>,
    /// Where in the expansion each user stopped.
    pub loop_positions: Vec<usize>,
    /// 0 on a clean run, 2 on a forced exit.
    pub exit_code: u8,
}

/// How many records of a log belong to user `u`'s own loop, synthesized
/// coordinated-omission records excluded.
pub open spec fn spec_count_user(log: Seq<GooseRequestMetric>, u: int) -> int
    decreases log.len(),
{
    if log.len() == 0 {
        0
    } else {
        spec_count_user(log.drop_last(), u) + if log.last().user == u
            && !log.last().coordinated_omission {
            1int
        } else {
            0int
        }
    }
}

/// How many records of a log are real issued requests (not synthesized).
pub open spec fn spec_count_regular(log: Seq<GooseRequestMetric>) -> int
    decreases log.len(),
{
    if log.len() == 0 {
        0
    } else {
        spec_count_regular(log.drop_last()) + if !log.last().coordinated_omission {
            1int
        } else {
            0int
        }
    }
}

/// The time the last user hatches: zero when there are no users.
pub open spec fn spec_last_hatch(config: GooseConfiguration) -> u64 {
    if config.users == 0 {
        0
    } else {
        ((config.users - 1) * crate::scheduler::spec_hatch_quantum(config.hatch_rate)) as u64
    }
}

/// The slot of user `u` in the hatch schedule: no request of `u` starts
/// before it.
pub open spec fn spec_user_hatch(config: GooseConfiguration, u: int) -> int {
    u * crate::scheduler::spec_hatch_quantum(config.hatch_rate)
}

/// When the run stops issuing requests: the run-time expiry, or the cancel
/// signal if it comes earlier. A run time of zero sets no expiry: the run is
/// bounded by the cancel alone.
pub open spec fn spec_end_effective(
    config: GooseConfiguration,
    last_hatch: u64,
    cancel_at: Option<u64>,
) -> int
    recommends
        config.run_time >= 1 || cancel_at is Some,
{
    let run_end = last_hatch + config.run_time * MICROS_PER_SECOND;
    match cancel_at {
        Some(c) => if config.run_time == 0 || c < run_end {
            c as int
        } else {
            run_end
        },
        None => run_end,
    }
}

/// The start times of a log's real issued requests, in log order.
pub open spec fn spec_regular_starts(log: Seq<GooseRequestMetric>) -> Seq<u64>
    decreases log.len(),
{
    if log.len() == 0 {
        Seq::empty()
    } else if log.last().coordinated_omission {
        spec_regular_starts(log.drop_last())
    } else {
        spec_regular_starts(log.drop_last()).push(log.last().started_at)
    }
}

/// Pushing one record onto a log moves the counters and the start times the
/// obvious way.
proof fn lemma_count_push(log: Seq<GooseRequestMetric>, m: GooseRequestMetric, u: int)
    ensures
        spec_count_user(log.push(m), u) == spec_count_user(log, u) + if m.user == u
            && !m.coordinated_omission {
            1int
        } else {
            0int
        },
        spec_count_regular(log.push(m)) == spec_count_regular(log) + if !m.coordinated_omission {
            1int
        } else {
            0int
        },
        spec_regular_starts(log.push(m)) == if !m.coordinated_omission {
            spec_regular_starts(log).push(m.started_at)
        } else {
            spec_regular_starts(log)
        },
{
    assert(log.push(m).drop_last() =~= log);
    assert(log.push(m).last() == m);
}

/// Appending only synthesized records changes no user's own record count and
/// no regular count.
proof fn lemma_count_concat_co(log: Seq<GooseRequestMetric>, extra: Seq<GooseRequestMetric>)
    requires
        forall|k: int| 0 <= k < extra.len() ==> (#[trigger] extra[k]).coordinated_omission,
    ensures
        forall|u: int| spec_count_user(log + extra, u) == spec_count_user(log, u),
        spec_count_regular(log + extra) == spec_count_regular(log),
        spec_regular_starts(log + extra) == spec_regular_starts(log),
    decreases extra.len(),
{
    if extra.len() == 0 {
        assert(log + extra =~= log);
    } else {
        lemma_count_concat_co(log, extra.drop_last());
        assert((log + extra).drop_last() =~= log + extra.drop_last());
        assert((log + extra).last() == extra.last());
        assert(extra.last().coordinated_omission);
        assert forall|u: int| spec_count_user(log + extra, u) == spec_count_user(log, u) by {
            assert(spec_count_user(log + extra, u) == spec_count_user(log + extra.drop_last(), u));
        }
    }
}

/// The per-user loop bookkeeping the engine maintains at every step: the
/// expansion position is in range, the iteration count and position recover
/// exactly the user's record count in the log, the cadence tracker
/// telescopes (the gaps it summed are the time since the run began), and the
/// user's clock is bounded.
pub open spec fn sim_user_ok(
    s: SimUser,
    log: Seq<GooseRequestMetric>,
    u: int,
    steps: int,
    expansion_len: int,
) -> bool {
    &&& s.pos < expansion_len
    &&& s.iterations * expansion_len + s.pos == spec_count_user(log, u)
    &&& s.iterations <= steps
    &&& s.cadence.loops <= steps
    &&& s.cadence.gap_sum == s.cadence.last_loop_end
    &&& s.cadence.last_loop_end <= s.ready
    &&& s.ready <= READY_CAP
}

/// The whole moving state of a run between engine steps.
pub struct SimRun {
    /// One state per virtual user.
    pub states: Vec<SimUser>,
    /// The metrics stream so far.
    pub log: Vec<GooseRequestMetric>,
    /// The global throttle, when the run is throttled.
    pub throttle_opt: Option<Throttle>,
    /// The permit each issued request carried, in issue order.
    pub issued: Ghost<Seq<u64>>,
    /// Steps left before the engine stops taking requests.
    pub fuel: u64,
}

/// The engine's invariant between steps: the shapes of the scenario and the
/// target, the per-user bookkeeping, that every logged record names a real
/// endpoint and was issued strictly before the effective end, and that the
/// issued permits are exactly the throttle's spaced permits, one per regular
/// record.
pub open spec fn sim_inv(
    run: SimRun,
    config: GooseConfiguration,
    scenario: SimScenario,
    target: SimTarget,
    end_eff: u64,
) -> bool {
    let n = target.latencies_ms@.len() as int;
    let el = scenario.expansion@.len() as int;
    &&& el > 0
    &&& forall|k: int| 0 <= k < el ==> (#[trigger] scenario.expansion@[k]) < n
    &&& forall|e: int| 0 <= e < n ==> (#[trigger] target.latencies_ms@[e]) <= MAX_SIM_PARAM
    &&& scenario.wait_ms <= MAX_SIM_PARAM
    &&& target.stall_extra_ms <= MAX_SIM_PARAM
    &&& end_eff <= 2_000_000_000_000
    &&& run.fuel <= MAX_SIM_STEPS
    &&& run.states@.len() == config.users
    &&& forall|k: int|
        0 <= k < run.log@.len() ==> (#[trigger] run.log@[k]).endpoint < n
            && run.log@[k].started_at < end_eff && run.log@[k].user < config.users
            && run.log@[k].started_at >= spec_user_hatch(config, run.log@[k].user as int)
    &&& forall|u: int|
        0 <= u < run.states@.len() ==> (#[trigger] run.states@[u]).ready >= spec_user_hatch(
            config,
            u,
        )
    &&& forall|k1: int, k2: int|
        0 <= k1 <= k2 < run.log@.len() ==> (#[trigger] run.log@[k1]).started_at <= (
        #[trigger] run.log@[k2]).started_at
    &&& forall|u: int|
        0 <= u < run.states@.len() ==> sim_user_ok(
            #[trigger] run.states@[u],
            run.log@,
            u,
            MAX_SIM_STEPS - run.fuel,
            el,
        )
    &&& (config.throttle_requests > 0) == (run.throttle_opt is Some)
    &&& match run.throttle_opt {
        Some(t) => {
            &&& t.wf()
            &&& t.spec_quantum_of() == spec_quantum(config.throttle_requests)
            &&& t.next_free <= end_eff + t.spec_quantum_of()
            &&& run.issued@ == t.spec_permits()
            &&& spec_count_regular(run.log@) == run.issued@.len()
            &&& spec_regular_starts(run.log@) == run.issued@
            &&& run.issued@.len() <= MAX_SIM_STEPS - run.fuel
            &&& forall|p: int| 0 <= p < run.issued@.len() ==> (#[trigger] run.issued@[p]) < end_eff
            &&& forall|k: int|
                0 <= k < run.log@.len() ==> (#[trigger] run.log@[k]).started_at <= t.next_free
        },
        None => forall|k: int, u: int|
            0 <= k < run.log@.len() && 0 <= u < run.states@.len() && !(
            #[trigger] run.states@[u]).stopped ==> (#[trigger] run.log@[k]).started_at
                <= run.states@[u].ready,
    }
}

impl SimRun {
    /// One engine step for the active user `idx`: observe shutdown if its
    /// clock or the throttle has passed the effective end, otherwise issue
    /// one request.
    #[verifier::rlimit(100)]
    #[verifier::spinoff_prover]
    pub fn step(
        &mut self,
        config: &GooseConfiguration,
        scenario: &SimScenario,
        target: &SimTarget,
        end_eff: u64,
        idx: usize,
    )
        requires
            sim_inv(*old(self), *config, *scenario, *target, end_eff),
            old(self).fuel > 0,
            idx < old(self).states@.len(),
            !old(self).states@[idx as int].stopped,
            forall|j: int|
                0 <= j < old(self).states@.len() && !(#[trigger] old(self).states@[j]).stopped
                    ==> old(self).states@[idx as int].ready <= old(self).states@[j].ready,
        ensures
            sim_inv(*final(self), *config, *scenario, *target, end_eff),
            final(self).fuel == old(self).fuel - 1,
            ({
                let blocked = old(self).states@[idx as int].ready >= end_eff || (match old(
                    self,
                ).throttle_opt {
                    Some(t) => t.next_free >= end_eff,
                    None => false,
                });
                if blocked {
                    &&& final(self).log@ == old(self).log@
                    &&& final(self).states@[idx as int].stopped
                } else {
                    &&& final(self).log@.len() > old(self).log@.len()
                    &&& spec_count_regular(final(self).log@) == spec_count_regular(old(self).log@)
                        + 1
                    &&& (#[trigger] final(self).log@[old(self).log@.len() as int]).user == idx
                    &&& !final(self).log@[old(self).log@.len() as int].coordinated_omission
                }
            }),
    {
        let ghost states_before = self.states@;
        let ghost el = scenario.expansion@.len() as int;
        self.fuel = self.fuel - 1;
        let s0 = self.states[idx];
        let mut blocked = s0.ready >= end_eff;
        match &self.throttle_opt {
            Some(t) => {
                if t.next_free >= end_eff {
                    blocked = true;
                }
            },
            None => {},
        }
        if blocked {
            let mut s = s0;
            s.stopped = true;
            self.states.set(idx, s);
            proof {
                self.lemma_unstep(
                    states_before,
                    idx as int,
                    s,
                    *config,
                    *scenario,
                    *target,
                    end_eff,
                );
                if self.throttle_opt is None {
                    assert forall|k: int, u: int|
                        0 <= k < self.log@.len() && 0 <= u < self.states@.len() && !(
                        #[trigger] self.states@[u]).stopped implies (
                    #[trigger] self.log@[k]).started_at <= self.states@[u].ready by {
                        if u != idx {
                            assert(self.states@[u] == states_before[u]);
                        }
                    }
                }
            }
            return ;
        }
        proof {
            assert forall|u: int| 0 <= u < self.states@.len() implies sim_user_ok(
                #[trigger] self.states@[u],
                self.log@,
                u,
                MAX_SIM_STEPS - self.fuel - 1,
                el,
            ) by {
                assert(sim_user_ok(
                    states_before[u],
                    self.log@,
                    u,
                    MAX_SIM_STEPS - (self.fuel + 1),
                    el,
                ));
            }
        }
        self.issue_step(config, scenario, target, end_eff, idx);
    }

    /// Issue one request for the active user `idx`, whose clock and the
    /// throttle both lie before the effective end: acquire a permit, record
    /// the outcome against the target, advance the user's loop, and run
    /// coordinated-omission correction when a completed loop took more than
    /// twice its expected cadence.
    #[verifier::rlimit(100)]
    #[verifier::spinoff_prover]
    fn issue_step(
        &mut self,
        config: &GooseConfiguration,
        scenario: &SimScenario,
        target: &SimTarget,
        end_eff: u64,
        idx: usize,
    )
        requires
            sim_inv(*old(self), *config, *scenario, *target, end_eff),
            idx < old(self).states@.len(),
            !old(self).states@[idx as int].stopped,
            old(self).states@[idx as int].ready < end_eff,
            (match old(self).throttle_opt {
                Some(t) => t.next_free < end_eff && old(self).issued@.len() < MAX_SIM_STEPS - old(
                    self,
                ).fuel,
                None => true,
            }),
            forall|u: int|
                0 <= u < old(self).states@.len() ==> sim_user_ok(
                    #[trigger] old(self).states@[u],
                    old(self).log@,
                    u,
                    MAX_SIM_STEPS - old(self).fuel - 1,
                    scenario.expansion@.len() as int,
                ),
            forall|j: int|
                0 <= j < old(self).states@.len() && !(#[trigger] old(self).states@[j]).stopped
                    ==> old(self).states@[idx as int].ready <= old(self).states@[j].ready,
        ensures
            sim_inv(*final(self), *config, *scenario, *target, end_eff),
            final(self).fuel == old(self).fuel,
            final(self).log@.len() > old(self).log@.len(),
            spec_count_regular(final(self).log@) == spec_count_regular(old(self).log@) + 1,
            final(self).log@[old(self).log@.len() as int].user == idx,
            !final(self).log@[old(self).log@.len() as int].coordinated_omission,
    {
        let ghost states_before = self.states@;
        let ghost el = scenario.expansion@.len() as int;
        let ghost log_before = self.log@;
        let ghost throttle_before = self.throttle_opt;
        let mut s = self.states[idx];
        let mut permit: u64 = s.ready;
        match &mut self.throttle_opt {
            Some(t) => {
                permit = t.acquire(s.ready);
                proof {
                    self.issued@ = self.issued@.push(permit);
                    assert(permit >= throttle_before->0.next_free);
                    assert(t.next_free == permit + t.spec_quantum_of());
                }
            },
            None => {},
        }
        proof {
            assert forall|k: int| 0 <= k < log_before.len() implies (
            #[trigger] log_before[k]).started_at <= permit by {
                if config.throttle_requests > 0 {
                    assert(log_before[k].started_at <= throttle_before->0.next_free);
                } else {
                    assert(!states_before[idx as int].stopped);
                    assert(log_before[k].started_at <= states_before[idx as int].ready);
                }
            }
        }
        let e = scenario.expansion[s.pos];
        let mut lat = target.latencies_ms[e];
        if target.stall_from_us <= permit && permit < target.stall_until_us {
            lat = lat + target.stall_extra_ms;
        }
        let m = GooseRequestMetric {
            endpoint: e,
            method: GooseMethod::Get,
            url: url_to_string(""),
            started_at: permit,
            elapsed: lat,
            status: 200,
            success: true,
            user: idx,
            coordinated_omission: false,
            error: None,
        };
        self.log.push(m);
        proof {
            assert forall|u: int| spec_count_user(self.log@, u) == spec_count_user(log_before, u)
                + (if u == idx {
                1int
            } else {
                0int
            }) by {
                lemma_count_push(log_before, m, u);
            }
            lemma_count_push(log_before, m, 0);
        }
        let done = permit + lat * 1000;
        let mut co_trigger = false;
        let mut co_gap_ms: u64 = 0;
        let mut co_cadence_ms: u64 = 0;
        let expansion_len = scenario.expansion.len();
        s.pos = s.pos + 1;
        if s.pos == expansion_len {
            s.pos = 0;
            s.iterations = s.iterations + 1;
            let avg_us = s.cadence.expected_cadence();
            proof {
                if s.cadence.loops >= 1 {
                    assert(avg_us <= s.cadence.gap_sum) by (nonlinear_arith)
                        requires
                            avg_us == s.cadence.gap_sum as int / s.cadence.loops as int,
                            s.cadence.loops >= 1,
                            s.cadence.gap_sum >= 0,
                    ;
                }
            }
            let gap = s.cadence.observe(done);
            let gap_ms = gap / 1000;
            let cadence_ms = avg_us / 1000;
            if scenario.co_factor > 0 && cadence_ms > 0 && gap_ms > cadence_ms * 2 {
                proof {
                    assert((cadence_ms as int) * (scenario.co_factor as int) <= u128::MAX)
                        by (nonlinear_arith)
                        requires
                            0 <= cadence_ms <= READY_CAP,
                            0 <= scenario.co_factor <= u64::MAX,
                    ;
                }
                let configured: u128 = (cadence_ms as u128) * (scenario.co_factor as u128);
                if (gap_ms as u128) > configured {
                    co_trigger = true;
                    co_gap_ms = gap_ms;
                    co_cadence_ms = cadence_ms;
                }
            }
            s.ready = done + scenario.wait_ms * 1000;
        } else {
            s.ready = done;
        }
        self.states.set(idx, s);
        proof {
            assert forall|u: int| 0 <= u < self.states@.len() implies sim_user_ok(
                #[trigger] self.states@[u],
                self.log@,
                u,
                MAX_SIM_STEPS - self.fuel,
                el,
            ) by {
                assert(sim_user_ok(
                    states_before[u],
                    log_before,
                    u,
                    MAX_SIM_STEPS - (self.fuel + 1),
                    el,
                ));
                if u != idx {
                    assert(self.states@[u] == states_before[u]);
                } else {
                    let before = states_before[idx as int];
                    if before.pos + 1 == el {
                        assert(s.iterations * el == before.iterations * el + el)
                            by (nonlinear_arith)
                            requires s.iterations == before.iterations + 1, el > 0;
                    }
                }
            }
            assert(self.log@ == log_before.push(m));
            assert forall|u: int| 0 <= u < self.states@.len() implies (
            #[trigger] self.states@[u]).ready >= spec_user_hatch(*config, u) by {
                if u != idx {
                    assert(self.states@[u] == states_before[u]);
                    assert(states_before[u].ready >= spec_user_hatch(*config, u));
                } else {
                    assert(states_before[idx as int].ready >= spec_user_hatch(
                        *config,
                        idx as int,
                    ));
                    assert(permit >= states_before[idx as int].ready);
                }
            }
            assert forall|k: int| 0 <= k < self.log@.len() implies (#[trigger] self.log@[k]).user
                < config.users && self.log@[k].started_at >= spec_user_hatch(
                *config,
                self.log@[k].user as int,
            ) by {
                if k < log_before.len() {
                    assert(self.log@[k] == log_before[k]);
                } else {
                    assert(self.log@[k] == m);
                    assert(states_before[idx as int].ready >= spec_user_hatch(
                        *config,
                        idx as int,
                    ));
                    assert(permit >= states_before[idx as int].ready);
                }
            }
            assert forall|k1: int, k2: int| 0 <= k1 <= k2 < self.log@.len() implies (
            #[trigger] self.log@[k1]).started_at <= (#[trigger] self.log@[k2]).started_at by {
                if k2 < log_before.len() {
                    assert(self.log@[k1] == log_before[k1] && self.log@[k2] == log_before[k2]);
                } else if k1 < log_before.len() {
                    assert(self.log@[k1] == log_before[k1] && self.log@[k2] == m);
                }
            }
            if config.throttle_requests > 0 {
                assert forall|k: int| 0 <= k < self.log@.len() implies (
                #[trigger] self.log@[k]).started_at <= self.throttle_opt->0.next_free by {
                    if k < log_before.len() {
                        assert(self.log@[k] == log_before[k]);
                    }
                }
            } else {
                assert forall|k: int, u: int|
                    0 <= k < self.log@.len() && 0 <= u < self.states@.len() && !(
                    #[trigger] self.states@[u]).stopped implies (
                #[trigger] self.log@[k]).started_at <= self.states@[u].ready by {
                    if u != idx {
                        assert(self.states@[u] == states_before[u]);
                        assert(states_before[idx as int].ready <= states_before[u].ready);
                    }
                    if k < log_before.len() {
                        assert(self.log@[k] == log_before[k]);
                    }
                }
            }
        }
        if co_trigger {
            let mut co_records = synthesize_coordinated_omission(
                e,
                GooseMethod::Get,
                "",
                idx,
                permit,
                co_gap_ms,
                co_cadence_ms,
            );
            let ghost log_mid = self.log@;
            let ghost extra = co_records@;
            self.log.append(&mut co_records);
            proof {
                lemma_count_concat_co(log_mid, extra);
                assert forall|u: int| 0 <= u < self.states@.len() implies sim_user_ok(
                    #[trigger] self.states@[u],
                    self.log@,
                    u,
                    MAX_SIM_STEPS - self.fuel,
                    el,
                ) by {
                    assert(sim_user_ok(self.states@[u], log_mid, u, MAX_SIM_STEPS - self.fuel, el));
                    assert(spec_count_user(self.log@, u) == spec_count_user(log_mid, u));
                }
                assert forall|k: int| 0 <= k < self.log@.len() implies (
                #[trigger] self.log@[k]).endpoint < target.latencies_ms@.len()
                    && self.log@[k].started_at < end_eff && self.log@[k].user < config.users
                    && self.log@[k].started_at >= spec_user_hatch(
                    *config,
                    self.log@[k].user as int,
                ) by {
                    if k >= log_mid.len() {
                        assert(self.log@[k] == extra[k - log_mid.len()]);
                        assert(self.log@[k].user == idx && self.log@[k].started_at == permit);
                        assert(states_before[idx as int].ready >= spec_user_hatch(
                            *config,
                            idx as int,
                        ));
                        assert(permit >= states_before[idx as int].ready);
                    } else {
                        assert(self.log@[k] == log_mid[k]);
                    }
                }
                assert forall|k1: int, k2: int| 0 <= k1 <= k2 < self.log@.len() implies (
                #[trigger] self.log@[k1]).started_at <= (#[trigger] self.log@[k2]).started_at by {
                    if k1 < log_mid.len() && k2 < log_mid.len() {
                        assert(self.log@[k1] == log_mid[k1] && self.log@[k2] == log_mid[k2]);
                    } else {
                        if k1 >= log_mid.len() {
                            assert(self.log@[k1] == extra[k1 - log_mid.len()]);
                        } else {
                            assert(self.log@[k1] == log_mid[k1]);
                            assert(log_mid[k1].started_at <= log_mid[log_mid.len() - 1].started_at);
                            assert(log_mid[log_mid.len() - 1] == m);
                        }
                        assert(self.log@[k2] == extra[k2 - log_mid.len()]);
                        assert(extra[k2 - log_mid.len()].started_at == permit);
                    }
                }
                if config.throttle_requests > 0 {
                    assert forall|k: int| 0 <= k < self.log@.len() implies (
                    #[trigger] self.log@[k]).started_at <= self.throttle_opt->0.next_free by {
                        if k < log_mid.len() {
                            assert(self.log@[k] == log_mid[k]);
                        } else {
                            assert(self.log@[k] == extra[k - log_mid.len()]);
                            assert(self.log@[k].started_at == permit);
                        }
                    }
                } else {
                    assert forall|k: int, u: int|
                        0 <= k < self.log@.len() && 0 <= u < self.states@.len() && !(
                        #[trigger] self.states@[u]).stopped implies (
                    #[trigger] self.log@[k]).started_at <= self.states@[u].ready by {
                        if k < log_mid.len() {
                            assert(self.log@[k] == log_mid[k]);
                        } else {
                            assert(self.log@[k] == extra[k - log_mid.len()]);
                            assert(self.log@[k].started_at == permit);
                            assert(log_mid[log_mid.len() - 1] == m && m.started_at == permit);
                            assert(log_mid[log_mid.len() - 1].started_at <= self.states@[u].ready);
                        }
                    }
                }
            }
        }
    }

    /// A step that only marks user `idx` stopped keeps the per-user
    /// bookkeeping: the log, the throttle and every other user are untouched.
    proof fn lemma_unstep(
        &self,
        states_before: Seq<SimUser>,
        idx: int,
        s: SimUser,
        config: GooseConfiguration,
        scenario: SimScenario,
        target: SimTarget,
        end_eff: u64,
    )
        requires
            0 <= idx < states_before.len(),
            self.states@ =~= states_before.update(idx, s),
            s.pos == states_before[idx].pos,
            s.iterations == states_before[idx].iterations,
            s.cadence == states_before[idx].cadence,
            s.ready == states_before[idx].ready,
            self.fuel < MAX_SIM_STEPS,
            forall|u: int|
                0 <= u < states_before.len() ==> sim_user_ok(
                    #[trigger] states_before[u],
                    self.log@,
                    u,
                    MAX_SIM_STEPS - (self.fuel + 1),
                    scenario.expansion@.len() as int,
                ),
        ensures
            forall|u: int|
                0 <= u < self.states@.len() ==> sim_user_ok(
                    #[trigger] self.states@[u],
                    self.log@,
                    u,
                    MAX_SIM_STEPS - self.fuel,
                    scenario.expansion@.len() as int,
                ),
    {
        assert forall|u: int| 0 <= u < self.states@.len() implies sim_user_ok(
            #[trigger] self.states@[u],
            self.log@,
            u,
            MAX_SIM_STEPS - self.fuel,
            scenario.expansion@.len() as int,
        ) by {
            assert(sim_user_ok(
                states_before[u],
                self.log@,
                u,
                MAX_SIM_STEPS - (self.fuel + 1),
                scenario.expansion@.len() as int,
            ));
            if u != idx {
                assert(self.states@[u] == states_before[u]);
            }
        }
    }
}

/// Pick the active user that acts next: the earliest `ready`, the lowest
/// index on a tie. `None` once every user stopped.
fn pick_next(states: &Vec<SimUser>) -> (r: Option<usize>)
    ensures
        match r {
            Some(u) => {
                &&& u < states@.len()
                &&& !states@[u as int].stopped
                &&& forall|j: int|
                    0 <= j < states@.len() && !(#[trigger] states@[j]).stopped ==> states@[u as int].ready
                        <= states@[j].ready
            },
            None => forall|j: int| 0 <= j < states@.len() ==> (#[trigger] states@[j]).stopped,
        },
{
    let mut best: Option<usize> = None;
    let mut i: usize = 0;
    while i < states.len()
        invariant
            i <= states@.len(),
            match best {
                Some(u) => {
                    &&& u < states@.len()
                    &&& !states@[u as int].stopped
                    &&& forall|j: int|
                        0 <= j < i && !(#[trigger] states@[j]).stopped ==> states@[u as int].ready
                            <= states@[j].ready
                },
                None => forall|j: int| 0 <= j < i ==> (#[trigger] states@[j]).stopped,
            },
        decreases states@.len() - i,
    {
        if !states[i].stopped {
            best = match best {
                Some(u) => if states[i].ready < states[u].ready {
                    Some(i)
                } else {
                    Some(u)
                },
                None => Some(i),
            };
        }
        i = i + 1;
    }
    best
}

/// Run a whole standalone load test to completion, deterministically.
///
/// Users hatch on the scheduler's timetable; each walks its weighted
/// expansion, acquiring one throttle permit per request while throttled,
/// sleeping the scenario's wait between loops, and synthesizing
/// coordinated-omission records when a loop gap exceeds twice its expected
/// cadence. No request is issued at or after the effective end of the run
/// (run-time expiry, or an earlier cancel). On a clean shutdown every user
/// then runs its on-stop transactions unthrottled; a forced exit skips them
/// and reports exit code 2.
#[verifier::rlimit(100)]
pub fn run_load_test(
    config: &GooseConfiguration,
    scenario: &SimScenario,
    target: &SimTarget,
    cancel_at: Option<u64>,
    force_exit: bool,
) -> (r: GooseAttackReport)
    requires
        config.spec_valid(),
        !config.manager,
        !config.worker,
        config.run_time <= MAX_SIM_PARAM,
        config.run_time >= 1 || (cancel_at is Some && cancel_at->0 <= 2_000_000_000_000),
        config.users <= MAX_SIM_PARAM,
        config.hatch_rate <= MICROS_PER_SECOND,
        scenario.expansion@.len() > 0,
        forall|k: int|
            0 <= k < scenario.expansion@.len() ==> (#[trigger] scenario.expansion@[k])
                < target.latencies_ms@.len(),
        forall|k: int|
            0 <= k < scenario.on_stop_endpoints@.len() ==> (
            #[trigger] scenario.on_stop_endpoints@[k]) < target.latencies_ms@.len(),
        forall|e: int|
            0 <= e < target.latencies_ms@.len() ==> (#[trigger] target.latencies_ms@[e])
                <= MAX_SIM_PARAM,
        scenario.wait_ms <= MAX_SIM_PARAM,
        target.stall_extra_ms <= MAX_SIM_PARAM,
    ensures
        r.aggregator.wf(),
        r.aggregator@ =~= spec_aggregate(target.latencies_ms@.len() as int, r.log@),
        forall|k: int|
            0 <= k < r.log@.len() ==> (#[trigger] r.log@[k]).endpoint < target.latencies_ms@.len(),
        config.users == 0 ==> r.log@.len() == 0,
        r.iterations@.len() == config.users,
        r.loop_positions@.len() == config.users,
        r.main_log_len <= r.log@.len(),
        forall|u: int|
            0 <= u < config.users ==> {
                &&& (#[trigger] r.iterations@[u]) * scenario.expansion@.len()
                    + r.loop_positions@[u] == spec_count_user(
                    r.log@.take(r.main_log_len as int),
                    u,
                )
                &&& r.loop_positions@[u] < scenario.expansion@.len()
            },
        forall|k: int|
            0 <= k < r.main_log_len ==> (#[trigger] r.log@[k]).started_at < spec_end_effective(
                *config,
                spec_last_hatch(*config),
                cancel_at,
            ),
        r.exit_code == if force_exit {
            2int
        } else {
            0int
        },
        config.throttle_requests > 0 ==> spec_count_regular(r.log@.take(r.main_log_len as int))
            * spec_quantum(config.throttle_requests) < spec_end_effective(
            *config,
            spec_last_hatch(*config),
            cancel_at,
        ) + spec_quantum(config.throttle_requests),
        (config.users > 0 && spec_end_effective(*config, spec_last_hatch(*config), cancel_at) > 0)
            ==> spec_count_regular(r.log@.take(r.main_log_len as int)) > 0,
        forall|k1: int, k2: int|
            0 <= k1 <= k2 < r.main_log_len ==> (#[trigger] r.log@[k1]).started_at <= (
            #[trigger] r.log@[k2]).started_at,
        config.throttle_requests > 0 ==> permits_spaced(
            spec_regular_starts(r.log@.take(r.main_log_len as int)),
            spec_quantum(config.throttle_requests),
        ),
        !force_exit ==> r.log@.len() == r.main_log_len + config.users
            * scenario.on_stop_endpoints@.len(),
        force_exit ==> r.log@.len() == r.main_log_len,
        forall|k: int|
            r.main_log_len <= k < r.log@.len() ==> (#[trigger] r.log@[k]).started_at
                == spec_end_effective(*config, spec_last_hatch(*config), cancel_at) && (exists|j: int|
                0 <= j < scenario.on_stop_endpoints@.len() && r.log@[k].endpoint
                    == scenario.on_stop_endpoints@[j]),
        forall|k: int|
            0 <= k < r.main_log_len ==> (#[trigger] r.log@[k]).user < config.users
                && r.log@[k].started_at >= spec_user_hatch(*config, r.log@[k].user as int),
{
    let n = target.latencies_ms.len();
    let users: usize = config.users as usize;
    let hatch = hatch_schedule(config.users, config.hatch_rate);
    let last_hatch: u64 = if users == 0 {
        0
    } else {
        hatch[users - 1]
    };
    proof {
        if users > 0 {
            assert(last_hatch == (users - 1) * crate::scheduler::spec_hatch_quantum(
                config.hatch_rate,
            ));
            assert((users - 1) * crate::scheduler::spec_hatch_quantum(config.hatch_rate) <= (
            MAX_SIM_PARAM as int) * (MICROS_PER_SECOND as int)) by (nonlinear_arith)
                requires
                    0 <= users - 1 < MAX_SIM_PARAM,
                    0 <= crate::scheduler::spec_hatch_quantum(config.hatch_rate)
                        <= MICROS_PER_SECOND,
            ;
        }
        assert(last_hatch == spec_last_hatch(*config));
    }
    let run_end: u64 = last_hatch + config.run_time * MICROS_PER_SECOND;
    let end_eff: u64 = match cancel_at {
        Some(c) => if config.run_time == 0 || c < run_end {
            c
        } else {
            run_end
        },
        None => run_end,
    };
    proof {
        assert(end_eff == spec_end_effective(*config, spec_last_hatch(*config), cancel_at));
        assert(end_eff <= 2_000_000_000_000);
        assert forall|u: int| 0 <= u < hatch@.len() implies (#[trigger] hatch@[u]) <= READY_CAP by {
            assert(hatch@[u] == u * crate::scheduler::spec_hatch_quantum(config.hatch_rate));
            assert(u * crate::scheduler::spec_hatch_quantum(config.hatch_rate) <= (
            MAX_SIM_PARAM as int) * (MICROS_PER_SECOND as int)) by (nonlinear_arith)
                requires
                    0 <= u <= MAX_SIM_PARAM,
                    0 <= crate::scheduler::spec_hatch_quantum(config.hatch_rate)
                        <= MICROS_PER_SECOND,
            ;
        }
    }
    let throttle_opt: Option<Throttle> = if config.throttle_requests > 0 {
        Some(Throttle::new(config.throttle_requests))
    } else {
        None
    };
    let mut states: Vec<SimUser> = Vec::new();
    let mut i: usize = 0;
    while i < users
        invariant
            i <= users,
            users <= hatch@.len(),
            states@.len() == i,
            forall|u: int|
                0 <= u < i ==> {
                    let s = #[trigger] states@[u];
                    &&& s.ready == hatch@[u]
                    &&& s.pos == 0
                    &&& s.iterations == 0
                    &&& !s.stopped
                    &&& s.cadence.last_loop_end == 0
                    &&& s.cadence.gap_sum == 0
                    &&& s.cadence.loops == 0
                },
            forall|u: int| 0 <= u < hatch@.len() ==> (#[trigger] hatch@[u]) <= READY_CAP,
        decreases users - i,
    {
        states.push(
            SimUser {
                ready: hatch[i],
                pos: 0,
                iterations: 0,
                stopped: false,
                cadence: GooseRequestCadence::new(),
            },
        );
        i = i + 1;
    }
    proof {
        assert forall|u: int| 0 <= u < states@.len() implies (#[trigger] states@[u]).ready
            >= spec_user_hatch(*config, u) by {
            assert(states@[u].ready == hatch@[u]);
            assert(hatch@[u] == u * crate::scheduler::spec_hatch_quantum(config.hatch_rate));
        }
    }
    let mut run = SimRun {
        states,
        log: Vec::new(),
        throttle_opt,
        issued: Ghost(Seq::empty()),
        fuel: MAX_SIM_STEPS,
    };
    while run.fuel > 0
        invariant
            sim_inv(run, *config, *scenario, *target, end_eff),
            n == target.latencies_ms@.len(),
            users == config.users,
            users <= hatch@.len(),
            users > 0 ==> hatch@[0] == 0,
            end_eff == spec_end_effective(*config, spec_last_hatch(*config), cancel_at),
            users == 0 ==> run.log@.len() == 0,
            run.fuel == MAX_SIM_STEPS ==> (run.log@.len() == 0 && (match run.throttle_opt {
                Some(t) => t.next_free == 0,
                None => true,
            }) && (forall|u: int|
                0 <= u < users ==> !(#[trigger] run.states@[u]).stopped && run.states@[u].ready
                    == hatch@[u])),
            (run.fuel < MAX_SIM_STEPS && users > 0 && end_eff > 0) ==> spec_count_regular(
                run.log@,
            ) >= 1,
        decreases run.fuel,
    {
        let next = pick_next(&run.states);
        let idx = match next {
            Some(idx) => idx,
            None => {
                // Every user has stopped: the run is over.
                let ghost fuel_before = run.fuel;
                proof {
                    if users > 0 && run.fuel == MAX_SIM_STEPS {
                        assert(run.states@[0].stopped);
                        assert(false);
                    }
                }
                run.fuel = 0;
                proof {
                    assert forall|u: int| 0 <= u < run.states@.len() implies sim_user_ok(
                        #[trigger] run.states@[u],
                        run.log@,
                        u,
                        MAX_SIM_STEPS - run.fuel,
                        scenario.expansion@.len() as int,
                    ) by {
                        assert(sim_user_ok(
                            run.states@[u],
                            run.log@,
                            u,
                            MAX_SIM_STEPS - fuel_before,
                            scenario.expansion@.len() as int,
                        ));
                    }
                }
                continue ;
            },
        };
        let ghost fuel_old = run.fuel;
        let ghost count_old = spec_count_regular(run.log@);
        let ghost ready_old = run.states@[idx as int].ready;
        proof {
            if fuel_old == MAX_SIM_STEPS && users > 0 && end_eff > 0 {
                assert(!run.states@[0].stopped && run.states@[0].ready == hatch@[0]);
                assert(run.states@[idx as int].ready <= run.states@[0].ready);
                assert(run.states@[idx as int].ready == 0);
                if run.throttle_opt is Some {
                    assert(run.throttle_opt->0.next_free == 0);
                    assert(run.throttle_opt->0.next_free < end_eff);
                }
            }
        }
        run.step(config, scenario, target, end_eff, idx);
        proof {
            if users > 0 && end_eff > 0 {
                if fuel_old == MAX_SIM_STEPS {
                    assert(ready_old < end_eff);
                    assert(spec_count_regular(run.log@) == count_old + 1);
                }
            }
        }
    }
    let main_log_len = run.log.len();
    let ghost main_log = run.log@;
    proof {
        if config.throttle_requests > 0 {
            let t = run.throttle_opt->0;
            assert(spec_quantum(config.throttle_requests) * run.issued@.len() <= u64::MAX)
                by (nonlinear_arith)
                requires
                    0 <= spec_quantum(config.throttle_requests) <= MICROS_PER_SECOND,
                    0 <= run.issued@.len() <= MAX_SIM_STEPS,
            ;
            lemma_total_bound(
                run.issued@,
                spec_quantum(config.throttle_requests),
                0,
                end_eff,
                run.issued@.len() as int,
            );
            assert(spec_count_regular(main_log) == run.issued@.len());
            assert(spec_count_regular(main_log) * spec_quantum(config.throttle_requests)
                < end_eff + spec_quantum(config.throttle_requests));
        }
        assert(forall|k: int|
            0 <= k < main_log.len() ==> (#[trigger] main_log[k]).endpoint
                < target.latencies_ms@.len() && main_log[k].started_at < end_eff);
    }
    let mut iterations: Vec<u64> = Vec::new();
    let mut loop_positions: Vec<usize> = Vec::new();
    let mut u: usize = 0;
    while u < users
        invariant
            u <= users,
            run.states@.len() == users,
            iterations@.len() == u,
            loop_positions@.len() == u,
            forall|v: int|
                0 <= v < u ==> (#[trigger] iterations@[v]) == run.states@[v].iterations
                    && loop_positions@[v] == run.states@[v].pos,
        decreases users - u,
    {
        iterations.push(run.states[u].iterations);
        loop_positions.push(run.states[u].pos);
        u = u + 1;
    }
    proof {
        assert forall|v: int| 0 <= v < config.users implies (#[trigger] iterations@[v])
            * scenario.expansion@.len() + loop_positions@[v] == spec_count_user(main_log, v)
            && loop_positions@[v] < scenario.expansion@.len() by {
            assert(run.states@.len() == config.users);
            assert(sim_user_ok(
                run.states@[v],
                run.log@,
                v,
                MAX_SIM_STEPS - run.fuel,
                scenario.expansion@.len() as int,
            ));
            assert(run.states@[v].iterations * (scenario.expansion@.len() as int)
                + run.states@[v].pos == spec_count_user(run.log@, v));
            assert(iterations@[v] == run.states@[v].iterations);
            assert(loop_positions@[v] == run.states@[v].pos);
            assert(main_log == run.log@);
        }
        if config.users > 0 && end_eff > 0 {
            assert(run.fuel < MAX_SIM_STEPS);
            assert(spec_count_regular(main_log) >= 1);
        }
    }
    let mut log = run.log;
    if !force_exit {
        let mut v: usize = 0;
        while v < users
            invariant
                v <= users,
                n == target.latencies_ms@.len(),
                forall|k: int|
                    0 <= k < scenario.on_stop_endpoints@.len() ==> (
                    #[trigger] scenario.on_stop_endpoints@[k]) < n,
                main_log_len <= log@.len(),
                log@.take(main_log_len as int) =~= main_log,
                log@.len() == main_log_len + v * scenario.on_stop_endpoints@.len(),
                forall|k: int| 0 <= k < log@.len() ==> (#[trigger] log@[k]).endpoint < n,
                forall|k: int|
                    main_log_len <= k < log@.len() ==> (#[trigger] log@[k]).started_at == end_eff
                        && (exists|j: int|
                        0 <= j < scenario.on_stop_endpoints@.len() && log@[k].endpoint
                            == scenario.on_stop_endpoints@[j]),
            decreases users - v,
        {
            let ghost len_at_v = log@.len() as int;
            let mut w: usize = 0;
            while w < scenario.on_stop_endpoints.len()
                invariant
                    w <= scenario.on_stop_endpoints@.len(),
                    v < users,
                    n == target.latencies_ms@.len(),
                    forall|k: int|
                        0 <= k < scenario.on_stop_endpoints@.len() ==> (
                        #[trigger] scenario.on_stop_endpoints@[k]) < n,
                    main_log_len <= log@.len(),
                    log@.take(main_log_len as int) =~= main_log,
                    len_at_v == main_log_len + v * scenario.on_stop_endpoints@.len(),
                    log@.len() == len_at_v + w,
                    forall|k: int| 0 <= k < log@.len() ==> (#[trigger] log@[k]).endpoint < n,
                    forall|k: int|
                        main_log_len <= k < log@.len() ==> (#[trigger] log@[k]).started_at
                            == end_eff && (exists|j: int|
                            0 <= j < scenario.on_stop_endpoints@.len() && log@[k].endpoint
                                == scenario.on_stop_endpoints@[j]),
                decreases scenario.on_stop_endpoints@.len() - w,
            {
                let e = scenario.on_stop_endpoints[w];
                let lat = target.latencies_ms[e];
                log.push(
                    GooseRequestMetric {
                        endpoint: e,
                        method: GooseMethod::Get,
                        url: url_to_string(""),
                        started_at: end_eff,
                        elapsed: lat,
                        status: 200,
                        success: true,
                        user: v,
                        coordinated_omission: false,
                        error: None,
                    },
                );
                proof {
                    assert(log@.take(main_log_len as int) =~= main_log);
                    assert(log@[log@.len() - 1].endpoint == scenario.on_stop_endpoints@[w as int]);
                }
                w = w + 1;
            }
            v = v + 1;
            proof {
                let os = scenario.on_stop_endpoints@.len() as int;
                assert((v - 1) * os + os == v * os) by (nonlinear_arith);
            }
        }
    }
    let log_len_now = log.len();
    proof {
        assert(log@.len() == log_len_now);
    }
    let aggregator = GooseAggregator::aggregate_all(n, &log);
    proof {
        assert(main_log =~= log@.take(main_log_len as int));
        assert forall|k: int| 0 <= k < main_log_len implies (#[trigger] log@[k]).started_at
            < end_eff by {
            assert(log@.take(main_log_len as int)[k] == log@[k]);
            assert(main_log[k].started_at < end_eff);
        }
        if config.users == 0 {
            assert(main_log.len() == 0);
            assert(log@.len() == 0);
        }
        assert(log@.take(main_log_len as int) == main_log);
        assert forall|u: int| 0 <= u < config.users implies (#[trigger] iterations@[u])
            * scenario.expansion@.len() + loop_positions@[u] == spec_count_user(
            log@.take(main_log_len as int),
            u,
        ) && loop_positions@[u] < scenario.expansion@.len() by {
            assert(iterations@[u] * scenario.expansion@.len() + loop_positions@[u]
                == spec_count_user(main_log, u));
        }
        assert forall|k1: int, k2: int| 0 <= k1 <= k2 < main_log_len implies (
        #[trigger] log@[k1]).started_at <= (#[trigger] log@[k2]).started_at by {
            assert(log@.take(main_log_len as int)[k1] == log@[k1]);
            assert(log@.take(main_log_len as int)[k2] == log@[k2]);
            assert(main_log[k1].started_at <= main_log[k2].started_at);
        }
        if config.throttle_requests > 0 {
            let t = run.throttle_opt->0;
            assert(spec_regular_starts(main_log) == run.issued@);
            assert(permits_spaced(run.issued@, spec_quantum(config.throttle_requests)));
        }
        if force_exit {
            assert(log@.len() == main_log_len);
        }
        assert forall|k: int| 0 <= k < main_log_len implies (#[trigger] log@[k]).user
            < config.users && log@[k].started_at >= spec_user_hatch(
            *config,
            log@[k].user as int,
        ) by {
            assert(log@.take(main_log_len as int)[k] == log@[k]);
            assert(main_log[k].user < config.users);
            assert(main_log[k].started_at >= spec_user_hatch(*config, main_log[k].user as int));
        }
    }
    GooseAttackReport {
        log,
        main_log_len,
        aggregator,
        iterations,
        loop_positions,
        exit_code: if force_exit {
            2
        } else {
            0
        },
    }
}

} // verus!
