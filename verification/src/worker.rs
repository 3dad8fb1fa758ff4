//! A worker of a distributed load test: it connects to the manager, offers
//! its load-test hash, hatches the users of its allotment in a blocked
//! state, releases them when told to run, accumulates a metrics delta and
//! ships it with every poll, and drains on exit.
//!
//! As with the manager, the transport loop lives outside: it sends what
//! these functions return and feeds back the command each reply carries.

use vstd::prelude::*;
use crate::command::GooseClientCommand;
use crate::manager::GooseClientInitializer;
use crate::metrics::{
    spec_aggregate, spec_apply, spec_empty_state, GooseAggregator, GooseRequestMetric,
};

verus! {

/// Where a worker stands in the manager's protocol.
#[derive(Clone, Copy, Debug, PartialEq, Eq, Structural)]
pub enum WorkerPhase {
    /// Connected, hash offered, no allotment yet.
    Connecting,
    /// Allotment received; users hatched but blocked until the manager says
    /// to run.
    Waiting,
    /// Users released; the load test is running.
    Running,
    /// Told to exit: on-stop transactions, a final flush, then disconnect.
    Stopped,
}

/// The worker's state between polls of the manager.
pub struct WorkerState {
    /// Where the worker stands in the protocol.
    pub phase: WorkerPhase,
    /// The hash of this worker's registered scenarios.
    pub load_test_hash: u64,
    /// The users this worker was assigned.
    pub allotment: Vec<GooseClientInitializer>,
    /// Outcomes accumulated since the last delta was shipped.
    pub pending: GooseAggregator,
    /// How many endpoints the aggregation is keyed over.
    pub n_endpoints: usize,
    /// When the users were released, microseconds.
    pub started: u64,
    /// How many outcomes were folded into `pending` since the last shipment.
    pub unsent_count: u64,
    /// The outcomes folded into `pending` since the last shipment.
    pub unsent: Ghost<Seq<GooseRequestMetric>>,
}

impl WorkerState {
    /// The worker's invariant: the pending delta aggregates exactly the
    /// outcomes recorded since the last shipment — nothing is lost between
    /// polls, and nothing is shipped twice.
    pub open spec fn wf(&self) -> bool {
        &&& self.pending.wf()
        &&& self.pending@.len() == self.n_endpoints
        &&& self.pending@ =~= spec_aggregate(self.n_endpoints as int, self.unsent@)
        &&& forall|i: int|
            0 <= i < self.unsent@.len() ==> 0 <= (#[trigger] self.unsent@[i]).endpoint
                < self.n_endpoints
        &&& self.unsent_count == self.unsent@.len()
        &&& self.unsent@.len() < u64::MAX
    }

    /// Whether one more outcome fits in the pending delta's counter.
    pub fn pending_room(&self) -> (r: bool)
        requires
            self.wf(),
        ensures
            r == (self.unsent@.len() + 1 < u64::MAX),
    {
        self.unsent_count + 1 < u64::MAX
    }

    /// A worker that just connected: it offers its hash and an empty delta.
    pub fn new(load_test_hash: u64, n_endpoints: usize) -> (r: WorkerState)
        ensures
            r.wf(),
            r.phase == WorkerPhase::Connecting,
            r.load_test_hash == load_test_hash,
            r.n_endpoints == n_endpoints,
            r.unsent@.len() == 0,
            r.allotment@.len() == 0,
    {
        WorkerState {
            phase: WorkerPhase::Connecting,
            load_test_hash,
            allotment: Vec::new(),
            pending: GooseAggregator::new(n_endpoints),
            n_endpoints,
            started: 0,
            unsent_count: 0,
            unsent: Ghost(Seq::empty()),
        }
    }

    /// Take the manager's allotment: the users to hatch, kept blocked until
    /// the manager says to run.
    pub fn on_allotment(&mut self, allotment: Vec<GooseClientInitializer>)
        requires
            old(self).wf(),
            old(self).phase == WorkerPhase::Connecting,
        ensures
            final(self).wf(),
            final(self).phase == WorkerPhase::Waiting,
            final(self).allotment@ == allotment@,
            final(self).unsent@ == old(self).unsent@,
            final(self).pending@ =~= old(self).pending@,
    {
        self.allotment = allotment;
        self.phase = WorkerPhase::Waiting;
    }

    /// Obey the command the manager's reply carried. `WAIT` keeps the users
    /// blocked; `RUN` releases them (the local start time is recorded on the
    /// first release); `EXIT` moves to the graceful shutdown.
    pub fn on_command(&mut self, command: GooseClientCommand, now: u64)
        requires
            old(self).wf(),
        ensures
            final(self).wf(),
            final(self).pending@ =~= old(self).pending@,
            final(self).unsent@ == old(self).unsent@,
            final(self).phase == match command {
                GooseClientCommand::WAIT => old(self).phase,
                GooseClientCommand::RUN => if old(self).phase == WorkerPhase::Waiting
                    || old(self).phase == WorkerPhase::Running {
                    WorkerPhase::Running
                } else {
                    old(self).phase
                },
                GooseClientCommand::EXIT => WorkerPhase::Stopped,
            },
            (command == GooseClientCommand::RUN && old(self).phase == WorkerPhase::Waiting)
                ==> final(self).started == now,
    {
        match command {
            GooseClientCommand::WAIT => {},
            GooseClientCommand::RUN => {
                if self.phase == WorkerPhase::Waiting {
                    self.started = now;
                    self.phase = WorkerPhase::Running;
                }
            },
            GooseClientCommand::EXIT => {
                self.phase = WorkerPhase::Stopped;
            },
        }
    }

    /// Fold one local outcome into the pending delta.
    pub fn record_outcome(&mut self, m: &GooseRequestMetric)
        requires
            old(self).wf(),
            0 <= m.endpoint < old(self).n_endpoints,
            old(self).unsent@.len() + 1 < u64::MAX,
        ensures
            final(self).wf(),
            final(self).phase == old(self).phase,
            final(self).unsent@ == old(self).unsent@.push(*m),
            final(self).pending@ =~= spec_apply(old(self).pending@, *m),
    {
        proof {
            crate::metrics::lemma_aggregate_counts(
                self.n_endpoints as int,
                self.unsent@,
                m.endpoint as int,
            );
            crate::metrics::lemma_count_endpoint_bound(self.unsent@, m.endpoint as int);
        }
        self.pending.apply(m);
        self.unsent_count = self.unsent_count + 1;
        proof {
            self.unsent@ = self.unsent@.push(*m);
            assert(self.unsent@.drop_last() =~= old(self).unsent@);
            assert(self.unsent@.last() == *m);
            assert(self.pending@ =~= spec_aggregate(self.n_endpoints as int, self.unsent@));
        }
    }

    /// Ship the accumulated delta: the caller sends what is returned, and
    /// the pending delta starts over empty. Exactly the outcomes recorded
    /// since the last shipment leave, and none stays behind.
    pub fn take_delta(&mut self) -> (r: GooseAggregator)
        requires
            old(self).wf(),
        ensures
            final(self).wf(),
            final(self).phase == old(self).phase,
            r.wf(),
            r@ =~= old(self).pending@,
            r@ =~= spec_aggregate(old(self).n_endpoints as int, old(self).unsent@),
            final(self).unsent@.len() == 0,
            final(self).pending@ =~= spec_empty_state(old(self).n_endpoints as int),
    {
        let mut fresh = GooseAggregator::new(self.n_endpoints);
        core::mem::swap(&mut fresh, &mut self.pending);
        self.unsent_count = 0;
        proof {
            self.unsent@ = Seq::empty();
        }
        fresh
    }
}

} // verus!
