//! The per-virtual-user state: iteration counting, loop-cadence tracking,
//! coordinated-omission correction, URL resolution, and the user trait the
//! runtimes share.

use vstd::prelude::*;
use crate::config::{GooseConfiguration, GooseError, GOOSE_REQUEST_TIMEOUT};
use crate::metrics::{GooseMethod, GooseRequestMetric};

verus! {

/// How far a loop gap must exceed the expected cadence before
/// coordinated-omission correction synthesizes the missing samples.
pub const COORDINATED_OMISSION_FACTOR: u64 = 2;

/// How a transaction signals its outcome: recorded failures keep the loop
/// going, a cancel propagates to shutdown, a fatal configuration problem
/// stops the user, and a URL that does not resolve never issues.
#[derive(Clone, Copy, Debug, PartialEq, Eq, Structural)]
pub enum TransactionError {
    /// The request failed; the outcome is recorded and the loop continues.
    Failure,
    /// Shutdown was observed; the user drains and exits.
    Cancelled,
    /// The user is configured in a way that cannot work; it exits with an
    /// error log.
    FatalConfig,
    /// The path did not resolve against the user's base URL.
    UrlParse,
}

/// What a transaction hands back to the user runtime.
pub type TransactionResult = Result<(), TransactionError>;

/// Per-user tracker of the pace the user loops through its transactions:
/// the coordinated-omission correction compares each new loop gap against
/// the average of the gaps seen before.
#[derive(Clone, Copy)]
pub struct GooseRequestCadence {
    /// When the last completed loop ended, microseconds since the run began.
    pub last_loop_end: u64,
    /// The sum of all observed loop gaps, microseconds.
    pub gap_sum: u64,
    /// How many loop gaps were observed.
    pub loops: u64,
}

impl GooseRequestCadence {
    /// A fresh tracker: no loop observed yet.
    pub fn new() -> (r: GooseRequestCadence)
        ensures
            r.last_loop_end == 0,
            r.gap_sum == 0,
            r.loops == 0,
    {
        GooseRequestCadence { last_loop_end: 0, gap_sum: 0, loops: 0 }
    }

    /// Record a completed loop ending at `now`; the returned gap is the time
    /// since the previous loop ended.
    pub fn observe(&mut self, now: u64) -> (gap: u64)
        requires
            old(self).last_loop_end <= now,
            old(self).gap_sum + (now - old(self).last_loop_end) <= u64::MAX,
            old(self).loops < u64::MAX,
        ensures
            gap == now - old(self).last_loop_end,
            final(self).last_loop_end == now,
            final(self).gap_sum == old(self).gap_sum + gap,
            final(self).loops == old(self).loops + 1,
    {
        let gap = now - self.last_loop_end;
        self.last_loop_end = now;
        self.gap_sum = self.gap_sum + gap;
        self.loops = self.loops + 1;
        gap
    }

    /// The expected cadence: the average of the gaps observed so far,
    /// microseconds; zero until a loop completed.
    pub fn expected_cadence(&self) -> (r: u64)
        ensures
            r == if self.loops == 0 {
                0int
            } else {
                self.gap_sum as int / self.loops as int
            },
    {
        if self.loops == 0 {
            0
        } else {
            self.gap_sum / self.loops
        }
    }
}

/// Whether a loop gap calls for coordinated-omission correction: the
/// expected cadence is known and the gap exceeds it by the configured
/// factor.
pub open spec fn spec_co_triggered(gap: u64, cadence: u64) -> bool {
    cadence > 0 && gap > cadence * COORDINATED_OMISSION_FACTOR
}

/// How many samples the correction synthesizes for a gap: one per missed
/// loop, the loop that actually ran excluded.
pub open spec fn spec_co_count(gap: u64, cadence: u64) -> int
    recommends
        cadence > 0,
{
    gap as int / cadence as int - 1
}

/// Coordinated-omission correction: a user that stalled for `gap`
/// milliseconds where its cadence predicted a loop every `cadence`
/// milliseconds missed `gap / cadence - 1` loops. For each missed loop a
/// record is synthesized against the endpoint the user would have hit, with
/// latency `gap - (k + 1) * cadence` for the `k`-th record: the latencies
/// strictly decrease, preserving the tail the stall hid.
pub fn synthesize_coordinated_omission(
    endpoint: usize,
    method: GooseMethod,
    url: &str,
    user: usize,
    started_at: u64,
    gap: u64,
    cadence: u64,
) -> (r: Vec<GooseRequestMetric>)
    requires
        spec_co_triggered(gap, cadence),
    ensures
        r@.len() == spec_co_count(gap, cadence),
        forall|k: int|
            0 <= k < r@.len() ==> {
                &&& (#[trigger] r@[k]).coordinated_omission
                &&& r@[k].endpoint == endpoint
                &&& r@[k].method == method
                &&& r@[k].user == user
                &&& r@[k].started_at == started_at
                &&& r@[k].success
                &&& r@[k].elapsed == gap - (k + 1) * cadence
            },
        forall|k: int| 0 < k < r@.len() ==> (#[trigger] r@[k]).elapsed < r@[k - 1].elapsed,
{
    proof {
        vstd::arithmetic::div_mod::lemma_fundamental_div_mod(gap as int, cadence as int);
        vstd::arithmetic::div_mod::lemma_mod_bound(gap as int, cadence as int);
        assert(gap as int / cadence as int >= 2) by (nonlinear_arith)
            requires
                cadence > 0,
                gap > cadence * COORDINATED_OMISSION_FACTOR,
                COORDINATED_OMISSION_FACTOR == 2,
                gap as int == (gap as int / cadence as int) * (cadence as int) + (gap as int) % (
                cadence as int),
                0 <= (gap as int) % (cadence as int) < cadence,
        ;
    }
    let count: u64 = gap / cadence - 1;
    proof {
        assert(count * cadence + cadence <= gap) by (nonlinear_arith)
            requires
                cadence > 0,
                count == gap as int / cadence as int - 1,
                gap as int == (gap as int / cadence as int) * (cadence as int) + (gap as int) % (
                cadence as int),
                (gap as int) % (cadence as int) >= 0,
        ;
    }
    let mut r: Vec<GooseRequestMetric> = Vec::new();
    let mut k: u64 = 0;
    while k < count
        invariant
            k <= count,
            cadence > 0,
            count == spec_co_count(gap, cadence),
            count * cadence + cadence <= gap,
            r@.len() == k,
            forall|j: int|
                0 <= j < k ==> {
                    &&& (#[trigger] r@[j]).coordinated_omission
                    &&& r@[j].endpoint == endpoint
                    &&& r@[j].method == method
                    &&& r@[j].user == user
                    &&& r@[j].started_at == started_at
                    &&& r@[j].success
                    &&& r@[j].elapsed == gap - (j + 1) * cadence
                },
        decreases count - k,
    {
        proof {
            assert((k + 1) * cadence <= count * cadence) by (nonlinear_arith)
                requires 0 <= k, k + 1 <= count, cadence > 0;
        }
        let elapsed = gap - (k + 1) * cadence;
        r.push(
            GooseRequestMetric {
                endpoint,
                method,
                url: url_to_string(url),
                started_at,
                elapsed,
                status: 0,
                success: true,
                user,
                coordinated_omission: true,
                error: None,
            },
        );
        k = k + 1;
    }
    proof {
        assert forall|j: int| 0 < j < r@.len() implies (#[trigger] r@[j]).elapsed < r@[j
            - 1].elapsed by {
            assert(j * cadence < (j + 1) * cadence) by (nonlinear_arith)
                requires 0 < j, cadence > 0;
        }
    }
    r
}

/// Copy a path into an owned string, keeping its characters.
pub fn url_to_string(url: &str) -> (r: String)
    ensures
        r@ == url@,
{
    url.to_owned()
}

/// Whether a piece of text parses as an absolute URL that names a host.
/// A function of the text alone.
pub uninterp spec fn url_has_host(path: Seq<char>) -> bool;

/// Resolving a path against a base URL, `None` where the join fails.
/// A function of the two texts alone.
pub uninterp spec fn url_join(base: Seq<char>, path: Seq<char>) -> Option<Seq<char>>;

/// Relies on url::Url::parse and url::Url::host: whether the text is an
/// absolute URL naming a host, which depends on the text alone.
#[verifier::external_body]
fn parse_has_host(path: &str) -> (r: bool)
    ensures
        r == url_has_host(path@),
{
    match url::Url::parse(path) {
        Ok(parsed) => parsed.host().is_some(),
        Err(_) => false,
    }
}

/// Relies on url::Url::parse and url::Url::join: the resolution of `path`
/// against `base`, which depends on the two texts alone; `None` exactly
/// where parsing or joining fails.
#[verifier::external_body]
fn join_url(base: &str, path: &str) -> (r: Option<String>)
    ensures
        r is Some ==> url_join(base@, path@) == Some(r->0@),
        r is None ==> url_join(base@, path@) is None,
{
    match url::Url::parse(base) {
        Ok(parsed) => match parsed.join(path) {
            Ok(joined) => Some(joined.to_string()),
            Err(_) => None,
        },
        Err(_) => None,
    }
}

/// One virtual user of a codec-framed load test: the per-user state the
/// engine reads and writes. The framed connection itself and the channel
/// endpoints to the logger, throttle and aggregator belong to the runtime
/// around the engine, which owns the user's transport.
pub struct CodecGooseUser {
    /// When this user started, microseconds since the run began.
    pub started: u64,
    /// How many complete scenario loops this user has run.
    pub iterations: u64,
    /// Which scenario this user runs: an index into the registered
    /// scenarios.
    pub scenarios_index: usize,
    /// Per-request timeout, milliseconds.
    pub timeout: u64,
    /// The base URL relative paths resolve against.
    pub base_url: String,
    /// A local copy of the global configuration.
    pub config: GooseConfiguration,
    /// Normal transactions are throttled; on-start and on-stop transactions
    /// are not.
    pub is_throttled: bool,
    /// The global identity of this user among all weighted users;
    /// `usize::MAX` until the scheduler assigns one.
    pub weighted_users_index: usize,
    /// The hash of the registered scenarios, compared across the gaggle.
    pub load_test_hash: u64,
    /// The cadence tracker feeding coordinated-omission correction.
    pub request_cadence: GooseRequestCadence,
    /// Time spent sleeping between transactions, milliseconds.
    pub slept: u64,
    /// The transaction currently running, if any.
    pub transaction_name: Option<String>,
    /// The optional per-user session blob: opaque bytes whose shape the
    /// scenario author owns; the engine only carries it.
    pub session_data: Option<Vec<u8>>,
}

impl CodecGooseUser {
    /// A new user for scenario `scenarios_index`, hatched at `now`. Its
    /// weighted-users index stays unassigned until the scheduler hatches it.
    pub fn new(
        scenarios_index: usize,
        base_url: String,
        configuration: &GooseConfiguration,
        load_test_hash: u64,
        now: u64,
    ) -> (r: Result<CodecGooseUser, GooseError>)
        ensures
            r is Ok,
            r->Ok_0.started == now,
            r->Ok_0.iterations == 0,
            r->Ok_0.scenarios_index == scenarios_index,
            r->Ok_0.timeout == match configuration.timeout {
                Some(t) => t,
                None => GOOSE_REQUEST_TIMEOUT,
            },
            r->Ok_0.base_url == base_url,
            r->Ok_0.is_throttled,
            r->Ok_0.weighted_users_index == usize::MAX,
            r->Ok_0.load_test_hash == load_test_hash,
            r->Ok_0.slept == 0,
            r->Ok_0.transaction_name is None,
            r->Ok_0.config == *configuration,
            r->Ok_0.request_cadence.last_loop_end == 0,
            r->Ok_0.request_cadence.gap_sum == 0,
            r->Ok_0.request_cadence.loops == 0,
            r->Ok_0.session_data is None,
    {
        let timeout = configuration.request_timeout();
        Ok(
            CodecGooseUser {
                started: now,
                iterations: 0,
                scenarios_index,
                timeout,
                base_url,
                config: configuration.clone(),
                is_throttled: true,
                weighted_users_index: usize::MAX,
                load_test_hash,
                request_cadence: GooseRequestCadence::new(),
                slept: 0,
                transaction_name: None,
                session_data: None,
            },
        )
    }

    /// A single-use user: the only user of its process, running outside the
    /// throttle, as on-start and on-stop transactions do.
    pub fn single(base_url: String, configuration: &GooseConfiguration, now: u64) -> (r: Result<
        CodecGooseUser,
        GooseError,
    >)
        ensures
            r is Ok,
            r->Ok_0.started == now,
            r->Ok_0.iterations == 0,
            r->Ok_0.scenarios_index == 0,
            r->Ok_0.timeout == match configuration.timeout {
                Some(t) => t,
                None => GOOSE_REQUEST_TIMEOUT,
            },
            r->Ok_0.base_url == base_url,
            r->Ok_0.config == *configuration,
            !r->Ok_0.is_throttled,
            r->Ok_0.weighted_users_index == 0,
            r->Ok_0.load_test_hash == 0,
            r->Ok_0.request_cadence.last_loop_end == 0,
            r->Ok_0.request_cadence.gap_sum == 0,
            r->Ok_0.request_cadence.loops == 0,
            r->Ok_0.slept == 0,
            r->Ok_0.transaction_name is None,
            r->Ok_0.session_data is None,
    {
        let user = CodecGooseUser::new(0, base_url, configuration, 0, now);
        match user {
            Ok(mut single_user) => {
                single_user.weighted_users_index = 0;
                single_user.is_throttled = false;
                Ok(single_user)
            },
            Err(e) => Err(e),
        }
    }

    /// Give this user its session blob; any previous blob is replaced.
    pub fn set_session_data(&mut self, data: Vec<u8>)
        ensures
            final(self).session_data == Some(data),
            (*final(self) == CodecGooseUser { session_data: Some(data), ..*old(self) }),
    {
        self.session_data = Some(data);
    }

    /// Take the session blob out, leaving none behind.
    pub fn take_session_data(&mut self) -> (r: Option<Vec<u8>>)
        ensures
            r == old(self).session_data,
            final(self).session_data is None,
            (*final(self) == CodecGooseUser { session_data: None, ..*old(self) }),
    {
        let mut data: Option<Vec<u8>> = None;
        core::mem::swap(&mut self.session_data, &mut data);
        data
    }

    /// Resolve a path for a request: a path that is itself an absolute URL
    /// with a host is used as it stands; anything else resolves against the
    /// user's base URL, and a failed resolution is a transaction error.
    pub fn build_url(&self, path: &str) -> (r: Result<String, TransactionError>)
        ensures
            url_has_host(path@) ==> r is Ok && r->Ok_0@ == path@,
            !url_has_host(path@) ==> match url_join(self.base_url@, path@) {
                Some(joined) => r is Ok && r->Ok_0@ == joined,
                None => r == Result::<String, TransactionError>::Err(TransactionError::UrlParse),
            },
    {
        if parse_has_host(path) {
            return Ok(url_to_string(path));
        }
        match join_url(self.base_url.as_str(), path) {
            Some(joined) => Ok(joined),
            None => Err(TransactionError::UrlParse),
        }
    }
}

/// What every user runtime exposes to the engine: iteration and sleep
/// accounting, identity, transaction naming, and the marking of outcomes.
pub trait Goose: Sized {
    /// How many complete scenario loops this user has run (specification
    /// view).
    spec fn spec_iterations(&self) -> u64;

    /// This user's global identity (specification view).
    spec fn spec_weighted_users_index(&self) -> usize;

    /// The transaction currently named (specification view).
    spec fn spec_transaction_name(&self) -> Option<String>;

    /// How many complete scenario loops this user has run.
    fn iterations(&self) -> (r: u64)
        ensures
            r == self.spec_iterations(),
    ;

    /// Account for one more completed scenario loop.
    fn add_iterations(&mut self, num: u64)
        requires
            old(self).spec_iterations() + num <= u64::MAX,
        ensures
            final(self).spec_iterations() == old(self).spec_iterations() + num,
    ;

    /// Account time spent sleeping between transactions, milliseconds.
    fn add_slept(&mut self, duration: u64);

    /// When this user started, microseconds since the run began.
    fn started(&self) -> u64;

    /// Which scenario this user runs.
    fn scenarios_index(&self) -> usize;

    /// This user's global identity among the weighted users.
    fn weighted_users_index(&self) -> (r: usize)
        ensures
            r == self.spec_weighted_users_index(),
    ;

    /// Assign this user's global identity at hatch time.
    fn set_weighted_users_index(&mut self, index: usize)
        ensures
            final(self).spec_weighted_users_index() == index,
    ;

    /// Name the transaction about to run.
    fn set_transaction_name(&mut self, transaction_name: String)
        ensures
            final(self).spec_transaction_name() == Some(transaction_name),
    ;

    /// Clear and return the name of the transaction that just ran.
    fn take_transaction_name(&mut self) -> (r: Option<String>)
        ensures
            r == old(self).spec_transaction_name(),
            final(self).spec_transaction_name() is None,
    ;

    /// Mark an outcome successful.
    fn set_success(&self, request: &mut GooseRequestMetric) -> (r: TransactionResult)
        ensures
            final(request).success,
            final(request).error is None,
            r is Ok,
    ;

    /// Mark an outcome failed, recording why; the transaction reports a
    /// failure and the loop continues.
    fn set_failure(&self, tag: String, request: &mut GooseRequestMetric) -> (r: TransactionResult)
        ensures
            !final(request).success,
            final(request).error == Some(tag),
            r == Result::<(), TransactionError>::Err(TransactionError::Failure),
    ;
}

impl Goose for CodecGooseUser {
    open spec fn spec_iterations(&self) -> u64 {
        self.iterations
    }

    open spec fn spec_weighted_users_index(&self) -> usize {
        self.weighted_users_index
    }

    open spec fn spec_transaction_name(&self) -> Option<String> {
        self.transaction_name
    }

    fn iterations(&self) -> (r: u64) {
        self.iterations
    }

    fn add_iterations(&mut self, num: u64) {
        self.iterations = self.iterations + num;
    }

    fn add_slept(&mut self, duration: u64) {
        if duration <= u64::MAX - self.slept {
            self.slept = self.slept + duration;
        } else {
            self.slept = u64::MAX;
        }
    }

    fn started(&self) -> u64 {
        self.started
    }

    fn scenarios_index(&self) -> usize {
        self.scenarios_index
    }

    fn weighted_users_index(&self) -> (r: usize) {
        self.weighted_users_index
    }

    fn set_weighted_users_index(&mut self, index: usize) {
        self.weighted_users_index = index;
    }

    fn set_transaction_name(&mut self, transaction_name: String) {
        self.transaction_name = Some(transaction_name);
    }

    fn take_transaction_name(&mut self) -> (r: Option<String>) {
        let mut name: Option<String> = None;
        core::mem::swap(&mut self.transaction_name, &mut name);
        name
    }

    fn set_success(&self, request: &mut GooseRequestMetric) -> (r: TransactionResult) {
        request.success = true;
        request.error = None;
        Ok(())
    }

    fn set_failure(&self, tag: String, request: &mut GooseRequestMetric) -> (r: TransactionResult) {
        request.success = false;
        request.error = Some(tag);
        Err(TransactionError::Failure)
    }
}

} // verus!
