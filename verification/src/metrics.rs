//! Metrics aggregation: folding per-request outcome records into
//! per-endpoint counters and log-scaled latency histograms, and merging
//! aggregated records (the operation the manager applies to worker
//! snapshots, which must be associative and commutative).

use vstd::prelude::*;

verus! {

/// Histogram buckets: one per power-of-two latency band from 1 ms up to
/// roughly 60 s, plus a final overflow bucket.
pub const NUM_BUCKETS: usize = 17;

/// The HTTP-style method of a request, recorded on each outcome.
#[derive(Clone, Copy, Debug, PartialEq, Eq, Structural)]
pub enum GooseMethod {
    Get,
    Post,
    Put,
    Patch,
    Delete,
    Head,
}

/// One outcome record, emitted for every request a user issues. Immutable
/// once produced; every record flows to exactly one aggregator.
#[derive(Clone)]
pub struct GooseRequestMetric {
    /// Index of the endpoint in the run's endpoint registry.
    pub endpoint: usize,
    /// The method the request used.
    pub method: GooseMethod,
    /// The resolved URL the request was sent to.
    pub url: String,
    /// When the request was issued, microseconds since the run began.
    pub started_at: u64,
    /// How long the request took, milliseconds.
    pub elapsed: u64,
    /// The status code of the response (0 when none arrived).
    pub status: u16,
    /// Whether the request counts as a success.
    pub success: bool,
    /// The weighted-users index of the user that issued the request.
    pub user: usize,
    /// True on records synthesized by coordinated-omission correction.
    pub coordinated_omission: bool,
    /// The transport error, when the request failed in transit.
    pub error: Option<String>,
}

/// The mathematical content of one aggregated per-endpoint record.
#[verifier::ext_equal]
pub ghost struct BucketModel {
    pub total: int,
    pub successes: int,
    pub failures: int,
    pub min_ms: int,
    pub max_ms: int,
    pub histogram: Seq<int>,
}

/// Floor of the base-two logarithm (0 for inputs below 2).
pub open spec fn spec_log2(ms: nat) -> nat
    decreases ms,
{
    if ms < 2 {
        0
    } else {
        1 + spec_log2(ms / 2)
    }
}

/// The histogram bucket a latency falls in: bucket `i` holds latencies in
/// `[2^i, 2^(i+1))` milliseconds (bucket 0 also holds 0), and the last
/// bucket holds everything of 2^16 ms (~65 s) and above.
pub open spec fn spec_bucket_of(ms: u64) -> int {
    if spec_log2(ms as nat) > (NUM_BUCKETS - 1) {
        NUM_BUCKETS - 1
    } else {
        spec_log2(ms as nat) as int
    }
}

/// Compute the histogram bucket of a latency.
pub fn bucket_of(ms: u64) -> (r: usize)
    ensures
        r == spec_bucket_of(ms),
        r < NUM_BUCKETS,
{
    let mut v: u64 = ms;
    let mut idx: usize = 0;
    while v >= 2 && idx < NUM_BUCKETS - 1
        invariant
            spec_log2(ms as nat) == idx + spec_log2(v as nat),
            idx <= NUM_BUCKETS - 1,
        decreases v,
    {
        v = v / 2;
        idx = idx + 1;
    }
    idx
}

/// The empty aggregated record: all counters zero, the minimum at its
/// sentinel (`u64::MAX`), the maximum at zero, every histogram bucket zero.
pub open spec fn spec_empty_bucket() -> BucketModel {
    BucketModel {
        total: 0,
        successes: 0,
        failures: 0,
        min_ms: u64::MAX as int,
        max_ms: 0,
        histogram: Seq::new(NUM_BUCKETS as nat, |i: int| 0),
    }
}

/// Folding one outcome with latency `elapsed` and the given success flag
/// into an aggregated record.
pub open spec fn spec_record(b: BucketModel, elapsed: u64, success: bool) -> BucketModel {
    BucketModel {
        total: b.total + 1,
        successes: b.successes + if success {
            1int
        } else {
            0int
        },
        failures: b.failures + if success {
            0int
        } else {
            1int
        },
        min_ms: if elapsed < b.min_ms {
            elapsed as int
        } else {
            b.min_ms
        },
        max_ms: if elapsed > b.max_ms {
            elapsed as int
        } else {
            b.max_ms
        },
        histogram: b.histogram.update(
            spec_bucket_of(elapsed),
            b.histogram[spec_bucket_of(elapsed)] + 1,
        ),
    }
}

/// Merging two aggregated records: counters sum, histograms sum
/// element-wise, the minimum and maximum are element-wise min and max.
pub open spec fn spec_merge(a: BucketModel, b: BucketModel) -> BucketModel {
    BucketModel {
        total: a.total + b.total,
        successes: a.successes + b.successes,
        failures: a.failures + b.failures,
        min_ms: if a.min_ms <= b.min_ms {
            a.min_ms
        } else {
            b.min_ms
        },
        max_ms: if a.max_ms >= b.max_ms {
            a.max_ms
        } else {
            b.max_ms
        },
        histogram: Seq::new(a.histogram.len(), |i: int| a.histogram[i] + b.histogram[i]),
    }
}

/// Merge is commutative over aggregated records of equal histogram length.
pub proof fn lemma_merge_commutative(a: BucketModel, b: BucketModel)
    requires
        a.histogram.len() == b.histogram.len(),
    ensures
        spec_merge(a, b) =~= spec_merge(b, a),
{
}

/// Merge is associative over aggregated records of equal histogram length.
pub proof fn lemma_merge_associative(a: BucketModel, b: BucketModel, c: BucketModel)
    requires
        a.histogram.len() == b.histogram.len(),
        b.histogram.len() == c.histogram.len(),
    ensures
        spec_merge(spec_merge(a, b), c) =~= spec_merge(a, spec_merge(b, c)),
{
}

/// The empty record is the identity of merge.
pub proof fn lemma_merge_identity(b: BucketModel)
    requires
        b.histogram.len() == NUM_BUCKETS,
        b.min_ms <= u64::MAX,
        b.max_ms >= 0,
    ensures
        spec_merge(spec_empty_bucket(), b) =~= b,
{
}

/// Well-formedness of an aggregated record's content: one histogram slot per
/// bucket, successes and failures partition the total, and no single bucket
/// exceeds the total.
pub open spec fn bucket_wf(b: BucketModel) -> bool {
    &&& b.histogram.len() == NUM_BUCKETS
    &&& b.total == b.successes + b.failures
    &&& 0 <= b.successes
    &&& 0 <= b.failures
    &&& 0 <= b.min_ms <= u64::MAX
    &&& 0 <= b.max_ms <= u64::MAX
    &&& forall|i: int| 0 <= i < NUM_BUCKETS ==> 0 <= #[trigger] b.histogram[i] <= b.total
}

/// Folding an outcome into a well-formed record keeps it well formed.
pub proof fn lemma_record_wf(b: BucketModel, elapsed: u64, success: bool)
    requires
        bucket_wf(b),
    ensures
        bucket_wf(spec_record(b, elapsed, success)),
{
}

/// Merging two well-formed records yields a well-formed record.
pub proof fn lemma_merge_wf(a: BucketModel, b: BucketModel)
    requires
        bucket_wf(a),
        bucket_wf(b),
    ensures
        bucket_wf(spec_merge(a, b)),
{
}

/// One aggregated per-endpoint record: total, success and failure counters,
/// observed minimum and maximum latency, and a log-scaled latency histogram.
/// Counters only grow; two records merge into the record that aggregating
/// all their constituent outcomes would have produced.
pub struct GooseRequest {
    /// How many outcomes were folded in.
    pub total: u64,
    /// How many of them were successes.
    pub successes: u64,
    /// How many of them were failures.
    pub failures: u64,
    /// The smallest latency seen, `u64::MAX` until the first outcome.
    pub min_ms: u64,
    /// The largest latency seen, 0 until the first outcome.
    pub max_ms: u64,
    /// Outcome counts per latency band.
    pub histogram: Vec<u64>,
}

impl GooseRequest {
    /// The mathematical content of this record.
    pub open spec fn view(&self) -> BucketModel {
        BucketModel {
            total: self.total as int,
            successes: self.successes as int,
            failures: self.failures as int,
            min_ms: self.min_ms as int,
            max_ms: self.max_ms as int,
            histogram: Seq::new(self.histogram@.len(), |i: int| self.histogram@[i] as int),
        }
    }

    /// Well formed: the histogram has one slot per bucket, the successes and
    /// failures partition the total, and no bucket holds more than the total.
    pub open spec fn wf(&self) -> bool {
        bucket_wf(self@)
    }

    /// A fresh record with nothing aggregated yet.
    pub fn new() -> (r: GooseRequest)
        ensures
            r.wf(),
            r@ =~= spec_empty_bucket(),
    {
        let mut histogram: Vec<u64> = Vec::new();
        let mut i: usize = 0;
        while i < NUM_BUCKETS
            invariant
                i <= NUM_BUCKETS,
                histogram@.len() == i,
                forall|j: int| 0 <= j < i ==> histogram@[j] == 0,
            decreases NUM_BUCKETS - i,
        {
            histogram.push(0);
            i = i + 1;
        }
        GooseRequest { total: 0, successes: 0, failures: 0, min_ms: u64::MAX, max_ms: 0, histogram }
    }

    /// Fold one outcome into this record.
    pub fn record(&mut self, elapsed: u64, success: bool)
        requires
            old(self).wf(),
            old(self)@.total < u64::MAX,
        ensures
            final(self).wf(),
            final(self)@ =~= spec_record(old(self)@, elapsed, success),
    {
        proof {
            assert(old(self)@.histogram[spec_bucket_of(elapsed)] <= old(self)@.total);
        }
        self.total = self.total + 1;
        if success {
            self.successes = self.successes + 1;
        } else {
            self.failures = self.failures + 1;
        }
        if elapsed < self.min_ms {
            self.min_ms = elapsed;
        }
        if elapsed > self.max_ms {
            self.max_ms = elapsed;
        }
        let b = bucket_of(elapsed);
        let count = self.histogram[b];
        self.histogram.set(b, count + 1);
        proof {
            assert forall|i: int| 0 <= i < NUM_BUCKETS implies 0 <= #[trigger] self@.histogram[i]
                <= self@.total by {
                if i == spec_bucket_of(elapsed) {
                    assert(self@.histogram[i] == old(self)@.histogram[i] + 1);
                } else {
                    assert(self@.histogram[i] == old(self)@.histogram[i]);
                }
            }
        }
    }
}

/// How many outcomes of a log belong to endpoint `e`.
pub open spec fn count_endpoint(log: Seq<GooseRequestMetric>, e: int) -> int
    decreases log.len(),
{
    if log.len() == 0 {
        0
    } else {
        count_endpoint(log.drop_last(), e) + if log.last().endpoint == e {
            1int
        } else {
            0int
        }
    }
}

/// A log holds between zero and `log.len()` outcomes for any endpoint.
pub proof fn lemma_count_endpoint_bound(log: Seq<GooseRequestMetric>, e: int)
    ensures
        0 <= count_endpoint(log, e) <= log.len(),
    decreases log.len(),
{
    if log.len() > 0 {
        lemma_count_endpoint_bound(log.drop_last(), e);
    }
}

/// The aggregation state before any outcome arrived: one empty record per
/// endpoint.
pub open spec fn spec_empty_state(n: int) -> Seq<BucketModel> {
    Seq::new(n as nat, |i: int| spec_empty_bucket())
}

/// Folding one outcome into the aggregation state: the record of its
/// endpoint absorbs it, every other record is untouched.
pub open spec fn spec_apply(state: Seq<BucketModel>, m: GooseRequestMetric) -> Seq<BucketModel>
    recommends
        0 <= m.endpoint < state.len(),
{
    state.update(m.endpoint as int, spec_record(state[m.endpoint as int], m.elapsed, m.success))
}

/// The aggregation of a whole outcome log over `n` endpoints, outcome by
/// outcome in arrival order.
pub open spec fn spec_aggregate(n: int, log: Seq<GooseRequestMetric>) -> Seq<BucketModel>
    decreases log.len(),
{
    if log.len() == 0 {
        spec_empty_state(n)
    } else {
        spec_apply(spec_aggregate(n, log.drop_last()), log.last())
    }
}

/// Aggregation keeps one well-formed record per endpoint.
pub proof fn lemma_aggregate_wf(n: int, log: Seq<GooseRequestMetric>)
    requires
        0 <= n,
        forall|i: int| 0 <= i < log.len() ==> 0 <= (#[trigger] log[i]).endpoint < n,
    ensures
        spec_aggregate(n, log).len() == n,
        forall|e: int| 0 <= e < n ==> bucket_wf(#[trigger] spec_aggregate(n, log)[e]),
    decreases log.len(),
{
    if log.len() > 0 {
        assert(forall|i: int|
            0 <= i < log.drop_last().len() ==> 0 <= (#[trigger] log.drop_last()[i]).endpoint < n);
        lemma_aggregate_wf(n, log.drop_last());
        lemma_record_wf(
            spec_aggregate(n, log.drop_last())[log.last().endpoint as int],
            log.last().elapsed,
            log.last().success,
        );
    }
}

/// No loss and no duplication: after aggregating a log, the total counter of
/// every endpoint equals the number of outcomes the log holds for it.
pub proof fn lemma_aggregate_counts(n: int, log: Seq<GooseRequestMetric>, e: int)
    requires
        0 <= e < n,
        forall|i: int| 0 <= i < log.len() ==> 0 <= (#[trigger] log[i]).endpoint < n,
    ensures
        spec_aggregate(n, log)[e].total == count_endpoint(log, e),
    decreases log.len(),
{
    if log.len() > 0 {
        assert(forall|i: int|
            0 <= i < log.drop_last().len() ==> 0 <= (#[trigger] log.drop_last()[i]).endpoint < n);
        lemma_aggregate_counts(n, log.drop_last(), e);
        lemma_aggregate_wf(n, log.drop_last());
    }
}

/// The per-process metrics aggregator: the single consumer of outcome
/// records, holding one aggregated record per registered endpoint.
pub struct GooseAggregator {
    /// One aggregated record per endpoint, indexed by endpoint id.
    pub buckets: Vec<GooseRequest>,
}

impl GooseAggregator {
    /// The mathematical content: one record model per endpoint.
    pub open spec fn view(&self) -> Seq<BucketModel> {
        Seq::new(self.buckets@.len(), |i: int| self.buckets@[i]@)
    }

    /// Every per-endpoint record is well formed.
    pub open spec fn wf(&self) -> bool {
        forall|i: int| 0 <= i < self.buckets@.len() ==> (#[trigger] self.buckets@[i]).wf()
    }

    /// A fresh aggregator for `n_endpoints` registered endpoints.
    pub fn new(n_endpoints: usize) -> (r: GooseAggregator)
        ensures
            r.wf(),
            r@ =~= spec_empty_state(n_endpoints as int),
    {
        let mut buckets: Vec<GooseRequest> = Vec::new();
        let mut i: usize = 0;
        while i < n_endpoints
            invariant
                i <= n_endpoints,
                buckets@.len() == i,
                forall|j: int| 0 <= j < i ==> (#[trigger] buckets@[j]).wf(),
                forall|j: int| 0 <= j < i ==> (#[trigger] buckets@[j])@ =~= spec_empty_bucket(),
            decreases n_endpoints - i,
        {
            buckets.push(GooseRequest::new());
            i = i + 1;
        }
        GooseAggregator { buckets }
    }

    /// Fold one outcome record into the record of its endpoint.
    pub fn apply(&mut self, m: &GooseRequestMetric)
        requires
            old(self).wf(),
            0 <= m.endpoint < old(self)@.len(),
            old(self)@[m.endpoint as int].total < u64::MAX,
        ensures
            final(self).wf(),
            final(self)@ =~= spec_apply(old(self)@, *m),
    {
        let bucket = &mut self.buckets[m.endpoint];
        bucket.record(m.elapsed, m.success);
        proof {
            assert forall|i: int| 0 <= i < self.buckets@.len() implies (
            #[trigger] self.buckets@[i]).wf() by {
                if i != m.endpoint {
                    assert(self.buckets@[i] == old(self).buckets@[i]);
                }
            }
        }
    }

    /// Aggregate a whole outcome log: the result is exactly the fold of the
    /// log, so every endpoint's total equals the number of outcomes the log
    /// holds for it.
    pub fn aggregate_all(n_endpoints: usize, log: &Vec<GooseRequestMetric>) -> (r: GooseAggregator)
        requires
            forall|i: int|
                0 <= i < log@.len() ==> 0 <= (#[trigger] log@[i]).endpoint < n_endpoints,
            log@.len() <= u64::MAX,
        ensures
            r.wf(),
            r@ =~= spec_aggregate(n_endpoints as int, log@),
            forall|e: int|
                0 <= e < n_endpoints ==> (#[trigger] r@[e]).total == count_endpoint(log@, e),
    {
        let mut agg = GooseAggregator::new(n_endpoints);
        let mut i: usize = 0;
        proof {
            assert(log@.take(0) =~= Seq::<GooseRequestMetric>::empty());
        }
        while i < log.len()
            invariant
                i <= log@.len(),
                log@.len() <= u64::MAX,
                forall|j: int|
                    0 <= j < log@.len() ==> 0 <= (#[trigger] log@[j]).endpoint < n_endpoints,
                agg.wf(),
                agg@.len() == n_endpoints,
                agg@ =~= spec_aggregate(n_endpoints as int, log@.take(i as int)),
            decreases log@.len() - i,
        {
            let m = &log[i];
            proof {
                assert(forall|j: int|
                    0 <= j < log@.take(i as int).len() ==> 0 <= (#[trigger] log@.take(
                        i as int,
                    )[j]).endpoint < n_endpoints);
                lemma_aggregate_counts(n_endpoints as int, log@.take(i as int), m.endpoint as int);
                lemma_count_endpoint_bound(log@.take(i as int), m.endpoint as int);
                assert(agg@[m.endpoint as int].total < u64::MAX);
            }
            agg.apply(m);
            proof {
                assert(log@.take(i as int + 1).drop_last() =~= log@.take(i as int));
                assert(log@.take(i as int + 1).last() == log@[i as int]);
                assert(agg@ =~= spec_aggregate(n_endpoints as int, log@.take(i as int + 1)));
            }
            i = i + 1;
        }
        proof {
            assert(log@.take(log@.len() as int) =~= log@);
            assert forall|e: int| 0 <= e < n_endpoints implies (#[trigger] agg@[e]).total
                == count_endpoint(log@, e) by {
                lemma_aggregate_counts(n_endpoints as int, log@, e);
            }
        }
        agg
    }
}

/// Merge a metrics record received from a worker into the manager's copy:
/// the result aggregates everything either record aggregated. Counters sum,
/// histogram buckets sum element-wise, the minimum and maximum are the
/// element-wise minimum and maximum.
pub fn merge_from_client(parent: &GooseRequest, delta: &GooseRequest) -> (r: GooseRequest)
    requires
        parent.wf(),
        delta.wf(),
        parent@.total + delta@.total <= u64::MAX,
    ensures
        r.wf(),
        r@ =~= spec_merge(parent@, delta@),
{
    let mut histogram: Vec<u64> = Vec::new();
    let mut i: usize = 0;
    while i < NUM_BUCKETS
        invariant
            i <= NUM_BUCKETS,
            histogram@.len() == i,
            parent.wf(),
            delta.wf(),
            parent@.total + delta@.total <= u64::MAX,
            forall|j: int|
                0 <= j < i ==> histogram@[j] == parent@.histogram[j] + delta@.histogram[j],
        decreases NUM_BUCKETS - i,
    {
        let a = parent.histogram[i];
        let b = delta.histogram[i];
        proof {
            assert(0 <= parent@.histogram[i as int] <= parent@.total);
            assert(0 <= delta@.histogram[i as int] <= delta@.total);
        }
        histogram.push(a + b);
        i = i + 1;
    }
    GooseRequest {
        total: parent.total + delta.total,
        successes: parent.successes + delta.successes,
        failures: parent.failures + delta.failures,
        min_ms: if parent.min_ms <= delta.min_ms {
            parent.min_ms
        } else {
            delta.min_ms
        },
        max_ms: if parent.max_ms >= delta.max_ms {
            parent.max_ms
        } else {
            delta.max_ms
        },
        histogram,
    }
}

/// Merging two whole aggregation states, endpoint by endpoint.
pub open spec fn spec_merge_state(a: Seq<BucketModel>, b: Seq<BucketModel>) -> Seq<BucketModel>
    recommends
        a.len() == b.len(),
{
    Seq::new(a.len(), |i: int| spec_merge(a[i], b[i]))
}

/// The fold of merge over a list of worker snapshots, in delivery order.
pub open spec fn spec_fold_merge(n: int, snaps: Seq<Seq<BucketModel>>) -> Seq<BucketModel>
    decreases snaps.len(),
{
    if snaps.len() == 0 {
        spec_empty_state(n)
    } else {
        spec_merge_state(spec_fold_merge(n, snaps.drop_last()), snaps.last())
    }
}

/// Merge commutes with folding one outcome in: merging a state into another
/// and then recording an outcome equals recording the outcome first and
/// merging after. This is why workers may ship deltas at any moment.
pub proof fn lemma_merge_record_commute(a: BucketModel, b: BucketModel, elapsed: u64, success: bool)
    requires
        a.histogram.len() == b.histogram.len(),
        0 <= spec_bucket_of(elapsed) < a.histogram.len(),
    ensures
        spec_merge(a, spec_record(b, elapsed, success)) =~= spec_record(
            spec_merge(a, b),
            elapsed,
            success,
        ),
{
}

/// The distributed aggregation equivalence, one step up: merging the
/// aggregations of two logs equals aggregating the two logs back to back.
pub proof fn lemma_merge_aggregate_concat(n: int, l1: Seq<GooseRequestMetric>, l2: Seq<
    GooseRequestMetric,
>)
    requires
        0 <= n,
        forall|i: int| 0 <= i < l1.len() ==> 0 <= (#[trigger] l1[i]).endpoint < n,
        forall|i: int| 0 <= i < l2.len() ==> 0 <= (#[trigger] l2[i]).endpoint < n,
    ensures
        spec_merge_state(spec_aggregate(n, l1), spec_aggregate(n, l2)) =~= spec_aggregate(
            n,
            l1 + l2,
        ),
    decreases l2.len(),
{
    lemma_aggregate_wf(n, l1);
    if l2.len() == 0 {
        assert(l1 + l2 =~= l1);
        assert forall|e: int| 0 <= e < n implies spec_merge_state(
            spec_aggregate(n, l1),
            spec_aggregate(n, l2),
        )[e] =~= spec_aggregate(n, l1)[e] by {
            let b = spec_aggregate(n, l1)[e];
            lemma_merge_commutative(b, spec_empty_bucket());
            lemma_merge_identity(b);
        }
    } else {
        let l2p = l2.drop_last();
        let m = l2.last();
        assert(forall|i: int| 0 <= i < l2p.len() ==> 0 <= (#[trigger] l2p[i]).endpoint < n);
        lemma_merge_aggregate_concat(n, l1, l2p);
        lemma_aggregate_wf(n, l2p);
        assert((l1 + l2).drop_last() =~= l1 + l2p);
        assert((l1 + l2).last() == m);
        let merged = spec_merge_state(spec_aggregate(n, l1), spec_aggregate(n, l2p));
        assert(spec_aggregate(n, l1 + l2) =~= spec_apply(merged, m));
        let e = m.endpoint as int;
        lemma_merge_record_commute(
            spec_aggregate(n, l1)[e],
            spec_aggregate(n, l2p)[e],
            m.elapsed,
            m.success,
        );
        assert(spec_apply(merged, m) =~= spec_merge_state(
            spec_aggregate(n, l1),
            spec_aggregate(n, l2),
        ));
    }
}

/// A fold of snapshots over `n` endpoints has `n` records.
pub proof fn lemma_fold_merge_len(n: int, snaps: Seq<Seq<BucketModel>>)
    requires
        0 <= n,
    ensures
        spec_fold_merge(n, snaps).len() == n,
    decreases snaps.len(),
{
    if snaps.len() > 0 {
        lemma_fold_merge_len(n, snaps.drop_last());
    }
}

/// Totals only grow as more snapshots are folded in.
pub proof fn lemma_fold_merge_total_monotone(n: int, snaps: Seq<Seq<BucketModel>>, i: int, e: int)
    requires
        0 <= n,
        0 <= e < n,
        0 <= i <= snaps.len(),
        forall|k: int|
            0 <= k < snaps.len() ==> (#[trigger] snaps[k]).len() == n && forall|f: int|
                0 <= f < n ==> bucket_wf(#[trigger] snaps[k][f]),
    ensures
        0 <= spec_fold_merge(n, snaps.take(i))[e].total <= spec_fold_merge(n, snaps)[e].total,
    decreases snaps.len() - i,
{
    if i == snaps.len() {
        assert(snaps.take(i) =~= snaps);
        lemma_fold_merge_total_nonneg(n, snaps, e);
    } else {
        lemma_fold_merge_total_monotone(n, snaps, i + 1, e);
        lemma_fold_merge_len(n, snaps.take(i));
        lemma_fold_merge_len(n, snaps.take(i + 1));
        assert(snaps.take(i + 1).drop_last() =~= snaps.take(i));
        assert(snaps.take(i + 1).last() == snaps[i]);
        assert(spec_fold_merge(n, snaps.take(i + 1))[e].total == spec_fold_merge(
            n,
            snaps.take(i),
        )[e].total + snaps[i][e].total);
        lemma_fold_merge_total_nonneg(n, snaps.take(i), e);
        assert(bucket_wf(snaps[i][e]));
    }
}

/// A fold of well-formed snapshots never drives a total negative.
pub proof fn lemma_fold_merge_total_nonneg(n: int, snaps: Seq<Seq<BucketModel>>, e: int)
    requires
        0 <= n,
        0 <= e < n,
        forall|k: int|
            0 <= k < snaps.len() ==> (#[trigger] snaps[k]).len() == n && forall|f: int|
                0 <= f < n ==> bucket_wf(#[trigger] snaps[k][f]),
    ensures
        0 <= spec_fold_merge(n, snaps)[e].total,
    decreases snaps.len(),
{
    lemma_fold_merge_len(n, snaps);
    if snaps.len() > 0 {
        assert(forall|k: int|
            0 <= k < snaps.drop_last().len() ==> (#[trigger] snaps.drop_last()[k]).len() == n
                && forall|f: int| 0 <= f < n ==> bucket_wf(#[trigger] snaps.drop_last()[k][f]));
        lemma_fold_merge_total_nonneg(n, snaps.drop_last(), e);
        lemma_fold_merge_len(n, snaps.drop_last());
        assert(bucket_wf(snaps.last()[e]));
    }
}

/// Merge one worker snapshot into the manager's aggregation state.
pub fn merge_state(parent: &mut GooseAggregator, delta: &GooseAggregator)
    requires
        old(parent).wf(),
        delta.wf(),
        old(parent)@.len() == delta@.len(),
        forall|e: int|
            0 <= e < old(parent)@.len() ==> (#[trigger] old(parent)@[e]).total + delta@[e].total
                <= u64::MAX,
    ensures
        final(parent).wf(),
        final(parent)@ =~= spec_merge_state(old(parent)@, delta@),
{
    let n = parent.buckets.len();
    let mut merged: Vec<GooseRequest> = Vec::new();
    let mut e: usize = 0;
    while e < n
        invariant
            e <= n,
            n == parent.buckets@.len(),
            parent.wf(),
            delta.wf(),
            parent@.len() == delta@.len(),
            forall|f: int|
                0 <= f < n ==> (#[trigger] parent@[f]).total + delta@[f].total <= u64::MAX,
            merged@.len() == e,
            forall|f: int| 0 <= f < e ==> (#[trigger] merged@[f]).wf(),
            forall|f: int|
                0 <= f < e ==> (#[trigger] merged@[f])@ =~= spec_merge(parent@[f], delta@[f]),
        decreases n - e,
    {
        proof {
            assert(parent@[e as int].total + delta@[e as int].total <= u64::MAX);
            assert(parent.buckets@[e as int]@ == parent@[e as int]);
            assert(delta.buckets@[e as int]@ == delta@[e as int]);
        }
        let r = merge_from_client(&parent.buckets[e], &delta.buckets[e]);
        merged.push(r);
        e = e + 1;
    }
    parent.buckets = merged;
}

/// Fold a list of worker snapshots into one global aggregation state: the
/// manager's view over `n_endpoints` endpoints equals the fold of merge over
/// the snapshots, in delivery order.
pub fn merge_snapshots(n_endpoints: usize, snaps: &Vec<GooseAggregator>) -> (r: GooseAggregator)
    requires
        forall|k: int|
            0 <= k < snaps@.len() ==> (#[trigger] snaps@[k]).wf() && snaps@[k]@.len()
                == n_endpoints,
        forall|e: int|
            0 <= e < n_endpoints ==> (#[trigger] spec_fold_merge(
                n_endpoints as int,
                spec_snapshots_of(snaps@),
            )[e]).total <= u64::MAX,
    ensures
        r.wf(),
        r@ =~= spec_fold_merge(n_endpoints as int, spec_snapshots_of(snaps@)),
{
    let ghost n = n_endpoints as int;
    let ghost views = spec_snapshots_of(snaps@);
    proof {
        assert forall|k: int| 0 <= k < views.len() implies (#[trigger] views[k]).len() == n
            && forall|f: int| 0 <= f < n ==> bucket_wf(#[trigger] views[k][f]) by {
            assert(views[k] == snaps@[k]@);
        }
    }
    let mut agg = GooseAggregator::new(n_endpoints);
    let mut k: usize = 0;
    proof {
        assert(views.take(0) =~= Seq::<Seq<BucketModel>>::empty());
    }
    while k < snaps.len()
        invariant
            k <= snaps@.len(),
            n == n_endpoints,
            views == spec_snapshots_of(snaps@),
            forall|j: int|
                0 <= j < snaps@.len() ==> (#[trigger] snaps@[j]).wf() && snaps@[j]@.len()
                    == n_endpoints,
            forall|j: int|
                0 <= j < views.len() ==> (#[trigger] views[j]).len() == n && forall|f: int|
                    0 <= f < n ==> bucket_wf(#[trigger] views[j][f]),
            forall|e: int|
                0 <= e < n ==> (#[trigger] spec_fold_merge(n, views)[e]).total <= u64::MAX,
            agg.wf(),
            agg@.len() == n_endpoints,
            agg@ =~= spec_fold_merge(n, views.take(k as int)),
        decreases snaps@.len() - k,
    {
        proof {
            assert forall|e: int| 0 <= e < n implies (#[trigger] agg@[e]).total
                + snaps@[k as int]@[e].total <= u64::MAX by {
                lemma_fold_merge_total_monotone(n, views, k as int, e);
                lemma_fold_merge_total_monotone(n, views, k as int + 1, e);
                assert(views.take(k as int + 1).drop_last() =~= views.take(k as int));
                assert(views.take(k as int + 1).last() == views[k as int]);
                assert(views[k as int] == snaps@[k as int]@);
            }
        }
        merge_state(&mut agg, &snaps[k]);
        proof {
            assert(views.take(k as int + 1).drop_last() =~= views.take(k as int));
            assert(views.take(k as int + 1).last() == snaps@[k as int]@);
            assert(agg@ =~= spec_fold_merge(n, views.take(k as int + 1)));
        }
        k = k + 1;
    }
    proof {
        assert(views.take(snaps@.len() as int) =~= views);
    }
    agg
}

/// Check at run time that this aggregation state is well formed: exactly
/// `wf`. The transport uses this to reject a malformed worker delta before
/// it reaches the merge.
impl GooseAggregator {
    pub fn check_wf(&self) -> (r: bool)
        ensures
            r == self.wf(),
    {
        let mut i: usize = 0;
        while i < self.buckets.len()
            invariant
                i <= self.buckets@.len(),
                forall|j: int| 0 <= j < i ==> (#[trigger] self.buckets@[j]).wf(),
            decreases self.buckets@.len() - i,
        {
            let b = &self.buckets[i];
            if b.histogram.len() != NUM_BUCKETS {
                proof {
                    assert(!self.buckets@[i as int].wf());
                }
                return false;
            }
            if b.successes > b.total || b.total - b.successes != b.failures {
                proof {
                    assert(!self.buckets@[i as int].wf());
                }
                return false;
            }
            let mut k: usize = 0;
            while k < NUM_BUCKETS
                invariant
                    k <= NUM_BUCKETS,
                    i < self.buckets@.len(),
                    self.buckets@[i as int].histogram@.len() == NUM_BUCKETS,
                    self.buckets@[i as int].successes + self.buckets@[i as int].failures
                        == self.buckets@[i as int].total,
                    forall|h: int|
                        0 <= h < k ==> #[trigger] self.buckets@[i as int]@.histogram[h]
                            <= self.buckets@[i as int]@.total,
                decreases NUM_BUCKETS - k,
            {
                if self.buckets[i].histogram[k] > self.buckets[i].total {
                    proof {
                        assert(self.buckets@[i as int]@.histogram[k as int]
                            > self.buckets@[i as int]@.total);
                        assert(!self.buckets@[i as int].wf());
                    }
                    return false;
                }
                k = k + 1;
            }
            proof {
                assert(self.buckets@[i as int].wf());
            }
            i = i + 1;
        }
        true
    }
}

/// Whether merging `b` into `a` keeps every total within the counter type.
pub open spec fn spec_merge_fits(a: Seq<BucketModel>, b: Seq<BucketModel>) -> bool {
    forall|e: int| 0 <= e < a.len() ==> (#[trigger] a[e]).total + b[e].total <= u64::MAX
}

/// Whether a delta can be merged without any counter overflowing. A delta
/// whose totals cannot fit is treated as malformed.
pub fn merge_fits(parent: &GooseAggregator, delta: &GooseAggregator) -> (r: bool)
    requires
        parent@.len() == delta@.len(),
    ensures
        r == spec_merge_fits(parent@, delta@),
{
    let n = parent.buckets.len();
    let mut e: usize = 0;
    while e < n
        invariant
            e <= n,
            n == parent@.len(),
            parent@.len() == delta@.len(),
            forall|f: int|
                0 <= f < e ==> (#[trigger] parent@[f]).total + delta@[f].total <= u64::MAX,
        decreases n - e,
    {
        let a = parent.buckets[e].total;
        let b = delta.buckets[e].total;
        if a > u64::MAX - b {
            proof {
                assert(parent@[e as int].total + delta@[e as int].total > u64::MAX);
            }
            return false;
        }
        e = e + 1;
    }
    true
}

/// The latency a histogram bucket starts at, milliseconds: 0 for the first
/// bucket, then the power-of-two lower bound `2^k`.
pub open spec fn spec_bucket_lower(k: int) -> int
    decreases k,
{
    if k <= 0 {
        0
    } else if k == 1 {
        2
    } else {
        2 * spec_bucket_lower(k - 1)
    }
}

/// The width of a histogram bucket, milliseconds.
pub open spec fn spec_bucket_width(k: int) -> int {
    if k <= 0 {
        2
    } else {
        spec_bucket_lower(k)
    }
}

/// The bucket lower bounds are non-negative and grow with the bucket index.
pub proof fn lemma_bucket_lower_monotone(i: int, j: int)
    requires
        0 <= i <= j,
    ensures
        0 <= spec_bucket_lower(i) <= spec_bucket_lower(j),
    decreases j - i,
{
    if i < j {
        lemma_bucket_lower_monotone(i, j - 1);
        lemma_bucket_lower_nonneg(j - 1);
    } else {
        lemma_bucket_lower_nonneg(i);
    }
}

/// No bucket starts below zero.
pub proof fn lemma_bucket_lower_nonneg(k: int)
    ensures
        spec_bucket_lower(k) >= 0,
    decreases
            (if k > 0 {
                k
            } else {
                0
            }),
{
    if k > 1 {
        lemma_bucket_lower_nonneg(k - 1);
    }
}

/// The last bucket before overflow starts at 65536 ms.
pub proof fn lemma_bucket_lower_last()
    ensures
        spec_bucket_lower(NUM_BUCKETS - 1) == 65536,
{
    assert(spec_bucket_lower(1) == 2);
    assert(spec_bucket_lower(2) == 4);
    assert(spec_bucket_lower(3) == 8);
    assert(spec_bucket_lower(4) == 16);
    assert(spec_bucket_lower(5) == 32);
    assert(spec_bucket_lower(6) == 64);
    assert(spec_bucket_lower(7) == 128);
    assert(spec_bucket_lower(8) == 256);
    assert(spec_bucket_lower(9) == 512);
    assert(spec_bucket_lower(10) == 1024);
    assert(spec_bucket_lower(11) == 2048);
    assert(spec_bucket_lower(12) == 4096);
    assert(spec_bucket_lower(13) == 8192);
    assert(spec_bucket_lower(14) == 16384);
    assert(spec_bucket_lower(15) == 32768);
    assert(spec_bucket_lower(16) == 65536);
}

/// How many outcomes must lie at or below a percentile: rounding up, so the
/// 99th percentile of 80 outcomes needs 80 of them.
pub open spec fn spec_threshold(total: int, pct: u64) -> int {
    (total * pct + 99) / 100
}

/// The percentile scan from bucket `k` on, with `cum` outcomes in earlier
/// buckets: the first bucket whose cumulative count reaches the threshold
/// yields its lower bound plus a linear interpolation within the bucket.
pub open spec fn spec_percentile_from(hist: Seq<int>, k: int, cum: int, threshold: int) -> int
    decreases hist.len() - k,
{
    if k < 0 || k >= hist.len() {
        spec_bucket_lower(hist.len() - 1)
    } else if cum + hist[k] >= threshold && hist[k] > 0 {
        spec_bucket_lower(k) + (spec_bucket_width(k) * (if threshold - cum >= 0 {
            threshold - cum
        } else {
            0
        })) / hist[k]
    } else {
        spec_percentile_from(hist, k + 1, cum + hist[k], threshold)
    }
}

/// The percentile of an aggregated record: 0 of an empty record, else the
/// interpolated scan of its histogram.
pub open spec fn spec_percentile(b: BucketModel, pct: u64) -> int {
    if b.total == 0 {
        0
    } else {
        spec_percentile_from(b.histogram, 0, 0, spec_threshold(b.total, pct))
    }
}

/// Compute a percentile of an aggregated record: the latency below which
/// `pct` percent of its outcomes fall, interpolated linearly within the
/// histogram bucket the threshold lands in.
pub fn percentile(b: &GooseRequest, pct: u64) -> (r: u64)
    requires
        b.wf(),
        pct <= 100,
    ensures
        r == spec_percentile(b@, pct),
{
    if b.total == 0 {
        return 0;
    }
    proof {
        assert((b@.total) * (pct as int) + 99 <= u128::MAX) by (nonlinear_arith)
            requires
                0 <= b@.total <= u64::MAX,
                0 <= pct <= 100,
        ;
    }
    let threshold_wide: u128 = ((b.total as u128) * (pct as u128) + 99) / 100;
    let ghost threshold = spec_threshold(b@.total, pct);
    proof {
        assert(threshold_wide == threshold);
        assert(threshold <= b@.total) by (nonlinear_arith)
            requires
                threshold == (b@.total * pct + 99) / 100,
                0 < b@.total <= u64::MAX,
                pct <= 100,
        ;
    }
    let threshold: u64 = threshold_wide as u64;
    let mut k: usize = 0;
    let mut cum: u64 = 0;
    let mut lower: u64 = 0;
    while k < NUM_BUCKETS
        invariant
            b.wf(),
            0 < b@.total <= u64::MAX,
            k <= NUM_BUCKETS,
            threshold == spec_threshold(b@.total, pct),
            0 <= threshold <= b@.total,
            lower == spec_bucket_lower(k as int),
            lower <= 131072,
            k < NUM_BUCKETS ==> lower <= 65536,
            spec_percentile_from(b@.histogram, 0, 0, threshold as int) == spec_percentile_from(
                b@.histogram,
                k as int,
                cum as int,
                threshold as int,
            ),
        decreases NUM_BUCKETS - k,
    {
        let count = b.histogram[k];
        proof {
            assert(b@.histogram[k as int] == count);
        }
        let crosses = if cum >= threshold {
            true
        } else {
            count >= threshold - cum
        };
        if count > 0 && crosses {
            let width: u64 = if k == 0 {
                2
            } else {
                lower
            };
            let need: u64 = if threshold > cum {
                threshold - cum
            } else {
                0
            };
            proof {
                assert((width as int) * (need as int) <= u128::MAX) by (nonlinear_arith)
                    requires
                        0 <= width <= 131072,
                        0 <= need <= u64::MAX,
                ;
            }
            let interp_wide: u128 = ((width as u128) * (need as u128)) / (count as u128);
            proof {
                assert(width == spec_bucket_width(k as int));
                assert(cum + b@.histogram[k as int] >= threshold);
                assert(need == if threshold - cum >= 0 {
                    threshold - cum
                } else {
                    0int
                });
                assert(spec_percentile_from(
                    b@.histogram,
                    k as int,
                    cum as int,
                    threshold as int,
                ) == spec_bucket_lower(k as int) + (spec_bucket_width(k as int) * (need as int))
                    / (count as int));
                assert((width as int * need as int) / count as int <= width as int)
                    by (nonlinear_arith)
                    requires
                        0 < count,
                        0 <= need <= count,
                        0 <= width,
                ;
                assert((width as int * need as int) / count as int >= 0) by (nonlinear_arith)
                    requires
                        0 < count,
                        0 <= need,
                        0 <= width,
                ;
                assert(interp_wide == (width as int * need as int) / count as int);
            }
            let interp: u64 = interp_wide as u64;
            return lower + interp;
        }
        cum = cum + count;
        lower = if k == 0 {
            2
        } else {
            lower * 2
        };
        k = k + 1;
        proof {
            assert(lower == spec_bucket_lower(k as int));
            if k < NUM_BUCKETS {
                lemma_bucket_lower_monotone(k as int, NUM_BUCKETS - 1);
                lemma_bucket_lower_last();
            }
        }
    }
    proof {
        lemma_bucket_lower_last();
    }
    65536
}

/// The views of a list of aggregators, one snapshot per worker.
pub open spec fn spec_snapshots_of(snaps: Seq<GooseAggregator>) -> Seq<Seq<BucketModel>> {
    Seq::new(snaps.len(), |k: int| snaps[k]@)
}

} // verus!
