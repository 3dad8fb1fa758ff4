//! The global request-rate throttle.
//!
//! Every throttled request must acquire one permit before it is issued. The
//! throttle spaces permits at least `ceil(1_000_000 / throttle_requests)`
//! microseconds apart, the quantum a drainer emptying one token every
//! `1s / throttle_requests` enforces. From that spacing alone, any one-second
//! window holds at most `throttle_requests + 1` permits, and a run that ends
//! at time `T` hands out at most `ceil(T / quantum)` permits in total.

use vstd::prelude::*;

verus! {

/// One million microseconds: the one-second window the rate cap speaks of.
pub const MICROS_PER_SECOND: u64 = 1_000_000;

/// The largest accepted requests-per-second cap.
pub const MAX_THROTTLE_REQUESTS: u64 = 1_000_000;

/// Permit times spaced at least `quantum` apart, in issue order.
pub open spec fn permits_spaced(permits: Seq<u64>, quantum: u64) -> bool {
    forall|i: int| 0 < i < permits.len() ==> permits[i - 1] + quantum <= #[trigger] permits[i]
}

/// The drainer's quantum for a cap of `n` requests per second:
/// `ceil(1_000_000 / n)` microseconds between permits.
pub open spec fn spec_quantum(n: u64) -> u64
    recommends
        1 <= n <= MAX_THROTTLE_REQUESTS,
{
    ((MICROS_PER_SECOND - 1) as int / n as int + 1) as u64
}

/// The global token regulator: hands out permit times for throttled requests.
pub struct Throttle {
    /// Microseconds between consecutive permits.
    pub quantum: u64,
    /// The earliest time the next permit may carry.
    pub next_free: u64,
    /// Every permit handed out so far, in order.
    pub permits: Ghost<Seq<u64>>,
}

impl Throttle {
    /// Microseconds between consecutive permits.
    pub open spec fn spec_quantum_of(&self) -> u64 {
        self.quantum
    }

    /// The permit times handed out so far, in order.
    pub open spec fn spec_permits(&self) -> Seq<u64> {
        self.permits@
    }

    /// A throttle is well formed when its permits are spaced by its quantum,
    /// every permit lies at least one quantum before `next_free`, and the
    /// quantum is positive.
    pub open spec fn wf(&self) -> bool {
        &&& 1 <= self.quantum <= MICROS_PER_SECOND
        &&& permits_spaced(self.permits@, self.quantum)
        &&& forall|i: int|
            0 <= i < self.permits@.len() ==> #[trigger] self.permits@[i] + self.quantum
                <= self.next_free
    }

    /// Build a throttle capping the process at `throttle_requests` per second.
    pub fn new(throttle_requests: u64) -> (r: Throttle)
        requires
            1 <= throttle_requests <= MAX_THROTTLE_REQUESTS,
        ensures
            r.wf(),
            r.spec_permits() === Seq::empty(),
            r.spec_quantum_of() == spec_quantum(throttle_requests),
            r.next_free == 0,
    {
        let quantum: u64 = ((MICROS_PER_SECOND - 1) / throttle_requests) + 1;
        Throttle { quantum, next_free: 0, permits: Ghost(Seq::empty()) }
    }

    /// Acquire one permit for a request that became ready at `now`. The
    /// permit carries the time the request may be issued: no earlier than
    /// `now`, and at least one quantum after every earlier permit.
    pub fn acquire(&mut self, now: u64) -> (permit: u64)
        requires
            old(self).wf(),
            now + old(self).spec_quantum_of() <= u64::MAX,
            old(self).next_free + old(self).spec_quantum_of() <= u64::MAX,
        ensures
            final(self).wf(),
            permit == if now > old(self).next_free {
                now as int
            } else {
                old(self).next_free as int
            },
            final(self).spec_quantum_of() == old(self).spec_quantum_of(),
            final(self).next_free == permit + old(self).spec_quantum_of(),
            final(self).spec_permits() === old(self).spec_permits().push(permit),
    {
        let permit: u64 = if now > self.next_free {
            now
        } else {
            self.next_free
        };
        proof {
            assert(forall|i: int|
                0 <= i < self.permits@.len() ==> #[trigger] self.permits@[i] + self.quantum
                    <= permit);
        }
        self.next_free = permit + self.quantum;
        proof {
            self.permits@ = self.permits@.push(permit);
        }
        permit
    }
}

/// Spacing accumulates: permits `i` and `j` lie at least `(j - i) * quantum`
/// apart.
pub proof fn lemma_spacing_accumulates(permits: Seq<u64>, quantum: u64, i: int, j: int)
    requires
        permits_spaced(permits, quantum),
        0 <= i <= j < permits.len(),
    ensures
        permits[i] + (j - i) * quantum <= permits[j],
    decreases j - i,
{
    if i < j {
        lemma_spacing_accumulates(permits, quantum, i, j - 1);
        assert(permits[j - 1] + quantum <= permits[j]);
        assert((j - i) * quantum == (j - 1 - i) * quantum + quantum) by (nonlinear_arith)
            requires i < j;
    } else {
        assert((j - i) * quantum == 0) by (nonlinear_arith)
            requires i == j;
    }
}

/// The rate cap, as a sliding window: with a cap of `n` requests per second,
/// any window of one second holds at most `n + 1` permits. Formally: if
/// permits `i` through `j` all fall strictly within one second of each other,
/// there are at most `n + 1` of them.
pub proof fn lemma_window_bound(permits: Seq<u64>, n: u64, i: int, j: int)
    requires
        1 <= n <= MAX_THROTTLE_REQUESTS,
        permits_spaced(permits, spec_quantum(n)),
        0 <= i <= j < permits.len(),
        permits[j] < permits[i] + MICROS_PER_SECOND,
    ensures
        j - i + 1 <= n + 1,
    decreases j - i,
{
    let q = spec_quantum(n) as int;
    lemma_spacing_accumulates(permits, spec_quantum(n), i, j);
    assert((j - i) * q < MICROS_PER_SECOND);
    assert(n * q >= MICROS_PER_SECOND) by {
        vstd::arithmetic::div_mod::lemma_fundamental_div_mod(
            (MICROS_PER_SECOND - 1) as int,
            n as int,
        );
        assert(q == (MICROS_PER_SECOND - 1) as int / n as int + 1);
        assert(n * q == n * ((MICROS_PER_SECOND - 1) as int / n as int) + n)
            by (nonlinear_arith)
            requires q == (MICROS_PER_SECOND - 1) as int / n as int + 1;
        vstd::arithmetic::div_mod::lemma_mod_bound((MICROS_PER_SECOND - 1) as int, n as int);
    }
    if j - i > n {
        assert((j - i) * q >= (n + 1) * q) by (nonlinear_arith)
            requires j - i >= n + 1, q >= 1;
        assert((n + 1) * q == n * q + q) by (nonlinear_arith);
        assert(false);
    }
}

/// The total cap: every permit of a run that ends strictly before `end`
/// lies on a grid of `quantum`, so at most `ceil(end / quantum)` permits are
/// handed out. With the first permit at or after `start`, at most
/// `ceil((end - start) / quantum)` are.
pub proof fn lemma_total_bound(permits: Seq<u64>, quantum: u64, start: u64, end: u64, count: int)
    requires
        1 <= quantum,
        permits_spaced(permits, quantum),
        count == permits.len(),
        count > 0 ==> permits[0] >= start,
        forall|i: int| 0 <= i < permits.len() ==> #[trigger] permits[i] < end,
        start <= end,
        quantum * count <= u64::MAX,
    ensures
        count * quantum < (end - start) + quantum,
{
    if count > 0 {
        lemma_spacing_accumulates(permits, quantum, 0, count - 1);
        assert(permits[0] + (count - 1) * quantum <= permits[count - 1]);
        assert(permits[count - 1] < end);
        assert(count * quantum == (count - 1) * quantum + quantum) by (nonlinear_arith);
    } else {
        assert(count * quantum == 0) by (nonlinear_arith)
            requires count == 0;
    }
}

} // verus!
