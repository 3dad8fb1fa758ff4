//! The scheduler: when each virtual user hatches, how weighted scenarios
//! and transactions expand into a flat deterministic order, and run-time
//! expiry.

use vstd::prelude::*;
use crate::throttle::MICROS_PER_SECOND;

verus! {

/// Microseconds between two hatches at `hatch_rate` users per second.
pub open spec fn spec_hatch_quantum(hatch_rate: u64) -> int
    recommends
        hatch_rate >= 1,
{
    MICROS_PER_SECOND as int / hatch_rate as int
}

/// When each user hatches: user `i` at `i * (1s / hatch_rate)`. Hatching is
/// monotone, and with `hatch_rate > users` every user hatches within the
/// first second.
pub fn hatch_schedule(users: u64, hatch_rate: u64) -> (r: Vec<u64>)
    requires
        1 <= hatch_rate <= MICROS_PER_SECOND,
        users * MICROS_PER_SECOND <= u64::MAX,
    ensures
        r@.len() == users,
        forall|i: int| 0 <= i < users ==> r@[i] == i * spec_hatch_quantum(hatch_rate),
        forall|i: int| 0 < i < users ==> r@[i - 1] <= #[trigger] r@[i],
    decreases users,
{
    let quantum: u64 = MICROS_PER_SECOND / hatch_rate;
    let mut r: Vec<u64> = Vec::new();
    let mut i: u64 = 0;
    while i < users
        invariant
            i <= users,
            users * MICROS_PER_SECOND <= u64::MAX,
            quantum == spec_hatch_quantum(hatch_rate),
            quantum <= MICROS_PER_SECOND,
            r@.len() == i,
            forall|j: int| 0 <= j < i ==> r@[j] == j * spec_hatch_quantum(hatch_rate),
        decreases users - i,
    {
        proof {
            assert(i * quantum <= i * MICROS_PER_SECOND <= users * MICROS_PER_SECOND)
                by (nonlinear_arith)
                requires
                    quantum <= MICROS_PER_SECOND,
                    0 <= i < users,
                    users * MICROS_PER_SECOND <= u64::MAX,
            ;
        }
        r.push(i * quantum);
        i = i + 1;
    }
    proof {
        let q = spec_hatch_quantum(hatch_rate);
        assert forall|j: int| 0 < j < users implies r@[j - 1] <= #[trigger] r@[j] by {
            assert((j - 1) * q <= j * q) by (nonlinear_arith)
                requires 0 < j, q >= 0;
        }
    }
    r
}

/// All users hatch within the first second when the hatch rate exceeds the
/// user count.
pub proof fn lemma_fast_hatch_within_one_second(users: u64, hatch_rate: u64, schedule: Seq<u64>)
    requires
        1 <= hatch_rate <= MICROS_PER_SECOND,
        hatch_rate > users,
        schedule.len() == users,
        forall|i: int| 0 <= i < users ==> schedule[i] == i * spec_hatch_quantum(hatch_rate),
    ensures
        forall|i: int| 0 <= i < users ==> #[trigger] schedule[i] < MICROS_PER_SECOND,
{
    let q = spec_hatch_quantum(hatch_rate);
    vstd::arithmetic::div_mod::lemma_fundamental_div_mod(
        MICROS_PER_SECOND as int,
        hatch_rate as int,
    );
    assert(hatch_rate * q <= MICROS_PER_SECOND);
    assert forall|i: int| 0 <= i < users implies #[trigger] schedule[i] < MICROS_PER_SECOND by {
        assert(i * q < hatch_rate * q || q == 0) by (nonlinear_arith)
            requires 0 <= i, i < hatch_rate, q >= 0;
        assert(q >= 1) by {
            vstd::arithmetic::div_mod::lemma_div_non_zero(
                MICROS_PER_SECOND as int,
                hatch_rate as int,
            );
        }
    }
}

/// The weighted expansion of a list of weights: index `i` appears
/// `weights[i]` times, in index order. Selection then is a modular walk:
/// deterministic and O(1) per step.
pub open spec fn spec_expand(weights: Seq<u64>) -> Seq<usize>
    decreases weights.len(),
{
    if weights.len() == 0 {
        Seq::empty()
    } else {
        spec_expand(weights.drop_last()) + Seq::new(
            weights.last() as nat,
            |k: int| (weights.len() - 1) as usize,
        )
    }
}

/// The sum of a list of weights.
pub open spec fn spec_weight_sum(weights: Seq<u64>) -> int
    decreases weights.len(),
{
    if weights.len() == 0 {
        0
    } else {
        spec_weight_sum(weights.drop_last()) + weights.last()
    }
}

/// The expansion has one slot per unit of weight, and every slot names one
/// of the weighted items.
pub proof fn lemma_expand_shape(weights: Seq<u64>)
    ensures
        spec_expand(weights).len() == spec_weight_sum(weights),
        forall|k: int|
            0 <= k < spec_expand(weights).len() ==> (#[trigger] spec_expand(weights)[k])
                < weights.len(),
    decreases weights.len(),
{
    if weights.len() > 0 {
        lemma_expand_shape(weights.drop_last());
    }
}

/// Expand weighted items into the flat ordered sequence users walk.
pub fn expand_weighted(weights: &Vec<u64>) -> (r: Vec<usize>)
    requires
        spec_weight_sum(weights@) <= usize::MAX,
    ensures
        r@ == spec_expand(weights@),
        r@.len() == spec_weight_sum(weights@),
    decreases weights@.len(),
{
    proof {
        lemma_expand_shape(weights@);
        lemma_weight_sum_split(weights@, 0);
        assert(weights@.take(0) =~= Seq::<u64>::empty());
    }
    let mut r: Vec<usize> = Vec::new();
    let mut i: usize = 0;
    while i < weights.len()
        invariant
            i <= weights@.len(),
            spec_weight_sum(weights@) <= usize::MAX,
            r@ == spec_expand(weights@.take(i as int)),
            r@.len() == spec_weight_sum(weights@.take(i as int)),
            spec_weight_sum(weights@.take(i as int)) + spec_weight_sum_from(weights@, i as int)
                == spec_weight_sum(weights@),
            spec_weight_sum_from(weights@, i as int) >= 0,
        decreases weights@.len() - i,
    {
        let w = weights[i];
        let mut k: u64 = 0;
        proof {
            lemma_weight_sum_from_step(weights@, i as int);
            assert(r@.len() + w <= usize::MAX);
        }
        while k < w
            invariant
                k <= w,
                r@ == spec_expand(weights@.take(i as int)) + Seq::new(k as nat, |j: int| i),
                r@.len() + (w - k) <= usize::MAX,
                i < weights@.len(),
                w == weights@[i as int],
            decreases w - k,
        {
            r.push(i);
            k = k + 1;
            proof {
                assert(r@ =~= spec_expand(weights@.take(i as int)) + Seq::new(
                    k as nat,
                    |j: int| i,
                ));
            }
        }
        i = i + 1;
        proof {
            assert(weights@.take(i as int).drop_last() =~= weights@.take(i as int - 1));
            assert(weights@.take(i as int).last() == weights@[i as int - 1]);
            assert(r@ =~= spec_expand(weights@.take(i as int)));
            lemma_weight_sum_from_step(weights@, i as int - 1);
        }
    }
    proof {
        assert(weights@.take(weights@.len() as int) =~= weights@);
    }
    r
}

/// The weight still to expand, from index `i` on.
pub open spec fn spec_weight_sum_from(weights: Seq<u64>, i: int) -> int
    recommends
        0 <= i <= weights.len(),
    decreases weights.len() - i,
{
    if i >= weights.len() {
        0
    } else {
        weights[i] + spec_weight_sum_from(weights, i + 1)
    }
}

/// Splitting the remaining weight at the next item.
pub proof fn lemma_weight_sum_from_step(weights: Seq<u64>, i: int)
    requires
        0 <= i < weights.len(),
    ensures
        spec_weight_sum_from(weights, i) == weights[i] + spec_weight_sum_from(weights, i + 1),
        spec_weight_sum_from(weights, i + 1) >= 0,
        spec_weight_sum(weights.take(i + 1)) == spec_weight_sum(weights.take(i)) + weights[i],
    decreases weights.len() - i,
{
    lemma_weight_sum_from_nonneg(weights, i + 1);
    assert(weights.take(i + 1).drop_last() =~= weights.take(i));
}

/// The expanded and the remaining weight together make the whole.
pub proof fn lemma_weight_sum_split(weights: Seq<u64>, i: int)
    requires
        0 <= i <= weights.len(),
    ensures
        spec_weight_sum(weights.take(i)) + spec_weight_sum_from(weights, i) == spec_weight_sum(
            weights,
        ),
    decreases weights.len() - i,
{
    if i == weights.len() {
        assert(weights.take(i) =~= weights);
    } else {
        lemma_weight_sum_split(weights, i + 1);
        lemma_weight_sum_from_step(weights, i);
    }
}

/// Remaining weight is never negative.
pub proof fn lemma_weight_sum_from_nonneg(weights: Seq<u64>, i: int)
    requires
        0 <= i <= weights.len(),
    ensures
        spec_weight_sum_from(weights, i) >= 0,
    decreases weights.len() - i,
{
    if i < weights.len() {
        lemma_weight_sum_from_nonneg(weights, i + 1);
    }
}

/// The deterministic round-robin selection: step `counter` of a user walks
/// slot `counter % len` of the expansion.
pub fn next_weighted_index(expansion: &Vec<usize>, counter: u64) -> (r: usize)
    requires
        expansion@.len() > 0,
    ensures
        r == expansion@[(counter as int) % (expansion@.len() as int)],
{
    let len = expansion.len();
    let idx = (counter % (len as u64)) as usize;
    proof {
        assert(0 <= (counter as int) % (len as int) < (len as int)) by {
            vstd::arithmetic::div_mod::lemma_mod_bound(counter as int, len as int);
        }
    }
    expansion[idx]
}

/// Whether a timer that started at `started` (microseconds) has run for at
/// least `run_time` seconds by `now`. A `run_time` of zero never expires:
/// the run is bounded only by shutdown signals.
pub fn timer_expired(started: u64, run_time: u64, now: u64) -> (r: bool)
    requires
        started + run_time * MICROS_PER_SECOND <= u64::MAX,
    ensures
        r == (run_time > 0 && now >= started + run_time * MICROS_PER_SECOND),
{
    run_time > 0 && now >= started + run_time * MICROS_PER_SECOND
}

} // verus!
