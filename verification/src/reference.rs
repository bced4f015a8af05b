//! The trajectory of a value, computed on the host: halve an even value, triple
//! an odd one and add one, until 1 is reached. Results that come back from the
//! device can be held against it.

use vstd::prelude::*;
use crate::layout::ComputeResult;

verus! {

/// The value that follows `n` on a trajectory.
pub open spec fn next_value(n: nat) -> nat {
    if n % 2 == 0 {
        n / 2
    } else {
        3 * n + 1
    }
}

/// The value that a trajectory from `n` holds after `k` steps.
pub open spec fn value_after(n: nat, k: nat) -> nat
    decreases k,
{
    if k == 0 {
        n
    } else {
        next_value(value_after(n, (k - 1) as nat))
    }
}

/// The largest value that a trajectory from `n` holds within its first `k` steps,
/// `n` itself included.
pub open spec fn peak_within(n: nat, k: nat) -> nat
    decreases k,
{
    if k == 0 {
        n
    } else if value_after(n, k) > peak_within(n, (k - 1) as nat) {
        value_after(n, k)
    } else {
        peak_within(n, (k - 1) as nat)
    }
}

/// Whether a trajectory from `n` holds 1 after `k` steps and not before.
pub open spec fn stops_at(n: nat, k: nat) -> bool {
    value_after(n, k) == 1 && forall|j: nat| j < k ==> #[trigger] value_after(n, j) != 1
}

/// Whether a trajectory from `n` stops within `limit` steps without ever leaving
/// 128 bits.
pub open spec fn stops_within(n: nat, limit: nat) -> bool {
    exists|k: nat| k <= limit && #[trigger] stops_at(n, k) && peak_within(n, k) <= u128::MAX
}

/// A trajectory stops at one step count at most.
pub proof fn lemma_stop_is_unique(n: nat, a: nat, b: nat)
    requires
        stops_at(n, a),
        stops_at(n, b),
    ensures
        a == b,
{
    if a < b {
        assert(value_after(n, a) != 1);
    } else if b < a {
        assert(value_after(n, b) != 1);
    }
}

/// The peak within `k` steps is no smaller than any value held by then.
pub proof fn lemma_peak_bounds(n: nat, j: nat, k: nat)
    requires
        j <= k,
    ensures
        value_after(n, j) <= peak_within(n, k),
    decreases k,
{
    if j < k {
        lemma_peak_bounds(n, j, (k - 1) as nat);
    } else if k > 0 {
        assert(value_after(n, k) <= peak_within(n, k));
    }
}

/// Steps and peak of the trajectory from `n`, where it stops within `limit` steps
/// and stays within 128 bits; nothing where it does not.
pub fn collatz_within(n: u128, limit: u128) -> (r: Option<(u128, u128)>)
    ensures
        r is Some <==> stops_within(n as nat, limit as nat),
        r matches Some((steps, max)) ==> steps <= limit && stops_at(n as nat, steps as nat) && max
            == peak_within(n as nat, steps as nat),
{
    let mut cur: u128 = n;
    let mut steps: u128 = 0;
    let mut max: u128 = n;
    while cur != 1
        invariant
            steps <= limit,
            cur == value_after(n as nat, steps as nat),
            max == peak_within(n as nat, steps as nat),
            forall|j: nat| j < steps ==> #[trigger] value_after(n as nat, j) != 1,
        decreases limit - steps,
    {
        if steps == limit {
            proof {
                assert forall|k: nat| k <= limit implies !#[trigger] stops_at(n as nat, k) by {
                    assert(value_after(n as nat, k) != 1);
                }
            }
            return None;
        }
        if cur % 2 == 0 {
            cur = cur / 2;
        } else {
            if cur > (u128::MAX - 1) / 3 {
                proof {
                    let out = (steps + 1) as nat;
                    assert(value_after(n as nat, out) == 3 * cur + 1);
                    assert forall|k: nat| #[trigger] stops_at(n as nat, k) implies peak_within(
                        n as nat,
                        k,
                    ) > u128::MAX by {
                        if k <= steps {
                            assert(value_after(n as nat, k) != 1);
                        }
                        lemma_peak_bounds(n as nat, out, k);
                    }
                }
                return None;
            }
            cur = 3 * cur + 1;
        }
        steps = steps + 1;
        if cur > max {
            max = cur;
        }
    }
    assert(stops_at(n as nat, steps as nat));
    Some((steps, max))
}

/// Steps and peak of the trajectory from `n`.
pub fn collatz(n: u128) -> (r: (u128, u128))
    requires
        stops_within(n as nat, u128::MAX as nat),
    ensures
        stops_at(n as nat, r.0 as nat),
        r.1 == peak_within(n as nat, r.0 as nat),
{
    match collatz_within(n, u128::MAX) {
        Some(found) => found,
        None => (0, n),
    }
}

/// Whether a result is what the host finds for its candidate: the trajectory
/// stops after that many steps, and its peak is that value.
pub fn agrees_with_reference(result: &ComputeResult) -> (ok: bool)
    ensures
        ok <==> stops_at(result.input as nat, result.steps as nat) && result.max_value
            == peak_within(result.input as nat, result.steps as nat),
{
    match collatz_within(result.input, result.steps as u128) {
        Some((steps, max)) => {
            proof {
                if stops_at(result.input as nat, result.steps as nat) {
                    lemma_stop_is_unique(result.input as nat, steps as nat, result.steps as nat);
                }
            }
            steps == result.steps as u128 && max == result.max_value
        },
        None => false,
    }
}

} // verus!
