//! Change-point detection over a connector's recent success-rate history:
//! a stateless predicate that flags the newest rate straying from the
//! arithmetic mean of the recorded history by more than a threshold.
//! The signal is advisory; nothing here mutates any state.

use vstd::prelude::*;

verus! {

/// Sum of a rate history, in nanos.
pub open spec fn spec_sum_rates(s: Seq<u64>) -> nat
    decreases s.len(),
{
    if s.len() == 0 {
        0
    } else {
        spec_sum_rates(s.drop_last()) + (s.last() as nat)
    }
}

/// Arithmetic mean of a rate history, in nanos, floored; 0 when empty.
pub open spec fn spec_mean_rate(s: Seq<u64>) -> nat {
    spec_sum_rates(s) / s.len()
}

/// Whether the newest rate deviates from the mean of the whole history by
/// strictly more than `threshold` nanos; false with fewer than 2 entries.
pub open spec fn spec_change_detected(s: Seq<u64>, threshold: u64) -> bool {
    &&& s.len() >= 2
    &&& (if s.last() >= spec_mean_rate(s) {
        s.last() - spec_mean_rate(s)
    } else {
        spec_mean_rate(s) - s.last()
    }) > threshold
}

/// Decides `spec_change_detected` for the given history and threshold.
pub fn detect_significant_change(history: &Vec<u64>, threshold: u64) -> (r: bool)
    ensures
        r == spec_change_detected(history@, threshold),
{
    let n = history.len();
    if n < 2 {
        return false;
    }
    let mut sum: u128 = 0;
    let mut i: usize = 0;
    while i < n
        invariant
            n == history@.len(),
            i <= n,
            sum as nat == spec_sum_rates(history@.take(i as int)),
            sum as nat <= (i as nat) * (u64::MAX as nat),
        decreases n - i,
    {
        proof {
            assert(history@.take(i as int + 1).drop_last() =~= history@.take(i as int));
            assert(history@.take(i as int + 1).last() == history@[i as int]);
            let ii = i as nat;
            let m = u64::MAX as nat;
            assert(ii * m + m == (ii + 1) * m) by (nonlinear_arith);
            assert((i as nat + 1) * (u64::MAX as nat) <= u128::MAX) by (nonlinear_arith)
                requires
                    i as nat + 1 <= usize::MAX as nat,
            ;
        }
        sum = sum + history[i] as u128;
        i = i + 1;
    }
    proof {
        assert(history@.take(n as int) =~= history@);
    }
    let mean: u64 = (sum / n as u128) as u64;
    proof {
        let sn = sum as nat;
        let nn = n as nat;
        let m = u64::MAX as nat;
        assert(sn / nn <= m) by (nonlinear_arith)
            requires
                sn <= nn * m,
                nn >= 1,
        ;
    }
    let last = history[n - 1];
    proof {
        assert(history@.last() == history@[n - 1]);
    }
    let diff = if last >= mean {
        last - mean
    } else {
        mean - last
    };
    diff > threshold
}

} // verus!
