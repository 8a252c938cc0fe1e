//! Fixed-point arithmetic helpers: an exact integer square root and a
//! piecewise-linear natural-logarithm approximation, both over the nano
//! scale of [`crate::SCALE`]. The UCB exploration bonus is defined over
//! these functions, so their exec forms are pinned to their spec forms.

use vstd::arithmetic::power2::pow2;
use vstd::prelude::*;

verus! {

/// ln(2) in nanos.
pub const LN2_NANOS: u64 = 693_147_180;

/// Exact characterisation of the floor of the square root.
pub open spec fn is_floor_sqrt(v: nat, r: nat) -> bool {
    r * r <= v && v < (r + 1) * (r + 1)
}

/// The floor of the square root of `v`, as a spec-level value.
pub open spec fn floor_sqrt(v: nat) -> nat {
    choose|r: nat| is_floor_sqrt(v, r)
}

/// Two floor square roots of the same value coincide.
pub proof fn lemma_floor_sqrt_unique(v: nat, r1: nat, r2: nat)
    requires
        is_floor_sqrt(v, r1),
        is_floor_sqrt(v, r2),
    ensures
        r1 == r2,
{
    assert(r1 == r2) by (nonlinear_arith)
        requires
            r1 * r1 <= v,
            v < (r1 + 1) * (r1 + 1),
            r2 * r2 <= v,
            v < (r2 + 1) * (r2 + 1),
    ;
}

/// Every natural number has a floor square root, so `floor_sqrt` denotes it.
pub proof fn lemma_floor_sqrt_exists(v: nat)
    ensures
        is_floor_sqrt(v, floor_sqrt(v)),
    decreases v,
{
    if v == 0 {
        assert(is_floor_sqrt(0, 0)) by (nonlinear_arith);
        assert(is_floor_sqrt(v, floor_sqrt(v))) by {
            let r0: nat = 0;
            assert(is_floor_sqrt(v, r0));
        }
    } else {
        lemma_floor_sqrt_exists((v - 1) as nat);
        let r = floor_sqrt((v - 1) as nat);
        if v < (r + 1) * (r + 1) {
            assert(r * r <= v);
            assert(is_floor_sqrt(v, r));
        } else {
            // v - 1 < (r + 1)^2 <= v forces v == (r + 1)^2.
            assert(v == (r + 1) * (r + 1));
            assert(is_floor_sqrt(v, r + 1)) by (nonlinear_arith)
                requires
                    v == (r + 1) * (r + 1),
            ;
        }
        let rw = choose|rw: nat| is_floor_sqrt(v, rw);
        lemma_floor_sqrt_unique(v, rw, floor_sqrt(v));
    }
}

/// The floor square root never decreases as its argument grows.
pub proof fn lemma_floor_sqrt_monotone(v1: nat, v2: nat)
    requires
        v1 <= v2,
    ensures
        floor_sqrt(v1) <= floor_sqrt(v2),
{
    lemma_floor_sqrt_exists(v1);
    lemma_floor_sqrt_exists(v2);
    let r1 = floor_sqrt(v1);
    let r2 = floor_sqrt(v2);
    assert(r1 <= r2) by (nonlinear_arith)
        requires
            r1 * r1 <= v1,
            v1 <= v2,
            v2 < (r2 + 1) * (r2 + 1),
    ;
}

/// Floor of the square root of `v`, by binary search over `[0, 2^64 - 1]`.
pub fn isqrt_u128(v: u128) -> (r: u128)
    ensures
        r as nat == floor_sqrt(v as nat),
        is_floor_sqrt(v as nat, r as nat),
{
    let mut lo: u128 = 0;
    let mut hi: u128 = 0xFFFF_FFFF_FFFF_FFFF;
    proof {
        assert((v as nat) < ((hi + 1) * (hi + 1)) as nat) by (nonlinear_arith)
            requires
                hi == 0xFFFF_FFFF_FFFF_FFFFu128,
                v <= u128::MAX,
        ;
    }
    while lo < hi
        invariant
            lo <= hi,
            hi <= 0xFFFF_FFFF_FFFF_FFFF,
            (lo as nat) * (lo as nat) <= v as nat,
            (v as nat) < ((hi + 1) * (hi + 1)) as nat,
        decreases hi - lo,
    {
        let mid = lo + (hi - lo + 1) / 2;
        proof {
            assert((mid as nat) * (mid as nat) <= u128::MAX) by (nonlinear_arith)
                requires
                    mid <= 0xFFFF_FFFF_FFFF_FFFFu128,
            ;
        }
        if mid * mid <= v {
            lo = mid;
        } else {
            hi = mid - 1;
        }
    }
    proof {
        lemma_floor_sqrt_exists(v as nat);
        lemma_floor_sqrt_unique(v as nat, lo as nat, floor_sqrt(v as nat));
    }
    lo
}

/// Floor of the base-two logarithm; 0 below 2.
pub open spec fn lg_floor(x: nat) -> nat
    decreases x,
{
    if x < 2 {
        0
    } else {
        1 + lg_floor(x / 2)
    }
}

/// `lg_floor` is pinned by the bracketing powers of two.
pub proof fn lemma_lg_floor_of_bracketed(x: nat, k: nat)
    requires
        pow2(k) <= x,
        x < 2 * pow2(k),
    ensures
        lg_floor(x) == k,
    decreases k,
{
    vstd::arithmetic::power2::lemma_pow2_unfold(k + 1);
    vstd::arithmetic::power2::lemma_pow2_pos(k);
    if k == 0 {
        assert(pow2(0) == 1) by {
            vstd::arithmetic::power2::lemma2_to64();
        }
        assert(x == 1);
    } else {
        vstd::arithmetic::power2::lemma_pow2_unfold(k);
        assert(pow2((k - 1) as nat) <= x / 2) by {
            assert(2 * pow2((k - 1) as nat) <= x);
        }
        assert(x / 2 < 2 * pow2((k - 1) as nat));
        lemma_lg_floor_of_bracketed(x / 2, (k - 1) as nat);
        assert(x >= 2);
    }
}

/// `ln(x)` in nanos: `LN2_NANOS` per doubling, interpolated linearly
/// between neighbouring powers of two. Zero below 2 (so exact at 1).
pub open spec fn spec_ln_nanos(x: nat) -> nat {
    if x < 2 {
        0
    } else {
        let k = lg_floor(x);
        k * (LN2_NANOS as nat) + ((x - pow2(k)) as nat) * (LN2_NANOS as nat) / pow2(k)
    }
}

/// Fixed-point natural logarithm matching `spec_ln_nanos` exactly.
pub fn ln_nanos(x: u64) -> (r: u64)
    requires
        x >= 1,
    ensures
        r as nat == spec_ln_nanos(x as nat),
{
    let mut k: u64 = 0;
    let mut p: u64 = 1;
    proof {
        vstd::arithmetic::power2::lemma2_to64();
    }
    while p <= x / 2
        invariant
            1 <= x,
            p as nat == pow2(k as nat),
            1 <= p,
            p <= x,
            k < 64,
        decreases x - p,
    {
        proof {
            vstd::arithmetic::power2::lemma_pow2_unfold(k as nat + 1);
            if k as nat + 1 >= 64 {
                vstd::arithmetic::power2::lemma2_to64_rest();
                assert(false);
            }
        }
        p = p * 2;
        k = k + 1;
    }
    proof {
        assert(x < 2 * p);
        lemma_lg_floor_of_bracketed(x as nat, k as nat);
    }
    if x < 2 {
        0
    } else {
        let frac128: u128 = (x - p) as u128 * LN2_NANOS as u128 / p as u128;
        proof {
            let d: nat = (x - p) as nat;
            let q: nat = p as nat;
            assert(d * (LN2_NANOS as nat) / q < LN2_NANOS as nat) by (nonlinear_arith)
                requires
                    d < q,
                    1 <= q,
            ;
        }
        let frac: u64 = frac128 as u64;
        k * LN2_NANOS + frac
    }
}

} // verus!
