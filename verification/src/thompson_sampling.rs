//! Discounted Thompson sampling. Selection takes one externally drawn
//! Beta(alpha, beta) sample per connector, in nanos, and picks the largest;
//! the update step multiplies the chosen connector's own pseudo-counts by
//! the discount factor, adds one to the counter matching the outcome, and
//! records the resulting success-rate snapshot for change detection.

use crate::config::{connector_wf, spec_append_bounded, PaymentConnector, RoutingAlgorithm};
use crate::config::append_bounded;
use crate::RoutingError;
use crate::SCALE;
use vstd::prelude::*;

verus! {

/// The discounted Thompson sampling policy and its configuration.
#[derive(Debug, Clone)]
pub struct ThompsonSampling {
    /// Discount factor in nanos; in `(0, 1]`, so `1..=SCALE`.
    pub discount_factor: u64,
    /// Bound on each connector's `rate_history`; at least 1.
    pub history_capacity: usize,
    /// Change-detection threshold in nanos.
    pub change_threshold: u64,
}

/// `gamma * x` at the nano scale, floored.
pub open spec fn spec_discount(x: u64, gamma: u64) -> nat {
    (x as nat) * (gamma as nat) / (SCALE as nat)
}

/// A discounted pseudo-count with one whole unit added, capped at the
/// machine limit so the counter can only saturate, never wrap.
pub open spec fn spec_discount_bump(x: u64, gamma: u64) -> u64 {
    if spec_discount(x, gamma) + SCALE <= u64::MAX {
        (spec_discount(x, gamma) + SCALE) as u64
    } else {
        u64::MAX
    }
}

/// A discounted pseudo-count held at one nano or more, so that a positive
/// count stays positive through the fixed-point floor.
pub open spec fn spec_discount_floor(x: u64, gamma: u64) -> u64 {
    if spec_discount(x, gamma) >= 1 {
        spec_discount(x, gamma) as u64
    } else {
        1u64
    }
}

/// `alpha / (alpha + beta)` in nanos.
pub open spec fn spec_rate(alpha: u64, beta: u64) -> nat {
    (alpha as nat) * (SCALE as nat) / (alpha as nat + beta as nat)
}

/// `gamma * x` at the nano scale, floored; never above `x`.
fn discount(x: u64, gamma: u64) -> (r: u64)
    requires
        gamma <= SCALE,
    ensures
        r as nat == spec_discount(x, gamma),
        r <= x,
{
    proof {
        assert((x as nat) * (gamma as nat) <= u128::MAX) by (nonlinear_arith)
            requires
                x <= u64::MAX,
                gamma <= SCALE,
        ;
    }
    let wide: u128 = x as u128 * gamma as u128 / SCALE as u128;
    proof {
        let xn = x as nat;
        let gn = gamma as nat;
        let sn = SCALE as nat;
        assert(xn * gn / sn <= xn) by (nonlinear_arith)
            requires
                gn <= sn,
                1 <= sn,
        ;
    }
    wide as u64
}

/// The current success-rate estimate `alpha / (alpha + beta)`, in nanos.
fn rate_nanos(alpha: u64, beta: u64) -> (r: u64)
    requires
        alpha as nat + beta as nat >= 1,
    ensures
        r as nat == spec_rate(alpha, beta),
        r <= SCALE,
{
    let sum: u128 = alpha as u128 + beta as u128;
    proof {
        assert((alpha as nat) * (SCALE as nat) <= u128::MAX) by (nonlinear_arith)
            requires
                alpha <= u64::MAX,
        ;
    }
    let wide: u128 = alpha as u128 * SCALE as u128 / sum;
    proof {
        let an = alpha as nat;
        let bn = beta as nat;
        let sn = SCALE as nat;
        assert(an * sn / (an + bn) <= sn) by (nonlinear_arith)
            requires
                an + bn >= 1,
        ;
    }
    wide as u64
}

impl ThompsonSampling {
    /// Whether the configuration is usable: a discount factor in `(0, 1]`
    /// and room for at least one rate snapshot.
    pub open spec fn policy_wf(&self) -> bool {
        &&& 1 <= self.discount_factor <= SCALE
        &&& self.history_capacity >= 1
    }

    /// Creates the policy from its configuration, all in nanos.
    pub fn new(discount_factor: u64, history_capacity: usize, change_threshold: u64) -> (p:
        ThompsonSampling)
        requires
            1 <= discount_factor <= SCALE,
            history_capacity >= 1,
        ensures
            p.discount_factor == discount_factor,
            p.history_capacity == history_capacity,
            p.change_threshold == change_threshold,
            p.policy_wf(),
    {
        ThompsonSampling { discount_factor, history_capacity, change_threshold }
    }

    /// Picks the connector whose drawn Beta sample is largest, earliest
    /// index on ties. Fails with `NoCandidates` on an empty set and with
    /// `InvalidParameter` if a zero pseudo-count reaches the sampler;
    /// otherwise selection always succeeds.
    pub fn select(&self, connectors: &Vec<PaymentConnector>, samples: &Vec<u64>) -> (r: Result<
        usize,
        RoutingError,
    >)
        requires
            samples@.len() == connectors@.len(),
        ensures
            connectors@.len() == 0 <==> r == Result::<usize, RoutingError>::Err(
                RoutingError::NoCandidates,
            ),
            connectors@.len() > 0 ==> ((exists|j: int|
                0 <= j < connectors@.len() && (connectors@[j].alpha == 0 || connectors@[j].beta
                    == 0)) <==> r == Result::<usize, RoutingError>::Err(
                RoutingError::InvalidParameter,
            )),
            r matches Ok(i) ==> {
                &&& i < connectors@.len()
                &&& forall|j: int| 0 <= j < samples@.len() ==> samples@[j] <= samples@[i as int]
                &&& forall|j: int| 0 <= j < i ==> samples@[j] < samples@[i as int]
            },
            (connectors@.len() > 0 && (forall|j: int|
                0 <= j < connectors@.len() ==> connectors@[j].alpha >= 1 && connectors@[j].beta
                    >= 1)) ==> r matches Ok(_),
    {
        if connectors.len() == 0 {
            return Err(RoutingError::NoCandidates);
        }
        let n = connectors.len();
        let mut j: usize = 0;
        while j < n
            invariant
                n == connectors@.len(),
                j <= n,
                forall|k: int|
                    0 <= k < j ==> connectors@[k].alpha >= 1 && connectors@[k].beta >= 1,
            decreases n - j,
        {
            if connectors[j].alpha == 0 || connectors[j].beta == 0 {
                return Err(RoutingError::InvalidParameter);
            }
            j = j + 1;
        }
        let mut best: usize = 0;
        let mut i: usize = 1;
        while i < n
            invariant
                n == samples@.len(),
                best < i <= n,
                forall|k: int| 0 <= k < i ==> samples@[k] <= samples@[best as int],
                forall|k: int| 0 <= k < best ==> samples@[k] < samples@[best as int],
            decreases n - i,
        {
            if samples[i] > samples[best] {
                best = i;
            }
            i = i + 1;
        }
        Ok(best)
    }

    /// Folds one observed outcome into the chosen connector: on success
    /// `alpha <- gamma * alpha + 1`, on failure `alpha <- gamma * alpha`
    /// and `beta <- gamma * beta + 1` (the untouched counter of the other
    /// branch keeps its value), then appends the fresh rate estimate to
    /// the connector's bounded history. No other connector changes.
    pub fn update(&self, connectors: &mut Vec<PaymentConnector>, connector_index: usize, success: bool)
        requires
            self.policy_wf(),
            connector_index < old(connectors)@.len(),
        ensures
            final(connectors)@.len() == old(connectors)@.len(),
            forall|j: int|
                0 <= j < old(connectors)@.len() && j != connector_index ==> final(connectors)@[j]
                    == old(connectors)@[j],
            ({
                let prior = old(connectors)@[connector_index as int];
                let now = final(connectors)@[connector_index as int];
                &&& now.name == prior.name
                &&& now.successes == prior.successes
                &&& now.attempts == prior.attempts
                &&& now.window == prior.window
                &&& now.alpha == if success {
                    spec_discount_bump(prior.alpha, self.discount_factor)
                } else {
                    spec_discount_floor(prior.alpha, self.discount_factor)
                }
                &&& now.beta == if success {
                    prior.beta
                } else {
                    spec_discount_bump(prior.beta, self.discount_factor)
                }
                &&& now.rate_history@ == spec_append_bounded(
                    prior.rate_history@,
                    spec_rate(now.alpha, now.beta) as u64,
                    self.history_capacity as nat,
                )
                &&& now.alpha >= 1
                &&& now.beta >= 1 || prior.beta == 0
                &&& connector_wf(prior) ==> connector_wf(now)
            }),
    {
        let gamma = self.discount_factor;
        let c = &mut connectors[connector_index];
        if success {
            let d = discount(c.alpha, gamma);
            c.alpha = if d <= u64::MAX - SCALE {
                d + SCALE
            } else {
                u64::MAX
            };
        } else {
            let d = discount(c.alpha, gamma);
            c.alpha = if d >= 1 {
                d
            } else {
                1
            };
            let db = discount(c.beta, gamma);
            c.beta = if db <= u64::MAX - SCALE {
                db + SCALE
            } else {
                u64::MAX
            };
        }
        let rate = rate_nanos(c.alpha, c.beta);
        append_bounded(&mut c.rate_history, rate, self.history_capacity);
    }
}

impl RoutingAlgorithm for ThompsonSampling {
    open spec fn wf(&self) -> bool {
        self.policy_wf()
    }

    fn select_connector(&self, connectors: &Vec<PaymentConnector>, samples: &Vec<u64>) -> (r:
        Result<usize, RoutingError>) {
        self.select(connectors, samples)
    }

    fn update_connector(
        &mut self,
        connectors: &mut Vec<PaymentConnector>,
        connector_index: usize,
        success: bool,
    ) {
        self.update(connectors, connector_index, success)
    }
}

} // verus!
