//! The engine the driver talks to: an owned arena of connector states and
//! the one active policy. The driver asks for a selection, reports the
//! observed outcome under the connector's identifier, and may inspect a
//! connector or ask the Thompson policy's change detector for its signal.

use crate::change_detector::{detect_significant_change, spec_change_detected};
use crate::config::{connector_wf, spec_append_bounded, PaymentConnector};
use crate::sliding_window_ucb::{
    spec_total_attempts, spec_ucb_score, spec_ln_total, SlidingWindowUCB,
};
use crate::thompson_sampling::{
    spec_discount_bump, spec_discount_floor, spec_rate, ThompsonSampling,
};
use crate::RoutingError;
use vstd::prelude::*;

verus! {

/// The policy a routing engine runs; fixed at initialization.
#[derive(Debug, Clone)]
pub enum ActivePolicy {
    ThompsonSampling(ThompsonSampling),
    SlidingWindowUCB(SlidingWindowUCB),
}

impl ActivePolicy {
    /// Whether the configuration of the active policy is usable.
    pub open spec fn policy_wf(&self) -> bool {
        match self {
            ActivePolicy::ThompsonSampling(t) => t.policy_wf(),
            ActivePolicy::SlidingWindowUCB(u) => u.policy_wf(),
        }
    }
}

/// Read-only view of one connector's statistics.
pub struct ConnectorSnapshot {
    pub alpha: u64,
    pub beta: u64,
    pub successes: usize,
    pub attempts: usize,
    pub window: Vec<bool>,
}

/// The decision engine: the connector arena and the active policy.
pub struct RoutingEngine {
    pub connectors: Vec<PaymentConnector>,
    pub policy: ActivePolicy,
}

/// How one reported outcome rewrites the chosen connector under the given
/// policy; every other field and connector stays as it was.
pub open spec fn spec_outcome_applied(
    policy: ActivePolicy,
    prior: PaymentConnector,
    now: PaymentConnector,
    success: bool,
) -> bool {
    match policy {
        ActivePolicy::ThompsonSampling(t) => {
            &&& now.name == prior.name
            &&& now.attempts == prior.attempts
            &&& now.successes == prior.successes
            &&& now.window == prior.window
            &&& now.alpha == if success {
                spec_discount_bump(prior.alpha, t.discount_factor)
            } else {
                spec_discount_floor(prior.alpha, t.discount_factor)
            }
            &&& now.beta == if success {
                prior.beta
            } else {
                spec_discount_bump(prior.beta, t.discount_factor)
            }
            &&& now.rate_history@ == spec_append_bounded(
                prior.rate_history@,
                spec_rate(now.alpha, now.beta) as u64,
                t.history_capacity as nat,
            )
        },
        ActivePolicy::SlidingWindowUCB(u) => {
            &&& now.name == prior.name
            &&& now.alpha == prior.alpha
            &&& now.beta == prior.beta
            &&& now.rate_history == prior.rate_history
            &&& now.attempts == prior.attempts + 1
            &&& now.successes == prior.successes + (if success {
                1int
            } else {
                0int
            })
            &&& now.window@ == spec_append_bounded(prior.window@, success, u.window_size as nat)
        },
    }
}

impl RoutingEngine {
    /// Every connector statistically sound, histories within the active
    /// policy's bounds, and identifiers unique.
    pub open spec fn wf(&self) -> bool {
        &&& self.policy.policy_wf()
        &&& forall|i: int|
            0 <= i < self.connectors@.len() ==> connector_wf(#[trigger] self.connectors@[i])
        &&& match self.policy {
            ActivePolicy::ThompsonSampling(t) => forall|i: int|
                0 <= i < self.connectors@.len() ==> (#[trigger] self.connectors@[i]).rate_history@.len()
                    <= t.history_capacity,
            ActivePolicy::SlidingWindowUCB(u) => forall|i: int|
                0 <= i < self.connectors@.len() ==> (#[trigger] self.connectors@[i]).window@.len()
                    <= u.window_size,
        }
        &&& forall|i: int, j: int|
            0 <= i < j < self.connectors@.len() ==> (#[trigger] self.connectors@[i]).name@ != (
            #[trigger] self.connectors@[j]).name@
    }

    /// Which error a selection on this state returns, if any.
    pub open spec fn spec_select_error(&self) -> Option<RoutingError> {
        let cs = self.connectors@;
        if cs.len() == 0 {
            Some(RoutingError::NoCandidates)
        } else {
            match self.policy {
                ActivePolicy::ThompsonSampling(_) => if exists|j: int|
                    0 <= j < cs.len() && ((#[trigger] cs[j]).alpha == 0 || cs[j].beta == 0) {
                    Some(RoutingError::InvalidParameter)
                } else {
                    None
                },
                ActivePolicy::SlidingWindowUCB(_) => if (forall|j: int|
                    0 <= j < cs.len() ==> (#[trigger] cs[j]).window@.len() != 0)
                    && spec_total_attempts(cs) == 0 {
                    Some(RoutingError::DivisionUndefined)
                } else {
                    None
                },
            }
        }
    }

    /// Whether index `i` is the one a successful selection returns, under
    /// the active policy, for the given drawn samples.
    pub open spec fn spec_selects(&self, samples: Seq<u64>, i: int) -> bool {
        let cs = self.connectors@;
        0 <= i < cs.len() && match self.policy {
            ActivePolicy::ThompsonSampling(_) => {
                &&& forall|j: int| 0 <= j < cs.len() ==> samples[j] <= samples[i]
                &&& forall|j: int| 0 <= j < i ==> samples[j] < samples[i]
            },
            ActivePolicy::SlidingWindowUCB(u) => {
                if exists|j: int| 0 <= j < cs.len() && (#[trigger] cs[j]).window@.len() == 0 {
                    cs[i].window@.len() == 0 && forall|j: int|
                        0 <= j < i ==> cs[j].window@.len() != 0
                } else {
                    let lnv = spec_ln_total(cs);
                    let c = u.exploration_factor;
                    &&& forall|j: int|
                        0 <= j < cs.len() ==> spec_ucb_score(#[trigger] cs[j], lnv, c)
                            <= spec_ucb_score(cs[i], lnv, c)
                    &&& forall|j: int|
                        0 <= j < i ==> spec_ucb_score(#[trigger] cs[j], lnv, c) < spec_ucb_score(
                            cs[i],
                            lnv,
                            c,
                        )
                }
            },
        }
    }

    /// Builds the engine: one fresh connector per identifier, in the given
    /// order, under the given policy.
    pub fn initialize(identifiers: Vec<String>, policy: ActivePolicy) -> (engine: RoutingEngine)
        requires
            policy.policy_wf(),
            forall|i: int, j: int|
                0 <= i < j < identifiers@.len() ==> identifiers@[i]@ != identifiers@[j]@,
        ensures
            engine.policy == policy,
            engine.connectors@.len() == identifiers@.len(),
            forall|i: int|
                0 <= i < identifiers@.len() ==> {
                    let c = #[trigger] engine.connectors@[i];
                    &&& c.name@ == identifiers@[i]@
                    &&& c.alpha == crate::SCALE
                    &&& c.beta == crate::SCALE
                    &&& c.successes == 0
                    &&& c.attempts == 0
                    &&& c.window@.len() == 0
                    &&& c.rate_history@.len() == 0
                },
            engine.wf(),
    {
        let hint = match &policy {
            ActivePolicy::ThompsonSampling(t) => t.history_capacity,
            ActivePolicy::SlidingWindowUCB(u) => u.window_size,
        };
        let n = identifiers.len();
        let mut connectors: Vec<PaymentConnector> = Vec::new();
        let mut i: usize = 0;
        while i < n
            invariant
                n == identifiers@.len(),
                i <= n,
                connectors@.len() == i,
                forall|k: int, j: int|
                    0 <= k < j < identifiers@.len() ==> identifiers@[k]@ != identifiers@[j]@,
                forall|k: int|
                    0 <= k < i ==> {
                        let c = #[trigger] connectors@[k];
                        &&& c.name@ == identifiers@[k]@
                        &&& c.alpha == crate::SCALE
                        &&& c.beta == crate::SCALE
                        &&& c.successes == 0
                        &&& c.attempts == 0
                        &&& c.window@.len() == 0
                        &&& c.rate_history@.len() == 0
                    },
            decreases n - i,
        {
            let name = identifiers[i].clone();
            connectors.push(PaymentConnector::new(name, hint));
            i = i + 1;
        }
        RoutingEngine { connectors, policy }
    }

    /// First connector index carrying the identifier, if any.
    fn find_index(&self, identifier: &String) -> (r: Option<usize>)
        ensures
            match r {
                Some(i) => i < self.connectors@.len() && self.connectors@[i as int].name@
                    == identifier@ && forall|j: int|
                    0 <= j < i ==> self.connectors@[j].name@ != identifier@,
                None => forall|j: int|
                    0 <= j < self.connectors@.len() ==> self.connectors@[j].name@ != identifier@,
            },
    {
        let n = self.connectors.len();
        let mut i: usize = 0;
        while i < n
            invariant
                n == self.connectors@.len(),
                i <= n,
                forall|j: int| 0 <= j < i ==> self.connectors@[j].name@ != identifier@,
            decreases n - i,
        {
            if self.connectors[i].name == *identifier {
                return Some(i);
            }
            i = i + 1;
        }
        None
    }

    /// Chooses a connector and returns its identifier. For the Thompson
    /// policy, `samples` must carry one externally drawn Beta sample per
    /// connector, in nanos; the sliding-window policy ignores it.
    pub fn select(&self, samples: &Vec<u64>) -> (r: Result<String, RoutingError>)
        requires
            (self.policy matches ActivePolicy::ThompsonSampling(_)) ==> samples@.len()
                == self.connectors@.len(),
        ensures
            match r {
                Result::Ok(name) => self.spec_select_error() matches None && exists|i: int|
                    #[trigger] self.spec_selects(samples@, i) && name@ == self.connectors@[i].name@,
                Result::Err(e) => self.spec_select_error() == Some(e),
            },
    {
        match &self.policy {
            ActivePolicy::ThompsonSampling(t) => {
                match t.select(&self.connectors, samples) {
                    Ok(i) => {
                        proof {
                            assert(self.spec_selects(samples@, i as int));
                        }
                        Ok(self.connectors[i].name.clone())
                    },
                    Err(e) => Err(e),
                }
            },
            ActivePolicy::SlidingWindowUCB(u) => {
                match u.select(&self.connectors) {
                    Ok(i) => {
                        proof {
                            assert(self.spec_selects(samples@, i as int));
                        }
                        Ok(self.connectors[i].name.clone())
                    },
                    Err(e) => Err(e),
                }
            },
        }
    }

    /// Feeds the observed outcome of a transaction back into the named
    /// connector's statistics, under the active policy's update rule.
    pub fn report_outcome(&mut self, identifier: &String, success: bool) -> (r: Result<
        (),
        RoutingError,
    >)
        requires
            old(self).wf(),
            forall|i: int|
                0 <= i < old(self).connectors@.len()
                    ==> (#[trigger] old(self).connectors@[i]).attempts < usize::MAX,
        ensures
            final(self).policy == old(self).policy,
            final(self).connectors@.len() == old(self).connectors@.len(),
            final(self).wf(),
            match r {
                Result::Ok(_) => exists|i: int|
                    {
                        &&& 0 <= i < old(self).connectors@.len()
                        &&& (#[trigger] old(self).connectors@[i]).name@ == identifier@
                        &&& forall|j: int|
                            0 <= j < i ==> old(self).connectors@[j].name@ != identifier@
                        &&& spec_outcome_applied(
                            old(self).policy,
                            old(self).connectors@[i],
                            final(self).connectors@[i],
                            success,
                        )
                        &&& forall|j: int|
                            0 <= j < old(self).connectors@.len() && j != i
                                ==> final(self).connectors@[j] == old(self).connectors@[j]
                    },
                Result::Err(e) => e == RoutingError::UnknownConnector && *final(self) == *old(self)
                    && forall|i: int|
                    0 <= i < old(self).connectors@.len()
                        ==> (#[trigger] old(self).connectors@[i]).name@ != identifier@,
            },
    {
        let found = self.find_index(identifier);
        match found {
            None => Err(RoutingError::UnknownConnector),
            Some(i) => {
                match &self.policy {
                    ActivePolicy::ThompsonSampling(t) => {
                        t.update(&mut self.connectors, i, success);
                    },
                    ActivePolicy::SlidingWindowUCB(u) => {
                        u.update(&mut self.connectors, i, success);
                    },
                }
                Ok(())
            },
        }
    }

    /// Read-only view of the named connector's statistics; no side effects.
    pub fn inspect_state(&self, identifier: &String) -> (r: Result<
        ConnectorSnapshot,
        RoutingError,
    >)
        ensures
            match r {
                Result::Ok(snap) => exists|i: int|
                    {
                        &&& 0 <= i < self.connectors@.len()
                        &&& (#[trigger] self.connectors@[i]).name@ == identifier@
                        &&& forall|j: int| 0 <= j < i ==> self.connectors@[j].name@ != identifier@
                        &&& snap.alpha == self.connectors@[i].alpha
                        &&& snap.beta == self.connectors@[i].beta
                        &&& snap.successes == self.connectors@[i].successes
                        &&& snap.attempts == self.connectors@[i].attempts
                        &&& snap.window@ == self.connectors@[i].window@
                    },
                Result::Err(e) => e == RoutingError::UnknownConnector && forall|i: int|
                    0 <= i < self.connectors@.len() ==> (#[trigger] self.connectors@[i]).name@
                        != identifier@,
            },
    {
        let found = self.find_index(identifier);
        match found {
            None => Err(RoutingError::UnknownConnector),
            Some(i) => {
                let c = &self.connectors[i];
                let m = c.window.len();
                let mut window: Vec<bool> = Vec::new();
                let mut k: usize = 0;
                while k < m
                    invariant
                        m == c.window@.len(),
                        k <= m,
                        window@ =~= c.window@.take(k as int),
                    decreases m - k,
                {
                    window.push(c.window[k]);
                    k = k + 1;
                }
                proof {
                    assert(c.window@.take(m as int) =~= c.window@);
                }
                Ok(
                    ConnectorSnapshot {
                        alpha: c.alpha,
                        beta: c.beta,
                        successes: c.successes,
                        attempts: c.attempts,
                        window,
                    },
                )
            },
        }
    }

    /// The Thompson policy's change signal for the named connector: true
    /// exactly when its newest rate snapshot strays from the mean of its
    /// history by more than the configured threshold. Advisory only; no
    /// state changes. Fails with `UnsupportedOperation` under any other
    /// policy.
    pub fn detect_change(&self, identifier: &String) -> (r: Result<bool, RoutingError>)
        ensures
            !(self.policy matches ActivePolicy::ThompsonSampling(_)) ==> r == Result::<
                bool,
                RoutingError,
            >::Err(RoutingError::UnsupportedOperation),
            self.policy matches ActivePolicy::ThompsonSampling(t) ==> match r {
                Result::Ok(flag) => exists|i: int|
                    {
                        &&& 0 <= i < self.connectors@.len()
                        &&& (#[trigger] self.connectors@[i]).name@ == identifier@
                        &&& forall|j: int| 0 <= j < i ==> self.connectors@[j].name@ != identifier@
                        &&& flag == spec_change_detected(
                            self.connectors@[i].rate_history@,
                            t.change_threshold,
                        )
                    },
                Result::Err(e) => e == RoutingError::UnknownConnector && forall|i: int|
                    0 <= i < self.connectors@.len() ==> (#[trigger] self.connectors@[i]).name@
                        != identifier@,
            },
    {
        let threshold = match &self.policy {
            ActivePolicy::ThompsonSampling(t) => t.change_threshold,
            ActivePolicy::SlidingWindowUCB(_) => {
                return Err(RoutingError::UnsupportedOperation);
            },
        };
        let found = self.find_index(identifier);
        match found {
            None => Err(RoutingError::UnknownConnector),
            Some(i) => Ok(detect_significant_change(&self.connectors[i].rate_history, threshold)),
        }
    }
}

} // verus!
