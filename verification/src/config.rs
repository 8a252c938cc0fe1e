//! Per-connector statistics, the bounded-append primitive shared by every
//! size-limited history, and the interface the two routing policies share.
//!
//! Real-valued statistics (the Beta pseudo-counts `alpha` and `beta`, and
//! the entries of `rate_history`) are fixed-point nanos: the stored integer
//! divided by [`crate::SCALE`] is the real value.

use crate::RoutingError;
use crate::SCALE;
use vstd::prelude::*;

verus! {

/// One candidate backend processor and all of its mutable statistics.
#[derive(Debug, Clone)]
pub struct PaymentConnector {
    /// Identifier, unique among the active set; never changed.
    pub name: String,
    /// Beta-distribution pseudo-count of successes, in nanos; always positive.
    pub alpha: u64,
    /// Beta-distribution pseudo-count of failures, in nanos; always positive.
    pub beta: u64,
    /// Lifetime count of successful outcomes.
    pub successes: usize,
    /// Lifetime count of observed outcomes.
    pub attempts: usize,
    /// Most-recent outcomes, oldest first; bounded by the policy's window size.
    pub window: Vec<bool>,
    /// Success-rate snapshots in nanos, oldest first; bounded by the
    /// Thompson policy's history capacity. Read by the change detector.
    pub rate_history: Vec<u64>,
}

/// Statistical state a connector must keep at all times: positive
/// pseudo-counts, no more successes than attempts, a window no longer
/// than the attempts that filled it, and rates within `[0, 1]`.
pub open spec fn connector_wf(c: PaymentConnector) -> bool {
    &&& c.alpha >= 1
    &&& c.beta >= 1
    &&& c.successes <= c.attempts
    &&& c.window@.len() <= c.attempts
    &&& forall|i: int| 0 <= i < c.rate_history@.len() ==> c.rate_history@[i] <= SCALE
}

impl PaymentConnector {
    /// Creates a connector with the uniform prior `alpha = beta = 1` (in
    /// nanos: `SCALE`), no recorded outcomes, and empty histories. The
    /// window size is an allocation hint only; the bound itself is the
    /// owning policy's configuration.
    pub fn new(name: String, window_size: usize) -> (c: PaymentConnector)
        ensures
            c.name@ == name@,
            c.alpha == SCALE,
            c.beta == SCALE,
            c.successes == 0,
            c.attempts == 0,
            c.window@ =~= Seq::<bool>::empty(),
            c.rate_history@ =~= Seq::<u64>::empty(),
            connector_wf(c),
    {
        PaymentConnector {
            name,
            alpha: SCALE,
            beta: SCALE,
            successes: 0,
            attempts: 0,
            window: Vec::with_capacity(window_size),
            rate_history: Vec::new(),
        }
    }
}

/// What one bounded append leaves behind: the value is appended, after the
/// oldest entry is dropped if the sequence already holds `capacity` entries.
pub open spec fn spec_append_bounded<T>(s: Seq<T>, value: T, capacity: nat) -> Seq<T> {
    if s.len() < capacity {
        s.push(value)
    } else {
        s.drop_first().push(value)
    }
}

/// Appends `value`; once at `capacity`, evicts the oldest entry first and
/// returns it. Both `window` and `rate_history` grow only through this
/// primitive, so their FIFO discipline is identical.
pub fn append_bounded<T>(values: &mut Vec<T>, value: T, capacity: usize) -> (evicted: Option<T>)
    requires
        capacity >= 1,
    ensures
        final(values)@ == spec_append_bounded(old(values)@, value, capacity as nat),
        old(values)@.len() < capacity ==> evicted matches None,
        old(values)@.len() >= capacity ==> (evicted matches Some(e) && e == old(values)@[0]),
        old(values)@.len() <= capacity ==> final(values)@.len() <= capacity,
    {
    let evicted: Option<T> = if values.len() >= capacity {
        Some(values.remove(0))
    } else {
        None
    };
    values.push(value);
    proof {
        assert(values@ == spec_append_bounded(old(values)@, value, capacity as nat));
    }
    evicted
}

/// The sequence left by feeding `outcomes` (oldest first) one by one into
/// the bounded append, starting from `start`.
pub open spec fn window_after<T>(start: Seq<T>, outcomes: Seq<T>, capacity: nat) -> Seq<T>
    decreases outcomes.len(),
{
    if outcomes.len() == 0 {
        start
    } else {
        spec_append_bounded(
            window_after(start, outcomes.drop_last(), capacity),
            outcomes.last(),
            capacity,
        )
    }
}

/// After any run of bounded appends the sequence holds exactly the most
/// recent entries of `start + outcomes`, in order, up to `capacity` of them.
pub proof fn lemma_window_after_is_suffix<T>(start: Seq<T>, outcomes: Seq<T>, capacity: nat)
    requires
        capacity >= 1,
        start.len() <= capacity,
    ensures
        window_after(start, outcomes, capacity) == (start + outcomes).skip(
            if start.len() + outcomes.len() > capacity {
                start.len() + outcomes.len() - capacity
            } else {
                0
            },
        ),
    decreases outcomes.len(),
{
    let full = start + outcomes;
    let t = start.len() + outcomes.len();
    let m: int = if t > capacity { t - capacity } else { 0 };
    if outcomes.len() == 0 {
        assert(window_after(start, outcomes, capacity) == full.skip(m)) by {
            assert(start =~= full.skip(0));
        }
    } else {
        let shorter = outcomes.drop_last();
        lemma_window_after_is_suffix(start, shorter, capacity);
        let prior = window_after(start, shorter, capacity);
        let mp: int = if t - 1 > capacity { t - 1 - capacity } else { 0 };
        assert(prior == (start + shorter).skip(mp));
        assert(prior.len() == t - 1 - mp);
        assert(start + shorter =~= full.drop_last());
        if t - 1 < capacity {
            assert(prior.len() < capacity);
            assert(window_after(start, outcomes, capacity) =~= full.skip(m));
        } else {
            assert(prior.len() == capacity);
            assert(window_after(start, outcomes, capacity) =~= full.skip(m));
        }
    }
}

/// FIFO round trip: once at least `capacity` outcomes have been appended,
/// the sequence equals exactly the last `capacity` outcomes, in order,
/// whatever it held before.
pub proof fn lemma_window_keeps_recent_outcomes<T>(start: Seq<T>, outcomes: Seq<T>, capacity: nat)
    requires
        capacity >= 1,
        start.len() <= capacity,
        outcomes.len() >= capacity,
    ensures
        window_after(start, outcomes, capacity) == outcomes.skip(outcomes.len() - capacity),
{
    lemma_window_after_is_suffix(start, outcomes, capacity);
    let t = start.len() + outcomes.len();
    assert((start + outcomes).skip(t - capacity) =~= outcomes.skip(outcomes.len() - capacity));
}

/// Number of `true` entries in an outcome window.
pub open spec fn count_true(s: Seq<bool>) -> nat
    decreases s.len(),
{
    if s.len() == 0 {
        0
    } else {
        count_true(s.drop_last()) + (if s.last() {
            1nat
        } else {
            0nat
        })
    }
}

/// The interface both selection policies offer the driver: pick a
/// connector, then report the observed outcome back into its statistics.
pub trait RoutingAlgorithm: Sized {
    /// Whether this policy's configuration is usable.
    spec fn wf(&self) -> bool;

    /// Chooses a connector index. `samples` carries one externally drawn
    /// Beta sample per connector, in nanos; window-based policies ignore
    /// it. Fails with `NoCandidates` exactly when the set is empty.
    fn select_connector(&self, connectors: &Vec<PaymentConnector>, samples: &Vec<u64>) -> (r:
        Result<usize, RoutingError>)
        requires
            self.wf(),
            samples@.len() == connectors@.len(),
        ensures
            connectors@.len() == 0 <==> r == Result::<usize, RoutingError>::Err(
                RoutingError::NoCandidates,
            ),
            r matches Ok(i) ==> i < connectors@.len(),
    ;

    /// Folds the outcome of one transaction into the chosen connector's
    /// statistics. Only that connector changes.
    fn update_connector(
        &mut self,
        connectors: &mut Vec<PaymentConnector>,
        connector_index: usize,
        success: bool,
    )
        requires
            old(self).wf(),
            connector_index < old(connectors)@.len(),
            old(connectors)@[connector_index as int].attempts < usize::MAX,
            old(connectors)@[connector_index as int].successes <= old(
                connectors,
            )@[connector_index as int].attempts,
        ensures
            *final(self) == *old(self),
            final(connectors)@.len() == old(connectors)@.len(),
            forall|j: int|
                0 <= j < old(connectors)@.len() && j != connector_index ==> final(connectors)@[j]
                    == old(connectors)@[j],
            final(connectors)@[connector_index as int].name == old(
                connectors,
            )@[connector_index as int].name,
            connector_wf(old(connectors)@[connector_index as int]) ==> connector_wf(
                final(connectors)@[connector_index as int],
            ),
    ;
}

} // verus!
