//! Sliding-window UCB. Each connector is scored by its windowed success
//! rate plus an exploration bonus `c * sqrt(ln(total) / n)`, where `n` is
//! the window length and `total` the lifetime attempts summed over every
//! connector; untried connectors (empty window) take absolute priority.
//! All scores are deterministic fixed-point values, so selection needs no
//! randomness at all.

use crate::config::{
    connector_wf, count_true, spec_append_bounded, PaymentConnector, RoutingAlgorithm,
};
use crate::config::append_bounded;
use crate::math::{floor_sqrt, isqrt_u128, lemma_floor_sqrt_monotone, ln_nanos, spec_ln_nanos};
use crate::RoutingError;
use crate::SCALE;
use vstd::prelude::*;

verus! {

/// The sliding-window UCB policy and its configuration.
#[derive(Debug, Clone)]
pub struct SlidingWindowUCB {
    /// Bound on each connector's outcome window; at least 1.
    pub window_size: usize,
    /// Exploration constant `c`, in nanos.
    pub exploration_factor: u64,
}

/// Lifetime attempts summed across all connectors.
pub open spec fn spec_total_attempts(cs: Seq<PaymentConnector>) -> nat
    decreases cs.len(),
{
    if cs.len() == 0 {
        0
    } else {
        spec_total_attempts(cs.drop_last()) + (cs.last().attempts as nat)
    }
}

/// The total attempt count as fed to the logarithm: saturated at the
/// machine limit of one counter.
pub open spec fn spec_ln_input(total: nat) -> u64 {
    if total <= u64::MAX {
        total as u64
    } else {
        u64::MAX
    }
}

/// Exploration bonus `c * sqrt(ln_total / n)` in nanos, where `ln_total`
/// is already the fixed-point logarithm of the total attempts.
pub open spec fn spec_bonus(ln_total: nat, n: nat, c: u64) -> nat {
    (c as nat) * floor_sqrt(ln_total / n * (SCALE as nat)) / (SCALE as nat)
}

/// Windowed UCB score in nanos: the window's success rate plus the
/// exploration bonus. Meaningful only for a non-empty window.
pub open spec fn spec_ucb_score(conn: PaymentConnector, ln_total: nat, c: u64) -> nat {
    let n = conn.window@.len();
    count_true(conn.window@) * (SCALE as nat) / n + spec_bonus(ln_total, n, c)
}

/// The fixed-point logarithm of the total attempts of `cs`, the value all
/// scores of one selection share.
pub open spec fn spec_ln_total(cs: Seq<PaymentConnector>) -> nat {
    spec_ln_nanos(spec_ln_input(spec_total_attempts(cs)) as nat)
}

/// Number of `true` entries in a window.
fn count_true_in(window: &Vec<bool>) -> (r: usize)
    ensures
        r as nat == count_true(window@),
        r <= window@.len(),
{
    let n = window.len();
    let mut count: usize = 0;
    let mut i: usize = 0;
    while i < n
        invariant
            n == window@.len(),
            i <= n,
            count as nat == count_true(window@.take(i as int)),
            count <= i,
        decreases n - i,
    {
        proof {
            assert(window@.take(i as int + 1).drop_last() =~= window@.take(i as int));
            assert(window@.take(i as int + 1).last() == window@[i as int]);
        }
        if window[i] {
            count = count + 1;
        }
        i = i + 1;
    }
    proof {
        assert(window@.take(n as int) =~= window@);
    }
    count
}

/// One connector's score, given the shared logarithm of the total.
fn window_score(conn: &PaymentConnector, ln_total: u64, c: u64) -> (score: u128)
    requires
        conn.window@.len() >= 1,
    ensures
        score as nat == spec_ucb_score(*conn, ln_total as nat, c),
{
    let n = conn.window.len();
    let s = count_true_in(&conn.window);
    proof {
        let sn = s as nat;
        let nn = n as nat;
        let sc = SCALE as nat;
        assert(nn <= 0xFFFF_FFFF_FFFF_FFFFu64 as nat);
        assert(sn * sc <= u128::MAX) by (nonlinear_arith)
            requires
                sn <= 0xFFFF_FFFF_FFFF_FFFFu64 as nat,
                sc == 1_000_000_000,
        ;
        assert(sn * sc / nn <= sc) by (nonlinear_arith)
            requires
                sn <= nn,
                1 <= nn,
        ;
    }
    let rate: u128 = s as u128 * SCALE as u128 / n as u128;
    let ln_over_n: u128 = ln_total as u128 / n as u128;
    proof {
        assert(ln_over_n as nat * (SCALE as nat) <= u128::MAX) by (nonlinear_arith)
            requires
                ln_over_n <= 0xFFFF_FFFF_FFFF_FFFFu64 as nat,
                SCALE == 1_000_000_000u64,
        ;
    }
    let inner: u128 = ln_over_n * SCALE as u128;
    let root: u128 = isqrt_u128(inner);
    proof {
        assert(inner as nat <= 0x4_0000_0000_0000_0000_0000_0000u128 as nat);
        if root as nat > 0x1_0000_0000_0000 {
            let rootn = root as nat;
            assert(rootn * rootn >= 0x1_0000_0000_0001 * 0x1_0000_0000_0001) by (nonlinear_arith)
                requires
                    rootn >= 0x1_0000_0000_0001,
            ;
            assert(false);
        }
        assert((c as nat) * (root as nat) <= 0x1_0000_0000_0000_0000_0000_0000_0000u128 as nat)
            by (nonlinear_arith)
            requires
                c as nat <= 0xFFFF_FFFF_FFFF_FFFFu64 as nat,
                root as nat <= 0x1_0000_0000_0000u128 as nat,
        ;
    }
    let bonus: u128 = c as u128 * root / SCALE as u128;
    proof {
        let cn = c as nat;
        let rootn = root as nat;
        let sc = SCALE as nat;
        assert(cn * rootn / sc <= cn * rootn) by (nonlinear_arith)
            requires
                1 <= sc,
        ;
    }
    rate + bonus
}

impl SlidingWindowUCB {
    /// Whether the configuration is usable: room for at least one outcome.
    pub open spec fn policy_wf(&self) -> bool {
        self.window_size >= 1
    }

    /// Creates the policy from its window capacity and exploration
    /// constant (in nanos).
    pub fn new(window_size: usize, exploration_factor: u64) -> (p: SlidingWindowUCB)
        requires
            window_size >= 1,
        ensures
            p.window_size == window_size,
            p.exploration_factor == exploration_factor,
            p.policy_wf(),
    {
        SlidingWindowUCB { window_size, exploration_factor }
    }

    /// Picks the first connector with an empty window if one exists
    /// (forced exploration); otherwise the connector with the highest
    /// windowed UCB score, earliest index on ties. Fails with
    /// `NoCandidates` on an empty set and with `DivisionUndefined` when
    /// every window is non-empty yet the total attempt count is zero.
    pub fn select(&self, connectors: &Vec<PaymentConnector>) -> (r: Result<usize, RoutingError>)
        ensures
            connectors@.len() == 0 <==> r == Result::<usize, RoutingError>::Err(
                RoutingError::NoCandidates,
            ),
            (exists|j: int| 0 <= j < connectors@.len() && connectors@[j].window@.len() == 0)
                ==> (r matches Ok(i) && connectors@[i as int].window@.len() == 0 && forall|j: int|
                0 <= j < i ==> connectors@[j].window@.len() != 0),
            (connectors@.len() > 0 && (forall|j: int|
                0 <= j < connectors@.len() ==> connectors@[j].window@.len() != 0)
                && spec_total_attempts(connectors@) == 0) <==> r == Result::<
                usize,
                RoutingError,
            >::Err(RoutingError::DivisionUndefined),
            (connectors@.len() > 0 && (forall|j: int|
                0 <= j < connectors@.len() ==> connectors@[j].window@.len() != 0)
                && spec_total_attempts(connectors@) > 0) ==> (r matches Ok(i) && {
                let lnv = spec_ln_total(connectors@);
                let c = self.exploration_factor;
                &&& i < connectors@.len()
                &&& forall|j: int|
                    0 <= j < connectors@.len() ==> spec_ucb_score(connectors@[j], lnv, c)
                        <= spec_ucb_score(connectors@[i as int], lnv, c)
                &&& forall|j: int|
                    0 <= j < i ==> spec_ucb_score(connectors@[j], lnv, c) < spec_ucb_score(
                        connectors@[i as int],
                        lnv,
                        c,
                    )
            }),
            r matches Ok(i) ==> i < connectors@.len(),
    {
        let n = connectors.len();
        if n == 0 {
            return Err(RoutingError::NoCandidates);
        }
        let mut j: usize = 0;
        while j < n
            invariant
                n == connectors@.len(),
                j <= n,
                forall|k: int| 0 <= k < j ==> connectors@[k].window@.len() != 0,
            decreases n - j,
        {
            if connectors[j].window.len() == 0 {
                return Ok(j);
            }
            j = j + 1;
        }
        let mut total: u128 = 0;
        let mut i: usize = 0;
        while i < n
            invariant
                n == connectors@.len(),
                i <= n,
                total as nat == spec_total_attempts(connectors@.take(i as int)),
                total as nat <= (i as nat) * (usize::MAX as nat),
            decreases n - i,
        {
            proof {
                assert(connectors@.take(i as int + 1).drop_last() =~= connectors@.take(i as int));
                assert(connectors@.take(i as int + 1).last() == connectors@[i as int]);
                let ii = i as nat;
                let m = usize::MAX as nat;
                assert(ii * m + m == (ii + 1) * m) by (nonlinear_arith);
                assert((ii + 1) * m <= u128::MAX) by (nonlinear_arith)
                    requires
                        ii + 1 <= m,
                        m <= 0xFFFF_FFFF_FFFF_FFFFu64 as nat,
                ;
            }
            total = total + connectors[i].attempts as u128;
            i = i + 1;
        }
        proof {
            assert(connectors@.take(n as int) =~= connectors@);
        }
        if total == 0 {
            return Err(RoutingError::DivisionUndefined);
        }
        let total_sat: u64 = if total > u64::MAX as u128 {
            u64::MAX
        } else {
            total as u64
        };
        proof {
            assert(total_sat == spec_ln_input(spec_total_attempts(connectors@)));
        }
        let ln_total = ln_nanos(total_sat);
        let c = self.exploration_factor;
        let mut best: usize = 0;
        let mut best_score: u128 = window_score(&connectors[0], ln_total, c);
        let mut i2: usize = 1;
        while i2 < n
            invariant
                n == connectors@.len(),
                best < i2 <= n,
                forall|k: int| 0 <= k < n ==> connectors@[k].window@.len() != 0,
                ln_total as nat == spec_ln_total(connectors@),
                best_score as nat == spec_ucb_score(connectors@[best as int], ln_total as nat, c),
                forall|k: int|
                    0 <= k < i2 ==> spec_ucb_score(connectors@[k], ln_total as nat, c)
                        <= best_score as nat,
                forall|k: int|
                    0 <= k < best ==> spec_ucb_score(connectors@[k], ln_total as nat, c)
                        < best_score as nat,
            decreases n - i2,
        {
            let score = window_score(&connectors[i2], ln_total, c);
            if score > best_score {
                best = i2;
                best_score = score;
            }
            i2 = i2 + 1;
        }
        Ok(best)
    }

    /// Records one outcome on the chosen connector: one more attempt, one
    /// more success if it succeeded, and the outcome appended to the
    /// bounded window (evicting the oldest once full). The pseudo-counts
    /// and rate history are untouched, and no other connector changes.
    pub fn update(
        &self,
        connectors: &mut Vec<PaymentConnector>,
        connector_index: usize,
        success: bool,
    )
        requires
            self.policy_wf(),
            connector_index < old(connectors)@.len(),
            old(connectors)@[connector_index as int].attempts < usize::MAX,
            old(connectors)@[connector_index as int].successes <= old(
                connectors,
            )@[connector_index as int].attempts,
        ensures
            final(connectors)@.len() == old(connectors)@.len(),
            forall|j: int|
                0 <= j < old(connectors)@.len() && j != connector_index ==> final(connectors)@[j]
                    == old(connectors)@[j],
            ({
                let prior = old(connectors)@[connector_index as int];
                let now = final(connectors)@[connector_index as int];
                &&& now.name == prior.name
                &&& now.alpha == prior.alpha
                &&& now.beta == prior.beta
                &&& now.rate_history == prior.rate_history
                &&& now.attempts == prior.attempts + 1
                &&& now.successes == prior.successes + (if success {
                    1int
                } else {
                    0int
                })
                &&& now.window@ == spec_append_bounded(
                    prior.window@,
                    success,
                    self.window_size as nat,
                )
                &&& (connector_wf(prior) && prior.window@.len() <= self.window_size)
                    ==> (connector_wf(now) && now.window@.len() <= self.window_size)
            }),
    {
        let c = &mut connectors[connector_index];
        c.attempts = c.attempts + 1;
        if success {
            c.successes = c.successes + 1;
        }
        append_bounded(&mut c.window, success, self.window_size);
    }
}

/// At a fixed total attempt count, a connector's exploration bonus never
/// grows as its window fills: more windowed samples can only shrink
/// `c * sqrt(ln(total) / n)`. (The decrease is strict in real arithmetic;
/// fixed-point flooring can level neighbouring values, so the bound here
/// is non-strict.)
pub proof fn lemma_exploration_bonus_monotone(ln_total: nat, n1: nat, n2: nat, c: u64)
    requires
        1 <= n1 <= n2,
    ensures
        spec_bonus(ln_total, n2, c) <= spec_bonus(ln_total, n1, c),
{
    vstd::arithmetic::div_mod::lemma_div_is_ordered_by_denominator(
        ln_total as int,
        n1 as int,
        n2 as int,
    );
    let v1 = ln_total / n1;
    let v2 = ln_total / n2;
    assert(v2 * (SCALE as nat) <= v1 * (SCALE as nat)) by (nonlinear_arith)
        requires
            v2 <= v1,
    ;
    lemma_floor_sqrt_monotone(v2 * (SCALE as nat), v1 * (SCALE as nat));
    let r1 = floor_sqrt(v1 * (SCALE as nat));
    let r2 = floor_sqrt(v2 * (SCALE as nat));
    assert((c as nat) * r2 <= (c as nat) * r1) by (nonlinear_arith)
        requires
            r2 <= r1,
    ;
    vstd::arithmetic::div_mod::lemma_div_is_ordered(
        ((c as nat) * r2) as int,
        ((c as nat) * r1) as int,
        SCALE as int,
    );
}

/// The strict side of the bonus decrease, up to fixed-point precision:
/// whenever the logarithm of the total is at least `n1 * n2` nanos, the
/// quantity under the square root strictly shrinks as the window grows
/// from `n1` to `n2`. (The bonus itself may still tie after the square
/// root and the final division floor it; with `ln_total == 0`, from a
/// total of one attempt, every bonus is 0 and nothing is strict.)
pub proof fn lemma_bonus_argument_strictly_decreases(ln_total: nat, n1: nat, n2: nat)
    requires
        1 <= n1 < n2,
        ln_total >= n1 * n2,
    ensures
        ln_total / n2 < ln_total / n1,
{
    let q2 = ln_total / n2;
    assert(n1 * n2 == n2 * n1) by (nonlinear_arith);
    vstd::arithmetic::div_mod::lemma_div_is_ordered((n1 * n2) as int, ln_total as int, n2 as int);
    vstd::arithmetic::div_mod::lemma_div_multiples_vanish(n1 as int, n2 as int);
    assert(q2 >= n1);
    vstd::arithmetic::div_mod::lemma_fundamental_div_mod(ln_total as int, n2 as int);
    assert(ln_total >= q2 * n2) by (nonlinear_arith)
        requires
            ln_total == n2 * (ln_total / n2) + ln_total % n2,
            ln_total % n2 >= 0,
            q2 == ln_total / n2,
    ;
    assert(q2 * n2 >= q2 * n1 + n1) by (nonlinear_arith)
        requires
            n2 >= n1 + 1,
            q2 >= n1,
            n1 >= 1,
    ;
    assert((q2 + 1) * n1 <= ln_total) by (nonlinear_arith)
        requires
            ln_total >= q2 * n1 + n1,
    ;
    assert((q2 + 1) * n1 == n1 * (q2 + 1)) by (nonlinear_arith);
    vstd::arithmetic::div_mod::lemma_div_is_ordered(
        ((q2 + 1) * n1) as int,
        ln_total as int,
        n1 as int,
    );
    vstd::arithmetic::div_mod::lemma_div_multiples_vanish((q2 + 1) as int, n1 as int);
}

/// Forced exploration never repeats a connector. Selection returns the
/// first connector whose window is empty while any exists (see `select`);
/// this lemma adds that the matching update leaves exactly that connector
/// tried, so the untried set shrinks by the chosen connector and a later
/// forced-exploration pick cannot return it again.
pub proof fn lemma_forced_exploration_progress(
    before: Seq<PaymentConnector>,
    after: Seq<PaymentConnector>,
    i: int,
    outcome: bool,
    capacity: nat,
)
    requires
        capacity >= 1,
        0 <= i < before.len(),
        after.len() == before.len(),
        before[i].window@.len() == 0,
        after[i].window@ == spec_append_bounded(before[i].window@, outcome, capacity),
        forall|j: int| 0 <= j < before.len() && j != i ==> after[j] == before[j],
    ensures
        after[i].window@.len() == 1,
        forall|k: int|
            0 <= k < after.len() && after[k].window@.len() == 0 ==> before[k].window@.len() == 0
                && k != i,
{
}

impl RoutingAlgorithm for SlidingWindowUCB {
    open spec fn wf(&self) -> bool {
        self.policy_wf()
    }

    fn select_connector(&self, connectors: &Vec<PaymentConnector>, _samples: &Vec<u64>) -> (r:
        Result<usize, RoutingError>) {
        self.select(connectors)
    }

    fn update_connector(
        &mut self,
        connectors: &mut Vec<PaymentConnector>,
        connector_index: usize,
        success: bool,
    ) {
        self.update(connectors, connector_index, success)
    }
}

} // verus!
