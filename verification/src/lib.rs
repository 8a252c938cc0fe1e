//! Online selection of payment connectors by multi-armed-bandit learning.
//!
//! The crate holds the decision engine only: per-connector statistics,
//! two selection policies (discounted Thompson sampling and sliding-window
//! UCB), and a change-point detector over recent success rates. All
//! real-valued quantities (Beta pseudo-counts, success rates, exploration
//! scores) are carried as fixed-point integers scaled by [`SCALE`] nanos,
//! so every decision is deterministic and fully verified. Drawing the
//! Beta samples that Thompson selection consumes is the caller's job:
//! the samples are handed in as plain scaled integers.

use vstd::prelude::*;

pub mod change_detector;
pub mod config;
pub mod engine;
pub mod math;
pub mod sliding_window_ucb;
pub mod thompson_sampling;

verus! {

/// Fixed-point scale: one unit of real value is `SCALE` nanos.
pub const SCALE: u64 = 1_000_000_000;

/// Errors surfaced by the decision engine. None is used for control flow
/// inside the engine; each is returned to the caller.
#[derive(Debug, Clone, Copy, PartialEq, Eq, Structural)]
pub enum RoutingError {
    /// The connector set is empty at selection time.
    NoCandidates,
    /// A non-positive alpha or beta pseudo-count reached the sampler.
    InvalidParameter,
    /// A windowed score would divide by a zero total attempt count.
    DivisionUndefined,
    /// An identifier outside the active connector set was given.
    UnknownConnector,
    /// A policy-specific operation was invoked on the wrong policy.
    UnsupportedOperation,
}

} // verus!
