//! Bayesian online change-point detection: the run-length posterior and the
//! population of hypotheses behind it.
pub mod beta_cache;
pub mod dist_params;
pub mod prune;
pub mod sparse_probs;

use vstd::prelude::*;

verus! {

/// Why a step of the posterior recursion was refused.
#[derive(Clone, Copy, Debug, PartialEq, Eq)]
pub enum BocpdError {
    /// The likelihoods handed in do not pair up with the weights.
    DimensionMismatch,
    /// The weights have no mass to divide by.
    NumericDegeneracy,
}

} // verus!
