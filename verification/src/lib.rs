//! Online change-point detection: two-sided CUSUM trackers and the Bayesian
//! run-length posterior, generic over the scalar type.
//!
//! The CUSUM trackers stand alone. The Bayesian detector keeps a population
//! of hypotheses, one per candidate run length, as two index-aligned
//! sequences: the parameter records and the posterior weights. The functions
//! of this file are its per-observation steps: the posterior step, the
//! pruning of both sequences by one mask, and the expected probability of
//! change.
//!
//! The population grows between observations, and its caller drives that:
//! after a posterior step, `DistParams::grow` lets every hypothesis take the
//! observation in and a fresh one enter in front, and `SparseProbs::prepend`
//! gives the fresh hypothesis its slot. The next posterior step puts the
//! changepoint mass into that slot.
pub mod bocpd;
pub mod cusum;
pub mod last_two;
pub mod scalar;

use crate::bocpd::beta_cache::{extends, BetaCache};
use crate::bocpd::dist_params::{evaluated_from, scores, scores_cached, DistParams, Hypothesis};
use crate::bocpd::prune::{kept, lemma_kept_all, lemma_kept_len};
use crate::bocpd::sparse_probs::{normalized, total_mass, updated, SparseProbs};
use crate::bocpd::BocpdError;
use crate::scalar::{
    at_least, exact, lemma_times_associates, lemma_times_distributes, lemma_times_swap,
    lemma_times_zero, one, ordered, over, plus, ring_laws, same, times, total, zero, Scalar,
};
use vstd::prelude::*;

verus! {

/// What one observation makes of the weights `before`, given its likelihood
/// under every hypothesis: the recursion at hazard `1 / lamb`, then the
/// normalisation. Where the recursion leaves no mass, the step fails with
/// the unnormalised weights in place.
pub open spec fn stepped<T: Scalar>(
    before: Seq<T>,
    priors: Seq<T>,
    lamb: T,
    r: Result<(), BocpdError>,
    after: Seq<T>,
) -> bool {
    let raw = updated(before, priors, over(one::<T>(), lamb));
    if same(total_mass(raw), zero::<T>()) {
        r == Err::<(), BocpdError>(BocpdError::NumericDegeneracy) && after == raw
    } else {
        r is Ok && after == normalized(raw)
    }
}

/// Updates the weights with the likelihoods of one observation, at the hazard
/// `1 / lamb`, and normalises them.
pub fn apply_priors<T: Scalar>(priors: Vec<T>, lamb: T, probs: &mut SparseProbs<T>) -> (r: Result<
    (),
    BocpdError,
>)
    requires
        total::<T>(),
    ensures
        final(probs)@.len() == old(probs)@.len(),
        priors@.len() != old(probs)@.len() ==> r == Err::<(), BocpdError>(
            BocpdError::DimensionMismatch,
        ) && final(probs)@ == old(probs)@,
        priors@.len() == old(probs)@.len() ==> r != Err::<(), BocpdError>(
            BocpdError::DimensionMismatch,
        ),
        priors@.len() == old(probs)@.len() && exact::<T>() ==> stepped(
            old(probs)@,
            priors@,
            lamb,
            r,
            final(probs)@,
        ),
{
    let hazard = T::from(1u8) / lamb;
    match probs.update_probs(priors, hazard) {
        Err(e) => Err(e),
        Ok(()) => probs.normalize(),
    }
}

/// The posterior step for one observation: the likelihood of `point` under
/// every hypothesis of `params`, then the update and normalisation of
/// `probs`.
pub fn calc_probabilities<P: Hypothesis<T>, T: Scalar>(
    point: T,
    lamb: T,
    params: &DistParams<P>,
    probs: &mut SparseProbs<T>,
) -> (r: Result<(), BocpdError>)
    requires
        total::<T>(),
    ensures
        final(probs)@.len() == old(probs)@.len(),
        params@.len() != old(probs)@.len() ==> r == Err::<(), BocpdError>(
            BocpdError::DimensionMismatch,
        ) && final(probs)@ == old(probs)@,
        params@.len() == old(probs)@.len() ==> r != Err::<(), BocpdError>(
            BocpdError::DimensionMismatch,
        ),
        params@.len() == old(probs)@.len() ==> exists|priors: Seq<T>|
            {
                &&& priors.len() == params@.len()
                &&& forall|i: int|
                    0 <= i < priors.len() ==> scores(params@[i], point, #[trigger] priors[i])
                &&& exact::<T>() ==> stepped(old(probs)@, priors, lamb, r, final(probs)@)
            },
{
    let priors = params.priors(point);
    let ghost likelihoods = priors@;
    let r = apply_priors(priors, lamb, probs);
    proof {
        if params@.len() == old(probs)@.len() {
            assert(exact::<T>() ==> stepped(old(probs)@, likelihoods, lamb, r, probs@));
            assert(likelihoods.len() == params@.len());
        }
    }
    r
}

/// The posterior step for one observation, with the Beta values taken from
/// `cache`.
pub fn calc_probabilities_cached<P: Hypothesis<T>, T: Scalar>(
    point: T,
    lamb: T,
    params: &DistParams<P>,
    probs: &mut SparseProbs<T>,
    cache: &mut BetaCache<T>,
) -> (r: Result<(), BocpdError>)
    requires
        total::<T>(),
    ensures
        final(probs)@.len() == old(probs)@.len(),
        extends(final(cache)@, old(cache)@),
        evaluated_from::<P, T>(final(cache)@, old(cache)@.len() as int),
        params@.len() != old(probs)@.len() ==> r == Err::<(), BocpdError>(
            BocpdError::DimensionMismatch,
        ) && final(probs)@ == old(probs)@,
        params@.len() == old(probs)@.len() ==> r != Err::<(), BocpdError>(
            BocpdError::DimensionMismatch,
        ),
        params@.len() == old(probs)@.len() ==> exists|priors: Seq<T>|
            {
                &&& priors.len() == params@.len()
                &&& forall|i: int|
                    0 <= i < priors.len() ==> scores_cached(
                        params@[i],
                        point,
                        final(cache)@,
                        #[trigger] priors[i],
                    )
                &&& exact::<T>() ==> stepped(old(probs)@, priors, lamb, r, final(probs)@)
            },
{
    let priors = params.priors_cached(point, cache);
    let ghost likelihoods = priors@;
    let r = apply_priors(priors, lamb, probs);
    proof {
        if params@.len() == old(probs)@.len() {
            assert(exact::<T>() ==> stepped(old(probs)@, likelihoods, lamb, r, probs@));
            assert(likelihoods.len() == params@.len());
        }
    }
    r
}

/// The mask of a pruning: which weights reach the threshold.
pub open spec fn reaching<T: Scalar>(weights: Seq<T>, threshold: T) -> Seq<bool> {
    Seq::new(weights.len(), |i: int| at_least(weights[i], threshold))
}

/// Prunes the population: every hypothesis whose weight is below `threshold`
/// leaves both sequences, which stay aligned. Returns the number of
/// survivors.
pub fn truncate_vectors<P, T: Scalar>(
    threshold: T,
    params: &mut DistParams<P>,
    probs: &mut SparseProbs<T>,
) -> (n: usize)
    requires
        old(params)@.len() == old(probs)@.len(),
    ensures
        n == final(params)@.len(),
        n == final(probs)@.len(),
        n <= old(probs)@.len(),
        exists|mask: Seq<bool>|
            {
                &&& mask.len() == old(probs)@.len()
                &&& #[trigger] kept(old(params)@, mask) == final(params)@
                &&& kept(old(probs)@, mask) == final(probs)@
            },
        ordered::<T>() ==> final(params)@ == kept(old(params)@, reaching(old(probs)@, threshold)),
        ordered::<T>() ==> final(probs)@ == kept(old(probs)@, reaching(old(probs)@, threshold)),
{
    let weights = probs.iter();
    let count = weights.len();
    let mut threshold_filter: Vec<bool> = Vec::new();
    let mut i: usize = 0;
    while i < count
        invariant
            i <= count,
            count == weights@.len(),
            count == probs@.len(),
            forall|j: int| 0 <= j < count ==> (#[trigger] weights@[j]).value == probs@[j],
            threshold_filter@.len() == i,
            ordered::<T>() ==> forall|j: int|
                0 <= j < i ==> #[trigger] threshold_filter@[j] == at_least(probs@[j], threshold),
        decreases count - i,
    {
        threshold_filter.push(weights[i].get_value() >= threshold);
        i = i + 1;
    }
    let ghost mask = threshold_filter@;
    let filter = &threshold_filter;
    let keep = |i: usize| -> (b: bool)
        requires
            i < filter@.len(),
        ensures
            b == filter@[i as int],
        { filter[i] };
    params.retain_mut(keep);
    proof {
        let applied = choose|applied: Seq<bool>|
            {
                &&& applied.len() == old(params)@.len()
                &&& forall|i: int|
                    0 <= i < applied.len() ==> call_ensures(
                        keep,
                        (i as usize,),
                        #[trigger] applied[i],
                    )
                &&& params@ == kept(old(params)@, applied)
            };
        assert(applied =~= mask);
    }
    probs.retain_mut(keep);
    proof {
        let applied = choose|applied: Seq<bool>|
            {
                &&& applied.len() == old(probs)@.len()
                &&& forall|i: int|
                    0 <= i < applied.len() ==> call_ensures(
                        keep,
                        (i as usize,),
                        #[trigger] applied[i],
                    )
                &&& probs@ == kept(old(probs)@, applied)
            };
        assert(applied =~= mask);
        lemma_kept_len(old(params)@, old(probs)@, mask);
        if ordered::<T>() {
            assert(mask =~= reaching(old(probs)@, threshold));
        }
    }
    params.len()
}

/// The sum, from zero and in index order, of every weight times the entry of
/// `priors` at its index.
pub open spec fn change_prob<T: Scalar>(priors: Seq<T>, weights: Seq<T>) -> T
    recommends
        priors.len() == weights.len(),
    decreases weights.len(),
{
    if weights.len() == 0 || priors.len() == 0 {
        zero::<T>()
    } else {
        plus(
            change_prob(priors.drop_last(), weights.drop_last()),
            times(priors.last(), weights.last()),
        )
    }
}

/// The expected probability of change: the posterior weights, each weighted
/// by the caller's prior of change for its hypothesis. Refused where the two
/// do not pair up.
pub fn get_change_prob<T: Scalar>(priors: Vec<T>, probs: &SparseProbs<T>) -> (r: Result<
    T,
    BocpdError,
>)
    requires
        total::<T>(),
    ensures
        priors@.len() != probs@.len() ==> r == Err::<T, BocpdError>(BocpdError::DimensionMismatch),
        priors@.len() == probs@.len() ==> r is Ok,
        priors@.len() == probs@.len() && exact::<T>() ==> r == Ok::<T, BocpdError>(
            change_prob(priors@, probs@),
        ),
{
    let weights = probs.iter();
    let n = weights.len();
    if priors.len() != n {
        return Err(BocpdError::DimensionMismatch);
    }
    let mut sum = T::from(0u8);
    let mut i: usize = 0;
    while i < n
        invariant
            total::<T>(),
            i <= n,
            n == weights@.len(),
            n == probs@.len(),
            n == priors@.len(),
            forall|j: int| 0 <= j < n ==> (#[trigger] weights@[j]).value == probs@[j],
            exact::<T>() ==> sum == change_prob(priors@.take(i as int), probs@.take(i as int)),
        decreases n - i,
    {
        proof {
            assert(priors@.take(i + 1).drop_last() == priors@.take(i as int));
            assert(probs@.take(i + 1).drop_last() == probs@.take(i as int));
        }
        sum = sum + priors[i] * weights[i].get_value();
        i = i + 1;
    }
    proof {
        assert(priors@.take(n as int) == priors@);
        assert(probs@.take(n as int) == probs@);
    }
    Ok(sum)
}

/// Pruning at a threshold that every weight reaches removes nothing. Zero is
/// such a threshold for weights that are not negative.
pub proof fn lemma_truncate_keeps_all<P, T: Scalar>(params: Seq<P>, weights: Seq<T>, threshold: T)
    requires
        params.len() == weights.len(),
        forall|i: int| 0 <= i < weights.len() ==> at_least(#[trigger] weights[i], threshold),
    ensures
        kept(params, reaching(weights, threshold)) == params,
        kept(weights, reaching(weights, threshold)) == weights,
{
    lemma_kept_all(params, reaching(weights, threshold));
    lemma_kept_all(weights, reaching(weights, threshold));
}

/// Every entry of `values` times `k`.
pub open spec fn scaled<T: Scalar>(k: T, values: Seq<T>) -> Seq<T> {
    Seq::new(values.len(), |i: int| times(k, values[i]))
}

/// The expected probability of change is linear in the weights: in exact
/// arithmetic, scaling every weight by `k` scales the result by `k`.
pub proof fn lemma_change_prob_scales_with_weights<T: Scalar>(priors: Seq<T>, weights: Seq<T>, k: T)
    requires
        ring_laws::<T>(),
        priors.len() == weights.len(),
    ensures
        change_prob(priors, scaled(k, weights)) == times(k, change_prob(priors, weights)),
    decreases weights.len(),
{
    if weights.len() == 0 {
        lemma_times_zero(k);
    } else {
        lemma_change_prob_scales_with_weights(priors.drop_last(), weights.drop_last(), k);
        assert(scaled(k, weights).drop_last() == scaled(k, weights.drop_last()));
        lemma_times_swap(priors.last(), k, weights.last());
        lemma_times_distributes(
            k,
            change_prob(priors.drop_last(), weights.drop_last()),
            times(priors.last(), weights.last()),
        );
    }
}

/// The expected probability of change is linear in the priors of change too.
pub proof fn lemma_change_prob_scales_with_priors<T: Scalar>(priors: Seq<T>, weights: Seq<T>, k: T)
    requires
        ring_laws::<T>(),
        priors.len() == weights.len(),
    ensures
        change_prob(scaled(k, priors), weights) == times(k, change_prob(priors, weights)),
    decreases weights.len(),
{
    if weights.len() == 0 {
        lemma_times_zero(k);
    } else {
        lemma_change_prob_scales_with_priors(priors.drop_last(), weights.drop_last(), k);
        assert(scaled(k, priors).drop_last() == scaled(k, priors.drop_last()));
        lemma_times_associates(k, priors.last(), weights.last());
        lemma_times_distributes(
            k,
            change_prob(priors.drop_last(), weights.drop_last()),
            times(priors.last(), weights.last()),
        );
    }
}

} // verus!
