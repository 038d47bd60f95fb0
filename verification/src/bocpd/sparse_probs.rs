//! The run-length posterior: one weight per hypothesis, index-aligned with
//! the hypotheses' parameter records.
use crate::bocpd::prune::{kept, retain_by};
use crate::bocpd::BocpdError;
use crate::scalar::{
    division_laws, exact, lemma_over_distributes, lemma_over_itself, lemma_plus_associates,
    lemma_plus_interchange, lemma_plus_zero, lemma_shares_make_whole, lemma_times_zero, minus,
    one, over, plus, ring_laws, same, times, total, zero, Scalar,
};
use vstd::prelude::*;

verus! {

/// The unnormalised mass with which a hypothesis of weight `p` survives an
/// observation of likelihood `prior`: `p * prior * (1 - hazard)`.
pub open spec fn growth_mass<T: Scalar>(p: T, prior: T, hazard: T) -> T {
    times(times(p, prior), minus(one::<T>(), hazard))
}

/// The unnormalised mass that a hypothesis of weight `p` gives to a change
/// point at this observation: `p * prior * hazard`.
pub open spec fn changepoint_term<T: Scalar>(p: T, prior: T, hazard: T) -> T {
    times(times(p, prior), hazard)
}

/// The unnormalised mass of a change point at this observation: the sum,
/// from zero and in index order, of every hypothesis' share.
pub open spec fn changepoint_mass<T: Scalar>(probs: Seq<T>, priors: Seq<T>, hazard: T) -> T
    recommends
        priors.len() == probs.len(),
    decreases probs.len(),
{
    if probs.len() == 0 || priors.len() == 0 {
        zero::<T>()
    } else {
        plus(
            changepoint_mass(probs.drop_last(), priors.drop_last(), hazard),
            changepoint_term(probs.last(), priors.last(), hazard),
        )
    }
}

/// The weights after one observation, before normalisation. Every hypothesis
/// keeps its slot, so that the weights stay aligned with the parameter
/// records. The first slot, which a grown population holds for the
/// hypothesis of a run that starts now, takes the changepoint mass; every
/// later slot takes the growth mass of its own hypothesis.
pub open spec fn updated<T: Scalar>(probs: Seq<T>, priors: Seq<T>, hazard: T) -> Seq<T>
    recommends
        priors.len() == probs.len(),
{
    Seq::new(
        probs.len(),
        |i: int|
            if i == 0 {
                changepoint_mass(probs, priors, hazard)
            } else {
                growth_mass(probs[i], priors[i], hazard)
            },
    )
}

/// The sum of the weights, from zero and in index order.
pub open spec fn total_mass<T: Scalar>(weights: Seq<T>) -> T
    decreases weights.len(),
{
    if weights.len() == 0 {
        zero::<T>()
    } else {
        plus(total_mass(weights.drop_last()), weights.last())
    }
}

/// Every weight divided by the sum of all.
pub open spec fn normalized<T: Scalar>(weights: Seq<T>) -> Seq<T> {
    Seq::new(weights.len(), |i: int| over(weights[i], total_mass(weights)))
}

/// The posterior weight of one hypothesis.
pub struct SparseProb<T> {
    pub value: T,
}

impl<T: Copy> Clone for SparseProb<T> {
    fn clone(&self) -> (r: Self)
        ensures
            r == *self,
    {
        *self
    }
}

impl<T: Copy> Copy for SparseProb<T> {

}

impl<T: Copy> SparseProb<T> {
    pub fn new(value: T) -> (r: Self)
        ensures
            r.value == value,
    {
        Self { value }
    }

    pub fn get_value(&self) -> (r: T)
        ensures
            r == self.value,
    {
        self.value
    }
}

/// The posterior weights of a population of hypotheses, in the order of the
/// population.
pub struct SparseProbs<T> {
    probs: Vec<SparseProb<T>>,
}

impl<T> View for SparseProbs<T> {
    type V = Seq<T>;

    /// The weights, in order.
    closed spec fn view(&self) -> Seq<T> {
        Seq::new(self.probs@.len(), |i: int| self.probs@[i].value)
    }
}

impl<T: Scalar> SparseProbs<T> {
    pub fn new(weights: Vec<T>) -> (r: Self)
        ensures
            r@ == weights@,
    {
        let mut probs: Vec<SparseProb<T>> = Vec::new();
        let mut i: usize = 0;
        while i < weights.len()
            invariant
                i <= weights.len(),
                probs@.len() == i,
                forall|j: int| 0 <= j < i ==> (#[trigger] probs@[j]).value == weights@[j],
            decreases weights.len() - i,
        {
            probs.push(SparseProb::new(weights[i]));
            i = i + 1;
        }
        let r = Self { probs };
        assert(r@ =~= weights@);
        r
    }

    pub fn len(&self) -> (n: usize)
        ensures
            n == self@.len(),
    {
        self.probs.len()
    }

    /// Read-only access to every weight, in order.
    pub fn iter(&self) -> (r: &[SparseProb<T>])
        ensures
            r@.len() == self@.len(),
            forall|i: int| 0 <= i < r@.len() ==> (#[trigger] r@[i]).value == self@[i],
    {
        self.probs.as_slice()
    }

    /// Lets a fresh hypothesis of the given weight enter in front of the
    /// population.
    pub fn prepend(&mut self, weight: T)
        ensures
            final(self)@ == seq![weight] + old(self)@,
    {
        self.probs.insert(0, SparseProb::new(weight));
        assert(self@ =~= seq![weight] + old(self)@);
    }

    /// One step of the run-length recursion under a constant hazard, in
    /// place. Refused, with the weights untouched, where `priors` does not
    /// pair up with the weights.
    pub fn update_probs(&mut self, priors: Vec<T>, hazard: T) -> (r: Result<(), BocpdError>)
        requires
            total::<T>(),
        ensures
            final(self)@.len() == old(self)@.len(),
            priors@.len() != old(self)@.len() ==> r == Err::<(), BocpdError>(
                BocpdError::DimensionMismatch,
            ) && final(self)@ == old(self)@,
            priors@.len() == old(self)@.len() ==> r is Ok,
            priors@.len() == old(self)@.len() && exact::<T>() ==> final(self)@ == updated(
                old(self)@,
                priors@,
                hazard,
            ),
    {
        let n = self.probs.len();
        if priors.len() != n {
            return Err(BocpdError::DimensionMismatch);
        }
        let growth_share = T::from(1u8) - hazard;
        let mut head = T::from(0u8);
        let mut i: usize = 0;
        while i < n
            invariant
                total::<T>(),
                i <= n,
                self.probs@.len() == n,
                priors@.len() == n,
                old(self)@.len() == n,
                exact::<T>() ==> growth_share == minus(one::<T>(), hazard),
                exact::<T>() ==> head == changepoint_mass(
                    old(self)@.take(i as int),
                    priors@.take(i as int),
                    hazard,
                ),
                forall|j: int|
                    0 <= j < i && exact::<T>() ==> (#[trigger] self.probs@[j]).value
                        == growth_mass(old(self)@[j], priors@[j], hazard),
                forall|j: int| i <= j < n ==> (#[trigger] self.probs@[j]).value == old(self)@[j],
            decreases n - i,
        {
            let joint = self.probs[i].value * priors[i];
            proof {
                assert(old(self)@.take(i + 1).drop_last() == old(self)@.take(i as int));
                assert(priors@.take(i + 1).drop_last() == priors@.take(i as int));
            }
            head = head + joint * hazard;
            self.probs.set(i, SparseProb::new(joint * growth_share));
            i = i + 1;
        }
        if n > 0 {
            self.probs.set(0, SparseProb::new(head));
        }
        proof {
            assert(old(self)@.take(n as int) == old(self)@);
            assert(priors@.take(n as int) == priors@);
            if exact::<T>() {
                assert(self@ =~= updated(old(self)@, priors@, hazard));
            }
        }
        Ok(())
    }

    /// Divides every weight by the sum of all. Refused, with the weights
    /// untouched, where that sum equals zero.
    pub fn normalize(&mut self) -> (r: Result<(), BocpdError>)
        requires
            total::<T>(),
        ensures
            final(self)@.len() == old(self)@.len(),
            r is Err ==> r == Err::<(), BocpdError>(BocpdError::NumericDegeneracy) && final(self)@
                == old(self)@,
            exact::<T>() && same(total_mass(old(self)@), zero::<T>()) ==> r == Err::<
                (),
                BocpdError,
            >(BocpdError::NumericDegeneracy) && final(self)@ == old(self)@,
            exact::<T>() && !same(total_mass(old(self)@), zero::<T>()) ==> r is Ok && final(self)@
                == normalized(old(self)@),
    {
        let n = self.probs.len();
        let mut sum = T::from(0u8);
        let mut i: usize = 0;
        while i < n
            invariant
                total::<T>(),
                i <= n,
                self.probs@.len() == n,
                self@ == old(self)@,
                exact::<T>() ==> sum == total_mass(self@.take(i as int)),
            decreases n - i,
        {
            proof {
                assert(self@.take(i + 1).drop_last() == self@.take(i as int));
            }
            sum = sum + self.probs[i].value;
            i = i + 1;
        }
        proof {
            assert(self@.take(n as int) == self@);
        }
        if sum == T::from(0u8) {
            return Err(BocpdError::NumericDegeneracy);
        }
        let mut k: usize = 0;
        while k < n
            invariant
                total::<T>(),
                k <= n,
                self.probs@.len() == n,
                old(self)@.len() == n,
                exact::<T>() ==> sum == total_mass(old(self)@),
                forall|j: int|
                    0 <= j < k && exact::<T>() ==> (#[trigger] self.probs@[j]).value == over(
                        old(self)@[j],
                        sum,
                    ),
                forall|j: int| k <= j < n ==> (#[trigger] self.probs@[j]).value == old(self)@[j],
            decreases n - k,
        {
            let scaled = self.probs[k].value / sum;
            self.probs.set(k, SparseProb::new(scaled));
            k = k + 1;
        }
        proof {
            if exact::<T>() {
                assert(self@ =~= normalized(old(self)@));
            }
        }
        Ok(())
    }

    /// Removes the weights that `keep` rejects by their index; the survivors
    /// stay in order.
    pub fn retain_mut<F: Fn(usize) -> bool>(&mut self, keep: F)
        requires
            forall|i: usize| i < old(self)@.len() ==> call_requires(keep, (i,)),
        ensures
            exists|mask: Seq<bool>|
                {
                    &&& mask.len() == old(self)@.len()
                    &&& forall|i: int|
                        0 <= i < mask.len() ==> call_ensures(
                            keep,
                            (i as usize,),
                            #[trigger] mask[i],
                        )
                    &&& final(self)@ == kept(old(self)@, mask)
                },
    {
        retain_by(&mut self.probs, keep);
        proof {
            let mask = choose|mask: Seq<bool>|
                {
                    &&& mask.len() == old(self).probs@.len()
                    &&& forall|i: int|
                        0 <= i < mask.len() ==> call_ensures(
                            keep,
                            (i as usize,),
                            #[trigger] mask[i],
                        )
                    &&& self.probs@ == kept(old(self).probs@, mask)
                };
            lemma_kept_values(old(self).probs@, mask);
        }
    }
}

/// Compaction commutes with reading the weights out of their slots.
proof fn lemma_kept_values<T>(slots: Seq<SparseProb<T>>, mask: Seq<bool>)
    requires
        mask.len() == slots.len(),
    ensures
        Seq::new(kept(slots, mask).len(), |i: int| kept(slots, mask)[i].value) == kept(
            Seq::new(slots.len(), |i: int| slots[i].value),
            mask,
        ),
    decreases slots.len(),
{
    let values = Seq::new(slots.len(), |i: int| slots[i].value);
    if slots.len() > 0 {
        lemma_kept_values(slots.drop_last(), mask.drop_last());
        let front = Seq::new(slots.drop_last().len(), |i: int| slots.drop_last()[i].value);
        assert(values.drop_last() == front);
        assert(Seq::new(kept(slots, mask).len(), |i: int| kept(slots, mask)[i].value) =~= kept(
            values,
            mask,
        ));
    } else {
        assert(Seq::new(kept(slots, mask).len(), |i: int| kept(slots, mask)[i].value) =~= kept(
            values,
            mask,
        ));
    }
}

/// The mass that the hypotheses hold jointly with the observation: the sum,
/// from zero and in index order, of every weight times its likelihood.
pub open spec fn joint_mass<T: Scalar>(probs: Seq<T>, priors: Seq<T>) -> T
    recommends
        priors.len() == probs.len(),
    decreases probs.len(),
{
    if probs.len() == 0 || priors.len() == 0 {
        zero::<T>()
    } else {
        plus(joint_mass(probs.drop_last(), priors.drop_last()), times(probs.last(), priors.last()))
    }
}

/// The sum, from zero and in index order, of every hypothesis' growth mass.
pub open spec fn growth_total<T: Scalar>(probs: Seq<T>, priors: Seq<T>, hazard: T) -> T
    recommends
        priors.len() == probs.len(),
    decreases probs.len(),
{
    if probs.len() == 0 || priors.len() == 0 {
        zero::<T>()
    } else {
        plus(
            growth_total(probs.drop_last(), priors.drop_last(), hazard),
            growth_mass(probs.last(), priors.last(), hazard),
        )
    }
}

/// The hazard splits the joint mass and loses none of it: in exact
/// arithmetic the changepoint mass and the growth masses add up to the joint
/// mass.
pub proof fn lemma_hazard_splits_mass<T: Scalar>(probs: Seq<T>, priors: Seq<T>, hazard: T)
    requires
        ring_laws::<T>(),
        priors.len() == probs.len(),
    ensures
        plus(changepoint_mass(probs, priors, hazard), growth_total(probs, priors, hazard))
            == joint_mass(probs, priors),
    decreases probs.len(),
{
    if probs.len() == 0 {
        lemma_plus_zero(zero::<T>());
    } else {
        lemma_hazard_splits_mass(probs.drop_last(), priors.drop_last(), hazard);
        let joint = times(probs.last(), priors.last());
        lemma_plus_interchange(
            changepoint_mass(probs.drop_last(), priors.drop_last(), hazard),
            changepoint_term(probs.last(), priors.last(), hazard),
            growth_total(probs.drop_last(), priors.drop_last(), hazard),
            growth_mass(probs.last(), priors.last(), hazard),
        );
        lemma_shares_make_whole(joint, hazard);
    }
}

/// The update conserves the mass of a population whose first slot is fresh:
/// where that slot holds no joint mass of its own, the updated weights add
/// up, in exact arithmetic, to the joint mass of before.
pub proof fn lemma_update_conserves_mass<T: Scalar>(probs: Seq<T>, priors: Seq<T>, hazard: T)
    requires
        ring_laws::<T>(),
        priors.len() == probs.len(),
        probs.len() > 0,
        times(probs[0], priors[0]) == zero::<T>(),
    ensures
        total_mass(updated(probs, priors, hazard)) == joint_mass(probs, priors),
{
    lemma_updated_prefix(probs, priors, hazard, probs.len() as int);
    assert(updated(probs, priors, hazard).take(probs.len() as int) == updated(
        probs,
        priors,
        hazard,
    ));
    assert(probs.take(probs.len() as int) == probs);
    assert(priors.take(probs.len() as int) == priors);
    lemma_hazard_splits_mass(probs, priors, hazard);
}

/// The first `k` updated weights add up to the changepoint mass and the
/// growth masses of the first `k` hypotheses, the first of which has none.
proof fn lemma_updated_prefix<T: Scalar>(probs: Seq<T>, priors: Seq<T>, hazard: T, k: int)
    requires
        ring_laws::<T>(),
        priors.len() == probs.len(),
        1 <= k <= probs.len(),
        times(probs[0], priors[0]) == zero::<T>(),
    ensures
        total_mass(updated(probs, priors, hazard).take(k)) == plus(
            changepoint_mass(probs, priors, hazard),
            growth_total(probs.take(k), priors.take(k), hazard),
        ),
    decreases k,
{
    let after = updated(probs, priors, hazard);
    let change = changepoint_mass(probs, priors, hazard);
    assert(after.take(k).drop_last() == after.take(k - 1));
    assert(probs.take(k).drop_last() == probs.take(k - 1));
    assert(priors.take(k).drop_last() == priors.take(k - 1));
    if k == 1 {
        assert(total_mass(after.take(0)) == zero::<T>());
        assert(growth_total(probs.take(0), priors.take(0), hazard) == zero::<T>());
        lemma_times_zero(minus(one::<T>(), hazard));
        assert(growth_mass(probs[0], priors[0], hazard) == zero::<T>());
        lemma_plus_zero(zero::<T>());
        lemma_plus_zero(change);
    } else {
        lemma_updated_prefix(probs, priors, hazard, k - 1);
        let grown = growth_total(probs.take(k - 1), priors.take(k - 1), hazard);
        let last = growth_mass(probs[k - 1], priors[k - 1], hazard);
        assert(after.take(k).last() == last);
        lemma_plus_associates(change, grown, last);
    }
}

/// Every weight divided by `divisor`.
pub open spec fn divided<T: Scalar>(weights: Seq<T>, divisor: T) -> Seq<T> {
    Seq::new(weights.len(), |i: int| over(weights[i], divisor))
}

/// In exact arithmetic, dividing every weight divides their sum.
pub proof fn lemma_divided_total<T: Scalar>(weights: Seq<T>, divisor: T)
    requires
        division_laws::<T>(),
        !same(divisor, zero::<T>()),
    ensures
        total_mass(divided(weights, divisor)) == over(total_mass(weights), divisor),
    decreases weights.len(),
{
    if weights.len() == 0 {
        lemma_over_itself(divisor);
    } else {
        lemma_divided_total(weights.drop_last(), divisor);
        assert(divided(weights, divisor).drop_last() == divided(weights.drop_last(), divisor));
        lemma_over_distributes(total_mass(weights.drop_last()), weights.last(), divisor);
    }
}

/// Normalised weights sum to one: in exact arithmetic, for every population
/// whose mass is not zero.
pub proof fn lemma_normalized_sums_to_one<T: Scalar>(weights: Seq<T>)
    requires
        division_laws::<T>(),
        !same(total_mass(weights), zero::<T>()),
    ensures
        total_mass(normalized(weights)) == one::<T>(),
{
    lemma_divided_total(weights, total_mass(weights));
    assert(normalized(weights) == divided(weights, total_mass(weights)));
    lemma_over_itself(total_mass(weights));
}

} // verus!
