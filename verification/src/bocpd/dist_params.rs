//! The population of hypotheses: one parameter record per candidate run
//! length, index-aligned with the posterior weights.
use crate::bocpd::beta_cache::{
    extends, lemma_lookup_found, lemma_lookup_stable, lemma_stores_stable, lookup, stores,
    BetaCache, CachedBeta,
};
use crate::bocpd::prune::{kept, retain_by};
use crate::scalar::{ordered, same, same_is_equal, Scalar};
use vstd::prelude::*;

verus! {

/// A hypothesis about the current run: the sufficient statistics of a
/// conjugate model, which can say how likely an observation is under them
/// and take the observation in. The density is a Student's t, whose
/// normalising constant needs one value of the Beta function; that value
/// depends on the shape pair alone and is handed to `density`, so that it can
/// come from a cache.
pub trait Hypothesis<T>: Sized {
    /// The two shape parameters at which this record needs the Beta function.
    fn shape(&self) -> (T, T);

    /// The Beta function at a shape pair.
    fn beta(shape_a: T, shape_b: T) -> T;

    /// The predictive density of `point`, given the Beta function at this
    /// record's shape pair.
    fn density(&self, point: T, beta: T) -> T;

    /// The record of the same run after one more observation.
    fn absorb(&self, point: T) -> Self;
}

/// `out` is a likelihood of `point` under `record` that was computed with a
/// fresh evaluation of the Beta function.
pub open spec fn scores<P: Hypothesis<T>, T>(record: P, point: T, out: T) -> bool {
    exists|shape: (T, T), beta: T|
        {
            &&& #[trigger] call_ensures(P::shape, (&record,), shape)
            &&& #[trigger] call_ensures(P::beta, (shape.0, shape.1), beta)
            &&& call_ensures(P::density, (&record, point, beta), out)
        }
}

/// `out` is a likelihood of `point` under `record` that was computed with
/// the value `beta`, which the cache stores. Where comparisons are exact and
/// the record's shape pair equals itself (as every number but a NaN does),
/// `beta` is what the cache remembers for that pair.
pub open spec fn scores_with<P: Hypothesis<T>, T: Scalar>(
    record: P,
    point: T,
    entries: Seq<CachedBeta<T>>,
    shape: (T, T),
    beta: T,
    out: T,
) -> bool {
    &&& call_ensures(P::shape, (&record,), shape)
    &&& call_ensures(P::density, (&record, point, beta), out)
    &&& stores(entries, beta)
    &&& ordered::<T>() && same(shape.0, shape.0) && same(shape.1, shape.1) ==> lookup(
        entries,
        shape.0,
        shape.1,
    ) == Some(beta)
}

/// `out` is a likelihood of `point` under `record` that was computed with
/// the Beta value of the cache.
pub open spec fn scores_cached<P: Hypothesis<T>, T: Scalar>(
    record: P,
    point: T,
    entries: Seq<CachedBeta<T>>,
    out: T,
) -> bool {
    exists|shape: (T, T), beta: T| #[trigger] scores_with(record, point, entries, shape, beta, out)
}

/// Every entry from `from` on holds an evaluation of `P`'s Beta function at
/// its own shape pair.
pub open spec fn evaluated_from<P: Hypothesis<T>, T>(entries: Seq<CachedBeta<T>>, from: int) -> bool {
    forall|k: int|
        from <= k < entries.len() ==> call_ensures(
            P::beta,
            ((#[trigger] entries[k]).shape_a, entries[k].shape_b),
            entries[k].value,
        )
}

/// The parameter records of a population of hypotheses, shortest run length
/// first.
pub struct DistParams<P> {
    records: Vec<P>,
}

impl<P> View for DistParams<P> {
    type V = Seq<P>;

    /// The records, in order.
    closed spec fn view(&self) -> Seq<P> {
        self.records@
    }
}

impl<P> DistParams<P> {
    pub fn new(records: Vec<P>) -> (r: Self)
        ensures
            r@ == records@,
    {
        Self { records }
    }

    pub fn len(&self) -> (n: usize)
        ensures
            n == self@.len(),
    {
        self.records.len()
    }

    /// Read-only access to every record, in order.
    pub fn iter(&self) -> (r: &[P])
        ensures
            r@ == self@,
    {
        self.records.as_slice()
    }

    /// Lets a fresh hypothesis enter in front of the population.
    pub fn prepend(&mut self, record: P)
        ensures
            final(self)@ == seq![record] + old(self)@,
    {
        self.records.insert(0, record);
        assert(self@ =~= seq![record] + old(self)@);
    }

    /// Removes the records that `keep` rejects by their index; the survivors
    /// stay in order.
    pub fn retain_mut<F: Fn(usize) -> bool>(&mut self, keep: F)
        requires
            forall|i: usize| i < old(self)@.len() ==> call_requires(keep, (i,)),
        ensures
            exists|mask: Seq<bool>|
                {
                    &&& mask.len() == old(self)@.len()
                    &&& forall|i: int|
                        0 <= i < mask.len() ==> call_ensures(
                            keep,
                            (i as usize,),
                            #[trigger] mask[i],
                        )
                    &&& final(self)@ == kept(old(self)@, mask)
                },
    {
        retain_by(&mut self.records, keep);
    }

    /// Grows the population by one observation: every hypothesis takes
    /// `point` in, its run now one observation longer, and `fresh` enters in
    /// front as the hypothesis of a run that starts now.
    pub fn grow<T: Copy>(&mut self, point: T, fresh: P) where P: Hypothesis<T>
        ensures
            final(self)@.len() == old(self)@.len() + 1,
            final(self)@[0] == fresh,
            forall|i: int|
                0 <= i < old(self)@.len() ==> call_ensures(
                    P::absorb,
                    (&old(self)@[i], point),
                    #[trigger] final(self)@[i + 1],
                ),
    {
        let n = self.records.len();
        let mut i: usize = 0;
        while i < n
            invariant
                i <= n,
                n == self.records@.len(),
                n == old(self)@.len(),
                forall|j: int|
                    0 <= j < i ==> call_ensures(
                        P::absorb,
                        (&old(self)@[j], point),
                        #[trigger] self.records@[j],
                    ),
                forall|j: int| i <= j < n ==> self.records@[j] == old(self)@[j],
            decreases n - i,
        {
            let grown = self.records[i].absorb(point);
            self.records.set(i, grown);
            i = i + 1;
        }
        self.records.insert(0, fresh);
    }

    /// The likelihood of `point` under every hypothesis, in order. Each one
    /// is computed with a fresh evaluation of the Beta function.
    pub fn priors<T: Copy>(&self, point: T) -> (out: Vec<T>) where P: Hypothesis<T>
        ensures
            out@.len() == self@.len(),
            forall|i: int| 0 <= i < out@.len() ==> scores(self@[i], point, #[trigger] out@[i]),
    {
        let n = self.records.len();
        let mut out: Vec<T> = Vec::new();
        let mut i: usize = 0;
        while i < n
            invariant
                i <= n,
                n == self.records@.len(),
                out@.len() == i,
                forall|j: int| 0 <= j < i ==> scores(self@[j], point, #[trigger] out@[j]),
            decreases n - i,
        {
            let shape = self.records[i].shape();
            let beta = P::beta(shape.0, shape.1);
            let likelihood = self.records[i].density(point, beta);
            out.push(likelihood);
            i = i + 1;
        }
        out
    }

    /// The likelihood of `point` under every hypothesis, in order. Each Beta
    /// value is taken from `cache`, which evaluates the Beta function only for
    /// a shape pair that it does not hold yet.
    pub fn priors_cached<T: Scalar>(&self, point: T, cache: &mut BetaCache<T>) -> (out: Vec<
        T,
    >) where P: Hypothesis<T>
        ensures
            out@.len() == self@.len(),
            extends(final(cache)@, old(cache)@),
            evaluated_from::<P, T>(final(cache)@, old(cache)@.len() as int),
            forall|i: int|
                0 <= i < out@.len() ==> scores_cached(
                    self@[i],
                    point,
                    final(cache)@,
                    #[trigger] out@[i],
                ),
    {
        let n = self.records.len();
        let mut out: Vec<T> = Vec::new();
        let mut i: usize = 0;
        proof {
            assert(cache@.take(cache@.len() as int) == cache@);
        }
        while i < n
            invariant
                i <= n,
                n == self.records@.len(),
                out@.len() == i,
                extends(cache@, old(cache)@),
                evaluated_from::<P, T>(cache@, old(cache)@.len() as int),
                forall|j: int|
                    0 <= j < i ==> scores_cached(self@[j], point, cache@, #[trigger] out@[j]),
            decreases n - i,
        {
            let ghost before = cache@;
            let shape = self.records[i].shape();
            let beta = cache.lookup_or_compute(shape.0, shape.1, P::beta);
            let likelihood = self.records[i].density(point, beta);
            proof {
                lemma_extends_twice(cache@, before, old(cache)@);
                assert(scores_with(self@[i as int], point, cache@, shape, beta, likelihood));
                assert forall|j: int| 0 <= j < i implies scores_cached(
                    self@[j],
                    point,
                    cache@,
                    #[trigger] out@[j],
                ) by {
                    lemma_scores_cached_stable(self@[j], point, before, cache@, out@[j]);
                }
            }
            out.push(likelihood);
            i = i + 1;
        }
        out
    }
}

/// Being an extension carries over two steps.
pub proof fn lemma_extends_twice<E>(long: Seq<E>, mid: Seq<E>, short: Seq<E>)
    requires
        extends(long, mid),
        extends(mid, short),
    ensures
        extends(long, short),
{
    assert(long.take(short.len() as int) =~= short) by {
        assert forall|j: int| 0 <= j < short.len() implies long[j] == short[j] by {
            assert(long.take(mid.len() as int)[j] == long[j]);
            assert(mid.take(short.len() as int)[j] == mid[j]);
        }
    }
}

/// A likelihood that was computed with a cache's value stays one when the
/// cache grows.
pub proof fn lemma_scores_cached_stable<P: Hypothesis<T>, T: Scalar>(
    record: P,
    point: T,
    shorter: Seq<CachedBeta<T>>,
    longer: Seq<CachedBeta<T>>,
    out: T,
)
    requires
        extends(longer, shorter),
        scores_cached(record, point, shorter, out),
    ensures
        scores_cached(record, point, longer, out),
{
    let (shape, beta) = choose|shape: (T, T), beta: T| #[trigger]
        scores_with(record, point, shorter, shape, beta, out);
    lemma_stores_stable(shorter, longer, beta);
    if ordered::<T>() && same(shape.0, shape.0) && same(shape.1, shape.1) {
        lemma_lookup_stable(shorter, longer, shape.0, shape.1);
    }
    assert(scores_with(record, point, longer, shape, beta, out));
}

/// A likelihood that was computed with a cache's value is one that a fresh
/// evaluation could have given: where every entry of the cache holds an
/// evaluation of the Beta function at its own shape pair, and the scalar's
/// equality is identity, the cached computation returns nothing that the
/// uncached one could not return.
pub proof fn lemma_cached_scores_are_scores<P: Hypothesis<T>, T: Scalar>(
    record: P,
    point: T,
    entries: Seq<CachedBeta<T>>,
    out: T,
)
    requires
        ordered::<T>(),
        same_is_equal::<T>(),
        evaluated_from::<P, T>(entries, 0),
        scores_cached(record, point, entries, out),
    ensures
        scores(record, point, out),
{
    let (shape, beta) = choose|shape: (T, T), beta: T| #[trigger]
        scores_with(record, point, entries, shape, beta, out);
    assert(same(shape.0, shape.0) && same(shape.1, shape.1));
    let at = lemma_lookup_found(entries, shape.0, shape.1, 0);
    assert(same(entries[at].shape_a, shape.0));
    assert(same(entries[at].shape_b, shape.1));
    assert(call_ensures(P::beta, (shape.0, shape.1), beta));
}

} // verus!
