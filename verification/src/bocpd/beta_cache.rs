//! Memoised values of the Beta function, keyed by its two shape parameters.
use crate::scalar::{ordered, same, Scalar};
use vstd::prelude::*;

verus! {

/// One remembered evaluation.
pub struct CachedBeta<T> {
    pub shape_a: T,
    pub shape_b: T,
    pub value: T,
}

impl<T: Copy> Clone for CachedBeta<T> {
    fn clone(&self) -> (r: Self)
        ensures
            r == *self,
    {
        *self
    }
}

impl<T: Copy> Copy for CachedBeta<T> {

}

/// The entry was stored for the shape pair `(a, b)`, as the scalar's own
/// equality decides it.
pub open spec fn keyed_by<T: Scalar>(entry: CachedBeta<T>, a: T, b: T) -> bool {
    same(entry.shape_a, a) && same(entry.shape_b, b)
}

/// The value of the first entry at or after `from` that is keyed by `(a, b)`.
pub open spec fn lookup_from<T: Scalar>(entries: Seq<CachedBeta<T>>, a: T, b: T, from: int) -> Option<
    T,
>
    decreases entries.len() - from,
{
    if from < 0 || from >= entries.len() {
        None
    } else if keyed_by(entries[from], a, b) {
        Some(entries[from].value)
    } else {
        lookup_from(entries, a, b, from + 1)
    }
}

/// What the cache remembers for the shape pair `(a, b)`, if anything.
pub open spec fn lookup<T: Scalar>(entries: Seq<CachedBeta<T>>, a: T, b: T) -> Option<T> {
    lookup_from(entries, a, b, 0)
}

/// Some entry holds the value `value`.
pub open spec fn stores<T>(entries: Seq<CachedBeta<T>>, value: T) -> bool {
    exists|k: int| 0 <= k < entries.len() && (#[trigger] entries[k]).value == value
}

/// `longer` holds every entry of `shorter`, in the same places.
pub open spec fn extends<E>(longer: Seq<E>, shorter: Seq<E>) -> bool {
    shorter.len() <= longer.len() && longer.take(shorter.len() as int) == shorter
}

/// A cache of Beta-function values. It only ever grows: an entry, once
/// stored, is never changed or evicted.
pub struct BetaCache<T> {
    entries: Vec<CachedBeta<T>>,
}

impl<T> View for BetaCache<T> {
    type V = Seq<CachedBeta<T>>;

    /// The entries, oldest first.
    closed spec fn view(&self) -> Seq<CachedBeta<T>> {
        self.entries@
    }
}

impl<T: Scalar> BetaCache<T> {
    pub fn new() -> (r: Self)
        ensures
            r@.len() == 0,
    {
        Self { entries: Vec::new() }
    }

    pub fn len(&self) -> (n: usize)
        ensures
            n == self@.len(),
    {
        self.entries.len()
    }

    /// The remembered value for `(shape_a, shape_b)`; where there is none,
    /// the value that `compute` gives for the pair, which is then
    /// remembered.
    pub fn lookup_or_compute<F: FnOnce(T, T) -> T>(
        &mut self,
        shape_a: T,
        shape_b: T,
        compute: F,
    ) -> (value: T)
        requires
            call_requires(compute, (shape_a, shape_b)),
        ensures
            extends(final(self)@, old(self)@),
            final(self)@ == old(self)@ || final(self)@ == old(self)@.push(
                CachedBeta { shape_a, shape_b, value },
            ),
            stores(final(self)@, value),
            final(self)@ != old(self)@ ==> call_ensures(compute, (shape_a, shape_b), value),
            ordered::<T>() ==> (final(self)@ == old(self)@ <==> lookup(
                old(self)@,
                shape_a,
                shape_b,
            ) is Some),
            ordered::<T>() && final(self)@ == old(self)@ ==> lookup(old(self)@, shape_a, shape_b)
                == Some(value),
            ordered::<T>() && same(shape_a, shape_a) && same(shape_b, shape_b) ==> lookup(
                final(self)@,
                shape_a,
                shape_b,
            ) == Some(value),
    {
        let n = self.entries.len();
        let mut i: usize = 0;
        while i < n
            invariant
                i <= n,
                n == self.entries@.len(),
                self@ == old(self)@,
                ordered::<T>() ==> lookup(self@, shape_a, shape_b) == lookup_from(
                    self@,
                    shape_a,
                    shape_b,
                    i as int,
                ),
                ordered::<T>() ==> forall|j: int|
                    0 <= j < i ==> !keyed_by(#[trigger] self@[j], shape_a, shape_b),
            decreases n - i,
        {
            let entry = self.entries[i];
            if entry.shape_a == shape_a && entry.shape_b == shape_b {
                proof {
                    assert(self@.take(n as int) == old(self)@);
                    assert(old(self)@[i as int].value == entry.value);
                    if ordered::<T>() {
                        lemma_lookup_first(self@, shape_a, shape_b, i as int);
                    }
                }
                return entry.value;
            }
            i = i + 1;
        }
        let value = compute(shape_a, shape_b);
        self.entries.push(CachedBeta { shape_a, shape_b, value });
        proof {
            assert(self@.take(n as int) == old(self)@);
            assert(self@[n as int].value == value);
            if ordered::<T>() && same(shape_a, shape_a) && same(shape_b, shape_b) {
                lemma_lookup_first(self@, shape_a, shape_b, n as int);
            }
        }
        value
    }
}

/// Where no entry before `at` is keyed by `(a, b)` and the one at `at` is,
/// the lookup gives that entry's value.
pub proof fn lemma_lookup_first<T: Scalar>(entries: Seq<CachedBeta<T>>, a: T, b: T, at: int)
    requires
        0 <= at < entries.len(),
        keyed_by(entries[at], a, b),
        forall|j: int| 0 <= j < at ==> !keyed_by(#[trigger] entries[j], a, b),
    ensures
        lookup(entries, a, b) == Some(entries[at].value),
{
    lemma_lookup_skips(entries, a, b, 0, at);
}

proof fn lemma_lookup_skips<T: Scalar>(entries: Seq<CachedBeta<T>>, a: T, b: T, from: int, at: int)
    requires
        0 <= from <= at < entries.len(),
        forall|j: int| from <= j < at ==> !keyed_by(#[trigger] entries[j], a, b),
    ensures
        lookup_from(entries, a, b, from) == lookup_from(entries, a, b, at),
    decreases at - from,
{
    if from < at {
        lemma_lookup_skips(entries, a, b, from + 1, at);
    }
}

/// A value that the cache remembers comes from one of its entries, the first
/// that is keyed by the pair.
pub proof fn lemma_lookup_found<T: Scalar>(entries: Seq<CachedBeta<T>>, a: T, b: T, from: int) -> (at:
    int)
    requires
        0 <= from,
        lookup_from(entries, a, b, from) is Some,
    ensures
        from <= at < entries.len(),
        keyed_by(entries[at], a, b),
        forall|j: int| from <= j < at ==> !keyed_by(#[trigger] entries[j], a, b),
        lookup_from(entries, a, b, from) == Some(entries[at].value),
    decreases entries.len() - from,
{
    if keyed_by(entries[from], a, b) {
        from
    } else {
        lemma_lookup_found(entries, a, b, from + 1)
    }
}

/// What a cache remembers it goes on remembering, whatever is stored later:
/// equal shape pairs are answered with the identical value for good.
pub proof fn lemma_lookup_stable<T: Scalar>(
    shorter: Seq<CachedBeta<T>>,
    longer: Seq<CachedBeta<T>>,
    a: T,
    b: T,
)
    requires
        extends(longer, shorter),
        lookup(shorter, a, b) is Some,
    ensures
        lookup(longer, a, b) == lookup(shorter, a, b),
{
    let at = lemma_lookup_found(shorter, a, b, 0);
    assert forall|j: int| 0 <= j <= at implies longer[j] == shorter[j] by {
        assert(longer.take(shorter.len() as int)[j] == longer[j]);
    }
    lemma_lookup_first(longer, a, b, at);
}

/// What a cache stores it goes on storing.
pub proof fn lemma_stores_stable<T>(shorter: Seq<CachedBeta<T>>, longer: Seq<CachedBeta<T>>, value: T)
    requires
        extends(longer, shorter),
        stores(shorter, value),
    ensures
        stores(longer, value),
{
    let k = choose|k: int| 0 <= k < shorter.len() && (#[trigger] shorter[k]).value == value;
    assert(longer.take(shorter.len() as int)[k] == longer[k]);
}

} // verus!
