//! Two-sided cumulative-sum detectors with an adaptively tracked mean.
//!
//! Each tracker keeps a positive and a negative accumulator of deviations
//! and a running-mean estimate, each with a lag of one step. `update` takes
//! in one observation; `predict` reads the alarm statistic and, where it
//! exceeds the threshold, clears the current accumulators.
pub use crate::last_two::LastTwo;
use crate::scalar::{
    absolute, exact, greater, keep_negative, keep_positive, larger, less, magnitude, maximum,
    minus, neg_part, one, over, plus, pos_part, times, total, two, zero, Scalar,
};
use vstd::prelude::*;

verus! {

/// The alarm statistic of a pair of accumulators: `max(cp.curr, |cn.curr|)`.
pub open spec fn statistic<T: Scalar>(cp: LastTwo<T>, cn: LastTwo<T>) -> T {
    larger(cp.curr, magnitude(cn.curr))
}

/// An accumulator with its current slot cleared and its previous slot kept.
pub open spec fn cleared<T: Scalar>(acc: LastTwo<T>) -> LastTwo<T> {
    LastTwo { prev: acc.prev, curr: zero::<T>() }
}

/// An accumulator after one more value.
pub open spec fn pushed<T>(acc: LastTwo<T>, value: T) -> LastTwo<T> {
    LastTwo { prev: acc.curr, curr: value }
}

/// Zero is neither below nor above itself.
pub open spec fn zero_is_neutral<T: Scalar>() -> bool {
    !less(zero::<T>(), zero::<T>()) && !greater(zero::<T>(), zero::<T>())
}

/// What a [`CusumV0`] holds.
pub struct V0State<T> {
    pub mean: T,
    pub variance: T,
    pub mu: LastTwo<T>,
    pub cp: LastTwo<T>,
    pub cn: LastTwo<T>,
    /// The mean-shift estimate recorded by the last update.
    pub d: T,
    pub alpha: T,
    pub threshold: T,
    /// `1 + alpha / 2`
    pub scalar: T,
    /// `alpha / variance`
    pub weight_no_diff: T,
}

impl<T: Scalar> V0State<T> {
    /// The derived constants are what the parameters give.
    pub open spec fn wf(self) -> bool {
        &&& self.scalar == plus(one::<T>(), over(self.alpha, two::<T>()))
        &&& self.weight_no_diff == over(self.alpha, self.variance)
    }

    /// The state of a fresh tracker: no shift, empty accumulators, both slots
    /// of the running mean at `mu`.
    pub open spec fn initial(mean: T, variance: T, mu: T, alpha: T, threshold: T) -> Self {
        V0State {
            mean,
            variance,
            mu: LastTwo { prev: mu, curr: mu },
            cp: LastTwo { prev: zero::<T>(), curr: zero::<T>() },
            cn: LastTwo { prev: zero::<T>(), curr: zero::<T>() },
            d: zero::<T>(),
            alpha,
            threshold,
            scalar: plus(one::<T>(), over(alpha, two::<T>())),
            weight_no_diff: over(alpha, variance),
        }
    }

    /// The weight of one observation: the recorded shift times `alpha / variance`.
    pub open spec fn weight(self) -> T {
        times(self.d, self.weight_no_diff)
    }

    /// The positive accumulator after `point`: `max(0, cp + w (point - d scalar))`
    /// on top of the value that was current before.
    pub open spec fn next_cp(self, point: T) -> LastTwo<T> {
        pushed(
            self.cp,
            pos_part(
                plus(self.cp.curr, times(self.weight(), minus(point, times(self.d, self.scalar)))),
            ),
        )
    }

    /// The negative accumulator after `point`: `min(0, cn - w (point + d scalar))`
    /// on top of the value that was current before.
    pub open spec fn next_cn(self, point: T) -> LastTwo<T> {
        pushed(
            self.cn,
            neg_part(
                minus(self.cn.curr, times(self.weight(), plus(point, times(self.d, self.scalar)))),
            ),
        )
    }

    /// The state after one observation. Both accumulators use the shift and
    /// the accumulator values of before the step; the shift for the next step
    /// is the current running mean minus the mean; the running mean then
    /// takes in `(1 - alpha)` times its previous slot.
    pub open spec fn updated(self, point: T) -> Self {
        V0State {
            cp: self.next_cp(point),
            cn: self.next_cn(point),
            d: minus(self.mu.curr, self.mean),
            mu: pushed(self.mu, times(minus(one::<T>(), self.alpha), self.mu.prev)),
            ..self
        }
    }

    /// The parameters and the constants derived from them are the same.
    pub open spec fn same_setup(self, other: Self) -> bool {
        &&& other.mean == self.mean
        &&& other.variance == self.variance
        &&& other.alpha == self.alpha
        &&& other.threshold == self.threshold
        &&& other.scalar == self.scalar
        &&& other.weight_no_diff == self.weight_no_diff
    }

    /// `after` is one step on from this state: every lagged buffer has
    /// shifted by one, whatever it took in.
    pub open spec fn steps_to(self, after: Self) -> bool {
        &&& self.same_setup(after)
        &&& after.cp.prev == self.cp.curr
        &&& after.cn.prev == self.cn.curr
        &&& after.mu.prev == self.mu.curr
    }

    /// `after` differs from this state in the current slot of the two
    /// accumulators at most.
    pub open spec fn rests_as(self, after: Self) -> bool {
        &&& self.same_setup(after)
        &&& after.d == self.d
        &&& after.mu == self.mu
        &&& after.cp.prev == self.cp.prev
        &&& after.cn.prev == self.cn.prev
    }

    pub open spec fn statistic(self) -> T {
        statistic(self.cp, self.cn)
    }

    /// The statistic exceeds the threshold.
    pub open spec fn alarmed(self) -> bool {
        greater(self.statistic(), self.threshold)
    }

    /// The state with the current slot of both accumulators cleared.
    pub open spec fn reset(self) -> Self {
        V0State { cp: cleared(self.cp), cn: cleared(self.cn), ..self }
    }

    /// The state that a query leaves: reset where the alarm fires, untouched
    /// where it does not.
    pub open spec fn after_predict(self) -> Self {
        if self.alarmed() {
            self.reset()
        } else {
            self
        }
    }
}

/// A CUSUM tracker whose observation weight follows the drift of its running
/// mean.
pub struct CusumV0<T> {
    state: V0State<T>,
}

impl<T> View for CusumV0<T> {
    type V = V0State<T>;

    closed spec fn view(&self) -> V0State<T> {
        self.state
    }
}

impl<T: Scalar> CusumV0<T> {
    pub fn new(mean: T, variance: T, mu: T, alpha: T, threshold: T) -> (r: Self)
        requires
            total::<T>(),
        ensures
            r@.mean == mean,
            r@.variance == variance,
            r@.alpha == alpha,
            r@.threshold == threshold,
            r@.mu == (LastTwo { prev: mu, curr: mu }),
            exact::<T>() ==> r@ == V0State::initial(mean, variance, mu, alpha, threshold),
            exact::<T>() ==> r@.wf(),
    {
        let d = T::from(0u8);
        let scalar = T::from(1u8) + alpha / T::from(2u8);
        let weight_no_diff = alpha / variance;
        let cp = LastTwo::<T>::default();
        let cn = LastTwo::<T>::default();
        Self {
            state: V0State {
                mean,
                variance,
                mu: LastTwo::new(mu, mu),
                cp,
                cn,
                d,
                alpha,
                threshold,
                scalar,
                weight_no_diff,
            },
        }
    }

    pub fn mean(&self) -> (r: T)
        ensures
            r == self@.mean,
    {
        self.state.mean
    }

    /// Overrides the recorded mean-shift estimate.
    pub fn set_d(&mut self, d: T)
        ensures
            final(self)@ == (V0State { d, ..old(self)@ }),
    {
        self.state.d = d;
    }

    /// Takes in one observation.
    pub fn update(&mut self, point: T)
        requires
            total::<T>(),
        ensures
            old(self)@.steps_to(final(self)@),
            exact::<T>() ==> final(self)@ == old(self)@.updated(point),
    {
        let weight = self.state.d * self.state.weight_no_diff;
        self.update_cp(point, weight);
        self.update_cn(point, weight);
        self.set_d(*self.state.mu.curr() - self.mean());
        let decayed = (T::from(1u8) - self.state.alpha) * *self.state.mu.prev();
        self.state.mu.append(decayed);
    }

    /// Returns the alarm statistic. Where it exceeds the threshold, the
    /// current slot of both accumulators is cleared; the value returned is the
    /// one of before the reset. The tracker does not read `_point`.
    pub fn predict(&mut self, _point: T) -> (out: T)
        requires
            total::<T>(),
        ensures
            old(self)@.rests_as(final(self)@),
            exact::<T>() ==> out == old(self)@.statistic(),
            exact::<T>() ==> final(self)@ == old(self)@.after_predict(),
    {
        let out = maximum(*self.state.cp.curr(), absolute(*self.state.cn.curr()));
        if out > self.state.threshold {
            self.reset_current_shifts()
        }
        out
    }

    fn reset_current_shifts(&mut self)
        ensures
            old(self)@.rests_as(final(self)@),
            exact::<T>() ==> final(self)@ == old(self)@.reset(),
    {
        self.state.cp.set_curr(T::from(0u8));
        self.state.cn.set_curr(T::from(0u8));
    }

    fn update_cp(&mut self, point: T, weight: T)
        requires
            total::<T>(),
        ensures
            final(self)@ == (V0State {
                cp: pushed(old(self)@.cp, final(self)@.cp.curr),
                ..old(self)@
            }),
            exact::<T>() && weight == old(self)@.weight() ==> final(self)@.cp == old(
                self,
            )@.next_cp(point),
    {
        let value = keep_positive(
            *self.state.cp.curr() + weight * (point - self.state.d * self.state.scalar),
        );
        self.state.cp.append(value);
    }

    fn update_cn(&mut self, point: T, weight: T)
        requires
            total::<T>(),
        ensures
            final(self)@ == (V0State {
                cn: pushed(old(self)@.cn, final(self)@.cn.curr),
                ..old(self)@
            }),
            exact::<T>() && weight == old(self)@.weight() ==> final(self)@.cn == old(
                self,
            )@.next_cn(point),
    {
        let value = keep_negative(
            *self.state.cn.curr() - weight * (point + self.state.d * self.state.scalar),
        );
        self.state.cn.append(value);
    }
}

/// What a [`CusumV1`] holds.
pub struct V1State<T> {
    pub mean: T,
    pub variance: T,
    pub mu: LastTwo<T>,
    pub cp: LastTwo<T>,
    pub cn: LastTwo<T>,
    pub alpha: T,
    pub threshold: T,
}

impl<T: Scalar> V1State<T> {
    /// The state of a fresh tracker: every lagged buffer at zero, the
    /// threshold `std_dev * h`, the variance `std_dev * std_dev`.
    pub open spec fn initial(mean: T, std_dev: T, h: T, alpha: T) -> Self {
        V1State {
            mean,
            variance: times(std_dev, std_dev),
            mu: LastTwo { prev: zero::<T>(), curr: zero::<T>() },
            cp: LastTwo { prev: zero::<T>(), curr: zero::<T>() },
            cn: LastTwo { prev: zero::<T>(), curr: zero::<T>() },
            alpha,
            threshold: times(std_dev, h),
        }
    }

    /// `(mu.prev - mean) / variance`
    pub open spec fn dev_shift(self) -> T {
        over(minus(self.mu.prev, self.mean), self.variance)
    }

    /// `mu.prev + (alpha * mu.prev + mean) / 2`
    pub open spec fn target(self) -> T {
        plus(self.mu.prev, over(plus(times(self.alpha, self.mu.prev), self.mean), two::<T>()))
    }

    /// The running mean after `point`: `alpha * mu.prev - (1 - alpha) * point`
    /// on top of the value that was current before.
    pub open spec fn next_mu(self, point: T) -> LastTwo<T> {
        pushed(
            self.mu,
            minus(times(self.alpha, self.mu.prev), times(minus(one::<T>(), self.alpha), point)),
        )
    }

    /// The positive accumulator after `point`, for the given shift and target:
    /// `max(0, cp + dev_shift (point - target))`.
    pub open spec fn next_cp(self, point: T, dev_shift: T, target: T) -> LastTwo<T> {
        pushed(self.cp, pos_part(plus(self.cp.curr, times(dev_shift, minus(point, target)))))
    }

    /// The negative accumulator after `point`, for the given shift and target:
    /// `min(0, cn - dev_shift (point + target))`.
    pub open spec fn next_cn(self, point: T, dev_shift: T, target: T) -> LastTwo<T> {
        pushed(self.cn, neg_part(minus(self.cn.curr, times(dev_shift, plus(point, target)))))
    }

    /// The state after one observation. Shift and target are taken from the
    /// running mean as it stood before the step, and each accumulator is read
    /// before it is written.
    pub open spec fn updated(self, point: T) -> Self {
        V1State {
            mu: self.next_mu(point),
            cp: self.next_cp(point, self.dev_shift(), self.target()),
            cn: self.next_cn(point, self.dev_shift(), self.target()),
            ..self
        }
    }

    /// The parameters and the constants derived from them are the same.
    pub open spec fn same_setup(self, other: Self) -> bool {
        &&& other.mean == self.mean
        &&& other.variance == self.variance
        &&& other.alpha == self.alpha
        &&& other.threshold == self.threshold
    }

    /// `after` is one step on from this state: every lagged buffer has
    /// shifted by one, whatever it took in.
    pub open spec fn steps_to(self, after: Self) -> bool {
        &&& self.same_setup(after)
        &&& after.cp.prev == self.cp.curr
        &&& after.cn.prev == self.cn.curr
        &&& after.mu.prev == self.mu.curr
    }

    /// `after` differs from this state in the current slot of the two
    /// accumulators at most.
    pub open spec fn rests_as(self, after: Self) -> bool {
        &&& self.same_setup(after)
        &&& after.mu == self.mu
        &&& after.cp.prev == self.cp.prev
        &&& after.cn.prev == self.cn.prev
    }

    pub open spec fn statistic(self) -> T {
        statistic(self.cp, self.cn)
    }

    /// The statistic exceeds the threshold.
    pub open spec fn alarmed(self) -> bool {
        greater(self.statistic(), self.threshold)
    }

    /// The state with the current slot of both accumulators cleared.
    pub open spec fn reset(self) -> Self {
        V1State { cp: cleared(self.cp), cn: cleared(self.cn), ..self }
    }

    /// The state that a query leaves: reset where the alarm fires, untouched
    /// where it does not.
    pub open spec fn after_predict(self) -> Self {
        if self.alarmed() {
            self.reset()
        } else {
            self
        }
    }
}

/// A CUSUM tracker whose threshold is a multiple of the standard deviation
/// and whose running mean takes in the observations themselves.
pub struct CusumV1<T> {
    state: V1State<T>,
}

impl<T> View for CusumV1<T> {
    type V = V1State<T>;

    closed spec fn view(&self) -> V1State<T> {
        self.state
    }
}

impl<T: Scalar> CusumV1<T> {
    pub fn new(mean: T, std_dev: T, h: T, alpha: T) -> (r: Self)
        requires
            total::<T>(),
        ensures
            r@.mean == mean,
            r@.alpha == alpha,
            exact::<T>() ==> r@ == V1State::initial(mean, std_dev, h, alpha),
    {
        let cp = LastTwo::new(T::from(0u8), T::from(0u8));
        let cn = LastTwo::new(T::from(0u8), T::from(0u8));
        let mu = LastTwo::new(T::from(0u8), T::from(0u8));
        let threshold = std_dev * h;
        let variance = std_dev * std_dev;
        Self { state: V1State { mean, variance, mu, cp, cn, alpha, threshold } }
    }

    /// Takes in one observation.
    pub fn update(&mut self, point: T)
        requires
            total::<T>(),
        ensures
            old(self)@.steps_to(final(self)@),
            exact::<T>() ==> final(self)@ == old(self)@.updated(point),
    {
        let dev_shift = (*self.state.mu.prev() - self.state.mean) / self.state.variance;
        let mean_mean = (self.state.alpha * self.state.mu.prev + self.state.mean) / T::from(2u8);
        let target = *self.state.mu.prev() + mean_mean;
        self.update_mu(point);
        self.update_cp(point, dev_shift, target);
        self.update_cn(point, dev_shift, target);
    }

    /// Returns the alarm statistic. Where it exceeds the threshold, the
    /// current slot of both accumulators is cleared; the value returned is the
    /// one of before the reset. The tracker does not read `_point`.
    pub fn predict(&mut self, _point: T) -> (out: T)
        requires
            total::<T>(),
        ensures
            old(self)@.rests_as(final(self)@),
            exact::<T>() ==> out == old(self)@.statistic(),
            exact::<T>() ==> final(self)@ == old(self)@.after_predict(),
    {
        let out = maximum(*self.state.cp.curr(), absolute(*self.state.cn.curr()));
        if out > self.state.threshold {
            self.reset_current_shifts()
        }
        out
    }

    fn reset_current_shifts(&mut self)
        ensures
            old(self)@.rests_as(final(self)@),
            exact::<T>() ==> final(self)@ == old(self)@.reset(),
    {
        self.state.cp.set_curr(T::from(0u8));
        self.state.cn.set_curr(T::from(0u8));
    }

    fn update_mu(&mut self, point: T)
        requires
            total::<T>(),
        ensures
            final(self)@ == (V1State {
                mu: pushed(old(self)@.mu, final(self)@.mu.curr),
                ..old(self)@
            }),
            exact::<T>() ==> final(self)@.mu == old(self)@.next_mu(point),
    {
        let value = self.state.alpha * *self.state.mu.prev() - (T::from(1u8) - self.state.alpha)
            * point;
        self.state.mu.append(value);
    }

    fn update_cp(&mut self, point: T, dev_shift: T, target: T)
        requires
            total::<T>(),
        ensures
            final(self)@ == (V1State {
                cp: pushed(old(self)@.cp, final(self)@.cp.curr),
                ..old(self)@
            }),
            exact::<T>() ==> final(self)@.cp == old(self)@.next_cp(point, dev_shift, target),
    {
        let value = keep_positive(*self.state.cp.curr() + dev_shift * (point - target));
        self.state.cp.append(value);
    }

    fn update_cn(&mut self, point: T, dev_shift: T, target: T)
        requires
            total::<T>(),
        ensures
            final(self)@ == (V1State {
                cn: pushed(old(self)@.cn, final(self)@.cn.curr),
                ..old(self)@
            }),
            exact::<T>() ==> final(self)@.cn == old(self)@.next_cn(point, dev_shift, target),
    {
        let value = keep_negative(*self.state.cn.curr() - dev_shift * (point + target));
        self.state.cn.append(value);
    }
}

/// Cleared accumulators give the statistic zero.
pub proof fn lemma_cleared_statistic<T: Scalar>(cp: LastTwo<T>, cn: LastTwo<T>)
    requires
        zero_is_neutral::<T>(),
    ensures
        statistic(cleared(cp), cleared(cn)) == zero::<T>(),
{
}

/// Two queries with no update in between. Where the first raises no alarm,
/// it leaves the state as it was: the second returns the same value and
/// raises no alarm either. Where the first raises the alarm, the second
/// returns zero, and raises the alarm again only under a threshold below
/// zero. Either way the state after the first query is one that further
/// queries return one and the same value from.
pub proof fn lemma_v0_predict_twice<T: Scalar>(s: V0State<T>)
    requires
        zero_is_neutral::<T>(),
    ensures
        !s.alarmed() ==> s.after_predict() == s,
        !s.alarmed() ==> s.after_predict().statistic() == s.statistic()
            && !s.after_predict().alarmed(),
        s.alarmed() ==> s.after_predict().statistic() == zero::<T>(),
        s.alarmed() ==> (s.after_predict().alarmed() <==> greater(zero::<T>(), s.threshold)),
        s.after_predict().after_predict().statistic() == s.after_predict().statistic(),
{
    lemma_cleared_statistic(s.cp, s.cn);
    lemma_cleared_statistic(s.reset().cp, s.reset().cn);
}

/// Two queries with no update in between. Where the first raises no alarm,
/// it leaves the state as it was: the second returns the same value and
/// raises no alarm either. Where the first raises the alarm, the second
/// returns zero, and raises the alarm again only under a threshold below
/// zero. Either way the state after the first query is one that further
/// queries return one and the same value from.
pub proof fn lemma_v1_predict_twice<T: Scalar>(s: V1State<T>)
    requires
        zero_is_neutral::<T>(),
    ensures
        !s.alarmed() ==> s.after_predict() == s,
        !s.alarmed() ==> s.after_predict().statistic() == s.statistic()
            && !s.after_predict().alarmed(),
        s.alarmed() ==> s.after_predict().statistic() == zero::<T>(),
        s.alarmed() ==> (s.after_predict().alarmed() <==> greater(zero::<T>(), s.threshold)),
        s.after_predict().after_predict().statistic() == s.after_predict().statistic(),
{
    lemma_cleared_statistic(s.cp, s.cn);
    lemma_cleared_statistic(s.reset().cp, s.reset().cn);
}

} // verus!
