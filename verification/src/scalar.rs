//! The scalar domain of the detectors.
//!
//! Every detector is generic over its number type. A scalar is any `Copy` type
//! with the four arithmetic operators, an order, and a conversion from small
//! integer literals; double-precision floats are the intended one.
//!
//! Two properties of a scalar type run through the contracts. [`total`] says
//! that its operators never fail; the functions that compute ask for it.
//! [`exact`] says that its operators are functions of their operands; where it
//! holds, the contracts give every result as a formula over the operators,
//! which fixes the order of all operations and leaves open only how a single
//! sum, product or quotient is rounded. What does not depend on arithmetic
//! (lengths, which slot moves where, when an error is returned) is stated
//! without that condition.
use core::ops::{Add, Div, Mul, Sub};
use vstd::prelude::*;
use vstd::std_specs::cmp::{PartialEqSpec, PartialOrdIs, PartialOrdSpec};
use vstd::std_specs::convert::FromSpec;
use vstd::std_specs::ops::{AddSpec, DivSpec, MulSpec, SubSpec};

verus! {

/// The bounds a number type needs to serve as a scalar. It adds no method:
/// every type with these operators is a scalar.
pub trait Scalar: Copy + PartialOrd + From<u8> + Add<Output = Self> + Sub<Output = Self> + Mul<
    Output = Self,
> + Div<Output = Self> {

}

impl<
    T: Copy + PartialOrd + From<u8> + Add<Output = T> + Sub<Output = T> + Mul<Output = T> + Div<
        Output = T,
    >,
> Scalar for T {

}

/// The four operators of `T` accept every pair of operands: no sum, difference,
/// product or quotient can fail. Saturating and IEEE arithmetic are total;
/// overflow-checked machine integers are not.
pub open spec fn total<T: Scalar>() -> bool {
    &&& forall|a: T, b: T| #[trigger] a.add_req(b)
    &&& forall|a: T, b: T| #[trigger] a.sub_req(b)
    &&& forall|a: T, b: T| #[trigger] a.mul_req(b)
    &&& forall|a: T, b: T| #[trigger] a.div_req(b)
}

/// Comparisons on `T` return what their specification says.
pub open spec fn ordered<T: Scalar>() -> bool {
    T::obeys_eq_spec() && T::obeys_partial_cmp_spec()
}

/// Conversion of an integer literal to `T` returns what its specification says.
pub open spec fn literals_exact<T: Scalar>() -> bool {
    <T as FromSpec<u8>>::obeys_from_spec()
}

/// Every operation on `T` that the detectors use is a function of its operands:
/// it returns what the operator's specification says.
pub open spec fn exact<T: Scalar>() -> bool {
    &&& T::obeys_add_spec()
    &&& T::obeys_sub_spec()
    &&& T::obeys_mul_spec()
    &&& T::obeys_div_spec()
    &&& ordered::<T>()
    &&& literals_exact::<T>()
}

/// The scalar that the literal `n` denotes.
pub open spec fn literal<T: Scalar>(n: u8) -> T {
    T::from_spec(n)
}

pub open spec fn zero<T: Scalar>() -> T {
    literal::<T>(0)
}

pub open spec fn one<T: Scalar>() -> T {
    literal::<T>(1)
}

pub open spec fn two<T: Scalar>() -> T {
    literal::<T>(2)
}

pub open spec fn plus<T: Scalar>(a: T, b: T) -> T {
    a.add_spec(b)
}

pub open spec fn minus<T: Scalar>(a: T, b: T) -> T {
    a.sub_spec(b)
}

pub open spec fn times<T: Scalar>(a: T, b: T) -> T {
    a.mul_spec(b)
}

pub open spec fn over<T: Scalar>(a: T, b: T) -> T {
    a.div_spec(b)
}

/// `a < b`
pub open spec fn less<T: Scalar>(a: T, b: T) -> bool {
    a.is_lt(&b)
}

/// `a > b`
pub open spec fn greater<T: Scalar>(a: T, b: T) -> bool {
    a.is_gt(&b)
}

/// `a >= b`
pub open spec fn at_least<T: Scalar>(a: T, b: T) -> bool {
    a.is_ge(&b)
}

/// `a == b` as the scalar's own equality decides it
pub open spec fn same<T: Scalar>(a: T, b: T) -> bool {
    a.eq_spec(&b)
}

/// The scalar's own equality holds of two values exactly where they are the
/// same value.
pub open spec fn same_is_equal<T: Scalar>() -> bool {
    forall|a: T, b: T| #[trigger] same(a, b) <==> a == b
}

/// `max(0, x)`: `x` where it is greater than zero, zero otherwise (also where
/// `x` does not compare with zero).
pub open spec fn pos_part<T: Scalar>(x: T) -> T {
    if greater(x, zero::<T>()) {
        x
    } else {
        zero::<T>()
    }
}

/// `min(0, x)`: `x` where it is less than zero, zero otherwise (also where `x`
/// does not compare with zero).
pub open spec fn neg_part<T: Scalar>(x: T) -> T {
    if less(x, zero::<T>()) {
        x
    } else {
        zero::<T>()
    }
}

/// `|x|`: `0 - x` where `x` is less than zero, `x` otherwise.
pub open spec fn magnitude<T: Scalar>(x: T) -> T {
    if less(x, zero::<T>()) {
        minus(zero::<T>(), x)
    } else {
        x
    }
}

/// `max(a, b)`: `b` where it is greater than `a`, `a` otherwise.
pub open spec fn larger<T: Scalar>(a: T, b: T) -> T {
    if greater(b, a) {
        b
    } else {
        a
    }
}

pub fn keep_positive<T: Scalar>(x: T) -> (r: T)
    ensures
        exact::<T>() ==> r == pos_part(x),
{
    let z = T::from(0u8);
    if x > z {
        x
    } else {
        z
    }
}

pub fn keep_negative<T: Scalar>(x: T) -> (r: T)
    ensures
        exact::<T>() ==> r == neg_part(x),
{
    let z = T::from(0u8);
    if x < z {
        x
    } else {
        z
    }
}

pub fn absolute<T: Scalar>(x: T) -> (r: T)
    requires
        total::<T>(),
    ensures
        exact::<T>() ==> r == magnitude(x),
{
    let z = T::from(0u8);
    if x < z {
        z - x
    } else {
        x
    }
}

pub fn maximum<T: Scalar>(a: T, b: T) -> (r: T)
    ensures
        exact::<T>() ==> r == larger(a, b),
{
    if b > a {
        b
    } else {
        a
    }
}

/// Sums and products of `T` follow the laws of a commutative ring: the
/// arithmetic of exact numbers. Rounded arithmetic follows them only up to
/// its rounding.
#[verifier::opaque]
pub open spec fn ring_laws<T: Scalar>() -> bool {
    &&& forall|a: T, b: T| #[trigger] plus(a, b) == plus(b, a)
    &&& forall|a: T, b: T, c: T| #[trigger] plus(plus(a, b), c) == plus(a, plus(b, c))
    &&& forall|a: T| #[trigger] plus(zero::<T>(), a) == a
    &&& forall|a: T, b: T| #[trigger] plus(minus(a, b), b) == a
    &&& forall|a: T, b: T| #[trigger] times(a, b) == times(b, a)
    &&& forall|a: T, b: T, c: T| #[trigger] times(times(a, b), c) == times(a, times(b, c))
    &&& forall|a: T| #[trigger] times(a, one::<T>()) == a
    &&& forall|a: T| #[trigger] times(a, zero::<T>()) == zero::<T>()
    &&& forall|a: T, b: T, c: T| #[trigger]
        times(a, plus(b, c)) == plus(times(a, b), times(a, c))
}

/// Quotients of `T` by a divisor other than zero follow the laws of a field.
#[verifier::opaque]
pub open spec fn division_laws<T: Scalar>() -> bool {
    &&& forall|c: T| !same(c, zero::<T>()) ==> #[trigger] over(c, c) == one::<T>()
    &&& forall|c: T| !same(c, zero::<T>()) ==> #[trigger] over(zero::<T>(), c) == zero::<T>()
    &&& forall|a: T, b: T, c: T|
        !same(c, zero::<T>()) ==> #[trigger] over(plus(a, b), c) == plus(over(a, c), over(b, c))
}

/// `a + b == b + a`
pub proof fn lemma_plus_commutes<T: Scalar>(a: T, b: T)
    requires
        ring_laws::<T>(),
    ensures
        plus(a, b) == plus(b, a),
{
    reveal(ring_laws);
}

/// `(a + b) + c == a + (b + c)`
pub proof fn lemma_plus_associates<T: Scalar>(a: T, b: T, c: T)
    requires
        ring_laws::<T>(),
    ensures
        plus(plus(a, b), c) == plus(a, plus(b, c)),
{
    reveal(ring_laws);
}

/// `0 + a == a` and `a + 0 == a`
pub proof fn lemma_plus_zero<T: Scalar>(a: T)
    requires
        ring_laws::<T>(),
    ensures
        plus(zero::<T>(), a) == a,
        plus(a, zero::<T>()) == a,
{
    reveal(ring_laws);
}

/// `(a - b) + b == a`
pub proof fn lemma_minus_cancels<T: Scalar>(a: T, b: T)
    requires
        ring_laws::<T>(),
    ensures
        plus(minus(a, b), b) == a,
{
    reveal(ring_laws);
}

/// `a * b == b * a`
pub proof fn lemma_times_commutes<T: Scalar>(a: T, b: T)
    requires
        ring_laws::<T>(),
    ensures
        times(a, b) == times(b, a),
{
    reveal(ring_laws);
}

/// `(a * b) * c == a * (b * c)`
pub proof fn lemma_times_associates<T: Scalar>(a: T, b: T, c: T)
    requires
        ring_laws::<T>(),
    ensures
        times(times(a, b), c) == times(a, times(b, c)),
{
    reveal(ring_laws);
}

/// `a * 1 == a`
pub proof fn lemma_times_one<T: Scalar>(a: T)
    requires
        ring_laws::<T>(),
    ensures
        times(a, one::<T>()) == a,
{
    reveal(ring_laws);
}

/// `a * 0 == 0` and `0 * a == 0`
pub proof fn lemma_times_zero<T: Scalar>(a: T)
    requires
        ring_laws::<T>(),
    ensures
        times(a, zero::<T>()) == zero::<T>(),
        times(zero::<T>(), a) == zero::<T>(),
{
    reveal(ring_laws);
}

/// `a * (b + c) == a * b + a * c`
pub proof fn lemma_times_distributes<T: Scalar>(a: T, b: T, c: T)
    requires
        ring_laws::<T>(),
    ensures
        times(a, plus(b, c)) == plus(times(a, b), times(a, c)),
{
    reveal(ring_laws);
}

/// `c / c == 1` and `0 / c == 0` for a divisor other than zero
pub proof fn lemma_over_itself<T: Scalar>(c: T)
    requires
        division_laws::<T>(),
        !same(c, zero::<T>()),
    ensures
        over(c, c) == one::<T>(),
        over(zero::<T>(), c) == zero::<T>(),
{
    reveal(division_laws);
}

/// `(a + b) / c == a / c + b / c` for a divisor other than zero
pub proof fn lemma_over_distributes<T: Scalar>(a: T, b: T, c: T)
    requires
        division_laws::<T>(),
        !same(c, zero::<T>()),
    ensures
        over(plus(a, b), c) == plus(over(a, c), over(b, c)),
{
    reveal(division_laws);
}

/// `(a + b) + (c + d) == (a + c) + (b + d)`
pub proof fn lemma_plus_interchange<T: Scalar>(a: T, b: T, c: T, d: T)
    requires
        ring_laws::<T>(),
    ensures
        plus(plus(a, b), plus(c, d)) == plus(plus(a, c), plus(b, d)),
{
    lemma_plus_associates(a, b, plus(c, d));
    lemma_plus_associates(b, c, d);
    lemma_plus_commutes(b, c);
    lemma_plus_associates(c, b, d);
    lemma_plus_associates(a, c, plus(b, d));
}

/// `a * (k * b) == k * (a * b)`
pub proof fn lemma_times_swap<T: Scalar>(a: T, k: T, b: T)
    requires
        ring_laws::<T>(),
    ensures
        times(a, times(k, b)) == times(k, times(a, b)),
{
    lemma_times_associates(a, k, b);
    lemma_times_commutes(a, k);
    lemma_times_associates(k, a, b);
}

/// `x * h + x * (1 - h) == x`: a share and its complement make the whole.
pub proof fn lemma_shares_make_whole<T: Scalar>(x: T, h: T)
    requires
        ring_laws::<T>(),
    ensures
        plus(times(x, h), times(x, minus(one::<T>(), h))) == x,
{
    let rest = minus(one::<T>(), h);
    lemma_minus_cancels(one::<T>(), h);
    lemma_plus_commutes(h, rest);
    lemma_times_distributes(x, h, rest);
    lemma_times_one(x);
}

} // verus!
