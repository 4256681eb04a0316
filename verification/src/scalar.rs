//! The number type that all numeric code is written over, and the ordered
//! accumulations that the rest of the crate is stated in.
//!
//! The library fixes *which* operations are made and in *which order*; what one
//! operation yields is the business of the number type. A type used with the
//! library implements [`Scalar`]: every method is a function of its arguments,
//! named by the specification function beside it. Nothing else is asked, so what
//! is proved holds of rounded machine arithmetic and of exact arithmetic alike.
use vstd::prelude::*;

verus! {

/// Arithmetic on one number type.
pub trait Scalar: Copy + Sized {
    closed spec fn spec_zero() -> Self {
        arbitrary()
    }

    closed spec fn spec_one() -> Self {
        arbitrary()
    }

    closed spec fn spec_infinity() -> Self {
        arbitrary()
    }

    closed spec fn spec_neg_infinity() -> Self {
        arbitrary()
    }

    closed spec fn spec_negate(self) -> Self {
        arbitrary()
    }

    closed spec fn spec_abs(self) -> Self {
        arbitrary()
    }

    closed spec fn spec_sqrt(self) -> Self {
        arbitrary()
    }

    closed spec fn spec_exp(self) -> Self {
        arbitrary()
    }

    closed spec fn spec_ln(self) -> Self {
        arbitrary()
    }

    closed spec fn spec_ln_1p(self) -> Self {
        arbitrary()
    }

    closed spec fn spec_tanh(self) -> Self {
        arbitrary()
    }

    closed spec fn spec_log10(self) -> Self {
        arbitrary()
    }

    closed spec fn spec_floor(self) -> Self {
        arbitrary()
    }

    closed spec fn spec_ceil(self) -> Self {
        arbitrary()
    }

    closed spec fn spec_round(self) -> Self {
        arbitrary()
    }

    closed spec fn spec_plus(self, rhs: Self) -> Self {
        arbitrary()
    }

    closed spec fn spec_minus(self, rhs: Self) -> Self {
        arbitrary()
    }

    closed spec fn spec_times(self, rhs: Self) -> Self {
        arbitrary()
    }

    closed spec fn spec_over(self, rhs: Self) -> Self {
        arbitrary()
    }

    closed spec fn spec_max(self, rhs: Self) -> Self {
        arbitrary()
    }

    closed spec fn spec_min(self, rhs: Self) -> Self {
        arbitrary()
    }

    closed spec fn spec_pow(self, rhs: Self) -> Self {
        arbitrary()
    }

    closed spec fn spec_less(self, rhs: Self) -> bool {
        arbitrary()
    }

    closed spec fn spec_same(self, rhs: Self) -> bool {
        arbitrary()
    }

    closed spec fn spec_is_nan(self) -> bool {
        arbitrary()
    }

    closed spec fn spec_is_finite(self) -> bool {
        arbitrary()
    }

    closed spec fn spec_to_index(self) -> usize {
        arbitrary()
    }

    closed spec fn spec_to_byte(self) -> u8 {
        arbitrary()
    }

    closed spec fn spec_to_exponent(self) -> i32 {
        arbitrary()
    }

    closed spec fn spec_to_bits(self) -> u32 {
        arbitrary()
    }

    closed spec fn spec_from_count(count: nat) -> Self {
        arbitrary()
    }

    closed spec fn spec_from_int(value: int) -> Self {
        arbitrary()
    }

    closed spec fn spec_from_bits(bits: u32) -> Self {
        arbitrary()
    }

    closed spec fn spec_decimal(digits: int, exponent: int) -> Self {
        arbitrary()
    }

    closed spec fn spec_dot(a: Seq<Self>, b: Seq<Self>) -> Self {
        arbitrary()
    }

    closed spec fn spec_sum(a: Seq<Self>) -> Self {
        arbitrary()
    }

    /// The number 0.
    fn zero() -> (r: Self)
        ensures
            r == Self::spec_zero(),
    ;

    /// The number 1.
    fn one() -> (r: Self)
        ensures
            r == Self::spec_one(),
    ;

    /// The bound above every number.
    fn infinity() -> (r: Self)
        ensures
            r == Self::spec_infinity(),
    ;

    /// The bound below every number.
    fn neg_infinity() -> (r: Self)
        ensures
            r == Self::spec_neg_infinity(),
    ;

    /// The negation of `self`.
    fn negate(self) -> (r: Self)
        ensures
            r == self.spec_negate(),
    ;

    /// The magnitude of `self`.
    fn abs(self) -> (r: Self)
        ensures
            r == self.spec_abs(),
    ;

    /// The square root of `self`.
    fn sqrt(self) -> (r: Self)
        ensures
            r == self.spec_sqrt(),
    ;

    /// The exponential of `self`.
    fn exp(self) -> (r: Self)
        ensures
            r == self.spec_exp(),
    ;

    /// The natural logarithm of `self`.
    fn ln(self) -> (r: Self)
        ensures
            r == self.spec_ln(),
    ;

    /// The natural logarithm of one plus `self`.
    fn ln_1p(self) -> (r: Self)
        ensures
            r == self.spec_ln_1p(),
    ;

    /// The hyperbolic tangent of `self`.
    fn tanh(self) -> (r: Self)
        ensures
            r == self.spec_tanh(),
    ;

    /// The decimal logarithm of `self`.
    fn log10(self) -> (r: Self)
        ensures
            r == self.spec_log10(),
    ;

    /// The largest whole number not above `self`.
    fn floor(self) -> (r: Self)
        ensures
            r == self.spec_floor(),
    ;

    /// The smallest whole number not below `self`.
    fn ceil(self) -> (r: Self)
        ensures
            r == self.spec_ceil(),
    ;

    /// The whole number nearest to `self`.
    fn round(self) -> (r: Self)
        ensures
            r == self.spec_round(),
    ;

    /// `self + rhs`.
    fn plus(self, rhs: Self) -> (r: Self)
        ensures
            r == self.spec_plus(rhs),
    ;

    /// `self - rhs`.
    fn minus(self, rhs: Self) -> (r: Self)
        ensures
            r == self.spec_minus(rhs),
    ;

    /// `self * rhs`.
    fn times(self, rhs: Self) -> (r: Self)
        ensures
            r == self.spec_times(rhs),
    ;

    /// `self / rhs`.
    fn over(self, rhs: Self) -> (r: Self)
        ensures
            r == self.spec_over(rhs),
    ;

    /// The larger of the two.
    fn max(self, rhs: Self) -> (r: Self)
        ensures
            r == self.spec_max(rhs),
    ;

    /// The smaller of the two.
    fn min(self, rhs: Self) -> (r: Self)
        ensures
            r == self.spec_min(rhs),
    ;

    /// `self` to the power `rhs`.
    fn pow(self, rhs: Self) -> (r: Self)
        ensures
            r == self.spec_pow(rhs),
    ;

    /// Whether `self < rhs`.
    fn less(self, rhs: Self) -> (r: bool)
        ensures
            r == self.spec_less(rhs),
    ;

    /// Whether `self == rhs`.
    fn same(self, rhs: Self) -> (r: bool)
        ensures
            r == self.spec_same(rhs),
    ;

    /// Whether `self` is no number.
    fn is_nan(self) -> (r: bool)
        ensures
            r == self.spec_is_nan(),
    ;

    /// Whether `self` is a finite number.
    fn is_finite(self) -> (r: bool)
        ensures
            r == self.spec_is_finite(),
    ;

    /// `self` without its fraction, brought into the range of a machine size.
    fn to_index(self) -> (r: usize)
        ensures
            r == self.spec_to_index(),
    ;

    /// `self` without its fraction, brought into the range of a byte.
    fn to_byte(self) -> (r: u8)
        ensures
            r == self.spec_to_byte(),
    ;

    /// `self` without its fraction, brought into the range of a 32-bit integer.
    fn to_exponent(self) -> (r: i32)
        ensures
            r == self.spec_to_exponent(),
    ;

    /// The 32-bit IEEE 754 pattern of the number.
    fn to_bits(self) -> (r: u32)
        ensures
            r == self.spec_to_bits(),
    ;

    /// The number nearest to a count.
    fn from_count(count: usize) -> (r: Self)
        ensures
            r == Self::spec_from_count(count as nat),
    ;

    /// The number nearest to an integer.
    fn from_int(value: i64) -> (r: Self)
        ensures
            r == Self::spec_from_int(value as int),
    ;

    /// The number that a 32-bit IEEE 754 pattern stands for.
    fn from_bits(bits: u32) -> (r: Self)
        ensures
            r == Self::spec_from_bits(bits),
    ;

    /// The number nearest to `digits` times ten to the power `exponent`.
    fn decimal(digits: i64, exponent: i32) -> (r: Self)
        ensures
            r == Self::spec_decimal(digits as int, exponent as int),
    ;

    /// The inner product of two rows of one length, in the order of additions that
    /// the number type prefers.
    fn dot(a: &[Self], b: &[Self]) -> (r: Self)
        requires
            a@.len() == b@.len(),
        ensures
            r == Self::spec_dot(a@, b@),
    ;

    /// The sum of a row, in the order of additions that the number type prefers.
    fn sum(a: &[Self]) -> (r: Self)
        ensures
            r == Self::spec_sum(a@),
    ;
}

/// A number type whose numbers are also numbers of a wider one.
pub trait Widens<W: Scalar>: Scalar {
    closed spec fn spec_widen(self) -> W {
        arbitrary()
    }

    /// The same number in the wider type.
    fn widen(self) -> (r: W)
        ensures
            r == self.spec_widen(),
    ;
}

/// `acc` plus the first `k` products of `x` and `y`, added one after the other.
pub open spec fn mul_acc<S: Scalar>(acc: S, x: Seq<S>, y: Seq<S>, k: nat) -> S
    decreases k,
{
    if k == 0 {
        acc
    } else {
        mul_acc(acc, x, y, (k - 1) as nat).spec_plus(x[k - 1].spec_times(y[k - 1]))
    }
}

/// `acc` plus the first `k` members of `x`, added one after the other.
pub open spec fn sum_acc<S: Scalar>(acc: S, x: Seq<S>, k: nat) -> S
    decreases k,
{
    if k == 0 {
        acc
    } else {
        sum_acc(acc, x, (k - 1) as nat).spec_plus(x[k - 1])
    }
}

/// Adds the products of two rows to `acc`, from the first to the last.
pub fn accumulate_products<S: Scalar>(acc: S, x: &[S], y: &[S]) -> (r: S)
    requires
        x@.len() == y@.len(),
    ensures
        r == mul_acc(acc, x@, y@, x@.len()),
{
    let mut sum = acc;
    for k in 0..x.len()
        invariant
            x@.len() == y@.len(),
            sum == mul_acc(acc, x@, y@, k as nat),
    {
        sum = sum.plus(x[k].times(y[k]));
    }
    sum
}

/// Adds the members of a row to `acc`, from the first to the last.
pub fn accumulate<S: Scalar>(acc: S, x: &[S]) -> (r: S)
    ensures
        r == sum_acc(acc, x@, x@.len()),
{
    let mut sum = acc;
    for k in 0..x.len()
        invariant
            sum == sum_acc(acc, x@, k as nat),
    {
        sum = sum.plus(x[k]);
    }
    sum
}

} // verus!
