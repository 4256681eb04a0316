//! Exact arithmetic on whole numbers modulo two to the 32.
//!
//! Sums, differences and products are exact, so whatever the laws of the library say of exact
//! arithmetic holds of runs on this type. Division multiplies by the inverse, which odd
//! numbers have. The order is that of the representatives, which are whole numbers, so
//! rounding changes nothing; functions that have no counterpart among whole numbers give the
//! first terms of their series, and roots their argument.
use crate::laws::ring::exact;
use crate::laws::solvers::bounds_hold;
use crate::scalar::{mul_acc, sum_acc, Scalar, Widens};
use vstd::arithmetic::div_mod::{lemma_mul_mod_noop_left, lemma_mul_mod_noop_right};
use vstd::prelude::*;

verus! {

/// A whole number modulo two to the 32.
#[derive(Debug, Clone, Copy, PartialEq, Eq, Structural)]
pub struct Modular {
    pub value: u32,
}

/// The representative of a whole number.
pub open spec fn modular(n: int) -> Modular {
    Modular { value: (n % 0x1_0000_0000) as u32 }
}

/// A power, with `n` factors.
pub open spec fn power(base: Modular, n: nat) -> Modular
    decreases n,
{
    if n == 0 {
        modular(1)
    } else {
        modular(power(base, (n - 1) as nat).value * base.value)
    }
}

/// The inverse of an odd number: a power of it, as two to the 30 factors yield one.
pub open spec fn inverse(n: Modular) -> Modular {
    power(n, 0x3FFF_FFFF)
}

proof fn times_shifts(a: int, b: int, c: int)
    ensures
        ((a * b) % 0x1_0000_0000) * c % 0x1_0000_0000 == a * ((b * c) % 0x1_0000_0000) % 0x1_0000_0000,
{
    lemma_mul_mod_noop_left(a * b, c, 0x1_0000_0000);
    lemma_mul_mod_noop_right(a, b * c, 0x1_0000_0000);
    assert((a * b) * c == a * (b * c)) by (nonlinear_arith);
}

proof fn times_spreads(a: int, b: int, c: int)
    ensures
        a * ((b + c) % 0x1_0000_0000) % 0x1_0000_0000 == ((a * b) % 0x1_0000_0000 + (a * c) % 0x1_0000_0000)
            % 0x1_0000_0000,
{
    lemma_mul_mod_noop_right(a, b + c, 0x1_0000_0000);
    assert(a * (b + c) == a * b + a * c) by (nonlinear_arith);
}

/// Powers of one base multiply by adding their numbers of factors.
proof fn power_adds(base: Modular, m: nat, n: nat)
    ensures
        power(base, m + n) == modular(power(base, m).value * power(base, n).value),
    decreases n,
{
    let p = power(base, m);
    if n == 0 {
        assert(p.value * 1 == p.value);
    } else {
        power_adds(base, m, (n - 1) as nat);
        let q = power(base, (n - 1) as nat);
        times_shifts(p.value as int, q.value as int, base.value as int);
    }
}

/// The sum of the first `k` members.
pub open spec fn member_sum(a: Seq<Modular>, k: nat) -> Modular
    decreases k,
{
    if k == 0 {
        modular(0)
    } else {
        modular(member_sum(a, (k - 1) as nat).value + a[k - 1].value)
    }
}

/// The sum of the first `k` products.
pub open spec fn product_sum(a: Seq<Modular>, b: Seq<Modular>, k: nat) -> Modular
    decreases k,
{
    if k == 0 {
        modular(0)
    } else {
        modular(product_sum(a, b, (k - 1) as nat).value + modular(a[k - 1].value * b[k - 1].value).value)
    }
}

impl Modular {
    /// The representative of a product.
    fn product(self, rhs: Modular) -> (r: Modular)
        ensures
            r == modular(self.value * rhs.value),
    {
        assert(self.value * rhs.value <= 0xFFFF_FFFF * 0xFFFF_FFFF) by (nonlinear_arith)
            requires
                0 <= self.value <= 0xFFFF_FFFF,
                0 <= rhs.value <= 0xFFFF_FFFF,
        ;
        Modular { value: ((self.value as u64 * rhs.value as u64) % 0x1_0000_0000) as u32 }
    }

    /// A power, by repeated squaring.
    fn raised(self, n: u32) -> (r: Modular)
        ensures
            r == power(self, n as nat),
        decreases n,
    {
        if n == 0 {
            Modular { value: 1 }
        } else {
            let half = self.raised(n / 2);
            let square = half.product(half);
            proof {
                power_adds(self, (n / 2) as nat, (n / 2) as nat);
            }
            if n % 2 == 0 {
                square
            } else {
                square.product(self)
            }
        }
    }

    /// The inverse of an odd number.
    fn inverted(self) -> (r: Modular)
        ensures
            r == inverse(self),
    {
        self.raised(0x3FFF_FFFF)
    }
}

/// Ten to a power, or the inverse of ten to a power, times a whole number.
pub open spec fn scaled_decimal(digits: int, exponent: int) -> Modular {
    if exponent >= 0 {
        modular(modular(digits).value * power(modular(10), exponent as nat).value)
    } else {
        modular(modular(digits).value * power(inverse(modular(10)), (-exponent) as nat).value)
    }
}

impl Scalar for Modular {
    open spec fn spec_zero() -> Self {
        modular(0)
    }

    open spec fn spec_one() -> Self {
        modular(1)
    }

    open spec fn spec_infinity() -> Self {
        modular(0xFFFF_FFFF)
    }

    open spec fn spec_neg_infinity() -> Self {
        modular(0)
    }

    open spec fn spec_negate(self) -> Self {
        modular(-self.value)
    }

    open spec fn spec_abs(self) -> Self {
        self
    }

    open spec fn spec_sqrt(self) -> Self {
        self
    }

    open spec fn spec_exp(self) -> Self {
        modular(1 + self.value)
    }

    open spec fn spec_ln(self) -> Self {
        modular(self.value - 1)
    }

    open spec fn spec_ln_1p(self) -> Self {
        self
    }

    open spec fn spec_tanh(self) -> Self {
        self
    }

    open spec fn spec_log10(self) -> Self {
        modular(self.value - 1)
    }

    open spec fn spec_floor(self) -> Self {
        self
    }

    open spec fn spec_ceil(self) -> Self {
        self
    }

    open spec fn spec_round(self) -> Self {
        self
    }

    open spec fn spec_plus(self, rhs: Self) -> Self {
        modular(self.value + rhs.value)
    }

    open spec fn spec_minus(self, rhs: Self) -> Self {
        modular(self.value - rhs.value)
    }

    open spec fn spec_times(self, rhs: Self) -> Self {
        modular(self.value * rhs.value)
    }

    open spec fn spec_over(self, rhs: Self) -> Self {
        modular(self.value * inverse(rhs).value)
    }

    open spec fn spec_max(self, rhs: Self) -> Self {
        if self.value < rhs.value {
            rhs
        } else {
            self
        }
    }

    open spec fn spec_min(self, rhs: Self) -> Self {
        if rhs.value < self.value {
            rhs
        } else {
            self
        }
    }

    open spec fn spec_pow(self, rhs: Self) -> Self {
        power(self, rhs.value as nat)
    }

    open spec fn spec_less(self, rhs: Self) -> bool {
        self.value < rhs.value
    }

    open spec fn spec_same(self, rhs: Self) -> bool {
        self.value == rhs.value
    }

    open spec fn spec_is_nan(self) -> bool {
        false
    }

    open spec fn spec_is_finite(self) -> bool {
        true
    }

    open spec fn spec_to_index(self) -> usize {
        self.value as usize
    }

    open spec fn spec_to_byte(self) -> u8 {
        if self.value > 255 {
            255
        } else {
            self.value as u8
        }
    }

    open spec fn spec_to_exponent(self) -> i32 {
        if self.value > 0x7FFF_FFFF {
            0x7FFF_FFFF
        } else {
            self.value as i32
        }
    }

    open spec fn spec_to_bits(self) -> u32 {
        self.value
    }

    open spec fn spec_from_count(count: nat) -> Self {
        modular(count as int)
    }

    open spec fn spec_from_int(value: int) -> Self {
        modular(value)
    }

    open spec fn spec_from_bits(bits: u32) -> Self {
        Modular { value: bits }
    }

    open spec fn spec_decimal(digits: int, exponent: int) -> Self {
        scaled_decimal(digits, exponent)
    }

    open spec fn spec_dot(a: Seq<Self>, b: Seq<Self>) -> Self {
        product_sum(a, b, a.len())
    }

    open spec fn spec_sum(a: Seq<Self>) -> Self {
        member_sum(a, a.len())
    }

    fn zero() -> (r: Self) {
        Modular { value: 0 }
    }

    fn one() -> (r: Self) {
        Modular { value: 1 }
    }

    fn infinity() -> (r: Self) {
        Modular { value: 0xFFFF_FFFF }
    }

    fn neg_infinity() -> (r: Self) {
        Modular { value: 0 }
    }

    fn negate(self) -> (r: Self) {
        Modular { value: ((0x1_0000_0000 - self.value as u64) % 0x1_0000_0000) as u32 }
    }

    fn abs(self) -> (r: Self) {
        self
    }

    fn sqrt(self) -> (r: Self) {
        self
    }

    fn exp(self) -> (r: Self) {
        Modular { value: ((self.value as u64 + 1) % 0x1_0000_0000) as u32 }
    }

    fn ln(self) -> (r: Self) {
        Modular { value: ((self.value as u64 + 0xFFFF_FFFF) % 0x1_0000_0000) as u32 }
    }

    fn ln_1p(self) -> (r: Self) {
        self
    }

    fn tanh(self) -> (r: Self) {
        self
    }

    fn log10(self) -> (r: Self) {
        Modular { value: ((self.value as u64 + 0xFFFF_FFFF) % 0x1_0000_0000) as u32 }
    }

    fn floor(self) -> (r: Self) {
        self
    }

    fn ceil(self) -> (r: Self) {
        self
    }

    fn round(self) -> (r: Self) {
        self
    }

    fn plus(self, rhs: Self) -> (r: Self) {
        Modular { value: ((self.value as u64 + rhs.value as u64) % 0x1_0000_0000) as u32 }
    }

    fn minus(self, rhs: Self) -> (r: Self) {
        Modular {
            value: ((self.value as u64 + (0x1_0000_0000 - rhs.value as u64)) % 0x1_0000_0000) as u32,
        }
    }

    fn times(self, rhs: Self) -> (r: Self) {
        self.product(rhs)
    }

    fn over(self, rhs: Self) -> (r: Self) {
        self.product(rhs.inverted())
    }

    fn max(self, rhs: Self) -> (r: Self) {
        if self.value < rhs.value {
            rhs
        } else {
            self
        }
    }

    fn min(self, rhs: Self) -> (r: Self) {
        if rhs.value < self.value {
            rhs
        } else {
            self
        }
    }

    fn pow(self, rhs: Self) -> (r: Self) {
        self.raised(rhs.value)
    }

    fn less(self, rhs: Self) -> (r: bool) {
        self.value < rhs.value
    }

    fn same(self, rhs: Self) -> (r: bool) {
        self.value == rhs.value
    }

    fn is_nan(self) -> (r: bool) {
        false
    }

    fn is_finite(self) -> (r: bool) {
        true
    }

    fn to_index(self) -> (r: usize) {
        self.value as usize
    }

    fn to_byte(self) -> (r: u8) {
        if self.value > 255 {
            255
        } else {
            self.value as u8
        }
    }

    fn to_exponent(self) -> (r: i32) {
        if self.value > 0x7FFF_FFFF {
            0x7FFF_FFFF
        } else {
            self.value as i32
        }
    }

    fn to_bits(self) -> (r: u32) {
        self.value
    }

    fn from_count(count: usize) -> (r: Self) {
        Modular { value: (count as u64 % 0x1_0000_0000) as u32 }
    }

    fn from_int(value: i64) -> (r: Self) {
        let shifted = (value as i128 + 0x1_0000_0000_0000_0000) as u128;
        Modular { value: (shifted % 0x1_0000_0000) as u32 }
    }

    fn from_bits(bits: u32) -> (r: Self) {
        Modular { value: bits }
    }

    fn decimal(digits: i64, exponent: i32) -> (r: Self) {
        let ten = Modular { value: 10 };
        let factor = if exponent >= 0 {
            ten.raised(exponent as u32)
        } else {
            ten.inverted().raised((-(exponent as i64)) as u32)
        };
        Self::from_int(digits).product(factor)
    }

    fn dot(a: &[Self], b: &[Self]) -> (r: Self) {
        let mut sum: u32 = 0;
        for k in 0..a.len()
            invariant
                a@.len() == b@.len(),
                sum == product_sum(a@, b@, k as nat).value,
        {
            let p = a[k].product(b[k]);
            sum = ((sum as u64 + p.value as u64) % 0x1_0000_0000) as u32;
        }
        Modular { value: sum }
    }

    fn sum(a: &[Self]) -> (r: Self) {
        let mut sum: u32 = 0;
        for k in 0..a.len()
            invariant
                sum == member_sum(a@, k as nat).value,
        {
            sum = ((sum as u64 + a[k].value as u64) % 0x1_0000_0000) as u32;
        }
        Modular { value: sum }
    }
}

impl Widens<Modular> for Modular {
    open spec fn spec_widen(self) -> Modular {
        self
    }

    fn widen(self) -> (r: Modular) {
        self
    }
}

proof fn product_sum_accumulates(a: Seq<Modular>, b: Seq<Modular>, k: nat)
    ensures
        product_sum(a, b, k) == mul_acc(Modular::spec_zero(), a, b, k),
    decreases k,
{
    if k > 0 {
        product_sum_accumulates(a, b, (k - 1) as nat);
    }
}

proof fn member_sum_accumulates(a: Seq<Modular>, k: nat)
    ensures
        member_sum(a, k) == sum_acc(Modular::spec_zero(), a, k),
    decreases k,
{
    if k > 0 {
        member_sum_accumulates(a, (k - 1) as nat);
    }
}

/// Arithmetic modulo two to the 32 is exact.
pub proof fn modular_is_exact()
    ensures
        exact::<Modular>(),
{
    reveal(exact);
    assert forall|x: Seq<Modular>, y: Seq<Modular>| #[trigger]
        Modular::spec_dot(x, y) == mul_acc(Modular::spec_zero(), x, y, x.len()) by {
        product_sum_accumulates(x, y, x.len());
    }
    assert forall|x: Seq<Modular>| #[trigger] Modular::spec_sum(x) == sum_acc(
        Modular::spec_zero(),
        x,
        x.len(),
    ) by {
        member_sum_accumulates(x, x.len());
    }
    assert forall|a: Modular, b: Modular| #[trigger] a.spec_times(b) == b.spec_times(a) by {
        assert(a.value * b.value == b.value * a.value) by (nonlinear_arith);
    }
    assert forall|a: Modular, b: Modular, c: Modular| #[trigger]
        a.spec_times(b).spec_times(c) == a.spec_times(b.spec_times(c)) by {
        times_shifts(a.value as int, b.value as int, c.value as int);
    }
    assert forall|a: Modular, b: Modular, c: Modular| #[trigger]
        a.spec_times(b.spec_plus(c)) == a.spec_times(b).spec_plus(a.spec_times(c)) by {
        times_spreads(a.value as int, b.value as int, c.value as int);
    }
    assert forall|a: Modular| #[trigger] a.spec_times(Modular::spec_one()) == a by {
        assert(a.value * 1 == a.value);
    }
}

/// The order of the representatives keeps bounds.
pub proof fn modular_keeps_bounds()
    ensures
        bounds_hold::<Modular>(),
{
}

} // verus!
