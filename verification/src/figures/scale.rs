//! Logarithmic scales.
use super::color::{clamp_unit, unit};
use crate::scalar::Scalar;
use vstd::prelude::*;

verus! {

/// Logarithmic normalization from the smallest positive value to the largest, at least one
/// decade wide.
#[derive(Debug, Clone, Copy)]
pub struct LogNorm<S> {
    pub ln_min: S,
    pub ln_max: S,
    pub vmin: S,
    pub vmax: S,
}

/// Smallest positive and largest of the first `i` values.
pub open spec fn extent_of<S: Scalar>(values: Seq<S>, i: nat) -> (S, S)
    decreases i,
{
    if i == 0 {
        (S::spec_infinity(), S::spec_neg_infinity())
    } else {
        let (vmin, vmax) = extent_of(values, (i - 1) as nat);
        let v = values[i - 1];
        (
            if S::spec_zero().spec_less(v) && v.spec_less(vmin) {
                v
            } else {
                vmin
            },
            if vmax.spec_less(v) {
                v
            } else {
                vmax
            },
        )
    }
}

/// The scale of some values. Without a positive one it starts at one trillionth.
pub open spec fn norm_of<S: Scalar>(values: Seq<S>) -> LogNorm<S> {
    let (least, most) = extent_of(values, values.len());
    let vmin = if least.spec_is_finite() {
        least
    } else {
        S::spec_decimal(1, -12)
    };
    let vmax = most.spec_max(vmin.spec_times(S::spec_from_int(10)));
    LogNorm { ln_min: vmin.spec_ln(), ln_max: vmax.spec_ln(), vmin, vmax }
}

impl<S: Scalar> LogNorm<S> {
    pub fn from_values(values: &[S]) -> (r: Self)
        ensures
            r == norm_of(values@),
    {
        let zero = S::zero();
        let mut least = S::infinity();
        let mut most = S::neg_infinity();
        for i in 0..values.len()
            invariant
                zero == S::spec_zero(),
                (least, most) == extent_of(values@, i as nat),
        {
            let v = values[i];
            if zero.less(v) && v.less(least) {
                least = v;
            }
            if most.less(v) {
                most = v;
            }
        }
        let vmin = if least.is_finite() {
            least
        } else {
            S::decimal(1, -12)
        };
        let vmax = most.max(vmin.times(S::from_int(10)));
        LogNorm { ln_min: vmin.ln(), ln_max: vmax.ln(), vmin, vmax }
    }

    /// Where a value lies on the scale, from 0 to 1.
    pub open spec fn place(self, v: S) -> S {
        unit(
            v.spec_max(self.vmin).spec_ln().spec_minus(self.ln_min).spec_over(
                self.ln_max.spec_minus(self.ln_min),
            ),
        )
    }

    /// Maps a value to the range from 0 to 1; values at or below the least stay at 0.
    pub fn t(&self, v: S) -> (r: S)
        ensures
            r == self.place(v),
    {
        clamp_unit(v.max(self.vmin).ln().minus(self.ln_min).over(self.ln_max.minus(self.ln_min)))
    }

    /// The least exponent of a decade on the scale.
    pub open spec fn first_decade(self) -> int {
        self.vmin.spec_log10().spec_ceil().spec_to_exponent() as int
    }

    /// The greatest exponent of a decade on the scale.
    pub open spec fn last_decade(self) -> int {
        self.vmax.spec_log10().spec_floor().spec_to_exponent() as int
    }

    /// The decades on the scale, each with its place.
    pub open spec fn ticks(self) -> Seq<(S, int)> {
        let lo = self.first_decade();
        let hi = self.last_decade();
        Seq::new(
            if lo <= hi {
                (hi - lo + 1) as nat
            } else {
                0
            },
            |i: int| (self.place(S::spec_decimal(1, lo + i)), lo + i),
        )
    }

    /// Decades on the scale, with their places and exponents.
    pub fn decade_ticks(&self) -> (r: Vec<(S, i32)>)
        ensures
            r@.map_values(|p: (S, i32)| (p.0, p.1 as int)) == self.ticks(),
    {
        let lo = self.vmin.log10().ceil().to_exponent() as i64;
        let hi = self.vmax.log10().floor().to_exponent() as i64;
        let mut out: Vec<(S, i32)> = Vec::new();
        let mut p = lo;
        while p <= hi
            invariant
                lo == self.first_decade(),
                hi == self.last_decade(),
                i32::MIN <= lo <= i32::MAX,
                i32::MIN <= hi <= i32::MAX,
                lo <= p,
                lo <= hi ==> p <= hi + 1,
                lo > hi ==> p == lo,
                out@.len() == p - lo,
                forall|i: int|
                    0 <= i < out@.len() ==> (#[trigger] out@[i]).0 == self.place(S::spec_decimal(1, lo + i))
                        && out@[i].1 == lo + i,
            decreases hi - p + 1,
        {
            let e = p as i32;
            let place = self.t(S::decimal(1, e));
            out.push((place, e));
            p = p + 1;
        }
        assert(out@.map_values(|p: (S, i32)| (p.0, p.1 as int)) =~= self.ticks());
        out
    }
}

} // verus!
