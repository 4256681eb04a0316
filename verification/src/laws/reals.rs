//! Arithmetic on real numbers.
use vstd::prelude::*;

verus! {

/// The product of two real numbers.
#[verifier::opaque]
pub open spec fn prod(x: real, y: real) -> real {
    x * y
}

pub proof fn spread(x: real, y: real, z: real)
    ensures
        prod(x, y + z) == prod(x, y) + prod(x, z),
{
    reveal(prod);
    assert(x * (y + z) == x * y + x * z) by (nonlinear_arith);
}

pub proof fn spread_minus(x: real, y: real, z: real)
    ensures
        prod(x, y - z) == prod(x, y) - prod(x, z),
{
    reveal(prod);
    assert(x * (y - z) == x * y - x * z) by (nonlinear_arith);
}

pub proof fn flip(x: real, y: real)
    ensures
        prod(x, y) == prod(y, x),
{
    reveal(prod);
    assert(x * y == y * x) by (nonlinear_arith);
}

/// `x (y z) = y (x z)`.
pub proof fn swap(x: real, y: real, z: real)
    ensures
        prod(x, prod(y, z)) == prod(y, prod(x, z)),
{
    reveal(prod);
    assert(x * (y * z) == y * (x * z)) by (nonlinear_arith);
}

pub proof fn unit(x: real)
    ensures
        prod(1real, x) == x,
        prod(-1real, x) == -x,
        prod(0real, x) == 0real,
        prod(x, 0real) == 0real,
{
    reveal(prod);
}

/// `(-x) y = -(x y)`.
pub proof fn negated(x: real, y: real)
    ensures
        prod(-x, y) == -prod(x, y),
{
    reveal(prod);
    assert((-x) * y == -(x * y)) by (nonlinear_arith);
}

pub proof fn product_is_not_negative(x: real, y: real)
    requires
        x >= 0real,
        y >= 0real,
    ensures
        prod(x, y) >= 0real,
{
    reveal(prod);
    assert(x * y >= 0real) by (nonlinear_arith)
        requires
            x >= 0real,
            y >= 0real,
    ;
}

pub proof fn square_is_not_negative(x: real)
    ensures
        prod(x, x) >= 0real,
{
    reveal(prod);
    assert(x * x >= 0real) by (nonlinear_arith);
}

/// A factor whose product with a positive number is not negative is not.
pub proof fn factor_is_not_negative(x: real, d: real)
    requires
        d > 0real,
        prod(x, d) >= 0real,
    ensures
        x >= 0real,
{
    reveal(prod);
    assert(x >= 0real) by (nonlinear_arith)
        requires
            d > 0real,
            x * d >= 0real,
    ;
}

/// A share of a sum of two numbers, the first of them not negative and the second positive.
pub proof fn share(w: real, s: real, b: real, r: real)
    requires
        b >= 0real,
        r > 0real,
        s == b + r,
        prod(w, s) == r,
    ensures
        0real < w <= 1real,
{
    factor_is_not_negative(w, s);
    unit(s);
    if w == 0real {
        assert(false);
    }
    flip(s, 1real - w);
    spread_minus(s, 1real, w);
    flip(s, 1real);
    flip(s, w);
    factor_is_not_negative(1real - w, s);
}

/// Two numbers with the same product with a positive number are the same.
pub proof fn quotients_agree(x: real, y: real, s: real)
    requires
        s > 0real,
        prod(x, s) == prod(y, s),
    ensures
        x == y,
{
    flip(s, x - y);
    flip(s, y - x);
    spread_minus(s, x, y);
    spread_minus(s, y, x);
    flip(s, x);
    flip(s, y);
    factor_is_not_negative(x - y, s);
    factor_is_not_negative(y - x, s);
}

/// What solves `x s = b h + r t`, where `w` is the share of `r` in `s = b + r`.
pub proof fn mixture(w: real, s: real, b: real, r: real, h: real, t: real, x: real)
    requires
        b >= 0real,
        r > 0real,
        s == b + r,
        prod(w, s) == r,
        prod(x, s) == prod(b, h) + prod(r, t),
    ensures
        x == prod(1real - w, h) + prod(w, t),
{
    let u = 1real - w;
    flip(s, u);
    spread_minus(s, 1real, w);
    flip(s, 1real);
    unit(s);
    flip(s, w);
    assert(prod(u, s) == b);
    let m = prod(u, h) + prod(w, t);
    flip(m, s);
    spread(s, prod(u, h), prod(w, t));
    reassociate(s, u, h);
    reassociate(s, w, t);
    quotients_agree(x, m, s);
}

/// `s (u h) = (u s) h`.
pub proof fn reassociate(s: real, u: real, h: real)
    ensures
        prod(s, prod(u, h)) == prod(prod(u, s), h),
{
    reveal(prod);
    assert(s * (u * h) == (u * s) * h) by (nonlinear_arith);
}

/// A mixture lies between its parts.
pub proof fn between(w: real, h: real, t: real)
    requires
        0real <= w <= 1real,
    ensures
        h <= t ==> h <= prod(1real - w, h) + prod(w, t) <= t,
        t <= h ==> t <= prod(1real - w, h) + prod(w, t) <= h,
{
    flip(h, 1real - w);
    spread_minus(h, 1real, w);
    flip(h, 1real);
    flip(h, w);
    unit(h);
    spread_minus(w, t, h);
    spread_minus(w, h, t);
    // The mixture is `h + w (t - h)`, and also `t - (1 - w) (t - h)`.
    flip(t - h, 1real - w);
    spread_minus(t - h, 1real, w);
    flip(t - h, 1real);
    flip(t - h, w);
    unit(t - h);
    if h <= t {
        product_is_not_negative(w, t - h);
        product_is_not_negative(1real - w, t - h);
    }
    if t <= h {
        flip(h - t, 1real - w);
        spread_minus(h - t, 1real, w);
        flip(h - t, 1real);
        flip(h - t, w);
        unit(h - t);
        product_is_not_negative(w, h - t);
        product_is_not_negative(1real - w, h - t);
    }
}

} // verus!
