//! Exact arithmetic on machine integers where the plain operation would
//! overflow or lose the remainder.

use vstd::prelude::*;

verus! {

/// Decides `a / b > c / d` for positive `b` and `d` without forming a product.
///
/// Both fractions are split into whole part and remainder. Where the whole
/// parts differ they decide; where they agree, the remainders are compared
/// through their reciprocals, whose denominators are smaller.
pub fn fraction_exceeds(a: u128, b: u128, c: u128, d: u128) -> (r: bool)
    requires
        b > 0,
        d > 0,
    ensures
        r == (a * d > c * b),
    decreases b + d,
{
    let qa: u128 = a / b;
    let ra: u128 = a % b;
    let qc: u128 = c / d;
    let rc: u128 = c % d;
    proof {
        lemma_split_cross(a as int, b as int, c as int, d as int);
    }
    if qa > qc {
        true
    } else if qa < qc {
        false
    } else if ra == 0 {
        proof {
            assert(ra * d == 0 && rc * b >= 0) by (nonlinear_arith)
                requires
                    ra == 0,
                    rc >= 0,
                    b > 0,
            ;
        }
        false
    } else if rc == 0 {
        proof {
            assert(ra * d > 0 && rc * b == 0) by (nonlinear_arith)
                requires
                    ra > 0,
                    d > 0,
                    rc == 0,
            ;
        }
        true
    } else {
        let r = fraction_exceeds(d, rc, b, ra);
        proof {
            assert(d * ra == ra * d && b * rc == rc * b) by (nonlinear_arith);
        }
        r
    }
}

/// With `a = qa * b + ra` and `c = qc * d + rc`, the sign of `a * d - c * b`
/// is that of `qa - qc`, and where the quotients agree, that of
/// `ra * d - rc * b`.
proof fn lemma_split_cross(a: int, b: int, c: int, d: int)
    requires
        a >= 0,
        c >= 0,
        b > 0,
        d > 0,
    ensures
        a / b > c / d ==> a * d > c * b,
        a / b < c / d ==> a * d < c * b,
        a / b == c / d ==> a * d - c * b == (a % b) * d - (c % d) * b,
{
    let qa = a / b;
    let ra = a % b;
    let qc = c / d;
    let rc = c % d;
    assert(a == qa * b + ra && 0 <= ra < b) by (nonlinear_arith)
        requires
            b > 0,
            qa == a / b,
            ra == a % b,
    ;
    assert(c == qc * d + rc && 0 <= rc < d) by (nonlinear_arith)
        requires
            d > 0,
            qc == c / d,
            rc == c % d,
    ;
    assert(a * d - c * b == (qa - qc) * (b * d) + ra * d - rc * b) by (nonlinear_arith)
        requires
            a == qa * b + ra,
            c == qc * d + rc,
    ;
    assert(0 <= ra * d < b * d) by (nonlinear_arith)
        requires
            0 <= ra < b,
            d > 0,
    ;
    assert(0 <= rc * b < b * d) by (nonlinear_arith)
        requires
            0 <= rc < d,
            b > 0,
    ;
    if qa > qc {
        assert((qa - qc) * (b * d) >= b * d) by (nonlinear_arith)
            requires
                qa - qc >= 1,
                b * d >= 0,
        ;
    } else if qa < qc {
        assert((qa - qc) * (b * d) <= -(b * d)) by (nonlinear_arith)
            requires
                qa - qc <= -1,
                b * d >= 0,
        ;
    } else {
        assert((qa - qc) * (b * d) == 0) by (nonlinear_arith)
            requires
                qa - qc == 0,
        ;
    }
}

/// A product of two naturals is bounded by the product of their bounds.
pub proof fn lemma_product_bound(x: int, y: int, cx: int, cy: int)
    requires
        0 <= x <= cx,
        0 <= y <= cy,
    ensures
        0 <= x * y <= cx * cy,
{
    assert(0 <= x * y <= cx * cy) by (nonlinear_arith)
        requires
            0 <= x <= cx,
            0 <= y <= cy,
    ;
}

/// Decides `a * b > c * d` exactly, for factors whose products need not fit
/// in 128 bits.
pub fn product_exceeds(a: u128, b: u128, c: u128, d: u128) -> (r: bool)
    ensures
        r == (a * b > c * d),
{
    if a == 0 || b == 0 {
        proof {
            assert(a * b == 0) by (nonlinear_arith)
                requires
                    a == 0 || b == 0,
            ;
            assert(c * d >= 0) by (nonlinear_arith)
                requires
                    c >= 0,
                    d >= 0,
            ;
        }
        false
    } else if c == 0 || d == 0 {
        proof {
            assert(c * d == 0) by (nonlinear_arith)
                requires
                    c == 0 || d == 0,
            ;
            assert(a * b > 0) by (nonlinear_arith)
                requires
                    a > 0,
                    b > 0,
            ;
        }
        true
    } else {
        // a / c > d / b
        let r = fraction_exceeds(a, c, d, b);
        proof {
            assert(a * b == b * a && d * c == c * d) by (nonlinear_arith);
        }
        r
    }
}

/// `n / d` rounded to the nearest whole number, a half rounded up.
pub open spec fn round_div(n: nat, d: nat) -> nat
    recommends
        d > 0,
{
    (2 * n + d) / (2 * d)
}

/// The rounded quotient is the whole number nearest to `n / d`: it lies
/// within a half of it, and where two whole numbers do, it is the upper.
pub proof fn law_round_div_nearest(n: nat, d: nat)
    requires
        d > 0,
    ensures
        2 * round_div(n, d) * d - d <= 2 * n < 2 * round_div(n, d) * d + d,
{
    let r = round_div(n, d);
    let m = 2 * n + d;
    let k = 2 * d;
    assert(m == k * (m / k) + m % k && 0 <= m % k < k) by (nonlinear_arith)
        requires
            k > 0,
    ;
    assert(k * r == 2 * r * d) by (nonlinear_arith)
        requires
            k == 2 * d,
    ;
}

/// Divides and rounds to the nearest whole number, a half rounded up.
pub(crate) fn rounded_quotient(n: u128, d: u128) -> (r: u128)
    requires
        d > 0,
        2 * n + d <= u128::MAX,
        2 * d <= u128::MAX,
    ensures
        r == round_div(n as nat, d as nat),
{
    (2 * n + d) / (2 * d)
}

/// Whether `r` is the whole number nearest to the square root of
/// `n / scale`, a half rounded up: `(r - 1/2)^2 <= n / scale < (r + 1/2)^2`.
pub open spec fn is_rounded_sqrt(r: nat, n: nat, scale: nat) -> bool {
    &&& r > 0 ==> (2 * r - 1) * (2 * r - 1) * scale <= 4 * n
    &&& 4 * n < (2 * r + 1) * (2 * r + 1) * scale
}

/// The square root of `n / scale`, rounded to the nearest whole number.
pub open spec fn rounded_sqrt(n: nat, scale: nat) -> nat
    recommends
        scale > 0,
{
    choose|r: nat| is_rounded_sqrt(r, n, scale)
}

/// No two whole numbers are the rounded square root of one number.
pub proof fn lemma_rounded_sqrt_unique(r1: nat, r2: nat, n: nat, scale: nat)
    requires
        scale > 0,
        is_rounded_sqrt(r1, n, scale),
        is_rounded_sqrt(r2, n, scale),
    ensures
        r1 == r2,
{
    if r1 < r2 {
        lemma_odd_squares_grow(r1, r2, scale);
    } else if r2 < r1 {
        lemma_odd_squares_grow(r2, r1, scale);
    }
}

/// `(2 * r + 1)^2 * scale` grows with `r`.
proof fn lemma_odd_squares_grow(lo: nat, hi: nat, scale: nat)
    requires
        lo < hi,
        scale > 0,
    ensures
        (2 * lo + 1) * (2 * lo + 1) * scale <= (2 * hi - 1) * (2 * hi - 1) * scale,
{
    let a = 2 * lo + 1;
    let b = 2 * hi - 1;
    assert(a * a <= b * b) by (nonlinear_arith)
        requires
            0 <= a <= b,
    ;
    assert((a * a) * scale <= (b * b) * scale) by (nonlinear_arith)
        requires
            a * a <= b * b,
            scale > 0,
    ;
}

/// Computes the square root of `n / 1000`, rounded to the nearest whole
/// number, by bisection.
pub fn rounded_sqrt_of_thousandths(n: u64) -> (r: u64)
    ensures
        r == rounded_sqrt(n as nat, 1000),
        is_rounded_sqrt(r as nat, n as nat, 1000),
{
    let target: u128 = 4 * (n as u128);
    let mut lo: u64 = 0;
    let mut hi: u64 = 0x1000_0000;
    proof {
        assert((2 * 0x1000_0000 - 1) * (2 * 0x1000_0000 - 1) * 1000 > 4 * 0xFFFF_FFFF_FFFF_FFFF);
    }
    while hi - lo > 1
        invariant
            lo < hi <= 0x1000_0000,
            target == 4 * n,
            lo > 0 ==> (2 * lo - 1) * (2 * lo - 1) * 1000 <= target,
            (2 * hi - 1) * (2 * hi - 1) * 1000 > target,
        decreases hi - lo,
    {
        let mid: u64 = lo + (hi - lo) / 2;
        let side: u128 = 2 * (mid as u128) - 1;
        proof {
            assert(side * side <= 0x2000_0000 * 0x2000_0000) by (nonlinear_arith)
                requires
                    0 <= side <= 0x2000_0000,
            ;
        }
        if side * side * 1000 <= target {
            lo = mid;
        } else {
            hi = mid;
        }
    }
    proof {
        assert(hi == lo + 1);
        assert(2 * hi - 1 == 2 * lo + 1);
        assert(is_rounded_sqrt(lo as nat, n as nat, 1000));
        lemma_rounded_sqrt_unique(lo as nat, rounded_sqrt(n as nat, 1000), n as nat, 1000);
    }
    lo
}

} // verus!
