//! Scaled integer arithmetic shared by the geometry.

use vstd::prelude::*;

verus! {

/// The fixed-point value that stands for 1 in a direction's components.
pub const UNIT: i64 = 1_073_741_824;

/// The number of angle ticks in one full turn.
pub const TURN: i64 = 65_536;

/// How far the squared norm of a direction may be from `UNIT * UNIT`.
pub const NORM_SLACK: i64 = 2_147_483_648;

/// Quotient of `a` by a positive `b`, rounded toward zero.
pub open spec fn trunc_div(a: int, b: int) -> int {
    if a >= 0 {
        a / b
    } else {
        -((-a) / b)
    }
}

/// The length `len` multiplied by the fixed-point factor `c`, rounded toward
/// zero.
pub open spec fn scaled(c: int, len: int) -> int {
    trunc_div(c * len, UNIT as int)
}

/// The absolute value of `a`.
pub open spec fn abs(a: int) -> int {
    if a >= 0 {
        a
    } else {
        -a
    }
}

/// Rounding toward zero commutes with negation.
pub proof fn lemma_trunc_div_neg(a: int, b: int)
    requires
        b > 0,
    ensures
        trunc_div(-a, b) == -trunc_div(a, b),
{
    if a == 0 {
        assert(0int / b == 0) by (nonlinear_arith)
            requires
                b > 0,
        ;
    }
}

/// Dividing a multiple of `b` by `b` gives the multiplier back, whatever its
/// sign.
pub proof fn lemma_trunc_div_cancel(a: int, b: int)
    requires
        b > 0,
    ensures
        trunc_div(a * b, b) == a,
{
    if a >= 0 {
        assert(a * b >= 0 && (a * b) / b == a) by (nonlinear_arith)
            requires
                a >= 0,
                b > 0,
        ;
    } else {
        assert(a * b < 0 && (-(a * b)) / b == -a) by (nonlinear_arith)
            requires
                a < 0,
                b > 0,
        ;
    }
}

/// The quotient has the sign of the dividend and is no larger in magnitude;
/// the remainder is smaller than the divisor.
pub proof fn lemma_trunc_div_bounds(a: int, b: int)
    requires
        b > 0,
    ensures
        a >= 0 ==> 0 <= trunc_div(a, b) * b <= a < trunc_div(a, b) * b + b,
        a <= 0 ==> trunc_div(a, b) * b - b < a <= trunc_div(a, b) * b <= 0,
        abs(trunc_div(a, b)) <= abs(a),
{
    if a >= 0 {
        assert(0 <= (a / b) * b <= a < (a / b) * b + b && a / b <= a) by (nonlinear_arith)
            requires
                a >= 0,
                b > 0,
        ;
    } else {
        let m = -a;
        assert(0 <= (m / b) * b <= m < (m / b) * b + b && m / b <= m) by (nonlinear_arith)
            requires
                m >= 0,
                b > 0,
        ;
        assert((-(m / b)) * b == -((m / b) * b)) by (nonlinear_arith);
    }
}

/// A factor of magnitude at most `UNIT` never lengthens what it scales.
pub proof fn lemma_scaled_bound(c: int, len: int)
    requires
        -UNIT <= c <= UNIT,
    ensures
        abs(scaled(c, len)) <= abs(len),
        len >= 0 && c >= 0 ==> scaled(c, len) >= 0,
{
    let p = c * len;
    let u = UNIT as int;
    assert(abs(p) <= u * abs(len)) by (nonlinear_arith)
        requires
            -u <= c <= u,
            p == c * len,
    ;
    lemma_trunc_div_bounds(p, u);
    let q = trunc_div(p, u);
    assert(abs(q) <= abs(len)) by (nonlinear_arith)
        requires
            u > 0,
            abs(p) <= u * abs(len),
            p >= 0 ==> 0 <= q * u <= p,
            p <= 0 ==> p <= q * u <= 0,
    ;
    if len >= 0 && c >= 0 {
        assert(c * len >= 0) by (nonlinear_arith)
            requires
                c >= 0,
                len >= 0,
        ;
    }
}

/// The factor `UNIT` leaves a length unchanged, and the factor 0 and the
/// length 0 both give 0.
pub proof fn lemma_scaled_identities(c: int, len: int)
    ensures
        scaled(UNIT as int, len) == len,
        scaled(0, len) == 0,
        scaled(c, 0) == 0,
{
    lemma_trunc_div_cancel(len, UNIT as int);
    assert((UNIT as int) * len == len * (UNIT as int)) by (nonlinear_arith);
    assert(0 * len == 0) by (nonlinear_arith);
    assert(c * 0 == 0) by (nonlinear_arith);
}

/// Multiplies two 64-bit values without loss.
pub fn wide_mul(a: i64, b: i64) -> (p: i128)
    ensures
        p == (a as int) * (b as int),
        -0x4000_0000_0000_0000_0000_0000_0000_0000 <= p,
        p <= 0x4000_0000_0000_0000_0000_0000_0000_0000,
{
    assert(-0x4000_0000_0000_0000_0000_0000_0000_0000 <= (a as int) * (b as int)
        <= 0x4000_0000_0000_0000_0000_0000_0000_0000) by (nonlinear_arith)
        requires
            -0x8000_0000_0000_0000 <= a <= 0x7fff_ffff_ffff_ffff,
            -0x8000_0000_0000_0000 <= b <= 0x7fff_ffff_ffff_ffff,
    ;
    (a as i128) * (b as i128)
}

/// The magnitude of `a`, widened so that it always fits.
pub fn magnitude(a: i64) -> (m: i128)
    ensures
        m == abs(a as int),
{
    if a < 0 {
        -(a as i128)
    } else {
        a as i128
    }
}

/// The magnitude of `a - b`, widened so that it always fits.
pub fn distance(a: i64, b: i64) -> (m: i128)
    ensures
        m == abs(a - b),
{
    let d: i128 = (a as i128) - (b as i128);
    if d < 0 {
        -d
    } else {
        d
    }
}

/// Scales the length `len` by the fixed-point factor `c`.
pub fn scale(c: i64, len: i64) -> (r: i64)
    requires
        -UNIT <= c <= UNIT,
        len > i64::MIN,
    ensures
        r == scaled(c as int, len as int),
{
    let p: i128 = wide_mul(c, len);
    let q: i128 = p / (UNIT as i128);
    proof {
        lemma_scaled_bound(c as int, len as int);
        assert(q == trunc_div(p as int, UNIT as int));
        assert(q == scaled(c as int, len as int));
        assert(abs(q as int) <= abs(len as int));
    }
    q as i64
}

} // verus!
