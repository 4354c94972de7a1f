//! Fixed-point arithmetic for the allocation core.
//!
//! Ratios, probabilities, returns and allocation fractions are `i64` values
//! counting units of `1 / SCALE` (ten decimal places).  Money amounts
//! (market capitalisations and intrinsic values) are `i64` values counting
//! units of `1 / MONEY_SCALE` (hundredths).
//!
//! Every operation is total: results are rounded to the nearest unit (ties
//! away from zero) and saturate at `FX_MAX` / `-FX_MAX`, the role played by
//! infinities in floating-point arithmetic.  Each executable operation is
//! specified exactly by the spec function of the same name.

use vstd::prelude::*;

verus! {

/// Number of fixed-point units in 1.0 for ratio-like quantities.
pub const SCALE: i64 = 10_000_000_000;

/// Half of `SCALE`, used for rounding to the nearest unit.
pub const HALF_SCALE: i64 = 5_000_000_000;

/// The fixed-point representation of -1.0 for ratio-like quantities.
pub const NEG_SCALE: i64 = -10_000_000_000;

/// Number of fixed-point units in 1.0 for money quantities.
pub const MONEY_SCALE: i64 = 100;

/// Largest representable fixed-point value; `-FX_MAX` is the smallest.
/// The range is symmetric so that negation never overflows.
pub const FX_MAX: i64 = 0x7fff_ffff_ffff_ffff;

/// Clamps a mathematical integer into the representable fixed-point range.
pub open spec fn clamp_fx(x: int) -> int {
    if x > FX_MAX as int {
        FX_MAX as int
    } else if x < -(FX_MAX as int) {
        -(FX_MAX as int)
    } else {
        x
    }
}

/// Division rounded to the nearest integer, ties away from zero.
/// Meaningful for positive divisors.
pub open spec fn round_div(n: int, d: int) -> int
    recommends
        d > 0,
{
    if n >= 0 {
        (n + d / 2) / d
    } else {
        -((-n + d / 2) / d)
    }
}

/// Saturating fixed-point addition.
pub open spec fn add_fx_spec(a: int, b: int) -> int {
    clamp_fx(a + b)
}

/// Saturating fixed-point negation.
pub open spec fn neg_fx_spec(a: int) -> int {
    clamp_fx(-a)
}

/// Saturating fixed-point multiplication, rounded to the nearest unit.
pub open spec fn mul_fx_spec(a: int, b: int) -> int {
    clamp_fx(round_div(a * b, SCALE as int))
}

/// Saturating fixed-point division, rounded to the nearest unit.  The
/// arguments may carry any common scale; the result is in ratio units.
/// A zero divisor saturates by the sign of the dividend, the fixed-point
/// analogue of division by zero producing an infinity.
pub open spec fn div_fx_spec(n: int, d: int) -> int {
    if d == 0 {
        if n > 0 {
            FX_MAX as int
        } else if n < 0 {
            -(FX_MAX as int)
        } else {
            0
        }
    } else if d > 0 {
        clamp_fx(round_div(n * SCALE, d))
    } else {
        clamp_fx(round_div(-(n * SCALE), -d))
    }
}

/// The fixed-point operations again, as functions on `i64` values: the
/// clamped results always fit, so these are exactly the values the
/// executable operations return.  They are the vocabulary of the
/// solver's functional model.
pub open spec fn add_fx_i64(a: i64, b: i64) -> i64 {
    add_fx_spec(a as int, b as int) as i64
}

/// Saturating fixed-point subtraction on `i64` values.
pub open spec fn sub_fx_i64(a: i64, b: i64) -> i64 {
    add_fx_spec(a as int, -(b as int)) as i64
}

/// Saturating fixed-point negation on `i64` values.
pub open spec fn neg_fx_i64(a: i64) -> i64 {
    neg_fx_spec(a as int) as i64
}

/// Saturating fixed-point absolute value on `i64` values.
pub open spec fn abs_fx_i64(a: i64) -> i64 {
    clamp_fx(if a < 0 { -(a as int) } else { a as int }) as i64
}

/// Saturating fixed-point multiplication on `i64` values.
pub open spec fn mul_fx_i64(a: i64, b: i64) -> i64 {
    mul_fx_spec(a as int, b as int) as i64
}

/// Saturating fixed-point division on `i64` values.
pub open spec fn div_fx_i64(n: i64, d: i64) -> i64 {
    div_fx_spec(n as int, d as int) as i64
}

/// Multiplication by one is exact in fixed point: scaling by `SCALE`
/// introduces no rounding for any representable value.
pub proof fn lemma_mul_fx_one(x: int)
    requires
        -(FX_MAX as int) <= x <= FX_MAX as int,
    ensures
        mul_fx_spec(SCALE as int, x) == x,
{
    if x >= 0 {
        assert((SCALE as int * x + SCALE as int / 2) / (SCALE as int) == x) by (nonlinear_arith)
            requires
                x >= 0,
                SCALE as int == 10_000_000_000,
        ;
    } else {
        assert(SCALE as int * x < 0) by (nonlinear_arith)
            requires
                x < 0,
                SCALE as int > 0,
        ;
        assert(-(SCALE as int * x) == SCALE as int * (-x)) by (nonlinear_arith);
        assert((SCALE as int * (-x) + SCALE as int / 2) / (SCALE as int) == -x)
            by (nonlinear_arith)
            requires
                x < 0,
                SCALE as int == 10_000_000_000,
        ;
    }
}

/// Saturating addition of two fixed-point values.
pub fn add_fx(a: i64, b: i64) -> (r: i64)
    ensures
        r as int == add_fx_spec(a as int, b as int),
        r == add_fx_i64(a, b),
{
    let s: i128 = a as i128 + b as i128;
    if s > FX_MAX as i128 {
        FX_MAX
    } else if s < -(FX_MAX as i128) {
        -FX_MAX
    } else {
        s as i64
    }
}

/// Saturating negation of a fixed-point value.
pub fn neg_fx(a: i64) -> (r: i64)
    ensures
        r as int == neg_fx_spec(a as int),
        r == neg_fx_i64(a),
{
    if a == i64::MIN {
        FX_MAX
    } else {
        -a
    }
}

/// Saturating subtraction of two fixed-point values.
pub fn sub_fx(a: i64, b: i64) -> (r: i64)
    ensures
        r as int == add_fx_spec(a as int, -(b as int)),
        r == sub_fx_i64(a, b),
{
    let s: i128 = a as i128 - b as i128;
    if s > FX_MAX as i128 {
        FX_MAX
    } else if s < -(FX_MAX as i128) {
        -FX_MAX
    } else {
        s as i64
    }
}

/// Absolute value of a fixed-point value (total because the range is
/// symmetric: `i64::MIN` is not representable, but is mapped to `FX_MAX`).
pub fn abs_fx(a: i64) -> (r: i64)
    ensures
        r as int == clamp_fx(if a < 0 { -(a as int) } else { a as int }),
        r == abs_fx_i64(a),
{
    if a == i64::MIN {
        FX_MAX
    } else if a < 0 {
        -a
    } else {
        a
    }
}

/// Rounds `p`, a product of two fixed-point values, back to ratio units,
/// saturating on overflow.
fn rounded_to_scale(p: i128) -> (r: i64)
    requires
        -0x4000_0000_0000_0000_0000_0000_0000_0000 <= p
            <= 0x4000_0000_0000_0000_0000_0000_0000_0000,
    ensures
        r as int == clamp_fx(round_div(p as int, SCALE as int)),
{
    if p >= 0 {
        let q: u128 = (p as u128 + HALF_SCALE as u128) / (SCALE as u128);
        if q > FX_MAX as u128 {
            FX_MAX
        } else {
            q as i64
        }
    } else {
        let m: i128 = -p;
        let q: u128 = (m as u128 + HALF_SCALE as u128) / (SCALE as u128);
        if q > FX_MAX as u128 {
            -FX_MAX
        } else {
            -(q as i64)
        }
    }
}

/// Saturating multiplication of two fixed-point values.
pub fn mul_fx(a: i64, b: i64) -> (r: i64)
    ensures
        r as int == mul_fx_spec(a as int, b as int),
        r == mul_fx_i64(a, b),
{
    proof {
        assert((a as int) * (b as int) <= 0x4000_0000_0000_0000_0000_0000_0000_0000
            && (a as int) * (b as int) >= -0x4000_0000_0000_0000_0000_0000_0000_0000) by (nonlinear_arith)
            requires
                -0x8000_0000_0000_0000 <= a as int <= 0x7fff_ffff_ffff_ffff,
                -0x8000_0000_0000_0000 <= b as int <= 0x7fff_ffff_ffff_ffff,
        ;
    }
    let p: i128 = (a as i128) * (b as i128);
    rounded_to_scale(p)
}

/// Quotient of two wide integers scaled into ratio units, rounded to the
/// nearest unit and saturated.  Shared by fixed-point division and by the
/// scenario-return computation on money values.
fn scaled_ratio(n: i128, d: i128) -> (r: i64)
    requires
        -0x2_0000_0000_0000_0000 <= n <= 0x2_0000_0000_0000_0000,
        -0x2_0000_0000_0000_0000 <= d <= 0x2_0000_0000_0000_0000,
    ensures
        r as int == div_fx_spec(n as int, d as int),
{
    if d == 0 {
        if n > 0 {
            FX_MAX
        } else if n < 0 {
            -FX_MAX
        } else {
            0
        }
    } else {
        let negative: bool = (n < 0) != (d < 0);
        let nm: u128 = if n < 0 {
            (-n) as u128
        } else {
            n as u128
        };
        let dm: u128 = if d < 0 {
            (-d) as u128
        } else {
            d as u128
        };
        proof {
            assert(nm as int * SCALE as int + dm as int / 2 <= u128::MAX as int) by (nonlinear_arith)
                requires
                    0 <= nm as int <= 0x2_0000_0000_0000_0000,
                    0 <= dm as int <= 0x2_0000_0000_0000_0000,
                    SCALE as int == 10_000_000_000,
            ;
        }
        let q: u128 = (nm * SCALE as u128 + dm / 2) / dm;
        proof {
            lemma_scaled_ratio(n as int, d as int, nm as int, dm as int, q as int);
        }
        if q > FX_MAX as u128 {
            if negative {
                -FX_MAX
            } else {
                FX_MAX
            }
        } else {
            if negative {
                -(q as i64)
            } else {
                q as i64
            }
        }
    }
}

/// Relates the magnitude computation in `scaled_ratio` to `div_fx_spec`.
proof fn lemma_scaled_ratio(n: int, d: int, nm: int, dm: int, q: int)
    requires
        d != 0,
        nm == if n < 0 { -n } else { n },
        dm == if d < 0 { -d } else { d },
        q == (nm * SCALE + dm / 2) / dm,
    ensures
        ((n < 0) != (d < 0)) ==> div_fx_spec(n, d) == clamp_fx(-q),
        ((n < 0) == (d < 0)) ==> div_fx_spec(n, d) == clamp_fx(q),
{
    if d > 0 {
        if n >= 0 {
            assert(n * SCALE >= 0) by (nonlinear_arith)
                requires n >= 0, SCALE as int > 0;
            assert(nm * SCALE == n * SCALE);
            assert(round_div(n * SCALE, d) == q);
        } else {
            assert(n * SCALE < 0) by (nonlinear_arith)
                requires n < 0, SCALE as int > 0;
            assert(nm * SCALE == -(n * SCALE)) by (nonlinear_arith)
                requires nm == -n;
            assert(round_div(n * SCALE, d) == -q);
        }
    } else {
        // div_fx_spec uses round_div(-(n * SCALE), -d) here.
        if n >= 0 {
            assert(n * SCALE >= 0) by (nonlinear_arith)
                requires n >= 0, SCALE as int > 0;
            assert(-(n * SCALE) <= 0);
            assert(nm * SCALE == n * SCALE);
            if n * SCALE == 0 {
                assert(n == 0) by (nonlinear_arith)
                    requires n >= 0, SCALE as int > 0, n * SCALE == 0;
                assert(nm * SCALE == 0) by (nonlinear_arith)
                    requires nm == 0int;
                assert(0 <= dm / 2 < dm);
                assert((dm / 2) / dm == 0) by (nonlinear_arith)
                    requires 0 <= dm / 2 < dm;
                assert(q == 0);
                assert(round_div(-(n * SCALE), -d) == (0 + (-d) / 2) / (-d));
                assert(round_div(-(n * SCALE), -d) == 0);
            } else {
                assert(round_div(-(n * SCALE), -d) == -q);
            }
        } else {
            assert(n * SCALE < 0) by (nonlinear_arith)
                requires n < 0, SCALE as int > 0;
            assert(nm * SCALE == -(n * SCALE)) by (nonlinear_arith)
                requires nm == -n;
            assert(round_div(-(n * SCALE), -d) == q);
        }
    }
}

/// Saturating division of two fixed-point values carrying a common scale;
/// the result is in ratio units.
pub fn div_fx(n: i64, d: i64) -> (r: i64)
    ensures
        r as int == div_fx_spec(n as int, d as int),
        r == div_fx_i64(n, d),
{
    scaled_ratio(n as i128, d as i128)
}

/// The return of a scenario: `(intrinsic_value - market_cap) / market_cap`,
/// taking money values (hundredths) and yielding a ratio.
pub fn money_ratio(intrinsic_value: i64, market_cap: i64) -> (r: i64)
    ensures
        r as int == div_fx_spec(intrinsic_value as int - market_cap as int, market_cap as int),
{
    let n: i128 = intrinsic_value as i128 - market_cap as i128;
    scaled_ratio(n, market_cap as i128)
}

} // verus!
