//! Integer angles and fixed-point trigonometry. A full turn is the integer
//! `ANGLE_TURN`, so angle arithmetic is exact modular arithmetic; sine and
//! cosine are rational approximations scaled to `TRIG_ONE`, and the inverse
//! tangent is an octant-reduced rational approximation. All of it is closed
//! form: the same inputs always give the same outputs.

use vstd::arithmetic::div_mod::{lemma_div_is_ordered, lemma_div_pos_is_pos};
use vstd::prelude::*;

verus! {

/// One full turn (two pi) in angle units.
pub const ANGLE_TURN: i64 = 65536;

/// Half a turn (pi) in angle units.
pub const ANGLE_HALF: i64 = 32768;

/// A quarter turn (pi over two) in angle units.
pub const ANGLE_QUARTER: i64 = 16384;

/// An eighth of a turn (pi over four) in angle units.
pub const ANGLE_EIGHTH: i64 = 8192;

/// The fixed-point unit for trigonometric ratios: sine and cosine range
/// over `[-TRIG_ONE, TRIG_ONE]`.
pub const TRIG_ONE: i64 = 65536;

/// An angle reduced into `[0, ANGLE_TURN)`.
pub open spec fn angle_mod(a: int) -> int {
    a % (ANGLE_TURN as int)
}

/// Reduces `a` into `[0, ANGLE_TURN)`.
pub fn wrap_angle(a: i64) -> (r: i64)
    requires
        -0x1000_0000_0000 <= a <= 0x1000_0000_0000,
    ensures
        r == angle_mod(a as int),
        0 <= r < ANGLE_TURN,
{
    if a >= 0 {
        a % ANGLE_TURN
    } else {
        let m = (-a) % ANGLE_TURN;
        if m == 0 {
            0
        } else {
            proof {
                assert((a as int % (ANGLE_TURN as int)) == ANGLE_TURN - ((-a) as int % (
                ANGLE_TURN as int))) by (nonlinear_arith)
                    requires
                        -0x1000_0000_0000 <= a < 0,
                        ((-a) as int % (ANGLE_TURN as int)) != 0,
                ;
            }
            ANGLE_TURN - m
        }
    }
}

/// Maps an angle in `[0, ANGLE_TURN)` to the signed range
/// `(-ANGLE_HALF, ANGLE_HALF]`, the bearing form used for culling.
pub open spec fn signed_angle(a: int) -> int {
    if a > ANGLE_HALF {
        a - ANGLE_TURN
    } else {
        a
    }
}

/// The signed bearing of a reduced angle.
pub fn to_signed_angle(a: i64) -> (r: i64)
    requires
        0 <= a < ANGLE_TURN,
    ensures
        r == signed_angle(a as int),
        -ANGLE_HALF < r <= ANGLE_HALF,
{
    if a > ANGLE_HALF {
        a - ANGLE_TURN
    } else {
        a
    }
}

/// The rational half-wave sine: for `x` in `[0, ANGLE_HALF]` this is
/// `16 t TRIG_ONE / (5 ANGLE_HALF^2 - 4 t)` with `t = x (ANGLE_HALF - x)`,
/// which is 0 at both ends and exactly `TRIG_ONE` at the quarter turn.
#[verifier::opaque]
pub open spec fn half_sin(x: int) -> int {
    let t = x * (ANGLE_HALF - x);
    (16 * t * TRIG_ONE) / (5 * (ANGLE_HALF as int) * (ANGLE_HALF as int) - 4 * t)
}

/// Sine of an angle in `[0, ANGLE_TURN)`, scaled to `TRIG_ONE`.
pub open spec fn sin_spec(a: int) -> int {
    if a <= ANGLE_HALF {
        half_sin(a)
    } else {
        -half_sin(a - ANGLE_HALF)
    }
}

/// Cosine of an angle in `[0, ANGLE_TURN)`, scaled to `TRIG_ONE`.
pub open spec fn cos_spec(a: int) -> int {
    sin_spec(angle_mod(a + ANGLE_QUARTER))
}

/// `x (ANGLE_HALF - x)` stays within `[0, ANGLE_HALF^2 / 4]` on the half wave.
proof fn lemma_t_bounds(x: int)
    requires
        0 <= x <= ANGLE_HALF,
    ensures
        0 <= x * (ANGLE_HALF - x),
        x * (ANGLE_HALF - x) <= (ANGLE_HALF as int) * (ANGLE_HALF as int) / 4,
{
    assert(0 <= x * (ANGLE_HALF - x) && x * (ANGLE_HALF - x) <= (ANGLE_HALF as int) * (
    ANGLE_HALF as int) / 4) by (nonlinear_arith)
        requires
            0 <= x <= ANGLE_HALF,
    ;
}

/// The half-wave sine stays within `[0, TRIG_ONE]`.
pub proof fn lemma_half_sin_bounds(x: int)
    requires
        0 <= x <= ANGLE_HALF,
    ensures
        0 <= half_sin(x) <= TRIG_ONE,
{
    reveal(half_sin);
    let t = x * (ANGLE_HALF - x);
    let h = (ANGLE_HALF as int) * (ANGLE_HALF as int);
    let num = 16 * t * TRIG_ONE;
    let den = 5 * h - 4 * t;
    lemma_t_bounds(x);
    assert(den >= 4 * h) by (nonlinear_arith)
        requires
            t <= h / 4,
            den == 5 * h - 4 * t,
            h == (ANGLE_HALF as int) * (ANGLE_HALF as int),
    ;
    lemma_div_pos_is_pos(num, den);
    assert(num <= TRIG_ONE * den) by (nonlinear_arith)
        requires
            num == 16 * t * TRIG_ONE,
            den == 5 * h - 4 * t,
            t <= h / 4,
            h == (ANGLE_HALF as int) * (ANGLE_HALF as int),
    ;
    lemma_div_is_ordered(num, TRIG_ONE * den, den);
    assert((TRIG_ONE * den) / den == TRIG_ONE) by (nonlinear_arith)
        requires
            den > 0,
    ;
}

/// Sine of a reduced angle, scaled to `TRIG_ONE`.
pub fn sin_angle(a: i64) -> (r: i64)
    requires
        0 <= a < ANGLE_TURN,
    ensures
        r == sin_spec(a as int),
        -TRIG_ONE <= r <= TRIG_ONE,
{
    if a <= ANGLE_HALF {
        half_sin_exec(a)
    } else {
        let s = half_sin_exec(a - ANGLE_HALF);
        -s
    }
}

/// Cosine of a reduced angle, scaled to `TRIG_ONE`.
pub fn cos_angle(a: i64) -> (r: i64)
    requires
        0 <= a < ANGLE_TURN,
    ensures
        r == cos_spec(a as int),
        -TRIG_ONE <= r <= TRIG_ONE,
{
    let shifted = wrap_angle(a + ANGLE_QUARTER);
    sin_angle(shifted)
}

/// The rational inverse tangent on `[0, TRIG_ONE]`: for a ratio `z` scaled
/// to `TRIG_ONE` this is `z (8 E T + 2847 (T - z)) / T^2` with
/// `E = ANGLE_EIGHTH` and `T = TRIG_ONE`, which is 0 at 0 and exactly
/// `ANGLE_EIGHTH` at `TRIG_ONE`.
#[verifier::opaque]
pub open spec fn atan_small_spec(z: int) -> int {
    (z * (8192 * (TRIG_ONE as int) + 2847 * ((TRIG_ONE as int) - z))) / ((TRIG_ONE as int) * (
    TRIG_ONE as int))
}

/// The inverse tangent of `num / den` scaled to angle units, for
/// `0 <= num <= den`: the first-octant angle of the point `(den, num)`.
pub open spec fn atan_ratio_spec(num: int, den: int) -> int {
    atan_small_spec((num * (TRIG_ONE as int)) / den)
}

/// The reduced angle of the direction from the origin to `(x, y)`,
/// built from the first-octant inverse tangent by symmetry. Zero when
/// both components are zero.
pub open spec fn atan2_spec(y: int, x: int) -> int {
    let ax = if x >= 0 { x } else { -x };
    let ay = if y >= 0 { y } else { -y };
    let q = if ax == 0 && ay == 0 {
        0
    } else if ay <= ax {
        atan_ratio_spec(ay, ax)
    } else {
        ANGLE_QUARTER - atan_ratio_spec(ax, ay)
    };
    if x >= 0 && y >= 0 {
        q
    } else if x < 0 && y >= 0 {
        ANGLE_HALF - q
    } else if x < 0 {
        ANGLE_HALF + q
    } else {
        angle_mod(ANGLE_TURN - q)
    }
}

/// The first-octant inverse tangent stays within `[0, ANGLE_EIGHTH]`.
pub proof fn lemma_atan_small_bounds(z: int)
    requires
        0 <= z <= TRIG_ONE,
    ensures
        0 <= atan_small_spec(z) <= ANGLE_EIGHTH,
{
    reveal(atan_small_spec);
    let t = TRIG_ONE as int;
    let num = z * (8192 * t + 2847 * (t - z));
    let den = t * t;
    assert(0 <= num <= 8192 * den) by (nonlinear_arith)
        requires
            0 <= z <= t,
            num == z * (8192 * t + 2847 * (t - z)),
            den == t * t,
            t == TRIG_ONE as int,
    ;
    lemma_div_pos_is_pos(num, den);
    lemma_div_is_ordered(num, 8192 * den, den);
    assert((8192 * den) / den == 8192) by (nonlinear_arith)
        requires
            den > 0,
    ;
}

/// Evaluates the first-octant inverse tangent on a ratio scaled to
/// `TRIG_ONE`.
fn atan_small(z: i64) -> (r: i64)
    requires
        0 <= z <= TRIG_ONE,
    ensures
        r == atan_small_spec(z as int),
        0 <= r <= ANGLE_EIGHTH,
{
    proof {
        reveal(atan_small_spec);
        lemma_atan_small_bounds(z as int);
    }
    let num = z * (8192 * TRIG_ONE + 2847 * (TRIG_ONE - z));
    num / (TRIG_ONE * TRIG_ONE)
}

/// The inverse tangent of `num / den` for `0 <= num <= den`, in angle units.
fn atan_ratio(num: i64, den: i64) -> (r: i64)
    requires
        0 <= num <= den,
        0 < den <= 0x4000_0000_0000,
    ensures
        r == atan_ratio_spec(num as int, den as int),
        0 <= r <= ANGLE_EIGHTH,
{
    let z = (num * TRIG_ONE) / den;
    proof {
        lemma_div_pos_is_pos(num as int * TRIG_ONE as int, den as int);
        assert(num as int * TRIG_ONE as int <= den as int * TRIG_ONE as int) by (nonlinear_arith)
            requires
                0 <= num <= den,
        ;
        lemma_div_is_ordered(num as int * TRIG_ONE as int, den as int * TRIG_ONE as int, den as int);
        assert((den as int * TRIG_ONE as int) / den as int == TRIG_ONE as int) by (nonlinear_arith)
            requires
                den > 0,
        ;
    }
    atan_small(z)
}

/// The reduced angle of the direction from the origin to `(x, y)`.
/// An exact zero vector yields angle 0.
pub fn atan2_angle(y: i64, x: i64) -> (r: i64)
    requires
        -0x4000_0000_0000 <= x <= 0x4000_0000_0000,
        -0x4000_0000_0000 <= y <= 0x4000_0000_0000,
    ensures
        r == atan2_spec(y as int, x as int),
        0 <= r < ANGLE_TURN,
{
    let ax = if x >= 0 {
        x
    } else {
        -x
    };
    let ay = if y >= 0 {
        y
    } else {
        -y
    };
    let q = if ax == 0 && ay == 0 {
        0
    } else if ay <= ax {
        atan_ratio(ay, ax)
    } else {
        ANGLE_QUARTER - atan_ratio(ax, ay)
    };
    if x >= 0 && y >= 0 {
        q
    } else if x < 0 && y >= 0 {
        ANGLE_HALF - q
    } else if x < 0 {
        ANGLE_HALF + q
    } else {
        wrap_angle(ANGLE_TURN - q)
    }
}

/// Evaluates the rational half-wave sine.
fn half_sin_exec(x: i64) -> (r: i64)
    requires
        0 <= x <= ANGLE_HALF,
    ensures
        r == half_sin(x as int),
        0 <= r <= TRIG_ONE,
{
    proof {
        reveal(half_sin);
        lemma_t_bounds(x as int);
        lemma_half_sin_bounds(x as int);
    }
    let t = x * (ANGLE_HALF - x);
    let num = 16 * t * TRIG_ONE;
    let den = 5 * ANGLE_HALF * ANGLE_HALF - 4 * t;
    num / den
}

} // verus!
