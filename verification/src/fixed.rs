//! Fixed-point arithmetic for continuous quantities.
//!
//! A continuous value (a world coordinate, a velocity, a tile size, a
//! duration in seconds) is stored as a signed 64-bit count of millionths:
//! `SCALE` units make one world unit. Multiplication and division of two
//! continuous values go through [`mul_div`], whose single rounding step is
//! truncation toward zero, stated exactly by [`mul_div_spec`].

use vstd::prelude::*;

verus! {

/// Fixed-point units per world unit.
pub const SCALE: i64 = 1_000_000;

/// Truncating division (round toward zero) for a positive divisor.
pub open spec fn div_t(a: int, b: int) -> int {
    if a >= 0 {
        a / b
    } else {
        -((-a) / b)
    }
}

/// `a * b / d`, the quotient truncated toward zero: the shape of every
/// fixed-point product (`d == SCALE`), quotient (`b == SCALE`) and halving
/// (`b == 1, d == 2`) in the crate.
pub open spec fn mul_div_spec(a: int, b: int, d: int) -> int {
    div_t(a * b, d)
}

/// |a| over mathematical integers.
pub open spec fn abs_i(a: int) -> int {
    if a < 0 {
        -a
    } else {
        a
    }
}

/// The magnitude of a truncated quotient never exceeds the dividend's.
pub proof fn lemma_div_t_bound(a: int, b: int)
    by (nonlinear_arith)
    requires
        b >= 1,
    ensures
        abs_i(div_t(a, b)) <= abs_i(a),
        a >= 0 ==> 0 <= div_t(a, b) <= a,
        a < 0 ==> a <= div_t(a, b) <= 0,
{
}

/// Truncating division is exact on multiples: `(k * b) / b == k`.
pub proof fn lemma_div_t_exact(k: int, b: int)
    by (nonlinear_arith)
    requires
        b >= 1,
    ensures
        div_t(k * b, b) == k,
{
}

/// `v` fits the i64 range.
pub open spec fn fits_i64(v: int) -> bool {
    i64::MIN <= v <= i64::MAX
}

/// Round a scaled value to the nearest integer, ties away from zero.
pub open spec fn round_i(t: int) -> int {
    if t >= 0 {
        (t + SCALE / 2) / SCALE as int
    } else {
        -((-t + SCALE / 2) / SCALE as int)
    }
}

/// Saturate an integer to the i32 range.
pub open spec fn sat_i32(v: int) -> int {
    if v < i32::MIN {
        i32::MIN as int
    } else if v > i32::MAX {
        i32::MAX as int
    } else {
        v
    }
}

/// A bound on the operands gives a bound on `a * b / d`.
pub proof fn lemma_mul_div_fits(a: int, b: int, d: int, bound_a: int, bound_b: int)
    by (nonlinear_arith)
    requires
        d >= 1,
        0 <= bound_a,
        0 <= bound_b,
        abs_i(a) <= bound_a,
        abs_i(b) <= bound_b,
    ensures
        abs_i(mul_div_spec(a, b, d)) <= bound_a * bound_b,
        abs_i(mul_div_spec(a, b, d)) <= div_t(bound_a * bound_b, d),
{
}

/// |a| on `i64` (the minimum value is excluded by the caller's bounds).
pub fn abs_i64(a: i64) -> (r: i64)
    requires
        a != i64::MIN,
    ensures
        r as int == abs_i(a as int),
{
    if a < 0 {
        -a
    } else {
        a
    }
}

/// The nearest tile index of a scaled coordinate, saturated to the i32
/// range (mirroring a float-to-integer conversion's saturation).
pub fn round_to_index(t: i64) -> (r: i32)
    ensures
        r as int == sat_i32(round_i(t as int)),
{
    let u: i128 = t as i128;
    let half: i128 = (SCALE as i128) / 2;
    let q: i128 = if u >= 0 {
        trunc_div_i128(u + half, SCALE as i128)
    } else {
        -trunc_div_i128(-u + half, SCALE as i128)
    };
    if q < i32::MIN as i128 {
        i32::MIN
    } else if q > i32::MAX as i128 {
        i32::MAX
    } else {
        q as i32
    }
}

/// Truncating division is exact, and inverts multiplication, on exact
/// multiples.
pub proof fn lemma_div_t_mul_exact(a: int, b: int)
    by (nonlinear_arith)
    requires
        b >= 1,
        a % b == 0,
    ensures
        div_t(a, b) * b == a,
{
}

/// `a * b / d` with truncation toward zero, computed without intermediate
/// overflow; the result is required to fit in an `i64`.
pub fn mul_div(a: i64, b: i64, d: i64) -> (r: i64)
    requires
        d > 0,
        i64::MIN <= mul_div_spec(a as int, b as int, d as int) <= i64::MAX,
    ensures
        r == mul_div_spec(a as int, b as int, d as int),
{
    proof {
        assert(i128::MIN <= (a as int) * (b as int) <= i128::MAX) by (nonlinear_arith)
            requires
                i64::MIN <= a <= i64::MAX,
                i64::MIN <= b <= i64::MAX,
        ;
    }
    let p: i128 = (a as i128) * (b as i128);
    let q: i128 = trunc_div_i128(p, d as i128);
    q as i64
}

/// Truncating division on `i128`, matching `div_t`.
pub fn trunc_div_i128(p: i128, d: i128) -> (r: i128)
    requires
        d > 0,
    ensures
        r == div_t(p as int, d as int),
{
    proof {
        lemma_div_t_bound(p as int, d as int);
    }
    match p.checked_div(d) {
        Some(q) => {
            proof {
                lemma_checked_div_matches(p as int, d as int);
            }
            q
        },
        None => {
            // unreachable: a truncated quotient by a positive divisor
            // cannot leave the i128 range
            proof {
                lemma_checked_div_matches(p as int, d as int);
            }
            assert(false);
            0
        },
    }
}

/// The case split in the standard library's `checked_div` contract reduces
/// to `div_t` whenever the divisor is positive.
proof fn lemma_checked_div_matches(x: int, d: int)
    by (nonlinear_arith)
    requires
        d > 0,
    ensures
        (if x == 0 {
            0int
        } else if x > 0 {
            x / d
        } else {
            ((x * -1) / d) * -1
        }) == div_t(x, d),
{
}

} // verus!
