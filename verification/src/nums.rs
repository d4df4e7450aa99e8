use vstd::prelude::*;

verus! {

use vstd::arithmetic::div_mod::{
    lemma_div_nonincreasing, lemma_div_pos_is_pos, lemma_fundamental_div_mod,
    lemma_div_is_ordered_by_denominator, lemma_mod_division_less_than_divisor, lemma_div_of0,
};

/// Truncating (toward-zero) integer division: the semantics of Rust's `/`
/// on signed integers, stated over mathematical integers. Verus's own `/`
/// on `int` is Euclidean, so the negative cases are reduced to divisions
/// of non-negative operands, where the two notions agree.
pub open spec fn trunc_div(a: int, b: int) -> int {
    if a >= 0 {
        if b >= 0 {
            a / b
        } else {
            -(a / -b)
        }
    } else {
        if b >= 0 {
            -(-a / b)
        } else {
            -a / -b
        }
    }
}

/// Truncating remainder: the semantics of Rust's `%` on signed integers.
/// Defined so that `a == b * trunc_div(a, b) + trunc_mod(a, b)` holds by
/// construction; the result carries the sign of the dividend `a`.
pub open spec fn trunc_mod(a: int, b: int) -> int {
    a - b * trunc_div(a, b)
}

/// Quotients never grow in magnitude: `|trunc_div(a, b)| <= |a|` for `b != 0`.
pub proof fn lemma_trunc_div_bounded(a: int, b: int)
    requires
        b != 0,
    ensures
        vstd::math::abs(trunc_div(a, b)) <= vstd::math::abs(a),
        a >= 0 && b > 0 ==> trunc_div(a, b) >= 0,
        a <= 0 && b > 0 ==> trunc_div(a, b) <= 0,
{
    if a >= 0 {
        if b >= 0 {
            lemma_div_nonincreasing(a, b);
            lemma_div_pos_is_pos(a, b);
        } else {
            lemma_div_nonincreasing(a, -b);
            lemma_div_pos_is_pos(a, -b);
        }
    } else {
        if b >= 0 {
            lemma_div_nonincreasing(-a, b);
            lemma_div_pos_is_pos(-a, b);
        } else {
            lemma_div_nonincreasing(-a, -b);
            lemma_div_pos_is_pos(-a, -b);
        }
    }
}

/// For `i32` operands that Rust's `/` accepts, the truncating quotient fits
/// back into an `i32`.
pub proof fn lemma_trunc_div_fits_i32(a: int, b: int)
    requires
        i32::MIN <= a <= i32::MAX,
        i32::MIN <= b <= i32::MAX,
        b != 0,
        !(a == i32::MIN && b == -1),
    ensures
        i32::MIN <= trunc_div(a, b) <= i32::MAX,
{
    lemma_trunc_div_bounded(a, b);
    if a == i32::MIN && b < 0 {
        // The quotient is positive here; with `b <= -2` it is at most half
        // the magnitude of `a`, so it stays below `i32::MAX`.
        lemma_div_is_ordered_by_denominator(-a, 2, -b);
    }
}

/// Truncating division of `i32` values, the behavior of Rust's `a / b`.
/// The two excluded inputs are exactly those on which `a / b` panics.
pub fn div_trunc(a: i32, b: i32) -> (r: i32)
    requires
        b != 0,
        !(a == i32::MIN && b == -1),
    ensures
        r == trunc_div(a as int, b as int),
{
    let q = a.checked_div(b);
    proof {
        let x = a as int;
        let d = b as int;
        lemma_trunc_div_fits_i32(x, d);
        if x == 0 {
            lemma_div_of0(d);
            lemma_div_of0(-d);
        }
        assert(q is Some && q->0 == trunc_div(x, d));
    }
    q.unwrap()
}

/// The truncating remainder is smaller in magnitude than the divisor.
pub proof fn lemma_trunc_mod_bounded(a: int, b: int)
    requires
        b != 0,
    ensures
        vstd::math::abs(trunc_mod(a, b)) < vstd::math::abs(b),
        a >= 0 ==> trunc_mod(a, b) >= 0,
        a <= 0 ==> trunc_mod(a, b) <= 0,
        trunc_mod(a, b) == if a >= 0 {
            if b >= 0 { a % b } else { a % -b }
        } else {
            if b >= 0 { -(-a % b) } else { -(-a % -b) }
        },
{
    if a >= 0 {
        if b >= 0 {
            lemma_fundamental_div_mod(a, b);
            lemma_mod_division_less_than_divisor(a, b);
        } else {
            let m = -b;
            let q = a / m;
            lemma_fundamental_div_mod(a, m);
            lemma_mod_division_less_than_divisor(a, m);
            assert(b * -q == m * q) by (nonlinear_arith)
                requires m == -b;
        }
    } else {
        if b >= 0 {
            let q = -a / b;
            lemma_fundamental_div_mod(-a, b);
            lemma_mod_division_less_than_divisor(-a, b);
            assert(b * -q == -(b * q)) by (nonlinear_arith);
        } else {
            let m = -b;
            let q = -a / m;
            lemma_fundamental_div_mod(-a, m);
            lemma_mod_division_less_than_divisor(-a, m);
            assert(b * q == -(m * q)) by (nonlinear_arith)
                requires m == -b;
        }
    }
}

/// Truncating remainder of `i32` values, the behavior of Rust's `a % b`.
pub fn rem_trunc(a: i32, b: i32) -> (r: i32)
    requires
        b != 0,
        !(a == i32::MIN && b == -1),
    ensures
        r == trunc_mod(a as int, b as int),
{
    let q = a.checked_rem(b);
    proof {
        let x = a as int;
        let d = b as int;
        lemma_trunc_mod_bounded(x, d);
        assert(q is Some && q->0 == trunc_mod(x, d));
    }
    q.unwrap()
}

/// Clamp an unbounded channel sum into the valid 8-bit range.
pub open spec fn clamp8(x: int) -> int {
    if x < 0 {
        0
    } else if x > 255 {
        255
    } else {
        x
    }
}

} // verus!
