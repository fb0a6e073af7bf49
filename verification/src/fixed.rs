//! Fixed-point amplitude arithmetic.
//!
//! An amplitude, gain or waveform sample of one is represented by [`ONE`]
//! fixed-point units; every multiplication of two such quantities divides by
//! [`ONE`] again, truncating toward zero exactly as the executable code does.

use vstd::arithmetic::div_mod::{lemma_div_nonincreasing, lemma_div_pos_is_pos};
use vstd::prelude::*;

verus! {

/// Number of fixed-point units that stand for an amplitude of one.
pub const ONE: i64 = 65536;

/// Truncating fixed-point product: `a * b / ONE`, rounded toward zero.
pub open spec fn fx_scale_spec(a: int, b: int) -> int {
    if a * b >= 0 {
        (a * b) / (ONE as int)
    } else {
        -((-(a * b)) / (ONE as int))
    }
}

/// Multiplies a sample by a nonnegative fixed-point factor.
pub fn fx_scale(a: i64, b: i64) -> (r: i64)
    requires
        -0x4000_0000_0000 <= a <= 0x4000_0000_0000,
        0 <= b <= ONE,
    ensures
        r == fx_scale_spec(a as int, b as int),
        a >= 0 ==> 0 <= r <= a,
        a <= 0 ==> a <= r <= 0,
{
    proof {
        lemma_fx_scale_bounds(a as int, b as int);
    }
    if a >= 0 {
        proof {
            assert(a * b <= 0x4000_0000_0000 * 65536) by (nonlinear_arith)
                requires 0 <= a <= 0x4000_0000_0000 && 0 <= b <= 65536;
        }
        let p: u64 = (a as u64) * (b as u64);
        let q: u64 = p / 65536;
        q as i64
    } else {
        let neg: i64 = -a;
        proof {
            assert(neg * b <= 0x4000_0000_0000 * 65536) by (nonlinear_arith)
                requires 0 <= neg <= 0x4000_0000_0000 && 0 <= b <= 65536;
            assert(neg * b == -(a * b)) by (nonlinear_arith)
                requires neg == -a;
        }
        let p: u64 = (neg as u64) * (b as u64);
        let q: u64 = p / 65536;
        -(q as i64)
    }
}

/// Truncating division of a sample by a positive count: `a / d` rounded
/// toward zero.
pub open spec fn div_trunc_spec(a: int, d: int) -> int {
    if a >= 0 {
        a / d
    } else {
        -((-a) / d)
    }
}

/// Divides a sample by a positive count, rounding toward zero.
pub fn div_trunc(a: i64, d: u64) -> (r: i64)
    requires
        1 <= d,
        -0x7FFF_FFFF_FFFF_FFFF <= a,
    ensures
        r == div_trunc_spec(a as int, d as int),
        a >= 0 ==> 0 <= r <= a,
        a <= 0 ==> a <= r <= 0,
{
    if a >= 0 {
        proof {
            lemma_div_pos_is_pos(a as int, d as int);
            lemma_div_nonincreasing(a as int, d as int);
        }
        ((a as u64) / d) as i64
    } else {
        let neg: i64 = -a;
        proof {
            lemma_div_pos_is_pos(neg as int, d as int);
            lemma_div_nonincreasing(neg as int, d as int);
        }
        -(((neg as u64) / d) as i64)
    }
}

/// Scaling by a factor of at most `ONE` never increases a value's magnitude.
pub proof fn lemma_fx_scale_bounds(a: int, b: int)
    requires
        0 <= b <= ONE,
    ensures
        a >= 0 ==> 0 <= fx_scale_spec(a, b) <= a,
        a <= 0 ==> a <= fx_scale_spec(a, b) <= 0,
{
    if a >= 0 {
        assert(a * b >= 0) by (nonlinear_arith)
            requires a >= 0 && b >= 0;
        assert(a * b <= a * 65536) by (nonlinear_arith)
            requires a >= 0 && b <= 65536;
        assert((a * b) / 65536 >= 0) by (nonlinear_arith)
            requires a * b >= 0;
        assert((a * b) / 65536 <= (a * 65536) / 65536) by (nonlinear_arith)
            requires a * b <= a * 65536;
        assert((a * 65536) / 65536 == a) by (nonlinear_arith);
    } else {
        assert(a * b <= 0) by (nonlinear_arith)
            requires a <= 0 && b >= 0;
        assert(-(a * b) <= (-a) * 65536) by (nonlinear_arith)
            requires a <= 0 && b <= 65536;
        assert((-(a * b)) / 65536 >= 0) by (nonlinear_arith)
            requires -(a * b) >= 0;
        assert((-(a * b)) / 65536 <= ((-a) * 65536) / 65536) by (nonlinear_arith)
            requires -(a * b) <= (-a) * 65536;
        assert(((-a) * 65536) / 65536 == -a) by (nonlinear_arith);
    }
}

/// Scaling by exactly `ONE` gives the value back unchanged.
pub proof fn lemma_fx_scale_one(a: int)
    ensures
        fx_scale_spec(a, ONE as int) == a,
{
    if a >= 0 {
        assert(a * 65536 >= 0) by (nonlinear_arith)
            requires a >= 0;
        assert((a * 65536) / 65536 == a) by (nonlinear_arith);
    } else {
        assert(a * 65536 < 0) by (nonlinear_arith)
            requires a < 0;
        assert(-(a * 65536) == (-a) * 65536) by (nonlinear_arith);
        assert(((-a) * 65536) / 65536 == -a) by (nonlinear_arith);
    }
}

/// Scaling by zero gives zero.
pub proof fn lemma_fx_scale_zero(a: int)
    ensures
        fx_scale_spec(a, 0) == 0,
{
    assert(a * 0 == 0) by (nonlinear_arith);
}

} // verus!
