//! Fixed-point numbers.
//!
//! Every level, frequency, amplitude and sample of the engine is a whole
//! number of millionths, held in an `i64` and kept within `LIMIT` of zero.
//! Products and quotients are rounded down, and a result that would leave
//! the range is held at the nearer end of it.

use vstd::prelude::*;
use vstd::arithmetic::div_mod::lemma_fundamental_div_mod_converse;

verus! {

/// A number of millionths.
pub type Fixed = i64;

/// The number one.
pub const ONE: i64 = 1_000_000;

/// The largest magnitude a stored value takes: one hundred million.
pub const LIMIT: i64 = 100_000_000_000_000;

/// Whether `x` lies in the range of stored values.
pub open spec fn in_range(x: int) -> bool {
    -LIMIT <= x <= LIMIT
}

/// `x` held to the range of stored values.
pub open spec fn clamp(x: int) -> int {
    if x < -LIMIT {
        -(LIMIT as int)
    } else if x > LIMIT {
        LIMIT as int
    } else {
        x
    }
}

/// The product of two fixed-point numbers, rounded down and held to range.
pub open spec fn scaled(a: int, b: int) -> int {
    clamp(a * b / (ONE as int))
}

/// `x` held to the range of stored values.
pub fn saturate(x: i128) -> (r: Fixed)
    ensures
        r == clamp(x as int),
        in_range(r as int),
{
    if x < -(LIMIT as i128) {
        -LIMIT
    } else if x > LIMIT as i128 {
        LIMIT
    } else {
        x as i64
    }
}

/// Division rounded towards minus infinity.
pub fn floor_div(a: i128, b: i128) -> (q: i128)
    requires
        b > 0,
    ensures
        q == a as int / b as int,
{
    if a >= 0 {
        a / b
    } else {
        let n: i128 = -(a + 1);
        let k: i128 = n / b;
        let r: i128 = n % b;
        proof {
            assert(n == b * k + r) by {
                vstd::arithmetic::div_mod::lemma_fundamental_div_mod(n as int, b as int);
            }
            assert(a == b * (-k - 1) + (b - r - 1)) by (nonlinear_arith)
                requires
                    n == b * k + r,
                    n == -(a + 1),
            ;
            lemma_fundamental_div_mod_converse(a as int, b as int, -k - 1, b - r - 1);
        }
        -k - 1
    }
}

/// The remainder that goes with `floor_div`: never negative.
pub fn floor_rem(a: i128, b: i128) -> (m: i128)
    requires
        b > 0,
    ensures
        m == a as int % b as int,
        0 <= m < b,
{
    if a >= 0 {
        a % b
    } else {
        let n: i128 = -(a + 1);
        let k: i128 = n / b;
        let r: i128 = n % b;
        proof {
            assert(n == b * k + r) by {
                vstd::arithmetic::div_mod::lemma_fundamental_div_mod(n as int, b as int);
            }
            assert(a == b * (-k - 1) + (b - r - 1)) by (nonlinear_arith)
                requires
                    n == b * k + r,
                    n == -(a + 1),
            ;
            lemma_fundamental_div_mod_converse(a as int, b as int, -k - 1, b - r - 1);
        }
        b - r - 1
    }
}

/// The product of two fixed-point numbers.
pub fn scale(a: Fixed, b: Fixed) -> (r: Fixed)
    ensures
        r == scaled(a as int, b as int),
        in_range(r as int),
{
    assert(-0x4000_0000_0000_0000_0000_0000_0000_0000 <= a * b
        <= 0x4000_0000_0000_0000_0000_0000_0000_0000) by (nonlinear_arith)
        requires
            -0x8000_0000_0000_0000 <= a <= 0x7fff_ffff_ffff_ffff,
            -0x8000_0000_0000_0000 <= b <= 0x7fff_ffff_ffff_ffff,
    ;
    let p: i128 = (a as i128) * (b as i128);
    saturate(floor_div(p, ONE as i128))
}

/// A quotient by a positive number is no larger than what was divided.
pub proof fn lemma_quotient_bound(x: int, d: int)
    requires
        d > 0,
    ensures
        x >= 0 ==> 0 <= x / d <= x,
        x < 0 ==> x <= x / d <= 0,
{
    if x >= 0 {
        vstd::arithmetic::div_mod::lemma_div_pos_is_pos(x, d);
        vstd::arithmetic::div_mod::lemma_div_nonincreasing(x, d);
    } else {
        vstd::arithmetic::div_mod::lemma_fundamental_div_mod(x, d);
        vstd::arithmetic::div_mod::lemma_mod_bound(x, d);
        let q = x / d;
        let r = x % d;
        assert(q <= -1) by (nonlinear_arith)
            requires
                x == d * q + r,
                0 <= r < d,
                x < 0,
                d > 0,
        ;
        assert((d - 1) * q <= -(d - 1)) by (nonlinear_arith)
            requires
                q <= -1,
                d > 0,
        ;
        assert(d * q == (d - 1) * q + q) by (nonlinear_arith);
    }
}

} // verus!
