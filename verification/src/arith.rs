//! Signed division helpers for snapping coordinates onto a lattice.
//!
//! Machine division on `i64` truncates toward zero, but lattice snapping
//! needs mathematical flooring (and, for centred cells, rounding to the
//! nearest index, halves away from zero). Both are implemented here over
//! non-negative machine division only, with their meaning stated against
//! the mathematical operators.

use vstd::prelude::*;

verus! {

use vstd::arithmetic::div_mod::lemma_div_nonincreasing;
use vstd::arithmetic::div_mod::lemma_fundamental_div_mod;
use vstd::arithmetic::div_mod::lemma_fundamental_div_mod_converse;

/// `n / d` rounded to the nearest integer, halves away from zero.
pub open spec fn rounded_div(n: int, d: int) -> int
    recommends
        0 < d,
{
    if n >= 0 {
        (2 * n + d) / (2 * d)
    } else {
        -((2 * -n + d) / (2 * d))
    }
}

/// Floor division: `a / b` in the mathematical sense (toward minus infinity).
pub fn floor_div(a: i64, b: i64) -> (r: i64)
    requires
        0 < b,
        i64::MIN < a,
    ensures
        r == a as int / b as int,
{
    if a >= 0 {
        let q = (a as u64) / (b as u64);
        proof {
            lemma_div_nonincreasing(a as int, b as int);
        }
        q as i64
    } else {
        let n = (-a) as u64;
        let q = (n - 1) / (b as u64);
        proof {
            let qi = q as int;
            let rem = (n - 1) as int % (b as int);
            lemma_fundamental_div_mod((n - 1) as int, b as int);
            lemma_div_nonincreasing((n - 1) as int, b as int);
            assert(a as int == (-qi - 1) * (b as int) + (b as int - rem - 1)) by (nonlinear_arith)
                requires
                    (n - 1) as int == (b as int) * qi + rem,
                    a as int == -(n as int),
            {
            }
            lemma_fundamental_div_mod_converse(a as int, b as int, -qi - 1, b as int - rem - 1);
        }
        -((q + 1) as i64)
    }
}

/// Division rounded to the nearest integer, halves away from zero.
pub fn round_div(n: i64, d: i64) -> (r: i64)
    requires
        0 < d <= 0x2000_0000_0000_0000,
        -0x2000_0000_0000_0000 <= n <= 0x2000_0000_0000_0000,
    ensures
        r == rounded_div(n as int, d as int),
{
    if n >= 0 {
        let q = (2 * (n as u64) + (d as u64)) / (2 * (d as u64));
        proof {
            lemma_div_nonincreasing(2 * (n as int) + d as int, 2 * (d as int));
        }
        q as i64
    } else {
        let m = (-n) as u64;
        let q = (2 * m + (d as u64)) / (2 * (d as u64));
        proof {
            lemma_div_nonincreasing(2 * (m as int) + d as int, 2 * (d as int));
        }
        -(q as i64)
    }
}

} // verus!
