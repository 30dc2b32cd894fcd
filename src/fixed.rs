//! Fixed-point conventions shared by every stage of the pipeline.
//!
//! Amplitudes and gains are Q16 numbers: the integer `v` stands for `v / 65536`,
//! so full scale `[-1, 1]` is `[-ONE, ONE]`. Phases of periodic functions are
//! whole `u32` values: `p` stands for the point `p / 2^32` of one period.
use vstd::prelude::*;

verus! {

/// The Q16 representation of `1.0`.
pub const ONE: i64 = 65536;

/// Number of `u32` phase steps in one period (`2^32`).
pub const PHASE_PERIOD: u64 = 0x1_0000_0000;

/// Half a period, in phase steps.
pub const HALF_PHASE: u32 = 0x8000_0000;

/// A Q16 amplitude lies in full scale.
pub open spec fn in_full_scale(v: int) -> bool {
    -ONE <= v <= ONE
}

/// Floor division by a positive divisor, as integer arithmetic defines it.
pub fn div_floor(a: i128, d: i128) -> (r: i128)
    requires
        d > 0,
    ensures
        r as int == a as int / d as int,
{
    if a >= 0 {
        a / d
    } else {
        let q: i128 = (-(a + 1)) / d;
        proof {
            let ai = a as int;
            let di = d as int;
            let qi = (-(ai + 1)) / di;
            let rem = (-(ai + 1)) % di;
            assert(-(ai + 1) == qi * di + rem && 0 <= rem < di) by (nonlinear_arith)
                requires
                    di > 0,
                    qi == (-(ai + 1)) / di,
                    rem == (-(ai + 1)) % di,
            ;
            assert(ai == (-qi - 1) * di + (di - 1 - rem)) by (nonlinear_arith)
                requires
                    -(ai + 1) == qi * di + rem,
            ;
            vstd::arithmetic::div_mod::lemma_fundamental_div_mod_converse(
                ai,
                di,
                -qi - 1,
                di - 1 - rem,
            );
        }
        -q - 1
    }
}

} // verus!
