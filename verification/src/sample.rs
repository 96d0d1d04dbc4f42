//! Fixed-point audio sample arithmetic.
//!
//! A sample is an `i64` in Q47.16 fixed point: `SAMPLE_UNIT` (65536) is an
//! amplitude of one.  Gains use the same scale, so applying a gain divides
//! the raw product by `SAMPLE_UNIT`.  Mixing accumulates with saturation at
//! the `i64` range, which leaves a headroom of about 2^47 full-scale units;
//! within that range the arithmetic is exact.

use vstd::prelude::*;

verus! {

/// The fixed-point representation of an amplitude of one.
pub const SAMPLE_UNIT: i64 = 65536;

/// Clamps a mathematical integer into the `i64` range.
pub open spec fn clamp64(v: int) -> int {
    if v > i64::MAX {
        i64::MAX as int
    } else if v < i64::MIN {
        i64::MIN as int
    } else {
        v
    }
}

/// Division by `SAMPLE_UNIT` that truncates toward zero, as the executable
/// magnitude-based division does.
pub open spec fn unit_div(p: int) -> int {
    if p >= 0 {
        p / (SAMPLE_UNIT as int)
    } else {
        -((-p) / (SAMPLE_UNIT as int))
    }
}

/// The sample obtained by applying gain `g` to sample `s`.
pub open spec fn spec_scale(s: int, g: int) -> int {
    clamp64(unit_div(s * g))
}

/// Saturating accumulation of two samples.
pub open spec fn spec_mix(a: int, b: int) -> int {
    clamp64(a + b)
}

/// Applies a fixed-point gain to a sample, saturating at the `i64` range.
pub fn scale_sample(s: i64, g: i64) -> (r: i64)
    ensures
        r as int == spec_scale(s as int, g as int),
{
    proof {
        assert((s as int) * (g as int) <= 0x4000_0000_0000_0000_0000_0000_0000_0000int
            && (s as int) * (g as int) >= -0x4000_0000_0000_0000_0000_0000_0000_0000int)
            by (nonlinear_arith)
            requires
                -0x8000_0000_0000_0000 <= s as int <= 0x7fff_ffff_ffff_ffff,
                -0x8000_0000_0000_0000 <= g as int <= 0x7fff_ffff_ffff_ffff,
        ;
    }
    let p: i128 = (s as i128) * (g as i128);
    if p >= 0 {
        let q: u128 = (p as u128) / (SAMPLE_UNIT as u128);
        if q > i64::MAX as u128 {
            i64::MAX
        } else {
            q as i64
        }
    } else {
        let q: u128 = ((-p) as u128) / (SAMPLE_UNIT as u128);
        if q >= 0x8000_0000_0000_0000u128 {
            i64::MIN
        } else {
            proof {
                assert(-((-(p as int)) / (SAMPLE_UNIT as int)) == unit_div(p as int));
            }
            -(q as i64)
        }
    }
}

/// Accumulates `b` onto `a`, saturating at the `i64` range.
pub fn mix_sample(a: i64, b: i64) -> (r: i64)
    ensures
        r as int == spec_mix(a as int, b as int),
{
    let s: i128 = (a as i128) + (b as i128);
    if s > i64::MAX as i128 {
        i64::MAX
    } else if s < i64::MIN as i128 {
        i64::MIN
    } else {
        s as i64
    }
}

/// A zero gain silences any sample.
pub proof fn lemma_scale_zero(s: int)
    ensures
        spec_scale(s, 0) == 0,
{
    assert(s * 0 == 0) by (nonlinear_arith);
}

/// Within the `i64` range, mixing is plain addition: saturation never
/// rounds a representable sum.
pub proof fn lemma_mix_exact(a: int, b: int)
    requires
        i64::MIN <= a + b <= i64::MAX,
    ensures
        spec_mix(a, b) == a + b,
{
}

} // verus!
