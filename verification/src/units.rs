//! Physical unit conversions on integers.
//!
//! Convention: lengths are carried in millipoints (mpt), thousandths of a PDF
//! point; 1 point = 1/72 inch and 1 inch = 25.4 mm, so 1 mm = 360/127 points.
//! Centimeter amounts are carried in millionths of a centimeter.  Every
//! conversion rounds half-up at its last step.

use vstd::prelude::*;

verus! {

/// `a / b` rounded half-up, on non-negative operands.
pub open spec fn rnd_div(a: int, b: int) -> int
    recommends
        a >= 0,
        b >= 1,
{
    (2 * a + b) / (2 * b)
}

/// Millimeters (given in micrometers) to millipoints: `mm * 360 / 127`, rounded.
pub open spec fn spec_mm_to_mpt(micrometers: int) -> int {
    rnd_div(micrometers * 360, 127)
}

/// Millipoints to millionths of a centimeter: `pt * 2.54 / 72` scaled, rounded.
pub open spec fn spec_mpt_to_cm_millionths(mpt: int) -> int {
    rnd_div(mpt * 127000, 3600)
}

/// Pixels per printed inch: `round(pixels * 2.54 / cm)`, with the printed size
/// in millionths of a centimeter.
pub open spec fn spec_dpi(pixels: int, cm_millionths: int) -> int {
    rnd_div(pixels * 2540000, cm_millionths)
}

/// A length expressed in millimeters never needs more than this many
/// micrometers here (about 10^15), which keeps every conversion in `u64`.
pub const MAX_LENGTH_INPUT: u64 = 0x4000000000000;

/// A pixel dimension fits in 32 bits.
pub const MAX_PIXEL_INPUT: u64 = 0x100000000;

/// The largest printed size, in millionths of a centimeter, that the DPI
/// computation accepts; `MAX_LENGTH_INPUT` millipoints convert to less.
pub const MAX_CM_INPUT: u64 = 0x400000000000000;

/// Convert a length in micrometers to millipoints.
pub fn mm_to_mpt(micrometers: u64) -> (r: u64)
    requires
        micrometers <= MAX_LENGTH_INPUT,
    ensures
        r == spec_mm_to_mpt(micrometers as int),
{
    (2 * micrometers * 360 + 127) / 254
}

/// Convert a length in millipoints to millionths of a centimeter.
pub fn mpt_to_cm_millionths(mpt: u64) -> (r: u64)
    requires
        mpt <= MAX_LENGTH_INPUT,
    ensures
        r == spec_mpt_to_cm_millionths(mpt as int),
        r <= 36 * mpt,
        1 <= mpt ==> 1 <= r,
{
    let wide: u128 = (2 * (mpt as u128) * 127000 + 3600) / 7200;
    proof {
        assert(wide == spec_mpt_to_cm_millionths(mpt as int) && wide <= 36 * mpt && (1 <= mpt
            ==> 1 <= wide)) by (nonlinear_arith)
            requires
                wide == (2 * (mpt as int) * 127000 + 3600) / 7200,
                0 <= mpt <= 0x4000000000000,
        ;
    }
    wide as u64
}

/// Resolution in DPI (PPI) of `pixel_size` pixels printed over
/// `cm_millionths` millionths of a centimeter.
pub fn compute_dpi(pixel_size: usize, cm_millionths: u64) -> (r: u32)
    requires
        pixel_size <= MAX_PIXEL_INPUT,
        1 <= cm_millionths <= MAX_CM_INPUT,
        spec_dpi(pixel_size as int, cm_millionths as int) <= u32::MAX,
    ensures
        r == spec_dpi(pixel_size as int, cm_millionths as int),
{
    compute_dpi_wide(pixel_size as u64, cm_millionths) as u32
}

/// `compute_dpi` without the `u32` ceiling, for callers that must first learn
/// whether the resolution is within range.
pub fn compute_dpi_wide(pixel_size: u64, cm_millionths: u64) -> (r: u64)
    requires
        pixel_size <= MAX_PIXEL_INPUT,
        1 <= cm_millionths <= MAX_CM_INPUT,
    ensures
        r == spec_dpi(pixel_size as int, cm_millionths as int),
        r <= 2 * pixel_size * 2540000,
{
    let n: u64 = pixel_size * 2540000;
    proof {
        assert((2 * n + cm_millionths) / (2 * cm_millionths) <= 2 * n) by (nonlinear_arith)
            requires
                1 <= cm_millionths,
        ;
    }
    (2 * n + cm_millionths) / (2 * cm_millionths)
}

} // verus!
