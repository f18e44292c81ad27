//! Resolution planning: whether, and to what pixel size, an image must be
//! downsampled so that its printed resolution stays under a DPI ceiling.
//!
//! The plan never upscales: when the printed resolution is already at or
//! under the ceiling — or when there is no ceiling — the image is left alone.

use crate::units::{
    compute_dpi_wide, mpt_to_cm_millionths, spec_dpi, spec_mpt_to_cm_millionths, MAX_LENGTH_INPUT,
};
use vstd::prelude::*;

verus! {

/// Printed resolution of `src_w` pixels over a width of `printed_width_mpt`
/// millipoints.
pub open spec fn spec_print_dpi(src_w: int, printed_width_mpt: int) -> int {
    spec_dpi(src_w, spec_mpt_to_cm_millionths(printed_width_mpt))
}

/// The image exceeds the ceiling and a downscale is called for.
pub open spec fn needs_downscale(src_w: int, printed_width_mpt: int, max_dpi: Option<u32>) -> bool {
    match max_dpi {
        Some(m) => spec_print_dpi(src_w, printed_width_mpt) > m,
        None => false,
    }
}

/// The planned downscale as pixel dimensions, `None` when the image keeps
/// its native size.
pub open spec fn spec_plan_downscale(
    src_w: int,
    src_h: int,
    printed_width_mpt: int,
    max_dpi: Option<u32>,
) -> Option<(int, int)> {
    match max_dpi {
        None => None,
        Some(m) => {
            let dpi = spec_print_dpi(src_w, printed_width_mpt);
            if dpi <= m {
                None
            } else {
                Some((src_w * m / dpi, src_h * m / dpi))
            }
        },
    }
}

/// Decide whether a `src_w` by `src_h` pixel image printed over
/// `printed_width_mpt` millipoints must be downsampled to stay under
/// `max_dpi`, and to which pixel size.
///
/// `None` means the image keeps its native size: there is no ceiling, or the
/// printed resolution is already within it.  Otherwise both dimensions shrink
/// by the exact ratio `max_dpi / dpi`, truncated to whole pixels, which never
/// exceeds the native size.
pub fn plan_downscale(src_w: u32, src_h: u32, printed_width_mpt: u64, max_dpi: Option<u32>) -> (r:
    Option<(u32, u32)>)
    requires
        1 <= src_w,
        1 <= src_h,
        1 <= printed_width_mpt <= MAX_LENGTH_INPUT,
    ensures
        r is None <==> spec_plan_downscale(src_w as int, src_h as int, printed_width_mpt as int, max_dpi) is None,
        r matches Some((dw, dh)) ==> spec_plan_downscale(
            src_w as int,
            src_h as int,
            printed_width_mpt as int,
            max_dpi,
        ) == Some((dw as int, dh as int)),
        r.is_some() <==> needs_downscale(src_w as int, printed_width_mpt as int, max_dpi),
        max_dpi.is_none() ==> r.is_none(),
        r matches Some((dw, dh)) ==> {
            let dpi = spec_print_dpi(src_w as int, printed_width_mpt as int);
            let m = max_dpi.unwrap() as int;
            &&& dw == src_w * m / dpi
            &&& dh == src_h * m / dpi
            &&& dw <= src_w
            &&& dh <= src_h
        },
{
    match max_dpi {
        None => None,
        Some(m) => {
            let cm: u64 = mpt_to_cm_millionths(printed_width_mpt);
            proof {
                assert(36 * (printed_width_mpt as int) <= crate::units::MAX_CM_INPUT);
            }
            let dpi: u64 = compute_dpi_wide(src_w as u64, cm);
            if dpi <= m as u64 {
                None
            } else {
                proof {
                    assert((src_w as int) * (m as int) <= 0xffffffff * 0xffffffff && (src_h as int)
                        * (m as int) <= 0xffffffff * 0xffffffff) by (nonlinear_arith)
                        requires
                            src_w <= u32::MAX,
                            src_h <= u32::MAX,
                            m <= u32::MAX,
                    ;
                }
                let dw: u64 = (src_w as u64) * (m as u64) / dpi;
                let dh: u64 = (src_h as u64) * (m as u64) / dpi;
                proof {
                    assert(dw <= src_w && dh <= src_h) by (nonlinear_arith)
                        requires
                            dw == src_w * (m as int) / (dpi as int),
                            dh == src_h * (m as int) / (dpi as int),
                            0 <= m < dpi,
                            1 <= src_w,
                            1 <= src_h,
                    ;
                }
                Some((dw as u32, dh as u32))
            }
        },
    }
}

} // verus!
