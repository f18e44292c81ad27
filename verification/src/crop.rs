//! Crop planning: the pixel window that makes an image fill a cell of a given
//! aspect ratio exactly, without distortion.
//!
//! The cell ratio is the exact rational `ratio_h / ratio_w` (cell height over
//! cell width, both in millipoints).  When the cell is proportionally taller
//! than the image, the full height is kept and the width is cut down with
//! horizontal centering.  Otherwise the full width is kept and the height is
//! cut down from the bottom only (`y == 0`): the subjects are portraits, and
//! trimming feet is deliberately preferred over trimming hair.

use crate::units::rnd_div;
use vstd::prelude::*;

verus! {

/// A pixel rectangle inside a source image.
pub struct CropRectangle {
    pub x: u32,
    pub y: u32,
    pub width: u32,
    pub height: u32,
}

/// The cell is proportionally taller than the image:
/// `ratio_h / ratio_w > src_h / src_w`, cross-multiplied.
pub open spec fn cell_taller(src_w: int, src_h: int, ratio_h: int, ratio_w: int) -> bool {
    ratio_h * src_w > ratio_w * src_h
}

/// Width kept when the full height is kept: `round(src_h * ratio_w / ratio_h)`.
pub open spec fn spec_crop_width(src_h: int, ratio_h: int, ratio_w: int) -> int {
    rnd_div(src_h * ratio_w, ratio_h)
}

/// Height kept when the full width is kept: `round(src_w * ratio_h / ratio_w)`.
pub open spec fn spec_crop_height(src_w: int, ratio_h: int, ratio_w: int) -> int {
    rnd_div(src_w * ratio_h, ratio_w)
}

/// The planned crop window as `(x, y, width, height)`.
pub open spec fn spec_crop_rect(src_w: int, src_h: int, ratio_h: int, ratio_w: int) -> (
    int,
    int,
    int,
    int,
) {
    if cell_taller(src_w, src_h, ratio_h, ratio_w) {
        let w = spec_crop_width(src_h, ratio_h, ratio_w);
        ((src_w - w) / 2, 0, w, src_h)
    } else {
        (0, 0, src_w, spec_crop_height(src_w, ratio_h, ratio_w))
    }
}

/// Plan the crop window for a `src_w` by `src_h` pixel image and a cell of
/// aspect ratio `ratio_h / ratio_w`.
///
/// The window stays inside the image, leaves `y == 0` in both branches, and
/// its sides match the cell ratio up to the half-pixel the rounding may move.
pub fn plan_crop(src_w: u32, src_h: u32, ratio_h: u64, ratio_w: u64) -> (r: CropRectangle)
    requires
        1 <= src_w,
        1 <= src_h,
        1 <= ratio_h <= crate::units::MAX_LENGTH_INPUT,
        1 <= ratio_w <= crate::units::MAX_LENGTH_INPUT,
    ensures
        (r.x as int, r.y as int, r.width as int, r.height as int) == spec_crop_rect(
            src_w as int,
            src_h as int,
            ratio_h as int,
            ratio_w as int,
        ),
        r.y == 0,
        r.x + r.width <= src_w,
        r.height <= src_h,
        cell_taller(src_w as int, src_h as int, ratio_h as int, ratio_w as int) ==> {
            &&& r.height == src_h
            &&& r.width == spec_crop_width(src_h as int, ratio_h as int, ratio_w as int)
            &&& r.x == (src_w - r.width) / 2
            &&& 2 * r.width * ratio_h <= 2 * r.height * ratio_w + ratio_h
            &&& 2 * r.height * ratio_w <= 2 * r.width * ratio_h + ratio_h
        },
        !cell_taller(src_w as int, src_h as int, ratio_h as int, ratio_w as int) ==> {
            &&& r.width == src_w
            &&& r.height == spec_crop_height(src_w as int, ratio_h as int, ratio_w as int)
            &&& r.x == 0
            &&& 2 * r.height * ratio_w <= 2 * r.width * ratio_h + ratio_w
            &&& 2 * r.width * ratio_h <= 2 * r.height * ratio_w + ratio_w
        },
{
    let rw: u128 = ratio_w as u128;
    let rh: u128 = ratio_h as u128;
    proof {
        assert((ratio_h as int) * (src_w as int) < 0x40000000000000000000000 && (ratio_w as int)
            * (src_h as int) < 0x40000000000000000000000 && (src_h as int) * (ratio_w as int)
            < 0x40000000000000000000000 && (src_w as int) * (ratio_h as int)
            < 0x40000000000000000000000) by (nonlinear_arith)
            requires
                src_w <= u32::MAX,
                src_h <= u32::MAX,
                ratio_h <= crate::units::MAX_LENGTH_INPUT,
                ratio_w <= crate::units::MAX_LENGTH_INPUT,
                crate::units::MAX_LENGTH_INPUT == 0x4000000000000,
        ;
    }
    if (rh * src_w as u128) > (rw * src_h as u128) {
        // Cell taller than the image: keep the height, trim the sides.
        let a: u128 = src_h as u128 * rw;
        let w128: u128 = (2 * a + rh) / (2 * rh);
        proof {
            let x: int = 2 * (a as int) + ratio_h;
            let d: int = 2 * (ratio_h as int);
            vstd::arithmetic::div_mod::lemma_fundamental_div_mod(x, d);
            vstd::arithmetic::div_mod::lemma_mod_bound(x, d);
            assert(w128 == x / d);
            assert(w128 <= src_w && 2 * w128 * ratio_h <= 2 * src_h * ratio_w + ratio_h
                && 2 * src_h * ratio_w <= 2 * w128 * ratio_h + ratio_h) by (nonlinear_arith)
                requires
                    1 <= src_w,
                    1 <= src_h,
                    1 <= ratio_h,
                    1 <= ratio_w,
                    ratio_h * src_w > ratio_w * src_h,
                    a == (src_h as int) * (ratio_w as int),
                    x == 2 * (a as int) + ratio_h,
                    d == 2 * (ratio_h as int),
                    x == d * (w128 as int) + x % d,
                    0 <= x % d < d,
            ;
        }
        let width: u32 = w128 as u32;
        CropRectangle { x: (src_w - width) / 2, y: 0, width, height: src_h }
    } else {
        // Cell wider than (or equal to) the image: keep the width, trim the
        // bottom only.
        let a: u128 = src_w as u128 * rh;
        let h128: u128 = (2 * a + rw) / (2 * rw);
        proof {
            let x: int = 2 * (a as int) + ratio_w;
            let d: int = 2 * (ratio_w as int);
            vstd::arithmetic::div_mod::lemma_fundamental_div_mod(x, d);
            vstd::arithmetic::div_mod::lemma_mod_bound(x, d);
            assert(h128 == x / d);
            assert(h128 <= src_h && 2 * h128 * ratio_w <= 2 * src_w * ratio_h + ratio_w
                && 2 * src_w * ratio_h <= 2 * h128 * ratio_w + ratio_w) by (nonlinear_arith)
                requires
                    1 <= src_w,
                    1 <= src_h,
                    1 <= ratio_h,
                    1 <= ratio_w,
                    ratio_h * src_w <= ratio_w * src_h,
                    a == (src_w as int) * (ratio_h as int),
                    x == 2 * (a as int) + ratio_w,
                    d == 2 * (ratio_w as int),
                    x == d * (h128 as int) + x % d,
                    0 <= x % d < d,
            ;
        }
        CropRectangle { x: 0, y: 0, width: src_w, height: h128 as u32 }
    }
}

} // verus!
