//! Grid shape: how many rows and columns a batch of images occupies.
//!
//! Columns either come from the caller or from a heuristic aiming at a page
//! aspect ratio; rows are always the least count that fits every image.

use vstd::prelude::*;

verus! {

/// A grid of `rows` by `columns` cells, one image per cell.
pub struct GridSpec {
    pub rows: u32,
    pub columns: u32,
}

impl GridSpec {
    /// Both axes hold at least one cell.
    pub open spec fn well_formed(self) -> bool {
        1 <= self.rows && 1 <= self.columns
    }
}

/// `ceil(count / columns)`: the least row count whose grid holds `count` cells.
pub open spec fn spec_rows(count: int, columns: int) -> int
    recommends
        1 <= count,
        1 <= columns,
{
    (count + columns - 1) / columns
}

/// A grid with `spec_rows` rows covers every image, and with one row fewer
/// would not: rows is exactly the ceiling of `count / columns`.
pub proof fn lemma_grid_covers(count: int, columns: int)
    requires
        1 <= count,
        1 <= columns,
    ensures
        1 <= spec_rows(count, columns),
        count <= spec_rows(count, columns) * columns,
        (spec_rows(count, columns) - 1) * columns < count,
{
    let q = (count + columns - 1) / columns;
    let r = (count + columns - 1) % columns;
    vstd::arithmetic::div_mod::lemma_fundamental_div_mod(count + columns - 1, columns);
    vstd::arithmetic::div_mod::lemma_mod_bound(count + columns - 1, columns);
    assert(count + columns - 1 == columns * q + r);
    assert(1 <= q) by (nonlinear_arith)
        requires
            count + columns - 1 == columns * q + r,
            1 <= count,
            1 <= columns,
            0 <= r < columns,
    ;
    assert(count <= q * columns) by (nonlinear_arith)
        requires
            count + columns - 1 == columns * q + r,
            0 <= r < columns,
    ;
    assert((q - 1) * columns < count) by (nonlinear_arith)
        requires
            count + columns - 1 == columns * q + r,
            0 <= r < columns,
    ;
}

/// Derive the grid for `count` images over a fixed column count.
pub fn grid_for_count(count: usize, columns: u32) -> (g: GridSpec)
    requires
        1 <= count <= u32::MAX,
        1 <= columns,
    ensures
        g.columns == columns,
        g.rows == spec_rows(count as int, columns as int),
        g.well_formed(),
        count <= g.rows * g.columns,
{
    let rows64: u64 = (count as u64 + columns as u64 - 1) / columns as u64;
    proof {
        lemma_grid_covers(count as int, columns as int);
        assert(rows64 <= count) by (nonlinear_arith)
            requires
                rows64 == (count + columns - 1) / (columns as int),
                1 <= count,
                1 <= columns,
        ;
    }
    GridSpec { rows: rows64 as u32, columns }
}

/// `r` is the integer square root of `n`.
pub open spec fn is_isqrt(n: int, r: int) -> bool {
    0 <= r && r * r <= n && n < (r + 1) * (r + 1)
}

/// The integer square root: the unique `r` with `r^2 <= n < (r+1)^2`.
pub open spec fn spec_isqrt(n: int) -> int
    recommends
        0 <= n,
{
    choose|r: int| is_isqrt(n, r)
}

/// Two integer square roots of the same number are equal.
pub proof fn lemma_isqrt_unique(n: int, a: int, b: int)
    requires
        is_isqrt(n, a),
        is_isqrt(n, b),
    ensures
        a == b,
{
    assert(a == b) by (nonlinear_arith)
        requires
            0 <= a,
            a * a <= n,
            n < (a + 1) * (a + 1),
            0 <= b,
            b * b <= n,
            n < (b + 1) * (b + 1),
    ;
}

/// Integer square root by bisection.
pub fn isqrt(n: u64) -> (r: u64)
    ensures
        is_isqrt(n as int, r as int),
        r == spec_isqrt(n as int),
{
    let mut lo: u64 = 0;
    let mut hi: u64 = 0x100000000;
    while lo + 1 < hi
        invariant
            lo < hi <= 0x100000000,
            lo * lo <= n,
            (n as int) < (hi as int) * (hi as int),
        decreases hi - lo,
    {
        let mid: u64 = lo + (hi - lo) / 2;
        proof {
            assert((mid as int) * (mid as int) <= 0x10000000000000000) by (nonlinear_arith)
                requires
                    0 <= mid <= 0x100000000,
            ;
        }
        if (mid as u128) * (mid as u128) <= n as u128 {
            lo = mid;
        } else {
            hi = mid;
        }
    }
    proof {
        assert(is_isqrt(n as int, lo as int));
        lemma_isqrt_unique(n as int, lo as int, spec_isqrt(n as int));
    }
    lo
}

/// The column count aiming the page at the aspect ratio `num / den`
/// (height over width): `round(sqrt(count * den / num))`, clamped to 1.
///
/// With `t = floor(4 * count * den / num)`, the rounded square root of the
/// rational `count * den / num` is `(isqrt(t) + 1) / 2`.
pub open spec fn spec_suggest_columns(count: int, num: int, den: int) -> int
    recommends
        1 <= count,
        1 <= num,
        1 <= den,
{
    let half = (spec_isqrt(4 * count * den / num) + 1) / 2;
    if half < 1 {
        1
    } else {
        half
    }
}

/// Pick a column count for `count` images so that the resulting page
/// approaches the aspect ratio `ratio_num / ratio_den` (height over width).
pub fn suggest_columns(count: usize, ratio_num: u64, ratio_den: u64) -> (c: u32)
    requires
        1 <= count <= u32::MAX,
        1 <= ratio_num,
        1 <= ratio_den <= 0x10000,
    ensures
        c == spec_suggest_columns(count as int, ratio_num as int, ratio_den as int),
        1 <= c,
{
    proof {
        assert(4 * count * ratio_den <= 0x40000000000000) by (nonlinear_arith)
            requires
                count <= u32::MAX,
                ratio_den <= 0x10000,
        ;
    }
    let t: u64 = 4 * (count as u64) * ratio_den / ratio_num;
    let s: u64 = isqrt(t);
    proof {
        assert(s <= 0x100000000) by (nonlinear_arith)
            requires
                (s as int) * (s as int) <= t,
                0 <= s,
                t <= u64::MAX,
        ;
    }
    let half: u64 = (s + 1) / 2;
    if half < 1 {
        1
    } else {
        half as u32
    }
}

} // verus!
