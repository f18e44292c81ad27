//! The grid layout engine: iterate images in order, give each a row-major
//! cell, plan its crop and downscale, obtain its final bytes through the
//! transform cache, and emit placement geometry plus a composed caption.
//!
//! Coordinates are bottom-left anchored, as a PDF page's are: cell `(0, 0)`
//! sits at the top-left of the grid, and `cell_bottom` measures from the
//! page's bottom edge.

use crate::cache::{cache_file_name, spec_cache_name, TransformCache};
use crate::codec::{decodable, header_size_of, transformed_of, read_header, TransformError};
use crate::crop::{plan_crop, spec_crop_rect, CropRectangle};
use crate::grid::{grid_for_count, spec_rows, GridSpec};
use crate::resolution::{plan_downscale, spec_plan_downscale};
use crate::text::{nfc_of, normalize_unicode};
use crate::units::MAX_LENGTH_INPUT;
use vstd::prelude::*;

verus! {

/// One input image: its identity, which doubles as caption text and cache
/// key component, and its raw bytes.
pub struct SourceImage {
    pub identity: String,
    pub bytes: Vec<u8>,
}

/// Per-run rendering configuration: outer page margins, gutters between
/// cells, the optional DPI ceiling (`None` never downsamples), and the
/// substitute image for entries that will not decode.  Lengths are in
/// millipoints.
pub struct RenderConfig {
    pub page_hmargin: u64,
    pub page_vmargin: u64,
    pub inner_hmargin: u64,
    pub inner_vmargin: u64,
    pub max_dpi: Option<u32>,
    pub placeholder: Vec<u8>,
    pub placeholder_width: u32,
    pub placeholder_height: u32,
}

impl RenderConfig {
    /// Margins within the representable range and a plausible placeholder.
    pub open spec fn wf(&self) -> bool {
        &&& self.page_hmargin <= MAX_LENGTH_INPUT
        &&& self.page_vmargin <= MAX_LENGTH_INPUT
        &&& self.inner_hmargin <= MAX_LENGTH_INPUT
        &&& self.inner_vmargin <= MAX_LENGTH_INPUT
        &&& 1 <= self.placeholder_width
        &&& 1 <= self.placeholder_height
    }
}

/// The size of one grid cell, in millipoints.
pub struct CellGeometry {
    pub width: u64,
    pub height: u64,
}

/// Why a layout run was rejected or aborted.
#[derive(Clone, Copy, PartialEq, Eq, Structural, Debug)]
pub enum LayoutError {
    /// The page, margins and grid shape leave no room for a cell.
    CellTooSmall,
    /// An image survived decoding but its transformed pixels would not
    /// encode.
    EncodeFailed,
    /// The configured placeholder itself would not transform.
    PlaceholderFailed,
}

/// Room left for cells along one axis: the page size minus both outer
/// margins and the gutters between `count` cells.
pub open spec fn spec_avail(page: int, margin: int, inner: int, count: int) -> int {
    page - 2 * margin - (count - 1) * inner
}

/// Each cell's share of one axis.
pub open spec fn spec_cell_extent(page: int, margin: int, inner: int, count: int) -> int {
    spec_avail(page, margin, inner, count) / count
}

/// Whether the grid leaves every cell at least one millipoint on both axes.
pub open spec fn spec_cells_fit(
    page_w: int,
    page_h: int,
    cfg: RenderConfig,
    grid: GridSpec,
) -> bool {
    &&& spec_avail(page_w, cfg.page_hmargin as int, cfg.inner_hmargin as int, grid.columns as int)
        >= grid.columns
    &&& spec_avail(page_h, cfg.page_vmargin as int, cfg.inner_vmargin as int, grid.rows as int)
        >= grid.rows
}

/// Split the page into cells: both axes independently lose their outer
/// margins and gutters, and the rest is divided evenly.  Rejected when a
/// cell would come out empty.
pub fn cell_size(page_width: u64, page_height: u64, cfg: &RenderConfig, grid: &GridSpec) -> (r:
    Result<CellGeometry, LayoutError>)
    requires
        page_width <= MAX_LENGTH_INPUT,
        page_height <= MAX_LENGTH_INPUT,
        cfg.wf(),
        grid.well_formed(),
    ensures
        r is Ok <==> spec_cells_fit(page_width as int, page_height as int, *cfg, *grid),
        r matches Err(e) ==> e == LayoutError::CellTooSmall,
        r matches Ok(c) ==> {
            &&& c.width == spec_cell_extent(
                page_width as int,
                cfg.page_hmargin as int,
                cfg.inner_hmargin as int,
                grid.columns as int,
            )
            &&& c.height == spec_cell_extent(
                page_height as int,
                cfg.page_vmargin as int,
                cfg.inner_vmargin as int,
                grid.rows as int,
            )
            &&& 1 <= c.width <= page_width
            &&& 1 <= c.height <= page_height
        },
{
    let w = axis_extent(page_width, cfg.page_hmargin, cfg.inner_hmargin, grid.columns);
    let h = axis_extent(page_height, cfg.page_vmargin, cfg.inner_vmargin, grid.rows);
    match (w, h) {
        (Some(width), Some(height)) => Ok(CellGeometry { width, height }),
        _ => Err(LayoutError::CellTooSmall),
    }
}

/// One axis of `cell_size`.
fn axis_extent(page: u64, margin: u64, inner: u64, count: u32) -> (r: Option<u64>)
    requires
        page <= MAX_LENGTH_INPUT,
        margin <= MAX_LENGTH_INPUT,
        inner <= MAX_LENGTH_INPUT,
        1 <= count,
    ensures
        r is Some <==> spec_avail(page as int, margin as int, inner as int, count as int) >= count,
        r matches Some(c) ==> c == spec_cell_extent(
            page as int,
            margin as int,
            inner as int,
            count as int,
        ) && 1 <= c <= page,
{
    proof {
        assert((count - 1) * (inner as int) <= 0x100000000 * 0x4000000000000) by (nonlinear_arith)
            requires
                1 <= count <= u32::MAX,
                inner <= 0x4000000000000,
        ;
    }
    let used: u128 = 2 * (margin as u128) + (count as u128 - 1) * (inner as u128);
    let need: u128 = used + count as u128;
    if (page as u128) < need {
        None
    } else {
        let avail: u128 = page as u128 - used;
        let c: u128 = avail / (count as u128);
        proof {
            assert((avail as int) / (count as int) >= 1 && (avail as int) / (count as int)
                <= avail) by (nonlinear_arith)
                requires
                    1 <= count,
                    count <= avail,
            ;
        }
        Some((c as u64))
    }
}

/// Left edge of the cell in `column`.
pub open spec fn spec_cell_left(margin: int, column: int, cell_w: int, inner: int) -> int {
    margin + column * (cell_w + inner)
}

/// Bottom edge of the cell in `row`, measured from the page's bottom:
/// row 0 sits at the top.
pub open spec fn spec_cell_bottom(
    page_h: int,
    margin: int,
    row: int,
    cell_h: int,
    inner: int,
) -> int {
    page_h - (margin + cell_h + row * (cell_h + inner))
}

/// Every cell of the grid lies inside the page: its left edge keeps a cell
/// width of room, and its bottom edge is non-negative.
pub proof fn lemma_cell_in_page(
    page: int,
    margin: int,
    inner: int,
    count: int,
    cell: int,
    index: int,
)
    requires
        1 <= count,
        0 <= index < count,
        0 <= margin,
        0 <= inner,
        0 <= page,
        cell == spec_cell_extent(page, margin, inner, count),
        spec_avail(page, margin, inner, count) >= count,
    ensures
        1 <= cell,
        margin + index * (cell + inner) + cell <= page,
        margin + cell + index * (cell + inner) <= page,
{
    let avail = spec_avail(page, margin, inner, count);
    vstd::arithmetic::div_mod::lemma_fundamental_div_mod(avail, count);
    vstd::arithmetic::div_mod::lemma_mod_bound(avail, count);
    assert(1 <= cell && margin + index * (cell + inner) + cell <= page) by (nonlinear_arith)
        requires
            1 <= count,
            0 <= index < count,
            0 <= margin,
            0 <= inner,
            avail == page - 2 * margin - (count - 1) * inner,
            avail >= count,
            avail == count * cell + avail % count,
            0 <= avail % count < count,
    ;
}

/// The placement of one image: its cell indices, the cell's page position
/// and render extent in millipoints, the final encoded bytes, and the
/// composed caption.
pub struct CellPlacement {
    pub identity: String,
    pub caption: String,
    pub row: u32,
    pub column: u32,
    pub cell_left: u64,
    pub cell_bottom: u64,
    pub render_width: u64,
    pub render_height: u64,
    pub bytes: Vec<u8>,
    pub used_placeholder: bool,
}

/// The pixel source the layout uses for one image — `(width, height, bytes,
/// substituted)`: the image's own header dimensions and bytes, or the
/// configured placeholder when the header is unreadable or outsized.
pub open spec fn effective_source(img: SourceImage, cfg: RenderConfig) -> (int, int, Seq<u8>, bool) {
    match header_size_of(img.bytes@) {
        Some(wh) => if 1 <= wh.0 <= u32::MAX && 1 <= wh.1 <= u32::MAX {
            (wh.0 as int, wh.1 as int, img.bytes@, false)
        } else {
            (cfg.placeholder_width as int, cfg.placeholder_height as int, cfg.placeholder@, true)
        },
        None => (
            cfg.placeholder_width as int,
            cfg.placeholder_height as int,
            cfg.placeholder@,
            true,
        ),
    }
}

/// The crop window for a `w` by `h` source in a cell of `cell`'s shape.
pub open spec fn spec_cell_crop(w: int, h: int, cell: CellGeometry) -> CropRectangle {
    let c = spec_crop_rect(w, h, cell.height as int, cell.width as int);
    CropRectangle { x: c.0 as u32, y: c.1 as u32, width: c.2 as u32, height: c.3 as u32 }
}

/// What the codec chain yields for source `data` of `w` by `h` pixels in a
/// cell of `cell`'s shape under the ceiling `max_dpi`.
pub open spec fn spec_transform(
    data: Seq<u8>,
    w: int,
    h: int,
    cell: CellGeometry,
    max_dpi: Option<u32>,
) -> Option<Seq<u8>> {
    let c = spec_cell_crop(w, h, cell);
    let resize = match spec_plan_downscale(w, h, cell.width as int, max_dpi) {
        None => None,
        Some((a, b)) => Some((a as u32, b as u32)),
    };
    transformed_of(data, c.x, c.y, c.width, c.height, resize)
}

/// The cache key for one image's transform.
pub open spec fn spec_key(
    identity: Seq<char>,
    w: int,
    h: int,
    cell: CellGeometry,
    max_dpi: Option<u32>,
) -> Seq<char> {
    spec_cache_name(identity, spec_cell_crop(w, h, cell), max_dpi)
}

/// The transformed placeholder for a cell of `cell`'s shape.
pub open spec fn spec_placeholder_bytes(cfg: RenderConfig, cell: CellGeometry) -> Option<Seq<u8>> {
    spec_transform(
        cfg.placeholder@,
        cfg.placeholder_width as int,
        cfg.placeholder_height as int,
        cell,
        cfg.max_dpi,
    )
}

/// A placeholder substitution: its bytes are never cached.
pub open spec fn placeholder_model(
    cfg: RenderConfig,
    cell: CellGeometry,
    m: Map<Seq<char>, Seq<u8>>,
) -> Result<(Seq<u8>, Map<Seq<char>, Seq<u8>>, nat, bool), LayoutError> {
    match spec_placeholder_bytes(cfg, cell) {
        Some(b) => Ok((b, m, 0, true)),
        None => Err(LayoutError::PlaceholderFailed),
    }
}

/// What processing one image does — `(bytes placed, cache contents after,
/// transforms computed into the cache, placeholder substituted)`, or the
/// error that aborts the run.
///
/// A cache hit returns the stored bytes untouched; a miss stores the fresh
/// transform; an image that will not decode falls back to the placeholder;
/// an image whose transformed pixels will not encode aborts.
pub open spec fn step_model(
    img: SourceImage,
    cfg: RenderConfig,
    cell: CellGeometry,
    m: Map<Seq<char>, Seq<u8>>,
) -> Result<(Seq<u8>, Map<Seq<char>, Seq<u8>>, nat, bool), LayoutError> {
    let (w, h, data, from_ph) = effective_source(img, cfg);
    if from_ph {
        placeholder_model(cfg, cell, m)
    } else {
        let key = spec_key(img.identity@, w, h, cell, cfg.max_dpi);
        if m.contains_key(key) {
            Ok((m[key], m, 0, false))
        } else {
            match spec_transform(data, w, h, cell, cfg.max_dpi) {
                Some(b) => Ok((b, m.insert(key, b), 1, false)),
                None => if decodable(data) {
                    Err(LayoutError::EncodeFailed)
                } else {
                    placeholder_model(cfg, cell, m)
                },
            }
        }
    }
}

/// Transform the configured placeholder for a cell of `cell`'s shape.
fn placeholder_piece(cfg: &RenderConfig, cell: &CellGeometry) -> (r: Result<Vec<u8>, LayoutError>)
    requires
        cfg.wf(),
        1 <= cell.width <= MAX_LENGTH_INPUT,
        1 <= cell.height <= MAX_LENGTH_INPUT,
    ensures
        r is Ok <==> spec_placeholder_bytes(*cfg, *cell) is Some,
        r matches Ok(b) ==> Some(b@) == spec_placeholder_bytes(*cfg, *cell),
        r matches Err(e) ==> e == LayoutError::PlaceholderFailed,
{
    let crop: CropRectangle = plan_crop(
        cfg.placeholder_width,
        cfg.placeholder_height,
        cell.height,
        cell.width,
    );
    let plan: Option<(u32, u32)> = plan_downscale(
        cfg.placeholder_width,
        cfg.placeholder_height,
        cell.width,
        cfg.max_dpi,
    );
    proof {
        assert(crop == spec_cell_crop(
            cfg.placeholder_width as int,
            cfg.placeholder_height as int,
            *cell,
        ));
    }
    match crate::codec::transform_image(&cfg.placeholder, &crop, &plan) {
        Ok(b) => Ok(b),
        Err(_) => Err(LayoutError::PlaceholderFailed),
    }
}

/// Obtain the bytes that fill one image's cell, through the cache, and say
/// whether the placeholder stood in.
fn place_bytes(
    img: &SourceImage,
    cfg: &RenderConfig,
    cell: &CellGeometry,
    cache: &mut TransformCache,
) -> (r: Result<(Vec<u8>, bool), LayoutError>)
    requires
        old(cache).wf(),
        cfg.wf(),
        1 <= cell.width <= MAX_LENGTH_INPUT,
        1 <= cell.height <= MAX_LENGTH_INPUT,
    ensures
        final(cache).wf(),
        match step_model(*img, *cfg, *cell, old(cache)@) {
            Ok((b, m2, dc, ph)) => (r matches Ok(p) && p.0@ == b && p.1 == ph && final(cache)@
                == m2 && final(cache).computed_count() == old(cache).computed_count() + dc),
            Err(e) => (r matches Err(e2) && e2 == e && final(cache)@ == old(cache)@
                && final(cache).computed_count() == old(cache).computed_count()),
        },
{
    let (w, h, from_ph): (u32, u32, bool) = match read_header(&img.bytes) {
        Ok((w0, h0)) => {
            if 1 <= w0 && w0 <= 0xffffffff && 1 <= h0 && h0 <= 0xffffffff {
                (w0 as u32, h0 as u32, false)
            } else {
                (cfg.placeholder_width, cfg.placeholder_height, true)
            }
        },
        Err(_) => (cfg.placeholder_width, cfg.placeholder_height, true),
    };
    if from_ph {
        return match placeholder_piece(cfg, cell) {
            Ok(b) => Ok((b, true)),
            Err(e) => Err(e),
        };
    }
    let crop: CropRectangle = plan_crop(w, h, cell.height, cell.width);
    let plan: Option<(u32, u32)> = plan_downscale(w, h, cell.width, cfg.max_dpi);
    let key: String = cache_file_name(&img.identity, &crop, cfg.max_dpi);
    proof {
        assert(crop == spec_cell_crop(w as int, h as int, *cell));
    }
    match cache.get_or_compute(&key, &img.bytes, &crop, &plan) {
        Ok(b) => Ok((b, false)),
        Err(e) => {
            match e {
                TransformError::Encode => Err(LayoutError::EncodeFailed),
                TransformError::Decode => match placeholder_piece(cfg, cell) {
                    Ok(b) => Ok((b, true)),
                    Err(e2) => Err(e2),
                },
            }
        },
    }
}

/// Where a cell's caption goes once its rendered width is known: centered
/// horizontally in the cell, and dropped below the cell's bottom edge by
/// half the vertical gutter.
pub fn caption_position(
    cell_left: u64,
    cell_bottom: u64,
    cell_width: u64,
    text_width: u64,
    inner_vmargin: u64,
) -> (r: (u64, u64))
    requires
        text_width <= cell_width,
        cell_left + cell_width <= 2 * MAX_LENGTH_INPUT,
        inner_vmargin / 2 <= cell_bottom,
    ensures
        r.0 == cell_left + (cell_width - text_width) / 2,
        r.1 == cell_bottom - inner_vmargin / 2,
{
    (cell_left + (cell_width - text_width) / 2, cell_bottom - inner_vmargin / 2)
}

/// The run over the first `k` images: what each cell shows (bytes and
/// whether the placeholder stood in), the cache contents after, and how many
/// transforms were computed into the cache — or, on an abort, the error with
/// the cache contents and count at that point.
pub open spec fn run_model(
    imgs: Seq<SourceImage>,
    cfg: RenderConfig,
    cell: CellGeometry,
    k: int,
    m0: Map<Seq<char>, Seq<u8>>,
) -> Result<(Seq<(Seq<u8>, bool)>, Map<Seq<char>, Seq<u8>>, nat), (
    LayoutError,
    Map<Seq<char>, Seq<u8>>,
    nat,
)>
    decreases k,
{
    if k <= 0 {
        Ok((Seq::empty(), m0, 0))
    } else {
        match run_model(imgs, cfg, cell, k - 1, m0) {
            Ok((outs, m, c)) => match step_model(imgs[k - 1], cfg, cell, m) {
                Ok((b, m2, dc, ph)) => Ok((outs.push((b, ph)), m2, (c + dc) as nat)),
                Err(e) => Err((e, m, c)),
            },
            Err(e) => Err(e),
        }
    }
}

/// Once a run has aborted, processing no further image changes the outcome.
proof fn lemma_run_model_err(
    imgs: Seq<SourceImage>,
    cfg: RenderConfig,
    cell: CellGeometry,
    k: int,
    n: int,
    m0: Map<Seq<char>, Seq<u8>>,
)
    requires
        run_model(imgs, cfg, cell, k, m0) is Err,
        k <= n,
    ensures
        run_model(imgs, cfg, cell, n, m0) == run_model(imgs, cfg, cell, k, m0),
    decreases n - k,
{
    if k < n {
        lemma_run_model_err(imgs, cfg, cell, k, n - 1, m0);
    }
}

/// The grid a run derives: the given columns, and as many rows as `count`
/// images need.
pub open spec fn derived_grid(count: int, columns: u32) -> GridSpec {
    GridSpec { rows: spec_rows(count, columns as int) as u32, columns }
}

/// The cell a run derives from the page, the margins and the grid.
pub open spec fn derived_cell(
    page_w: int,
    page_h: int,
    cfg: RenderConfig,
    grid: GridSpec,
) -> CellGeometry {
    CellGeometry {
        width: spec_cell_extent(
            page_w,
            cfg.page_hmargin as int,
            cfg.inner_hmargin as int,
            grid.columns as int,
        ) as u64,
        height: spec_cell_extent(
            page_h,
            cfg.page_vmargin as int,
            cfg.inner_vmargin as int,
            grid.rows as int,
        ) as u64,
    }
}

/// What one emitted placement must say for the image at index `i`.
pub open spec fn placement_ok(
    p: CellPlacement,
    img: SourceImage,
    i: int,
    cfg: RenderConfig,
    cell: CellGeometry,
    page_h: int,
    columns: u32,
    out: (Seq<u8>, bool),
) -> bool {
    &&& p.identity@ == img.identity@
    &&& p.caption@ == nfc_of(img.identity@)
    &&& p.row == i / (columns as int)
    &&& p.column == i % (columns as int)
    &&& p.cell_left == spec_cell_left(
        cfg.page_hmargin as int,
        p.column as int,
        cell.width as int,
        cfg.inner_hmargin as int,
    )
    &&& p.cell_bottom == spec_cell_bottom(
        page_h,
        cfg.page_vmargin as int,
        p.row as int,
        cell.height as int,
        cfg.inner_vmargin as int,
    )
    &&& p.render_width == cell.width
    &&& p.render_height == cell.height
    &&& p.bytes@ == out.0
    &&& p.used_placeholder == out.1
}

/// Lay out `images`, in their order, over a grid of the given column count
/// on a `page_width` by `page_height` page: derive the grid and cell
/// geometry, reject an unworkable configuration, and give every image a
/// row-major cell with its transformed bytes and caption.
///
/// One undecodable image does not abort the run: its cell shows the
/// configured placeholder.  A failing encode does abort it, as does a
/// placeholder that will not transform.
pub fn render_layout(
    images: &Vec<SourceImage>,
    columns: u32,
    page_width: u64,
    page_height: u64,
    cfg: &RenderConfig,
    cache: &mut TransformCache,
) -> (r: Result<Vec<CellPlacement>, LayoutError>)
    requires
        1 <= images@.len() <= u32::MAX,
        1 <= columns,
        page_width <= MAX_LENGTH_INPUT,
        page_height <= MAX_LENGTH_INPUT,
        cfg.wf(),
        old(cache).wf(),
    ensures
        final(cache).wf(),
        ({
            let grid = derived_grid(images@.len() as int, columns);
            let cell = derived_cell(page_width as int, page_height as int, *cfg, grid);
            let fits = spec_cells_fit(page_width as int, page_height as int, *cfg, grid);
            &&& (!fits ==> (r matches Err(e) && e == LayoutError::CellTooSmall && final(cache)@
                == old(cache)@ && final(cache).computed_count() == old(cache).computed_count()))
            &&& (fits ==> match run_model(
                images@,
                *cfg,
                cell,
                images@.len() as int,
                old(cache)@,
            ) {
                Ok((outs, m2, cost)) => (r matches Ok(ps) && ps@.len() == images@.len()
                    && final(cache)@ == m2
                    && final(cache).computed_count() == old(cache).computed_count() + cost
                    && forall|i: int|
                    0 <= i < ps@.len() ==> #[trigger] placement_ok(
                        ps@[i],
                        images@[i],
                        i,
                        *cfg,
                        cell,
                        page_height as int,
                        columns,
                        outs[i],
                    )),
                Err((e, m2, cost)) => (r matches Err(e2) && e2 == e && final(cache)@ == m2
                    && final(cache).computed_count() == old(cache).computed_count() + cost),
            })
        }),
{
    let n: usize = images.len();
    let grid: GridSpec = grid_for_count(n, columns);
    let cell: CellGeometry = match cell_size(page_width, page_height, cfg, &grid) {
        Ok(c) => c,
        Err(e) => {
            return Err(e);
        },
    };
    let ghost m0 = cache@;
    let ghost c0 = cache.computed_count();
    let mut out: Vec<CellPlacement> = Vec::new();
    let mut i: usize = 0;
    while i < n
        invariant
            i <= n,
            n == images@.len(),
            1 <= n <= u32::MAX,
            1 <= columns,
            cfg.wf(),
            cache.wf(),
            page_width <= MAX_LENGTH_INPUT,
            page_height <= MAX_LENGTH_INPUT,
            grid == derived_grid(n as int, columns),
            grid.well_formed(),
            n <= grid.rows * grid.columns,
            cell == derived_cell(page_width as int, page_height as int, *cfg, grid),
            spec_cells_fit(page_width as int, page_height as int, *cfg, grid),
            1 <= cell.width <= page_width,
            1 <= cell.height <= page_height,
            out@.len() == i,
            m0 == old(cache)@,
            c0 == old(cache).computed_count(),
            run_model(images@, *cfg, cell, i as int, m0) matches Ok((outs, m, c))
                && outs.len() == i && m == cache@ && c0 + c == cache.computed_count()
                && forall|j: int|
                0 <= j < i ==> #[trigger] placement_ok(
                    out@[j],
                    images@[j],
                    j,
                    *cfg,
                    cell,
                    page_height as int,
                    columns,
                    outs[j],
                ),
        decreases n - i,
    {
        let ghost m_before = cache@;
        let ghost outs_before = (run_model(images@, *cfg, cell, i as int, m0)->Ok_0).0;
        let img: &SourceImage = &images[i];
        let piece: (Vec<u8>, bool) = match place_bytes(img, cfg, &cell, cache) {
            Ok(p) => p,
            Err(e) => {
                proof {
                    assert(run_model(images@, *cfg, cell, i + 1 as int, m0) matches Err(t) && t.0
                        == e && t.1 == cache@ && c0 + t.2 == cache.computed_count());
                    lemma_run_model_err(images@, *cfg, cell, i + 1 as int, n as int, m0);
                }
                return Err(e);
            },
        };
        let row64: u64 = (i as u64) / (columns as u64);
        let col64: u64 = (i as u64) % (columns as u64);
        proof {
            assert(row64 < grid.rows && col64 < grid.columns) by (nonlinear_arith)
                requires
                    row64 == (i as int) / (columns as int),
                    col64 == (i as int) % (columns as int),
                    0 <= i < n,
                    n <= (grid.rows as int) * (grid.columns as int),
                    columns == grid.columns,
                    1 <= columns,
                    1 <= grid.rows,
            ;
            lemma_cell_in_page(
                page_width as int,
                cfg.page_hmargin as int,
                cfg.inner_hmargin as int,
                grid.columns as int,
                cell.width as int,
                col64 as int,
            );
            lemma_cell_in_page(
                page_height as int,
                cfg.page_vmargin as int,
                cfg.inner_vmargin as int,
                grid.rows as int,
                cell.height as int,
                row64 as int,
            );
        }
        let left128: u128 = cfg.page_hmargin as u128 + (col64 as u128) * (cell.width as u128
            + cfg.inner_hmargin as u128);
        let drop128: u128 = cfg.page_vmargin as u128 + cell.height as u128 + (row64 as u128) * (
        cell.height as u128 + cfg.inner_vmargin as u128);
        let bottom128: u128 = page_height as u128 - drop128;
        let placement = CellPlacement {
            identity: img.identity.clone(),
            caption: normalize_unicode(&img.identity),
            row: row64 as u32,
            column: col64 as u32,
            cell_left: left128 as u64,
            cell_bottom: bottom128 as u64,
            render_width: cell.width,
            render_height: cell.height,
            bytes: piece.0,
            used_placeholder: piece.1,
        };
        out.push(placement);
        proof {
            let outs_now = (run_model(images@, *cfg, cell, i + 1 as int, m0)->Ok_0).0;
            assert(outs_now == outs_before.push(
                ((step_model(images@[i as int], *cfg, cell, m_before)->Ok_0).0, piece.1),
            ));
            assert(placement_ok(
                out@[i as int],
                images@[i as int],
                i as int,
                *cfg,
                cell,
                page_height as int,
                columns,
                outs_now[i as int],
            ));
            assert(forall|j: int|
                0 <= j < i ==> outs_now[j] == #[trigger] outs_before[j]);
        }
        i = i + 1;
    }
    Ok(out)
}

} // verus!
