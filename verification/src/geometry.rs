//! Pure quad geometry in normalized device coordinates.
//!
//! Every coordinate a quad needs is an exact rational: the grid places cell
//! corners at multiples of `2/cols` and `2/rows` from the NDC origin, and
//! glyph extents scale pixel metrics by `2/viewport`.  Each quad therefore
//! carries integer numerators over one fixed positive denominator per axis,
//! and the drawing layer divides once when it fills its vertex buffer.  This
//! keeps the geometry contracts exact instead of approximate.
//!
//! For a glyph quad the denominators are `8 * viewport_width * cols` on the
//! x axis and `5 * viewport_height * rows` on the y axis; a cursor quad
//! covers its whole cell, so `cols` and `rows` suffice.

use vstd::prelude::*;

use crate::MAX_DIM;
use crate::glyph::Glyph;
use crate::grid::GridDimensions;

verus! {

pub open spec fn spec_min(a: int, b: int) -> int {
    if a <= b {
        a
    } else {
        b
    }
}

/// Common denominator of all x numerators of a glyph quad.
pub open spec fn spec_x_denom(width: int, cols: int) -> int {
    8 * width * cols
}

/// Common denominator of all y numerators of a glyph quad.
pub open spec fn spec_y_denom(height: int, rows: int) -> int {
    5 * height * rows
}

/// Numerator of the cell's left edge `-1 + col * 2/cols`.
pub open spec fn spec_cell_left(col: int, cols: int, width: int) -> int {
    8 * width * (2 * col - cols)
}

/// Numerator of the cell width `2/cols` over `spec_x_denom`.
pub open spec fn spec_cell_width_num(width: int) -> int {
    16 * width
}

/// Numerator of the cell's bottom edge `1 - (row + 1) * 2/rows`.
pub open spec fn spec_cell_bottom(row: int, rows: int, height: int) -> int {
    5 * height * (rows - 2 * row - 2)
}

/// Numerator of the cell height `2/rows` over `spec_y_denom`.
pub open spec fn spec_cell_height_num(height: int) -> int {
    10 * height
}

/// Half the glyph's drawn width: the smaller of the bitmap width scaled to
/// NDC and the usable cell width (cell width minus the advance-derived
/// padding `advance_px / (2 * width)`), each times half the denominator.
pub open spec fn spec_half_glyph_width(g: Glyph, cols: int, width: int) -> int {
    spec_min(8 * g.width * cols, 8 * width - 2 * g.spec_advance_px() * cols)
}

/// Numerator of the glyph's left edge: the glyph is centered in the
/// leftover cell width.
pub open spec fn spec_glyph_left(g: Glyph, col: int, cols: int, width: int) -> int {
    spec_cell_left(col, cols, width) + 8 * width - spec_half_glyph_width(g, cols, width)
}

/// Numerator of the glyph's right edge.
pub open spec fn spec_glyph_right(g: Glyph, col: int, cols: int, width: int) -> int {
    spec_glyph_left(g, col, cols, width) + 2 * spec_half_glyph_width(g, cols, width)
}

/// Numerator of the glyph's drawn height: the bitmap height scaled to NDC,
/// clamped to the cell height.
pub open spec fn spec_glyph_height_num(g: Glyph, rows: int, height: int) -> int {
    spec_min(10 * g.height * rows, 10 * height)
}

/// Numerator of the glyph's bottom edge: the cell bottom, raised by the
/// bearing above the baseline, lowered by the drawn height, plus a fifth of
/// the cell height so that descenders stay inside the cell.
pub open spec fn spec_glyph_bottom(g: Glyph, row: int, rows: int, height: int) -> int {
    spec_cell_bottom(row, rows, height) + 10 * g.bearing_y * rows - spec_glyph_height_num(
        g,
        rows,
        height,
    ) + 2 * height
}

/// Numerator of the glyph's top edge.
pub open spec fn spec_glyph_top(g: Glyph, row: int, rows: int, height: int) -> int {
    spec_glyph_bottom(g, row, rows, height) + spec_glyph_height_num(g, rows, height)
}

/// One glyph quad: exact NDC edge coordinates as numerators over the two
/// per-axis denominators.
///
/// The quad's four corners, in the order the renderer uploads them, are
/// `(left, top)`, `(right, top)`, `(left, bottom)`, `(right, bottom)` with
/// texture coordinates `(0,0)`, `(1,0)`, `(0,1)`, `(1,1)` — the bitmap is
/// not flipped relative to the rasterizer's top-down row order — and the two
/// triangles use corner indices `0,1,2` and `1,2,3`.
#[derive(Clone, Copy, PartialEq, Eq, Structural, Debug)]
pub struct TexturedQuad {
    pub denom_x: i64,
    pub denom_y: i64,
    pub left: i64,
    pub right: i64,
    pub bottom: i64,
    pub top: i64,
}

/// The cursor quad: a solid quad covering one whole cell, numerators over
/// `cols` (x axis) and `rows` (y axis).  Corner order and triangle indices
/// are as for [`TexturedQuad`], without texture coordinates.
#[derive(Clone, Copy, PartialEq, Eq, Structural, Debug)]
pub struct CursorQuad {
    pub denom_x: i64,
    pub denom_y: i64,
    pub left: i64,
    pub right: i64,
    pub bottom: i64,
    pub top: i64,
}

/// Computes the textured quad for `glyph` drawn in cell `(row, col)`.
///
/// The glyph is horizontally centered in the leftover cell width, clamped so
/// it cannot bleed into the neighboring column, and vertically placed from
/// its bearing with a fixed baseline offset of a fifth of the cell height.
/// The x extent provably stays inside the cell's `[left, left + width]`
/// span.
pub fn build_glyph_quad(
    glyph: &Glyph,
    row: usize,
    col: usize,
    grid: &GridDimensions,
    viewport_width: u32,
    viewport_height: u32,
) -> (q: TexturedQuad)
    requires
        glyph.wf(),
        grid.wf(),
        1 <= viewport_width <= MAX_DIM,
        1 <= viewport_height <= MAX_DIM,
        col < grid.cols,
        row as int <= 2 * MAX_DIM,
    ensures
        q.denom_x == spec_x_denom(viewport_width as int, grid.cols as int),
        q.denom_y == spec_y_denom(viewport_height as int, grid.rows as int),
        q.left == spec_glyph_left(*glyph, col as int, grid.cols as int, viewport_width as int),
        q.right == spec_glyph_right(*glyph, col as int, grid.cols as int, viewport_width as int),
        q.bottom == spec_glyph_bottom(
            *glyph,
            row as int,
            grid.rows as int,
            viewport_height as int,
        ),
        q.top == spec_glyph_top(*glyph, row as int, grid.rows as int, viewport_height as int),
        0 < q.denom_x,
        0 < q.denom_y,
        spec_cell_left(col as int, grid.cols as int, viewport_width as int) <= q.left,
        q.right <= spec_cell_left(col as int, grid.cols as int, viewport_width as int)
            + spec_cell_width_num(viewport_width as int),
{
    let w = viewport_width as i64;
    let h = viewport_height as i64;
    let cols = grid.cols as i64;
    let rows = grid.rows as i64;
    let coli = col as i64;
    let rowi = row as i64;
    let gw = glyph.width as i64;
    let gh = glyph.height as i64;
    let by = glyph.bearing_y as i64;
    let adv = glyph.advance_px();

    proof {
        assert(0 < 8 * (w as int) * (cols as int) <= 0x100000000000) by (nonlinear_arith)
            requires
                1 <= w as int <= 0x100000,
                1 <= cols as int <= 0x100000,
        ;
        assert(0 < 5 * (h as int) * (rows as int) <= 0x100000000000) by (nonlinear_arith)
            requires
                1 <= h as int <= 0x100000,
                1 <= rows as int <= 0x100000,
        ;
    }
    let denom_x: i64 = 8 * w * cols;
    let denom_y: i64 = 5 * h * rows;

    let col_spread = 2 * coli - cols;
    proof {
        assert(-0x200000000000 <= 8 * (w as int) * (col_spread as int) <= 0x200000000000)
            by (nonlinear_arith)
            requires
                1 <= w as int <= 0x100000,
                -0x200000 <= col_spread as int <= 0x200000,
        ;
    }
    let cell_left: i64 = 8 * w * col_spread;

    proof {
        assert(0 <= 8 * (gw as int) * (cols as int) <= 0x100000000000) by (nonlinear_arith)
            requires
                0 <= gw as int <= 0x100000,
                1 <= cols as int <= 0x100000,
        ;
        assert(0 <= 2 * (adv as int) * (cols as int) <= 0x40000000000) by (nonlinear_arith)
            requires
                0 <= adv as int <= 0x100000,
                1 <= cols as int <= 0x100000,
        ;
    }
    let scaled_bitmap_w: i64 = 8 * gw * cols;
    let usable_w: i64 = 8 * w - 2 * adv * cols;
    let half_width: i64 = if scaled_bitmap_w <= usable_w {
        scaled_bitmap_w
    } else {
        usable_w
    };
    let left: i64 = cell_left + 8 * w - half_width;
    let right: i64 = left + 2 * half_width;

    let row_spread = rows - 2 * rowi - 2;
    proof {
        assert(-0x400000000000 <= 5 * (h as int) * (row_spread as int) <= 0x400000000000)
            by (nonlinear_arith)
            requires
                1 <= h as int <= 0x100000,
                -0x500000 <= row_spread as int <= 0x500000,
        ;
        assert(0 <= 10 * (gh as int) * (rows as int) <= 0x100000000000) by (nonlinear_arith)
            requires
                0 <= gh as int <= 0x100000,
                1 <= rows as int <= 0x100000,
        ;
        assert(-0x100000000000 <= 10 * (by as int) * (rows as int) <= 0x100000000000)
            by (nonlinear_arith)
            requires
                -0x100000 <= by as int <= 0x100000,
                1 <= rows as int <= 0x100000,
        ;
    }
    let cell_bottom: i64 = 5 * h * row_spread;
    let scaled_bitmap_h: i64 = 10 * gh * rows;
    let glyph_height: i64 = if scaled_bitmap_h <= 10 * h {
        scaled_bitmap_h
    } else {
        10 * h
    };
    let baseline: i64 = 10 * by * rows;
    let bottom: i64 = cell_bottom + baseline - glyph_height + 2 * h;
    let top: i64 = bottom + glyph_height;

    TexturedQuad { denom_x, denom_y, left, right, bottom, top }
}

/// Computes the cursor quad covering cell `(row, col)` whole: left edge at
/// `-1 + col * 2/cols`, bottom edge at `1 - (row + 1) * 2/rows`, spanning
/// one full cell width and height.
pub fn build_cursor_quad(row: usize, col: usize, grid: &GridDimensions) -> (q: CursorQuad)
    requires
        grid.wf(),
        col < grid.cols,
        row as int <= 2 * MAX_DIM,
    ensures
        q.denom_x == grid.cols,
        q.denom_y == grid.rows,
        q.left == 2 * (col as int) - grid.cols,
        q.right == q.left + 2,
        q.bottom == grid.rows - 2 * (row as int) - 2,
        q.top == q.bottom + 2,
        0 < q.denom_x,
        0 < q.denom_y,
{
    let cols = grid.cols as i64;
    let rows = grid.rows as i64;
    let left: i64 = 2 * (col as i64) - cols;
    let bottom: i64 = rows - 2 * (row as i64) - 2;
    CursorQuad { denom_x: cols, denom_y: rows, left, right: left + 2, bottom, top: bottom + 2 }
}

} // verus!
