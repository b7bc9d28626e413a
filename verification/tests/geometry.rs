use rush::geometry::build_cursor_quad;
use rush::geometry::build_glyph_quad;
use rush::glyph::Glyph;
use rush::grid::GridDimensions;

fn terminal_grid() -> GridDimensions {
    GridDimensions {
        rows: 24,
        cols: 80,
        cell_width: 10,
        cell_height: 25,
    }
}

fn glyph(width: u32, height: u32, bearing_y: i32, advance_px: i64) -> Glyph {
    Glyph {
        texture_handle: 7,
        width,
        height,
        bearing_x: 1,
        bearing_y,
        advance: advance_px * 64,
    }
}

#[test]
fn cursor_quad_at_origin_cell() {
    let grid = terminal_grid();
    let q = build_cursor_quad(0, 0, &grid);
    assert_eq!(q.denom_x, 80);
    assert_eq!(q.denom_y, 24);
    // Left edge exactly at the NDC left border.
    assert_eq!(q.left as f64 / q.denom_x as f64, -1.0);
    assert_eq!(q.right, q.left + 2);
    // Bottom edge exactly one cell height below the NDC top border.
    assert_eq!(q.bottom, q.denom_y - 2);
    assert_eq!(q.top, q.denom_y);
}

#[test]
fn cursor_quad_at_inner_cell() {
    let grid = terminal_grid();
    let q = build_cursor_quad(1, 2, &grid);
    assert_eq!(q.left, 2 * 2 - 80);
    assert_eq!(q.right, q.left + 2);
    assert_eq!(q.bottom, 24 - 4);
    assert_eq!(q.top, 24 - 2);
}

#[test]
fn geometry_scenario() {
    // Viewport 800x600, 80x24 grid: a 10x20 glyph in cell (0,0).
    let grid = terminal_grid();
    let g = glyph(10, 20, 18, 10);
    let q = build_glyph_quad(&g, 0, 0, &grid, 800, 600);
    assert_eq!(q.denom_x, 8 * 800 * 80);
    assert_eq!(q.denom_y, 5 * 600 * 24);
    let cell_left = -q.denom_x;
    assert_eq!(cell_left as f64 / q.denom_x as f64, -1.0);
    // half width: min(8*10*80, 8*800 - 2*10*80) = min(6400, 4800).
    assert_eq!(q.left, cell_left + 6400 - 4800);
    assert_eq!(q.right, q.left + 2 * 4800);
    // The x extent never exceeds the cell's right edge.
    let cell_right = cell_left + 16 * 800;
    assert!(cell_left <= q.left);
    assert!(q.right <= cell_right);
    // bottom = cell bottom + bearing - drawn height + cell_height/5.
    let cell_bottom = 5 * 600 * (24 - 2);
    assert_eq!(q.bottom, cell_bottom + 10 * 18 * 24 - 4800 + 2 * 600);
    assert_eq!(q.top, q.bottom + 4800);
}

#[test]
fn glyph_centered_in_leftover_width() {
    let grid = terminal_grid();
    let g = glyph(10, 20, 18, 10);
    let q = build_glyph_quad(&g, 0, 3, &grid, 800, 600);
    let cell_left = 8 * 800 * (2 * 3 - 80);
    let cell_right = cell_left + 16 * 800;
    assert_eq!(q.left - cell_left, cell_right - q.right);
}

#[test]
fn oversized_glyph_clamps_to_cell() {
    let grid = terminal_grid();
    // A bitmap far wider and taller than one cell.
    let g = glyph(500, 400, 30, 10);
    let q = build_glyph_quad(&g, 5, 40, &grid, 800, 600);
    let cell_left = 8 * 800 * (2 * 40 - 80);
    let cell_right = cell_left + 16 * 800;
    assert!(cell_left <= q.left);
    assert!(q.right <= cell_right);
    // Height clamps to exactly one cell height (10 * viewport_height).
    assert_eq!(q.top - q.bottom, 10 * 600);
}

#[test]
fn zero_advance_glyph_fills_cell_width() {
    let grid = terminal_grid();
    let g = glyph(10, 20, 18, 0);
    let q = build_glyph_quad(&g, 0, 0, &grid, 800, 600);
    // min(8*10*80, 8*800) = 6400 on both sides: the quad spans the cell.
    assert_eq!(q.right - q.left, 2 * 6400);
    assert_eq!(q.left, -q.denom_x + 8 * 800 - 6400);
}
