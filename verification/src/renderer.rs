//! Per-frame orchestration: from model state to a draw list.
//!
//! One frame is one render pass over the grid model followed by geometry for
//! every emitted cell: each visible character whose glyph is cached becomes
//! one textured quad paired with its texture handle, characters outside the
//! repertoire are skipped silently, and the cursor cell becomes one solid
//! quad.  The drawing layer walks the list in order, uploads each quad and
//! issues one draw call per entry.

use vstd::arithmetic::div_mod::lemma_div_is_ordered;
use vstd::arithmetic::div_mod::lemma_div_multiples_vanish;
use vstd::prelude::*;

use crate::geometry::CursorQuad;
use crate::geometry::TexturedQuad;
use crate::geometry::build_cursor_quad;
use crate::geometry::build_glyph_quad;
use crate::geometry::spec_glyph_bottom;
use crate::geometry::spec_glyph_left;
use crate::geometry::spec_glyph_right;
use crate::geometry::spec_glyph_top;
use crate::geometry::spec_x_denom;
use crate::geometry::spec_y_denom;
use crate::glyph::Glyph;
use crate::glyph::GlyphCache;
use crate::glyph::REPERTOIRE_SIZE;
use crate::grid::GridModel;

verus! {

/// Whether a character lies inside the cached repertoire.
pub open spec fn spec_supported(c: char) -> bool {
    (c as int) < REPERTOIRE_SIZE
}

/// One glyph draw call: the texture to bind and the quad to upload.
#[derive(Clone, Copy, PartialEq, Eq, Structural, Debug)]
pub struct GlyphDraw {
    pub texture_handle: u32,
    pub quad: TexturedQuad,
}

/// Everything one frame draws: one entry per visible supported character,
/// in emission order, then the cursor quad.
pub struct Frame {
    pub glyphs: Vec<GlyphDraw>,
    pub cursor: CursorQuad,
}

/// The draw call for one emitted cell `(character, row, col)`.
pub open spec fn spec_glyph_draw(
    cache: Seq<Glyph>,
    cell: (char, usize, usize),
    cols: int,
    rows: int,
    width: int,
    height: int,
) -> GlyphDraw {
    let g = cache[cell.0 as int];
    GlyphDraw {
        texture_handle: g.texture_handle,
        quad: TexturedQuad {
            denom_x: spec_x_denom(width, cols) as i64,
            denom_y: spec_y_denom(height, rows) as i64,
            left: spec_glyph_left(g, cell.2 as int, cols, width) as i64,
            right: spec_glyph_right(g, cell.2 as int, cols, width) as i64,
            bottom: spec_glyph_bottom(g, cell.1 as int, rows, height) as i64,
            top: spec_glyph_top(g, cell.1 as int, rows, height) as i64,
        },
    }
}

/// The glyph draw list for a sequence of emitted cells: one entry per cell
/// whose character is in the repertoire, in order.
pub open spec fn spec_frame_glyphs(
    cache: Seq<Glyph>,
    cells: Seq<(char, usize, usize)>,
    cols: int,
    rows: int,
    width: int,
    height: int,
) -> Seq<GlyphDraw>
    decreases cells.len(),
{
    if cells.len() == 0 {
        Seq::empty()
    } else {
        let rest = spec_frame_glyphs(cache, cells.drop_last(), cols, rows, width, height);
        let cell = cells.last();
        if spec_supported(cell.0) {
            rest.push(spec_glyph_draw(cache, cell, cols, rows, width, height))
        } else {
            rest
        }
    }
}

/// The cursor quad for cell `(row, col)`.
pub open spec fn spec_cursor_quad(row: int, col: int, cols: int, rows: int) -> CursorQuad {
    CursorQuad {
        denom_x: cols as i64,
        denom_y: rows as i64,
        left: (2 * col - cols) as i64,
        right: (2 * col - cols + 2) as i64,
        bottom: (rows - 2 * row - 2) as i64,
        top: (rows - 2 * row) as i64,
    }
}

proof fn lemma_div_le_bound(j: int, cols: int, bound: int)
    requires
        0 <= j,
        0 < cols,
        j <= bound * cols,
    ensures
        j / cols <= bound,
{
    assert(bound * cols == cols * bound) by (nonlinear_arith);
    lemma_div_is_ordered(j, cols * bound, cols);
    lemma_div_multiples_vanish(bound, cols);
}

/// Renders one frame: runs the model's render pass (which performs any
/// needed scroll and recomputes the cursor), builds one textured quad per
/// emitted cell whose character the cache holds — skipping unsupported
/// characters silently — and finishes with the cursor quad at the cell
/// following the last character.
pub fn render_frame(model: &mut GridModel, cache: &GlyphCache) -> (frame: Frame)
    requires
        old(model).wf(),
        cache.wf(),
        old(model)@.visible() <= old(model)@.cell_count() + 1,
    ensures
        final(model).wf(),
        final(model).buffer@ == old(model).buffer@,
        final(model).grid == old(model).grid,
        final(model).viewport_width == old(model).viewport_width,
        final(model).viewport_height == old(model).viewport_height,
        final(model)@ == old(model)@.after_pass(),
        frame.glyphs@ == spec_frame_glyphs(
            cache@,
            old(model)@.emitted_cells(),
            old(model)@.cols,
            old(model)@.rows,
            old(model).viewport_width as int,
            old(model).viewport_height as int,
        ),
        frame.cursor == spec_cursor_quad(
            old(model)@.after_pass().next_row,
            old(model)@.after_pass().next_col,
            old(model)@.cols,
            old(model)@.rows,
        ),
{
    let ghost pre = old(model)@;
    proof {
        assert(pre.cols <= pre.rows * pre.cols) by (nonlinear_arith)
            requires
                1 <= pre.rows,
                0 <= pre.cols,
        ;
        // The pass emits at most rows*cols cells: a scroll removes a whole
        // row from a visible length of at most rows*cols + 1, and without a
        // scroll the visible length was below rows*cols already.
        assert(pre.emitted_len() <= pre.rows * pre.cols);
    }
    let cells = model.render_pass_cells();
    let ghost width = model.viewport_width as int;
    let ghost height = model.viewport_height as int;
    let mut glyphs: Vec<GlyphDraw> = Vec::new();
    let mut i: usize = 0;
    while i < cells.len()
        invariant
            cache.wf(),
            model.wf(),
            model@ == pre.after_pass(),
            model.viewport_width as int == width,
            model.viewport_height as int == height,
            model.grid.cols as int == pre.cols,
            model.grid.rows as int == pre.rows,
            cells@ == pre.emitted_cells(),
            pre.emitted_len() <= pre.rows * pre.cols,
            0 <= i <= cells@.len(),
            glyphs@ == spec_frame_glyphs(
                cache@,
                cells@.take(i as int),
                pre.cols,
                pre.rows,
                width,
                height,
            ),
        decreases cells@.len() - i,
    {
        let (c, row, col) = cells[i];
        proof {
            let j = i as int;
            assert(cells@[j] == (pre.content[pre.pass_start() + j], (j / pre.cols) as usize, (j
                % pre.cols) as usize));
            lemma_div_le_bound(j, pre.cols, pre.rows);
            assert(row as int == j / pre.cols);
            assert(col as int == j % pre.cols);
        }
        match cache.get(c) {
            Ok(g) => {
                proof {
                    assert(*g == cache@[c as int]);
                    assert(cache@[c as int].wf());
                }
                let quad = build_glyph_quad(
                    g,
                    row,
                    col,
                    &model.grid,
                    model.viewport_width,
                    model.viewport_height,
                );
                proof {
                    assert(quad == spec_glyph_draw(
                        cache@,
                        cells@[i as int],
                        pre.cols,
                        pre.rows,
                        width,
                        height,
                    ).quad);
                }
                glyphs.push(GlyphDraw { texture_handle: g.texture_handle, quad });
            },
            Err(_) => {
                // Unsupported character: skip this cell's glyph, keep the frame.
            },
        }
        proof {
            assert(cells@.take(i + 1).drop_last() =~= cells@.take(i as int));
            assert(cells@.take(i + 1).last() == cells@[i as int]);
        }
        i = i + 1;
    }
    proof {
        assert(cells@.take(cells@.len() as int) =~= cells@);
    }
    let (next_row, next_col) = model.get_next_cell();
    proof {
        lemma_div_le_bound(pre.emitted_len(), pre.cols, pre.rows);
        assert(next_row as int == pre.after_pass().next_row);
        assert(next_col as int == pre.after_pass().next_col);
    }
    let cursor = build_cursor_quad(next_row, next_col, &model.grid);
    Frame { glyphs, cursor }
}

} // verus!
