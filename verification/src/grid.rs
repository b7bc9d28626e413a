//! The grid model: text buffer, scroll offset and next-cell cursor.
//!
//! A [`GridModel`] owns a linear buffer of characters and maps it onto a
//! fixed grid of `rows * cols` cells.  Cell positions are never stored per
//! character: each render pass re-walks the visible slice of the buffer,
//! scrolling one whole row first when the text together with the cursor cell
//! would overflow the grid, and records the cell after the last character as
//! the cursor position.  Recomputing the cursor from scratch every pass keeps
//! it synchronized with the buffer after arbitrary edits.

use vstd::arithmetic::div_mod::lemma_fundamental_div_mod_converse;
use vstd::prelude::*;

use crate::MAX_DIM;

verus! {

/// Non-positive or oversized viewport or cell dimensions were supplied.
#[derive(Clone, Copy, PartialEq, Eq, Structural, Debug)]
pub struct InvalidGeometryInputError;

/// The grid's shape: cell counts and the uniform cell pitch in pixels.
#[derive(Clone, Copy, PartialEq, Eq, Structural, Debug)]
pub struct GridDimensions {
    pub rows: usize,
    pub cols: usize,
    pub cell_width: u32,
    pub cell_height: u32,
}

impl GridDimensions {
    pub open spec fn wf(self) -> bool {
        &&& 1 <= self.rows <= MAX_DIM
        &&& 1 <= self.cols <= MAX_DIM
        &&& 1 <= self.cell_width <= MAX_DIM
        &&& 1 <= self.cell_height <= MAX_DIM
    }
}

/// A pixel extent clamped into the supported range `1..=MAX_DIM`.
pub open spec fn spec_clamp_dim(extent: int) -> int {
    if extent < 1 {
        1
    } else if extent > MAX_DIM {
        MAX_DIM as int
    } else {
        extent
    }
}

/// Number of whole cells of pitch `cell` that fit in `extent` pixels,
/// clamped to at least one so that the grid never degenerates.
pub open spec fn spec_fit_count(extent: int, cell: int) -> int {
    if extent / cell >= 1 {
        extent / cell
    } else {
        1
    }
}

fn clamp_dim(extent: u32) -> (r: u32)
    ensures
        r as int == spec_clamp_dim(extent as int),
        1 <= r <= MAX_DIM,
{
    if extent < 1 {
        1
    } else if extent > MAX_DIM {
        MAX_DIM
    } else {
        extent
    }
}

fn fit_count(extent: u32, cell: u32) -> (r: usize)
    requires
        1 <= cell,
        extent <= MAX_DIM,
    ensures
        r as int == spec_fit_count(extent as int, cell as int),
        1 <= r <= MAX_DIM,
{
    let q = (extent / cell) as usize;
    if q >= 1 {
        q
    } else {
        1
    }
}

/// The mathematical state of a grid model: the buffer contents, the scroll
/// offset, the grid's cell counts, and the cursor cell.
pub struct GridState {
    pub content: Seq<char>,
    pub offset: int,
    pub rows: int,
    pub cols: int,
    pub next_row: int,
    pub next_col: int,
}

impl GridState {
    pub open spec fn wf(self) -> bool {
        &&& 1 <= self.rows <= MAX_DIM
        &&& 1 <= self.cols <= MAX_DIM
        &&& 0 <= self.offset
    }

    /// Total number of grid cells.
    pub open spec fn cell_count(self) -> int {
        self.rows * self.cols
    }

    /// Number of characters at or past the display offset.
    pub open spec fn visible(self) -> int {
        if self.offset <= self.content.len() {
            self.content.len() - self.offset
        } else {
            0
        }
    }

    /// Whether the visible text plus the cursor cell would overflow the grid,
    /// so that the next render pass scrolls one row first.
    pub open spec fn overflows(self) -> bool {
        self.visible() + 1 > self.cell_count()
    }

    /// The display offset a render pass leaves behind.
    pub open spec fn pass_offset(self) -> int {
        if self.overflows() {
            self.offset + self.cols
        } else {
            self.offset
        }
    }

    /// The buffer index at which a render pass starts emitting cells.
    pub open spec fn pass_start(self) -> int {
        if self.pass_offset() <= self.content.len() {
            self.pass_offset()
        } else {
            self.content.len() as int
        }
    }

    /// Number of cells a render pass emits.
    pub open spec fn emitted_len(self) -> int {
        self.content.len() - self.pass_start()
    }

    /// The cells a render pass emits: the `j`-th visible character paired
    /// with row `j / cols` and column `j % cols`.
    pub open spec fn emitted_cells(self) -> Seq<(char, usize, usize)> {
        Seq::new(
            self.emitted_len() as nat,
            |j: int|
                (
                    self.content[self.pass_start() + j],
                    (j / self.cols) as usize,
                    (j % self.cols) as usize,
                ),
        )
    }

    /// The state a render pass leaves behind: the offset after any scroll and
    /// the cursor at the cell following the last emitted character.
    pub open spec fn after_pass(self) -> GridState {
        GridState {
            offset: self.pass_offset(),
            next_row: self.emitted_len() / self.cols,
            next_col: self.emitted_len() % self.cols,
            ..self
        }
    }

    /// The state after appending one character at the end of the buffer.
    pub open spec fn with_append(self, c: char) -> GridState {
        GridState { content: self.content.push(c), ..self }
    }

    /// The state after deleting the last character, a no-op on an empty
    /// buffer.
    pub open spec fn with_delete_last(self) -> GridState {
        if self.content.len() == 0 {
            self
        } else {
            GridState { content: self.content.drop_last(), ..self }
        }
    }
}

/// Owns the text buffer, viewport and grid dimensions, display offset and
/// next-cell cursor.
pub struct GridModel {
    pub viewport_width: u32,
    pub viewport_height: u32,
    pub grid: GridDimensions,
    pub buffer: Vec<char>,
    pub display_offset: usize,
    pub next_cell: (usize, usize),
}

impl View for GridModel {
    type V = GridState;

    open spec fn view(&self) -> GridState {
        GridState {
            content: self.buffer@,
            offset: self.display_offset as int,
            rows: self.grid.rows as int,
            cols: self.grid.cols as int,
            next_row: self.next_cell.0 as int,
            next_col: self.next_cell.1 as int,
        }
    }
}

impl GridModel {
    pub open spec fn wf(self) -> bool {
        &&& self.grid.wf()
        &&& 1 <= self.viewport_width <= MAX_DIM
        &&& 1 <= self.viewport_height <= MAX_DIM
        &&& self.grid.rows as int == spec_fit_count(
            self.viewport_height as int,
            self.grid.cell_height as int,
        )
        &&& self.grid.cols as int == spec_fit_count(
            self.viewport_width as int,
            self.grid.cell_width as int,
        )
    }

    /// Creates an empty model for the given viewport and cell pitch.  The
    /// cell counts are the number of whole cells that fit the viewport,
    /// clamped to at least one each.  Dimensions of zero, or beyond
    /// `MAX_DIM`, are rejected.
    pub fn new(viewport_width: u32, viewport_height: u32, cell_width: u32, cell_height: u32) -> (r:
        Result<GridModel, InvalidGeometryInputError>)
        ensures
            match r {
                Ok(m) => {
                    &&& 1 <= viewport_width <= MAX_DIM
                    &&& 1 <= viewport_height <= MAX_DIM
                    &&& 1 <= cell_width <= MAX_DIM
                    &&& 1 <= cell_height <= MAX_DIM
                    &&& m.wf()
                    &&& m.viewport_width == viewport_width
                    &&& m.viewport_height == viewport_height
                    &&& m.grid.cell_width == cell_width
                    &&& m.grid.cell_height == cell_height
                    &&& m.grid.rows as int == spec_fit_count(
                        viewport_height as int,
                        cell_height as int,
                    )
                    &&& m.grid.cols as int == spec_fit_count(
                        viewport_width as int,
                        cell_width as int,
                    )
                    &&& m.buffer@.len() == 0
                    &&& m.display_offset == 0
                    &&& m.next_cell == (0usize, 0usize)
                },
                Err(_) => !(1 <= viewport_width <= MAX_DIM && 1 <= viewport_height <= MAX_DIM && 1
                    <= cell_width <= MAX_DIM && 1 <= cell_height <= MAX_DIM),
            },
    {
        if viewport_width < 1 || viewport_width > MAX_DIM || viewport_height < 1
            || viewport_height > MAX_DIM || cell_width < 1 || cell_width > MAX_DIM || cell_height
            < 1 || cell_height > MAX_DIM {
            return Err(InvalidGeometryInputError);
        }
        let rows = fit_count(viewport_height, cell_height);
        let cols = fit_count(viewport_width, cell_width);
        Ok(
            GridModel {
                viewport_width,
                viewport_height,
                grid: GridDimensions { rows, cols, cell_width, cell_height },
                buffer: Vec::new(),
                display_offset: 0,
                next_cell: (0, 0),
            },
        )
    }

    /// Adds one character to the end of the buffer.  No cell computation
    /// happens here: placement is derived lazily at render time.
    pub fn append(&mut self, c: char)
        ensures
            final(self).buffer@ == old(self).buffer@.push(c),
            final(self).viewport_width == old(self).viewport_width,
            final(self).viewport_height == old(self).viewport_height,
            final(self).grid == old(self).grid,
            final(self).display_offset == old(self).display_offset,
            final(self).next_cell == old(self).next_cell,
            final(self)@ == old(self)@.with_append(c),
    {
        self.buffer.push(c);
    }

    /// Removes the last character if the buffer is non-empty; a no-op (not
    /// an error) on an empty buffer.
    pub fn delete_last(&mut self)
        ensures
            old(self).buffer@.len() == 0 ==> final(self).buffer@ == old(self).buffer@,
            old(self).buffer@.len() > 0 ==> final(self).buffer@ == old(self).buffer@.drop_last(),
            final(self).viewport_width == old(self).viewport_width,
            final(self).viewport_height == old(self).viewport_height,
            final(self).grid == old(self).grid,
            final(self).display_offset == old(self).display_offset,
            final(self).next_cell == old(self).next_cell,
            final(self)@ == old(self)@.with_delete_last(),
    {
        let _ = self.buffer.pop();
        proof {
            if old(self).buffer@.len() > 0 {
                assert(self.buffer@ =~= old(self).buffer@.drop_last());
            }
        }
    }

    /// Updates the viewport (clamped into the supported range) and recomputes
    /// the cell counts from the unchanged cell pitch.  Buffer content, offset
    /// and cursor are untouched; the content merely reflows on the next pass.
    pub fn resize(&mut self, width: u32, height: u32)
        requires
            old(self).wf(),
        ensures
            final(self).wf(),
            final(self).buffer@ == old(self).buffer@,
            final(self).display_offset == old(self).display_offset,
            final(self).next_cell == old(self).next_cell,
            final(self).grid.cell_width == old(self).grid.cell_width,
            final(self).grid.cell_height == old(self).grid.cell_height,
            final(self).viewport_width as int == spec_clamp_dim(width as int),
            final(self).viewport_height as int == spec_clamp_dim(height as int),
            final(self).grid.rows as int == spec_fit_count(
                spec_clamp_dim(height as int),
                old(self).grid.cell_height as int,
            ),
            final(self).grid.cols as int == spec_fit_count(
                spec_clamp_dim(width as int),
                old(self).grid.cell_width as int,
            ),
    {
        let w = clamp_dim(width);
        let h = clamp_dim(height);
        self.viewport_width = w;
        self.viewport_height = h;
        self.grid.rows = fit_count(h, self.grid.cell_height);
        self.grid.cols = fit_count(w, self.grid.cell_width);
    }

    /// The cell where the cursor is rendered: the position immediately after
    /// the last character emitted by the most recent render pass.
    pub fn get_next_cell(&self) -> (r: (usize, usize))
        ensures
            r == self.next_cell,
    {
        self.next_cell
    }

    /// The authoritative per-frame walk.  Scrolls one whole row first if the
    /// visible text together with the cursor cell would overflow the grid,
    /// then emits each visible character with its cell, left to right and top
    /// to bottom, and records the cell after the last one as the cursor.
    pub fn render_pass_cells(&mut self) -> (cells: Vec<(char, usize, usize)>)
        requires
            old(self).wf(),
        ensures
            final(self).wf(),
            final(self).buffer@ == old(self).buffer@,
            final(self).viewport_width == old(self).viewport_width,
            final(self).viewport_height == old(self).viewport_height,
            final(self).grid == old(self).grid,
            final(self)@ == old(self)@.after_pass(),
            cells@ == old(self)@.emitted_cells(),
    {
        let ghost pre = old(self)@;
        let len = self.buffer.len();
        proof {
            assert(pre.rows * pre.cols <= 0x10000000000) by (nonlinear_arith)
                requires
                    1 <= pre.rows <= 0x100000,
                    1 <= pre.cols <= 0x100000,
            ;
            assert(pre.cols <= pre.rows * pre.cols) by (nonlinear_arith)
                requires
                    1 <= pre.rows,
                    0 <= pre.cols,
            ;
        }
        let rc: u64 = (self.grid.rows as u64) * (self.grid.cols as u64);
        let visible: u64 = if self.display_offset <= len {
            (len - self.display_offset) as u64
        } else {
            0
        };
        if visible >= rc {
            self.display_offset = self.display_offset + self.grid.cols;
        }
        proof {
            assert(self.display_offset as int == pre.pass_offset());
        }
        let start = if self.display_offset <= len {
            self.display_offset
        } else {
            len
        };
        proof {
            assert(start as int == pre.pass_start());
        }
        let mut cells: Vec<(char, usize, usize)> = Vec::new();
        let mut row: usize = 0;
        let mut col: usize = 0;
        let mut i: usize = start;
        while i < len
            invariant
                start <= i <= len,
                len == self.buffer@.len(),
                self.buffer@ == pre.content,
                self.grid.cols as int == pre.cols,
                1 <= pre.cols,
                start as int == pre.pass_start(),
                cells@.len() == i - start,
                i - start == row * pre.cols + col,
                0 <= col < pre.cols,
                row <= i - start,
                forall|j: int| 0 <= j < cells@.len() ==> cells@[j] == pre.emitted_cells()[j],
            decreases len - i,
        {
            let c = self.buffer[i];
            proof {
                let j = i - start;
                lemma_fundamental_div_mod_converse(j, pre.cols, row as int, col as int);
                assert(pre.emitted_cells()[j] == (c, row, col));
            }
            cells.push((c, row, col));
            if col == self.grid.cols - 1 {
                proof {
                    assert((row + 1) * pre.cols == row * pre.cols + pre.cols) by (nonlinear_arith);
                }
                row = row + 1;
                col = 0;
            } else {
                col = col + 1;
            }
            i = i + 1;
        }
        self.next_cell = (row, col);
        proof {
            lemma_fundamental_div_mod_converse(len - start, pre.cols, row as int, col as int);
            assert(cells@ =~= pre.emitted_cells());
            assert(self@ == pre.after_pass());
        }
        cells
    }
}

/// Append/delete round trip: appending a character and then deleting the
/// last one restores the exact prior state, and hence a render pass from the
/// restored state yields the prior cells and cursor again.
pub proof fn lemma_append_delete_round_trip(s: GridState, c: char)
    ensures
        s.with_append(c).with_delete_last() == s,
        s.with_append(c).with_delete_last().after_pass() == s.after_pass(),
{
    assert(s.with_append(c).content.len() > 0);
    assert(s.with_append(c).with_delete_last().content =~= s.content);
}

/// Scroll invariant: from a state whose visible text fits the grid plus one
/// cursor cell and whose display offset is a whole-row multiple, appending
/// one character and running a render pass leaves the offset a whole-row
/// multiple and the visible length at most `rows * cols + 1`.  Every
/// sequence of single appends interleaved with render passes therefore
/// preserves both bounds, starting from the empty model.
pub proof fn lemma_scroll_invariant(s: GridState, c: char)
    requires
        s.wf(),
        s.offset % s.cols == 0,
        s.visible() <= s.cell_count() + 1,
    ensures
        s.with_append(c).after_pass().offset % s.cols == 0,
        s.with_append(c).after_pass().visible() <= s.cell_count() + 1,
{
    let a = s.with_append(c);
    assert(s.cols <= s.rows * s.cols) by (nonlinear_arith)
        requires
            1 <= s.rows,
            0 <= s.cols,
    ;
    if a.overflows() {
        assert((s.offset + s.cols) % s.cols == s.offset % s.cols) by {
            vstd::arithmetic::div_mod::lemma_mod_multiples_vanish(1, s.offset, s.cols);
        }
    }
}

/// The state after appending each character of `cs` in turn, with a render
/// pass after every append.
pub open spec fn after_append_passes(s: GridState, cs: Seq<char>) -> GridState
    decreases cs.len(),
{
    if cs.len() == 0 {
        s
    } else {
        after_append_passes(s, cs.drop_last()).with_append(cs.last()).after_pass()
    }
}

/// Scroll invariant over whole sequences: starting from any state with a
/// row-aligned offset and visible text within `rows * cols + 1` — the empty
/// model among them — every sequence of appends, each followed by a render
/// pass, keeps both bounds.
pub proof fn lemma_scroll_invariant_sequence(s: GridState, cs: Seq<char>)
    requires
        s.wf(),
        s.offset % s.cols == 0,
        s.visible() <= s.cell_count() + 1,
    ensures
        after_append_passes(s, cs).wf(),
        after_append_passes(s, cs).rows == s.rows,
        after_append_passes(s, cs).cols == s.cols,
        after_append_passes(s, cs).offset % s.cols == 0,
        after_append_passes(s, cs).visible() <= s.cell_count() + 1,
    decreases cs.len(),
{
    if cs.len() > 0 {
        lemma_scroll_invariant_sequence(s, cs.drop_last());
        lemma_scroll_invariant(after_append_passes(s, cs.drop_last()), cs.last());
    }
}

/// Cursor consistency: a render pass is read-only but for the scroll step.
/// Once a pass has run from a state whose visible text fits the grid plus
/// one cursor cell — on a grid at least two columns wide — a second pass
/// scrolls nothing, emits the identical cell sequence, and computes the
/// identical next cell.
pub proof fn lemma_render_pass_idempotent(s: GridState)
    requires
        s.wf(),
        2 <= s.cols,
        s.visible() <= s.cell_count() + 1,
    ensures
        !s.after_pass().overflows(),
        s.after_pass().after_pass() == s.after_pass(),
        s.after_pass().emitted_cells() == s.emitted_cells(),
{
    let t = s.after_pass();
    assert(s.cols <= s.rows * s.cols) by (nonlinear_arith)
        requires
            1 <= s.rows,
            0 <= s.cols,
    ;
    assert(t.pass_start() == s.pass_start());
    assert(t.emitted_cells() =~= s.emitted_cells());
}

} // verus!
