//! Grid-addressed glyph rendering core for a terminal-style text renderer.
//!
//! The crate models the CPU side of a character-grid renderer: a cache of
//! rasterized glyph metrics, a linear text buffer mapped onto a row/column
//! grid with whole-row scrolling, exact quad geometry for each occupied cell
//! in normalized device coordinates, and a per-frame draw list.  Window,
//! font-rasterization and graphics-API calls live outside the crate and
//! exchange plain values with it.

use vstd::prelude::*;

pub mod config;
pub mod geometry;
pub mod glyph;
pub mod grid;
pub mod renderer;

verus! {

/// Upper bound on pixel dimensions and cell counts accepted by the crate:
/// viewport sides, glyph metrics and grid rows/columns all stay at or below
/// this, which keeps every intermediate geometry product inside `i64`.
pub const MAX_DIM: u32 = 1048576;

} // verus!
