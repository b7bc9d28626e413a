//! Glyph metrics and the glyph cache.
//!
//! A [`Glyph`] records the metrics of one rasterized character together with
//! the handle of the GPU texture holding its bitmap.  A [`GlyphCache`] owns
//! one glyph per character code of the fixed repertoire and reports the
//! maximum advance and maximum bitmap height observed across it; those maxima
//! become the grid's uniform cell pitch, so that grid arithmetic never needs
//! per-character cell dimensions.

use vstd::prelude::*;

use crate::MAX_DIM;

verus! {

/// Number of character codes in the glyph repertoire: codes 0 through 126.
pub const REPERTOIRE_SIZE: usize = 127;

/// Metrics and texture handle of one rasterized character.
///
/// `advance` is the horizontal pen displacement in 1/64 pixel units (26.6
/// fixed point, the font-rasterization convention); the other lengths are in
/// whole pixels.  `bearing_x`/`bearing_y` give the offset from the pen origin
/// to the bitmap's top-left corner.
#[derive(Clone, Copy, PartialEq, Eq, Structural, Debug)]
pub struct Glyph {
    pub texture_handle: u32,
    pub width: u32,
    pub height: u32,
    pub bearing_x: i32,
    pub bearing_y: i32,
    pub advance: i64,
}

impl Glyph {
    /// Metrics small enough that all geometry arithmetic on them stays in
    /// `i64`, with a non-negative advance.
    pub open spec fn wf(self) -> bool {
        &&& self.width <= MAX_DIM
        &&& self.height <= MAX_DIM
        &&& -(MAX_DIM as int) <= self.bearing_x as int <= MAX_DIM as int
        &&& -(MAX_DIM as int) <= self.bearing_y as int <= MAX_DIM as int
        &&& 0 <= self.advance as int <= (MAX_DIM as int) * 64
    }

    /// The advance in whole pixels (the 26.6 fixed-point value scaled down).
    pub open spec fn spec_advance_px(self) -> int {
        self.advance as int / 64
    }

    pub fn advance_px(&self) -> (r: i64)
        requires
            self.wf(),
        ensures
            r == self.spec_advance_px(),
            0 <= r <= MAX_DIM,
    {
        self.advance / 64
    }

    fn is_wf(&self) -> (r: bool)
        ensures
            r == self.wf(),
    {
        self.width <= MAX_DIM && self.height <= MAX_DIM && -(MAX_DIM as i32) <= self.bearing_x
            && self.bearing_x <= MAX_DIM as i32 && -(MAX_DIM as i32) <= self.bearing_y
            && self.bearing_y <= MAX_DIM as i32 && 0 <= self.advance
            && self.advance <= (MAX_DIM as i64) * 64
    }
}

/// Maximum bitmap height, in pixels, over a sequence of glyphs (0 if empty).
pub open spec fn seq_max_height(s: Seq<Glyph>) -> int
    decreases s.len(),
{
    if s.len() == 0 {
        0
    } else {
        let rest = seq_max_height(s.drop_last());
        if s.last().height as int > rest {
            s.last().height as int
        } else {
            rest
        }
    }
}

/// Maximum whole-pixel advance over a sequence of glyphs (0 if empty).
pub open spec fn seq_max_advance_px(s: Seq<Glyph>) -> int
    decreases s.len(),
{
    if s.len() == 0 {
        0
    } else {
        let rest = seq_max_advance_px(s.drop_last());
        if s.last().spec_advance_px() > rest {
            s.last().spec_advance_px()
        } else {
            rest
        }
    }
}

pub proof fn lemma_seq_max_bounds(s: Seq<Glyph>)
    ensures
        0 <= seq_max_height(s),
        0 <= seq_max_advance_px(s),
        forall|i: int|
            0 <= i < s.len() ==> (#[trigger] s[i]).height as int <= seq_max_height(s),
        forall|i: int|
            0 <= i < s.len() ==> (#[trigger] s[i]).spec_advance_px() <= seq_max_advance_px(s),
    decreases s.len(),
{
    if s.len() > 0 {
        let dl = s.drop_last();
        lemma_seq_max_bounds(dl);
        assert forall|i: int|
            0 <= i < s.len() implies (#[trigger] s[i]).height as int <= seq_max_height(s) by {
            if i < s.len() - 1 {
                assert(s[i] == dl[i]);
                assert(dl[i].height as int <= seq_max_height(dl));
            }
        }
        assert forall|i: int|
            0 <= i < s.len() implies (#[trigger] s[i]).spec_advance_px() <= seq_max_advance_px(
            s,
        ) by {
            if i < s.len() - 1 {
                assert(s[i] == dl[i]);
                assert(dl[i].spec_advance_px() <= seq_max_advance_px(dl));
            }
        }
    }
}

/// Why a glyph cache could not be built from a batch of rasterized glyphs.
#[derive(Clone, Copy, PartialEq, Eq, Structural, Debug)]
pub enum CacheBuildError {
    /// The batch does not hold exactly one glyph per repertoire code.
    WrongRepertoireSize,
    /// Some glyph's metrics fall outside the supported range.
    MetricsOutOfRange,
}

/// A character was looked up that lies outside the cached repertoire.
#[derive(Clone, Copy, PartialEq, Eq, Structural, Debug)]
pub struct UnsupportedCharacterError;

/// Owns the metrics and texture handles of the full glyph repertoire, plus
/// the maximum advance and maximum bitmap height across it (the cell pitch).
#[derive(Debug)]
pub struct GlyphCache {
    glyphs: Vec<Glyph>,
    max_advance_px: u32,
    max_height_px: u32,
}

impl View for GlyphCache {
    type V = Seq<Glyph>;

    closed spec fn view(&self) -> Seq<Glyph> {
        self.glyphs@
    }
}

impl GlyphCache {
    /// The cell width the cache reports, in pixels.
    pub closed spec fn spec_max_advance_px(self) -> int {
        self.max_advance_px as int
    }

    /// The cell height the cache reports, in pixels.
    pub closed spec fn spec_max_height_px(self) -> int {
        self.max_height_px as int
    }

    /// One well-formed glyph per repertoire code, with the recorded maxima
    /// equal to the maxima over the contents.
    pub open spec fn wf(self) -> bool {
        &&& self@.len() == REPERTOIRE_SIZE
        &&& forall|i: int| 0 <= i < self@.len() ==> (#[trigger] self@[i]).wf()
        &&& self.spec_max_advance_px() == seq_max_advance_px(self@)
        &&& self.spec_max_height_px() == seq_max_height(self@)
    }

    /// Builds the cache from the batch of rasterized glyphs for codes
    /// 0 through 126, in code order, and returns it together with the
    /// maximum whole-pixel advance and maximum bitmap height observed —
    /// the grid's uniform cell pitch.  No partial cache is usable, so a
    /// batch of the wrong size or with out-of-range metrics is rejected
    /// whole.
    pub fn build(glyphs: Vec<Glyph>) -> (r: Result<(GlyphCache, u32, u32), CacheBuildError>)
        ensures
            match r {
                Ok((cache, max_advance, max_height)) => {
                    &&& glyphs@.len() == REPERTOIRE_SIZE
                    &&& forall|i: int| 0 <= i < glyphs@.len() ==> (#[trigger] glyphs@[i]).wf()
                    &&& cache.wf()
                    &&& cache@ == glyphs@
                    &&& max_advance as int == seq_max_advance_px(glyphs@)
                    &&& max_height as int == seq_max_height(glyphs@)
                },
                Err(CacheBuildError::WrongRepertoireSize) => glyphs@.len() != REPERTOIRE_SIZE,
                Err(CacheBuildError::MetricsOutOfRange) => {
                    &&& glyphs@.len() == REPERTOIRE_SIZE
                    &&& exists|i: int| 0 <= i < glyphs@.len() && !(#[trigger] glyphs@[i]).wf()
                },
            },
    {
        if glyphs.len() != REPERTOIRE_SIZE {
            return Err(CacheBuildError::WrongRepertoireSize);
        }
        let mut max_advance: u32 = 0;
        let mut max_height: u32 = 0;
        let mut i: usize = 0;
        while i < glyphs.len()
            invariant
                glyphs@.len() == REPERTOIRE_SIZE,
                0 <= i <= glyphs@.len(),
                forall|j: int| 0 <= j < i ==> (#[trigger] glyphs@[j]).wf(),
                max_advance as int == seq_max_advance_px(glyphs@.take(i as int)),
                max_height as int == seq_max_height(glyphs@.take(i as int)),
                max_advance <= MAX_DIM,
                max_height <= MAX_DIM,
            decreases glyphs@.len() - i,
        {
            let g = glyphs[i];
            if !g.is_wf() {
                return Err(CacheBuildError::MetricsOutOfRange);
            }
            let adv = g.advance_px() as u32;
            if adv > max_advance {
                max_advance = adv;
            }
            if g.height > max_height {
                max_height = g.height;
            }
            proof {
                assert(glyphs@.take(i + 1).drop_last() =~= glyphs@.take(i as int));
                assert(glyphs@.take(i + 1).last() == glyphs@[i as int]);
            }
            i = i + 1;
        }
        proof {
            assert(glyphs@.take(glyphs@.len() as int) =~= glyphs@);
        }
        let cache = GlyphCache { glyphs, max_advance_px: max_advance, max_height_px: max_height };
        Ok((cache, max_advance, max_height))
    }

    /// Looks up the glyph for `ch`; characters outside the repertoire are a
    /// recoverable per-character miss, not a failure of the cache.
    pub fn get(&self, ch: char) -> (r: Result<&Glyph, UnsupportedCharacterError>)
        requires
            self.wf(),
        ensures
            match r {
                Ok(g) => 0 <= (ch as int) < REPERTOIRE_SIZE && *g == self@[ch as int],
                Err(_) => (ch as int) >= REPERTOIRE_SIZE,
            },
    {
        let code = ch as u32;
        if code < REPERTOIRE_SIZE as u32 {
            Ok(&self.glyphs[code as usize])
        } else {
            Err(UnsupportedCharacterError)
        }
    }

    pub fn max_advance_px(&self) -> (r: u32)
        ensures
            r as int == self.spec_max_advance_px(),
    {
        self.max_advance_px
    }

    pub fn max_height_px(&self) -> (r: u32)
        ensures
            r as int == self.spec_max_height_px(),
    {
        self.max_height_px
    }
}

/// Cell pitch invariant: every glyph in the repertoire fits the cell pitch
/// the cache reports — its bitmap height is at most the cell height and its
/// whole-pixel advance at most the cell width.
pub proof fn lemma_cell_pitch(cache: GlyphCache)
    requires
        cache.wf(),
    ensures
        forall|i: int|
            0 <= i < cache@.len() ==> (#[trigger] cache@[i]).height as int
                <= cache.spec_max_height_px(),
        forall|i: int|
            0 <= i < cache@.len() ==> (#[trigger] cache@[i]).spec_advance_px()
                <= cache.spec_max_advance_px(),
{
    lemma_seq_max_bounds(cache@);
}

} // verus!
