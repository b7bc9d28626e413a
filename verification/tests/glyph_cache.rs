use rush::glyph::CacheBuildError;
use rush::glyph::Glyph;
use rush::glyph::GlyphCache;
use rush::glyph::REPERTOIRE_SIZE;

fn glyph(texture_handle: u32, width: u32, height: u32, advance_px: i64) -> Glyph {
    Glyph {
        texture_handle,
        width,
        height,
        bearing_x: 1,
        bearing_y: height as i32,
        advance: advance_px * 64,
    }
}

fn repertoire() -> Vec<Glyph> {
    // Varied sizes; code 65 ('A') gets the tallest bitmap, code 87 ('W')
    // the widest advance.
    let mut v = Vec::new();
    for code in 0..REPERTOIRE_SIZE as u32 {
        let g = if code == 65 {
            glyph(code, 9, 21, 10)
        } else if code == 87 {
            glyph(code, 12, 15, 14)
        } else {
            glyph(code, 8, 12 + (code % 5), 9)
        };
        v.push(g);
    }
    v
}

#[test]
fn build_reports_cell_pitch() {
    let (cache, max_advance, max_height) = GlyphCache::build(repertoire()).unwrap();
    assert_eq!(max_advance, 14);
    assert_eq!(max_height, 21);
    assert_eq!(cache.max_advance_px(), 14);
    assert_eq!(cache.max_height_px(), 21);
}

#[test]
fn cell_pitch_bounds_every_glyph() {
    let glyphs = repertoire();
    let (_, max_advance, max_height) = GlyphCache::build(glyphs.clone()).unwrap();
    for g in &glyphs {
        assert!(g.height <= max_height);
        assert!(g.advance / 64 <= max_advance as i64);
    }
}

#[test]
fn build_rejects_wrong_repertoire_size() {
    let mut glyphs = repertoire();
    glyphs.pop();
    assert_eq!(
        GlyphCache::build(glyphs).unwrap_err(),
        CacheBuildError::WrongRepertoireSize
    );
    assert_eq!(
        GlyphCache::build(Vec::new()).unwrap_err(),
        CacheBuildError::WrongRepertoireSize
    );
}

#[test]
fn build_rejects_bad_metrics() {
    let mut glyphs = repertoire();
    glyphs[10].advance = -64;
    assert_eq!(
        GlyphCache::build(glyphs).unwrap_err(),
        CacheBuildError::MetricsOutOfRange
    );
    let mut glyphs = repertoire();
    glyphs[3].width = 2_000_000;
    assert_eq!(
        GlyphCache::build(glyphs).unwrap_err(),
        CacheBuildError::MetricsOutOfRange
    );
}

#[test]
fn get_returns_the_cached_glyph() {
    let (cache, _, _) = GlyphCache::build(repertoire()).unwrap();
    let a = cache.get('A').unwrap();
    assert_eq!(a.texture_handle, 65);
    assert_eq!(a.width, 9);
    assert_eq!(a.height, 21);
    assert_eq!(a.advance, 640);
    let nul = cache.get('\0').unwrap();
    assert_eq!(nul.texture_handle, 0);
}

#[test]
fn get_rejects_characters_outside_repertoire() {
    let (cache, _, _) = GlyphCache::build(repertoire()).unwrap();
    assert!(cache.get('\u{7f}').is_err());
    assert!(cache.get('é').is_err());
    assert!(cache.get('€').is_err());
    assert!(cache.get('~').is_ok());
}
