use glyph_cache::{
    build_glyph, needs_replacement, pixel_size, rendered_char, AlphaBitmap, Coverage, GlyphCache,
    GlyphError, PixelBox, Rasterized, REPLACEMENT_CHARACTER,
};
use std::cell::Cell;
use texture::TextureSettings;

/// What the fake texture sink hands back: the uploaded dimensions and
/// bytes, or `None` for the empty texture.
type FakeTexture = Option<(u32, u32, Vec<u8>)>;

fn upload(b: &AlphaBitmap, _s: &TextureSettings) -> FakeTexture {
    Some((b.width(), b.height(), b.data().to_vec()))
}

fn empty() -> FakeTexture {
    None
}

/// A glyph 2 pixels wide and 3 high for letters, none for the space; the
/// metrics record the pixel size and the character rasterized.
fn fake_raster(_font: &(), px: u32, ch: char) -> Rasterized<(u32, char)> {
    if ch == ' ' {
        Rasterized { pixel_box: None, metrics: (px, ch), coverage: vec![] }
    } else {
        Rasterized {
            pixel_box: PixelBox::new(0, -3, 2, 0),
            metrics: (px, ch),
            coverage: vec![
                Coverage { x: 0, y: 0, alpha: 255 },
                Coverage { x: 1, y: 2, alpha: 128 },
            ],
        }
    }
}

fn new_cache() -> GlyphCache<(), (u32, char), FakeTexture> {
    GlyphCache::from_font((), TextureSettings::new())
}

#[test]
fn pixel_size_rounds_points_times_1_333() {
    assert_eq!(pixel_size(12), 16);
    assert_eq!(pixel_size(0), 0);
    assert_eq!(pixel_size(1), 1);
    assert_eq!(pixel_size(10), 13);
    assert_eq!(pixel_size(11), 15);
    assert_eq!(pixel_size(500), 667);
    assert_eq!(pixel_size(u32::MAX), u32::MAX);
}

#[test]
fn replacement_only_for_empty_notdef() {
    assert!(needs_replacement(0, false));
    assert!(!needs_replacement(0, true));
    assert!(!needs_replacement(7, false));
    assert_eq!(rendered_char('x', 0, false), REPLACEMENT_CHARACTER);
    assert_eq!(rendered_char('x', 0, true), 'x');
    assert_eq!(rendered_char('x', 3, false), 'x');
}

#[test]
fn pixel_box_accessors_and_area() {
    assert!(PixelBox::new(1, 0, 0, 0).is_none());
    assert!(PixelBox::new(0, 1, 0, 0).is_none());
    let b = PixelBox::new(-1, -7, 4, 2).unwrap();
    assert_eq!((b.min_x(), b.min_y(), b.max_x(), b.max_y()), (-1, -7, 4, 2));
    assert!(!b.is_empty_area());
    assert_eq!(b.offset_y(), 8);
    let z = PixelBox::zero();
    assert!(z.is_empty_area());
    assert_eq!(z.offset_y(), 1);
    assert!(PixelBox::new(0, 0, 0, 5).unwrap().is_empty_area());
}

#[test]
fn painted_bitmap_has_border_and_cells() {
    let b = PixelBox::new(0, -3, 2, 0).unwrap();
    let cov = vec![
        Coverage { x: 0, y: 0, alpha: 255 },
        Coverage { x: 1, y: 2, alpha: 128 },
        Coverage { x: 2, y: 0, alpha: 9 },
        Coverage { x: 0, y: 3, alpha: 9 },
    ];
    let bm = AlphaBitmap::paint_glyph(&b, &cov).unwrap();
    assert_eq!(bm.width(), 4);
    assert_eq!(bm.height(), 5);
    let mut expected = vec![0u8; 20];
    expected[1 * 4 + 1] = 255;
    expected[3 * 4 + 2] = 128;
    assert_eq!(bm.data(), &expected[..]);
    for row in 0..5usize {
        for col in 0..4usize {
            if row == 0 || row == 4 || col == 0 || col == 3 {
                assert_eq!(bm.data()[row * 4 + col], 0);
            }
        }
    }
}

#[test]
fn later_coverage_overwrites_earlier() {
    let b = PixelBox::new(5, 5, 6, 6).unwrap();
    let cov = vec![Coverage { x: 0, y: 0, alpha: 10 }, Coverage { x: 0, y: 0, alpha: 20 }];
    let bm = AlphaBitmap::paint_glyph(&b, &cov).unwrap();
    assert_eq!(bm.data(), &[0, 0, 0, 0, 20, 0, 0, 0, 0][..]);
}

#[test]
fn oversized_box_is_rejected() {
    let b = PixelBox::new(i32::MIN, 0, i32::MAX, 1).unwrap();
    assert!(AlphaBitmap::paint_glyph(&b, &vec![]).is_none());
    let ro = Rasterized { pixel_box: Some(b), metrics: (), coverage: vec![] };
    let r = build_glyph(ro, &TextureSettings::new(), &upload, &empty);
    assert_eq!(r.err(), Some(GlyphError::TooLarge));
}

#[test]
fn zero_area_glyph_takes_empty_texture() {
    let uploads = Cell::new(0u32);
    let counting_upload = |b: &AlphaBitmap, s: &TextureSettings| {
        uploads.set(uploads.get() + 1);
        upload(b, s)
    };
    let ro = Rasterized { pixel_box: None, metrics: 1u8, coverage: vec![] };
    let g = build_glyph(ro, &TextureSettings::new(), &counting_upload, &empty).unwrap();
    assert_eq!(g.texture, None);
    assert_eq!(uploads.get(), 0);
    assert_eq!((g.width, g.height, g.offset_y, g.metrics), (2, 2, 1, 1u8));

    let ro = Rasterized { pixel_box: PixelBox::new(0, 0, 3, 0), metrics: 2u8, coverage: vec![] };
    let g = build_glyph(ro, &TextureSettings::new(), &counting_upload, &empty).unwrap();
    assert_eq!(g.texture, None);
    assert_eq!(uploads.get(), 0);
    assert_eq!((g.width, g.height), (5, 2));
}

#[test]
fn visible_glyph_is_uploaded_with_border() {
    let ro = fake_raster(&(), 16, 'A');
    let g = build_glyph(ro, &TextureSettings::new(), &upload, &empty).unwrap();
    assert_eq!((g.width, g.height), (4, 5));
    assert_eq!(g.offset_y, 4);
    assert_eq!(g.metrics, (16, 'A'));
    let (w, h, data) = g.texture.unwrap();
    assert_eq!((w, h), (4, 5));
    assert_eq!(data[5], 255);
    assert_eq!(data[14], 128);
    assert_eq!(data.iter().filter(|&&a| a != 0).count(), 2);
}

#[test]
fn second_lookup_is_memoized() {
    let calls = Cell::new(0u32);
    let raster = |f: &(), px: u32, ch: char| {
        calls.set(calls.get() + 1);
        fake_raster(f, px, ch)
    };
    let mut cache = new_cache();
    let first = {
        let g = cache.character(12, 'A', &raster, &upload, &empty).unwrap();
        (g.metrics, g.offset_y, g.width, g.height, g.texture.clone())
    };
    let second = {
        let g = cache.character(12, 'A', &raster, &upload, &empty).unwrap();
        (g.metrics, g.offset_y, g.width, g.height, g.texture.clone())
    };
    assert_eq!(first, second);
    assert_eq!(first.0, (16, 'A'));
    assert_eq!(calls.get(), 1);
}

#[test]
fn sizes_with_one_pixel_size_share_an_entry() {
    let calls = Cell::new(0u32);
    let raster = |f: &(), px: u32, ch: char| {
        calls.set(calls.get() + 1);
        fake_raster(f, px, ch)
    };
    let mut cache = new_cache();
    cache.character(u32::MAX, 'A', &raster, &upload, &empty).unwrap();
    cache.character(u32::MAX - 1, 'A', &raster, &upload, &empty).unwrap();
    assert_eq!(calls.get(), 1);
    cache.character(10, 'A', &raster, &upload, &empty).unwrap();
    cache.character(11, 'A', &raster, &upload, &empty).unwrap();
    assert_eq!(calls.get(), 3);
    assert_eq!(cache.opt_character(10, 'A').unwrap().metrics, (13, 'A'));
    assert_eq!(cache.opt_character(11, 'A').unwrap().metrics, (15, 'A'));
}

#[test]
fn peek_before_and_after_populate() {
    let mut cache = new_cache();
    assert!(cache.opt_character(12, 'q').is_none());
    let made = cache.character(12, 'q', &fake_raster, &upload, &empty).unwrap().metrics;
    let peeked = cache.opt_character(12, 'q').unwrap();
    assert_eq!(peeked.metrics, made);
    assert_eq!((peeked.width, peeked.height), (4, 5));
    assert!(cache.opt_character(13, 'q').is_none());
}

#[test]
fn failed_glyph_is_not_cached() {
    let huge = |_f: &(), px: u32, ch: char| Rasterized {
        pixel_box: PixelBox::new(i32::MIN, 0, i32::MAX, 1),
        metrics: (px, ch),
        coverage: vec![],
    };
    let mut cache = new_cache();
    assert_eq!(cache.character(12, 'W', &huge, &upload, &empty).err(), Some(GlyphError::TooLarge));
    assert!(cache.opt_character(12, 'W').is_none());
}

#[test]
fn printable_ascii_preload_is_complete_and_exact() {
    let calls = Cell::new(0u32);
    let raster = |f: &(), px: u32, ch: char| {
        calls.set(calls.get() + 1);
        fake_raster(f, px, ch)
    };
    let mut cache = new_cache();
    cache.preload_printable_ascii(9, &raster, &upload, &empty);
    assert_eq!(calls.get(), 95);
    for code in 0x20u8..=0x7E {
        assert!(cache.opt_character(9, code as char).is_some());
    }
    assert!(cache.opt_character(9, '\u{1f}').is_none());
    assert!(cache.opt_character(9, '\u{7f}').is_none());
    assert!(cache.opt_character(9, 'é').is_none());
    assert!(cache.opt_character(10, 'A').is_none());
    assert_eq!(cache.opt_character(9, ' ').unwrap().texture, None);
    cache.preload_printable_ascii(9, &raster, &upload, &empty);
    assert_eq!(calls.get(), 95);
}

#[test]
fn preload_chars_loads_each_once() {
    let calls = Cell::new(0u32);
    let raster = |f: &(), px: u32, ch: char| {
        calls.set(calls.get() + 1);
        fake_raster(f, px, ch)
    };
    let mut cache = new_cache();
    cache.preload_chars(20, &['a', 'b', 'a', ' '], &raster, &upload, &empty);
    assert_eq!(calls.get(), 3);
    assert!(cache.opt_character(20, 'a').is_some());
    assert!(cache.opt_character(20, 'b').is_some());
    assert!(cache.opt_character(20, ' ').is_some());
    assert!(cache.opt_character(20, 'c').is_none());
}

#[test]
fn notdef_fallback_matches_replacement_glyph() {
    // 'Z' is missing from this font: notdef without outline. U+FFFD has a
    // visible glyph of its own.
    let glyph_of = |ch: char| -> (u32, bool) {
        match ch {
            'Z' => (0, false),
            REPLACEMENT_CHARACTER => (42, true),
            _ => (1, true),
        }
    };
    let raster = |f: &(), px: u32, ch: char| {
        let (id, outline) = glyph_of(ch);
        let drawn = rendered_char(ch, id, outline);
        let mut r = fake_raster(f, px, drawn);
        if drawn == REPLACEMENT_CHARACTER {
            r.coverage.push(Coverage { x: 1, y: 1, alpha: 77 });
        }
        r
    };
    let mut cache = new_cache();
    let missing = {
        let g = cache.character(12, 'Z', &raster, &upload, &empty).unwrap();
        (g.metrics, g.offset_y, g.width, g.height, g.texture.clone())
    };
    let direct = {
        let g = cache.character(12, REPLACEMENT_CHARACTER, &raster, &upload, &empty).unwrap();
        (g.metrics, g.offset_y, g.width, g.height, g.texture.clone())
    };
    assert_eq!(missing, direct);
    assert_eq!(missing.0, (16, REPLACEMENT_CHARACTER));
}
