use vstd::prelude::*;
use crate::bitmap::{fits, paint, AlphaBitmap, Coverage};
use crate::raster::PixelBox;
use crate::size::{pixel_size, pixel_size_of};

verus! {

/// What a rasterizer hands back for one character at one pixel size: the
/// glyph's pixel bounding box at the origin (`None` for a glyph without
/// one), its float metrics, which the cache stores as they are, and the
/// covered pixels.
pub struct Rasterized<M> {
    pub pixel_box: Option<PixelBox>,
    pub metrics: M,
    pub coverage: Vec<Coverage>,
}

/// A cached glyph: the rasterizer's metrics, the vertical offset of the
/// bitmap's origin, the bitmap's dimensions (border included) and the
/// texture made from it.
pub struct Glyph<M, T> {
    pub metrics: M,
    pub offset_y: i64,
    pub width: u32,
    pub height: u32,
    pub texture: T,
}

/// Why a glyph could not be cached.
#[derive(Clone, Copy, Debug, PartialEq, Eq, Structural)]
pub enum GlyphError {
    /// The glyph's bitmap would not fit in memory or in a texture's sides.
    TooLarge,
}

pub open spec fn box_width(pb: Option<PixelBox>) -> nat {
    match pb {
        Some(b) => b.width_spec(),
        None => 0,
    }
}

pub open spec fn box_height(pb: Option<PixelBox>) -> nat {
    match pb {
        Some(b) => b.height_spec(),
        None => 0,
    }
}

pub open spec fn box_offset_y(pb: Option<PixelBox>) -> int {
    match pb {
        Some(b) => b.offset_y_spec(),
        None => 1,
    }
}

/// Whether the rasterized glyph's bitmap can be allocated.
pub open spec fn fits_box(pb: Option<PixelBox>) -> bool {
    fits(box_width(pb), box_height(pb))
}

/// Whether the glyph has no pixel to draw, so that it takes the empty
/// texture rather than an upload.
pub open spec fn zero_area(pb: Option<PixelBox>) -> bool {
    box_width(pb) == 0 || box_height(pb) == 0
}

/// Whether `g` is the glyph made from the rasterizer's output `ro`: its
/// metrics, offset and dimensions come from `ro`, and its texture is the
/// empty one for a glyph without area, else the upload of the painted
/// bitmap with `settings`.
pub open spec fn built_from<M, T, S, U, E>(
    ro: Rasterized<M>,
    settings: &S,
    upload: &U,
    empty: &E,
    g: Glyph<M, T>,
) -> bool where U: Fn(&AlphaBitmap, &S) -> T, E: Fn() -> T {
    let bw = box_width(ro.pixel_box);
    let bh = box_height(ro.pixel_box);
    &&& g.metrics == ro.metrics
    &&& g.offset_y == box_offset_y(ro.pixel_box)
    &&& g.width == bw + 2
    &&& g.height == bh + 2
    &&& if zero_area(ro.pixel_box) {
        empty.ensures((), g.texture)
    } else {
        exists|b: AlphaBitmap|
            {
                &&& b.width_spec() == bw + 2
                &&& b.height_spec() == bh + 2
                &&& b.bytes() == paint(bw, bh, ro.coverage@)
                &&& #[trigger] upload.ensures((&b, settings), g.texture)
            }
    }
}

/// Turns a rasterizer's output into a glyph: paints the bitmap with its
/// border, and takes the empty texture for a glyph without area or uploads
/// the bitmap otherwise. Fails exactly when the bitmap is too large.
pub fn build_glyph<M, T, S, U, E>(ro: Rasterized<M>, settings: &S, upload: &U, empty: &E) -> (r:
    Result<Glyph<M, T>, GlyphError>) where U: Fn(&AlphaBitmap, &S) -> T, E: Fn() -> T
    requires
        forall|b: &AlphaBitmap, s: &S| upload.requires((b, s)),
        empty.requires(()),
    ensures
        r is Ok <==> fits_box(ro.pixel_box),
        r matches Ok(g) ==> built_from(ro, settings, upload, empty, g),
        r matches Err(e) ==> e == GlyphError::TooLarge,
{
    let ghost gro = ro;
    let bbox = match ro.pixel_box {
        Some(b) => b,
        None => PixelBox::zero(),
    };
    proof {
        use_type_invariant(bbox);
    }
    let painted = AlphaBitmap::paint_glyph(&bbox, &ro.coverage);
    match painted {
        None => Err(GlyphError::TooLarge),
        Some(bitmap) => {
            let width = bitmap.width();
            let height = bitmap.height();
            let offset_y = bbox.offset_y();
            if bbox.is_empty_area() {
                let texture = empty();
                let g = Glyph { metrics: ro.metrics, offset_y, width, height, texture };
                assert(built_from(gro, settings, upload, empty, g));
                Ok(g)
            } else {
                let texture = upload(&bitmap, settings);
                let ghost bw = box_width(gro.pixel_box);
                let ghost bh = box_height(gro.pixel_box);
                assert(exists|b: AlphaBitmap|
                    {
                        &&& b.width_spec() == bw + 2
                        &&& b.height_spec() == bh + 2
                        &&& b.bytes() == paint(bw, bh, gro.coverage@)
                        &&& #[trigger] upload.ensures((&b, settings), texture)
                    });
                let g = Glyph { metrics: ro.metrics, offset_y, width, height, texture };
                assert(!zero_area(gro.pixel_box));
                assert(g.metrics == gro.metrics);
                assert(g.texture == texture);
                assert(g.offset_y == box_offset_y(gro.pixel_box));
                assert(g.width == bw + 2 && g.height == bh + 2);
                assert(built_from(gro, settings, upload, empty, g));
                Ok(g)
            }
        },
    }
}


/// The integer that the key `(pixel size, code point)` is stored under.
pub open spec fn key_code(k: (u32, u32)) -> u64 {
    (k.0 as int * 0x1_0000_0000 + k.1 as int) as u64
}

proof fn lemma_key_code_injective(a: (u32, u32), b: (u32, u32))
    requires
        key_code(a) == key_code(b),
    ensures
        a == b,
{
    assert(a.0 as int * 0x1_0000_0000 + a.1 as int <= u64::MAX) by (nonlinear_arith)
        requires
            a.0 <= u32::MAX,
            a.1 <= u32::MAX,
    ;
    assert(b.0 as int * 0x1_0000_0000 + b.1 as int <= u64::MAX) by (nonlinear_arith)
        requires
            b.0 <= u32::MAX,
            b.1 <= u32::MAX,
    ;
    if a.0 < b.0 {
        assert(a.0 as int * 0x1_0000_0000 + 0x1_0000_0000 <= b.0 as int * 0x1_0000_0000)
            by (nonlinear_arith)
            requires
                a.0 < b.0,
        ;
    } else if b.0 < a.0 {
        assert(b.0 as int * 0x1_0000_0000 + 0x1_0000_0000 <= a.0 as int * 0x1_0000_0000)
            by (nonlinear_arith)
            requires
                b.0 < a.0,
        ;
    }
}


/// piston-texture's `TextureSettings` (filtering, wrapping): held opaque and
/// handed to every upload unchanged.
#[verifier::external_type_specification]
#[verifier::external_body]
pub struct ExTextureSettings(texture::TextureSettings);

/// The key of `ch` at the point size `size`: the pixel size and the
/// character's code point.
pub open spec fn cache_key(size: u32, ch: char) -> (u32, u32) {
    (pixel_size_of(size), ch as u32)
}

/// What one lookup-or-populate does to the cached glyphs `before`: a hit
/// returns the stored glyph and changes nothing; a miss stores the new
/// glyph under `k` and returns it, or stores nothing on an error.
pub open spec fn lookup_outcome<K, V>(
    before: Map<K, V>,
    k: K,
    after: Map<K, V>,
    r: Result<V, GlyphError>,
) -> bool {
    if before.contains_key(k) {
        after == before && r == Ok::<V, GlyphError>(before[k])
    } else {
        match r {
            Ok(v) => after == before.insert(k, v),
            Err(_) => after == before,
        }
    }
}

/// The glyph that a lookup returned, as a value.
pub open spec fn returned<V>(r: Result<&V, GlyphError>) -> Result<V, GlyphError> {
    match r {
        Ok(v) => Ok(*v),
        Err(e) => Err(e),
    }
}

/// Whether `ch` at `size` is cached in `m`, or cannot be: the rasterizer's
/// output for it is too large to paint.
pub open spec fn loaded_or_too_large<Fo, M, T, F>(
    m: Map<(u32, u32), Glyph<M, T>>,
    font: &Fo,
    raster: &F,
    size: u32,
    ch: char,
) -> bool where F: Fn(&Fo, u32, char) -> Rasterized<M> {
    ||| m.contains_key(cache_key(size, ch))
    ||| exists|ro: Rasterized<M>|
        #[trigger] raster.ensures((font, pixel_size_of(size), ch), ro) && !fits_box(ro.pixel_box)
}

/// The printable ASCII characters, space to tilde, in order.
fn printable_ascii() -> (r: Vec<char>)
    ensures
        r@.len() == 95,
        forall|i: int|
            0 <= i < 95 ==> #[trigger] r@[i] == ((0x20 + i) as u8) as char && r@[i] as u32 == 0x20
                + i,
{
    let mut r: Vec<char> = Vec::new();
    let mut b: u8 = 0x20;
    while b < 0x7F
        invariant
            0x20 <= b <= 0x7F,
            r@.len() == b - 0x20,
            forall|i: int|
                0 <= i < r@.len() ==> #[trigger] r@[i] == ((0x20 + i) as u8) as char && r@[i] as u32
                    == 0x20 + i,
        decreases 0x7F - b,
    {
        r.push(b as char);
        b = b + 1;
    }
    r
}

/// A cache of rasterized glyphs of one font, keyed by pixel size and
/// character. Entries are added on first use and never changed or removed.
/// The font is handed to the rasterizer as it is.
pub struct GlyphCache<Fo, M, T> {
    /// The font.
    pub font: Fo,
    settings: texture::TextureSettings,
    data: std::collections::HashMap<u64, Glyph<M, T>>,
}

impl<Fo, M, T> View for GlyphCache<Fo, M, T> {
    type V = Map<(u32, u32), Glyph<M, T>>;

    closed spec fn view(&self) -> Map<(u32, u32), Glyph<M, T>> {
        Map::new(
            |k: (u32, u32)| self.data@.contains_key(key_code(k)),
            |k: (u32, u32)| self.data@[key_code(k)],
        )
    }
}

impl<Fo, M, T> GlyphCache<Fo, M, T> {
    /// The font that glyphs are rasterized from.
    pub closed spec fn font_spec(&self) -> Fo {
        self.font
    }

    /// The texture settings that every upload is made with.
    pub closed spec fn settings_spec(&self) -> texture::TextureSettings {
        self.settings
    }

    /// An empty cache over `font`.
    pub fn from_font(font: Fo, settings: texture::TextureSettings) -> (r: Self)
        ensures
            r.font_spec() == font,
            r.settings_spec() == settings,
            r@ == Map::<(u32, u32), Glyph<M, T>>::empty(),
    {
        broadcast use vstd::std_specs::hash::group_hash_axioms;

        let r = GlyphCache { font, settings, data: std::collections::HashMap::new() };
        assert(r@ =~= Map::<(u32, u32), Glyph<M, T>>::empty());
        r
    }

    /// The glyph of `ch` at `size` if it is cached; never rasterizes.
    pub fn opt_character(&self, size: u32, ch: char) -> (r: Option<&Glyph<M, T>>)
        ensures
            r is Some <==> self@.contains_key(cache_key(size, ch)),
            r matches Some(g) ==> *g == self@[cache_key(size, ch)],
    {
        broadcast use vstd::std_specs::hash::group_hash_axioms;

        let pixel = pixel_size(size);
        let k: u64 = pixel as u64 * 0x1_0000_0000 + ch as u32 as u64;
        assert(k == key_code(cache_key(size, ch)));
        self.data.get(&k)
    }

    /// The glyph of `ch` at the point size `size`, rasterized, painted and
    /// uploaded on first use and taken from the cache afterwards.
    pub fn character<F, U, E>(&mut self, size: u32, ch: char, raster: &F, upload: &U, empty: &E) -> (r:
        Result<&Glyph<M, T>, GlyphError>) where
        F: Fn(&Fo, u32, char) -> Rasterized<M>,
        U: Fn(&AlphaBitmap, &texture::TextureSettings) -> T,
        E: Fn() -> T,

        requires
            forall|f: &Fo, p: u32, c: char| raster.requires((f, p, c)),
            forall|b: &AlphaBitmap, s: &texture::TextureSettings| upload.requires((b, s)),
            empty.requires(()),
        ensures
            final(self).font_spec() == old(self).font_spec(),
            final(self).settings_spec() == old(self).settings_spec(),
            lookup_outcome(old(self)@, cache_key(size, ch), final(self)@, returned(r)),
            !old(self)@.contains_key(cache_key(size, ch)) ==> exists|ro: Rasterized<M>|
                #[trigger] raster.ensures((&old(self).font_spec(), pixel_size_of(size), ch), ro) && match r {
                    Ok(g) => built_from(ro, &old(self).settings_spec(), upload, empty, *g),
                    Err(_) => !fits_box(ro.pixel_box),
                },
    {
        broadcast use vstd::std_specs::hash::group_hash_axioms;

        let ghost before = self@;
        let ghost key = cache_key(size, ch);
        let pixel = pixel_size(size);
        let k: u64 = pixel as u64 * 0x1_0000_0000 + ch as u32 as u64;
        assert(k == key_code(key));
        if !self.data.contains_key(&k) {
            let ro = raster(&self.font, pixel, ch);
            let ghost gro = ro;
            match build_glyph(ro, &self.settings, upload, empty) {
                Err(e) => {
                    assert(self@ =~= before);
                    return Err(e);
                },
                Ok(g) => {
                    let ghost gg = g;
                    self.data.insert(k, g);
                    assert forall|k2: (u32, u32)| #[trigger]
                        self@.contains_key(k2) == before.insert(key, gg).contains_key(k2) by {
                        if key_code(k2) == key_code(key) {
                            lemma_key_code_injective(k2, key);
                        }
                    }
                    assert(self@ =~= before.insert(key, gg));
                    assert(built_from(gro, &self.settings, upload, empty, gg));
                },
            }
        } else {
            assert(self@ =~= before);
        }
        Ok(self.data.get(&k).unwrap())
    }

    /// Loads the printable ASCII characters, space to tilde, at `size`;
    /// nothing else is added and nothing cached before changes.
    pub fn preload_printable_ascii<F, U, E>(&mut self, size: u32, raster: &F, upload: &U, empty: &E)
        where
        F: Fn(&Fo, u32, char) -> Rasterized<M>,
        U: Fn(&AlphaBitmap, &texture::TextureSettings) -> T,
        E: Fn() -> T,

        requires
            forall|f: &Fo, p: u32, c: char| raster.requires((f, p, c)),
            forall|b: &AlphaBitmap, s: &texture::TextureSettings| upload.requires((b, s)),
            empty.requires(()),
        ensures
            final(self).font_spec() == old(self).font_spec(),
            final(self).settings_spec() == old(self).settings_spec(),
            forall|k: (u32, u32)| #[trigger]
                old(self)@.contains_key(k) ==> final(self)@.contains_key(k) && final(self)@[k]
                    == old(self)@[k],
            forall|k: (u32, u32)| #[trigger]
                final(self)@.contains_key(k) ==> old(self)@.contains_key(k) || (k.0
                    == pixel_size_of(size) && 0x20 <= k.1 <= 0x7E),
            forall|b: u8|
                0x20 <= b <= 0x7E ==> loaded_or_too_large(
                    final(self)@,
                    &final(self).font_spec(),
                    raster,
                    size,
                    #[trigger] (b as char),
                ),
    {
        let chars = printable_ascii();
        self.preload_chars(size, chars.as_slice(), raster, upload, empty);
        assert forall|b: u8| 0x20 <= b <= 0x7E implies loaded_or_too_large(
            self@,
            &self.font_spec(),
            raster,
            size,
            #[trigger] (b as char),
        ) by {
            assert(chars@[b - 0x20] == b as char);
        }
    }

    /// Loads every character of `chars` at `size`; nothing else is added and
    /// nothing cached before changes.
    pub fn preload_chars<F, U, E>(&mut self, size: u32, chars: &[char], raster: &F, upload: &U, empty: &E)
        where
        F: Fn(&Fo, u32, char) -> Rasterized<M>,
        U: Fn(&AlphaBitmap, &texture::TextureSettings) -> T,
        E: Fn() -> T,

        requires
            forall|f: &Fo, p: u32, c: char| raster.requires((f, p, c)),
            forall|b: &AlphaBitmap, s: &texture::TextureSettings| upload.requires((b, s)),
            empty.requires(()),
        ensures
            final(self).font_spec() == old(self).font_spec(),
            final(self).settings_spec() == old(self).settings_spec(),
            forall|k: (u32, u32)| #[trigger]
                old(self)@.contains_key(k) ==> final(self)@.contains_key(k) && final(self)@[k]
                    == old(self)@[k],
            forall|k: (u32, u32)| #[trigger]
                final(self)@.contains_key(k) ==> old(self)@.contains_key(k) || exists|i: int|
                    0 <= i < chars@.len() && k == cache_key(size, #[trigger] chars@[i]),
            forall|i: int|
                0 <= i < chars@.len() ==> loaded_or_too_large(
                    final(self)@,
                    &final(self).font_spec(),
                    raster,
                    size,
                    #[trigger] chars@[i],
                ),
    {
        let ghost before = self@;
        let mut i: usize = 0;
        while i < chars.len()
            invariant
                i <= chars@.len(),
                self.font_spec() == old(self).font_spec(),
                self.settings_spec() == old(self).settings_spec(),
                before == old(self)@,
                forall|f: &Fo, p: u32, c: char| raster.requires((f, p, c)),
                forall|b: &AlphaBitmap, s: &texture::TextureSettings| upload.requires((b, s)),
                empty.requires(()),
                forall|k: (u32, u32)| #[trigger]
                    before.contains_key(k) ==> self@.contains_key(k) && self@[k] == before[k],
                forall|k: (u32, u32)| #[trigger]
                    self@.contains_key(k) ==> before.contains_key(k) || exists|j: int|
                        0 <= j < i && k == cache_key(size, #[trigger] chars@[j]),
                forall|j: int|
                    0 <= j < i ==> loaded_or_too_large(
                        self@,
                        &self.font_spec(),
                        raster,
                        size,
                        #[trigger] chars@[j],
                    ),
            decreases chars@.len() - i,
        {
            let ghost prev = self@;
            let ch = chars[i];
            let _ = self.character(size, ch, raster, upload, empty);
            assert forall|k: (u32, u32)| #[trigger] self@.contains_key(k) implies before.contains_key(k)
                || exists|j: int| 0 <= j < i + 1 && k == cache_key(size, #[trigger] chars@[j]) by {
                if !prev.contains_key(k) {
                    assert(k == cache_key(size, chars@[i as int]));
                }
            }
            assert forall|j: int| 0 <= j < i + 1 implies loaded_or_too_large(
                self@,
                &self.font_spec(),
                raster,
                size,
                #[trigger] chars@[j],
            ) by {
                if j < i {
                    assert(loaded_or_too_large(prev, &self.font_spec(), raster, size, chars@[j]));
                }
            }
            i = i + 1;
        }
    }
}

} // verus!
