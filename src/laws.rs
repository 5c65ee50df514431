use vstd::prelude::*;
use crate::cache::{cache_key, lookup_outcome, GlyphError};
use crate::raster::{rendered_char_spec, needs_replacement_spec, REPLACEMENT_CHARACTER};
use crate::size::pixel_size_of;

verus! {

/// A second lookup of a key that the first one populated returns the same
/// glyph and leaves the cache as it was: nothing is rasterized again.
pub proof fn lemma_lookup_memoized<K, V>(
    m0: Map<K, V>,
    k: K,
    m1: Map<K, V>,
    v: V,
    m2: Map<K, V>,
    r2: Result<V, GlyphError>,
)
    requires
        lookup_outcome(m0, k, m1, Ok(v)),
        lookup_outcome(m1, k, m2, r2),
    ensures
        m1.contains_key(k),
        m2 == m1,
        r2 == Ok::<V, GlyphError>(v),
{
}

/// Two point sizes with the same pixel size share one cache entry: after a
/// lookup at the first, a lookup at the second returns the same glyph and
/// adds nothing, and the first added at most that one key.
pub proof fn lemma_sizes_share_entry<V>(
    m0: Map<(u32, u32), V>,
    a: u32,
    b: u32,
    ch: char,
    m1: Map<(u32, u32), V>,
    v: V,
    m2: Map<(u32, u32), V>,
    r2: Result<V, GlyphError>,
)
    requires
        pixel_size_of(a) == pixel_size_of(b),
        lookup_outcome(m0, cache_key(a, ch), m1, Ok(v)),
        lookup_outcome(m1, cache_key(b, ch), m2, r2),
    ensures
        cache_key(a, ch) == cache_key(b, ch),
        m1.dom() == m0.dom().insert(cache_key(a, ch)),
        m2 == m1,
        r2 == Ok::<V, GlyphError>(v),
{
    if !m0.contains_key(cache_key(a, ch)) {
        assert(m1.dom() =~= m0.dom().insert(cache_key(a, ch)));
    } else {
        assert(m1.dom() =~= m0.dom().insert(cache_key(a, ch)));
    }
}

/// A key is absent from a cache before its first lookup and present, with
/// the returned glyph, right after it.
pub proof fn lemma_peek_after_populate<K, V>(m0: Map<K, V>, k: K, m1: Map<K, V>, v: V)
    requires
        !m0.contains_key(k),
        lookup_outcome(m0, k, m1, Ok(v)),
    ensures
        m1.contains_key(k),
        m1[k] == v,
        m1.remove(k) == m0,
{
    assert(m1.remove(k) =~= m0);
}

/// A character whose glyph is an empty notdef is drawn exactly as the
/// replacement character is, when the font's replacement glyph is visible.
pub proof fn lemma_fallback_same_as_replacement(
    ch: char,
    glyph_id: u32,
    has_outline: bool,
    replacement_id: u32,
    replacement_has_outline: bool,
)
    requires
        needs_replacement_spec(glyph_id, has_outline),
        !needs_replacement_spec(replacement_id, replacement_has_outline),
    ensures
        rendered_char_spec(ch, glyph_id, has_outline) == rendered_char_spec(
            REPLACEMENT_CHARACTER,
            replacement_id,
            replacement_has_outline,
        ),
{
}

} // verus!
