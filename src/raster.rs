use vstd::prelude::*;

verus! {

/// The character drawn in place of one that the font does not map to a
/// visible glyph.
pub const REPLACEMENT_CHARACTER: char = '\u{FFFD}';

/// Whether a glyph must be replaced by the replacement character's glyph:
/// it is the font's notdef glyph (id 0) and it has no outline.
pub open spec fn needs_replacement_spec(glyph_id: u32, has_outline: bool) -> bool {
    glyph_id == 0 && !has_outline
}

/// Decides the fallback to the replacement character.
pub fn needs_replacement(glyph_id: u32, has_outline: bool) -> (r: bool)
    ensures
        r == needs_replacement_spec(glyph_id, has_outline),
{
    glyph_id == 0 && !has_outline
}

/// The character whose glyph is rendered for `ch`, given what the font
/// returned for `ch`.
pub open spec fn rendered_char_spec(ch: char, glyph_id: u32, has_outline: bool) -> char {
    if needs_replacement_spec(glyph_id, has_outline) {
        REPLACEMENT_CHARACTER
    } else {
        ch
    }
}

/// Picks the character to render for `ch`.
pub fn rendered_char(ch: char, glyph_id: u32, has_outline: bool) -> (r: char)
    ensures
        r == rendered_char_spec(ch, glyph_id, has_outline),
{
    if needs_replacement(glyph_id, has_outline) {
        REPLACEMENT_CHARACTER
    } else {
        ch
    }
}

/// An integer pixel bounding box of a glyph positioned at the origin.
#[derive(Clone, Copy, Debug, PartialEq, Eq)]
pub struct PixelBox {
    min_x: i32,
    min_y: i32,
    max_x: i32,
    max_y: i32,
}

impl PixelBox {
    #[verifier::type_invariant]
    pub open spec fn inv(&self) -> bool {
        self.wf()
    }

    pub open spec fn wf(&self) -> bool {
        self.min_x_spec() <= self.max_x_spec() && self.min_y_spec() <= self.max_y_spec()
    }

    pub closed spec fn min_x_spec(&self) -> i32 {
        self.min_x
    }

    pub closed spec fn min_y_spec(&self) -> i32 {
        self.min_y
    }

    pub closed spec fn max_x_spec(&self) -> i32 {
        self.max_x
    }

    pub closed spec fn max_y_spec(&self) -> i32 {
        self.max_y
    }

    pub open spec fn width_spec(&self) -> nat {
        (self.max_x_spec() - self.min_x_spec()) as nat
    }

    pub open spec fn height_spec(&self) -> nat {
        (self.max_y_spec() - self.min_y_spec()) as nat
    }

    /// A box from its corners; `None` when a minimum exceeds its maximum.
    pub fn new(min_x: i32, min_y: i32, max_x: i32, max_y: i32) -> (r: Option<PixelBox>)
        ensures
            r is Some <==> (min_x <= max_x && min_y <= max_y),
            r matches Some(b) ==> b.wf() && b.min_x_spec() == min_x && b.min_y_spec() == min_y
                && b.max_x_spec() == max_x && b.max_y_spec() == max_y,
    {
        if min_x <= max_x && min_y <= max_y {
            Some(PixelBox { min_x, min_y, max_x, max_y })
        } else {
            None
        }
    }

    /// The all-zero box, used for glyphs without a pixel bounding box.
    pub fn zero() -> (r: PixelBox)
        ensures
            r.wf(),
            r.min_x_spec() == 0 && r.min_y_spec() == 0 && r.max_x_spec() == 0 && r.max_y_spec()
                == 0,
    {
        PixelBox { min_x: 0, min_y: 0, max_x: 0, max_y: 0 }
    }

    pub fn min_x(&self) -> (r: i32)
        ensures
            r == self.min_x_spec(),
    {
        self.min_x
    }

    pub fn min_y(&self) -> (r: i32)
        ensures
            r == self.min_y_spec(),
    {
        self.min_y
    }

    pub fn max_x(&self) -> (r: i32)
        ensures
            r == self.max_x_spec(),
    {
        self.max_x
    }

    pub fn max_y(&self) -> (r: i32)
        ensures
            r == self.max_y_spec(),
    {
        self.max_y
    }

    /// Whether the box encloses no pixel: a glyph such as the space.
    pub fn is_empty_area(&self) -> (r: bool)
        ensures
            r == (self.width_spec() == 0 || self.height_spec() == 0),
    {
        proof {
            use_type_invariant(self);
        }
        self.min_x == self.max_x || self.min_y == self.max_y
    }

    /// The vertical offset of the bitmap's origin: the sign of `min_y` is
    /// flipped (y grows downwards) and the border is added.
    pub open spec fn offset_y_spec(&self) -> int {
        1 - self.min_y_spec()
    }

    pub fn offset_y(&self) -> (r: i64)
        ensures
            r == self.offset_y_spec(),
    {
        1 - self.min_y as i64
    }
}

} // verus!
