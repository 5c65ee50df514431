use vstd::prelude::*;
use crate::raster::PixelBox;

verus! {

/// One covered pixel reported by a rasterizer, in the glyph's local
/// coordinates, with its coverage as an 8-bit alpha value.
#[derive(Clone, Copy, Debug, PartialEq, Eq)]
pub struct Coverage {
    pub x: u32,
    pub y: u32,
    pub alpha: u8,
}

/// Whether a covered pixel lies inside a glyph box of `bw` by `bh` pixels.
pub open spec fn in_glyph(bw: nat, bh: nat, c: Coverage) -> bool {
    c.x < bw && c.y < bh
}

/// Row-major index in a bitmap `w` pixels wide of the glyph pixel `(x, y)`,
/// shifted by the one-pixel border.
pub open spec fn cell(w: int, x: u32, y: u32) -> int {
    (y as int + 1) * w + x as int + 1
}

/// The alpha bitmap for a glyph box of `bw` by `bh` pixels: `bw + 2` by
/// `bh + 2` bytes, zero everywhere but where `cov` writes, later entries
/// overwriting earlier ones; entries outside the box are ignored.
pub open spec fn paint(bw: nat, bh: nat, cov: Seq<Coverage>) -> Seq<u8>
    decreases cov.len(),
{
    if cov.len() == 0 {
        Seq::new(((bw + 2) * (bh + 2)) as nat, |i: int| 0u8)
    } else {
        let prev = paint(bw, bh, cov.drop_last());
        let c = cov.last();
        if in_glyph(bw, bh, c) {
            prev.update(cell((bw + 2) as int, c.x, c.y), c.alpha)
        } else {
            prev
        }
    }
}

/// Whether `(row, col)` is on the outermost ring of a `w` by `h` bitmap.
pub open spec fn on_border(w: int, h: int, row: int, col: int) -> bool {
    0 <= row < h && 0 <= col < w && (row == 0 || row == h - 1 || col == 0 || col == w - 1)
}

/// Whether a glyph box of `bw` by `bh` pixels gives a bitmap whose sides fit
/// in `u32` and whose byte count fits in `usize`.
pub open spec fn fits(bw: nat, bh: nat) -> bool {
    bw + 2 <= u32::MAX && bh + 2 <= u32::MAX && (bw + 2) * (bh + 2) <= usize::MAX
}

proof fn lemma_cell_in_range(w: int, h: int, row: int, col: int)
    requires
        0 <= row < h,
        0 <= col < w,
    ensures
        0 <= row * w + col < w * h,
{
    assert(0 <= row * w + col < w * h) by (nonlinear_arith)
        requires
            0 <= row < h,
            0 <= col < w,
    ;
}

proof fn lemma_cell_unique(w: int, r1: int, c1: int, r2: int, c2: int)
    requires
        0 <= c1 < w,
        0 <= c2 < w,
        0 <= r1,
        0 <= r2,
        r1 * w + c1 == r2 * w + c2,
    ensures
        r1 == r2,
        c1 == c2,
{
    if r1 < r2 {
        assert(r1 * w + w <= r2 * w) by (nonlinear_arith)
            requires
                r1 < r2,
                0 < w,
        ;
    } else if r2 < r1 {
        assert(r2 * w + w <= r1 * w) by (nonlinear_arith)
            requires
                r2 < r1,
                0 < w,
        ;
    }
}

/// Whether `s` holds a `w` by `h` bitmap whose outermost ring is zero.
pub open spec fn border_clear(w: int, h: int, s: Seq<u8>) -> bool {
    &&& s.len() == w * h
    &&& forall|row: int, col: int| #[trigger] on_border(w, h, row, col) ==> s[row * w + col] == 0
}

/// Painting never writes the outermost ring of pixels: it stays fully
/// transparent, whatever the rasterizer reports.
pub proof fn lemma_border_clear(bw: nat, bh: nat, cov: Seq<Coverage>)
    ensures
        border_clear((bw + 2) as int, (bh + 2) as int, paint(bw, bh, cov)),
    decreases cov.len(),
{
    let w: int = (bw + 2) as int;
    let h: int = (bh + 2) as int;
    let s = paint(bw, bh, cov);
    if cov.len() == 0 {
        assert forall|row: int, col: int| #[trigger] on_border(w, h, row, col) implies s[row * w
            + col] == 0 by {
            lemma_cell_in_range(w, h, row, col);
        }
    } else {
        lemma_border_clear(bw, bh, cov.drop_last());
        let c = cov.last();
        let prev = paint(bw, bh, cov.drop_last());
        if in_glyph(bw, bh, c) {
            lemma_cell_in_range(w, h, c.y as int + 1, c.x as int + 1);
            assert forall|row: int, col: int| #[trigger] on_border(w, h, row, col) implies s[row
                * w + col] == 0 by {
                lemma_cell_in_range(w, h, row, col);
                if row * w + col == cell(w, c.x, c.y) {
                    lemma_cell_unique(w, row, col, c.y as int + 1, c.x as int + 1);
                }
                assert(prev.update(cell(w, c.x, c.y), c.alpha)[row * w + col] == prev[row * w
                    + col]);
            }
        }
    }
}

/// A single-channel (alpha) bitmap with a transparent one-pixel border
/// around the glyph.
pub struct AlphaBitmap {
    width: u32,
    height: u32,
    data: Vec<u8>,
}

impl AlphaBitmap {
    pub closed spec fn width_spec(&self) -> nat {
        self.width as nat
    }

    pub closed spec fn height_spec(&self) -> nat {
        self.height as nat
    }

    /// The bytes, row by row.
    pub closed spec fn bytes(&self) -> Seq<u8> {
        self.data@
    }

    pub fn width(&self) -> (r: u32)
        ensures
            r == self.width_spec(),
    {
        self.width
    }

    pub fn height(&self) -> (r: u32)
        ensures
            r == self.height_spec(),
    {
        self.height
    }

    pub fn data(&self) -> (r: &[u8])
        ensures
            r@ == self.bytes(),
    {
        self.data.as_slice()
    }

    /// Paints the coverage of a glyph whose pixel box is `bbox` into a
    /// zeroed bitmap two pixels wider and higher than the box. `None` when
    /// that bitmap's sides do not fit in `u32` or its size in `usize`.
    pub fn paint_glyph(bbox: &PixelBox, cov: &Vec<Coverage>) -> (r: Option<AlphaBitmap>)
        ensures
            r is Some <==> fits(bbox.width_spec(), bbox.height_spec()),
            r matches Some(b) ==> {
                &&& b.width_spec() == bbox.width_spec() + 2
                &&& b.height_spec() == bbox.height_spec() + 2
                &&& b.bytes() == paint(bbox.width_spec(), bbox.height_spec(), cov@)
            },
    {
        proof {
            use_type_invariant(bbox);
        }
        let bw: u64 = (bbox.max_x() as i64 - bbox.min_x() as i64) as u64;
        let bh: u64 = (bbox.max_y() as i64 - bbox.min_y() as i64) as u64;
        if bw + 2 > u32::MAX as u64 || bh + 2 > u32::MAX as u64 {
            return None;
        }
        let w: u64 = bw + 2;
        let h: u64 = bh + 2;
        assert(w * h <= 0xffff_ffff * 0xffff_ffff) by (nonlinear_arith)
            requires
                w <= 0xffff_ffff,
                h <= 0xffff_ffff,
        ;
        let n: u64 = w * h;
        if n > usize::MAX as u64 {
            return None;
        }
        let ghost gbw = bbox.width_spec();
        let ghost gbh = bbox.height_spec();
        let n: usize = n as usize;
        let mut data: Vec<u8> = Vec::new();
        let mut i: usize = 0;
        while i < n
            invariant
                i <= n,
                data@ =~= Seq::new(i as nat, |j: int| 0u8),
            decreases n - i,
        {
            data.push(0u8);
            i = i + 1;
        }
        assert(data@ =~= paint(gbw, gbh, cov@.take(0)));
        let mut k: usize = 0;
        while k < cov.len()
            invariant
                k <= cov.len(),
                gbw == bw,
                gbh == bh,
                w == bw + 2,
                h == bh + 2,
                n == w * h,
                data@ == paint(gbw, gbh, cov@.take(k as int)),
                data@.len() == n,
            decreases cov.len() - k,
        {
            let c = cov[k];
            assert(cov@.take(k + 1).drop_last() =~= cov@.take(k as int));
            if (c.x as u64) < bw && (c.y as u64) < bh {
                proof {
                    lemma_cell_in_range(w as int, h as int, c.y as int + 1, c.x as int + 1);
                }
                let idx: usize = ((c.y as u64 + 1) * w + c.x as u64 + 1) as usize;
                data.set(idx, c.alpha);
            }
            k = k + 1;
        }
        assert(cov@.take(cov.len() as int) =~= cov@);
        Some(AlphaBitmap { width: w as u32, height: h as u32, data })
    }
}

} // verus!
