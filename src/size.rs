use vstd::prelude::*;

verus! {

/// Point size converted to pixels: `round(point * 1.333)`, rounding halves up,
/// saturating at `u32::MAX`.
pub open spec fn pixel_size_of(point: u32) -> u32 {
    let px = (point as int * 1333 + 500) / 1000;
    if px > u32::MAX as int {
        u32::MAX
    } else {
        px as u32
    }
}

/// Converts a point size into the pixel size that the cache keys on.
pub fn pixel_size(point: u32) -> (r: u32)
    ensures
        r == pixel_size_of(point),
{
    let px: u64 = (point as u64 * 1333 + 500) / 1000;
    if px > u32::MAX as u64 {
        u32::MAX
    } else {
        px as u32
    }
}

} // verus!
