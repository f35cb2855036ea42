use vstd::prelude::*;
use crate::config::POS_LIMIT;

verus! {

// Axis-aligned rectangle geometry for hitboxes. The overlap test is
// inclusive: rectangles that merely touch along an edge count as
// overlapping. Both collision checks of the game (bullet-enemy and
// player-enemy) use this same convention.

/// Mathematical rectangle: top-left corner, width and height.
pub struct RectM {
    pub x: int,
    pub y: int,
    pub w: int,
    pub h: int,
}

/// Inclusive overlap of two rectangles: non-empty intersection, where
/// touching edges count.
pub open spec fn rects_overlap(a: RectM, b: RectM) -> bool {
    &&& a.x <= b.x + b.w
    &&& b.x <= a.x + a.w
    &&& a.y <= b.y + b.h
    &&& b.y <= a.y + a.h
}

/// The rectangle at `(px, py)` of size `w x h`, shrunk by `inset` on all four
/// sides, so that it stays centered on the original.
pub open spec fn inset_rect(px: int, py: int, w: int, h: int, inset: int) -> RectM {
    RectM { x: px + inset, y: py + inset, w: w - 2 * inset, h: h - 2 * inset }
}

/// A 2D integer vector, in millipixels.
#[derive(Clone, Copy, PartialEq, Eq, Structural, Debug)]
pub struct Vec2i {
    pub x: i64,
    pub y: i64,
}

/// Executable rectangle, in millipixels.
#[derive(Clone, Copy, PartialEq, Eq, Structural, Debug)]
pub struct Rect {
    pub x: i64,
    pub y: i64,
    pub w: i64,
    pub h: i64,
}

impl View for Rect {
    type V = RectM;

    open spec fn view(&self) -> RectM {
        RectM { x: self.x as int, y: self.y as int, w: self.w as int, h: self.h as int }
    }
}

/// Computes the inset collision box of an object: smaller than the sprite,
/// centered on it, to make collisions feel fair.
pub fn get_hitbox(pos: Vec2i, size: Vec2i, inset: i64) -> (r: Rect)
    requires
        -POS_LIMIT <= pos.x <= POS_LIMIT,
        -POS_LIMIT <= pos.y <= POS_LIMIT,
        0 <= size.x <= POS_LIMIT,
        0 <= size.y <= POS_LIMIT,
        0 <= inset <= POS_LIMIT,
    ensures
        r@ == inset_rect(pos.x as int, pos.y as int, size.x as int, size.y as int, inset as int),
{
    Rect { x: pos.x + inset, y: pos.y + inset, w: size.x - 2 * inset, h: size.y - 2 * inset }
}

impl Rect {
    /// True iff the two rectangles intersect; touching edges count as
    /// overlap.
    pub fn overlaps(&self, other: &Rect) -> (r: bool)
        requires
            -4 * POS_LIMIT <= self.x <= 4 * POS_LIMIT,
            -4 * POS_LIMIT <= self.y <= 4 * POS_LIMIT,
            -4 * POS_LIMIT <= self.w <= 4 * POS_LIMIT,
            -4 * POS_LIMIT <= self.h <= 4 * POS_LIMIT,
            -4 * POS_LIMIT <= other.x <= 4 * POS_LIMIT,
            -4 * POS_LIMIT <= other.y <= 4 * POS_LIMIT,
            -4 * POS_LIMIT <= other.w <= 4 * POS_LIMIT,
            -4 * POS_LIMIT <= other.h <= 4 * POS_LIMIT,
        ensures
            r == rects_overlap(self@, other@),
    {
        self.x <= other.x + other.w && other.x <= self.x + self.w && self.y <= other.y + other.h
            && other.y <= self.y + self.h
    }
}

} // verus!
