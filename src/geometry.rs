//! Integer rectangles in a shared 2-D coordinate space.
use vstd::prelude::*;

verus! {

/// An axis-aligned rectangle: origin `(x, y)`, width `w`, height `h`.
#[derive(Clone, Copy, Debug, PartialEq, Eq, Structural)]
pub struct Rect {
    pub x: i64,
    pub y: i64,
    pub w: i64,
    pub h: i64,
}

/// The point `(px, py)` lies inside `r` (a rectangle with a non-positive
/// side holds no point).
pub open spec fn rect_contains(r: Rect, px: int, py: int) -> bool {
    &&& r.x <= px < r.x + r.w
    &&& r.y <= py < r.y + r.h
}

/// Some rectangle of `region` holds the point.
pub open spec fn region_contains(region: Seq<Rect>, px: int, py: int) -> bool {
    exists|i: int| 0 <= i < region.len() && #[trigger] rect_contains(region[i], px, py)
}

/// Every point of `inner` lies in `outer`.
pub open spec fn region_covers(outer: Seq<Rect>, inner: Seq<Rect>) -> bool {
    forall|px: int, py: int| #[trigger] region_contains(inner, px, py) ==> region_contains(outer, px, py)
}

/// Two rectangles share at least one point.
pub open spec fn rects_overlap(a: Rect, b: Rect) -> bool {
    &&& a.x < b.x + b.w
    &&& b.x < a.x + a.w
    &&& a.y < b.y + b.h
    &&& b.y < a.y + a.h
    &&& a.w > 0 && a.h > 0 && b.w > 0 && b.h > 0
}

impl Rect {
    /// The origin fits the 32-bit coordinates in which windows are placed.
    pub open spec fn origin_fits_i32(self) -> bool {
        &&& i32::MIN <= self.x <= i32::MAX
        &&& i32::MIN <= self.y <= i32::MAX
    }

    pub fn new(x: i64, y: i64, w: i64, h: i64) -> (r: Rect)
        ensures
            r == (Rect { x, y, w, h }),
    {
        Rect { x, y, w, h }
    }

    pub open spec fn from_size_spec(w: i64, h: i64) -> Rect {
        Rect { x: 0, y: 0, w, h }
    }

    /// The rectangle at the origin with the given size.
    pub fn from_size(w: i64, h: i64) -> (r: Rect)
        ensures
            r == Rect::from_size_spec(w, h),
    {
        Rect { x: 0, y: 0, w, h }
    }

    /// Whether the two rectangles share a point.
    pub fn overlaps(&self, other: &Rect) -> (b: bool)
        ensures
            b == rects_overlap(*self, *other),
    {
        let ax = self.x as i128;
        let ay = self.y as i128;
        let bx = other.x as i128;
        let by = other.y as i128;
        self.w > 0 && self.h > 0 && other.w > 0 && other.h > 0
            && ax < bx + other.w as i128 && bx < ax + self.w as i128
            && ay < by + other.h as i128 && by < ay + self.h as i128
    }
}

} // verus!
