//! Rectangles in pixel coordinates.
//!
//! A rectangle is given by its top-left corner (which may be negative for a
//! request that hangs over the panel's edge) and its extent. The driver clips
//! every requested area against the panel's bounding box before serializing
//! it, so all downstream code only ever sees non-negative coordinates.

use vstd::prelude::*;

verus! {

/// An axis-aligned rectangle: top-left corner `(x, y)`, extent
/// `width` by `height` pixels.
#[derive(Clone, Copy, PartialEq, Eq, Structural, Debug)]
pub struct Rect {
    /// x coordinate of the top-left corner (left to right).
    pub x: i32,
    /// y coordinate of the top-left corner (top to bottom).
    pub y: i32,
    /// extent along the x axis.
    pub width: u32,
    /// extent along the y axis.
    pub height: u32,
}

impl Rect {
    /// A rectangle contains no pixels at all when either extent is zero.
    pub open spec fn spec_is_empty(self) -> bool {
        self.width == 0 || self.height == 0
    }

    /// One past the right edge.
    pub open spec fn right(self) -> int {
        self.x + self.width
    }

    /// One past the bottom edge.
    pub open spec fn bottom(self) -> int {
        self.y + self.height
    }

    /// Whether the point `(px, py)` lies inside the rectangle.
    pub open spec fn spec_contains(self, px: int, py: int) -> bool {
        self.x <= px < self.right() && self.y <= py < self.bottom()
    }

    /// The largest rectangle covered by both `a` and `b`; the empty
    /// rectangle at the origin when they do not overlap.
    pub open spec fn spec_intersection(a: Rect, b: Rect) -> Rect {
        let left = if a.x >= b.x {
            a.x as int
        } else {
            b.x as int
        };
        let top = if a.y >= b.y {
            a.y as int
        } else {
            b.y as int
        };
        let right = if a.right() <= b.right() {
            a.right()
        } else {
            b.right()
        };
        let bottom = if a.bottom() <= b.bottom() {
            a.bottom()
        } else {
            b.bottom()
        };
        if left < right && top < bottom {
            Rect {
                x: left as i32,
                y: top as i32,
                width: (right - left) as u32,
                height: (bottom - top) as u32,
            }
        } else {
            Rect { x: 0, y: 0, width: 0, height: 0 }
        }
    }

    /// True when either extent is zero, so the rectangle covers no pixel.
    pub fn is_zero_sized(&self) -> (r: bool)
        ensures
            r == self.spec_is_empty(),
    {
        self.width == 0 || self.height == 0
    }

    /// The largest rectangle covered by both `self` and `other`; the empty
    /// rectangle at the origin when they do not overlap.
    pub fn intersection(&self, other: &Rect) -> (r: Rect)
        requires
            self.width <= i32::MAX,
            self.height <= i32::MAX,
            other.width <= i32::MAX,
            other.height <= i32::MAX,
            self.right() <= i32::MAX,
            self.bottom() <= i32::MAX,
            other.right() <= i32::MAX,
            other.bottom() <= i32::MAX,
        ensures
            r == Rect::spec_intersection(*self, *other),
            forall|px: int, py: int|
                r.spec_contains(px, py) <==> (self.spec_contains(px, py)
                    && other.spec_contains(px, py)),
            !r.spec_is_empty() ==> {
                &&& r.x == if self.x >= other.x { self.x } else { other.x }
                &&& r.y == if self.y >= other.y { self.y } else { other.y }
                &&& r.right() == if self.right() <= other.right() { self.right() } else { other.right() }
                &&& r.bottom() == if self.bottom() <= other.bottom() { self.bottom() } else { other.bottom() }
            },
            r.spec_is_empty() ==> r == (Rect { x: 0, y: 0, width: 0, height: 0 }),
            r.right() <= i32::MAX,
            r.bottom() <= i32::MAX,
    {
        let left: i32 = if self.x >= other.x { self.x } else { other.x };
        let top: i32 = if self.y >= other.y { self.y } else { other.y };
        let self_right: i32 = self.x + self.width as i32;
        let self_bottom: i32 = self.y + self.height as i32;
        let other_right: i32 = other.x + other.width as i32;
        let other_bottom: i32 = other.y + other.height as i32;
        let right: i32 = if self_right <= other_right { self_right } else { other_right };
        let bottom: i32 = if self_bottom <= other_bottom { self_bottom } else { other_bottom };
        if left < right && top < bottom {
            Rect { x: left, y: top, width: (right - left) as u32, height: (bottom - top) as u32 }
        } else {
            Rect { x: 0, y: 0, width: 0, height: 0 }
        }
    }
}

} // verus!
