//! Axis-aligned integer rectangles in logical pixels.

use vstd::prelude::*;

verus! {

/// A rectangle by its top-left corner and its size. The right and bottom edges lie outside.
#[derive(Clone, Copy, Debug, PartialEq, Eq, Structural)]
pub struct Rect {
    pub x: i32,
    pub y: i32,
    pub w: u32,
    pub h: u32,
}

impl Rect {
    /// The x coordinate just past the right edge.
    pub open spec fn right_edge(self) -> int {
        self.x + self.w
    }

    /// The y coordinate just past the bottom edge.
    pub open spec fn bottom_edge(self) -> int {
        self.y + self.h
    }

    /// The point `(px, py)` lies inside the rectangle.
    pub open spec fn covers(self, px: int, py: int) -> bool {
        self.x <= px < self.right_edge() && self.y <= py < self.bottom_edge()
    }

    /// Both far edges can be written down as an `i32`.
    pub open spec fn edges_fit(self) -> bool {
        self.right_edge() <= i32::MAX && self.bottom_edge() <= i32::MAX
    }

    /// The common part of two rectangles.
    pub open spec fn overlap(self, other: Rect) -> Option<Rect> {
        let left = if self.x > other.x { self.x } else { other.x };
        let top = if self.y > other.y { self.y } else { other.y };
        let right = if self.right_edge() < other.right_edge() {
            self.right_edge()
        } else {
            other.right_edge()
        };
        let bottom = if self.bottom_edge() < other.bottom_edge() {
            self.bottom_edge()
        } else {
            other.bottom_edge()
        };
        if left < right && top < bottom {
            Some(Rect { x: left, y: top, w: (right - left) as u32, h: (bottom - top) as u32 })
        } else {
            None
        }
    }

    /// Tells whether the point `(px, py)` lies inside the rectangle.
    pub fn contains(&self, px: i32, py: i32) -> (res: bool)
        ensures
            res == self.covers(px as int, py as int),
    {
        let right: i64 = self.x as i64 + self.w as i64;
        let bottom: i64 = self.y as i64 + self.h as i64;
        self.x <= px && (px as i64) < right && self.y <= py && (py as i64) < bottom
    }

    /// The x coordinate just past the right edge.
    pub fn right(&self) -> (res: i32)
        requires
            self.right_edge() <= i32::MAX,
        ensures
            res == self.right_edge(),
    {
        (self.x as i64 + self.w as i64) as i32
    }

    /// The y coordinate just past the bottom edge.
    pub fn bottom(&self) -> (res: i32)
        requires
            self.bottom_edge() <= i32::MAX,
        ensures
            res == self.bottom_edge(),
    {
        (self.y as i64 + self.h as i64) as i32
    }

    /// The common part of two rectangles, or `None` when they share no point.
    pub fn intersect(&self, other: &Rect) -> (res: Option<Rect>)
        ensures
            res == self.overlap(*other),
            match res {
                Some(r) => {
                    &&& r.w > 0 && r.h > 0
                    &&& forall|px: int, py: int|
                        #![trigger r.covers(px, py)]
                        r.covers(px, py) <==> self.covers(px, py) && other.covers(px, py)
                },
                None => forall|px: int, py: int|
                    #![trigger self.covers(px, py)]
                    !(self.covers(px, py) && other.covers(px, py)),
            },
    {
        let x0: i64 = if self.x > other.x { self.x as i64 } else { other.x as i64 };
        let y0: i64 = if self.y > other.y { self.y as i64 } else { other.y as i64 };
        let right_a: i64 = self.x as i64 + self.w as i64;
        let right_b: i64 = other.x as i64 + other.w as i64;
        let bottom_a: i64 = self.y as i64 + self.h as i64;
        let bottom_b: i64 = other.y as i64 + other.h as i64;
        let x1: i64 = if right_a < right_b { right_a } else { right_b };
        let y1: i64 = if bottom_a < bottom_b { bottom_a } else { bottom_b };
        if x0 < x1 && y0 < y1 {
            Some(Rect { x: x0 as i32, y: y0 as i32, w: (x1 - x0) as u32, h: (y1 - y0) as u32 })
        } else {
            None
        }
    }
}

/// Two rectangles that cover some point and cover the same points are equal.
pub proof fn covered_points_determine_a_rect(a: Rect, b: Rect)
    requires
        a.w > 0 && a.h > 0,
        forall|px: int, py: int| #![trigger a.covers(px, py)] a.covers(px, py) <==> b.covers(px, py),
    ensures
        a == b,
{
    let (ar, ab) = (a.right_edge(), a.bottom_edge());
    assert(a.covers(a.x as int, a.y as int));
    assert(a.covers(ar - 1, ab - 1));
    assert(!a.covers(a.x - 1, a.y as int));
    assert(!a.covers(a.x as int, a.y - 1));
    assert(!a.covers(ar, a.y as int));
    assert(!a.covers(a.x as int, ab));
}

/// A rectangle covers the points from its corner on, as many to the right as it is wide and as
/// many down as it is high.
pub proof fn a_rect_covers_its_width_and_height(r: Rect, px: int, py: int)
    ensures
        r.covers(px, py) <==> r.x <= px && px - r.x < r.w && r.y <= py && py - r.y < r.h,
        r.edges_fit() <==> r.x + r.w <= i32::MAX && r.y + r.h <= i32::MAX,
{
}

/// Two rectangles overlap in exactly the points that both cover, and not at all where no point
/// is covered by both.
pub proof fn an_overlap_is_what_both_cover(a: Rect, b: Rect, px: int, py: int)
    requires
        a.edges_fit(),
        b.edges_fit(),
    ensures
        match a.overlap(b) {
            Some(r) => r.w > 0 && r.h > 0 && (r.covers(px, py) <==> a.covers(px, py) && b.covers(
                px,
                py,
            )),
            None => !(a.covers(px, py) && b.covers(px, py)),
        },
{
}

} // verus!
