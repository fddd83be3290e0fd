//! Geometry primitives: 2-d vectors, rectangles, and the axis flip that lets
//! the layout engine treat the flex primary axis as "x" regardless of the
//! real direction.

use vstd::prelude::*;

verus! {

/// A 2-d integer vector (pixel coordinates).
#[derive(Clone, Copy, PartialEq, Eq, Structural, Debug)]
pub struct Vec2 {
    pub x: i64,
    pub y: i64,
}

impl Vec2 {
    pub fn new(x: i64, y: i64) -> (r: Vec2)
        ensures
            r == (Vec2 { x, y }),
    {
        Vec2 { x, y }
    }

    /// The vector with x and y swapped when `flip` holds, unchanged otherwise.
    pub open spec fn spec_flip(self, flip: bool) -> Vec2 {
        if flip {
            Vec2 { x: self.y, y: self.x }
        } else {
            self
        }
    }

    /// Swaps the x and y components when `flip` holds.
    pub fn flip(self, flip: bool) -> (r: Vec2)
        ensures
            r == self.spec_flip(flip),
    {
        if flip {
            Vec2 { x: self.y, y: self.x }
        } else {
            self
        }
    }

    pub open spec fn spec_non_negative(self) -> Vec2 {
        Vec2 {
            x: if self.x < 0 { 0 } else { self.x },
            y: if self.y < 0 { 0 } else { self.y },
        }
    }

    /// Each component clamped to be at least zero.
    pub fn non_negative(self) -> (r: Vec2)
        ensures
            r == self.spec_non_negative(),
    {
        Vec2 {
            x: if self.x < 0 { 0 } else { self.x },
            y: if self.y < 0 { 0 } else { self.y },
        }
    }

    pub open spec fn spec_min_element(self) -> i64 {
        if self.x <= self.y {
            self.x
        } else {
            self.y
        }
    }

    /// The smaller of the two components.
    pub fn min_element(self) -> (r: i64)
        ensures
            r == self.spec_min_element(),
    {
        if self.x <= self.y {
            self.x
        } else {
            self.y
        }
    }

    /// Whether both components are within the representable layout range.
    pub open spec fn in_range(self) -> bool {
        crate::num::in_range(self.x as int) && crate::num::in_range(self.y as int)
    }
}

impl Default for Vec2 {
    /// The zero vector.
    fn default() -> (r: Vec2)
        ensures
            r == (Vec2 { x: 0, y: 0 }),
    {
        Vec2 { x: 0, y: 0 }
    }
}

/// Flipping twice restores the original vector.
pub broadcast proof fn lemma_vec2_flip_involution(v: Vec2, f: bool)
    ensures
        #[trigger] v.spec_flip(f).spec_flip(f) == v,
{
}

/// An axis-aligned rectangle given by its top-left corner and its size.
#[derive(Clone, Copy, PartialEq, Eq, Structural, Debug)]
pub struct Rect {
    /// Top-left corner of the rectangle.
    pub position: Vec2,
    /// Width and height of the rectangle.
    pub size: Vec2,
}

impl Rect {
    pub fn new(position: Vec2, size: Vec2) -> (r: Rect)
        ensures
            r == (Rect { position, size }),
    {
        Rect { position, size }
    }

    /// The rectangle reflected across the x = y diagonal when `flip` holds.
    pub open spec fn spec_flip(self, flip: bool) -> Rect {
        Rect { position: self.position.spec_flip(flip), size: self.size.spec_flip(flip) }
    }

    /// Swaps the axes of position and size when `flip` holds.
    pub fn flip(self, flip: bool) -> (r: Rect)
        ensures
            r == self.spec_flip(flip),
    {
        Rect { position: self.position.flip(flip), size: self.size.flip(flip) }
    }

    /// Whether `point` lies within the rectangle (borders included).
    pub open spec fn spec_contains(self, point: Vec2) -> bool {
        &&& self.position.x <= point.x <= self.position.x + self.size.x
        &&& self.position.y <= point.y <= self.position.y + self.size.y
    }

    /// Whether `point` lies within the rectangle (borders included).
    pub fn contains(&self, point: Vec2) -> (r: bool)
        ensures
            r == self.spec_contains(point),
    {
        let px = point.x as i128;
        let py = point.y as i128;
        let tlx = self.position.x as i128;
        let tly = self.position.y as i128;
        let brx = tlx + self.size.x as i128;
        let bry = tly + self.size.y as i128;
        px >= tlx && py >= tly && px <= brx && py <= bry
    }

    pub open spec fn spec_non_negative(self) -> Rect {
        Rect {
            position: self.position.spec_non_negative(),
            size: self.size.spec_non_negative(),
        }
    }

    /// Position and size with components clamped to be at least zero.
    pub fn non_negative(&self) -> (r: Rect)
        ensures
            r == self.spec_non_negative(),
    {
        Rect { position: self.position.non_negative(), size: self.size.non_negative() }
    }

    pub open spec fn in_range(self) -> bool {
        self.position.in_range() && self.size.in_range()
    }
}

impl Default for Rect {
    /// The empty rectangle at the origin.
    fn default() -> (r: Rect)
        ensures
            r == (Rect { position: Vec2 { x: 0, y: 0 }, size: Vec2 { x: 0, y: 0 } }),
    {
        Rect { position: Vec2 { x: 0, y: 0 }, size: Vec2 { x: 0, y: 0 } }
    }
}

/// Flipping twice restores the original rectangle.
pub broadcast proof fn lemma_rect_flip_involution(r: Rect, f: bool)
    ensures
        #[trigger] r.spec_flip(f).spec_flip(f) == r,
{
}

} // verus!
