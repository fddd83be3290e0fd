//! Values computed by the layout pass ("raw" pixel values).
//!
//! A node's `Raw` record is derived state: it is fully overwritten by each
//! layout pass and never patched incrementally.

use vstd::prelude::*;

use crate::math::Rect;
use crate::math::Vec2;
use crate::num::cadd;
use crate::num::clip;
use crate::num::csub;
use crate::num::in_range;

verus! {

/// Four resolved pixel sides (top, right, bottom, left); used for both
/// margins and paddings.
#[derive(Clone, Copy, PartialEq, Eq, Structural, Debug)]
pub struct RawSides {
    pub top: i64,
    pub right: i64,
    pub bottom: i64,
    pub left: i64,
}

impl Default for RawSides {
    /// All sides zero.
    fn default() -> (r: RawSides)
        ensures
            r == (RawSides { top: 0, right: 0, bottom: 0, left: 0 }),
    {
        RawSides { top: 0, right: 0, bottom: 0, left: 0 }
    }
}

impl RawSides {
    pub open spec fn in_range(self) -> bool {
        &&& in_range(self.top as int)
        &&& in_range(self.right as int)
        &&& in_range(self.bottom as int)
        &&& in_range(self.left as int)
    }

    /// Total horizontal (x) and vertical (y) extent of the four sides.
    pub open spec fn spec_size(self) -> Vec2 {
        Vec2 { x: clip(self.left + self.right) as i64, y: clip(self.top + self.bottom) as i64 }
    }

    pub fn size(&self) -> (r: Vec2)
        requires
            self.in_range(),
        ensures
            r == self.spec_size(),
    {
        Vec2 { x: cadd(self.left, self.right), y: cadd(self.top, self.bottom) }
    }

    /// The sides rotated one step clockwise when `rotate` holds; maps sides
    /// resolved in the layout-local frame into the real frame of a column.
    pub open spec fn spec_rotate_right(self, rotate: bool) -> RawSides {
        if rotate {
            RawSides { top: self.left, right: self.top, bottom: self.right, left: self.bottom }
        } else {
            self
        }
    }

    pub fn rotate_right(self, rotate: bool) -> (r: RawSides)
        ensures
            r == self.spec_rotate_right(rotate),
    {
        if rotate {
            RawSides { top: self.left, right: self.top, bottom: self.right, left: self.bottom }
        } else {
            self
        }
    }

    /// The sides rotated one step counter-clockwise when `rotate` holds;
    /// inverse of `rotate_right`.
    pub open spec fn spec_rotate_left(self, rotate: bool) -> RawSides {
        if rotate {
            RawSides { top: self.right, right: self.bottom, bottom: self.left, left: self.top }
        } else {
            self
        }
    }

    pub fn rotate_left(self, rotate: bool) -> (r: RawSides)
        ensures
            r == self.spec_rotate_left(rotate),
    {
        if rotate {
            RawSides { top: self.right, right: self.bottom, bottom: self.left, left: self.top }
        } else {
            self
        }
    }
}

/// The two rotations cancel each other.
pub broadcast proof fn lemma_rotate_inverse(s: RawSides, b: bool)
    ensures
        #[trigger] s.spec_rotate_right(b).spec_rotate_left(b) == s,
        #[trigger] s.spec_rotate_left(b).spec_rotate_right(b) == s,
{
}

/// Resolved pixel radii of the four corners.
#[derive(Clone, Copy, PartialEq, Eq, Structural, Debug)]
pub struct RawCorners {
    pub top_left: i64,
    pub top_right: i64,
    pub bottom_right: i64,
    pub bottom_left: i64,
}

impl Default for RawCorners {
    /// All radii zero (square corners).
    fn default() -> (r: RawCorners)
        ensures
            r == (RawCorners { top_left: 0, top_right: 0, bottom_right: 0, bottom_left: 0 }),
    {
        RawCorners { top_left: 0, top_right: 0, bottom_right: 0, bottom_left: 0 }
    }
}

/// Raw values computed for one node during the layout pass.
#[derive(Clone, Copy, PartialEq, Eq, Structural, Debug)]
pub struct Raw {
    /// The node's full region (margin included). Local to the parent while a
    /// group is being laid out; global once the pass has finished.
    pub region: Rect,
    /// Resolved margin in pixels.
    pub margin: RawSides,
    /// Resolved padding in pixels.
    pub padding: RawSides,
    /// Resolved corner radii in pixels.
    pub corners: RawCorners,
    /// Resolved minimum content size.
    pub min_size: Vec2,
    /// Resolved maximum content size.
    pub max_size: Vec2,
}

impl Default for Raw {
    /// Everything zero.
    fn default() -> (r: Raw)
        ensures
            r == Raw::spec_default(),
    {
        Raw {
            region: Rect { position: Vec2 { x: 0, y: 0 }, size: Vec2 { x: 0, y: 0 } },
            margin: RawSides { top: 0, right: 0, bottom: 0, left: 0 },
            padding: RawSides { top: 0, right: 0, bottom: 0, left: 0 },
            corners: RawCorners { top_left: 0, top_right: 0, bottom_right: 0, bottom_left: 0 },
            min_size: Vec2 { x: 0, y: 0 },
            max_size: Vec2 { x: 0, y: 0 },
        }
    }
}

impl Raw {
    pub open spec fn spec_default() -> Raw {
        Raw {
            region: Rect { position: Vec2 { x: 0, y: 0 }, size: Vec2 { x: 0, y: 0 } },
            margin: RawSides { top: 0, right: 0, bottom: 0, left: 0 },
            padding: RawSides { top: 0, right: 0, bottom: 0, left: 0 },
            corners: RawCorners { top_left: 0, top_right: 0, bottom_right: 0, bottom_left: 0 },
            min_size: Vec2 { x: 0, y: 0 },
            max_size: Vec2 { x: 0, y: 0 },
        }
    }

    pub open spec fn in_range(self) -> bool {
        &&& self.region.in_range()
        &&& self.margin.in_range()
        &&& self.padding.in_range()
        &&& self.min_size.in_range()
        &&& self.max_size.in_range()
    }

    /// The region inset by the margin: where the node itself is drawn.
    pub open spec fn spec_padding_region(self) -> Rect {
        Rect {
            position: Vec2 {
                x: clip(self.region.position.x + self.margin.left) as i64,
                y: clip(self.region.position.y + self.margin.top) as i64,
            },
            size: self.spec_padding_region_size(),
        }
    }

    pub fn padding_region(&self) -> (r: Rect)
        requires
            self.in_range(),
        ensures
            r == self.spec_padding_region(),
    {
        Rect {
            position: Vec2 {
                x: cadd(self.region.position.x, self.margin.left),
                y: cadd(self.region.position.y, self.margin.top),
            },
            size: self.padding_region_size(),
        }
    }

    /// Size of the region inset by the margin.
    pub open spec fn spec_padding_region_size(self) -> Vec2 {
        Vec2 {
            x: clip(clip(self.region.size.x - self.margin.left) - self.margin.right) as i64,
            y: clip(clip(self.region.size.y - self.margin.top) - self.margin.bottom) as i64,
        }
    }

    pub fn padding_region_size(&self) -> (r: Vec2)
        requires
            self.in_range(),
        ensures
            r == self.spec_padding_region_size(),
    {
        Vec2 {
            x: csub(csub(self.region.size.x, self.margin.left), self.margin.right),
            y: csub(csub(self.region.size.y, self.margin.top), self.margin.bottom),
        }
    }

    /// The region inset by both margin and padding: where children are placed.
    pub open spec fn spec_content_region(self) -> Rect {
        Rect {
            position: Vec2 {
                x: clip(clip(self.region.position.x + self.margin.left) + self.padding.left) as i64,
                y: clip(clip(self.region.position.y + self.margin.top) + self.padding.top) as i64,
            },
            size: Vec2 {
                x: clip(clip(self.spec_padding_region_size().x - self.padding.left)
                    - self.padding.right) as i64,
                y: clip(clip(self.spec_padding_region_size().y - self.padding.top)
                    - self.padding.bottom) as i64,
            },
        }
    }

    pub fn content_region(&self) -> (r: Rect)
        requires
            self.in_range(),
        ensures
            r == self.spec_content_region(),
    {
        let inner = self.padding_region_size();
        Rect {
            position: Vec2 {
                x: cadd(cadd(self.region.position.x, self.margin.left), self.padding.left),
                y: cadd(cadd(self.region.position.y, self.margin.top), self.padding.top),
            },
            size: Vec2 {
                x: csub(csub(inner.x, self.padding.left), self.padding.right),
                y: csub(csub(inner.y, self.padding.top), self.padding.bottom),
            },
        }
    }

    /// Total horizontal inset around the content: margin plus padding.
    pub open spec fn spec_x_insets(self) -> int {
        clip(clip(self.margin.left + self.margin.right) + clip(
            self.padding.left + self.padding.right,
        ))
    }

    /// Total vertical inset around the content: margin plus padding.
    pub open spec fn spec_y_insets(self) -> int {
        clip(clip(self.margin.top + self.margin.bottom) + clip(
            self.padding.top + self.padding.bottom,
        ))
    }

    fn x_insets(&self) -> (r: i64)
        requires
            self.in_range(),
        ensures
            r == self.spec_x_insets(),
    {
        cadd(
            cadd(self.margin.left, self.margin.right),
            cadd(self.padding.left, self.padding.right),
        )
    }

    fn y_insets(&self) -> (r: i64)
        requires
            self.in_range(),
        ensures
            r == self.spec_y_insets(),
    {
        cadd(cadd(self.margin.top, self.margin.bottom), cadd(self.padding.top, self.padding.bottom))
    }

    /// Width of the content alone (region width minus margins and paddings).
    pub open spec fn spec_width(self) -> int {
        clip(self.region.size.x - self.spec_x_insets())
    }

    pub fn width(&self) -> (r: i64)
        requires
            self.in_range(),
        ensures
            r == self.spec_width(),
            in_range(r as int),
    {
        csub(self.region.size.x, self.x_insets())
    }

    /// The raw record with its region width set so that the content width
    /// becomes `width`.
    pub open spec fn spec_with_width(self, width: int) -> Raw {
        Raw {
            region: Rect {
                position: self.region.position,
                size: Vec2 { x: clip(width + self.spec_x_insets()) as i64, y: self.region.size.y },
            },
            ..self
        }
    }

    /// Sets the width of the content; the region grows by the insets.
    pub fn set_width(&mut self, width: i64)
        requires
            old(self).in_range(),
            in_range(width as int),
        ensures
            *final(self) == old(self).spec_with_width(width as int),
            final(self).in_range(),
    {
        let insets = self.x_insets();
        self.region.size.x = cadd(width, insets);
    }

    /// The raw record with its region sized so that the content size becomes
    /// `size`.
    pub open spec fn spec_with_size(self, size: Vec2) -> Raw {
        Raw {
            region: Rect {
                position: self.region.position,
                size: Vec2 {
                    x: clip(size.x + self.spec_x_insets()) as i64,
                    y: clip(size.y + self.spec_y_insets()) as i64,
                },
            },
            ..self
        }
    }

    /// Sets the size of the content; the region grows by the insets.
    pub fn set_size(&mut self, size: Vec2)
        requires
            old(self).in_range(),
            size.in_range(),
        ensures
            *final(self) == old(self).spec_with_size(size),
            final(self).in_range(),
    {
        let xi = self.x_insets();
        let yi = self.y_insets();
        self.region.size.x = cadd(size.x, xi);
        self.region.size.y = cadd(size.y, yi);
    }

    /// Width of the full region, margin included.
    pub open spec fn spec_full_width(self) -> int {
        self.region.size.x as int
    }

    pub fn full_width(&self) -> (r: i64)
        ensures
            r == self.spec_full_width(),
    {
        self.region.size.x
    }
}

} // verus!
