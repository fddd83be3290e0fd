//! Declarative per-node style properties and their resolution to raw pixel
//! values.

use vstd::prelude::*;

use crate::color::Color;
use crate::math::Vec2;
use crate::num::cmuldiv;
use crate::num::clip;
use crate::num::clip_i64;
use crate::num::in_range;
use crate::raw::RawCorners;
use crate::raw::RawSides;

verus! {

/// A declared numerical value for a style property.
#[derive(Clone, Copy, PartialEq, Eq, Structural, Debug, Default)]
pub enum Val {
    /// Pixels.
    Px(i64),
    /// Per-mille (thousandths, 0 - 1000) of the parent's value.
    Pc(i64),
    /// Sourced from a value elsewhere (usually the parent's).
    #[default]
    Auto,
}

/// Per-mille factor clamped into 0..=1000.
pub open spec fn spec_clamp_pm(pm: int) -> int {
    if pm < 0 {
        0
    } else if pm > 1000 {
        1000
    } else {
        pm
    }
}

/// `pm` per-mille of `parent`, rounded toward zero and clamped into the
/// layout range.
pub open spec fn spec_pm_of(pm: int, parent: int) -> int {
    if parent >= 0 {
        clip((spec_clamp_pm(pm) * parent) / 1000)
    } else {
        0 - clip((spec_clamp_pm(pm) * (0 - parent)) / 1000)
    }
}

fn pm_of(pm: i64, parent: i64) -> (r: i64)
    requires
        in_range(parent as int),
    ensures
        r == spec_pm_of(pm as int, parent as int),
        in_range(r as int),
{
    let m: i64 = if pm < 0 {
        0
    } else if pm > 1000 {
        1000
    } else {
        pm
    };
    if parent >= 0 {
        cmuldiv(m, parent, 1000)
    } else {
        0 - cmuldiv(m, 0 - parent, 1000)
    }
}

impl Val {
    /// The resolved pixel value against a parent value: pixels stand as they
    /// are, per-mille values scale the parent, and `Auto` takes the parent
    /// whole. Results are clamped into the layout range.
    pub open spec fn spec_to_raw(self, parent: int) -> int {
        match self {
            Val::Px(px) => clip(px as int),
            Val::Pc(pm) => spec_pm_of(pm as int, parent),
            Val::Auto => clip(parent),
        }
    }

    pub fn to_raw(self, parent: i64) -> (r: i64)
        requires
            in_range(parent as int),
        ensures
            r == self.spec_to_raw(parent as int),
            in_range(r as int),
    {
        match self {
            Val::Px(px) => clip_i64(px),
            Val::Pc(pm) => pm_of(pm, parent),
            Val::Auto => clip_i64(parent),
        }
    }

    /// As `spec_to_raw`, but a declared pixel size is floored at zero; used
    /// for widths, heights and bases.
    pub open spec fn spec_to_raw_size(self, parent: int) -> int {
        match self {
            Val::Px(px) => clip(if px < 0 { 0 } else { px as int }),
            Val::Pc(pm) => spec_pm_of(pm as int, parent),
            Val::Auto => clip(parent),
        }
    }

    pub fn to_raw_size(self, parent: i64) -> (r: i64)
        requires
            in_range(parent as int),
        ensures
            r == self.spec_to_raw_size(parent as int),
            in_range(r as int),
    {
        match self {
            Val::Px(px) => clip_i64(if px < 0 { 0 } else { px }),
            Val::Pc(pm) => pm_of(pm, parent),
            Val::Auto => clip_i64(parent),
        }
    }
}

/// Declared values for the four sides of a node (margins, paddings).
#[derive(Clone, Copy, PartialEq, Eq, Structural, Debug)]
pub struct Sides {
    pub top: Val,
    pub right: Val,
    pub bottom: Val,
    pub left: Val,
}

impl Default for Sides {
    /// All sides zero pixels.
    fn default() -> (r: Sides)
        ensures
            r == Sides::spec_default(),
    {
        Sides { top: Val::Px(0), right: Val::Px(0), bottom: Val::Px(0), left: Val::Px(0) }
    }
}

impl Sides {
    pub open spec fn spec_default() -> Sides {
        Sides { top: Val::Px(0), right: Val::Px(0), bottom: Val::Px(0), left: Val::Px(0) }
    }

    pub fn new(top: Val, right: Val, bottom: Val, left: Val) -> (r: Sides)
        ensures
            r == (Sides { top, right, bottom, left }),
    {
        Sides { top, right, bottom, left }
    }

    /// The same value on all four sides.
    pub fn all(all: Val) -> (r: Sides)
        ensures
            r == (Sides { top: all, right: all, bottom: all, left: all }),
    {
        Sides { top: all, right: all, bottom: all, left: all }
    }
}

/// Declared corner radii.
#[derive(Clone, Copy, PartialEq, Eq, Structural, Debug)]
pub struct Corners {
    pub top_left: Val,
    pub top_right: Val,
    pub bottom_right: Val,
    pub bottom_left: Val,
}

impl Default for Corners {
    /// All radii zero pixels (square corners).
    fn default() -> (r: Corners)
        ensures
            r == Corners::spec_default(),
    {
        Corners {
            top_left: Val::Px(0),
            top_right: Val::Px(0),
            bottom_right: Val::Px(0),
            bottom_left: Val::Px(0),
        }
    }
}

impl Corners {
    pub open spec fn spec_default() -> Corners {
        Corners {
            top_left: Val::Px(0),
            top_right: Val::Px(0),
            bottom_right: Val::Px(0),
            bottom_left: Val::Px(0),
        }
    }

    pub fn new(top_left: Val, top_right: Val, bottom_right: Val, bottom_left: Val) -> (r: Corners)
        ensures
            r == (Corners { top_left, top_right, bottom_right, bottom_left }),
    {
        Corners { top_left, top_right, bottom_right, bottom_left }
    }

    /// The same radius on all four corners.
    pub fn all(all: Val) -> (r: Corners)
        ensures
            r == (Corners { top_left: all, top_right: all, bottom_right: all, bottom_left: all }),
    {
        Corners { top_left: all, top_right: all, bottom_right: all, bottom_left: all }
    }
}

/// Direction children run along within their parent.
#[derive(Clone, Copy, PartialEq, Eq, Structural, Debug, Default)]
pub enum Direction {
    #[default]
    Row,
    RowReverse,
    Column,
    ColumnReverse,
}

impl Direction {
    pub open spec fn spec_is_reverse(self) -> bool {
        self == Direction::RowReverse || self == Direction::ColumnReverse
    }

    /// Whether children are laid out in reverse order.
    pub fn is_reverse(self) -> (r: bool)
        ensures
            r == self.spec_is_reverse(),
    {
        match self {
            Direction::RowReverse => true,
            Direction::ColumnReverse => true,
            _ => false,
        }
    }

    pub open spec fn spec_is_row(self) -> bool {
        self == Direction::Row || self == Direction::RowReverse
    }

    /// Whether the primary axis is horizontal.
    pub fn is_row(self) -> (r: bool)
        ensures
            r == self.spec_is_row(),
    {
        match self {
            Direction::Row => true,
            Direction::RowReverse => true,
            _ => false,
        }
    }
}

/// How children are distributed along the primary axis.
#[derive(Clone, Copy, PartialEq, Eq, Structural, Debug, Default)]
pub enum Justify {
    #[default]
    Start,
    End,
    Center,
    SpaceBetween,
    SpaceAround,
    SpaceEvenly,
}

/// How children are placed along the cross axis.
#[derive(Clone, Copy, PartialEq, Eq, Structural, Debug, Default)]
pub enum Align {
    #[default]
    Center,
    Stretch,
    Start,
    End,
}

/// A child's own cross-axis placement, overriding the parent's `Align`.
#[derive(Clone, Copy, PartialEq, Eq, Structural, Debug, Default)]
pub enum AlignSelf {
    #[default]
    Auto,
    Stretch,
    Center,
    Start,
    End,
}

impl AlignSelf {
    pub open spec fn spec_to_align_items(self, auto_value: Align) -> Align {
        match self {
            AlignSelf::Auto => auto_value,
            AlignSelf::Stretch => Align::Stretch,
            AlignSelf::Center => Align::Center,
            AlignSelf::Start => Align::Start,
            AlignSelf::End => Align::End,
        }
    }

    /// The effective alignment: the parent's alignment when `Auto`, the
    /// child's own otherwise.
    pub fn to_align_items(self, auto_value: Align) -> (r: Align)
        ensures
            r == self.spec_to_align_items(auto_value),
    {
        match self {
            AlignSelf::Auto => auto_value,
            AlignSelf::Stretch => Align::Stretch,
            AlignSelf::Center => Align::Center,
            AlignSelf::Start => Align::Start,
            AlignSelf::End => Align::End,
        }
    }
}

/// The layout of a node: how its children are laid out.
#[derive(Clone, Copy, PartialEq, Eq, Structural, Debug, Default)]
pub struct Layout {
    pub direction: Direction,
    pub justify: Justify,
    pub align: Align,
}

/// Declarative layout and paint properties of one node.
#[derive(Clone, Copy, PartialEq, Eq, Structural, Debug)]
pub struct Style {
    pub width: Val,
    pub height: Val,
    pub min_width: Val,
    pub min_height: Val,
    pub max_width: Val,
    pub max_height: Val,
    pub color: Color,
    pub margin: Sides,
    pub padding: Sides,
    pub corners: Corners,
    pub direction: Direction,
    pub justify: Justify,
    pub align: Align,
    pub grow: i64,
    pub shrink: i64,
    pub basis: Val,
    pub align_self: AlignSelf,
}

impl Default for Style {
    fn default() -> (r: Style)
        ensures
            r == Style::spec_default(),
    {
        Style {
            width: Val::Auto,
            height: Val::Auto,
            min_width: Val::Px(0),
            min_height: Val::Px(0),
            max_width: Val::Auto,
            max_height: Val::Auto,
            color: Color::white(),
            margin: Sides::default(),
            padding: Sides::default(),
            corners: Corners::default(),
            direction: Direction::Row,
            justify: Justify::Start,
            align: Align::Center,
            grow: 0,
            shrink: 1,
            basis: Val::Auto,
            align_self: AlignSelf::Auto,
        }
    }
}

impl Style {
    pub open spec fn spec_default() -> Style {
        Style {
            width: Val::Auto,
            height: Val::Auto,
            min_width: Val::Px(0),
            min_height: Val::Px(0),
            max_width: Val::Auto,
            max_height: Val::Auto,
            color: Color { r: 255, g: 255, b: 255, a: 255 },
            margin: Sides::spec_default(),
            padding: Sides::spec_default(),
            corners: Corners::spec_default(),
            direction: Direction::Row,
            justify: Justify::Start,
            align: Align::Center,
            grow: 0,
            shrink: 1,
            basis: Val::Auto,
            align_self: AlignSelf::Auto,
        }
    }

    /// The declared primary-axis size: the width in a row, the height in a
    /// column.
    pub open spec fn spec_primary_val(self, is_row: bool) -> Val {
        if is_row {
            self.width
        } else {
            self.height
        }
    }

    /// The declared cross-axis size: the height in a row, the width in a
    /// column.
    pub open spec fn spec_cross_val(self, is_row: bool) -> Val {
        if is_row {
            self.height
        } else {
            self.width
        }
    }

    /// Resolved primary-axis size against the parent's primary size.
    pub open spec fn spec_raw_width(self, parent_width: int, is_row: bool) -> int {
        self.spec_primary_val(is_row).spec_to_raw_size(parent_width)
    }

    pub(crate) fn raw_width(&self, parent_width: i64, is_row: bool) -> (r: i64)
        requires
            in_range(parent_width as int),
        ensures
            r == self.spec_raw_width(parent_width as int, is_row),
            in_range(r as int),
    {
        let v = if is_row {
            self.width
        } else {
            self.height
        };
        v.to_raw_size(parent_width)
    }

    /// Resolved cross-axis size against the parent's cross size.
    pub open spec fn spec_raw_height(self, parent_height: int, is_row: bool) -> int {
        self.spec_cross_val(is_row).spec_to_raw_size(parent_height)
    }

    pub(crate) fn raw_height(&self, parent_height: i64, is_row: bool) -> (r: i64)
        requires
            in_range(parent_height as int),
        ensures
            r == self.spec_raw_height(parent_height as int, is_row),
            in_range(r as int),
    {
        let v = if is_row {
            self.height
        } else {
            self.width
        };
        v.to_raw_size(parent_height)
    }

    /// Resolved basis: the explicit basis when declared, else the declared
    /// primary-axis size, else the parent's primary size.
    pub open spec fn spec_raw_basis(self, parent_width: int, is_row: bool) -> int {
        match self.basis {
            Val::Auto => self.spec_raw_width(parent_width, is_row),
            _ => self.basis.spec_to_raw_size(parent_width),
        }
    }

    pub(crate) fn raw_basis(&self, parent_width: i64, is_row: bool) -> (r: i64)
        requires
            in_range(parent_width as int),
        ensures
            r == self.spec_raw_basis(parent_width as int, is_row),
            in_range(r as int),
    {
        match self.basis {
            Val::Auto => self.raw_width(parent_width, is_row),
            _ => self.basis.to_raw_size(parent_width),
        }
    }

    /// Resolved sides: each side against the parent axis it spans, floored at
    /// zero, then rotated into the layout-local frame for a column.
    pub open spec fn spec_raw_sides(sides: Sides, parent_size: Vec2, is_row: bool) -> RawSides {
        (RawSides {
            top: Self::spec_side(sides.top, parent_size.y as int),
            right: Self::spec_side(sides.right, parent_size.x as int),
            bottom: Self::spec_side(sides.bottom, parent_size.y as int),
            left: Self::spec_side(sides.left, parent_size.x as int),
        }).spec_rotate_right(!is_row)
    }

    pub open spec fn spec_side(v: Val, parent: int) -> i64 {
        let raw = v.spec_to_raw(parent);
        if raw < 0 {
            0
        } else {
            raw as i64
        }
    }

    fn raw_sides(sides: &Sides, parent_size: Vec2, is_row: bool) -> (r: RawSides)
        requires
            parent_size.in_range(),
        ensures
            r == Self::spec_raw_sides(*sides, parent_size, is_row),
            r.in_range(),
    {
        let top = sides.top.to_raw(parent_size.y);
        let right = sides.right.to_raw(parent_size.x);
        let bottom = sides.bottom.to_raw(parent_size.y);
        let left = sides.left.to_raw(parent_size.x);
        (RawSides {
            top: if top < 0 { 0 } else { top },
            right: if right < 0 { 0 } else { right },
            bottom: if bottom < 0 { 0 } else { bottom },
            left: if left < 0 { 0 } else { left },
        }).rotate_right(!is_row)
    }

    pub open spec fn spec_raw_margin(self, parent_size: Vec2, is_row: bool) -> RawSides {
        Self::spec_raw_sides(self.margin, parent_size, is_row)
    }

    pub(crate) fn raw_margin(&self, parent_size: Vec2, is_row: bool) -> (r: RawSides)
        requires
            parent_size.in_range(),
        ensures
            r == self.spec_raw_margin(parent_size, is_row),
            r.in_range(),
    {
        Self::raw_sides(&self.margin, parent_size, is_row)
    }

    pub open spec fn spec_raw_padding(self, parent_size: Vec2, is_row: bool) -> RawSides {
        Self::spec_raw_sides(self.padding, parent_size, is_row)
    }

    pub(crate) fn raw_padding(&self, parent_size: Vec2, is_row: bool) -> (r: RawSides)
        requires
            parent_size.in_range(),
        ensures
            r == self.spec_raw_padding(parent_size, is_row),
            r.in_range(),
    {
        Self::raw_sides(&self.padding, parent_size, is_row)
    }

    /// Resolved minimum content size, axes swapped into the layout-local
    /// frame for a column.
    pub open spec fn spec_raw_min_size(self, parent_size: Vec2, is_row: bool) -> Vec2 {
        let w = if is_row {
            self.min_width
        } else {
            self.min_height
        };
        let h = if is_row {
            self.min_height
        } else {
            self.min_width
        };
        Vec2 {
            x: w.spec_to_raw(parent_size.x as int) as i64,
            y: h.spec_to_raw(parent_size.y as int) as i64,
        }
    }

    pub(crate) fn raw_min_size(&self, parent_size: Vec2, is_row: bool) -> (r: Vec2)
        requires
            parent_size.in_range(),
        ensures
            r == self.spec_raw_min_size(parent_size, is_row),
            r.in_range(),
    {
        let (w, h) = if is_row {
            (self.min_width, self.min_height)
        } else {
            (self.min_height, self.min_width)
        };
        Vec2 { x: w.to_raw(parent_size.x), y: h.to_raw(parent_size.y) }
    }

    /// Resolved maximum content size, axes swapped into the layout-local
    /// frame for a column.
    pub open spec fn spec_raw_max_size(self, parent_size: Vec2, is_row: bool) -> Vec2 {
        let w = if is_row {
            self.max_width
        } else {
            self.max_height
        };
        let h = if is_row {
            self.max_height
        } else {
            self.max_width
        };
        Vec2 {
            x: w.spec_to_raw(parent_size.x as int) as i64,
            y: h.spec_to_raw(parent_size.y as int) as i64,
        }
    }

    pub(crate) fn raw_max_size(&self, parent_size: Vec2, is_row: bool) -> (r: Vec2)
        requires
            parent_size.in_range(),
        ensures
            r == self.spec_raw_max_size(parent_size, is_row),
            r.in_range(),
    {
        let (w, h) = if is_row {
            (self.max_width, self.max_height)
        } else {
            (self.max_height, self.max_width)
        };
        Vec2 { x: w.to_raw(parent_size.x), y: h.to_raw(parent_size.y) }
    }

    /// Resolved corner radii against the smaller side of the element.
    pub open spec fn spec_raw_corners(self, element_size: Vec2) -> RawCorners {
        let m = element_size.spec_min_element() as int;
        RawCorners {
            top_left: self.corners.top_left.spec_to_raw(m) as i64,
            top_right: self.corners.top_right.spec_to_raw(m) as i64,
            bottom_right: self.corners.bottom_right.spec_to_raw(m) as i64,
            bottom_left: self.corners.bottom_left.spec_to_raw(m) as i64,
        }
    }

    pub(crate) fn raw_corners(&self, element_size: Vec2) -> (r: RawCorners)
        requires
            element_size.in_range(),
        ensures
            r == self.spec_raw_corners(element_size),
    {
        let m = element_size.min_element();
        RawCorners {
            top_left: self.corners.top_left.to_raw(m),
            top_right: self.corners.top_right.to_raw(m),
            bottom_right: self.corners.bottom_right.to_raw(m),
            bottom_left: self.corners.bottom_left.to_raw(m),
        }
    }
}

} // verus!
