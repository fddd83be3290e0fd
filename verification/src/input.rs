//! Pointer state and the icons a widget can request: what an input-mapping
//! host tracks between raw pointer events.

use vstd::prelude::*;

use crate::math::Vec2;

verus! {

/// The pointer state a [`crate::gewy::Gewy`] tracks between input events.
#[derive(Clone, Copy, PartialEq, Eq, Structural, Debug)]
pub struct Cursor {
    pub position: Vec2,
    pub left_pressed: bool,
    pub right_pressed: bool,
}

impl Default for Cursor {
    fn default() -> (c: Cursor)
        ensures
            c == (Cursor {
                position: Vec2 { x: 0, y: 0 },
                left_pressed: false,
                right_pressed: false,
            }),
    {
        Cursor { position: Vec2 { x: 0, y: 0 }, left_pressed: false, right_pressed: false }
    }
}

/// A pointer button.
#[derive(Clone, Copy, PartialEq, Eq, Structural, Debug)]
pub enum MouseButton {
    Left,
    Right,
}

/// The cursor icons a widget can request from the windowing host.
#[derive(Clone, Copy, PartialEq, Eq, Structural, Default, Debug)]
pub enum CursorIcon {
    #[default]
    Default,
    Crosshair,
    Hand,
    Arrow,
    Move,
    Text,
    Wait,
    Help,
    Progress,
    NotAllowed,
    ContextMenu,
    Cell,
    VerticalText,
    Alias,
    Copy,
    NoDrop,
    Grab,
    Grabbing,
    AllScroll,
    ZoomIn,
    ZoomOut,
    EResize,
    NResize,
    NeResize,
    NwResize,
    SResize,
    SeResize,
    SwResize,
    WResize,
    EwResize,
    NsResize,
    NeswResize,
    NwseResize,
    ColResize,
    RowResize,
}

} // verus!
