//! A retained-mode UI core: a tree of widget nodes stored in a generational
//! arena, a flexbox-style layout engine for sibling groups, hit-testing, and
//! the widget/event model the dispatch layer is built from.
//!
//! All geometry is integer pixel arithmetic. Percentages are expressed in
//! per-mille (thousandths), and every resolved quantity is clamped to
//! [`num::COORD_LIMIT`] so that layout arithmetic never overflows.

pub mod color;
pub mod err;
pub mod gewy;
pub mod event;
pub mod input;
pub mod layout;
pub mod math;
pub mod node;
pub mod num;
pub mod raw;
pub mod style;
pub mod widget;

pub use color::Color;
pub use err::GewyError;
pub use gewy::Gewy;
pub use event::DynEvent;
pub use event::EnterEvent;
pub use event::Event;
pub use event::EventControl;
pub use event::EventKind;
pub use event::ExitEvent;
pub use event::FocusEvent;
pub use event::GewyEnterEvent;
pub use event::GewyExitEvent;
pub use event::NodeOrigin;
pub use event::PressEvent;
pub use event::ReleaseEvent;
pub use event::UnfocusEvent;
pub use input::Cursor;
pub use input::CursorIcon;
pub use input::MouseButton;
pub use node::Name;
pub use node::Node;
pub use node::NodeId;
pub use widget::Canvas;
pub use widget::Delivery;
pub use widget::Descendants;
pub use widget::EmitRule;
pub use widget::Group;
pub use widget::Pane;
pub use widget::Probe;
pub use widget::RadioButton;
pub use widget::Widget;
pub use layout::Kid;
pub use math::Rect;
pub use math::Vec2;
pub use raw::Raw;
pub use raw::RawCorners;
pub use raw::RawSides;
pub use style::Align;
pub use style::AlignSelf;
pub use style::Corners;
pub use style::Direction;
pub use style::Justify;
pub use style::Layout;
pub use style::Sides;
pub use style::Style;
pub use style::Val;
