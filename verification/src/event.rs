//! Events and the control block a widget handles them through.

use vstd::prelude::*;

use crate::input::CursorIcon;
use crate::node::Name;
use crate::node::NodeId;

verus! {

/// The closed set of event kinds the toolkit dispatches. `Custom` carries an
/// author-chosen tag for application events.
#[derive(Clone, Copy, PartialEq, Eq, Structural, Debug)]
pub enum EventKind {
    Press,
    Release,
    GewyEnter,
    GewyExit,
    Enter,
    Exit,
    Focus,
    Unfocus,
    Custom(u64),
}

/// An event envelope: the payload that flows through one bubble traversal.
#[derive(Clone, Copy, PartialEq, Eq, Structural, Debug)]
pub struct DynEvent {
    pub kind: EventKind,
}

impl DynEvent {
    pub fn new(kind: EventKind) -> (e: DynEvent)
        ensures
            e == (DynEvent { kind }),
    {
        DynEvent { kind }
    }

    /// Whether this envelope carries the given kind of event.
    pub fn is_event(&self, kind: EventKind) -> (r: bool)
        ensures
            r == (self.kind == kind),
    {
        self.kind == kind
    }
}

/// A value that can be fired as an event.
pub trait Event {
    /// The kind this event dispatches as.
    spec fn spec_kind(&self) -> EventKind;

    fn kind(&self) -> (k: EventKind)
        ensures
            k == self.spec_kind(),
    ;

    /// The envelope dispatching this event.
    fn to_dyn(&self) -> (e: DynEvent)
        ensures
            e.kind == self.spec_kind(),
    {
        DynEvent { kind: self.kind() }
    }
}

/// The cursor pressed a node.
#[derive(Clone, Copy, PartialEq, Eq, Structural, Default, Debug)]
pub struct PressEvent;

impl Event for PressEvent {
    open spec fn spec_kind(&self) -> EventKind {
        EventKind::Press
    }

    fn kind(&self) -> EventKind {
        EventKind::Press
    }
}

/// The cursor released a previously pressed node.
#[derive(Clone, Copy, PartialEq, Eq, Structural, Default, Debug)]
pub struct ReleaseEvent;

impl Event for ReleaseEvent {
    open spec fn spec_kind(&self) -> EventKind {
        EventKind::Release
    }

    fn kind(&self) -> EventKind {
        EventKind::Release
    }
}

/// The cursor entered the whole surface.
#[derive(Clone, Copy, PartialEq, Eq, Structural, Default, Debug)]
pub struct GewyEnterEvent;

impl Event for GewyEnterEvent {
    open spec fn spec_kind(&self) -> EventKind {
        EventKind::GewyEnter
    }

    fn kind(&self) -> EventKind {
        EventKind::GewyEnter
    }
}

/// The cursor left the whole surface.
#[derive(Clone, Copy, PartialEq, Eq, Structural, Default, Debug)]
pub struct GewyExitEvent;

impl Event for GewyExitEvent {
    open spec fn spec_kind(&self) -> EventKind {
        EventKind::GewyExit
    }

    fn kind(&self) -> EventKind {
        EventKind::GewyExit
    }
}

/// The cursor entered a node.
#[derive(Clone, Copy, PartialEq, Eq, Structural, Default, Debug)]
pub struct EnterEvent;

impl Event for EnterEvent {
    open spec fn spec_kind(&self) -> EventKind {
        EventKind::Enter
    }

    fn kind(&self) -> EventKind {
        EventKind::Enter
    }
}

/// The cursor left a node.
#[derive(Clone, Copy, PartialEq, Eq, Structural, Default, Debug)]
pub struct ExitEvent;

impl Event for ExitEvent {
    open spec fn spec_kind(&self) -> EventKind {
        EventKind::Exit
    }

    fn kind(&self) -> EventKind {
        EventKind::Exit
    }
}

/// A node gained focus.
#[derive(Clone, Copy, PartialEq, Eq, Structural, Default, Debug)]
pub struct FocusEvent;

impl Event for FocusEvent {
    open spec fn spec_kind(&self) -> EventKind {
        EventKind::Focus
    }

    fn kind(&self) -> EventKind {
        EventKind::Focus
    }
}

/// A node lost focus.
#[derive(Clone, Copy, PartialEq, Eq, Structural, Default, Debug)]
pub struct UnfocusEvent;

impl Event for UnfocusEvent {
    open spec fn spec_kind(&self) -> EventKind {
        EventKind::Unfocus
    }

    fn kind(&self) -> EventKind {
        EventKind::Unfocus
    }
}

/// Where an event originated: the node it was first delivered to, carried
/// along while the event bubbles so ancestors can tell their children apart.
#[derive(Clone, Copy, PartialEq, Eq, Structural, Debug)]
pub struct NodeOrigin {
    pub id: NodeId,
    pub name: Option<Name>,
}

/// The control block for one delivery of one event to one widget: the event,
/// where it came from, and what the widget asked for while handling it.
pub struct EventControl {
    /// The event being delivered.
    pub event: DynEvent,
    /// Where the event came from; `None` at the originating node.
    pub origin: Option<NodeOrigin>,
    /// Events enqueued by the handler, dispatched from the node's ancestor.
    pub outgoing_events: Vec<DynEvent>,
    /// The icon the handler requested, if any.
    pub cursor_icon: Option<CursorIcon>,
    /// Whether the handler stopped the bubble.
    pub stop: bool,
    /// Whether the handler requested a repaint.
    pub repaint: bool,
    /// Whether the handler captured the pointer.
    pub pressed: bool,
}

impl EventControl {
    pub fn new(event: DynEvent, origin: Option<NodeOrigin>) -> (c: EventControl)
        ensures
            c.event == event,
            c.origin == origin,
            c.outgoing_events@ == Seq::<DynEvent>::empty(),
            c.cursor_icon is None,
            !c.stop,
            !c.repaint,
            !c.pressed,
    {
        EventControl {
            event,
            origin,
            outgoing_events: Vec::new(),
            cursor_icon: None,
            stop: false,
            repaint: false,
            pressed: false,
        }
    }

    /// Info about the descendant node the event came from; `None` at the
    /// node where the event originated.
    pub fn origin(&self) -> (r: Option<NodeOrigin>)
        ensures
            r == self.origin,
    {
        self.origin
    }

    /// Whether the event is of the kind given.
    pub fn is_event(&self, kind: EventKind) -> (r: bool)
        ensures
            r == (self.event.kind == kind),
    {
        self.event.kind == kind
    }

    /// The origin, when the event is of the kind given, came from a
    /// descendant, and that descendant's name matches (any name matches
    /// `None`).
    pub fn as_matched_event(&self, kind: EventKind, name: Option<Name>) -> (r: Option<NodeOrigin>)
        ensures
            r == (if self.event.kind == kind && self.origin is Some && (name is Some
                ==> self.origin->Some_0.name == name) {
                self.origin
            } else {
                Option::<NodeOrigin>::None
            }),
    {
        if self.event.kind != kind {
            return None;
        }
        let origin = match self.origin {
            Some(o) => o,
            None => { return None },
        };
        if let Some(n) = name {
            match origin.name {
                Some(on) if on == n => Some(origin),
                _ => None,
            }
        } else {
            Some(origin)
        }
    }

    /// Enqueues an outgoing event for ancestors to react to; it is dispatched
    /// from this node's ancestor after the current handler returns.
    pub fn fire(&mut self, event: DynEvent)
        ensures
            *final(self) == (EventControl {
                outgoing_events: final(self).outgoing_events,
                ..*old(self)
            }),
            final(self).outgoing_events@ == old(self).outgoing_events@.push(event),
    {
        self.outgoing_events.push(event);
    }

    /// Stops the bubble: no further ancestor sees this event.
    pub fn stop(&mut self)
        ensures
            *final(self) == (EventControl { stop: true, ..*old(self) }),
    {
        self.stop = true;
    }

    /// Requests a repaint of the widget that called it.
    pub fn repaint(&mut self)
        ensures
            *final(self) == (EventControl { repaint: true, ..*old(self) }),
    {
        self.repaint = true;
    }

    /// Marks the handling node as "pressed", capturing the pointer for a
    /// later release.
    pub fn press(&mut self)
        ensures
            *final(self) == (EventControl { pressed: true, ..*old(self) }),
    {
        self.pressed = true;
    }

    /// Requests the next cursor icon.
    pub fn set_cursor_icon(&mut self, cursor_icon: CursorIcon)
        ensures
            *final(self) == (EventControl { cursor_icon: Some(cursor_icon), ..*old(self) }),
    {
        self.cursor_icon = Some(cursor_icon);
    }
}

} // verus!
