//! The closed set of widget behaviors a node can carry.
//!
//! A widget is a tagged variant: what it spawns under itself on insertion,
//! how it reacts to an event delivery, and what it paints are all functions
//! of the variant, dispatched by `match` and verified like any other code.

use vstd::prelude::*;

use crate::event::DynEvent;
use crate::event::EventControl;
use crate::event::EventKind;
use crate::event::NodeOrigin;
use crate::input::CursorIcon;
use crate::node::Node;
use crate::node::NodeId;
use crate::raw::RawCorners;

verus! {

/// A widget that paints a colored rectangle with rounded corners.
#[derive(Clone, Copy, PartialEq, Eq, Structural, Debug)]
pub struct Pane;

/// A two-state button toggled by press/release, requesting a hand cursor
/// while hovered.
#[derive(Clone, Copy, PartialEq, Eq, Structural, Debug, Default)]
pub struct RadioButton {
    pub selected: bool,
    pub entered: bool,
}

/// One event delivery a [`Probe`] recorded.
#[derive(Clone, Copy, PartialEq, Eq, Structural, Debug)]
pub struct Delivery {
    pub kind: EventKind,
    pub origin: Option<NodeOrigin>,
}

/// On receiving an event of kind `on`, enqueue an outgoing event of kind
/// `emit`.
#[derive(Clone, Copy, PartialEq, Eq, Structural, Debug)]
pub struct EmitRule {
    pub on: EventKind,
    pub emit: EventKind,
}

/// A scriptable widget: it records every delivery it receives, stops the
/// bubble on the kinds in `stop_kinds`, and enqueues outgoing events per its
/// `emit_rules`.
pub struct Probe {
    pub log: Vec<Delivery>,
    pub stop_kinds: Vec<EventKind>,
    pub emit_rules: Vec<EmitRule>,
}

impl Probe {
    /// A probe that only records.
    pub fn new() -> (p: Probe)
        ensures
            p.log@ == Seq::<Delivery>::empty(),
            p.stop_kinds@ == Seq::<EventKind>::empty(),
            p.emit_rules@ == Seq::<EmitRule>::empty(),
    {
        Probe { log: Vec::new(), stop_kinds: Vec::new(), emit_rules: Vec::new() }
    }
}

/// A widget that spawns the given nodes under itself when inserted; each
/// spawned node's ancestor is the group node. Paints like a pane.
pub struct Group {
    pub children: Vec<Node>,
}

/// The behavior of one node.
pub enum Widget {
    Pane(Pane),
    RadioButton(RadioButton),
    Probe(Probe),
    Group(Group),
}

/// Whether a widget's handler stops the bubble for this event kind.
pub open spec fn spec_stops(w: Widget, kind: EventKind) -> bool {
    match w {
        Widget::RadioButton(_) => kind == EventKind::Enter || kind == EventKind::Exit || kind
            == EventKind::Press || kind == EventKind::Release,
        Widget::Probe(p) => p.stop_kinds@.contains(kind),
        _ => false,
    }
}

/// Whether a widget's handler captures the pointer for this event kind.
pub open spec fn spec_presses(w: Widget, kind: EventKind) -> bool {
    match w {
        Widget::RadioButton(_) => kind == EventKind::Press,
        _ => false,
    }
}

/// Whether a widget's handler requests a repaint for this event kind.
pub open spec fn spec_repaints(w: Widget, kind: EventKind) -> bool {
    match w {
        Widget::RadioButton(_) => kind == EventKind::Release,
        _ => false,
    }
}

/// The cursor icon request after a widget handles this event kind.
pub open spec fn spec_icon_after(
    w: Widget,
    kind: EventKind,
    before: Option<CursorIcon>,
) -> Option<CursorIcon> {
    match w {
        Widget::RadioButton(_) => {
            if kind == EventKind::Enter {
                Some(CursorIcon::Hand)
            } else if kind == EventKind::Exit {
                Some(CursorIcon::Default)
            } else {
                before
            }
        },
        _ => before,
    }
}

/// The outgoing events a rule list enqueues for this event kind, in order.
pub open spec fn spec_emits_of(rules: Seq<EmitRule>, kind: EventKind) -> Seq<DynEvent>
    decreases rules.len(),
{
    if rules.len() == 0 {
        Seq::empty()
    } else {
        let pre = spec_emits_of(rules.drop_last(), kind);
        if rules.last().on == kind {
            pre.push(DynEvent { kind: rules.last().emit })
        } else {
            pre
        }
    }
}

/// The outgoing events a widget's handler enqueues for this event kind.
pub open spec fn spec_emits(w: Widget, kind: EventKind) -> Seq<DynEvent> {
    match w {
        Widget::Probe(p) => spec_emits_of(p.emit_rules@, kind),
        _ => Seq::empty(),
    }
}

/// How a widget's own state steps when it handles an event.
pub open spec fn spec_widget_step(
    w0: Widget,
    w1: Widget,
    kind: EventKind,
    origin: Option<NodeOrigin>,
) -> bool {
    match w0 {
        Widget::Pane(_) => w1 == w0,
        Widget::Group(_) => w1 == w0,
        Widget::RadioButton(rb) => w1 == Widget::RadioButton(
            if kind == EventKind::Release {
                RadioButton { selected: !rb.selected, entered: rb.entered }
            } else {
                rb
            },
        ),
        Widget::Probe(p) => match w1 {
            Widget::Probe(p1) => {
                &&& p1.log@ == p.log@.push(Delivery { kind, origin })
                &&& p1.stop_kinds@ == p.stop_kinds@
                &&& p1.emit_rules@ == p.emit_rules@
            },
            _ => false,
        },
    }
}

impl Widget {
    /// Handles one event delivery: the widget updates its own state and
    /// writes its requests into the control block. The event and origin are
    /// never changed; the stop, press and repaint flags are only ever raised.
    pub fn handle_event(&mut self, ctl: &mut EventControl)
        ensures
            spec_widget_step(*old(self), *final(self), old(ctl).event.kind, old(ctl).origin),
            final(ctl).event == old(ctl).event,
            final(ctl).origin == old(ctl).origin,
            final(ctl).stop == (old(ctl).stop || spec_stops(*old(self), old(ctl).event.kind)),
            final(ctl).pressed == (old(ctl).pressed || spec_presses(
                *old(self),
                old(ctl).event.kind,
            )),
            final(ctl).repaint == (old(ctl).repaint || spec_repaints(
                *old(self),
                old(ctl).event.kind,
            )),
            final(ctl).cursor_icon == spec_icon_after(
                *old(self),
                old(ctl).event.kind,
                old(ctl).cursor_icon,
            ),
            final(ctl).outgoing_events@ == old(ctl).outgoing_events@ + spec_emits(
                *old(self),
                old(ctl).event.kind,
            ),
    {
        let ghost w0 = *self;
        let ghost kind0 = ctl.event.kind;
        match self {
            Widget::Pane(_) => {
                proof {
                    assert(final(ctl).outgoing_events@ =~= old(ctl).outgoing_events@ + spec_emits(
                        w0,
                        kind0,
                    ));
                }
            },
            Widget::Group(_) => {
                proof {
                    assert(final(ctl).outgoing_events@ =~= old(ctl).outgoing_events@ + spec_emits(
                        w0,
                        kind0,
                    ));
                }
            },
            Widget::RadioButton(rb) => {
                if ctl.is_event(EventKind::Enter) {
                    ctl.set_cursor_icon(CursorIcon::Hand);
                    ctl.stop();
                } else if ctl.is_event(EventKind::Exit) {
                    ctl.set_cursor_icon(CursorIcon::Default);
                    ctl.stop();
                } else if ctl.is_event(EventKind::Press) {
                    ctl.press();
                    ctl.stop();
                } else if ctl.is_event(EventKind::Release) {
                    rb.selected = !rb.selected;
                    ctl.stop();
                    ctl.repaint();
                }
                proof {
                    assert(final(ctl).outgoing_events@ =~= old(ctl).outgoing_events@ + spec_emits(
                        w0,
                        kind0,
                    ));
                }
            },
            Widget::Probe(p) => {
                let kind = ctl.event.kind;
                let origin = ctl.origin;
                p.log.push(Delivery { kind, origin });

                // Stop when the kind is listed.
                let mut stop = false;
                let sn = p.stop_kinds.len();
                let mut j: usize = 0;
                while j < sn
                    invariant
                        0 <= j <= sn,
                        sn == p.stop_kinds@.len(),
                        stop == exists|u: int| 0 <= u < j && p.stop_kinds@[u] == kind,
                    decreases sn - j,
                {
                    if p.stop_kinds[j] == kind {
                        stop = true;
                    }
                    j = j + 1;
                }
                if stop {
                    ctl.stop();
                }
                proof {
                    if p.stop_kinds@.contains(kind) {
                        assert(stop);
                    }
                }

                // Enqueue the outgoing events the rules ask for.
                let ghost out0 = ctl.outgoing_events@;
                let en = p.emit_rules.len();
                let mut m: usize = 0;
                while m < en
                    invariant
                        0 <= m <= en,
                        en == p.emit_rules@.len(),
                        ctl.event.kind == kind0,
                        ctl.outgoing_events@ == out0 + spec_emits_of(
                            p.emit_rules@.take(m as int),
                            kind,
                        ),
                        ctl.origin == old(ctl).origin,
                        ctl.stop == (old(ctl).stop || spec_stops(w0, kind0)),
                        ctl.pressed == old(ctl).pressed,
                        ctl.repaint == old(ctl).repaint,
                        ctl.cursor_icon == old(ctl).cursor_icon,
                    decreases en - m,
                {
                    proof {
                        assert(p.emit_rules@.take(m + 1).drop_last() =~= p.emit_rules@.take(
                            m as int,
                        ));
                    }
                    let r = p.emit_rules[m];
                    if r.on == kind {
                        ctl.fire(DynEvent::new(r.emit));
                    }
                    m = m + 1;
                }
                proof {
                    assert(p.emit_rules@.take(en as int) =~= p.emit_rules@);
                }
            },
        }
    }
}

/// Area a widget paints in: its padding region's size and the resolved
/// corner radii, with the painter already translated to the region's origin.
#[derive(Clone, Copy, PartialEq, Eq, Structural, Debug)]
pub struct Canvas {
    /// Size of the canvas in pixels; widgets must not paint outside the
    /// range (0, 0) to (size.x, size.y).
    pub size: crate::math::Vec2,
    /// Resolved radii of the corners in pixels.
    pub corners: RawCorners,
}

impl Canvas {
    /// The canvas midpoint (components rounded toward zero).
    pub fn center(&self) -> (c: crate::math::Vec2)
        requires
            self.size.in_range(),
        ensures
            c.x == crate::num::spec_div0(self.size.x as int, 2),
            c.y == crate::num::spec_div0(self.size.y as int, 2),
    {
        crate::math::Vec2 { x: crate::num::half(self.size.x), y: crate::num::half(self.size.y) }
    }
}

/// A capability to build under one parent: insertions go through the owning
/// tree each time, so a widget can spawn descendants without ever holding a
/// second live reference into the arena.
#[derive(Clone, Copy, PartialEq, Eq, Structural, Debug)]
pub struct Descendants {
    /// The originally inserted node whose subtree is being built; spawned
    /// nodes carry it as their ancestor.
    pub ancestor_id: NodeId,
    /// The node new children attach to.
    pub parent_id: NodeId,
}

impl Descendants {
    /// The capability rooted at one node.
    pub fn new(node_id: NodeId) -> (d: Descendants)
        ensures
            d == (Descendants { ancestor_id: node_id, parent_id: node_id }),
    {
        Descendants { ancestor_id: node_id, parent_id: node_id }
    }

    /// The node this capability builds under.
    pub fn node_id(&self) -> (r: NodeId)
        ensures
            r == self.parent_id,
    {
        self.parent_id
    }
}

} // verus!
