//! Nodes and their stable, generation-safe identifiers.

use vstd::prelude::*;

use crate::raw::Raw;
use crate::style::Style;
use crate::style::Val;
use crate::widget::Widget;

verus! {

/// Name of a [`Node`]: a small integer tag for event targeting and lookup.
pub type Name = u16;

/// Identifier of a [`Node`]: a slot index paired with the slot's generation,
/// so that a reference to a removed node is detected as stale rather than
/// aliasing whatever reuses the slot.
#[derive(Clone, Copy, PartialEq, Eq, Structural, Debug, Hash)]
pub struct NodeId {
    pub index: usize,
    pub generation: u64,
}

impl Default for NodeId {
    /// A null identifier that no live node ever carries.
    fn default() -> (r: NodeId)
        ensures
            r == (NodeId { index: usize::MAX, generation: 0 }),
    {
        NodeId { index: usize::MAX, generation: 0 }
    }
}

/// Element of a [`crate::Gewy`] tree: a widget, a style, tree links, and the
/// raw values of the last layout pass.
pub struct Node {
    pub widget: Widget,
    pub name: Option<Name>,
    pub style: Style,
    /// Identifiers of the node's children. Set by the tree: insertion
    /// normalizes it, so a value put here before insertion is discarded.
    pub children_ids: Vec<NodeId>,
    /// Back-reference to the parent; set by the tree on insertion.
    pub parent_id: Option<NodeId>,
    /// The originally inserted node whose subtree this node belongs to; set
    /// by the tree on insertion.
    pub ancestor_id: Option<NodeId>,
    /// The raw values of the last layout pass; fully overwritten each pass.
    pub raw: Raw,
    /// Insertion order witness: a parent is always stamped before its
    /// children, which grounds every downward traversal.
    pub stamp: Ghost<nat>,
}

/// The default style a widget asks for at construction.
pub open spec fn spec_default_style(w: Widget) -> Style {
    match w {
        Widget::RadioButton(_) => Style {
            width: Val::Px(17),
            height: Val::Px(17),
            min_width: Val::Px(17),
            min_height: Val::Px(17),
            max_width: Val::Px(17),
            max_height: Val::Px(17),
            ..Style::spec_default()
        },
        _ => Style::spec_default(),
    }
}

impl Node {
    /// A fresh, unlinked node with the given widget and style.
    pub fn new(widget: Widget, style: Style) -> (n: Node)
        ensures
            n.widget == widget,
            n.style == style,
            n.name is None,
            n.children_ids@ == Seq::<NodeId>::empty(),
            n.parent_id is None,
            n.ancestor_id is None,
            n.raw == Raw::spec_default(),
    {
        Node {
            widget,
            name: None,
            style,
            children_ids: Vec::new(),
            parent_id: None,
            ancestor_id: None,
            raw: Raw::default(),
            stamp: Ghost(0),
        }
    }

    /// A fresh node styled with the widget's own default style.
    pub fn from_widget(widget: Widget) -> (n: Node)
        ensures
            n.style == spec_default_style(n.widget),
            n.widget == widget,
            n.name is None,
            n.children_ids@ == Seq::<NodeId>::empty(),
            n.parent_id is None,
            n.ancestor_id is None,
            n.raw == Raw::spec_default(),
    {
        let style = match &widget {
            Widget::RadioButton(_) => Style {
                width: Val::Px(17),
                height: Val::Px(17),
                min_width: Val::Px(17),
                min_height: Val::Px(17),
                max_width: Val::Px(17),
                max_height: Val::Px(17),
                ..Style::default()
            },
            _ => Style::default(),
        };
        Node::new(widget, style)
    }

    /// The node with its name set.
    pub fn with_name(self, name: Option<Name>) -> (n: Node)
        ensures
            n == (Node { name, ..self }),
    {
        Node { name, ..self }
    }

    /// The node with its style replaced.
    pub fn with_style(self, style: Style) -> (n: Node)
        ensures
            n == (Node { style, ..self }),
    {
        Node { style, ..self }
    }

    pub fn style(&self) -> (s: &Style)
        ensures
            s == self.style,
    {
        &self.style
    }

    pub fn widget(&self) -> (w: &Widget)
        ensures
            w == self.widget,
    {
        &self.widget
    }

    pub fn name(&self) -> (r: Option<Name>)
        ensures
            r == self.name,
    {
        self.name
    }

    /// Identifiers of the node's children, in order.
    pub fn children(&self) -> (r: &Vec<NodeId>)
        ensures
            r@ == self.children_ids@,
    {
        &self.children_ids
    }

    /// Identifier of the node's parent; `None` only for the root.
    pub fn parent(&self) -> (r: Option<NodeId>)
        ensures
            r == self.parent_id,
    {
        self.parent_id
    }

    /// Identifier of the originally inserted node whose subtree this node
    /// belongs to; `None` only for the root.
    pub fn ancestor(&self) -> (r: Option<NodeId>)
        ensures
            r == self.ancestor_id,
    {
        self.ancestor_id
    }

    /// The raw values the last layout pass computed for this node.
    pub fn raw(&self) -> (r: &Raw)
        ensures
            r == self.raw,
    {
        &self.raw
    }
}

impl Default for Node {
    /// A plain pane node with the default style.
    fn default() -> (n: Node)
        ensures
            n.widget == Widget::Pane(crate::widget::Pane),
            n.style == Style::spec_default(),
            n.name is None,
            n.children_ids@ == Seq::<NodeId>::empty(),
            n.parent_id is None,
            n.ancestor_id is None,
            n.raw == Raw::spec_default(),
    {
        Node::new(Widget::Pane(crate::widget::Pane), Style::default())
    }
}

} // verus!
