//! The tree: a generational arena of nodes with insertion, lookup, named
//! lookup and hit-testing.
//!
//! A node is addressed by a [`NodeId`] carrying the slot index and the slot's
//! generation at allocation time, so an identifier can be told apart from any
//! other occupant of its slot. A widget's "spawn descendants" hook never
//! holds a second live reference into the arena: every insertion goes
//! through the one owning structure.

use vstd::prelude::*;

use crate::err::GewyError;
use crate::node::Name;
use crate::node::Node;
use crate::node::NodeId;
use crate::raw::Raw;
use crate::style::Style;
use crate::widget::Group;
use crate::widget::Widget;

verus! {

/// How many nodes one insertion may spawn; spawning beyond this is dropped,
/// a best-effort cap that keeps every traversal finite.
pub const SPAWN_LIMIT: usize = 65536;

/// One arena slot: the node living there, if any, and the slot's current
/// generation.
struct Slot {
    node: Option<Node>,
    generation: u64,
}

/// A graphical user interface: the storage of its [`Node`]s and the pointer
/// state layered on top.
pub struct Gewy {
    storage: Vec<Slot>,
    free: Vec<usize>,
    root_id: NodeId,
    pressed_id: Option<NodeId>,
    cursor: crate::input::Cursor,
    next_cursor_icon: Option<crate::input::CursorIcon>,
    next_stamp: Ghost<nat>,
}

impl Gewy {
    /// Whether `id` refers to a node currently in the tree.
    pub closed spec fn live(self, id: NodeId) -> bool {
        &&& (id.index as int) < self.storage@.len()
        &&& self.storage@[id.index as int].generation == id.generation
        &&& self.storage@[id.index as int].node is Some
    }

    /// The node `id` refers to (meaningful only when live).
    pub closed spec fn node_of(self, id: NodeId) -> Node {
        self.storage@[id.index as int].node.unwrap()
    }

    /// The insertion stamp of a node; parents are stamped before children.
    pub closed spec fn stamp_of(self, id: NodeId) -> nat {
        self.node_of(id).stamp@
    }

    /// The next insertion stamp to be handed out; every live node's stamp
    /// lies below it.
    pub closed spec fn spec_next_stamp(self) -> nat {
        self.next_stamp@
    }

    /// The root's identifier.
    pub closed spec fn spec_root(self) -> NodeId {
        self.root_id
    }

    /// The node currently holding the pointer capture, if any.
    pub closed spec fn spec_pressed(self) -> Option<NodeId> {
        self.pressed_id
    }

    /// The tracked pointer state.
    pub closed spec fn spec_cursor(self) -> crate::input::Cursor {
        self.cursor
    }

    /// The icon requested since the last take, if any.
    pub closed spec fn spec_next_icon(self) -> Option<crate::input::CursorIcon> {
        self.next_cursor_icon
    }

    /// The identifier a slot index currently answers to.
    spec fn id_at(self, i: int) -> NodeId {
        NodeId { index: i as usize, generation: self.storage@[i].generation }
    }

    spec fn live_idx(self, i: int) -> bool {
        &&& 0 <= i < self.storage@.len()
        &&& self.storage@[i].node is Some
    }

    spec fn node_at(self, i: int) -> Node {
        self.storage@[i].node.unwrap()
    }

    /// Downward consistency: every live node's children are live, point back
    /// to it, are pairwise distinct, and carry strictly larger stamps; all
    /// stamps are below the next one to be handed out.
    pub closed spec fn wf_down(self) -> bool {
        &&& forall|i: int|
            self.live_idx(i) ==> (#[trigger] self.node_at(i)).stamp@ < self.next_stamp@
        &&& forall|i: int, k: int|
            #![trigger self.node_at(i).children_ids@[k]]
            self.live_idx(i) && 0 <= k < self.node_at(i).children_ids@.len() ==> {
                let c = self.node_at(i).children_ids@[k];
                &&& self.live(c)
                &&& self.node_of(c).parent_id == Some(self.id_at(i))
                &&& self.node_of(c).stamp@ > self.node_at(i).stamp@
            }
        &&& forall|i: int, k1: int, k2: int|
            #![trigger self.node_at(i).children_ids@[k1], self.node_at(i).children_ids@[k2]]
            self.live_idx(i) && 0 <= k1 < k2 < self.node_at(i).children_ids@.len()
                ==> self.node_at(i).children_ids@[k1] != self.node_at(i).children_ids@[k2]
    }

    /// Upward consistency: the root is live and parentless and is the only
    /// parentless node; every other live node's parent is live and lists it.
    spec fn wf_up(self) -> bool {
        &&& self.live(self.root_id)
        &&& self.node_of(self.root_id).parent_id is None
        &&& self.node_of(self.root_id).ancestor_id is None
        &&& forall|i: int|
            self.live_idx(i) && (#[trigger] self.node_at(i)).parent_id is None ==> self.id_at(i)
                == self.root_id
        &&& forall|i: int|
            self.live_idx(i) && self.id_at(i) != self.root_id ==> {
                let p = (#[trigger] self.node_at(i)).parent_id;
                &&& p is Some
                &&& self.live(p.unwrap())
                &&& self.node_of(p.unwrap()).children_ids@.contains(self.id_at(i))
            }
    }

    /// The free list holds distinct indices of empty slots.
    spec fn wf_mem(self) -> bool {
        &&& forall|k: int|
            0 <= k < self.free@.len() ==> (#[trigger] self.free@[k]) < self.storage@.len()
                && !self.live_idx(self.free@[k] as int)
        &&& forall|k1: int, k2: int|
            0 <= k1 < k2 < self.free@.len() ==> self.free@[k1] != self.free@[k2]
    }

    /// Every live node's raw record stays in the representable range.
    spec fn wf_raws(self) -> bool {
        forall|i: int| self.live_idx(i) ==> (#[trigger] self.node_at(i)).raw.in_range()
    }

    /// The tree is well formed: see `wf_down`, `wf_up`, `wf_mem`, `wf_raws`.
    /// This is the invariant every public operation preserves.
    pub closed spec fn wf(self) -> bool {
        &&& self.wf_down()
        &&& self.wf_up()
        &&& self.wf_mem()
        &&& self.wf_raws()
    }

    /// Law (tree invariants): in a well-formed tree the root is live and
    /// parentless; every other live node has a live parent whose child list
    /// contains it; every child listed by a live node is live, points back to
    /// its parent, and no child is listed twice.
    pub proof fn lemma_tree_invariants(self, id: NodeId)
        requires
            self.wf(),
            self.live(id),
        ensures
            self.live(self.spec_root()),
            self.node_of(self.spec_root()).parent_id is None,
            id != self.spec_root() ==> self.node_of(id).parent_id is Some && self.live(
                self.node_of(id).parent_id.unwrap(),
            ) && self.node_of(self.node_of(id).parent_id.unwrap()).children_ids@.contains(id),
            id == self.spec_root() ==> self.node_of(id).parent_id is None,
            forall|k: int|
                0 <= k < self.node_of(id).children_ids@.len() ==> {
                    let c = #[trigger] self.node_of(id).children_ids@[k];
                    &&& self.live(c)
                    &&& self.node_of(c).parent_id == Some(id)
                },
            forall|k1: int, k2: int|
                0 <= k1 < k2 < self.node_of(id).children_ids@.len()
                    ==> self.node_of(id).children_ids@[k1] != self.node_of(id).children_ids@[k2],
    {
        let i = id.index as int;
        assert(self.live_idx(i));
        assert(self.id_at(i) == id);
        if id != self.spec_root() {
            assert(self.node_at(i).parent_id is Some);
        }
        assert forall|k: int| 0 <= k < self.node_of(id).children_ids@.len() implies {
            let c = #[trigger] self.node_of(id).children_ids@[k];
            self.live(c) && self.node_of(c).parent_id == Some(id)
        } by {
            assert(self.node_at(i).children_ids@[k] == self.node_of(id).children_ids@[k]);
        }
    }

    /// Whether `id` refers to a node currently in the tree.
    pub fn contains_id(&self, id: NodeId) -> (r: bool)
        ensures
            r == self.live(id),
    {
        id.index < self.storage.len() && self.storage[id.index].generation == id.generation
            && self.storage[id.index].node.is_some()
    }

    /// Id of the root node.
    pub fn root_id(&self) -> (r: NodeId)
        ensures
            r == self.spec_root(),
    {
        self.root_id
    }

    /// A shared reference to a node.
    pub fn get(&self, node_id: NodeId) -> (r: Result<&Node, GewyError>)
        ensures
            self.live(node_id) ==> r is Ok && r->Ok_0 == self.node_of(node_id),
            !self.live(node_id) ==> r == Result::<&Node, GewyError>::Err(GewyError::NodeNotFound),
    {
        if node_id.index < self.storage.len() && self.storage[node_id.index].generation
            == node_id.generation {
            match &self.storage[node_id.index].node {
                Some(n) => Ok(n),
                None => Err(GewyError::NodeNotFound),
            }
        } else {
            Err(GewyError::NodeNotFound)
        }
    }

    /// Replaces a node's style.
    #[verifier::spinoff_prover]
    pub fn set_style(&mut self, node_id: NodeId, style: Style) -> (r: Result<(), GewyError>)
        requires
            old(self).wf(),
        ensures
            final(self).wf(),
            !old(self).live(node_id) ==> r == Result::<(), GewyError>::Err(
                GewyError::NodeNotFound,
            ) && *final(self) == *old(self),
            old(self).live(node_id) ==> r is Ok && final(self).node_of(node_id) == (Node {
                style,
                ..old(self).node_of(node_id)
            }) && forall|m: NodeId|
                #![auto]
                m != node_id ==> final(self).live(m) == old(self).live(m) && (old(self).live(m)
                    ==> final(self).node_of(m) == old(self).node_of(m)),
            forall|m: NodeId| #![auto] final(self).live(m) == old(self).live(m),
            final(self).spec_root() == old(self).spec_root(),
            final(self).spec_pressed() == old(self).spec_pressed(),
    {
        if !self.contains_id(node_id) {
            return Err(GewyError::NodeNotFound);
        }
        let ghost pre = *self;
        let slot = &mut self.storage[node_id.index];
        match &mut slot.node {
            Some(n) => {
                n.style = style;
            },
            None => {},
        }
        proof {
            let i0 = node_id.index as int;
            assert(self.storage@ =~= pre.storage@.update(i0, self.storage@[i0]));
            assert(self.node_of(node_id) == (Node { style, ..pre.node_of(node_id) }));
            assert(forall|i: int| self.live_idx(i) == pre.live_idx(i));
            assert(forall|i: int|
                self.live_idx(i) && i != i0 ==> #[trigger] self.node_at(i) == pre.node_at(i)
                    && self.id_at(i) == pre.id_at(i));
            assert(forall|m: NodeId| #![auto] self.live(m) == pre.live(m));
            assert(forall|m: NodeId|
                #![auto]
                m != node_id && self.live(m) ==> self.node_of(m) == pre.node_of(m));
            assert(self.wf_down());
            assert(self.wf_up());
            assert(self.wf_mem());
            assert(self.wf_raws());
        }
        Ok(())
    }

    /// Replaces a node's name.
    #[verifier::spinoff_prover]
    pub fn set_name(&mut self, node_id: NodeId, name: Option<Name>) -> (r: Result<(), GewyError>)
        requires
            old(self).wf(),
        ensures
            final(self).wf(),
            !old(self).live(node_id) ==> r == Result::<(), GewyError>::Err(
                GewyError::NodeNotFound,
            ) && *final(self) == *old(self),
            old(self).live(node_id) ==> r is Ok && final(self).node_of(node_id) == (Node {
                name,
                ..old(self).node_of(node_id)
            }) && forall|m: NodeId|
                #![auto]
                m != node_id ==> final(self).live(m) == old(self).live(m) && (old(self).live(m)
                    ==> final(self).node_of(m) == old(self).node_of(m)),
            forall|m: NodeId| #![auto] final(self).live(m) == old(self).live(m),
            final(self).spec_root() == old(self).spec_root(),
    {
        if !self.contains_id(node_id) {
            return Err(GewyError::NodeNotFound);
        }
        let ghost pre = *self;
        let slot = &mut self.storage[node_id.index];
        match &mut slot.node {
            Some(n) => {
                n.name = name;
            },
            None => {},
        }
        proof {
            let i0 = node_id.index as int;
            assert(self.storage@ =~= pre.storage@.update(i0, self.storage@[i0]));
            assert(self.node_of(node_id) == (Node { name, ..pre.node_of(node_id) }));
            assert(forall|i: int| self.live_idx(i) == pre.live_idx(i));
            assert(forall|i: int|
                self.live_idx(i) && i != i0 ==> #[trigger] self.node_at(i) == pre.node_at(i)
                    && self.id_at(i) == pre.id_at(i));
            assert(forall|m: NodeId| #![auto] self.live(m) == pre.live(m));
            assert(forall|m: NodeId|
                #![auto]
                m != node_id && self.live(m) ==> self.node_of(m) == pre.node_of(m));
            assert(self.wf_down());
            assert(self.wf_up());
            assert(self.wf_mem());
            assert(self.wf_raws());
        }
        Ok(())
    }

    /// The identifiers of all live nodes carrying `name`, in slot order.
    /// Computed from the tree itself, so it can never go stale: a removed
    /// node vanishes from the answer.
    pub fn ids_with_name(&self, name: Name) -> (r: Vec<NodeId>)
        ensures
            forall|k: int|
                0 <= k < r@.len() ==> self.live(#[trigger] r@[k]) && self.node_of(r@[k]).name
                    == Some(name),
            forall|m: NodeId|
                #![auto]
                self.live(m) && self.node_of(m).name == Some(name) ==> r@.contains(m),
            forall|k1: int, k2: int|
                0 <= k1 < k2 < r@.len() ==> r@[k1].index < r@[k2].index,
    {
        let mut out: Vec<NodeId> = Vec::new();
        let n = self.storage.len();
        let mut i: usize = 0;
        while i < n
            invariant
                n == self.storage@.len(),
                0 <= i <= n,
                forall|k: int|
                    0 <= k < out@.len() ==> self.live(#[trigger] out@[k]) && self.node_of(
                        out@[k],
                    ).name == Some(name),
                forall|m: NodeId|
                    #![auto]
                    self.live(m) && (m.index as int) < i && self.node_of(m).name == Some(name)
                        ==> out@.contains(m),
                forall|k: int| 0 <= k < out@.len() ==> (#[trigger] out@[k]).index < i,
                forall|k1: int, k2: int|
                    0 <= k1 < k2 < out@.len() ==> out@[k1].index < out@[k2].index,
            decreases n - i,
        {
            let found = match &self.storage[i].node {
                Some(node) => match node.name {
                    Some(nm) => nm == name,
                    None => false,
                },
                None => false,
            };
            let ghost prev = out@;
            if found {
                let id = NodeId { index: i, generation: self.storage[i].generation };
                out.push(id);
                proof {
                    assert(self.live(id) && self.node_of(id).name == Some(name));
                }
            }
            proof {
                assert forall|m: NodeId|
                    #![auto]
                    self.live(m) && (m.index as int) < i + 1 && self.node_of(m).name == Some(
                        name,
                    ) implies out@.contains(m) by {
                    if m.index as int == i as int {
                        assert(found);
                        assert(m == NodeId {
                            index: i,
                            generation: self.storage@[i as int].generation,
                        });
                        assert(out@[out@.len() - 1] == m);
                    } else {
                        assert(prev.contains(m));
                        let j = choose|j: int| 0 <= j < prev.len() && prev[j] == m;
                        assert(out@[j] == m);
                    }
                }
            }
            i = i + 1;
        }
        out
    }
}


/// The nodes a widget spawns under itself on insertion.
pub open spec fn spec_spawn_list(w: Widget) -> Seq<Node> {
    match w {
        Widget::Group(g) => g.children@,
        _ => Seq::empty(),
    }
}

/// How a stored widget relates to the widget a node was inserted with: a
/// group's children have been moved into the tree, anything else is stored
/// as it came.
pub open spec fn spec_drained(w0: Widget, w1: Widget) -> bool {
    match w0 {
        Widget::Group(_) => match w1 {
            Widget::Group(g1) => g1.children@.len() == 0,
            _ => false,
        },
        _ => w1 == w0,
    }
}

/// Splits a widget into the form stored in the tree and the nodes it spawns.
fn split_widget(w: Widget) -> (r: (Widget, Vec<Node>))
    ensures
        spec_drained(w, r.0),
        r.1@ == spec_spawn_list(w),
{
    match w {
        Widget::Group(g) => (Widget::Group(Group { children: Vec::new() }), g.children),
        other => (other, Vec::new()),
    }
}

impl Gewy {
    /// The slot-level relation between a tree and the same tree after one
    /// node was allocated at `id` and linked as the last child of
    /// `parent_id`.
    spec fn linked_from(self, pre: Gewy, parent_id: NodeId, id: NodeId) -> bool {
        let pi = parent_id.index as int;
        let ni = id.index as int;
        &&& self.root_id == pre.root_id
        &&& self.next_stamp@ == pre.next_stamp@ + 1
        &&& ni < self.storage@.len()
        &&& pi < self.storage@.len()
        &&& ni != pi
        &&& (self.storage@.len() == pre.storage@.len() || (self.storage@.len() == pre.storage@.len()
            + 1 && ni == pre.storage@.len()))
        &&& forall|i: int|
            0 <= i < self.storage@.len() && i != ni && i != pi ==> #[trigger] self.storage@[i]
                == pre.storage@[i]
        &&& (ni < pre.storage@.len() ==> pre.storage@[ni].node is None)
        &&& self.storage@[ni].generation == id.generation
        &&& self.storage@[ni].node is Some
        &&& self.storage@[ni].node.unwrap().parent_id == Some(parent_id)
        &&& self.storage@[ni].node.unwrap().children_ids@.len() == 0
        &&& self.storage@[ni].node.unwrap().stamp@ == pre.next_stamp@
        &&& self.storage@[ni].node.unwrap().raw.in_range()
        &&& self.storage@[pi].generation == pre.storage@[pi].generation
        &&& self.storage@[pi].generation == parent_id.generation
        &&& self.storage@[pi].node is Some
        &&& pre.storage@[pi].node is Some
        &&& self.storage@[pi].node.unwrap() == (Node {
            children_ids: self.storage@[pi].node.unwrap().children_ids,
            ..pre.storage@[pi].node.unwrap()
        })
        &&& self.storage@[pi].node.unwrap().children_ids@ == pre.storage@[pi].node.unwrap().children_ids@.push(
            id,
        )
        &&& self.free@.len() <= pre.free@.len()
        &&& (forall|k: int| 0 <= k < self.free@.len() ==> self.free@[k] == pre.free@[k])
        &&& (forall|k: int| 0 <= k < self.free@.len() ==> pre.free@[k] as int != ni)
    }

    /// Downward consistency survives one allocate-and-link step.
    #[verifier::spinoff_prover]
    proof fn lemma_link_down(pre: Gewy, cur: Gewy, parent_id: NodeId, id: NodeId)
        requires
            pre.wf_down(),
            pre.live(parent_id),
            !pre.live(id),
            cur.linked_from(pre, parent_id, id),
        ensures
            cur.wf_down(),
    {
        let pi = parent_id.index as int;
        let ni = id.index as int;
        assert(forall|i: int|
            cur.live_idx(i) && i != ni && i != pi ==> pre.live_idx(i) && #[trigger] cur.node_at(i)
                == pre.node_at(i) && cur.id_at(i) == pre.id_at(i));
        assert(forall|i: int|
            pre.live_idx(i) ==> cur.live_idx(i) && #[trigger] cur.id_at(i) == pre.id_at(i));
        assert(forall|m: NodeId| #![auto] pre.live(m) ==> cur.live(m));
        assert(forall|m: NodeId|
            #![auto]
            pre.live(m) && m.index as int != pi ==> cur.node_of(m) == pre.node_of(m));
        assert(cur.node_at(pi).stamp@ == pre.node_at(pi).stamp@);
        assert(forall|i: int|
            cur.live_idx(i) ==> (#[trigger] cur.node_at(i)).stamp@ < cur.next_stamp@);
        assert forall|i: int, k: int|
            #![trigger cur.node_at(i).children_ids@[k]]
            cur.live_idx(i) && 0 <= k < cur.node_at(i).children_ids@.len() implies {
            let c = cur.node_at(i).children_ids@[k];
            &&& cur.live(c)
            &&& cur.node_of(c).parent_id == Some(cur.id_at(i))
            &&& cur.node_of(c).stamp@ > cur.node_at(i).stamp@
        } by {
            if i == ni {
            } else if i == pi && k == cur.node_at(pi).children_ids@.len() - 1 {
                assert(cur.node_at(pi).children_ids@[k] == id);
                assert(cur.id_at(pi) == parent_id);
                assert(cur.node_of(id).stamp@ == pre.next_stamp@);
                assert(pre.node_at(pi).stamp@ < pre.next_stamp@);
            } else {
                assert(pre.live_idx(i));
                let c = pre.node_at(i).children_ids@[k];
                assert(cur.node_at(i).children_ids@[k] == c);
                assert(pre.live(c));
                assert(pre.node_of(c).parent_id == Some(pre.id_at(i)));
                assert(c.index as int != ni);
                assert(cur.node_of(c).parent_id == Some(cur.id_at(i)));
                assert(cur.node_of(c).stamp@ > cur.node_at(i).stamp@);
            }
        }
        assert forall|i: int, k1: int, k2: int|
            #![trigger cur.node_at(i).children_ids@[k1], cur.node_at(i).children_ids@[k2]]
            cur.live_idx(i) && 0 <= k1 < k2 < cur.node_at(i).children_ids@.len() implies
            cur.node_at(i).children_ids@[k1] != cur.node_at(i).children_ids@[k2] by {
            if i == pi {
                if k2 == cur.node_at(pi).children_ids@.len() - 1 {
                    let c1 = cur.node_at(pi).children_ids@[k1];
                    assert(c1 == pre.node_at(pi).children_ids@[k1]);
                    assert(pre.live(c1));
                    assert(cur.node_at(pi).children_ids@[k2] == id);
                } else {
                    assert(pre.node_at(pi).children_ids@[k1] != pre.node_at(pi).children_ids@[k2]);
                }
            } else if i != ni {
                assert(pre.live_idx(i));
                assert(pre.node_at(i).children_ids@[k1] != pre.node_at(i).children_ids@[k2]);
            }
        }
    }

    /// Upward consistency survives one allocate-and-link step.
    #[verifier::spinoff_prover]
    proof fn lemma_link_up(pre: Gewy, cur: Gewy, parent_id: NodeId, id: NodeId)
        requires
            pre.wf_down(),
            pre.wf_up(),
            pre.live(parent_id),
            !pre.live(id),
            cur.linked_from(pre, parent_id, id),
        ensures
            cur.wf_up(),
    {
        let pi = parent_id.index as int;
        let ni = id.index as int;
        assert(cur.root_id.index as int != ni);
        assert(cur.live(cur.root_id));
        assert(cur.node_of(cur.root_id).parent_id is None);
        assert(cur.node_of(cur.root_id).ancestor_id is None);
        assert forall|i: int|
            cur.live_idx(i) && (#[trigger] cur.node_at(i)).parent_id is None implies cur.id_at(i)
            == cur.root_id by {
            if i != ni {
                assert(pre.live_idx(i));
                if i == pi {
                    assert(pre.node_at(i).parent_id == cur.node_at(i).parent_id);
                }
                assert(pre.id_at(i) == pre.root_id);
            }
        }
        assert forall|i: int|
            cur.live_idx(i) && cur.id_at(i) != cur.root_id implies {
            let p = (#[trigger] cur.node_at(i)).parent_id;
            &&& p is Some
            &&& cur.live(p.unwrap())
            &&& cur.node_of(p.unwrap()).children_ids@.contains(cur.id_at(i))
        } by {
            if i == ni {
                assert(cur.node_at(ni).parent_id == Some(parent_id));
                assert(cur.live(parent_id));
                let ch = cur.node_of(parent_id).children_ids@;
                assert(ch[ch.len() - 1] == id);
                assert(cur.id_at(ni) == id);
                assert(ch.contains(cur.id_at(i)));
            } else {
                assert(pre.live_idx(i));
                if i == pi {
                    assert(pre.node_at(i).parent_id == cur.node_at(i).parent_id);
                }
                assert(pre.id_at(i) == cur.id_at(i));
                assert(pre.id_at(i) != pre.root_id);
                let p = pre.node_at(i).parent_id;
                assert(p is Some && pre.live(p.unwrap()));
                assert(cur.live(p.unwrap()));
                let ch0 = pre.node_of(p.unwrap()).children_ids@;
                assert(ch0.contains(pre.id_at(i)));
                let k = choose|k: int| 0 <= k < ch0.len() && ch0[k] == pre.id_at(i);
                let ch1 = cur.node_of(p.unwrap()).children_ids@;
                assert(ch1[k] == cur.id_at(i));
                assert(ch1.contains(cur.id_at(i)));
            }
        }
    }

    /// Allocates a node in a free slot (or a new one) and links it as the
    /// last child of `parent_id`.
    #[verifier::spinoff_prover]
    fn alloc_link(
        &mut self,
        parent_id: NodeId,
        ancestor_id: NodeId,
        widget: Widget,
        name: Option<Name>,
        style: Style,
    ) -> (id: NodeId)
        requires
            old(self).wf(),
            old(self).live(parent_id),
        ensures
            final(self).wf(),
            !old(self).live(id),
            final(self).live(id),
            final(self).node_of(id).widget == widget,
            final(self).node_of(id).name == name,
            final(self).node_of(id).style == style,
            final(self).node_of(id).children_ids@.len() == 0,
            final(self).node_of(id).parent_id == Some(parent_id),
            final(self).node_of(id).ancestor_id == Some(ancestor_id),
            final(self).node_of(id).raw == Raw::spec_default(),
            final(self).node_of(parent_id) == (Node {
                children_ids: final(self).node_of(parent_id).children_ids,
                ..old(self).node_of(parent_id)
            }),
            final(self).node_of(parent_id).children_ids@ == old(self).node_of(
                parent_id,
            ).children_ids@.push(id),
            forall|m: NodeId| #![auto] final(self).live(m) <==> old(self).live(m) || m == id,
            forall|m: NodeId|
                #![auto]
                old(self).live(m) && m != parent_id ==> final(self).node_of(m) == old(self).node_of(
                    m,
                ),
            final(self).spec_root() == old(self).spec_root(),
            final(self).spec_pressed() == old(self).spec_pressed(),
            final(self).spec_cursor() == old(self).spec_cursor(),
            final(self).spec_next_icon() == old(self).spec_next_icon(),
    {
        let ghost pre = *self;
        let node = Node {
            widget,
            name,
            style,
            children_ids: Vec::new(),
            parent_id: Some(parent_id),
            ancestor_id: Some(ancestor_id),
            raw: Raw::default(),
            stamp: Ghost(self.next_stamp@),
        };
        proof {
            self.next_stamp = Ghost(pre.next_stamp@ + 1);
            assert(Raw::spec_default().in_range());
        }

        // Place the node in a recycled slot or a fresh one.
        let id: NodeId = match self.free.pop() {
            Some(i) => {
                proof {
                    assert(pre.free@[pre.free@.len() - 1] == i);
                    assert((i as int) < pre.storage@.len() && !pre.live_idx(i as int));
                }
                let gen = self.storage[i].generation;
                let slot = &mut self.storage[i];
                slot.node = Some(node);
                NodeId { index: i, generation: gen }
            },
            None => {
                let i = self.storage.len();
                self.storage.push(Slot { node: Some(node), generation: 0 });
                NodeId { index: i, generation: 0 }
            },
        };
        proof {
            assert(id.index as int != parent_id.index as int) by {
                assert(pre.live_idx(parent_id.index as int));
            }
        }

        // Link it as the last child of the parent.
        let pslot = &mut self.storage[parent_id.index];
        match &mut pslot.node {
            Some(pn) => {
                pn.children_ids.push(id);
            },
            None => {},
        }
        proof {
            let pi = parent_id.index as int;
            let ni = id.index as int;
            assert(self.storage@[pi].node is Some);
            assert(self.storage@[pi].node.unwrap().children_ids@ == pre.storage@[pi].node.unwrap().children_ids@.push(
                id,
            ));
            assert forall|k: int| 0 <= k < self.free@.len() implies pre.free@[k] as int != ni by {
                if ni < pre.storage@.len() {
                    assert(pre.free@[pre.free@.len() - 1] == id.index);
                } else {
                    assert(!pre.live_idx(pre.free@[k] as int) && pre.free@[k] < pre.storage@.len());
                }
            }
            assert(self.linked_from(pre, parent_id, id));
            Self::lemma_link_down(pre, *self, parent_id, id);
            Self::lemma_link_up(pre, *self, parent_id, id);
            assert(self.wf_mem()) by {
                assert(forall|k: int|
                    0 <= k < self.free@.len() ==> self.free@[k] == pre.free@[k] && (
                    #[trigger] self.free@[k]) < pre.storage@.len() && !pre.live_idx(
                        self.free@[k] as int,
                    ));
                assert(forall|k: int|
                    0 <= k < self.free@.len() ==> !self.live_idx(#[trigger] self.free@[k] as int));
            }
            assert(self.wf_raws()) by {
                assert(forall|i: int|
                    self.live_idx(i) && i != ni && i != pi ==> #[trigger] self.node_at(i)
                        == pre.node_at(i) && pre.live_idx(i));
                assert(self.node_at(pi).raw == pre.node_at(pi).raw);
            }
            assert(forall|m: NodeId| #![auto] self.live(m) <==> pre.live(m) || m == id);
            assert(forall|m: NodeId|
                #![auto]
                pre.live(m) && m != parent_id ==> self.node_of(m) == pre.node_of(m));
        }
        id
    }
    /// Inserts the spawned descendants of `parent`. Every node of `nodes` is
    /// linked directly under `parent`, in order, with `parent` as its
    /// ancestor; their own spawned subtrees follow depth-first, each node
    /// under its spawning node. The deeper levels together may insert at most
    /// [`SPAWN_LIMIT`] nodes; beyond that they are dropped, a best-effort cap
    /// that keeps the traversal finite. The direct level is never capped.
    fn spawn_under(&mut self, parent: NodeId, nodes: Vec<Node>)
        requires
            old(self).wf(),
            old(self).live(parent),
        ensures
            final(self).wf(),
            forall|m: NodeId| #![auto] old(self).live(m) ==> final(self).live(m),
            forall|m: NodeId|
                #![auto]
                old(self).live(m) && m != parent ==> final(self).node_of(m) == old(self).node_of(
                    m,
                ),
            final(self).node_of(parent) == (Node {
                children_ids: final(self).node_of(parent).children_ids,
                ..old(self).node_of(parent)
            }),
            final(self).node_of(parent).children_ids@.len() == old(self).node_of(
                parent,
            ).children_ids@.len() + nodes@.len(),
            forall|k: int|
                #![trigger old(self).node_of(parent).children_ids@[k]]
                0 <= k < old(self).node_of(parent).children_ids@.len() ==> final(self).node_of(
                    parent,
                ).children_ids@[k] == old(self).node_of(parent).children_ids@[k],
            forall|k: int|
                #![trigger nodes@[k]]
                0 <= k < nodes@.len() ==> ({
                    let c = final(self).node_of(parent).children_ids@[old(self).node_of(
                        parent,
                    ).children_ids@.len() + k];
                    &&& final(self).live(c)
                    &&& !old(self).live(c)
                    &&& final(self).node_of(c).name == nodes@[k].name
                    &&& final(self).node_of(c).style == nodes@[k].style
                    &&& spec_drained(nodes@[k].widget, final(self).node_of(c).widget)
                    &&& final(self).node_of(c).parent_id == Some(parent)
                    &&& final(self).node_of(c).ancestor_id == Some(parent)
                }),
            nodes@.len() == 0 ==> *final(self) == *old(self),
            final(self).spec_root() == old(self).spec_root(),
            final(self).spec_pressed() == old(self).spec_pressed(),
            final(self).spec_cursor() == old(self).spec_cursor(),
            final(self).spec_next_icon() == old(self).spec_next_icon(),
    {
        let ghost pre = *self;
        if nodes.len() == 0 {
            return ;
        }
        let ghost nodes0 = nodes@;
        let ghost ch0 = pre.node_of(parent).children_ids@;

        // First level: link every spawned node directly under the parent.
        let mut nodes = nodes;
        let mut pending: Vec<(NodeId, Vec<Node>)> = Vec::new();
        let mut done: usize = 0;
        while nodes.len() > 0
            invariant
                self.wf(),
                pre.wf(),
                pre.live(parent),
                done + nodes@.len() == nodes0.len(),
                nodes0.len() <= usize::MAX,
                nodes@ =~= nodes0.skip(done as int),
                self.live(parent),
                self.node_of(parent) == (Node {
                    children_ids: self.node_of(parent).children_ids,
                    ..pre.node_of(parent)
                }),
                self.node_of(parent).children_ids@.len() == ch0.len() + done,
                forall|k: int|
                    #![trigger ch0[k]]
                    0 <= k < ch0.len() ==> self.node_of(parent).children_ids@[k] == ch0[k],
                forall|k: int|
                    #![trigger nodes0[k]]
                    0 <= k < done ==> ({
                        let c = self.node_of(parent).children_ids@[ch0.len() + k];
                        &&& self.live(c)
                        &&& !pre.live(c)
                        &&& self.node_of(c).name == nodes0[k].name
                        &&& self.node_of(c).style == nodes0[k].style
                        &&& spec_drained(nodes0[k].widget, self.node_of(c).widget)
                        &&& self.node_of(c).parent_id == Some(parent)
                        &&& self.node_of(c).ancestor_id == Some(parent)
                    }),
                forall|m: NodeId| #![auto] pre.live(m) ==> self.live(m),
                forall|m: NodeId|
                    #![auto]
                    pre.live(m) && m != parent ==> self.node_of(m) == pre.node_of(m),
                forall|q: int|
                    0 <= q < pending@.len() ==> self.live((#[trigger] pending@[q]).0) && !pre.live(
                        pending@[q].0,
                    ) && pending@[q].0 != parent,
                self.spec_root() == pre.spec_root(),
                self.spec_pressed() == pre.spec_pressed(),
                self.spec_cursor() == pre.spec_cursor(),
                self.spec_next_icon() == pre.spec_next_icon(),
            decreases nodes@.len(),
        {
            let ghost nodes_before = nodes@;
            let node = nodes.remove(0);
            proof {
                assert(node == nodes0[done as int]);
                assert(nodes@ =~= nodes0.skip(done + 1));
            }
            let Node { widget, name, style, .. } = node;
            let (stored, spawn) = split_widget(widget);
            let ghost before = *self;
            let cid = self.alloc_link(parent, parent, stored, name, style);
            proof {
                assert(!pre.live(cid));
                assert(cid != parent);
                let chb = before.node_of(parent).children_ids@;
                let chn = self.node_of(parent).children_ids@;
                assert(chn == chb.push(cid));
                assert(forall|k: int| 0 <= k < chb.len() ==> chn[k] == chb[k]);
                assert(chn[ch0.len() + done] == cid);
                assert(self.node_of(cid).name == nodes0[done as int].name);
                assert(self.node_of(cid).style == nodes0[done as int].style);
                assert(spec_drained(nodes0[done as int].widget, self.node_of(cid).widget));
                assert forall|k: int| #![trigger nodes0[k]] 0 <= k < done + 1 implies ({
                    let c = self.node_of(parent).children_ids@[ch0.len() + k];
                    &&& self.live(c)
                    &&& !pre.live(c)
                    &&& self.node_of(c).name == nodes0[k].name
                    &&& self.node_of(c).style == nodes0[k].style
                    &&& spec_drained(nodes0[k].widget, self.node_of(c).widget)
                    &&& self.node_of(c).parent_id == Some(parent)
                    &&& self.node_of(c).ancestor_id == Some(parent)
                }) by {
                    if k < done {
                        let c = chb[ch0.len() + k];
                        assert(before.live(c) && c != parent);
                        assert(self.node_of(c) == before.node_of(c));
                        assert(self.node_of(parent).children_ids@[ch0.len() + k] == c);
                    }
                }
                assert(self.node_of(parent) == (Node {
                    children_ids: self.node_of(parent).children_ids,
                    ..pre.node_of(parent)
                }));
                assert(forall|q: int|
                    0 <= q < pending@.len() ==> self.live((#[trigger] pending@[q]).0));
            }
            if spawn.len() > 0 {
                pending.push((cid, spawn));
            }
            done = done + 1;
        }
        let ghost base1 = *self;
        proof {
            assert(nodes0.skip(nodes0.len() as int) =~= Seq::<Node>::empty());
            assert(done == nodes0.len());
        }

        // Deeper levels: a depth-first worklist, capped by fuel.
        let mut stack: Vec<(NodeId, Vec<Node>)> = pending;
        let mut fuel: usize = SPAWN_LIMIT;
        while fuel > 0 && stack.len() > 0
            invariant
                self.wf(),
                base1.wf(),
                base1.live(parent),
                pre.live(parent),
                forall|q: int|
                    0 <= q < stack@.len() ==> self.live((#[trigger] stack@[q]).0) && !pre.live(
                        stack@[q].0,
                    ) && stack@[q].0 != parent,
                forall|m: NodeId| #![auto] base1.live(m) ==> self.live(m),
                forall|m: NodeId| #![auto] pre.live(m) ==> base1.live(m),
                forall|m: NodeId|
                    #![auto]
                    base1.live(m) ==> self.node_of(m) == (Node {
                        children_ids: self.node_of(m).children_ids,
                        ..base1.node_of(m)
                    }),
                self.node_of(parent) == base1.node_of(parent),
                forall|m: NodeId|
                    #![auto]
                    pre.live(m) && m != parent ==> self.node_of(m) == pre.node_of(m),
                self.spec_root() == base1.spec_root(),
                self.spec_pressed() == base1.spec_pressed(),
                self.spec_cursor() == base1.spec_cursor(),
                self.spec_next_icon() == base1.spec_next_icon(),
            decreases fuel,
        {
            fuel = fuel - 1;
            let item = stack.pop();
            let (p, mut ns) = match item {
                Some(pair) => pair,
                None => { break },
            };
            if ns.len() == 0 {
                continue ;
            }
            let node = ns.remove(0);
            let has_more = ns.len() > 0;
            if has_more {
                stack.push((p, ns));
            }
            let Node { widget, name, style, .. } = node;
            let (stored, spawn) = split_widget(widget);
            let ghost before = *self;
            let cid = self.alloc_link(p, p, stored, name, style);
            proof {
                assert(forall|q: int|
                    0 <= q < stack@.len() ==> self.live((#[trigger] stack@[q]).0));
                assert(!pre.live(cid));
                assert(!base1.live(cid)) by {
                    assert(!before.live(cid));
                }
                assert(parent != p);
                assert(self.node_of(parent) == before.node_of(parent));
                assert forall|m: NodeId| #![auto] base1.live(m) implies self.node_of(m) == (Node {
                    children_ids: self.node_of(m).children_ids,
                    ..base1.node_of(m)
                }) by {
                    if m != p {
                        assert(self.node_of(m) == before.node_of(m));
                    } else {
                        assert(self.node_of(p) == (Node {
                            children_ids: self.node_of(p).children_ids,
                            ..before.node_of(p)
                        }));
                    }
                }
            }
            if spawn.len() > 0 {
                stack.push((cid, spawn));
            }
        }
        proof {
            assert(self.node_of(parent).children_ids@ == base1.node_of(parent).children_ids@);
            assert forall|k: int| #![trigger nodes0[k]] 0 <= k < nodes0.len() implies ({
                let c = self.node_of(parent).children_ids@[ch0.len() + k];
                &&& self.live(c)
                &&& !pre.live(c)
                &&& self.node_of(c).name == nodes0[k].name
                &&& self.node_of(c).style == nodes0[k].style
                &&& spec_drained(nodes0[k].widget, self.node_of(c).widget)
                &&& self.node_of(c).parent_id == Some(parent)
                &&& self.node_of(c).ancestor_id == Some(parent)
            }) by {
                let c = base1.node_of(parent).children_ids@[ch0.len() + k];
                assert(base1.live(c));
                assert(self.node_of(c) == (Node {
                    children_ids: self.node_of(c).children_ids,
                    ..base1.node_of(c)
                }));
            }
        }
    }

    /// Inserts `node` as the last child of `parent_id`, with `ancestor_id`
    /// recorded as the subtree it belongs to, then spawns the node's own
    /// descendants (a group widget's children) under it. Fails, changing
    /// nothing, exactly when the parent does not exist.
    pub fn insert_with_ancestor(
        &mut self,
        parent_id: NodeId,
        ancestor_id: NodeId,
        node: Node,
    ) -> (r: Result<NodeId, GewyError>)
        requires
            old(self).wf(),
        ensures
            final(self).wf(),
            r is Err <==> !old(self).live(parent_id),
            r is Err ==> r == Result::<NodeId, GewyError>::Err(GewyError::ParentNodeNotFound)
                && *final(self) == *old(self),
            r is Ok ==> ({
                let id = r->Ok_0;
                &&& !old(self).live(id)
                &&& final(self).live(id)
                &&& spec_drained(node.widget, final(self).node_of(id).widget)
                &&& final(self).node_of(id).name == node.name
                &&& final(self).node_of(id).style == node.style
                &&& final(self).node_of(id).parent_id == Some(parent_id)
                &&& final(self).node_of(id).ancestor_id == Some(ancestor_id)
                &&& final(self).node_of(parent_id) == (Node {
                    children_ids: final(self).node_of(parent_id).children_ids,
                    ..old(self).node_of(parent_id)
                })
                &&& final(self).node_of(parent_id).children_ids@ == old(self).node_of(
                    parent_id,
                ).children_ids@.push(id)
                &&& forall|m: NodeId| #![auto] old(self).live(m) ==> final(self).live(m)
                &&& forall|m: NodeId|
                    #![auto]
                    old(self).live(m) && m != parent_id ==> final(self).node_of(m) == old(
                        self,
                    ).node_of(m)
                &&& final(self).node_of(id).children_ids@.len() == spec_spawn_list(
                    node.widget,
                ).len()
                &&& forall|k: int|
                    #![trigger spec_spawn_list(node.widget)[k]]
                    0 <= k < spec_spawn_list(node.widget).len() ==> ({
                        let c = final(self).node_of(id).children_ids@[k];
                        let sn = spec_spawn_list(node.widget)[k];
                        &&& final(self).live(c)
                        &&& !old(self).live(c)
                        &&& final(self).node_of(c).name == sn.name
                        &&& final(self).node_of(c).style == sn.style
                        &&& spec_drained(sn.widget, final(self).node_of(c).widget)
                        &&& final(self).node_of(c).parent_id == Some(id)
                        &&& final(self).node_of(c).ancestor_id == Some(id)
                    })
                &&& (spec_spawn_list(node.widget).len() == 0 ==> (forall|m: NodeId|
                    #![auto]
                    final(self).live(m) <==> old(self).live(m) || m == id))
            }),
            final(self).spec_root() == old(self).spec_root(),
            final(self).spec_pressed() == old(self).spec_pressed(),
            final(self).spec_cursor() == old(self).spec_cursor(),
            final(self).spec_next_icon() == old(self).spec_next_icon(),
    {
        if !self.contains_id(parent_id) {
            return Err(GewyError::ParentNodeNotFound);
        }
        let Node { widget, name, style, .. } = node;
        let (stored, spawn) = split_widget(widget);
        let id = self.alloc_link(parent_id, ancestor_id, stored, name, style);
        proof {
            assert(id != parent_id);
        }
        self.spawn_under(id, spawn);
        Ok(id)
    }

    /// Inserts `node` as the last child of `parent_id`; the new node's
    /// ancestor is its parent. Returns the id of the node inserted, or
    /// `ParentNodeNotFound`, changing nothing, when the parent does not
    /// exist.
    pub fn insert(&mut self, parent_id: NodeId, node: Node) -> (r: Result<NodeId, GewyError>)
        requires
            old(self).wf(),
        ensures
            final(self).wf(),
            r is Err <==> !old(self).live(parent_id),
            r is Err ==> r == Result::<NodeId, GewyError>::Err(GewyError::ParentNodeNotFound)
                && *final(self) == *old(self),
            r is Ok ==> ({
                let id = r->Ok_0;
                &&& !old(self).live(id)
                &&& final(self).live(id)
                &&& spec_drained(node.widget, final(self).node_of(id).widget)
                &&& final(self).node_of(id).name == node.name
                &&& final(self).node_of(id).style == node.style
                &&& final(self).node_of(id).parent_id == Some(parent_id)
                &&& final(self).node_of(id).ancestor_id == Some(parent_id)
                &&& final(self).node_of(parent_id) == (Node {
                    children_ids: final(self).node_of(parent_id).children_ids,
                    ..old(self).node_of(parent_id)
                })
                &&& final(self).node_of(parent_id).children_ids@ == old(self).node_of(
                    parent_id,
                ).children_ids@.push(id)
                &&& forall|m: NodeId| #![auto] old(self).live(m) ==> final(self).live(m)
                &&& forall|m: NodeId|
                    #![auto]
                    old(self).live(m) && m != parent_id ==> final(self).node_of(m) == old(
                        self,
                    ).node_of(m)
                &&& final(self).node_of(id).children_ids@.len() == spec_spawn_list(
                    node.widget,
                ).len()
                &&& forall|k: int|
                    #![trigger spec_spawn_list(node.widget)[k]]
                    0 <= k < spec_spawn_list(node.widget).len() ==> ({
                        let c = final(self).node_of(id).children_ids@[k];
                        let sn = spec_spawn_list(node.widget)[k];
                        &&& final(self).live(c)
                        &&& !old(self).live(c)
                        &&& final(self).node_of(c).name == sn.name
                        &&& final(self).node_of(c).style == sn.style
                        &&& spec_drained(sn.widget, final(self).node_of(c).widget)
                        &&& final(self).node_of(c).parent_id == Some(id)
                        &&& final(self).node_of(c).ancestor_id == Some(id)
                    })
                &&& (spec_spawn_list(node.widget).len() == 0 ==> (forall|m: NodeId|
                    #![auto]
                    final(self).live(m) <==> old(self).live(m) || m == id))
            }),
            final(self).spec_root() == old(self).spec_root(),
            final(self).spec_pressed() == old(self).spec_pressed(),
            final(self).spec_cursor() == old(self).spec_cursor(),
            final(self).spec_next_icon() == old(self).spec_next_icon(),
    {
        self.insert_with_ancestor(parent_id, parent_id, node)
    }

    /// Creates a tree holding the given root node, then spawns the root
    /// widget's own descendants, so a freshly constructed tree already
    /// contains its static subtree. The root's id is read with
    /// [`Gewy::root_id`].
    pub fn new(root_node: Node) -> (g: Gewy)
        ensures
            g.wf(),
            g.live(g.spec_root()),
            spec_drained(root_node.widget, g.node_of(g.spec_root()).widget),
            g.node_of(g.spec_root()).name == root_node.name,
            g.node_of(g.spec_root()).style == root_node.style,
            g.node_of(g.spec_root()).parent_id is None,
            g.node_of(g.spec_root()).ancestor_id is None,
            g.spec_pressed() is None,
            g.spec_next_icon() is None,
            g.node_of(g.spec_root()).children_ids@.len() == spec_spawn_list(
                root_node.widget,
            ).len(),
            forall|k: int|
                #![trigger spec_spawn_list(root_node.widget)[k]]
                0 <= k < spec_spawn_list(root_node.widget).len() ==> ({
                    let c = g.node_of(g.spec_root()).children_ids@[k];
                    let sn = spec_spawn_list(root_node.widget)[k];
                    &&& g.live(c)
                    &&& g.node_of(c).name == sn.name
                    &&& g.node_of(c).style == sn.style
                    &&& spec_drained(sn.widget, g.node_of(c).widget)
                    &&& g.node_of(c).parent_id == Some(g.spec_root())
                    &&& g.node_of(c).ancestor_id == Some(g.spec_root())
                }),
            spec_spawn_list(root_node.widget).len() == 0 ==> (forall|m: NodeId|
                #![auto]
                g.live(m) <==> m == g.spec_root()),
    {
        let Node { widget, name, style, .. } = root_node;
        let (stored, spawn) = split_widget(widget);
        let root = Node {
            widget: stored,
            name,
            style,
            children_ids: Vec::new(),
            parent_id: None,
            ancestor_id: None,
            raw: Raw::default(),
            stamp: Ghost(0),
        };
        let mut storage: Vec<Slot> = Vec::new();
        storage.push(Slot { node: Some(root), generation: 0 });
        let root_id = NodeId { index: 0, generation: 0 };
        let mut g = Gewy {
            storage,
            free: Vec::new(),
            root_id,
            pressed_id: None,
            cursor: crate::input::Cursor {
                position: crate::math::Vec2 { x: 0, y: 0 },
                left_pressed: false,
                right_pressed: false,
            },
            next_cursor_icon: None,
            next_stamp: Ghost(1),
        };
        proof {
            assert(g.live(root_id));
            assert(Raw::spec_default().in_range());
            assert(g.wf_down());
            assert(g.wf_up());
            assert(g.wf_mem());
            assert(g.wf_raws());
        }
        g.spawn_under(root_id, spawn);
        g
    }
}



impl Gewy {
    /// Writes a node's layout record, as a layout pass does. The values must
    /// lie within the representable layout range.
    #[verifier::spinoff_prover]
    pub fn set_raw(&mut self, node_id: NodeId, raw: Raw) -> (r: Result<(), GewyError>)
        requires
            old(self).wf(),
            raw.in_range(),
        ensures
            final(self).wf(),
            !old(self).live(node_id) ==> r == Result::<(), GewyError>::Err(
                GewyError::NodeNotFound,
            ) && *final(self) == *old(self),
            old(self).live(node_id) ==> r is Ok && final(self).node_of(node_id) == (Node {
                raw,
                ..old(self).node_of(node_id)
            }) && forall|m: NodeId|
                #![auto]
                m != node_id ==> final(self).live(m) == old(self).live(m) && (old(self).live(m)
                    ==> final(self).node_of(m) == old(self).node_of(m)),
            forall|m: NodeId| #![auto] final(self).live(m) == old(self).live(m),
            final(self).spec_root() == old(self).spec_root(),
            final(self).spec_pressed() == old(self).spec_pressed(),
    {
        if !self.contains_id(node_id) {
            return Err(GewyError::NodeNotFound);
        }
        let ghost pre = *self;
        let slot = &mut self.storage[node_id.index];
        match &mut slot.node {
            Some(n) => {
                n.raw = raw;
            },
            None => {},
        }
        proof {
            let i0 = node_id.index as int;
            assert(self.storage@ =~= pre.storage@.update(i0, self.storage@[i0]));
            assert(self.node_of(node_id) == (Node { raw, ..pre.node_of(node_id) }));
            assert(forall|i: int| self.live_idx(i) == pre.live_idx(i));
            assert(forall|i: int|
                self.live_idx(i) && i != i0 ==> #[trigger] self.node_at(i) == pre.node_at(i)
                    && self.id_at(i) == pre.id_at(i));
            assert(forall|m: NodeId| #![auto] self.live(m) == pre.live(m));
            assert(forall|m: NodeId|
                #![auto]
                m != node_id && self.live(m) ==> self.node_of(m) == pre.node_of(m));
            assert(self.wf_down());
            assert(self.wf_up());
            assert(self.wf_mem());
            assert(self.wf_raws());
        }
        Ok(())
    }

    /// The node the hit-test selects under `id`: the first hit of a
    /// depth-first search that tries the children from the last to the first
    /// (so of overlapping siblings the one drawn on top wins), and the node
    /// itself only after all of its children, and only if its own padding
    /// region contains the position.
    pub closed spec fn spec_touching(self, id: NodeId, position: crate::math::Vec2) -> Option<
        NodeId,
    >
        decreases self.spec_next_stamp() - self.stamp_of(id), 1nat, 0nat
            when self.wf_down() && self.live(id) && self.stamp_of(id) < self.spec_next_stamp()
    {
        let hit = self.spec_touch_kids(id, self.node_of(id).children_ids@.len() as int, position);
        if hit is Some {
            hit
        } else if self.node_of(id).raw.spec_padding_region().spec_contains(position) {
            Some(id)
        } else {
            None
        }
    }

    /// The first hit among the children of `id` at positions below `k`,
    /// tried from position `k - 1` downward.
    pub closed spec fn spec_touch_kids(self, id: NodeId, k: int, position: crate::math::Vec2) -> Option<
        NodeId,
    >
        decreases self.spec_next_stamp() - self.stamp_of(id), 0nat, k
            when self.wf_down() && self.live(id) && self.stamp_of(id) < self.spec_next_stamp() && k
                <= self.node_of(id).children_ids@.len()
    {
        if k <= 0 {
            None
        } else {
            let c = self.node_of(id).children_ids@[k - 1];
            proof {
                assert(self.wf_down());
                let i0 = id.index as int;
                assert(self.live_idx(i0));
                assert(self.node_at(i0) == self.node_of(id));
                assert(0 <= k - 1 < self.node_at(i0).children_ids@.len());
                assert({
                    let cc = self.node_at(i0).children_ids@[k - 1];
                    &&& self.live(cc)
                    &&& self.node_of(cc).stamp@ > self.node_at(i0).stamp@
                });
                assert(self.node_at(i0).children_ids@[k - 1] == c);
                assert(self.live(c));
                assert(self.node_of(c).stamp@ > self.node_of(id).stamp@);
                assert(self.live_idx(c.index as int));
                assert(self.node_at(c.index as int) == self.node_of(c));
                assert(self.node_of(c).stamp@ < self.next_stamp@);
                assert(self.spec_next_stamp() - self.stamp_of(c) < self.spec_next_stamp()
                    - self.stamp_of(id));
            }
            let hit = self.spec_touching(c, position);
            if hit is Some {
                hit
            } else {
                self.spec_touch_kids(id, k - 1, position)
            }
        }
    }

    /// The id of the topmost node touching `position`: exactly the result of
    /// the depth-first, last-child-first search from the root
    /// ([`Gewy::spec_touching`]); a returned node is live and its padding
    /// region contains the position.
    pub fn get_touching_id(&self, position: crate::math::Vec2) -> (r: Option<NodeId>)
        requires
            self.wf(),
        ensures
            r == self.spec_touching(self.spec_root(), position),
            r is Some ==> self.live(r.unwrap()) && self.node_of(
                r.unwrap(),
            ).raw.spec_padding_region().spec_contains(position),
            r is None ==> !self.node_of(self.spec_root()).raw.spec_padding_region().spec_contains(
                position,
            ),
    {
        self.node_touching(self.root_id, position)
    }

    /// Hit-tests the subtree under `node_id`.
    fn node_touching(&self, node_id: NodeId, position: crate::math::Vec2) -> (r: Option<NodeId>)
        requires
            self.wf(),
            self.live(node_id),
        ensures
            r == self.spec_touching(node_id, position),
            r is Some ==> self.live(r.unwrap()) && self.node_of(
                r.unwrap(),
            ).raw.spec_padding_region().spec_contains(position),
            r is None ==> !self.node_of(node_id).raw.spec_padding_region().spec_contains(position),
        decreases self.next_stamp@ - self.stamp_of(node_id),
    {
        proof {
            assert(self.live_idx(node_id.index as int));
            assert(self.node_at(node_id.index as int) == self.node_of(node_id));
            assert(self.stamp_of(node_id) < self.next_stamp@);
        }
        let cn = match &self.storage[node_id.index].node {
            Some(n) => n.children_ids.len(),
            None => 0,
        };
        let mut k: usize = cn;
        while k > 0
            invariant
                self.wf(),
                self.live(node_id),
                self.stamp_of(node_id) < self.next_stamp@,
                cn == self.node_of(node_id).children_ids@.len(),
                0 <= k <= cn,
                self.spec_touch_kids(node_id, cn as int, position) == self.spec_touch_kids(
                    node_id,
                    k as int,
                    position,
                ),
            decreases k,
        {
            k = k - 1;
            let child = match &self.storage[node_id.index].node {
                Some(n) => n.children_ids[k],
                None => {
                    proof {
                        assert(false);
                    }
                    NodeId { index: 0, generation: 0 }
                },
            };
            proof {
                let i0 = node_id.index as int;
                assert(self.node_at(i0) == self.node_of(node_id));
                assert(self.node_at(i0).children_ids@[k as int] == child);
                assert(self.live(child));
                assert(self.node_of(child).stamp@ > self.node_of(node_id).stamp@);
                assert(self.live_idx(child.index as int));
                assert(self.node_at(child.index as int) == self.node_of(child));
                assert(self.node_of(child).stamp@ < self.next_stamp@);
                assert(self.next_stamp@ - self.stamp_of(child) < self.next_stamp@
                    - self.stamp_of(node_id));
            }
            let hit = self.node_touching(child, position);
            proof {
                assert(self.spec_touch_kids(node_id, k + 1, position) == (if self.spec_touching(
                    child,
                    position,
                ) is Some {
                    self.spec_touching(child, position)
                } else {
                    self.spec_touch_kids(node_id, k as int, position)
                }));
            }
            if hit.is_some() {
                proof {
                    assert(self.spec_touch_kids(node_id, cn as int, position) == hit);
                    assert(self.spec_touching(node_id, position) == hit);
                }
                return hit;
            }
        }
        proof {
            assert(self.wf_down());
            assert(self.live(node_id));
            assert(self.stamp_of(node_id) < self.spec_next_stamp());
            assert(0 <= self.node_of(node_id).children_ids@.len());
            reveal_with_fuel(Gewy::spec_touch_kids, 2);
            assert(self.spec_touch_kids(node_id, 0, position) is None);
            assert(self.spec_touch_kids(node_id, cn as int, position) is None);
        }
        let region = match &self.storage[node_id.index].node {
            Some(n) => n.raw.padding_region(),
            None => { return None },
        };
        if region.contains(position) {
            Some(node_id)
        } else {
            None
        }
    }
}

impl crate::widget::Descendants {
    /// Inserts a node under this capability's parent; the node joins the
    /// capability's subtree (its ancestor). Returns a capability for building
    /// under the new node, still scoped to the same ancestor.
    pub fn insert(&self, gewy: &mut Gewy, node: Node) -> (r: Result<
        crate::widget::Descendants,
        GewyError,
    >)
        requires
            old(gewy).wf(),
        ensures
            final(gewy).wf(),
            r is Err <==> !old(gewy).live(self.parent_id),
            r is Err ==> *final(gewy) == *old(gewy),
            r is Ok ==> {
                let d = r->Ok_0;
                &&& d.ancestor_id == self.ancestor_id
                &&& final(gewy).live(d.parent_id)
                &&& final(gewy).node_of(d.parent_id).parent_id == Some(self.parent_id)
                &&& final(gewy).node_of(d.parent_id).ancestor_id == Some(self.ancestor_id)
            },
    {
        match gewy.insert_with_ancestor(self.parent_id, self.ancestor_id, node) {
            Ok(id) => Ok(crate::widget::Descendants {
                ancestor_id: self.ancestor_id,
                parent_id: id,
            }),
            Err(e) => Err(e),
        }
    }

    /// Inserts a node which becomes the ancestor of everything built under
    /// the returned capability.
    pub fn insert_ancestor(&self, gewy: &mut Gewy, node: Node) -> (r: Result<
        crate::widget::Descendants,
        GewyError,
    >)
        requires
            old(gewy).wf(),
        ensures
            final(gewy).wf(),
            r is Err <==> !old(gewy).live(self.parent_id),
            r is Err ==> *final(gewy) == *old(gewy),
            r is Ok ==> {
                let d = r->Ok_0;
                &&& d.ancestor_id == d.parent_id
                &&& final(gewy).live(d.parent_id)
                &&& final(gewy).node_of(d.parent_id).parent_id == Some(self.parent_id)
                &&& final(gewy).node_of(d.parent_id).ancestor_id == Some(self.ancestor_id)
            },
    {
        match gewy.insert_with_ancestor(self.parent_id, self.ancestor_id, node) {
            Ok(id) => Ok(crate::widget::Descendants { ancestor_id: id, parent_id: id }),
            Err(e) => Err(e),
        }
    }
}




} // verus!
