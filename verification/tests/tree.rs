use gewy::Gewy;
use gewy::Raw;
use gewy::RawCorners;
use gewy::RawSides;
use gewy::Rect;
use gewy::Vec2;
use gewy::GewyError;
use gewy::Group;
use gewy::Node;
use gewy::NodeId;
use gewy::Widget;

#[test]
fn gewy_test_insert() {
    let mut gewy = Gewy::new(Node::default());
    let root_id = gewy.root_id();
    let child_1_id = gewy.insert(root_id, Node::default()).unwrap();
    let child_2_id = gewy.insert(root_id, Node::default()).unwrap();

    let root = gewy.get(root_id).unwrap();
    assert_eq!(2, root.children().len());

    let child_1 = gewy.get(child_1_id).unwrap();
    assert_eq!(0, child_1.children().len());
    assert_eq!(Some(root_id), child_1.parent());

    let child_2 = gewy.get(child_2_id).unwrap();
    assert_eq!(0, child_2.children().len());
    assert_eq!(Some(root_id), child_2.parent());
}

#[test]
fn gui_test_insert() {
    let mut gui = Gewy::new(Node::default());
    let root_id = gui.root_id();
    let child_1_id = gui.insert(root_id, Node::default()).unwrap();
    let child_2_id = gui.insert(root_id, Node::default()).unwrap();

    let root = gui.get(root_id).unwrap();
    assert_eq!(2, root.children().len());

    let child_1 = gui.get(child_1_id).unwrap();
    assert_eq!(0, child_1.children().len());
    assert_eq!(Some(root_id), child_1.parent());

    let child_2 = gui.get(child_2_id).unwrap();
    assert_eq!(0, child_2.children().len());
    assert_eq!(Some(root_id), child_2.parent());
}

#[test]
fn insert_missing_parent_is_rolled_back() {
    let mut gewy = Gewy::new(Node::default());
    let root_id = gewy.root_id();
    let stale = NodeId::default();
    let r = gewy.insert(stale, Node::default());
    assert_eq!(Err(GewyError::ParentNodeNotFound), r.map(|_| ()));
    let root = gewy.get(root_id).unwrap();
    assert_eq!(0, root.children().len());
}

#[test]
fn get_unknown_id_fails() {
    let gewy = Gewy::new(Node::default());
    let stale = NodeId::default();
    assert!(gewy.get(stale).is_err());
}

#[test]
fn group_widget_spawns_descendants() {
    let group = Widget::Group(Group {
        children: vec![Node::default().with_name(Some(7)), Node::default()],
    });
    let mut gewy = Gewy::new(Node::default());
    let root_id = gewy.root_id();
    let gid = gewy.insert(root_id, Node::new(group, gewy::Style::default())).unwrap();

    let gnode = gewy.get(gid).unwrap();
    assert_eq!(2, gnode.children().len());
    let c0 = gnode.children()[0];
    let c1 = gnode.children()[1];
    let n0 = gewy.get(c0).unwrap();
    assert_eq!(Some(gid), n0.parent());
    assert_eq!(Some(gid), n0.ancestor());
    assert_eq!(Some(7), n0.name());
    let n1 = gewy.get(c1).unwrap();
    assert_eq!(Some(gid), n1.parent());
    assert_eq!(None, n1.name());
}

#[test]
fn named_lookup_tracks_live_nodes() {
    let mut gewy = Gewy::new(Node::default());
    let root_id = gewy.root_id();
    let a = gewy.insert(root_id, Node::default().with_name(Some(3))).unwrap();
    let _b = gewy.insert(root_id, Node::default()).unwrap();
    let c = gewy.insert(root_id, Node::default().with_name(Some(3))).unwrap();

    let ids = gewy.ids_with_name(3);
    assert_eq!(2, ids.len());
    assert!(ids.contains(&a));
    assert!(ids.contains(&c));
    assert!(gewy.ids_with_name(9).is_empty());
}

#[test]
fn set_style_and_name() {
    let mut gewy = Gewy::new(Node::default());
    let root_id = gewy.root_id();
    let id = gewy.insert(root_id, Node::default()).unwrap();
    let mut style = gewy::Style::default();
    style.grow = 5;
    gewy.set_style(id, style).unwrap();
    assert_eq!(5, gewy.get(id).unwrap().style().grow);
    gewy.set_name(id, Some(11)).unwrap();
    assert_eq!(Some(11), gewy.get(id).unwrap().name());
}

#[test]
fn topmost_sibling_wins_hit_test() {
    let mut gewy = Gewy::new(Node::default());
    let root_id = gewy.root_id();
    let a = gewy.insert(root_id, Node::default()).unwrap();
    let b = gewy.insert(root_id, Node::default()).unwrap();
    let region = |x: i64, y: i64, w: i64, h: i64| Raw {
        region: Rect::new(Vec2::new(x, y), Vec2::new(w, h)),
        margin: RawSides::default(),
        padding: RawSides::default(),
        corners: RawCorners::default(),
        min_size: Vec2::new(0, 0),
        max_size: Vec2::new(0, 0),
    };
    gewy.set_raw(root_id, region(0, 0, 100, 100)).unwrap();
    // A was inserted first; B overlaps it and is drawn on top.
    gewy.set_raw(a, region(10, 10, 50, 50)).unwrap();
    gewy.set_raw(b, region(20, 20, 50, 50)).unwrap();

    assert_eq!(Some(b), gewy.get_touching_id(Vec2::new(30, 30)));
    assert_eq!(Some(a), gewy.get_touching_id(Vec2::new(12, 12)));
    assert_eq!(Some(root_id), gewy.get_touching_id(Vec2::new(90, 90)));
    assert_eq!(None, gewy.get_touching_id(Vec2::new(200, 200)));
}

#[test]
fn descendants_capability_builds_scoped_subtrees() {
    let mut gewy = Gewy::new(Node::default());
    let root_id = gewy.root_id();
    let d = gewy::Descendants::new(root_id);
    let child = d.insert(&mut gewy, Node::default()).unwrap();
    let grand = child.insert(&mut gewy, Node::default()).unwrap();
    // A plain insert keeps the original ancestor; the whole subtree is
    // scoped to the node the capability was rooted at.
    let g = gewy.get(grand.node_id()).unwrap();
    assert_eq!(Some(child.node_id()), g.parent());
    assert_eq!(Some(root_id), g.ancestor());
    // An ancestor insert starts a new scope: the node itself still belongs
    // to the old scope, but everything built under the returned capability
    // belongs to the new node.
    let scoped = child.insert_ancestor(&mut gewy, Node::default()).unwrap();
    let s = gewy.get(scoped.node_id()).unwrap();
    assert_eq!(Some(root_id), s.ancestor());
    let inner = scoped.insert(&mut gewy, Node::default()).unwrap();
    let inner_node = gewy.get(inner.node_id()).unwrap();
    assert_eq!(Some(scoped.node_id()), inner_node.ancestor());
    // A capability rooted at a stale id fails cleanly.
    let stale = gewy::Descendants::new(NodeId::default());
    assert!(stale.insert(&mut gewy, Node::default()).is_err());
}

#[test]
fn nested_groups_spawn_depth_first() {
    let inner = Widget::Group(Group { children: vec![Node::default().with_name(Some(9))] });
    let outer = Widget::Group(Group {
        children: vec![Node::new(inner, gewy::Style::default()).with_name(Some(8))],
    });
    let mut gewy = Gewy::new(Node::default());
    let root_id = gewy.root_id();
    let gid = gewy.insert(root_id, Node::new(outer, gewy::Style::default())).unwrap();

    let gnode = gewy.get(gid).unwrap();
    assert_eq!(1, gnode.children().len());
    let mid = gnode.children()[0];
    let mid_node = gewy.get(mid).unwrap();
    assert_eq!(Some(8), mid_node.name());
    assert_eq!(Some(gid), mid_node.parent());
    assert_eq!(1, mid_node.children().len());
    let leaf = mid_node.children()[0];
    let leaf_node = gewy.get(leaf).unwrap();
    assert_eq!(Some(9), leaf_node.name());
    assert_eq!(Some(mid), leaf_node.parent());
    assert_eq!(Some(mid), leaf_node.ancestor());
}
