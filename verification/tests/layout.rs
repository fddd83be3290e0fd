use gewy::layout::layout_group;
use gewy::layout::prepare_kid;
use gewy::Align;
use gewy::Justify;
use gewy::Rect;
use gewy::Sides;
use gewy::Style;
use gewy::Val;
use gewy::Vec2;

fn kid_styles(styles: &[Style], parent: Vec2, is_row: bool) -> Vec<gewy::Kid> {
    let mut kids = Vec::new();
    for s in styles {
        kids.push(prepare_kid(s, parent, is_row));
    }
    kids
}

#[test]
fn single_fixed_child_start_start() {
    let mut style = Style::default();
    style.width = Val::Px(50);
    style.height = Val::Px(30);
    let parent = Vec2::new(200, 100);
    let mut kids = kid_styles(&[style], parent, true);
    layout_group(&mut kids, parent, Justify::Start, Align::Start);
    let r = kids[0].raw.region;
    assert_eq!(0, r.position.x);
    assert_eq!(0, r.position.y);
    assert_eq!(50, r.size.x);
    assert_eq!(30, r.size.y);
}

#[test]
fn grow_distributes_slack_one_to_three() {
    let mut a = Style::default();
    a.basis = Val::Px(0);
    a.grow = 1;
    let mut b = Style::default();
    b.basis = Val::Px(0);
    b.grow = 3;
    let parent = Vec2::new(400, 50);
    let mut kids = kid_styles(&[a, b], parent, true);
    layout_group(&mut kids, parent, Justify::Start, Align::Start);
    assert_eq!(100, kids[0].raw.region.size.x);
    assert_eq!(300, kids[1].raw.region.size.x);
    assert_eq!(0, kids[0].raw.region.position.x);
    assert_eq!(100, kids[1].raw.region.position.x);
}

#[test]
fn shrink_shaves_equally() {
    let mut a = Style::default();
    a.basis = Val::Px(200);
    a.shrink = 1;
    let mut b = Style::default();
    b.basis = Val::Px(200);
    b.shrink = 1;
    let parent = Vec2::new(300, 50);
    let mut kids = kid_styles(&[a, b], parent, true);
    layout_group(&mut kids, parent, Justify::Start, Align::Start);
    assert_eq!(150, kids[0].raw.region.size.x);
    assert_eq!(150, kids[1].raw.region.size.x);
}

#[test]
fn grow_caps_at_max_and_redistributes() {
    let mut a = Style::default();
    a.basis = Val::Px(0);
    a.grow = 1;
    a.max_width = Val::Px(40);
    let mut b = Style::default();
    b.basis = Val::Px(0);
    b.grow = 1;
    let parent = Vec2::new(400, 50);
    let mut kids = kid_styles(&[a, b], parent, true);
    layout_group(&mut kids, parent, Justify::Start, Align::Start);
    // a is capped at 40; the remaining slack goes to b.
    assert_eq!(40, kids[0].raw.region.size.x);
    assert_eq!(360, kids[1].raw.region.size.x);
}

#[test]
fn space_evenly_gaps_are_quarter_of_remainder() {
    let mut s = Style::default();
    s.basis = Val::Px(20);
    s.grow = 0;
    let parent = Vec2::new(100, 50);
    let mut kids = kid_styles(&[s, s, s], parent, true);
    layout_group(&mut kids, parent, Justify::SpaceEvenly, Align::Start);
    // W = 60, P = 100, gap = (P - W) / 4 = 10.
    assert_eq!(10, kids[0].raw.region.position.x);
    assert_eq!(40, kids[1].raw.region.position.x);
    assert_eq!(70, kids[2].raw.region.position.x);
}

#[test]
fn justify_center_and_end() {
    let mut s = Style::default();
    s.basis = Val::Px(60);
    let parent = Vec2::new(100, 50);
    let mut kids = kid_styles(&[s], parent, true);
    layout_group(&mut kids, parent, Justify::Center, Align::Start);
    assert_eq!(20, kids[0].raw.region.position.x);
    let mut kids2 = kid_styles(&[s], parent, true);
    layout_group(&mut kids2, parent, Justify::End, Align::Start);
    assert_eq!(40, kids2[0].raw.region.position.x);
}

#[test]
fn align_center_end_stretch() {
    let mut s = Style::default();
    s.width = Val::Px(10);
    s.height = Val::Px(20);
    let parent = Vec2::new(100, 80);
    let mut kids = kid_styles(&[s], parent, true);
    layout_group(&mut kids, parent, Justify::Start, Align::Center);
    assert_eq!(30, kids[0].raw.region.position.y);
    let mut kids2 = kid_styles(&[s], parent, true);
    layout_group(&mut kids2, parent, Justify::Start, Align::End);
    assert_eq!(60, kids2[0].raw.region.position.y);
    // Stretch only fills the parent when the cross size is Auto.
    let mut auto = Style::default();
    auto.width = Val::Px(10);
    let mut kids3 = kid_styles(&[auto], parent, true);
    layout_group(&mut kids3, parent, Justify::Start, Align::Stretch);
    assert_eq!(80, kids3[0].raw.region.size.y);
    let mut kids4 = kid_styles(&[s], parent, true);
    layout_group(&mut kids4, parent, Justify::Start, Align::Stretch);
    assert_eq!(20, kids4[0].raw.region.size.y);
}

#[test]
fn rect_flip_is_an_involution() {
    let r = Rect::new(Vec2::new(3, 9), Vec2::new(17, 4));
    assert_eq!(r, r.flip(true).flip(true));
    assert_eq!(r, r.flip(false));
    let f = r.flip(true);
    assert_eq!(9, f.position.x);
    assert_eq!(3, f.position.y);
    assert_eq!(4, f.size.x);
    assert_eq!(17, f.size.y);
}

#[test]
fn column_equals_row_of_swapped_children() {
    // A column layout is the row layout of the axis-swapped styles in the
    // same local frame; flipping the results back gives the column's rects.
    let mut a = Style::default();
    a.width = Val::Px(30);
    a.height = Val::Px(10);
    a.margin = Sides::new(Val::Px(1), Val::Px(2), Val::Px(3), Val::Px(4));
    let mut swapped = a;
    swapped.width = a.height;
    swapped.height = a.width;
    swapped.margin = Sides::new(a.margin.left, a.margin.top, a.margin.right, a.margin.bottom);

    let local = Vec2::new(120, 60);
    let col = prepare_kid(&a, local, false);
    let row = prepare_kid(&swapped, local, true);
    assert_eq!(col, row);

    let mut col_kids = vec![col];
    let mut row_kids = vec![row];
    layout_group(&mut col_kids, local, Justify::Center, Align::Center);
    layout_group(&mut row_kids, local, Justify::Center, Align::Center);
    assert_eq!(col_kids[0].raw.region, row_kids[0].raw.region);
}

#[test]
fn percent_values_resolve_per_mille() {
    assert_eq!(50, Val::Pc(500).to_raw(100));
    assert_eq!(100, Val::Pc(2000).to_raw(100));
    assert_eq!(0, Val::Pc(-5).to_raw(100));
    assert_eq!(77, Val::Auto.to_raw(77));
    assert_eq!(-9, Val::Px(-9).to_raw(77));
    assert_eq!(0, Val::Px(-9).to_raw_size(77));
}

#[test]
fn corners_resolve_against_smaller_side() {
    let mut s = Style::default();
    s.width = Val::Px(40);
    s.height = Val::Px(20);
    s.corners = gewy::Corners::all(Val::Pc(500));
    let parent = Vec2::new(100, 100);
    let mut kids = kid_styles(&[s], parent, true);
    layout_group(&mut kids, parent, Justify::Start, Align::Start);
    // Half of the smaller side (20) is 10.
    assert_eq!(10, kids[0].raw.corners.top_left);
    assert_eq!(10, kids[0].raw.corners.bottom_right);
}
