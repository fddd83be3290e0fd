//! The flexbox-style layout pipeline for one group of siblings.
//!
//! All math here runs in a layout-local frame whose primary axis is "x": the
//! tree walk flips a column's sizes into this frame before calling in and
//! flips the results back afterwards. A group is laid out in stages:
//! preparation (resolve style values, size each child at its basis), grow or
//! shrink (distribute slack or overflow along the primary axis, capped at
//! max/min bounds with redistribution), justification (primary-axis
//! positions), alignment (cross-axis positions), and decoration (corner
//! radii against the final size).

use vstd::prelude::*;

use crate::math::Vec2;
use crate::num::cadd;
use crate::num::cmuldiv;
use crate::num::clip;
use crate::num::csub;
use crate::num::div0;
use crate::num::half;
use crate::num::in_range;
use crate::num::spec_div0;
use crate::num::COORD_LIMIT;
use crate::raw::Raw;
use crate::raw::RawCorners;
use crate::style::Align;
use crate::style::AlignSelf;
use crate::style::Corners;
use crate::style::Justify;
use crate::style::Sides;
use crate::style::Style;
use crate::style::Val;

verus! {

/// Per-child layout state in the layout-local frame: the values resolved from
/// the child's style that the pipeline reads, and the raw record it fills in.
#[derive(Clone, Copy, PartialEq, Eq, Structural, Debug)]
pub struct Kid {
    /// Grow factor, floored at zero.
    pub grow: i64,
    /// Shrink factor, floored at zero.
    pub shrink: i64,
    /// The child's own cross-axis placement.
    pub align_self: AlignSelf,
    /// Whether the declared cross-axis size is `Auto` (stretchable).
    pub cross_auto: bool,
    /// Declared corner radii, resolved during decoration.
    pub corners: Corners,
    /// The raw record being computed, local to the parent's content region.
    pub raw: Raw,
}

pub open spec fn kid_wf(k: Kid) -> bool {
    &&& k.raw.in_range()
    &&& 0 <= k.grow
    &&& in_range(k.grow as int)
    &&& 0 <= k.shrink
    &&& in_range(k.shrink as int)
}

pub open spec fn kids_wf(ks: Seq<Kid>) -> bool {
    forall|i: int| 0 <= i < ks.len() ==> kid_wf(#[trigger] ks[i])
}

/// A non-negative factor clamped into the layout range.
pub open spec fn spec_factor(g: int) -> int {
    if g < 0 {
        0
    } else {
        clip(g)
    }
}

fn factor(g: i64) -> (r: i64)
    ensures
        r == spec_factor(g as int),
{
    if g < 0 {
        0
    } else {
        crate::num::clip_i64(g)
    }
}

/// The per-child layout state resolved from a style, sized at its basis and
/// placed at the local origin. `parent_size` is the parent's content size in
/// the layout-local frame.
pub open spec fn spec_prepare_kid(style: Style, parent_size: Vec2, is_row: bool) -> Kid {
    let min = style.spec_raw_min_size(parent_size, is_row);
    let mx = style.spec_raw_max_size(parent_size, is_row);
    let max = Vec2 {
        x: if mx.x >= min.x {
            mx.x
        } else {
            min.x
        },
        y: if mx.y >= min.y {
            mx.y
        } else {
            min.y
        },
    };
    let basis = style.spec_raw_basis(parent_size.x as int, is_row);
    let height = style.spec_raw_height(parent_size.y as int, is_row);
    let raw = (Raw {
        region: Raw::spec_default().region,
        margin: style.spec_raw_margin(parent_size, is_row),
        padding: style.spec_raw_padding(parent_size, is_row),
        corners: Raw::spec_default().corners,
        min_size: min,
        max_size: max,
    }).spec_with_size(Vec2 { x: basis as i64, y: height as i64 });
    Kid {
        grow: spec_factor(style.grow as int) as i64,
        shrink: spec_factor(style.shrink as int) as i64,
        align_self: style.align_self,
        cross_auto: style.spec_cross_val(is_row) is Auto,
        corners: style.corners,
        raw,
    }
}

/// Resolves one child's style into its initial layout state.
pub fn prepare_kid(style: &Style, parent_size: Vec2, is_row: bool) -> (k: Kid)
    requires
        parent_size.in_range(),
    ensures
        k == spec_prepare_kid(*style, parent_size, is_row),
        kid_wf(k),
{
    let min = style.raw_min_size(parent_size, is_row);
    let mx = style.raw_max_size(parent_size, is_row);
    let max = Vec2 {
        x: if mx.x >= min.x {
            mx.x
        } else {
            min.x
        },
        y: if mx.y >= min.y {
            mx.y
        } else {
            min.y
        },
    };
    let basis = style.raw_basis(parent_size.x, is_row);
    let height = style.raw_height(parent_size.y, is_row);
    let mut raw = Raw {
        region: crate::math::Rect::default(),
        margin: style.raw_margin(parent_size, is_row),
        padding: style.raw_padding(parent_size, is_row),
        corners: RawCorners::default(),
        min_size: min,
        max_size: max,
    };
    raw.set_size(Vec2 { x: basis, y: height });
    let cross = if is_row {
        style.height
    } else {
        style.width
    };
    Kid {
        grow: factor(style.grow),
        shrink: factor(style.shrink),
        align_self: style.align_self,
        cross_auto: matches!(cross, Val::Auto),
        corners: style.corners,
        raw,
    }
}

/// Sum of the children's full (margin-included) widths, accumulated left to
/// right with clamping.
pub open spec fn spec_sum_full(ks: Seq<Kid>) -> int
    decreases ks.len(),
{
    if ks.len() == 0 {
        0
    } else {
        clip(spec_sum_full(ks.drop_last()) + ks.last().raw.spec_full_width())
    }
}

/// Sum of the children's content widths.
pub open spec fn spec_sum_width(ks: Seq<Kid>) -> int
    decreases ks.len(),
{
    if ks.len() == 0 {
        0
    } else {
        clip(spec_sum_width(ks.drop_last()) + ks.last().raw.spec_width())
    }
}

/// Sum of the children's grow factors.
pub open spec fn spec_sum_grow(ks: Seq<Kid>) -> int
    decreases ks.len(),
{
    if ks.len() == 0 {
        0
    } else {
        clip(spec_sum_grow(ks.drop_last()) + ks.last().grow)
    }
}

/// Sum of the children's shrink factors.
pub open spec fn spec_sum_shrink(ks: Seq<Kid>) -> int
    decreases ks.len(),
{
    if ks.len() == 0 {
        0
    } else {
        clip(spec_sum_shrink(ks.drop_last()) + ks.last().shrink)
    }
}

/// The leading offset and the gap between children for a justification mode.
/// Gap divisions truncate toward zero; a mode whose divisor would be zero
/// (one child under `SpaceBetween`, an empty group) yields no spacing.
/// A sibling count clamped into the layout range (for gap divisions).
pub open spec fn spec_cap_count(n: int) -> int {
    if n > COORD_LIMIT as int {
        COORD_LIMIT as int
    } else {
        n
    }
}

fn cap_count(n: usize) -> (r: i64)
    requires
        0 < n,
    ensures
        r == spec_cap_count(n as int),
        0 < r <= COORD_LIMIT,
{
    if n as u64 > COORD_LIMIT as u64 {
        COORD_LIMIT
    } else {
        n as i64
    }
}

pub open spec fn spec_justify_offsets(
    justify: Justify,
    group_width: int,
    parent_width: int,
    n: int,
) -> (int, int) {
    match justify {
        Justify::Start => (0, 0),
        Justify::End => (clip(parent_width - group_width), 0),
        Justify::Center => (spec_div0(clip(parent_width - group_width), 2), 0),
        Justify::SpaceBetween => {
            if n <= 1 {
                (0, 0)
            } else {
                (0, spec_div0(clip(parent_width - group_width), spec_cap_count(n - 1)))
            }
        },
        Justify::SpaceAround => {
            if n < 1 {
                (0, 0)
            } else {
                let gap = spec_div0(clip(parent_width - group_width), spec_cap_count(n));
                (spec_div0(gap, 2), gap)
            }
        },
        Justify::SpaceEvenly => {
            let gap = spec_div0(clip(parent_width - group_width), spec_cap_count(n + 1));
            (gap, gap)
        },
    }
}

fn justify_offsets(justify: Justify, group_width: i64, parent_width: i64, n: usize) -> (r: (
    i64,
    i64,
))
    requires
        in_range(group_width as int),
        in_range(parent_width as int),
        n <= usize::MAX - 1,
    ensures
        (r.0 as int, r.1 as int) == spec_justify_offsets(
            justify,
            group_width as int,
            parent_width as int,
            n as int,
        ),
        in_range(r.0 as int),
        in_range(r.1 as int),
{
    match justify {
        Justify::Start => (0, 0),
        Justify::End => (csub(parent_width, group_width), 0),
        Justify::Center => (half(csub(parent_width, group_width)), 0),
        Justify::SpaceBetween => {
            if n <= 1 {
                (0, 0)
            } else {
                (0, div0(csub(parent_width, group_width), cap_count(n - 1)))
            }
        },
        Justify::SpaceAround => {
            if n < 1 {
                (0, 0)
            } else {
                let gap = div0(csub(parent_width, group_width), cap_count(n));
                (half(gap), gap)
            }
        },
        Justify::SpaceEvenly => {
            let gap = div0(csub(parent_width, group_width), cap_count(n + 1));
            (gap, gap)
        },
    }
}

/// The kid moved to primary-axis position `x`.
pub open spec fn spec_kid_at_x(k: Kid, x: int) -> Kid {
    Kid {
        raw: Raw {
            region: crate::math::Rect {
                position: Vec2 { x: clip(x) as i64, y: k.raw.region.position.y },
                size: k.raw.region.size,
            },
            ..k.raw
        },
        ..k
    }
}

/// Children placed side by side from `x` on, `spacing` apart, in order.
pub open spec fn spec_justify_pass(ks: Seq<Kid>, j: int, x: int, spacing: int) -> Seq<Kid>
    decreases ks.len() - j,
{
    if j < 0 || j >= ks.len() {
        ks
    } else {
        let k = ks[j];
        spec_justify_pass(
            ks.update(j, spec_kid_at_x(k, x)),
            j + 1,
            clip(clip(x + k.raw.spec_full_width()) + spacing),
            spacing,
        )
    }
}

/// Positions the children along the primary axis per the justification mode.
pub fn justify_group(
    kids: &mut Vec<Kid>,
    group_width: i64,
    parent_width: i64,
    justify: Justify,
) -> (r: (i64, i64))
    requires
        kids_wf(old(kids)@),
        in_range(group_width as int),
        in_range(parent_width as int),
        old(kids).len() <= usize::MAX - 1,
    ensures
        (r.0 as int, r.1 as int) == spec_justify_offsets(
            justify,
            group_width as int,
            parent_width as int,
            old(kids)@.len() as int,
        ),
        final(kids)@ == spec_justify_pass(old(kids)@, 0, r.0 as int, r.1 as int),
        kids_wf(final(kids)@),
        final(kids)@.len() == old(kids)@.len(),
{
    let (offset, spacing) = justify_offsets(justify, group_width, parent_width, kids.len());
    let ghost ks0 = kids@;
    let mut x: i64 = offset;
    let n = kids.len();
    let mut j: usize = 0;
    while j < n
        invariant
            n == kids.len(),
            0 <= j <= n,
            kids_wf(kids@),
            in_range(x as int),
            in_range(spacing as int),
            spec_justify_pass(ks0, 0, offset as int, spacing as int) == spec_justify_pass(
                kids@,
                j as int,
                x as int,
                spacing as int,
            ),
            forall|m: int| j <= m < n ==> kids@[m] == ks0[m],
        decreases n - j,
    {
        let ghost ks_before = kids@;
        let full = kids[j].raw.full_width();
        let kj = &mut kids[j];
        kj.raw.region.position.x = x;
        proof {
            assert(kids@ =~= ks_before.update(j as int, spec_kid_at_x(ks_before[j as int], x as int)));
        }
        x = cadd(cadd(x, full), spacing);
        j = j + 1;
    }
    proof {
        assert(spec_justify_pass(kids@, n as int, x as int, spacing as int) == kids@);
    }
    (offset, spacing)
}

/// One child aligned on the cross axis. `Stretch` fills the parent only when
/// the child's cross-axis size was declared `Auto`; `Start` leaves the child
/// at the local origin.
pub open spec fn spec_align_kid(k: Kid, parent_height: int, parent_align: Align) -> Kid {
    let a = k.align_self.spec_to_align_items(parent_align);
    match a {
        Align::Center => Kid {
            raw: Raw {
                region: crate::math::Rect {
                    position: Vec2 {
                        x: k.raw.region.position.x,
                        y: clip(
                            spec_div0(parent_height, 2) - spec_div0(k.raw.region.size.y as int, 2),
                        ) as i64,
                    },
                    size: k.raw.region.size,
                },
                ..k.raw
            },
            ..k
        },
        Align::Stretch => {
            if k.cross_auto {
                Kid {
                    raw: Raw {
                        region: crate::math::Rect {
                            position: k.raw.region.position,
                            size: Vec2 { x: k.raw.region.size.x, y: clip(parent_height) as i64 },
                        },
                        ..k.raw
                    },
                    ..k
                }
            } else {
                k
            }
        },
        Align::End => Kid {
            raw: Raw {
                region: crate::math::Rect {
                    position: Vec2 {
                        x: k.raw.region.position.x,
                        y: clip(parent_height - k.raw.region.size.y) as i64,
                    },
                    size: k.raw.region.size,
                },
                ..k.raw
            },
            ..k
        },
        Align::Start => k,
    }
}

/// Aligns every child on the cross axis, each independently of its siblings.
pub fn align_group(kids: &mut Vec<Kid>, parent_height: i64, parent_align: Align)
    requires
        kids_wf(old(kids)@),
        in_range(parent_height as int),
    ensures
        final(kids)@ == old(kids)@.map_values(
            |k: Kid| spec_align_kid(k, parent_height as int, parent_align),
        ),
        kids_wf(final(kids)@),
{
    let ghost ks0 = kids@;
    let n = kids.len();
    let mut j: usize = 0;
    while j < n
        invariant
            n == kids.len(),
            0 <= j <= n,
            kids_wf(kids@),
            in_range(parent_height as int),
            forall|m: int|
                0 <= m < j ==> kids@[m] == spec_align_kid(
                    ks0[m],
                    parent_height as int,
                    parent_align,
                ),
            forall|m: int| j <= m < n ==> kids@[m] == ks0[m],
        decreases n - j,
    {
        let a = kids[j].align_self.to_align_items(parent_align);
        match a {
            Align::Center => {
                let sy = kids[j].raw.region.size.y;
                let kj = &mut kids[j];
                kj.raw.region.position.y = csub(half(parent_height), half(sy));
            },
            Align::Stretch => {
                if kids[j].cross_auto {
                    let kj = &mut kids[j];
                    kj.raw.region.size.y = crate::num::clip_i64(parent_height);
                }
            },
            Align::End => {
                let sy = kids[j].raw.region.size.y;
                let kj = &mut kids[j];
                kj.raw.region.position.y = csub(parent_height, sy);
            },
            Align::Start => {},
        }
        j = j + 1;
    }
    proof {
        assert(kids@ =~= ks0.map_values(
            |k: Kid| spec_align_kid(k, parent_height as int, parent_align),
        ));
    }
}

/// One child's corner radii resolved against the smaller side of its final
/// padding region.
pub open spec fn spec_decorate_kid(k: Kid) -> Kid {
    let style = Style { corners: k.corners, ..Style::spec_default() };
    Kid {
        raw: Raw {
            corners: style.spec_raw_corners(k.raw.spec_padding_region_size()),
            ..k.raw
        },
        ..k
    }
}

/// Resolves every child's corner radii against its final size.
pub fn decorate_group(kids: &mut Vec<Kid>)
    requires
        kids_wf(old(kids)@),
    ensures
        final(kids)@ == old(kids)@.map_values(|k: Kid| spec_decorate_kid(k)),
        kids_wf(final(kids)@),
{
    let ghost ks0 = kids@;
    let n = kids.len();
    let mut j: usize = 0;
    while j < n
        invariant
            n == kids.len(),
            0 <= j <= n,
            kids_wf(kids@),
            forall|m: int| 0 <= m < j ==> kids@[m] == spec_decorate_kid(ks0[m]),
            forall|m: int| j <= m < n ==> kids@[m] == ks0[m],
        decreases n - j,
    {
        let size = kids[j].raw.padding_region_size();
        let style = Style { corners: kids[j].corners, ..Style::default() };
        let corners = style.raw_corners(size);
        let kj = &mut kids[j];
        kj.raw.corners = corners;
        j = j + 1;
    }
    proof {
        assert(kids@ =~= ks0.map_values(|k: Kid| spec_decorate_kid(k)));
    }
}

/// Whether the values of `idxs` are valid, pairwise distinct indices into a
/// group of `n` children.
pub open spec fn idxs_ok(idxs: Seq<usize>, n: int) -> bool {
    &&& forall|k: int| 0 <= k < idxs.len() ==> (#[trigger] idxs[k]) < n
    &&& forall|k1: int, k2: int| 0 <= k1 < k2 < idxs.len() ==> idxs[k1] != idxs[k2]
}

/// The proportional share of `slack` a child receives: slack times its grow
/// factor over the group's total.
pub open spec fn spec_grow_share(k: Kid, slack: int, grow_total: int) -> int {
    clip((slack * k.grow) / grow_total)
}

/// A child's grown content width: its current width plus its share.
pub open spec fn spec_grown_width(k: Kid, slack: int, grow_total: int) -> int {
    clip(k.raw.spec_width() + spec_grow_share(k, slack, grow_total))
}

/// Whether growing would push the child past its maximum width.
pub open spec fn spec_grow_capped(k: Kid, slack: int, grow_total: int) -> bool {
    spec_grown_width(k, slack, grow_total) > k.raw.max_size.x
}

/// The child after one grow step: capped at its maximum width, or grown by
/// its share.
pub open spec fn spec_grow_kid(k: Kid, slack: int, grow_total: int) -> Kid {
    if spec_grow_capped(k, slack, grow_total) {
        Kid { raw: k.raw.spec_with_width(k.raw.max_size.x as int), ..k }
    } else {
        Kid { raw: k.raw.spec_with_width(spec_grown_width(k, slack, grow_total)), ..k }
    }
}

/// One grow pass over the children selected by `idxs`, left to right.
/// Returns the updated children, the total full width of the capped ones,
/// the total full width of the uncapped ones, the uncapped grow total, and
/// the indices of the uncapped ones.
pub open spec fn spec_grow_pass(ks: Seq<Kid>, idxs: Seq<usize>, slack: int, grow_total: int) -> (
    Seq<Kid>,
    int,
    int,
    int,
    Seq<usize>,
)
    decreases idxs.len(),
{
    if idxs.len() == 0 {
        (ks, 0, 0, 0, Seq::empty())
    } else {
        let p = spec_grow_pass(ks, idxs.drop_last(), slack, grow_total);
        let i = idxs.last();
        let k = ks[i as int];
        let k2 = spec_grow_kid(k, slack, grow_total);
        if spec_grow_capped(k, slack, grow_total) {
            (p.0.update(i as int, k2), clip(p.1 + k2.raw.spec_full_width()), p.2, p.3, p.4)
        } else {
            (
                p.0.update(i as int, k2),
                p.1,
                clip(p.2 + k2.raw.spec_full_width()),
                clip(p.3 + k.grow),
                p.4.push(i),
            )
        }
    }
}

/// Facts about one grow pass: lengths and well-formedness are preserved,
/// children outside `idxs` are untouched, the accumulated sums stay in range,
/// and the uncapped indices are again valid and distinct.
pub proof fn lemma_grow_pass(ks: Seq<Kid>, idxs: Seq<usize>, slack: int, grow_total: int)
    requires
        kids_wf(ks),
        idxs_ok(idxs, ks.len() as int),
    ensures
        ({
            let p = spec_grow_pass(ks, idxs, slack, grow_total);
            &&& p.0.len() == ks.len()
            &&& kids_wf(p.0)
            &&& forall|m: int|
                0 <= m < ks.len() && (forall|u: int|
                    0 <= u < idxs.len() ==> (#[trigger] idxs[u]) as int != m) ==> p.0[m] == ks[m]
            &&& in_range(p.1)
            &&& in_range(p.2)
            &&& 0 <= p.3 && in_range(p.3)
            &&& idxs_ok(p.4, ks.len() as int)
            &&& p.4.len() <= idxs.len()
            &&& forall|u: int|
                0 <= u < p.4.len() ==> exists|v: int|
                    0 <= v < idxs.len() && idxs[v] == #[trigger] p.4[u]
            &&& (p.4.len() == idxs.len() ==> p.4 =~= idxs)
        }),
    decreases idxs.len(),
{
    if idxs.len() == 0 {
    } else {
        let pre = idxs.drop_last();
        assert(idxs_ok(pre, ks.len() as int));
        lemma_grow_pass(ks, pre, slack, grow_total);
        let p = spec_grow_pass(ks, pre, slack, grow_total);
        let i = idxs.last();
        let k = ks[i as int];
        let full = spec_grow_pass(ks, idxs, slack, grow_total);
        if !spec_grow_capped(k, slack, grow_total) {
            assert forall|u: int| 0 <= u < full.4.len() implies exists|v: int|
                0 <= v < idxs.len() && idxs[v] == #[trigger] full.4[u] by {
                if u < p.4.len() {
                    let v = choose|v: int| 0 <= v < pre.len() && pre[v] == p.4[u];
                    assert(idxs[v] == full.4[u]);
                } else {
                    assert(idxs[idxs.len() - 1] == full.4[u]);
                }
            }
            assert forall|k1: int, k2: int| 0 <= k1 < k2 < full.4.len() implies full.4[k1]
                != full.4[k2] by {
                if k2 == full.4.len() - 1 {
                    let v = choose|v: int| 0 <= v < pre.len() && pre[v] == full.4[k1];
                    assert(idxs[v] != idxs[idxs.len() - 1]);
                }
            }
        } else {
            assert forall|u: int| 0 <= u < full.4.len() implies exists|v: int|
                0 <= v < idxs.len() && idxs[v] == #[trigger] full.4[u] by {
                let v = choose|v: int| 0 <= v < pre.len() && pre[v] == p.4[u];
                assert(idxs[v] == full.4[u]);
            }
        }
        if full.4.len() == idxs.len() {
            assert(p.4.len() == pre.len());
            assert(p.4 =~= pre);
            assert(!spec_grow_capped(k, slack, grow_total));
            assert(full.4 =~= idxs);
        }
    }
}

/// Grows the children selected by `idxs` along the primary axis: slack is
/// distributed in proportion to each child's grow factor; a child that would
/// pass its maximum width is capped there, and the remaining slack is
/// redistributed among the others until no further child is capped. Returns
/// the group's total full width after growing.
pub open spec fn spec_grow(
    ks: Seq<Kid>,
    idxs: Seq<usize>,
    group_width: int,
    grow_total: int,
    parent_width: int,
) -> (Seq<Kid>, int)
    decreases idxs.len(),
{
    let slack0 = clip(parent_width - group_width);
    let slack = if slack0 < 0 {
        0
    } else {
        slack0
    };
    let gt = if grow_total < 1 {
        1
    } else {
        grow_total
    };
    let p = spec_grow_pass(ks, idxs, slack, gt);
    if p.4.len() == idxs.len() {
        (p.0, p.2)
    } else {
        if p.4.len() < idxs.len() {
            let r = spec_grow(p.0, p.4, p.2, p.3, clip(parent_width - p.1));
            (r.0, clip(p.1 + r.1))
        } else {
            (p.0, p.2)
        }
    }
}

/// Grows "packed" children on the primary axis; see [`spec_grow`].
pub fn grow_group(
    kids: &mut Vec<Kid>,
    idxs: &Vec<usize>,
    group_width: i64,
    grow_total: i64,
    parent_width: i64,
) -> (w: i64)
    requires
        kids_wf(old(kids)@),
        idxs_ok(idxs@, old(kids)@.len() as int),
        in_range(group_width as int),
        0 <= grow_total,
        in_range(grow_total as int),
        in_range(parent_width as int),
    ensures
        (final(kids)@, w as int) == spec_grow(
            old(kids)@,
            idxs@,
            group_width as int,
            grow_total as int,
            parent_width as int,
        ),
        kids_wf(final(kids)@),
        final(kids)@.len() == old(kids)@.len(),
        in_range(w as int),
    decreases idxs@.len(),
{
    let ghost ks0 = kids@;
    let slack0 = csub(parent_width, group_width);
    let slack: i64 = if slack0 < 0 {
        0
    } else {
        slack0
    };
    let gt: i64 = if grow_total < 1 {
        1
    } else {
        grow_total
    };
    let mut capped_w: i64 = 0;
    let mut uncapped_w: i64 = 0;
    let mut ugt: i64 = 0;
    let mut uncapped: Vec<usize> = Vec::new();
    let n = idxs.len();
    let mut j: usize = 0;
    proof {
        lemma_grow_pass(ks0, idxs@, slack as int, gt as int);
    }
    while j < n
        invariant
            n == idxs@.len(),
            0 <= j <= n,
            kids@.len() == ks0.len(),
            kids_wf(ks0),
            kids_wf(kids@),
            idxs_ok(idxs@, ks0.len() as int),
            in_range(slack as int),
            0 <= slack,
            0 < gt,
            in_range(gt as int),
            in_range(capped_w as int),
            in_range(uncapped_w as int),
            0 <= ugt,
            in_range(ugt as int),
            (kids@, capped_w as int, uncapped_w as int, ugt as int, uncapped@) == spec_grow_pass(
                ks0,
                idxs@.take(j as int),
                slack as int,
                gt as int,
            ),
        decreases n - j,
    {
        let ghost pre = idxs@.take(j as int);
        proof {
            lemma_grow_pass(ks0, pre, slack as int, gt as int);
            assert(idxs@.take(j + 1).drop_last() =~= pre);
            assert(forall|u: int| 0 <= u < pre.len() ==> (#[trigger] pre[u]) == idxs@[u]);
            assert(forall|u: int| 0 <= u < pre.len() ==> idxs@[u] != idxs@[j as int]);
            assert(kids@[idxs@[j as int] as int] == ks0[idxs@[j as int] as int]);
        }
        let i = idxs[j];
        let k = kids[i];
        let w = k.raw.width();
        let share = cmuldiv(slack, k.grow, gt);
        let grown = cadd(w, share);
        let ghost kids_before = kids@;
        if grown > k.raw.max_size.x {
            let mx = k.raw.max_size.x;
            let ki = &mut kids[i];
            ki.raw.set_width(mx);
            let fw = kids[i].raw.region.size.x;
            capped_w = cadd(capped_w, fw);
            proof {
                assert(kids@ =~= kids_before.update(
                    i as int,
                    spec_grow_kid(ks0[i as int], slack as int, gt as int),
                ));
            }
        } else {
            let ki = &mut kids[i];
            ki.raw.set_width(grown);
            let fw = kids[i].raw.region.size.x;
            uncapped_w = cadd(uncapped_w, fw);
            ugt = cadd(ugt, k.grow);
            uncapped.push(i);
            proof {
                assert(kids@ =~= kids_before.update(
                    i as int,
                    spec_grow_kid(ks0[i as int], slack as int, gt as int),
                ));
            }
        }
        j = j + 1;
    }
    proof {
        assert(idxs@.take(n as int) =~= idxs@);
        lemma_grow_pass(ks0, idxs@, slack as int, gt as int);
    }
    if uncapped.len() == idxs.len() {
        proof {
            assert(uncapped@ =~= idxs@);
        }
        return uncapped_w;
    }
    let rec_parent = csub(parent_width, capped_w);
    let w2 = grow_group(kids, &uncapped, uncapped_w, ugt, rec_parent);
    cadd(capped_w, w2)
}


/// A child's content width floored at zero (for ratio computations).
pub open spec fn spec_wplus(k: Kid) -> int {
    if k.raw.spec_width() < 0 {
        0
    } else {
        k.raw.spec_width()
    }
}

/// A child's fair share of the overflow, before scaling: the total shave
/// weighted by the child's width ratio and its shrink ratio.
pub open spec fn spec_shave_weight(k: Kid, shave: int, group_width: int, shrink_total: int) -> int {
    clip((clip((shave * spec_wplus(k)) / group_width) * k.shrink) / shrink_total)
}

/// Sum of the fair shares over the children selected by `idxs`.
pub open spec fn spec_shrink_scaled(
    ks: Seq<Kid>,
    idxs: Seq<usize>,
    shave: int,
    group_width: int,
    shrink_total: int,
) -> int
    decreases idxs.len(),
{
    if idxs.len() == 0 {
        0
    } else {
        clip(
            spec_shrink_scaled(ks, idxs.drop_last(), shave, group_width, shrink_total)
                + spec_shave_weight(ks[idxs.last() as int], shave, group_width, shrink_total),
        )
    }
}

/// The pixels actually shaved off one child: its fair share scaled so that
/// the group's total shave closes the gap exactly.
pub open spec fn spec_shave_of(
    k: Kid,
    shave: int,
    group_width: int,
    shrink_total: int,
    scaled: int,
) -> int {
    clip((spec_shave_weight(k, shave, group_width, shrink_total) * shave) / scaled)
}

/// Whether shaving would push the child below its minimum width.
pub open spec fn spec_shrink_capped(
    k: Kid,
    shave: int,
    group_width: int,
    shrink_total: int,
    scaled: int,
) -> bool {
    clip(k.raw.spec_width() - spec_shave_of(k, shave, group_width, shrink_total, scaled))
        <= k.raw.min_size.x
}

/// The child after one shrink step: capped at its minimum width, or shaved.
pub open spec fn spec_shrink_kid(
    k: Kid,
    shave: int,
    group_width: int,
    shrink_total: int,
    scaled: int,
) -> Kid {
    if spec_shrink_capped(k, shave, group_width, shrink_total, scaled) {
        Kid { raw: k.raw.spec_with_width(k.raw.min_size.x as int), ..k }
    } else {
        Kid {
            raw: k.raw.spec_with_width(
                clip(
                    k.raw.spec_width() - spec_shave_of(
                        k,
                        shave,
                        group_width,
                        shrink_total,
                        scaled,
                    ),
                ),
            ),
            ..k
        }
    }
}

/// One shrink pass over the children selected by `idxs`, left to right.
/// Returns the updated children, the total full width of the capped ones,
/// the total full width of the uncapped ones, the total content width of the
/// uncapped ones, the uncapped shrink total, and the uncapped indices.
pub open spec fn spec_shrink_pass(
    ks: Seq<Kid>,
    idxs: Seq<usize>,
    shave: int,
    group_width: int,
    shrink_total: int,
    scaled: int,
) -> (Seq<Kid>, int, int, int, int, Seq<usize>)
    decreases idxs.len(),
{
    if idxs.len() == 0 {
        (ks, 0, 0, 0, 0, Seq::empty())
    } else {
        let p = spec_shrink_pass(ks, idxs.drop_last(), shave, group_width, shrink_total, scaled);
        let i = idxs.last();
        let k = ks[i as int];
        let k2 = spec_shrink_kid(k, shave, group_width, shrink_total, scaled);
        if spec_shrink_capped(k, shave, group_width, shrink_total, scaled) {
            (p.0.update(i as int, k2), clip(p.1 + k2.raw.spec_full_width()), p.2, p.3, p.4, p.5)
        } else {
            (
                p.0.update(i as int, k2),
                p.1,
                clip(p.2 + k2.raw.spec_full_width()),
                clip(p.3 + k2.raw.spec_width()),
                clip(p.4 + k.shrink),
                p.5.push(i),
            )
        }
    }
}

/// Facts about one shrink pass, analogous to [`lemma_grow_pass`].
pub proof fn lemma_shrink_pass(
    ks: Seq<Kid>,
    idxs: Seq<usize>,
    shave: int,
    group_width: int,
    shrink_total: int,
    scaled: int,
)
    requires
        kids_wf(ks),
        idxs_ok(idxs, ks.len() as int),
    ensures
        ({
            let p = spec_shrink_pass(ks, idxs, shave, group_width, shrink_total, scaled);
            &&& p.0.len() == ks.len()
            &&& kids_wf(p.0)
            &&& forall|m: int|
                0 <= m < ks.len() && (forall|u: int|
                    0 <= u < idxs.len() ==> (#[trigger] idxs[u]) as int != m) ==> p.0[m] == ks[m]
            &&& in_range(p.1)
            &&& in_range(p.2)
            &&& in_range(p.3)
            &&& 0 <= p.4 && in_range(p.4)
            &&& idxs_ok(p.5, ks.len() as int)
            &&& p.5.len() <= idxs.len()
            &&& forall|u: int|
                0 <= u < p.5.len() ==> exists|v: int|
                    0 <= v < idxs.len() && idxs[v] == #[trigger] p.5[u]
            &&& (p.5.len() == idxs.len() ==> p.5 =~= idxs)
        }),
    decreases idxs.len(),
{
    if idxs.len() == 0 {
    } else {
        let pre = idxs.drop_last();
        assert(idxs_ok(pre, ks.len() as int));
        lemma_shrink_pass(ks, pre, shave, group_width, shrink_total, scaled);
        let p = spec_shrink_pass(ks, pre, shave, group_width, shrink_total, scaled);
        let i = idxs.last();
        let k = ks[i as int];
        let full = spec_shrink_pass(ks, idxs, shave, group_width, shrink_total, scaled);
        if !spec_shrink_capped(k, shave, group_width, shrink_total, scaled) {
            assert forall|u: int| 0 <= u < full.5.len() implies exists|v: int|
                0 <= v < idxs.len() && idxs[v] == #[trigger] full.5[u] by {
                if u < p.5.len() {
                    let v = choose|v: int| 0 <= v < pre.len() && pre[v] == p.5[u];
                    assert(idxs[v] == full.5[u]);
                } else {
                    assert(idxs[idxs.len() - 1] == full.5[u]);
                }
            }
            assert forall|k1: int, k2: int| 0 <= k1 < k2 < full.5.len() implies full.5[k1]
                != full.5[k2] by {
                if k2 == full.5.len() - 1 {
                    let v = choose|v: int| 0 <= v < pre.len() && pre[v] == full.5[k1];
                    assert(idxs[v] != idxs[idxs.len() - 1]);
                }
            }
        } else {
            assert forall|u: int| 0 <= u < full.5.len() implies exists|v: int|
                0 <= v < idxs.len() && idxs[v] == #[trigger] full.5[u] by {
                let v = choose|v: int| 0 <= v < pre.len() && pre[v] == p.5[u];
                assert(idxs[v] == full.5[u]);
            }
        }
        if full.5.len() == idxs.len() {
            assert(p.5.len() == pre.len());
            assert(p.5 =~= pre);
            assert(!spec_shrink_capped(k, shave, group_width, shrink_total, scaled));
            assert(full.5 =~= idxs);
        }
    }
}

/// Shrinks the children selected by `idxs` so that the group approaches the
/// parent's width: the overflow is shaved off in proportion to each child's
/// width and shrink factor; a child that would fall below its minimum width
/// is capped there and the pass repeats on the rest with the remaining
/// overflow. When nothing can be shaved (zero widths or shrink factors) the
/// group is returned as it stands, a best-effort result. Returns the group's
/// total full width after shrinking.
pub open spec fn spec_shrink(
    ks: Seq<Kid>,
    idxs: Seq<usize>,
    group_full_width: int,
    group_width: int,
    shrink_total: int,
    parent_width: int,
) -> (Seq<Kid>, int)
    decreases idxs.len(),
{
    let shave = clip(group_full_width - parent_width);
    let st = if shrink_total < 1 {
        1
    } else {
        shrink_total
    };
    if shave <= 0 || group_width <= 0 {
        (ks, clip(group_full_width))
    } else {
        let scaled = spec_shrink_scaled(ks, idxs, shave, group_width, st);
        if scaled <= 0 {
            (ks, clip(group_full_width))
        } else {
            let p = spec_shrink_pass(ks, idxs, shave, group_width, st, scaled);
            if p.5.len() == idxs.len() {
                (p.0, p.2)
            } else {
                if p.5.len() < idxs.len() {
                    let r = spec_shrink(p.0, p.5, p.2, p.3, p.4, clip(parent_width - p.1));
                    (r.0, clip(p.1 + r.1))
                } else {
                    (p.0, p.2)
                }
            }
        }
    }
}

/// Shrinks "packed" children on the primary axis; see [`spec_shrink`].
pub fn shrink_group(
    kids: &mut Vec<Kid>,
    idxs: &Vec<usize>,
    group_full_width: i64,
    group_width: i64,
    shrink_total: i64,
    parent_width: i64,
) -> (w: i64)
    requires
        kids_wf(old(kids)@),
        idxs_ok(idxs@, old(kids)@.len() as int),
        in_range(group_full_width as int),
        in_range(group_width as int),
        0 <= shrink_total,
        in_range(shrink_total as int),
        in_range(parent_width as int),
    ensures
        (final(kids)@, w as int) == spec_shrink(
            old(kids)@,
            idxs@,
            group_full_width as int,
            group_width as int,
            shrink_total as int,
            parent_width as int,
        ),
        kids_wf(final(kids)@),
        final(kids)@.len() == old(kids)@.len(),
        in_range(w as int),
    decreases idxs@.len(),
{
    let ghost ks0 = kids@;
    let shave = csub(group_full_width, parent_width);
    let st: i64 = if shrink_total < 1 {
        1
    } else {
        shrink_total
    };
    if shave <= 0 || group_width <= 0 {
        return crate::num::clip_i64(group_full_width);
    }
    let n = idxs.len();

    // First pass: total fair share of the overflow.
    let mut scaled: i64 = 0;
    let mut j: usize = 0;
    while j < n
        invariant
            n == idxs@.len(),
            0 <= j <= n,
            kids@ == ks0,
            kids_wf(ks0),
            idxs_ok(idxs@, ks0.len() as int),
            0 < shave,
            in_range(shave as int),
            0 < group_width,
            in_range(group_width as int),
            0 < st,
            in_range(st as int),
            in_range(scaled as int),
            scaled as int == spec_shrink_scaled(
                ks0,
                idxs@.take(j as int),
                shave as int,
                group_width as int,
                st as int,
            ),
        decreases n - j,
    {
        proof {
            assert(idxs@.take(j + 1).drop_last() =~= idxs@.take(j as int));
        }
        let i = idxs[j];
        let k = kids[i];
        let w = k.raw.width();
        let wp: i64 = if w < 0 {
            0
        } else {
            w
        };
        let t = cmuldiv(shave, wp, group_width);
        let s = cmuldiv(t, k.shrink, st);
        scaled = cadd(scaled, s);
        j = j + 1;
    }
    proof {
        assert(idxs@.take(n as int) =~= idxs@);
    }
    if scaled <= 0 {
        return crate::num::clip_i64(group_full_width);
    }

    // Second pass: shave each child, capping at its minimum width.
    let mut capped_fw: i64 = 0;
    let mut uncapped_fw: i64 = 0;
    let mut uncapped_w: i64 = 0;
    let mut ust: i64 = 0;
    let mut uncapped: Vec<usize> = Vec::new();
    let mut j2: usize = 0;
    proof {
        lemma_shrink_pass(ks0, idxs@, shave as int, group_width as int, st as int, scaled as int);
    }
    while j2 < n
        invariant
            n == idxs@.len(),
            0 <= j2 <= n,
            kids@.len() == ks0.len(),
            kids_wf(ks0),
            kids_wf(kids@),
            idxs_ok(idxs@, ks0.len() as int),
            0 < shave,
            in_range(shave as int),
            0 < group_width,
            in_range(group_width as int),
            0 < st,
            in_range(st as int),
            0 < scaled,
            in_range(scaled as int),
            in_range(capped_fw as int),
            in_range(uncapped_fw as int),
            in_range(uncapped_w as int),
            0 <= ust,
            in_range(ust as int),
            (kids@, capped_fw as int, uncapped_fw as int, uncapped_w as int, ust as int, uncapped@)
                == spec_shrink_pass(
                ks0,
                idxs@.take(j2 as int),
                shave as int,
                group_width as int,
                st as int,
                scaled as int,
            ),
        decreases n - j2,
    {
        let ghost pre = idxs@.take(j2 as int);
        proof {
            lemma_shrink_pass(ks0, pre, shave as int, group_width as int, st as int, scaled as int);
            assert(idxs@.take(j2 + 1).drop_last() =~= pre);
            assert(forall|u: int| 0 <= u < pre.len() ==> (#[trigger] pre[u]) == idxs@[u]);
            assert(forall|u: int| 0 <= u < pre.len() ==> idxs@[u] != idxs@[j2 as int]);
            assert(kids@[idxs@[j2 as int] as int] == ks0[idxs@[j2 as int] as int]);
        }
        let i = idxs[j2];
        let k = kids[i];
        let w = k.raw.width();
        let wp: i64 = if w < 0 {
            0
        } else {
            w
        };
        let t = cmuldiv(shave, wp, group_width);
        let s = cmuldiv(t, k.shrink, st);
        let shv = cmuldiv(s, shave, scaled);
        let shrunk = csub(w, shv);
        let ghost kids_before = kids@;
        if shrunk <= k.raw.min_size.x {
            let mn = k.raw.min_size.x;
            let ki = &mut kids[i];
            ki.raw.set_width(mn);
            let fw = kids[i].raw.region.size.x;
            capped_fw = cadd(capped_fw, fw);
            proof {
                assert(kids@ =~= kids_before.update(
                    i as int,
                    spec_shrink_kid(
                        ks0[i as int],
                        shave as int,
                        group_width as int,
                        st as int,
                        scaled as int,
                    ),
                ));
            }
        } else {
            let ki = &mut kids[i];
            ki.raw.set_width(shrunk);
            let fw = kids[i].raw.region.size.x;
            let cw = kids[i].raw.width();
            uncapped_fw = cadd(uncapped_fw, fw);
            uncapped_w = cadd(uncapped_w, cw);
            ust = cadd(ust, k.shrink);
            uncapped.push(i);
            proof {
                assert(kids@ =~= kids_before.update(
                    i as int,
                    spec_shrink_kid(
                        ks0[i as int],
                        shave as int,
                        group_width as int,
                        st as int,
                        scaled as int,
                    ),
                ));
            }
        }
        j2 = j2 + 1;
    }
    proof {
        assert(idxs@.take(n as int) =~= idxs@);
        lemma_shrink_pass(ks0, idxs@, shave as int, group_width as int, st as int, scaled as int);
    }
    if uncapped.len() == idxs.len() {
        proof {
            assert(uncapped@ =~= idxs@);
        }
        return uncapped_fw;
    }
    let rec_parent = csub(parent_width, capped_fw);
    let w2 = shrink_group(kids, &uncapped, uncapped_fw, uncapped_w, ust, rec_parent);
    cadd(capped_fw, w2)
}


/// The index sequence 0, 1, ..., n-1.
pub open spec fn spec_all_idxs(n: nat) -> Seq<usize> {
    Seq::new(n, |i: int| i as usize)
}

/// The whole pipeline for one group in the layout-local frame: grow or
/// shrink along the primary axis, justify, align, decorate. The direction
/// plays no part here: it is fully handled by the frame flip around this
/// function.
pub open spec fn spec_layout_group(
    ks: Seq<Kid>,
    parent_size: Vec2,
    justify: Justify,
    align: Align,
) -> Seq<Kid> {
    let idxs = spec_all_idxs(ks.len());
    let gfw = spec_sum_full(ks);
    let gw = spec_sum_width(ks);
    let gt = spec_sum_grow(ks);
    let st = spec_sum_shrink(ks);
    let grown = if gfw <= parent_size.x as int {
        spec_grow(ks, idxs, gfw, gt, parent_size.x as int)
    } else {
        spec_shrink(ks, idxs, gfw, gw, st, parent_size.x as int)
    };
    let offs = spec_justify_offsets(justify, grown.1, parent_size.x as int, ks.len() as int);
    let ks3 = spec_justify_pass(grown.0, 0, offs.0, offs.1);
    let ks4 = ks3.map_values(|k: Kid| spec_align_kid(k, parent_size.y as int, align));
    ks4.map_values(|k: Kid| spec_decorate_kid(k))
}

/// Lays out one group of siblings in the layout-local frame.
pub fn layout_group(kids: &mut Vec<Kid>, parent_size: Vec2, justify: Justify, align: Align)
    requires
        kids_wf(old(kids)@),
        parent_size.in_range(),
        old(kids)@.len() <= usize::MAX - 1,
    ensures
        final(kids)@ == spec_layout_group(old(kids)@, parent_size, justify, align),
        kids_wf(final(kids)@),
        final(kids)@.len() == old(kids)@.len(),
{
    let ghost ks0 = kids@;
    let n = kids.len();

    // Sums over the group: full widths, content widths, grow and shrink totals.
    let mut gfw: i64 = 0;
    let mut gw: i64 = 0;
    let mut gt: i64 = 0;
    let mut st: i64 = 0;
    let mut j: usize = 0;
    while j < n
        invariant
            n == kids@.len(),
            kids@ == ks0,
            kids_wf(ks0),
            0 <= j <= n,
            in_range(gfw as int),
            in_range(gw as int),
            0 <= gt,
            in_range(gt as int),
            0 <= st,
            in_range(st as int),
            gfw as int == spec_sum_full(ks0.take(j as int)),
            gw as int == spec_sum_width(ks0.take(j as int)),
            gt as int == spec_sum_grow(ks0.take(j as int)),
            st as int == spec_sum_shrink(ks0.take(j as int)),
        decreases n - j,
    {
        proof {
            assert(ks0.take(j + 1).drop_last() =~= ks0.take(j as int));
        }
        let k = kids[j];
        gfw = cadd(gfw, k.raw.full_width());
        gw = cadd(gw, k.raw.width());
        gt = cadd(gt, k.grow);
        st = cadd(st, k.shrink);
        j = j + 1;
    }
    proof {
        assert(ks0.take(n as int) =~= ks0);
    }

    // The full index set.
    let mut idxs: Vec<usize> = Vec::new();
    let mut j2: usize = 0;
    while j2 < n
        invariant
            0 <= j2 <= n,
            idxs@ =~= spec_all_idxs(j2 as nat),
        decreases n - j2,
    {
        idxs.push(j2);
        proof {
            assert(idxs@ =~= spec_all_idxs((j2 + 1) as nat));
        }
        j2 = j2 + 1;
    }
    proof {
        assert(idxs@ =~= spec_all_idxs(n as nat));
        assert(idxs_ok(idxs@, ks0.len() as int));
    }

    // Grow into the slack, or shrink away the overflow.
    let w = if gfw <= parent_size.x {
        grow_group(kids, &idxs, gfw, gt, parent_size.x)
    } else {
        shrink_group(kids, &idxs, gfw, gw, st, parent_size.x)
    };

    // Justify, align, decorate.
    justify_group(kids, w, parent_size.x, justify);
    align_group(kids, parent_size.y, align);
    decorate_group(kids);
}

/// Declared sides rotated one step, matching the rotation the layout-local
/// frame applies to resolved sides.
pub open spec fn spec_swap_sides(s: Sides) -> Sides {
    Sides { top: s.left, right: s.top, bottom: s.right, left: s.bottom }
}

/// A style with its axes exchanged: width and height, minimum and maximum
/// pairs swapped, margins and paddings rotated.
pub open spec fn spec_swap_axes(s: Style) -> Style {
    Style {
        width: s.height,
        height: s.width,
        min_width: s.min_height,
        min_height: s.min_width,
        max_width: s.max_height,
        max_height: s.max_width,
        margin: spec_swap_sides(s.margin),
        padding: spec_swap_sides(s.padding),
        ..s
    }
}

/// Whether all four sides are pixel-declared.
pub open spec fn pixel_sides(s: Sides) -> bool {
    &&& s.top is Px
    &&& s.right is Px
    &&& s.bottom is Px
    &&& s.left is Px
}

/// Law: axis symmetry of the layout frame. Preparing a child for a column
/// layout is the very computation that prepares its axis-swapped style for a
/// row layout, in the same local frame; since the group pipeline never looks
/// at the direction, a column layout therefore equals a row layout of the
/// swapped children with every rectangle flipped back afterwards (and
/// flipping twice is the identity, see `lemma_rect_flip_involution`).
/// Margins and paddings must be pixel-declared: a per-mille side resolves
/// against the flipped axis and is not symmetric.
pub proof fn lemma_prepare_axis_swap(style: Style, local_parent: Vec2)
    requires
        pixel_sides(style.margin),
        pixel_sides(style.padding),
    ensures
        spec_prepare_kid(style, local_parent, false) == spec_prepare_kid(
            spec_swap_axes(style),
            local_parent,
            true,
        ),
{
    let a = spec_prepare_kid(style, local_parent, false);
    let b = spec_prepare_kid(spec_swap_axes(style), local_parent, true);
    assert(a.raw.margin == b.raw.margin);
    assert(a.raw.padding == b.raw.padding);
    assert(a == b);
}

/// Law: whole groups prepared under a column equal the axis-swapped group
/// prepared under a row, child by child; the pipeline after preparation is
/// direction-free, so the two layouts coincide in the local frame.
pub proof fn lemma_column_row_round_trip(
    styles: Seq<Style>,
    local_parent: Vec2,
    justify: Justify,
    align: Align,
)
    requires
        forall|i: int|
            0 <= i < styles.len() ==> pixel_sides((#[trigger] styles[i]).margin) && pixel_sides(
                styles[i].padding,
            ),
    ensures
        spec_layout_group(
            styles.map_values(|s: Style| spec_prepare_kid(s, local_parent, false)),
            local_parent,
            justify,
            align,
        ) == spec_layout_group(
            styles.map_values(
                |s: Style| spec_prepare_kid(spec_swap_axes(s), local_parent, true),
            ),
            local_parent,
            justify,
            align,
        ),
{
    let col = styles.map_values(|s: Style| spec_prepare_kid(s, local_parent, false));
    let row = styles.map_values(|s: Style| spec_prepare_kid(spec_swap_axes(s), local_parent, true));
    assert forall|i: int| 0 <= i < styles.len() implies col[i] == row[i] by {
        lemma_prepare_axis_swap(styles[i], local_parent);
    }
    assert(col =~= row);
}


/// Law: a child with shrink factor zero is never shaved. Its content width
/// stands unless it already lay at or below its minimum, in which case the
/// cap raises it to exactly the minimum.
pub proof fn lemma_shrink_zero_keeps_width(
    k: Kid,
    shave: int,
    group_width: int,
    shrink_total: int,
    scaled: int,
)
    requires
        kid_wf(k),
        k.shrink == 0,
        0 < group_width,
        0 < shrink_total,
        0 < scaled,
    ensures
        spec_shave_of(k, shave, group_width, shrink_total, scaled) == 0,
        spec_shrink_capped(k, shave, group_width, shrink_total, scaled) <==> k.raw.spec_width()
            <= k.raw.min_size.x,
        !spec_shrink_capped(k, shave, group_width, shrink_total, scaled) ==> spec_shrink_kid(
            k,
            shave,
            group_width,
            shrink_total,
            scaled,
        ) == (Kid { raw: k.raw.spec_with_width(k.raw.spec_width()), ..k }),
        spec_shrink_capped(k, shave, group_width, shrink_total, scaled) ==> spec_shrink_kid(
            k,
            shave,
            group_width,
            shrink_total,
            scaled,
        ) == (Kid { raw: k.raw.spec_with_width(k.raw.min_size.x as int), ..k }),
{
    let w = spec_shave_weight(k, shave, group_width, shrink_total);
    assert(w == clip((clip((shave * spec_wplus(k)) / group_width) * 0) / shrink_total));
    assert(clip((shave * spec_wplus(k)) / group_width) * 0 == 0) by (nonlinear_arith);
    assert(w == clip(0int / shrink_total));
    assert(0int / shrink_total == 0) by (nonlinear_arith)
        requires
            0 < shrink_total,
    ;
    assert(spec_shave_of(k, shave, group_width, shrink_total, scaled) == clip(0int * shave / scaled));
    assert(0int * shave == 0) by (nonlinear_arith);
    assert(0int / scaled == 0) by (nonlinear_arith)
        requires
            0 < scaled,
    ;
    assert(clip(k.raw.spec_width() - 0) == k.raw.spec_width());
}

/// Law: one shrink step keeps every child between its bounds. A capped child
/// lands exactly on its minimum width; an uncapped one is shaved by a
/// non-negative amount, so it stays above its minimum and never grows past
/// its current width.
pub proof fn lemma_shrink_kid_bounds(
    k: Kid,
    shave: int,
    group_width: int,
    shrink_total: int,
    scaled: int,
)
    requires
        kid_wf(k),
        0 <= shave,
        in_range(shave),
        0 < group_width,
        0 < shrink_total,
        0 < scaled,
    ensures
        ({
            let k2 = spec_shrink_kid(k, shave, group_width, shrink_total, scaled);
            &&& (spec_shrink_capped(k, shave, group_width, shrink_total, scaled) ==> k2.raw
                == k.raw.spec_with_width(k.raw.min_size.x as int))
            &&& (!spec_shrink_capped(k, shave, group_width, shrink_total, scaled) ==> ({
                let w2 = clip(
                    k.raw.spec_width() - spec_shave_of(k, shave, group_width, shrink_total, scaled),
                );
                &&& k2.raw == k.raw.spec_with_width(w2)
                &&& k.raw.min_size.x < w2
                &&& w2 <= k.raw.spec_width()
            }))
        }),
{
    let t = clip((shave * spec_wplus(k)) / group_width);
    assert(0 <= (shave * spec_wplus(k)) / group_width) by (nonlinear_arith)
        requires
            0 <= shave && 0 <= spec_wplus(k) && 0 < group_width,
    ;
    let wgt = spec_shave_weight(k, shave, group_width, shrink_total);
    assert(0 <= (t * k.shrink) / shrink_total) by (nonlinear_arith)
        requires
            0 <= t && 0 <= k.shrink && 0 < shrink_total,
    ;
    let so = spec_shave_of(k, shave, group_width, shrink_total, scaled);
    assert(0 <= (wgt * shave) / scaled) by (nonlinear_arith)
        requires
            0 <= wgt && 0 <= shave && 0 < scaled,
    ;
    assert(0 <= so);
    if !spec_shrink_capped(k, shave, group_width, shrink_total, scaled) {
        let w2 = clip(k.raw.spec_width() - so);
        assert(k.raw.min_size.x < w2);
        assert(in_range(k.raw.spec_width()));
        assert(w2 <= k.raw.spec_width());
    }
}


/// Law: under `SpaceEvenly`, the leading offset and every gap are the same
/// value, and when `n + 1` divides the remaining space exactly they all equal
/// `(parent_width - group_width) / (n + 1)` — for three children, a quarter
/// of the remainder before, between and after. Integer division truncates,
/// so without divisibility each stated gap is the rounded-down quarter and
/// the difference collects after the last child.
pub proof fn lemma_space_evenly_gaps(group_width: int, parent_width: int, n: int)
    requires
        in_range(group_width),
        in_range(parent_width),
        0 <= group_width <= parent_width,
        0 <= n,
        n + 1 <= COORD_LIMIT as int,
    ensures
        ({
            let offs = spec_justify_offsets(Justify::SpaceEvenly, group_width, parent_width, n);
            &&& offs.0 == offs.1
            &&& offs.0 == spec_div0(parent_width - group_width, n + 1)
            &&& ((n + 1) * offs.0 <= parent_width - group_width)
            &&& (parent_width - group_width) % (n + 1) == 0 ==> (n + 1) * offs.0 == parent_width
                - group_width
        }),
{
    let rem = parent_width - group_width;
    assert(clip(rem) == rem);
    assert(spec_cap_count(n + 1) == n + 1);
    let q = spec_div0(rem, n + 1);
    assert(q == rem / (n + 1));
    assert((n + 1) * (rem / (n + 1)) <= rem && (rem % (n + 1) == 0 ==> (n + 1) * (rem / (n + 1))
        == rem)) by (nonlinear_arith)
        requires
            0 <= rem && 0 < n + 1,
    ;
}


/// Law: a single child with fixed pixel width and height, zero margins and
/// paddings, no explicit basis, zero grow, under `Start` justification and
/// `Start` alignment, comes out of the pipeline at the local origin with
/// exactly its declared size, for every parent at least as wide.
pub proof fn lemma_single_fixed_child(style: Style, parent: Vec2, w: i64, h: i64)
    requires
        parent.in_range(),
        0 <= w <= parent.x,
        0 <= h,
        in_range(h as int),
        style.width == Val::Px(w),
        style.height == Val::Px(h),
        style.basis == Val::Auto,
        style.margin == crate::style::Sides::spec_default(),
        style.padding == crate::style::Sides::spec_default(),
        style.min_width == Val::Px(0),
        style.min_height == Val::Px(0),
        style.max_width == Val::Auto,
        style.max_height == Val::Auto,
        style.grow == 0,
        style.align_self == AlignSelf::Auto,
    ensures
        ({
            let out = spec_layout_group(
                seq![spec_prepare_kid(style, parent, true)],
                parent,
                Justify::Start,
                Align::Start,
            );
            &&& out.len() == 1
            &&& out[0].raw.region == (crate::math::Rect {
                position: Vec2 { x: 0, y: 0 },
                size: Vec2 { x: w, y: h },
            })
        }),
{
    let k0 = spec_prepare_kid(style, parent, true);
    let zero = crate::raw::RawSides { top: 0, right: 0, bottom: 0, left: 0 };
    assert(k0.raw.margin == zero);
    assert(k0.raw.padding == zero);
    assert(k0.raw.spec_x_insets() == 0);
    assert(k0.raw.region.position == (Vec2 { x: 0, y: 0 }));
    assert(k0.raw.region.size == (Vec2 { x: w, y: h }));
    assert(k0.grow == 0);
    assert(k0.raw.max_size.x == parent.x);
    assert(k0.raw.spec_width() == w);
    assert(k0.raw.spec_full_width() == w);
    assert(kid_wf(k0));

    let ks = seq![k0];
    assert(ks.drop_last() =~= Seq::<Kid>::empty());
    let gfw = spec_sum_full(ks);
    let gw = spec_sum_width(ks);
    let gt = spec_sum_grow(ks);
    assert(ks.last() == k0);
    assert(spec_sum_full(Seq::<Kid>::empty()) == 0);
    assert(spec_sum_width(Seq::<Kid>::empty()) == 0);
    assert(spec_sum_grow(Seq::<Kid>::empty()) == 0);
    assert(gfw == clip(0 + w));
    assert(gfw == w);
    assert(gw == w);
    assert(gt == 0);

    let idxs = spec_all_idxs(1);
    assert(idxs =~= seq![0usize]);
    assert(idxs.drop_last() =~= Seq::<usize>::empty());

    // Grow branch: slack is distributed to a zero-grow child, which gets
    // nothing and is not capped.
    assert(gfw <= parent.x as int);
    let slack0 = clip(parent.x - gfw);
    assert(slack0 == parent.x - w);
    let p = spec_grow_pass(ks, idxs, slack0, 1);
    assert(spec_grow_pass(ks, Seq::<usize>::empty(), slack0, 1) == (
        ks,
        0int,
        0int,
        0int,
        Seq::<usize>::empty(),
    ));
    assert(slack0 * 0 == 0) by (nonlinear_arith);
    assert(0int / 1int == 0);
    assert(spec_grow_share(k0, slack0, 1) == 0);
    assert(spec_grown_width(k0, slack0, 1) == w);
    assert(!spec_grow_capped(k0, slack0, 1));
    let k1 = spec_grow_kid(k0, slack0, 1);
    assert(k0.raw.spec_with_width(w as int).region.size.x == clip(w + 0));
    assert(k1 == k0);
    assert(p.0 =~= ks);
    assert(p.2 == clip(0 + w));
    assert(p.4 =~= seq![0usize]);
    assert(p.4.len() == idxs.len());
    let grown = spec_grow(ks, idxs, gfw, gt, parent.x as int);
    assert(grown.0 =~= ks && grown.1 == w);

    // Start justification leaves the child at the origin.
    let offs = spec_justify_offsets(Justify::Start, w as int, parent.x as int, 1);
    assert(offs == (0int, 0int));
    assert(spec_kid_at_x(k0, 0) == k0);
    assert(spec_justify_pass(ks, 1, clip(clip(0 + w) + 0), 0) == ks);
    assert(spec_justify_pass(ks, 0, 0, 0) == ks);

    // Start alignment and decoration leave the region alone.
    let ks4 = ks.map_values(|k: Kid| spec_align_kid(k, parent.y as int, Align::Start));
    assert(spec_align_kid(k0, parent.y as int, Align::Start) == k0);
    assert(ks4 =~= ks);
    let ks5 = ks4.map_values(|k: Kid| spec_decorate_kid(k));
    assert(spec_decorate_kid(k0).raw.region == k0.raw.region);
    assert(ks5.len() == 1);
    assert(ks5[0].raw.region == k0.raw.region);
    let out = spec_layout_group(ks, parent, Justify::Start, Align::Start);
    assert(out == ks5);
}

} // verus!