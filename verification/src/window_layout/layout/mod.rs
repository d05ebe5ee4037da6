//! Split layouts: a rectangle cut into panes along one axis, with draggable dividers.
//!
//! Each child has a weight. The pixels of the container that are left when the gaps
//! between the panes are taken away are shared out in proportion to the weights.

use vstd::prelude::*;
use crate::control::ControlId;
use crate::control::ControlState;
use crate::control::ControlStateView;
use crate::control::SessionId;
use crate::control::State;
use crate::control::Uiid;
use crate::event::EventView;
use crate::event::UIEvent;
use crate::geometry::Rect;
use crate::geometry::Vec2i;
use crate::geometry::half;
use crate::geometry::half_of;
use crate::geometry::saturate;
use crate::geometry::saturate_to_i32;
use crate::render::DrawKind;
use crate::render::DrawRequest;
use crate::slotmap::Slotmap;
use crate::window_layout::depth_offset;
use crate::window_layout::tabs_container::TAB_SIZE;
use crate::window_layout::layout::active_divider::ActiveDivider;
use crate::window_layout::layout::active_divider::DivData;
use crate::window_layout::layout::active_divider::LayoutDragDivider;
use crate::window_layout::LayoutOrTabInfo;
use crate::window_layout::LayoutOrTabKey;
use crate::window_layout::LayoutSlotKey;
use crate::window_layout::TabsSlotKey;
use crate::ContainerInfo;

pub mod active_divider;

verus! {

/// A child of a split and its weight: its share of the container, relative to the
/// weights of its siblings.
#[derive(Clone, Copy, Debug, PartialEq, Eq, Structural)]
pub struct DividedElement {
    pub layout_or_tab_key: LayoutOrTabKey,
    pub size: u32,
}

impl DividedElement {
    pub fn new(key: LayoutOrTabKey, size: u32) -> (element: DividedElement)
        ensures
            element.layout_or_tab_key == key,
            element.size == size,
    {
        DividedElement { layout_or_tab_key: key, size }
    }

    pub fn new_layout(key: LayoutSlotKey, size: u32) -> (element: DividedElement)
        ensures
            element.layout_or_tab_key == LayoutOrTabKey::LayoutKey(key),
            element.size == size,
    {
        DividedElement { layout_or_tab_key: LayoutOrTabKey::LayoutKey(key), size }
    }

    pub fn new_tab(key: TabsSlotKey, size: u32) -> (element: DividedElement)
        ensures
            element.layout_or_tab_key == LayoutOrTabKey::TabKey(key),
            element.size == size,
    {
        DividedElement { layout_or_tab_key: LayoutOrTabKey::TabKey(key), size }
    }
}

/// Axis along which a split lays out its children.
#[derive(Clone, Copy, Debug, PartialEq, Eq, Structural)]
pub enum Orientation {
    Horizontal,
    Vertical,
}

impl Orientation {
    /// The coordinate of `point` along the axis of a split of this orientation.
    pub open spec fn along(&self, point: Vec2i) -> i32 {
        match self {
            Orientation::Horizontal => point.x,
            Orientation::Vertical => point.y,
        }
    }

    /// Executable form of [`Orientation::along`].
    pub fn coordinate(&self, point: Vec2i) -> (c: i32)
        ensures
            c == self.along(point),
    {
        match self {
            Orientation::Horizontal => point.x,
            Orientation::Vertical => point.y,
        }
    }
}

/// Direction in which the panes follow each other along their axis.
#[derive(Clone, Copy, Debug, PartialEq, Eq, Structural)]
pub enum Sign {
    Positive,
    Negative,
}

impl Sign {
    pub open spec fn factor(&self) -> int {
        match self {
            Sign::Positive => 1,
            Sign::Negative => -1,
        }
    }

    pub fn as_i32(&self) -> (factor: i32)
        ensures
            factor == self.factor(),
    {
        match self {
            Sign::Positive => 1,
            Sign::Negative => -1,
        }
    }
}

/// Pixel extent and center of one pane along the axis of its split.
#[derive(Clone, Copy, Debug, PartialEq, Eq, Structural)]
pub struct ChildrenInfo {
    pub key: LayoutOrTabKey,
    pub size: i32,
    pub position: i32,
}

/// Width of the gap between two panes.
pub const DIVISION_SIZE: i32 = 2;

/// Sum of the weights of the children.
pub open spec fn total_weight(children: Seq<DividedElement>) -> nat
    decreases children.len(),
{
    if children.len() == 0 {
        0
    } else {
        total_weight(children.drop_last()) + children.last().size as nat
    }
}

/// Pixels that the panes share: the extent of the container without the gaps between the
/// panes, and nothing if the gaps alone do not fit.
pub open spec fn available_extent(inner_size: int, count: nat) -> int {
    let rest = inner_size - DIVISION_SIZE * (count - 1);
    if rest > 0 {
        rest
    } else {
        0
    }
}

/// The part of `available` pixels that a pane of weight `weight` gets when all weights
/// add up to `total`: `available * weight / total`, rounded to the nearest pixel.
pub open spec fn share(available: int, weight: nat, total: nat) -> int {
    if total == 0 {
        0
    } else {
        (2 * available * weight + total) / (2 * total as int)
    }
}

/// Sum of the weights of the first `count` children.
pub open spec fn prefix_weight(children: Seq<DividedElement>, count: int) -> nat {
    total_weight(children.subrange(0, count))
}

/// Where, among the pixels that the panes share, the first `count` panes end: their share
/// of these pixels, rounded to the nearest pixel. All panes together end where the
/// pixels end.
pub open spec fn pane_edge(children: Seq<DividedElement>, inner_size: int, count: int) -> int {
    share(
        available_extent(inner_size, children.len()),
        prefix_weight(children, count),
        total_weight(children),
    )
}

/// Pixel extent of child `i` in a container of extent `inner_size`: from where the panes
/// before it end to where it ends with them.
pub open spec fn child_extent(children: Seq<DividedElement>, inner_size: int, i: int) -> int {
    pane_edge(children, inner_size, i + 1) - pane_edge(children, inner_size, i)
}

/// Where child `i` begins: behind the panes and the gaps before it.
pub open spec fn child_start(
    children: Seq<DividedElement>,
    start: int,
    inner_size: int,
    sign: Sign,
    i: int,
) -> int {
    start + sign.factor() * (pane_edge(children, inner_size, i) + i * DIVISION_SIZE)
}

/// Center of child `i`, such that the pane covers `[start, start + extent)` where the
/// panes run up the axis and `[start - extent, start)` where they run down.
pub open spec fn child_center(
    children: Seq<DividedElement>,
    start: int,
    inner_size: int,
    sign: Sign,
    i: int,
) -> int {
    let begin = child_start(children, start, inner_size, sign, i);
    let extent = child_extent(children, inner_size, i);
    match sign {
        Sign::Positive => begin + half(extent),
        Sign::Negative => begin - extent + half(extent),
    }
}

/// Center of the gap behind child `i`.
pub open spec fn division_center(
    children: Seq<DividedElement>,
    start: int,
    inner_size: int,
    sign: Sign,
    i: int,
) -> int {
    child_start(children, start, inner_size, sign, i + 1) - sign.factor() * half(
        DIVISION_SIZE as int,
    )
}

/// What `compute_children_sizes` returns for child `i`.
pub open spec fn child_info(
    children: Seq<DividedElement>,
    start: int,
    inner_size: int,
    sign: Sign,
    i: int,
) -> ChildrenInfo {
    ChildrenInfo {
        key: children[i].layout_or_tab_key,
        size: child_extent(children, inner_size, i) as i32,
        position: saturate(child_center(children, start, inner_size, sign, i)) as i32,
    }
}

/// No weight exceeds the sum of all weights.
pub proof fn lemma_weight_within_total(children: Seq<DividedElement>, i: int)
    requires
        0 <= i < children.len(),
    ensures
        children[i].size <= total_weight(children),
    decreases children.len(),
{
    if i < children.len() - 1 {
        lemma_weight_within_total(children.drop_last(), i);
    }
}

/// The sum of the weights of the first `n` children is the sum of the first `n - 1` and
/// the weight of child `n - 1`.
pub proof fn lemma_total_weight_step(children: Seq<DividedElement>, n: int)
    requires
        0 < n <= children.len(),
    ensures
        total_weight(children.subrange(0, n)) == total_weight(children.subrange(0, n - 1))
            + children[n - 1].size,
{
    assert(children.subrange(0, n).drop_last() =~= children.subrange(0, n - 1));
}

/// A share is never negative and never more than what is shared out.
pub proof fn lemma_share_bounds(available: int, weight: nat, total: nat)
    requires
        0 <= available,
        weight <= total,
    ensures
        0 <= share(available, weight, total) <= available,
{
    if total > 0 {
        let n = 2 * available * weight + total;
        let d = 2 * total as int;
        assert(0 <= n) by (nonlinear_arith)
            requires
                n == 2 * available * weight + total,
                0 <= available,
        ;
        assert(n < d * (available + 1)) by (nonlinear_arith)
            requires
                n == 2 * available * weight + total,
                d == 2 * total,
                0 <= available,
                weight <= total,
                total > 0,
        ;
        vstd::arithmetic::div_mod::lemma_div_pos_is_pos(n, d);
        vstd::arithmetic::div_mod::lemma_div_by_multiple_is_strongly_ordered(
            n,
            d * (available + 1),
            available + 1,
            d,
        );
        vstd::arithmetic::div_mod::lemma_div_multiples_vanish(available + 1, d);
    }
}

/// A greater weight has no smaller share.
pub proof fn lemma_share_grows(available: int, lighter: nat, heavier: nat, total: nat)
    requires
        0 <= available,
        lighter <= heavier,
    ensures
        share(available, lighter, total) <= share(available, heavier, total),
{
    if total > 0 {
        assert(2 * available * lighter + total <= 2 * available * heavier + total)
            by (nonlinear_arith)
            requires
                0 <= available,
                lighter <= heavier,
        ;
        vstd::arithmetic::div_mod::lemma_div_is_ordered(
            2 * available * lighter + total,
            2 * available * heavier + total,
            2 * total as int,
        );
    }
}

/// The first `count` children weigh no more than the first `more`, and no more than all.
pub proof fn lemma_prefix_weight_grows(children: Seq<DividedElement>, count: int, more: int)
    requires
        0 <= count <= more <= children.len(),
    ensures
        prefix_weight(children, count) <= prefix_weight(children, more),
        prefix_weight(children, children.len() as int) == total_weight(children),
        prefix_weight(children, 0) == 0,
    decreases more - count,
{
    assert(children.subrange(0, children.len() as int) =~= children);
    if count < more {
        lemma_total_weight_step(children, more);
        lemma_prefix_weight_grows(children, count, more - 1);
    }
}

/// The panes tile what they share: no pane has a negative extent, the first pane begins
/// where the pixels begin, and where there is weight to share by, the last pane ends
/// where the pixels end. So the extents of the panes add up to the pixels that they
/// share, and with the gaps between them to the extent of a container that has room for
/// the gaps.
pub proof fn lemma_panes_tile(children: Seq<DividedElement>, inner_size: int, i: int)
    requires
        0 <= i < children.len(),
    ensures
        0 <= pane_edge(children, inner_size, i) <= pane_edge(children, inner_size, i + 1)
            <= available_extent(inner_size, children.len()),
        child_extent(children, inner_size, i) >= 0,
        pane_edge(children, inner_size, 0) == 0,
        total_weight(children) > 0 ==> pane_edge(children, inner_size, children.len() as int)
            == available_extent(inner_size, children.len()),
{
    let available = available_extent(inner_size, children.len());
    let total = total_weight(children);
    lemma_prefix_weight_grows(children, 0, i);
    lemma_prefix_weight_grows(children, i, i + 1);
    lemma_prefix_weight_grows(children, i + 1, children.len() as int);
    lemma_share_grows(available, prefix_weight(children, i), prefix_weight(children, i + 1), total);
    lemma_share_bounds(available, prefix_weight(children, i), total);
    lemma_share_bounds(available, prefix_weight(children, i + 1), total);
    assert(share(available, 0, total) == 0) by {
        if total > 0 {
            lemma_divide_bounds(total as int, 2 * total as int, 0);
            lemma_divide_bounds(total as int, 2 * total as int, 1);
        }
    }
    if total > 0 {
        assert(share(available, total, total) == available) by {
            let n = 2 * available * total + total;
            let d = 2 * total as int;
            lemma_divide_bounds(n, d, available);
            lemma_divide_bounds(n, d, available + 1);
            assert(d * available <= n && !(d * (available + 1) <= n)) by (nonlinear_arith)
                requires
                    n == 2 * available * total + total,
                    d == 2 * total,
                    total > 0,
            ;
        }
    }
}

/// An offset along the axis, counted in the direction of the panes.
pub proof fn lemma_signed_offset(sign: Sign, offset: int)
    ensures
        sign.factor() * offset == (match sign {
            Sign::Positive => offset,
            Sign::Negative => -offset,
        }),
{
    match sign {
        Sign::Positive => {
            assert(1 * offset == offset);
        },
        Sign::Negative => {
            assert((-1) * offset == -offset) by (nonlinear_arith);
        },
    }
}

/// The panes and the gaps between them fill the container: each pane begins
/// `DIVISION_SIZE` pixels behind the end of the pane before it, and in a container that
/// has room for the gaps, with weight to share by, the last pane ends where the container
/// ends. So the extents of the panes and the gaps add up to the extent of the container.
pub proof fn lemma_panes_fill_container(
    children: Seq<DividedElement>,
    start: int,
    inner_size: int,
    sign: Sign,
    i: int,
)
    requires
        0 <= i < children.len(),
        total_weight(children) > 0,
        inner_size >= DIVISION_SIZE * (children.len() - 1),
    ensures
        i + 1 < children.len() ==> child_start(children, start, inner_size, sign, i + 1)
            == child_start(children, start, inner_size, sign, i) + sign.factor() * (child_extent(
            children,
            inner_size,
            i,
        ) + DIVISION_SIZE),
        child_start(children, start, inner_size, sign, children.len() - 1) + sign.factor()
            * child_extent(children, inner_size, children.len() - 1) == start + sign.factor()
            * inner_size,
        child_start(children, start, inner_size, sign, 0) == start,
{
    lemma_panes_tile(children, inner_size, i);
    lemma_panes_tile(children, inner_size, children.len() - 1);
    let last = children.len() - 1;
    lemma_signed_offset(sign, pane_edge(children, inner_size, i) + i * DIVISION_SIZE);
    lemma_signed_offset(sign, pane_edge(children, inner_size, i + 1) + (i + 1) * DIVISION_SIZE);
    lemma_signed_offset(sign, child_extent(children, inner_size, i) + DIVISION_SIZE);
    lemma_signed_offset(sign, pane_edge(children, inner_size, last) + last * DIVISION_SIZE);
    lemma_signed_offset(sign, child_extent(children, inner_size, last));
    lemma_signed_offset(sign, inner_size);
    lemma_signed_offset(sign, 0);
}

/// The least whole number that `divisor` takes to `amount` or beyond: `amount / divisor`,
/// rounded up. `divisor` is positive.
pub open spec fn ceil_div(amount: int, divisor: int) -> int {
    (amount + divisor - 1) / divisor
}

/// The least weight whose share of `available` pixels is `extent` pixels or more, when
/// all weights add up to `total`.
pub open spec fn least_weight_for(available: int, total: int, extent: int) -> int {
    ceil_div(total * (2 * extent - 1), 2 * available)
}

/// The greatest weight whose share of `available` pixels is `extent` pixels or less, when
/// all weights add up to `total`.
pub open spec fn greatest_weight_for(available: int, total: int, extent: int) -> int {
    (total * (2 * extent + 1) - 1) / (2 * available)
}

/// A whole number is at least `amount / divisor`, rounded up, exactly if the divisor
/// takes it to the amount or beyond; it is at most `amount / divisor`, rounded down,
/// exactly if the divisor does not take it beyond the amount.
pub proof fn lemma_divide_bounds(amount: int, divisor: int, x: int)
    requires
        divisor > 0,
    ensures
        x >= ceil_div(amount, divisor) <==> divisor * x >= amount,
        x <= amount / divisor <==> divisor * x <= amount,
{
    vstd::arithmetic::div_mod::lemma_fundamental_div_mod(amount, divisor);
    vstd::arithmetic::div_mod::lemma_mod_bound(amount, divisor);
    vstd::arithmetic::div_mod::lemma_fundamental_div_mod(amount + divisor - 1, divisor);
    vstd::arithmetic::div_mod::lemma_mod_bound(amount + divisor - 1, divisor);
    let q = amount / divisor;
    let r = amount % divisor;
    let c = (amount + divisor - 1) / divisor;
    let e = (amount + divisor - 1) % divisor;
    assert(x <= q <==> divisor * x <= amount) by (nonlinear_arith)
        requires
            divisor > 0,
            amount == divisor * q + r,
            0 <= r < divisor,
    ;
    assert(x >= c <==> divisor * x >= amount) by (nonlinear_arith)
        requires
            divisor > 0,
            amount + divisor - 1 == divisor * c + e,
            0 <= e < divisor,
    ;
}

/// The share of a weight is `extent` pixels or more exactly if the weight is at least
/// `least_weight_for` that extent, and `extent` pixels or less exactly if the weight is
/// at most `greatest_weight_for` it.
pub proof fn lemma_weight_for_extent(available: int, weight: nat, total: nat, extent: int)
    requires
        available > 0,
        total > 0,
    ensures
        share(available, weight, total) >= extent <==> weight >= least_weight_for(
            available,
            total as int,
            extent,
        ),
        share(available, weight, total) <= extent <==> weight <= greatest_weight_for(
            available,
            total as int,
            extent,
        ),
{
    let n = 2 * available * weight + total;
    let d = 2 * total as int;
    // The share is at least `extent` exactly if the numerator reaches `extent * d`.
    lemma_divide_bounds(n, d, extent);
    lemma_divide_bounds(n, d, extent + 1);
    assert(d * extent <= n <==> 2 * available * weight >= total * (2 * extent - 1))
        by (nonlinear_arith)
        requires
            n == 2 * available * weight + total,
            d == 2 * total,
    ;
    assert(d * (extent + 1) <= n <==> 2 * available * weight >= total * (2 * extent + 1))
        by (nonlinear_arith)
        requires
            n == 2 * available * weight + total,
            d == 2 * total,
    ;
    lemma_divide_bounds(total * (2 * extent - 1), 2 * available, weight as int);
    lemma_divide_bounds(total * (2 * extent + 1) - 1, 2 * available, weight as int);
    assert(2 * available * weight == (2 * available) * weight) by (nonlinear_arith);
}

/// The shares of two weights that add up to the total add up to all pixels or to one
/// more: neither pane gets less than what the other leaves.
pub proof fn lemma_shares_cover(available: int, weight: nat, total: nat)
    requires
        available >= 0,
        total > 0,
        weight <= total,
    ensures
        share(available, weight, total) + share(available, (total - weight) as nat, total)
            >= available,
{
    let d = 2 * total as int;
    let n0 = 2 * available * weight + total;
    let n1 = 2 * available * (total - weight) + total;
    let s0 = n0 / d;
    lemma_divide_bounds(n0, d, s0 + 1);
    lemma_divide_bounds(n1, d, available - s0);
    assert(d * (available - s0) <= n1) by (nonlinear_arith)
        requires
            d == 2 * total,
            n0 == 2 * available * weight + total,
            n1 == 2 * available * (total - weight) + total,
            n0 < d * (s0 + 1),
    ;
}

/// Executable form of [`least_weight_for`].
pub fn least_weight(available: i64, total: u128, extent: i64) -> (weight: u128)
    requires
        0 < available <= 0x1_0000_0000,
        0 < total <= 0x1_0000_0000_0000_0000,
        0 < extent <= 0x1_0000_0000,
    ensures
        weight == least_weight_for(available as int, total as int, extent as int),
        weight <= 0x1_0000_0000_0000_0000 * 0x2_0000_0001,
{
    proof {
        vstd::arithmetic::div_mod::lemma_div_nonincreasing(
            total * (2 * extent - 1) + 2 * available - 1,
            2 * available as int,
        );
    }
    assert(0 <= total * (2 * extent - 1) <= 0x1_0000_0000_0000_0000 * 0x2_0000_0000)
        by (nonlinear_arith)
        requires
            0 < total <= 0x1_0000_0000_0000_0000,
            0 < 2 * extent - 1 <= 0x2_0000_0000,
    ;
    (total * (2 * extent as u128 - 1) + 2 * available as u128 - 1) / (2 * available as u128)
}

/// Executable form of [`greatest_weight_for`].
pub fn greatest_weight(available: i64, total: u128, extent: i64) -> (weight: u128)
    requires
        0 < available <= 0x1_0000_0000,
        0 < total <= 0x1_0000_0000_0000_0000,
        0 < extent <= 0x1_0000_0000,
    ensures
        weight == greatest_weight_for(available as int, total as int, extent as int),
        weight <= 0x1_0000_0000_0000_0000 * 0x2_0000_0001,
{
    assert(0 < total * (2 * extent + 1) <= 0x1_0000_0000_0000_0000 * 0x2_0000_0001)
        by (nonlinear_arith)
        requires
            0 < total <= 0x1_0000_0000_0000_0000,
            0 < 2 * extent + 1 <= 0x2_0000_0001,
    ;
    proof {
        vstd::arithmetic::div_mod::lemma_div_nonincreasing(
            total * (2 * extent + 1) - 1,
            2 * available as int,
        );
    }
    (total * (2 * extent as u128 + 1) - 1) / (2 * available as u128)
}

/// Greatest sum of the weights of the children of a split.
pub const MAX_TOTAL_WEIGHT: u128 = 0xffff_ffff_ffff_ffff * 0xffff_ffff;

/// Executable form of [`share`].
fn share_of(available: i32, weight: u128, total: u128) -> (part: i32)
    requires
        0 <= available,
        weight <= total,
        total <= MAX_TOTAL_WEIGHT,
    ensures
        part == share(available as int, weight as nat, total as nat),
        0 <= part <= available,
{
    proof {
        lemma_share_bounds(available as int, weight as nat, total as nat);
    }
    if total == 0 {
        0
    } else {
        assert(0 <= 2 * available * weight + total <= 0xffff_ffff * MAX_TOTAL_WEIGHT)
            by (nonlinear_arith)
            requires
                0 <= available <= 0x7fff_ffff,
                0 <= weight <= total,
                total <= MAX_TOTAL_WEIGHT,
        ;
        assert(2 * available * weight == 2 * (available * weight)) by (nonlinear_arith);
        assert(0 <= available * weight <= 2 * available * weight + total) by (nonlinear_arith)
            requires
                0 <= available,
                0 <= weight,
                0 <= total,
        ;
        let numerator: u128 = 2 * (available as u128 * weight) + total;
        let part: u128 = numerator / (2 * total);
        part as i32
    }
}

/// Sum of the weights of the children.
pub fn sum_weights(children: &Vec<DividedElement>) -> (total: u128)
    ensures
        total == total_weight(children@),
        total <= children.len() * 0xffff_ffff,
{
    let mut total: u128 = 0;
    let mut i: usize = 0;
    while i < children.len()
        invariant
            i <= children.len(),
            total == total_weight(children@.subrange(0, i as int)),
            total <= i * 0xffff_ffff,
        decreases children.len() - i,
    {
        proof {
            lemma_total_weight_step(children@, i + 1);
        }
        total = total + children[i].size as u128;
        i += 1;
    }
    assert(children@.subrange(0, i as int) =~= children@);
    total
}

/// Cuts the extent `inner_size`, which begins at `start_pos`, into one pane for each
/// child, with a gap of `DIVISION_SIZE` pixels between two panes. Returns the extent and
/// the center of each pane, and the center of each gap. Centers saturate.
pub fn compute_children_sizes(
    children: &Vec<DividedElement>,
    start_pos: i64,
    inner_size: i32,
    sign: Sign,
) -> (result: (Vec<ChildrenInfo>, Vec<i32>))
    ensures
        result.0.len() == children.len(),
        forall|i: int|
            0 <= i < children.len() ==> result.0[i] == child_info(
                children@,
                start_pos as int,
                inner_size as int,
                sign,
                i,
            ),
        children.len() > 0 ==> result.1.len() == children.len() - 1,
        children.len() == 0 ==> result.1.len() == 0,
        forall|i: int|
            0 <= i < result.1.len() ==> result.1[i] == saturate(
                division_center(children@, start_pos as int, inner_size as int, sign, i),
            ),
{
    let mut children_sizes: Vec<ChildrenInfo> = Vec::with_capacity(children.len());
    let mut division_positions: Vec<i32> = Vec::with_capacity(children.len());
    let count: usize = children.len();
    if count == 0 {
        return (children_sizes, division_positions);
    }
    let total: u128 = sum_weights(children);
    let rest: i128 = inner_size as i128 - DIVISION_SIZE as i128 * (count as i128 - 1);
    let available: i32 = if rest > 0 {
        rest as i32
    } else {
        0
    };
    let mut weight_before: u128 = 0;
    let mut edge_before: i32 = 0;
    let mut index: usize = 0;
    proof {
        lemma_prefix_weight_grows(children@, 0, 0);
        lemma_share_bounds(available as int, 0, total as nat);
        assert(share(available as int, 0, total as nat) == 0) by {
            if total > 0 {
                lemma_divide_bounds(total as int, 2 * total as int, 0);
                lemma_divide_bounds(total as int, 2 * total as int, 1);
            }
        }
    }
    while index < count
        invariant
            count == children.len(),
            count > 0,
            index <= count,
            total == total_weight(children@),
            total <= count * 0xffff_ffff,
            available == available_extent(inner_size as int, count as nat),
            0 <= available,
            weight_before == prefix_weight(children@, index as int),
            weight_before <= total,
            edge_before == pane_edge(children@, inner_size as int, index as int),
            0 <= edge_before <= available,
            children_sizes.len() == index,
            forall|i: int|
                0 <= i < index ==> children_sizes[i] == child_info(
                    children@,
                    start_pos as int,
                    inner_size as int,
                    sign,
                    i,
                ),
            index < count ==> division_positions.len() == index,
            index == count ==> division_positions.len() == count - 1,
            forall|i: int|
                0 <= i < division_positions.len() ==> division_positions[i] == saturate(
                    division_center(children@, start_pos as int, inner_size as int, sign, i),
                ),
        decreases count - index,
    {
        let child = children[index];
        proof {
            lemma_total_weight_step(children@, index + 1);
            lemma_prefix_weight_grows(children@, index + 1, count as int);
            lemma_panes_tile(children@, inner_size as int, index as int);
        }
        let weight_after: u128 = weight_before + child.size as u128;
        let edge_after: i32 = share_of(available, weight_after, total);
        let child_size: i32 = edge_after - edge_before;
        proof {
            lemma_signed_offset(
                sign,
                pane_edge(children@, inner_size as int, index as int) + index * DIVISION_SIZE,
            );
            lemma_signed_offset(
                sign,
                pane_edge(children@, inner_size as int, index + 1) + (index + 1) * DIVISION_SIZE,
            );
            lemma_signed_offset(sign, half(DIVISION_SIZE as int));
        }
        let offset: i128 = edge_before as i128 + index as i128 * 2;
        let running: i128 = match sign {
            Sign::Positive => start_pos as i128 + offset,
            Sign::Negative => start_pos as i128 - offset,
        };
        let child_position: i128 = match sign {
            Sign::Positive => running + half_of(child_size) as i128,
            Sign::Negative => running - child_size as i128 + half_of(child_size) as i128,
        };
        children_sizes.push(
            ChildrenInfo {
                key: child.layout_or_tab_key,
                size: child_size,
                position: saturate_to_i32(child_position),
            },
        );
        if index != count - 1 {
            let next_offset: i128 = edge_after as i128 + (index as i128 + 1) * 2;
            let gap_center: i128 = match sign {
                Sign::Positive => start_pos as i128 + next_offset - half_of(DIVISION_SIZE) as i128,
                Sign::Negative => start_pos as i128 - next_offset + half_of(DIVISION_SIZE) as i128,
            };
            division_positions.push(saturate_to_i32(gap_center));
        }
        weight_before = weight_after;
        edge_before = edge_after;
        index += 1;
    }
    (children_sizes, division_positions)
}

/// Extent across its axis of the strip in which a divider takes the pointer.
pub const DIVIDER_GRIP: i32 = 8;

/// The strip around the gap at `div_position` in which the divider takes the pointer, and
/// which is highlighted: `DIVIDER_GRIP` pixels along the axis, the whole container across.
pub open spec fn division_rect(div_position: i32, orientation: Orientation, container: Rect) -> Rect {
    match orientation {
        Orientation::Horizontal => Rect {
            position: Vec2i { x: div_position, y: container.position.y },
            size: Vec2i { x: DIVIDER_GRIP, y: container.size.y },
        },
        Orientation::Vertical => Rect {
            position: Vec2i { x: container.position.x, y: div_position },
            size: Vec2i { x: container.size.x, y: DIVIDER_GRIP },
        },
    }
}

fn create_div_rects(div_position: i32, orientation: Orientation, container_info: ContainerInfo) -> (rect: Rect)
    ensures
        rect == division_rect(div_position, orientation, container_info.rect),
{
    match orientation {
        Orientation::Horizontal => Rect {
            position: Vec2i { x: div_position, y: container_info.rect.position.y },
            size: Vec2i { x: DIVIDER_GRIP, y: container_info.rect.size.y },
        },
        Orientation::Vertical => Rect {
            position: Vec2i { x: container_info.rect.position.x, y: div_position },
            size: Vec2i { x: container_info.rect.size.x, y: DIVIDER_GRIP },
        },
    }
}

/// The drag, if there is one, is of a divider of these children, and the two panes next
/// to it have together the weight that they had when the drag began.
pub open spec fn divider_consistent(
    children: Seq<DividedElement>,
    divider: Option<ActiveDivider>,
) -> bool {
    divider matches Some(d) ==> {
        &&& d.index + 1 < children.len()
        &&& d.drag_divider.total_div_size() == children[d.index as int].size + children[d.index
            + 1].size
    }
}

/// The name under which divider `div_index` asks for its state: its session if it is the
/// one being dragged, else its identity of this frame.
pub open spec fn divider_control_id(
    divider: Option<ActiveDivider>,
    div_index: int,
    control_id: Uiid,
) -> ControlId {
    match divider {
        Some(d) => if d.index == div_index {
            ControlId::Active(d.active_id)
        } else {
            ControlId::Control(control_id)
        },
        None => ControlId::Control(control_id),
    }
}

fn get_current_state(
    control_state: &ControlState,
    divider: &Option<ActiveDivider>,
    div_index: usize,
    control_id: Uiid,
) -> (state: State)
    ensures
        state == control_state@.control_state(
            divider_control_id(*divider, div_index as int, control_id),
        ),
{
    let id = match divider {
        Some(d) => {
            if d.index == div_index {
                ControlId::Active(d.active_id)
            } else {
                ControlId::Control(control_id)
            }
        },
        None => ControlId::Control(control_id),
    };
    control_state.get_control_state(id)
}

/// What the dividers of one split work on while an event passes over them.
pub struct DividerPass {
    pub children: Seq<DividedElement>,
    pub active_divider: Option<ActiveDivider>,
    pub control: ControlStateView,
    pub event: EventView,
}

/// The children with the weights of the panes `index` and `index + 1` replaced.
pub open spec fn with_weights(
    children: Seq<DividedElement>,
    index: int,
    sizes: (u32, u32),
) -> Seq<DividedElement> {
    children.update(index, DividedElement { size: sizes.0, ..children[index] }).update(
        index + 1,
        DividedElement { size: sizes.1, ..children[index + 1] },
    )
}

/// The drag that begins at divider `div_index` under the session `session`.
pub open spec fn begun_drag(
    children: Seq<DividedElement>,
    sizes: Seq<ChildrenInfo>,
    div_index: int,
    cursor: i32,
    session: SessionId,
) -> ActiveDivider {
    ActiveDivider {
        active_id: session,
        index: div_index as usize,
        drag_divider: LayoutDragDivider {
            div_data: [
                DivData { div_size: children[div_index].size, div_px_size: sizes[div_index].size },
                DivData {
                    div_size: children[div_index + 1].size,
                    div_px_size: sizes[div_index + 1].size,
                },
            ],
            start_cursor_position: cursor,
            current_cursor_position: cursor,
        },
    }
}

/// In the layout of these children in a container of extent `inner_size`, the panes
/// `index` and `index + 1` both have `TAB_SIZE` pixels or more.
pub open spec fn panes_at_minimum(
    children: Seq<DividedElement>,
    inner_size: int,
    index: int,
) -> bool {
    &&& child_extent(children, inner_size, index) >= TAB_SIZE
    &&& child_extent(children, inner_size, index + 1) >= TAB_SIZE
}

/// Least weight that the pane `index` can get in place of its own and that of its
/// neighbour: both weights must fit in `u32` and be positive, and the pane must keep
/// `TAB_SIZE` pixels in the layout.
pub open spec fn least_kept_weight(
    children: Seq<DividedElement>,
    inner_size: int,
    index: int,
) -> int {
    let both = children[index].size + children[index + 1].size;
    let fitting = if both - u32::MAX > 1 {
        both - u32::MAX
    } else {
        1
    };
    let keeping = least_weight_for(
        available_extent(inner_size, children.len()),
        total_weight(children) as int,
        pane_edge(children, inner_size, index) + TAB_SIZE,
    ) - prefix_weight(children, index);
    if keeping > fitting {
        keeping
    } else {
        fitting
    }
}

/// Greatest weight that the pane `index` can get in place of its own and that of its
/// neighbour: both weights must fit in `u32` and be positive, and the neighbour must keep
/// `TAB_SIZE` pixels in the layout.
pub open spec fn greatest_kept_weight(
    children: Seq<DividedElement>,
    inner_size: int,
    index: int,
) -> int {
    let both = children[index].size + children[index + 1].size;
    let fitting = if both - 1 < u32::MAX {
        both - 1
    } else {
        u32::MAX as int
    };
    let keeping = greatest_weight_for(
        available_extent(inner_size, children.len()),
        total_weight(children) as int,
        pane_edge(children, inner_size, index + 2) - TAB_SIZE,
    ) - prefix_weight(children, index);
    if keeping < fitting {
        keeping
    } else {
        fitting
    }
}

/// The weights that the panes `index` and `index + 1` get when a drag asks for the
/// weights `sizes`: where both panes have `TAB_SIZE` pixels or more in the layout of the
/// children in a container of extent `inner_size`, the weight of the first is moved to
/// where both keep as many, and the second gets the rest of what the two have. Where a
/// pane is smaller already, or the weights of the split add up to more than
/// `u64::MAX`, the weights are as the drag asks.
pub open spec fn weights_kept_at_minimum(
    children: Seq<DividedElement>,
    inner_size: int,
    index: int,
    sizes: (u32, u32),
) -> (u32, u32) {
    let both = children[index].size + children[index + 1].size;
    let least = least_kept_weight(children, inner_size, index);
    let greatest = greatest_kept_weight(children, inner_size, index);
    if panes_at_minimum(children, inner_size, index) && total_weight(children) <= u64::MAX
        && least <= greatest {
        let first = if sizes.0 < least {
            least
        } else if sizes.0 > greatest {
            greatest
        } else {
            sizes.0 as int
        };
        (first as u32, (both - first) as u32)
    } else {
        sizes
    }
}

/// What new weights of the panes `index` and `index + 1` that add up to the old ones do
/// to the sums of the weights: the panes before, and the panes from the second on, weigh
/// what they weighed.
pub proof fn lemma_prefix_weight_with_weights(
    children: Seq<DividedElement>,
    index: int,
    sizes: (u32, u32),
    count: int,
)
    requires
        0 <= index,
        index + 1 < children.len(),
        0 <= count <= children.len(),
        sizes.0 + sizes.1 == children[index].size + children[index + 1].size,
    ensures
        total_weight(with_weights(children, index, sizes)) == total_weight(children),
        count != index + 1 ==> prefix_weight(with_weights(children, index, sizes), count)
            == prefix_weight(children, count),
        count == index + 1 ==> prefix_weight(with_weights(children, index, sizes), count)
            == prefix_weight(children, index) + sizes.0,
{
    let first = DividedElement { size: sizes.0, ..children[index] };
    let second = DividedElement { size: sizes.1, ..children[index + 1] };
    let after = with_weights(children, index, sizes);
    lemma_total_weight_update(children, index, first);
    lemma_total_weight_update(children.update(index, first), index + 1, second);
    if count <= index {
        assert(after.subrange(0, count) =~= children.subrange(0, count));
    } else if count == index + 1 {
        let head = children.subrange(0, count);
        assert(after.subrange(0, count) =~= head.update(index, first));
        lemma_total_weight_update(head, index, first);
        lemma_total_weight_step(children, count);
    } else {
        let head = children.subrange(0, count);
        assert(after.subrange(0, count) =~= head.update(index, first).update(index + 1, second));
        lemma_total_weight_update(head, index, first);
        lemma_total_weight_update(head.update(index, first), index + 1, second);
    }
}

/// Panes that have `TAB_SIZE` pixels keep them under a drag: where the panes `index` and
/// `index + 1` both have `TAB_SIZE` pixels or more in the layout of the children in a
/// container of extent `inner_size`, they both have as many in the layout of the children
/// with the weights that these two panes get, whatever weights the drag asks for; the
/// two weights add up to what they were, and every other pane keeps its extent.
pub proof fn lemma_weights_kept_at_minimum(
    children: Seq<DividedElement>,
    inner_size: int,
    index: int,
    sizes: (u32, u32),
)
    requires
        0 <= index,
        index + 1 < children.len(),
        total_weight(children) <= u64::MAX,
        sizes.0 + sizes.1 == children[index].size + children[index + 1].size,
        panes_at_minimum(children, inner_size, index),
    ensures
        ({
            let kept = weights_kept_at_minimum(children, inner_size, index, sizes);
            let after = with_weights(children, index, kept);
            &&& kept.0 + kept.1 == sizes.0 + sizes.1
            &&& kept.0 > 0 && kept.1 > 0
            &&& total_weight(after) == total_weight(children)
            &&& panes_at_minimum(after, inner_size, index)
            &&& forall|k: int|
                0 <= k <= children.len() && k != index + 1 ==> #[trigger] pane_edge(
                    after,
                    inner_size,
                    k,
                ) == pane_edge(children, inner_size, k)
            &&& forall|k: int|
                0 <= k < children.len() && k != index && k != index + 1 ==> #[trigger] child_extent(
                    after,
                    inner_size,
                    k,
                ) == child_extent(children, inner_size, k)
        }),
{
    let available = available_extent(inner_size, children.len());
    let total = total_weight(children);
    let before = prefix_weight(children, index);
    let own = children[index].size as int;
    let left = pane_edge(children, inner_size, index);
    let middle = pane_edge(children, inner_size, index + 1);
    let right = pane_edge(children, inner_size, index + 2);
    lemma_panes_tile(children, inner_size, index);
    lemma_panes_tile(children, inner_size, index + 1);
    lemma_total_weight_step(children, index + 1);
    lemma_total_weight_step(children, index + 2);
    assert(available > 0);
    assert(total > 0);
    lemma_weight_for_extent(available, (before + own) as nat, total, left + TAB_SIZE);
    lemma_weight_for_extent(available, (before + own) as nat, total, right - TAB_SIZE);
    // The old weight of the pane lies between the least and the greatest.
    assert(own >= 1) by {
        if own == 0 {
            assert(prefix_weight(children, index + 1) == before);
        }
    }
    assert(children[index + 1].size >= 1) by {
        if children[index + 1].size == 0 {
            assert(prefix_weight(children, index + 2) == prefix_weight(children, index + 1));
        }
    }
    let least = least_kept_weight(children, inner_size, index);
    let greatest = greatest_kept_weight(children, inner_size, index);
    assert(least <= own <= greatest);
    let kept = weights_kept_at_minimum(children, inner_size, index, sizes);
    let after = with_weights(children, index, kept);
    assert(least <= kept.0 <= greatest);
    assert(kept.0 + kept.1 == sizes.0 + sizes.1);
    assert(after.len() == children.len());
    assert forall|k: int| 0 <= k <= children.len() && k != index + 1 implies #[trigger] pane_edge(
        after,
        inner_size,
        k,
    ) == pane_edge(children, inner_size, k) by {
        lemma_prefix_weight_with_weights(children, index, kept, k);
    }
    lemma_prefix_weight_with_weights(children, index, kept, index + 1);
    lemma_weight_for_extent(available, (before + kept.0) as nat, total, left + TAB_SIZE);
    lemma_weight_for_extent(available, (before + kept.0) as nat, total, right - TAB_SIZE);
    assert(pane_edge(after, inner_size, index + 1) == share(
        available,
        (before + kept.0) as nat,
        total,
    ));
    assert(pane_edge(after, inner_size, index) == left);
    assert(pane_edge(after, inner_size, index + 2) == right);
}

/// Sum of the weights of the first `count` children.
fn sum_first_weights(children: &Vec<DividedElement>, count: usize) -> (sum: u128)
    requires
        count <= children.len(),
    ensures
        sum == prefix_weight(children@, count as int),
        sum <= total_weight(children@),
{
    let mut sum: u128 = 0;
    let mut i: usize = 0;
    proof {
        lemma_prefix_weight_grows(children@, 0, 0);
    }
    while i < count
        invariant
            i <= count <= children.len(),
            sum == prefix_weight(children@, i as int),
            sum <= i * 0xffff_ffff,
        decreases count - i,
    {
        proof {
            lemma_total_weight_step(children@, i + 1);
        }
        sum = sum + children[i].size as u128;
        i += 1;
    }
    proof {
        lemma_prefix_weight_grows(children@, count as int, children.len() as int);
    }
    sum
}

/// Executable form of [`weights_kept_at_minimum`].
fn keep_at_minimum(
    children: &Vec<DividedElement>,
    inner_size: i32,
    index: usize,
    sizes: (u32, u32),
) -> (kept: (u32, u32))
    requires
        index + 1 < children.len(),
    ensures
        kept == weights_kept_at_minimum(children@, inner_size as int, index as int, sizes),
{
    let count: usize = children.len();
    let total: u128 = sum_weights(children);
    if total > u64::MAX as u128 || total == 0 {
        proof {
            if total == 0 {
                lemma_panes_tile(children@, inner_size as int, index as int);
            }
        }
        return sizes;
    }
    let rest: i128 = inner_size as i128 - DIVISION_SIZE as i128 * (count as i128 - 1);
    let available: i32 = if rest > 0 {
        rest as i32
    } else {
        0
    };
    let before: u128 = sum_first_weights(children, index);
    let weight_0: u32 = children[index].size;
    let weight_1: u32 = children[index + 1].size;
    let both: u64 = weight_0 as u64 + weight_1 as u64;
    proof {
        lemma_total_weight_step(children@, index + 1);
        lemma_total_weight_step(children@, index + 2);
        lemma_prefix_weight_grows(children@, index + 2, count as int);
        lemma_panes_tile(children@, inner_size as int, index as int);
        lemma_panes_tile(children@, inner_size as int, index + 1);
    }
    let left: i32 = share_of(available, before, total);
    let middle: i32 = share_of(available, before + weight_0 as u128, total);
    let right: i32 = share_of(available, before + both as u128, total);
    if !(middle - left >= TAB_SIZE && right - middle >= TAB_SIZE) {
        return sizes;
    }
    let fitting_least: u64 = if both > u32::MAX as u64 + 1 {
        both - u32::MAX as u64
    } else {
        1
    };
    let fitting_greatest: u64 = if both - 1 < u32::MAX as u64 {
        both - 1
    } else {
        u32::MAX as u64
    };
    let keeping_least: i128 = least_weight(
        available as i64,
        total,
        left as i64 + TAB_SIZE as i64,
    ) as i128 - before as i128;
    let keeping_greatest: i128 = greatest_weight(
        available as i64,
        total,
        right as i64 - TAB_SIZE as i64,
    ) as i128 - before as i128;
    let least: i128 = if keeping_least > fitting_least as i128 {
        keeping_least
    } else {
        fitting_least as i128
    };
    let greatest: i128 = if keeping_greatest < fitting_greatest as i128 {
        keeping_greatest
    } else {
        fitting_greatest as i128
    };
    if least > greatest {
        return sizes;
    }
    let first: i128 = if (sizes.0 as i128) < least {
        least
    } else if sizes.0 as i128 > greatest {
        greatest
    } else {
        sizes.0 as i128
    };
    (first as u32, (both as i128 - first) as u32)
}

/// What one divider does with an event. `sizes` are the panes as they were laid out when
/// the event arrived, `draw_rect` is the strip of the divider, `depth` the depth at which
/// it asks for its identity and queues its highlight, `session` the identifier under
/// which a drag begins if one does.
///
/// - Every divider takes one identity, at depth `depth`, whatever the event.
/// - Update: the divider that is dragged votes to hold its session; while no divider of
///   the split is dragged, each one hit-tests its strip.
/// - Pointer motion: the dragged divider follows the cursor and hands the new weights to
///   the two panes next to it, such that panes that have `TAB_SIZE` pixels in a container
///   of extent `inner_size` keep as many.
/// - Left button down: if no divider of the split is dragged, the cursor is known and the
///   divider is the hovered control, a drag begins. Left button up: the drag, if any, ends.
/// - Render: a hovered or dragged divider queues its highlight.
/// - The pointer leaves the surface: the drag, if any, ends.
pub open spec fn divider_step(
    pass: DividerPass,
    sizes: Seq<ChildrenInfo>,
    div_index: int,
    draw_rect: Rect,
    orientation: Orientation,
    inner_size: int,
    depth: u32,
    session: SessionId,
) -> DividerPass {
    let scoped = pass.control.set_depth_and_save(depth);
    let control_id = scoped.upcoming_id();
    let control = scoped.get_id().restore_depth();
    match pass.event {
        EventView::Update => match pass.active_divider {
            Some(d) => if d.index == div_index {
                DividerPass { control: control.hold_active_state(d.active_id), ..pass }
            } else {
                DividerPass { control, ..pass }
            },
            None => DividerPass {
                control: control.update_hot_with_rect(control_id, draw_rect),
                ..pass
            },
        },
        EventView::MouseMove { raw, corrected } => match pass.active_divider {
            Some(d) => if d.index == div_index {
                let drag = LayoutDragDivider {
                    current_cursor_position: orientation.along(corrected),
                    ..d.drag_divider
                };
                DividerPass {
                    children: with_weights(
                        pass.children,
                        div_index,
                        weights_kept_at_minimum(
                            pass.children,
                            inner_size,
                            div_index,
                            drag.new_division_sizes(orientation),
                        ),
                    ),
                    active_divider: Some(ActiveDivider { drag_divider: drag, ..d }),
                    control,
                    ..pass
                }
            } else {
                DividerPass { control, ..pass }
            },
            None => DividerPass { control, ..pass },
        },
        EventView::MouseButton(input) => {
            let begins = input.left_pressed() && pass.active_divider is None
                && control.last_cursor_position is Some && control.may_set_active(control_id);
            let pressed = if begins {
                DividerPass {
                    control: control.set_active(control_id, session),
                    active_divider: Some(
                        begun_drag(
                            pass.children,
                            sizes,
                            div_index,
                            orientation.along(control.last_cursor_position->0),
                            session,
                        ),
                    ),
                    ..pass
                }
            } else {
                DividerPass { control, ..pass }
            };
            if input.left_released() {
                DividerPass { active_divider: None, ..pressed }
            } else {
                pressed
            }
        },
        EventView::Render { rects, steps } => {
            let state = control.control_state(
                divider_control_id(pass.active_divider, div_index, control_id),
            );
            let event = match state {
                State::Hovered => pass.event.defer(
                    DrawRequest { rect: draw_rect, kind: DrawKind::DividerHovered, mask: None },
                    depth,
                ),
                State::Active => pass.event.defer(
                    DrawRequest { rect: draw_rect, kind: DrawKind::DividerActive, mask: None },
                    depth,
                ),
                State::Inactive => pass.event,
            };
            DividerPass { control, event, ..pass }
        },
        EventView::CursorExit => DividerPass { active_divider: None, control, ..pass },
        _ => DividerPass { control, ..pass },
    }
}

/// One divider handles the event.
fn handle_divider(
    children_elements: &mut Vec<DividedElement>,
    children_sizes: &Vec<ChildrenInfo>,
    div_index: usize,
    div_pos: i32,
    control_state: &mut ControlState,
    container_info: ContainerInfo,
    event: &mut UIEvent,
    orientation: Orientation,
    active_divider: &mut Option<ActiveDivider>,
    session: SessionId,
)
    requires
        old(control_state).in_frame(),
        container_info.depth_range_fits(),
        div_index + 1 < old(children_elements).len(),
        children_sizes.len() == old(children_elements).len(),
    ensures
        ({
            let next = divider_step(
                DividerPass {
                    children: old(children_elements)@,
                    active_divider: *old(active_divider),
                    control: old(control_state)@,
                    event: old(event)@,
                },
                children_sizes@,
                div_index as int,
                division_rect(div_pos, orientation, container_info.rect),
                orientation,
                axis_extent(orientation, container_info.rect),
                (container_info.depth_range.0 + depth_offset::DIVIDER) as u32,
                session,
            );
            &&& final(children_elements)@ == next.children
            &&& *final(active_divider) == next.active_divider
            &&& final(control_state)@ == next.control
            &&& final(event)@ == next.event
        }),
{
    let draw_rect = create_div_rects(div_pos, orientation, container_info);
    let depth: u32 = container_info.depth_range.0 + depth_offset::DIVIDER;
    control_state.set_depth_and_save(depth);
    let control_id = control_state.get_id();
    control_state.restore_depth();
    match event {
        UIEvent::Update => {
            match active_divider {
                Some(active_div) => {
                    if active_div.index == div_index {
                        control_state.hold_active_state(active_div.active_id);
                    }
                },
                None => {
                    control_state.update_hot_with_rect(control_id, &draw_rect);
                },
            }
        },
        UIEvent::MouseMove { corrected, .. } => {
            match active_divider {
                Some(active_div) => {
                    if active_div.index == div_index {
                        active_div.drag_divider.update_cursor_position(
                            orientation.coordinate(*corrected),
                        );
                        let asked = active_div.drag_divider.compute_new_division_sizes(
                            orientation,
                        );
                        let inner_size: i32 = match orientation {
                            Orientation::Horizontal => container_info.rect.size.x,
                            Orientation::Vertical => container_info.rect.size.y,
                        };
                        let new_div_sizes = keep_at_minimum(
                            children_elements,
                            inner_size,
                            div_index,
                            asked,
                        );
                        let first = children_elements[div_index];
                        let second = children_elements[div_index + 1];
                        children_elements[div_index] = DividedElement {
                            layout_or_tab_key: first.layout_or_tab_key,
                            size: new_div_sizes.0,
                        };
                        children_elements[div_index + 1] = DividedElement {
                            layout_or_tab_key: second.layout_or_tab_key,
                            size: new_div_sizes.1,
                        };
                    }
                },
                None => {},
            }
        },
        UIEvent::MouseButton(mouse_input) => {
            if mouse_input.is_left_pressed() && active_divider.is_none() {
                if let Some(cursor_pos) = control_state.cursor_position() {
                    if let Some(active_id) = control_state.set_active_session(control_id, session) {
                        let start_cursor_position: i32 = orientation.coordinate(cursor_pos);
                        *active_divider = Some(
                            ActiveDivider::new(
                                active_id,
                                div_index,
                                [
                                    DivData {
                                        div_size: children_elements[div_index].size,
                                        div_px_size: children_sizes[div_index].size,
                                    },
                                    DivData {
                                        div_size: children_elements[div_index + 1].size,
                                        div_px_size: children_sizes[div_index + 1].size,
                                    },
                                ],
                                start_cursor_position,
                            ),
                        );
                    }
                }
            }
            if mouse_input.is_left_released() {
                *active_divider = None;
            }
        },
        UIEvent::Render { extra_render_steps, .. } => {
            let state = get_current_state(control_state, active_divider, div_index, control_id);
            match state {
                State::Hovered => {
                    extra_render_steps.push(
                        DrawRequest { rect: draw_rect, kind: DrawKind::DividerHovered, mask: None },
                        depth,
                    );
                },
                State::Active => {
                    extra_render_steps.push(
                        DrawRequest { rect: draw_rect, kind: DrawKind::DividerActive, mask: None },
                        depth,
                    );
                },
                State::Inactive => {},
            }
        },
        UIEvent::CursorExit => {
            *active_divider = None;
        },
        _ => {},
    }
}

/// Replacing one child changes the sum of the weights by the difference of the weights.
pub proof fn lemma_total_weight_update(
    children: Seq<DividedElement>,
    index: int,
    element: DividedElement,
)
    requires
        0 <= index < children.len(),
    ensures
        total_weight(children.update(index, element)) == total_weight(children)
            - children[index].size + element.size,
    decreases children.len(),
{
    let updated = children.update(index, element);
    if index == children.len() - 1 {
        assert(updated.drop_last() =~= children.drop_last());
    } else {
        assert(updated.drop_last() =~= children.drop_last().update(index, element));
        lemma_total_weight_update(children.drop_last(), index, element);
    }
}

/// All weights are positive.
pub open spec fn weights_positive(children: Seq<DividedElement>) -> bool {
    forall|i: int| 0 <= i < children.len() ==> (#[trigger] children[i]).size > 0
}

/// The two sequences hold the same children in the same order, whatever their weights.
pub open spec fn same_keys(a: Seq<DividedElement>, b: Seq<DividedElement>) -> bool {
    &&& a.len() == b.len()
    &&& forall|i: int|
        0 <= i < a.len() ==> (#[trigger] a[i]).layout_or_tab_key == b[i].layout_or_tab_key
}

/// What a divider leaves as it is, and what it keeps true, whatever the event.
pub open spec fn pass_kept(before: DividerPass, after: DividerPass) -> bool {
    &&& same_keys(after.children, before.children)
    &&& total_weight(after.children) == total_weight(before.children)
    &&& weights_positive(before.children) ==> weights_positive(after.children)
    &&& divider_consistent(after.children, after.active_divider)
    &&& after.control.current_ui_id is Some
    &&& after.control.current_ui_id->0.id >= before.control.current_ui_id->0.id
    &&& after.control.current_ui_id->0.depth == before.control.current_ui_id->0.depth
    &&& after.control.depth_stack == before.control.depth_stack
    &&& after.control.last_cursor_position == before.control.last_cursor_position
    &&& after.event.same_input(before.event)
    &&& before.event matches EventView::Render { rects, .. } ==> after.event
        == (EventView::Render { rects, steps: after.event->Render_steps })
}

/// A divider moves weight between its two panes and makes none, keeps the children and
/// their order, keeps a drag consistent with the children, takes one identity and leaves
/// the depth scope as it found it.
pub proof fn lemma_divider_step_keeps(
    pass: DividerPass,
    sizes: Seq<ChildrenInfo>,
    div_index: int,
    draw_rect: Rect,
    orientation: Orientation,
    inner_size: int,
    depth: u32,
    session: SessionId,
)
    requires
        pass.control.current_ui_id is Some,
        divider_consistent(pass.children, pass.active_divider),
        0 <= div_index,
        div_index + 1 < pass.children.len() <= usize::MAX,
        sizes.len() == pass.children.len(),
    ensures
        pass_kept(
            pass,
            divider_step(
                pass,
                sizes,
                div_index,
                draw_rect,
                orientation,
                inner_size,
                depth,
                session,
            ),
        ),
{
    let next = divider_step(
        pass,
        sizes,
        div_index,
        draw_rect,
        orientation,
        inner_size,
        depth,
        session,
    );
    let scoped = pass.control.set_depth_and_save(depth);
    let control = scoped.get_id().restore_depth();
    assert(scoped.get_id().depth_stack.drop_last() =~= pass.control.depth_stack);
    assert(control.depth_stack == pass.control.depth_stack);
    match pass.event {
        EventView::MouseMove { raw, corrected } => {
            if pass.active_divider is Some && pass.active_divider->0.index == div_index {
                let d = pass.active_divider->0;
                let drag = LayoutDragDivider {
                    current_cursor_position: orientation.along(corrected),
                    ..d.drag_divider
                };
                let asked = drag.new_division_sizes(orientation);
                crate::window_layout::layout::active_divider::lemma_drag_keeps_weight(
                    drag,
                    orientation,
                );
                let new_sizes = weights_kept_at_minimum(
                    pass.children,
                    inner_size,
                    div_index,
                    asked,
                );
                assert(asked.0 + asked.1 == pass.children[div_index].size
                    + pass.children[div_index + 1].size);
                assert(new_sizes.0 + new_sizes.1 == asked.0 + asked.1);
                let first = DividedElement { size: new_sizes.0, ..pass.children[div_index] };
                let second = DividedElement { size: new_sizes.1, ..pass.children[div_index + 1] };
                let half_way = pass.children.update(div_index, first);
                lemma_total_weight_update(pass.children, div_index, first);
                lemma_total_weight_update(half_way, div_index + 1, second);
                assert(drag.total_div_size() == d.drag_divider.total_div_size());
                assert(next.children == half_way.update(div_index + 1, second));
                assert(next.children[div_index] == first);
                assert(next.children[div_index + 1] == second);
                assert(next.active_divider == Some(ActiveDivider { drag_divider: drag, ..d }));
                assert(drag.div_data == d.drag_divider.div_data);
                assert(new_sizes.0 + new_sizes.1 == drag.total_div_size());
                assert(drag.total_div_size() == drag.div_data[0].div_size + drag.div_data[1].div_size);
                assert(divider_consistent(next.children, next.active_divider));
                if weights_positive(pass.children) {
                    assert(pass.children[div_index].size > 0);
                    assert(pass.children[div_index + 1].size > 0);
                    assert(drag.total_div_size() >= 2);
                    assert(new_sizes.0 > 0 && new_sizes.1 > 0);
                    assert forall|i: int| 0 <= i < next.children.len() implies (
                    #[trigger] next.children[i]).size > 0 by {
                        if i != div_index && i != div_index + 1 {
                            assert(next.children[i] == pass.children[i]);
                        }
                    }
                }
            } else {
                assert(next.children == pass.children);
                assert(next.active_divider == pass.active_divider);
                assert(divider_consistent(next.children, next.active_divider));
            }
        },
        EventView::MouseButton(input) => {
            let cursor = orientation.along(control.last_cursor_position->0);
            let begun = begun_drag(pass.children, sizes, div_index, cursor, session);
            assert(begun.drag_divider.div_data[0].div_size == pass.children[div_index].size);
            assert(begun.drag_divider.div_data[1].div_size == pass.children[div_index + 1].size);
            assert(divider_consistent(pass.children, Some(begun)));
        },
        _ => {},
    }
}

/// What the dividers `0` to `count - 1` of a split do with an event, one after the other.
/// `divisions` holds the centers of the gaps.
pub open spec fn dividers_pass(
    pass: DividerPass,
    sizes: Seq<ChildrenInfo>,
    divisions: Seq<i32>,
    orientation: Orientation,
    container_info: ContainerInfo,
    session: SessionId,
    count: int,
) -> DividerPass
    decreases count,
{
    if count <= 0 {
        pass
    } else {
        divider_step(
            dividers_pass(pass, sizes, divisions, orientation, container_info, session, count - 1),
            sizes,
            count - 1,
            division_rect(divisions[count - 1], orientation, container_info.rect),
            orientation,
            axis_extent(orientation, container_info.rect),
            (container_info.depth_range.0 + depth_offset::DIVIDER) as u32,
            session,
        )
    }
}

/// What each divider keeps, all of them keep.
pub proof fn lemma_dividers_pass_keeps(
    pass: DividerPass,
    sizes: Seq<ChildrenInfo>,
    divisions: Seq<i32>,
    orientation: Orientation,
    container_info: ContainerInfo,
    session: SessionId,
    count: int,
)
    requires
        pass.control.current_ui_id is Some,
        divider_consistent(pass.children, pass.active_divider),
        sizes.len() == pass.children.len(),
        0 <= count <= divisions.len(),
        divisions.len() + 1 == pass.children.len() <= usize::MAX,
    ensures
        pass_kept(
            pass,
            dividers_pass(pass, sizes, divisions, orientation, container_info, session, count),
        ),
    decreases count,
{
    if count > 0 {
        lemma_dividers_pass_keeps(
            pass,
            sizes,
            divisions,
            orientation,
            container_info,
            session,
            count - 1,
        );
        let middle = dividers_pass(
            pass,
            sizes,
            divisions,
            orientation,
            container_info,
            session,
            count - 1,
        );
        lemma_divider_step_keeps(
            middle,
            sizes,
            count - 1,
            division_rect(divisions[count - 1], orientation, container_info.rect),
            orientation,
            axis_extent(orientation, container_info.rect),
            (container_info.depth_range.0 + depth_offset::DIVIDER) as u32,
            session,
        );
    }
}

/// Every divider of a split handles the event, in the order of the panes.
fn handle_event_layout_dividers(
    children_elements: &mut Vec<DividedElement>,
    children_sizes: &Vec<ChildrenInfo>,
    division_positions: Vec<i32>,
    control_state: &mut ControlState,
    container_info: ContainerInfo,
    event: &mut UIEvent,
    orientation: Orientation,
    active_divider: &mut Option<ActiveDivider>,
    session: SessionId,
)
    requires
        old(control_state).in_frame(),
        container_info.depth_range_fits(),
        divider_consistent(old(children_elements)@, *old(active_divider)),
        division_positions.len() + 1 == old(children_elements).len(),
        children_sizes.len() == old(children_elements).len(),
    ensures
        ({
            let before = DividerPass {
                children: old(children_elements)@,
                active_divider: *old(active_divider),
                control: old(control_state)@,
                event: old(event)@,
            };
            let after = dividers_pass(
                before,
                children_sizes@,
                division_positions@,
                orientation,
                container_info,
                session,
                division_positions.len() as int,
            );
            &&& final(children_elements)@ == after.children
            &&& *final(active_divider) == after.active_divider
            &&& final(control_state)@ == after.control
            &&& final(event)@ == after.event
            &&& pass_kept(before, after)
        }),
{
    let ghost before = DividerPass {
        children: children_elements@,
        active_divider: *active_divider,
        control: control_state@,
        event: event@,
    };
    let mut div_index: usize = 0;
    while div_index < division_positions.len()
        invariant
            div_index <= division_positions.len(),
            container_info.depth_range_fits(),
            before.control.current_ui_id is Some,
            divider_consistent(before.children, before.active_divider),
            division_positions.len() + 1 == before.children.len(),
            children_sizes.len() == before.children.len(),
            ({
                let now = dividers_pass(
                    before,
                    children_sizes@,
                    division_positions@,
                    orientation,
                    container_info,
                    session,
                    div_index as int,
                );
                &&& children_elements@ == now.children
                &&& *active_divider == now.active_divider
                &&& control_state@ == now.control
                &&& event@ == now.event
            }),
        decreases division_positions.len() - div_index,
    {
        proof {
            lemma_dividers_pass_keeps(
                before,
                children_sizes@,
                division_positions@,
                orientation,
                container_info,
                session,
                div_index as int,
            );
        }
        handle_divider(
            children_elements,
            children_sizes,
            div_index,
            division_positions[div_index],
            control_state,
            container_info,
            event,
            orientation,
            active_divider,
            session,
        );
        div_index += 1;
    }
    proof {
        lemma_dividers_pass_keeps(
            before,
            children_sizes@,
            division_positions@,
            orientation,
            container_info,
            session,
            division_positions.len() as int,
        );
    }
}

/// A split: its children with their weights, in the order in which they are laid out,
/// and the drag of one of its dividers if one is under way. The children of a horizontal
/// split follow each other from left to right, those of a vertical split from top to
/// bottom.
pub enum LayoutElement {
    Horizontal { children: Vec<DividedElement>, active_divider: Option<ActiveDivider> },
    Vertical { children: Vec<DividedElement>, active_divider: Option<ActiveDivider> },
}

/// Where the panes of a split of this orientation begin: at the left edge, or at the top.
pub open spec fn axis_start(orientation: Orientation, rect: Rect) -> int {
    match orientation {
        Orientation::Horizontal => rect.left(),
        Orientation::Vertical => rect.top(),
    }
}

/// Extent of the container along the axis of the split.
pub open spec fn axis_extent(orientation: Orientation, rect: Rect) -> int {
    match orientation {
        Orientation::Horizontal => rect.size.x as int,
        Orientation::Vertical => rect.size.y as int,
    }
}

/// Panes run to the right, and down.
pub open spec fn axis_sign(orientation: Orientation) -> Sign {
    match orientation {
        Orientation::Horizontal => Sign::Positive,
        Orientation::Vertical => Sign::Negative,
    }
}

/// Extent and center of pane `i` of a split that fills `rect`.
pub open spec fn pane_info(
    children: Seq<DividedElement>,
    orientation: Orientation,
    rect: Rect,
    i: int,
) -> ChildrenInfo {
    child_info(
        children,
        axis_start(orientation, rect),
        axis_extent(orientation, rect),
        axis_sign(orientation),
        i,
    )
}

/// The panes of a split that fills `rect`.
pub open spec fn panes(children: Seq<DividedElement>, orientation: Orientation, rect: Rect) -> Seq<
    ChildrenInfo,
> {
    Seq::new(children.len(), |i: int| pane_info(children, orientation, rect, i))
}

/// The centers of the gaps of a split that fills `rect`.
pub open spec fn divisions(
    children: Seq<DividedElement>,
    orientation: Orientation,
    rect: Rect,
) -> Seq<i32> {
    Seq::new(
        (children.len() - 1) as nat,
        |i: int|
            saturate(
                division_center(
                    children,
                    axis_start(orientation, rect),
                    axis_extent(orientation, rect),
                    axis_sign(orientation),
                    i,
                ),
            ) as i32,
    )
}

/// The rectangle of a pane: its own extent along the axis, that of the container across.
pub open spec fn pane_rect(info: ChildrenInfo, orientation: Orientation, rect: Rect) -> Rect {
    match orientation {
        Orientation::Horizontal => Rect {
            position: Vec2i { x: info.position, y: rect.position.y },
            size: Vec2i { x: info.size, y: rect.size.y },
        },
        Orientation::Vertical => Rect {
            position: Vec2i { x: rect.position.x, y: info.position },
            size: Vec2i { x: rect.size.x, y: info.size },
        },
    }
}

/// What a split hands on for pane `i`: the child, its rectangle, and the depth range of
/// the container. A split takes no depth of its own.
pub open spec fn pane_handle(
    children: Seq<DividedElement>,
    orientation: Orientation,
    container_info: ContainerInfo,
    i: int,
) -> LayoutOrTabInfo {
    LayoutOrTabInfo {
        key: children[i].layout_or_tab_key,
        container_info: ContainerInfo {
            rect: pane_rect(
                pane_info(children, orientation, container_info.rect, i),
                orientation,
                container_info.rect,
            ),
            depth_range: container_info.depth_range,
        },
    }
}

/// A split lays out its children and lets its dividers handle the event.
fn handle_event_layout_element(
    children: &mut Vec<DividedElement>,
    control_state: &mut ControlState,
    container_info: ContainerInfo,
    event: &mut UIEvent,
    active_divider: &mut Option<ActiveDivider>,
    orientation: Orientation,
    session: SessionId,
) -> (handles: Vec<LayoutOrTabInfo>)
    requires
        old(control_state).in_frame(),
        container_info.depth_range_fits(),
        old(children).len() >= 1,
        divider_consistent(old(children)@, *old(active_divider)),
    ensures
        handles.len() == old(children).len(),
        forall|i: int|
            0 <= i < handles.len() ==> handles[i] == pane_handle(
                old(children)@,
                orientation,
                container_info,
                i,
            ),
        ({
            let before = DividerPass {
                children: old(children)@,
                active_divider: *old(active_divider),
                control: old(control_state)@,
                event: old(event)@,
            };
            let after = dividers_pass(
                before,
                panes(old(children)@, orientation, container_info.rect),
                divisions(old(children)@, orientation, container_info.rect),
                orientation,
                container_info,
                session,
                old(children).len() - 1,
            );
            &&& final(children)@ == after.children
            &&& *final(active_divider) == after.active_divider
            &&& final(control_state)@ == after.control
            &&& final(event)@ == after.event
            &&& pass_kept(before, after)
        }),
{
    let rect = container_info.rect;
    let (start_position, inner_size, sign) = match orientation {
        Orientation::Horizontal => (rect.left_edge(), rect.size.x, Sign::Positive),
        Orientation::Vertical => (rect.top_edge(), rect.size.y, Sign::Negative),
    };
    let (children_sizes, division_positions) = compute_children_sizes(
        children,
        start_position,
        inner_size,
        sign,
    );
    assert(children_sizes@ =~= panes(children@, orientation, rect));
    assert(division_positions@ =~= divisions(children@, orientation, rect));
    let ghost laid_out = children@;
    handle_event_layout_dividers(
        children,
        &children_sizes,
        division_positions,
        control_state,
        container_info,
        event,
        orientation,
        active_divider,
        session,
    );
    let mut handles: Vec<LayoutOrTabInfo> = Vec::with_capacity(children_sizes.len());
    let mut i: usize = 0;
    while i < children_sizes.len()
        invariant
            i <= children_sizes.len(),
            children_sizes@ == panes(laid_out, orientation, rect),
            rect == container_info.rect,
            handles.len() == i,
            forall|k: int|
                0 <= k < i ==> handles[k] == pane_handle(laid_out, orientation, container_info, k),
        decreases children_sizes.len() - i,
    {
        let info = children_sizes[i];
        let child_rect = match orientation {
            Orientation::Horizontal => Rect {
                position: Vec2i { x: info.position, y: rect.position.y },
                size: Vec2i { x: info.size, y: rect.size.y },
            },
            Orientation::Vertical => Rect {
                position: Vec2i { x: rect.position.x, y: info.position },
                size: Vec2i { x: rect.size.x, y: info.size },
            },
        };
        handles.push(
            LayoutOrTabInfo {
                key: info.key,
                container_info: ContainerInfo {
                    rect: child_rect,
                    depth_range: container_info.depth_range,
                },
            },
        );
        i += 1;
    }
    handles
}

/// Mathematical value of a [`LayoutElement`].
pub struct LayoutView {
    pub children: Seq<DividedElement>,
    pub active_divider: Option<ActiveDivider>,
    pub orientation: Orientation,
}

impl LayoutView {
    /// A split has two children or more, and a drag of one of its dividers is consistent
    /// with its children.
    pub open spec fn wf(self) -> bool {
        &&& self.children.len() >= 2
        &&& divider_consistent(self.children, self.active_divider)
    }

    /// The children of the split, without their weights.
    pub open spec fn keys(self) -> Seq<LayoutOrTabKey> {
        Seq::new(self.children.len(), |i: int| self.children[i].layout_or_tab_key)
    }

    /// What the split works on while an event passes over it.
    pub open spec fn pass(self, control: ControlStateView, event: EventView) -> DividerPass {
        DividerPass {
            children: self.children,
            active_divider: self.active_divider,
            control,
            event,
        }
    }

    /// What the split, the control state and the event are when the split has handled
    /// `event` in the container `container_info`: each divider has had its turn.
    pub open spec fn handled(
        self,
        control: ControlStateView,
        event: EventView,
        container_info: ContainerInfo,
        session: SessionId,
    ) -> DividerPass {
        dividers_pass(
            self.pass(control, event),
            panes(self.children, self.orientation, container_info.rect),
            divisions(self.children, self.orientation, container_info.rect),
            self.orientation,
            container_info,
            session,
            self.children.len() - 1,
        )
    }

    /// What the split hands on, for each child in order, when it handles an event in the
    /// container `container_info`.
    pub open spec fn handles(self, container_info: ContainerInfo) -> Seq<LayoutOrTabInfo> {
        Seq::new(
            self.children.len(),
            |i: int| pane_handle(self.children, self.orientation, container_info, i),
        )
    }
}

/// What a split keeps when it handles an event, whatever the event: its children and
/// their order, its orientation, the sum of its weights, and its well-formedness.
pub proof fn lemma_handled_keeps(
    node: LayoutView,
    control: ControlStateView,
    event: EventView,
    container_info: ContainerInfo,
    session: SessionId,
)
    requires
        node.wf(),
        node.children.len() <= usize::MAX,
        control.current_ui_id is Some,
    ensures
        pass_kept(
            node.pass(control, event),
            node.handled(control, event, container_info, session),
        ),
{
    lemma_dividers_pass_keeps(
        node.pass(control, event),
        panes(node.children, node.orientation, container_info.rect),
        divisions(node.children, node.orientation, container_info.rect),
        node.orientation,
        container_info,
        session,
        node.children.len() - 1,
    );
}

/// The drag `divider` with the cursor at `corrected`.
pub open spec fn moved_drag(
    divider: ActiveDivider,
    orientation: Orientation,
    corrected: Vec2i,
) -> LayoutDragDivider {
    LayoutDragDivider {
        current_cursor_position: orientation.along(corrected),
        ..divider.drag_divider
    }
}

/// The children after a pointer motion while `divider` is dragged: the two panes next to
/// the divider get the weights that the drag asks for, kept at the minimum in a container
/// of extent `inner_size`.
pub open spec fn children_moved(
    children: Seq<DividedElement>,
    divider: ActiveDivider,
    orientation: Orientation,
    inner_size: int,
    corrected: Vec2i,
) -> Seq<DividedElement> {
    with_weights(
        children,
        divider.index as int,
        weights_kept_at_minimum(
            children,
            inner_size,
            divider.index as int,
            moved_drag(divider, orientation, corrected).new_division_sizes(orientation),
        ),
    )
}

/// On a pointer motion only the dragged divider changes the children: when the dividers
/// `0` to `count - 1` have had their turn, the children are moved if the dragged divider
/// is among them, and as they were if it is not.
pub proof fn lemma_dividers_pass_moves(
    pass: DividerPass,
    sizes: Seq<ChildrenInfo>,
    divisions: Seq<i32>,
    orientation: Orientation,
    container_info: ContainerInfo,
    session: SessionId,
    count: int,
)
    requires
        pass.event is MouseMove,
        pass.active_divider is Some,
        0 <= count <= divisions.len(),
    ensures
        ({
            let divider = pass.active_divider->0;
            let after = dividers_pass(
                pass,
                sizes,
                divisions,
                orientation,
                container_info,
                session,
                count,
            );
            &&& after.event == pass.event
            &&& after.active_divider is Some
            &&& after.active_divider->0.index == divider.index
            &&& count <= divider.index ==> after.children == pass.children
                && after.active_divider == pass.active_divider
            &&& count > divider.index ==> after.children == children_moved(
                pass.children,
                divider,
                orientation,
                axis_extent(orientation, container_info.rect),
                pass.event->MouseMove_corrected,
            )
        }),
    decreases count,
{
    if count > 0 {
        lemma_dividers_pass_moves(
            pass,
            sizes,
            divisions,
            orientation,
            container_info,
            session,
            count - 1,
        );
    }
}

/// In a split of two panes the layout asks no more of a drag than the drag itself keeps:
/// where the drag began with both panes at `TAB_SIZE` pixels or more, with the weights
/// and the pixels of the split, and there are two units of weight or more to share, the
/// panes get the weights that the drag gives.
pub proof fn lemma_two_panes_follow_drag(
    children: Seq<DividedElement>,
    inner_size: int,
    drag: LayoutDragDivider,
    orientation: Orientation,
)
    requires
        children.len() == 2,
        children[0].size + children[1].size >= 2,
        drag.total_div_size() == children[0].size + children[1].size,
        drag.total_px_size() == available_extent(inner_size, 2),
        drag.began_at_minimum(),
    ensures
        weights_kept_at_minimum(children, inner_size, 0, drag.new_division_sizes(orientation))
            == drag.new_division_sizes(orientation),
{
    assert(children.subrange(0, 0) =~= Seq::<DividedElement>::empty());
    assert(children.drop_last().drop_last() =~= Seq::<DividedElement>::empty());
    assert(children.drop_last().last() == children[0]);
    assert(total_weight(children.drop_last().drop_last()) == 0);
    assert(total_weight(children.drop_last()) == children[0].size);
    assert(children.last() == children[1]);
    assert(total_weight(children) == children[0].size + children[1].size);
    assert(prefix_weight(children, 0) == 0);
    lemma_panes_tile(children, inner_size, 0);
    crate::window_layout::layout::active_divider::lemma_drag_keeps_weight(drag, orientation);
}

/// The round trip of a drag at a split of two panes: when an earlier drag has given the
/// panes their weights, and the divider is dragged again and taken back by as much as it
/// had followed the cursor before, the first pane gets the weight that stands for the
/// pixels that it had before the earlier drag; where it had that weight, both panes have
/// the weights again that they had. This holds where the weights are at least as fine
/// as the pixels and fit in `u32` together. `first` is the earlier drag, which began in
/// the same container with both panes at `TAB_SIZE` pixels or more; the drag of the
/// split began with the children as they are and with the pixels of their layout.
pub proof fn lemma_split_round_trip(
    node: LayoutView,
    control: ControlStateView,
    event: EventView,
    container_info: ContainerInfo,
    session: SessionId,
    first: LayoutDragDivider,
)
    requires
        node.wf(),
        node.children.len() == 2,
        event is MouseMove,
        node.active_divider is Some,
        first.began_at_minimum(),
        first.total_px_size() == available_extent(
            axis_extent(node.orientation, container_info.rect),
            2,
        ),
        first.total_px_size() <= first.total_div_size() <= u32::MAX,
        node.children[0].size == first.new_division_sizes(node.orientation).0,
        node.children[1].size == first.new_division_sizes(node.orientation).1,
        node.active_divider->0.drag_divider.div_data[0].div_size == node.children[0].size,
        node.active_divider->0.drag_divider.div_data[1].div_size == node.children[1].size,
        node.active_divider->0.drag_divider.div_data[0].div_px_size == child_extent(
            node.children,
            axis_extent(node.orientation, container_info.rect),
            0,
        ),
        node.active_divider->0.drag_divider.div_data[1].div_px_size == child_extent(
            node.children,
            axis_extent(node.orientation, container_info.rect),
            1,
        ),
        moved_drag(
            node.active_divider->0,
            node.orientation,
            event->MouseMove_corrected,
        ).movement(node.orientation) == first.div_data[0].div_px_size - first.new_px_sizes(
            node.orientation,
        ).0,
    ensures
        ({
            let after = node.handled(control, event, container_info, session).children;
            let restored = crate::window_layout::layout::active_divider::rounded_ratio(
                first.div_data[0].div_px_size * first.total_div_size(),
                first.total_px_size(),
            );
            &&& after[0].size == restored
            &&& after[0].size + after[1].size == first.total_div_size()
            &&& first.div_data[0].div_size == restored ==> after[0].size
                == first.div_data[0].div_size && after[1].size == first.div_data[1].div_size
        }),
{
    let divider = node.active_divider->0;
    let inner_size = axis_extent(node.orientation, container_info.rect);
    let children = node.children;
    let second = moved_drag(divider, node.orientation, event->MouseMove_corrected);
    lemma_dividers_pass_moves(
        node.pass(control, event),
        panes(children, node.orientation, container_info.rect),
        divisions(children, node.orientation, container_info.rect),
        node.orientation,
        container_info,
        session,
        children.len() - 1,
    );
    crate::window_layout::layout::active_divider::lemma_drag_keeps_weight(
        first,
        node.orientation,
    );
    crate::window_layout::layout::active_divider::lemma_drag_keeps_minimum(
        first,
        node.orientation,
    );
    assert(children.subrange(0, 1).drop_last() =~= Seq::<DividedElement>::empty());
    assert(children.subrange(0, 1).last() == children[0]);
    assert(total_weight(children.subrange(0, 1).drop_last()) == 0);
    assert(prefix_weight(children, 1) == children[0].size);
    assert(children.subrange(0, 2) =~= children);
    assert(children.subrange(0, 0) =~= Seq::<DividedElement>::empty());
    assert(children.drop_last().drop_last() =~= Seq::<DividedElement>::empty());
    assert(children.drop_last().last() == children[0]);
    assert(total_weight(children.drop_last().drop_last()) == 0);
    assert(total_weight(children.drop_last()) == children[0].size);
    assert(children.last() == children[1]);
    assert(total_weight(children) == first.total_div_size());
    lemma_panes_tile(children, inner_size, 0);
    lemma_panes_tile(children, inner_size, 1);
    crate::window_layout::layout::active_divider::lemma_drag_round_trip_weights(
        first,
        second,
        node.orientation,
    );
    lemma_two_panes_follow_drag(children, inner_size, second, node.orientation);
    crate::window_layout::layout::active_divider::lemma_drag_keeps_weight(
        second,
        node.orientation,
    );
}

/// A drag leaves no pane under the minimum: where the two panes next to the dragged
/// divider both have `TAB_SIZE` pixels or more in the container, they both have as many
/// in the same container when the split has handled a pointer motion. The two panes keep
/// their keys and get positive weights that add up to what the two had; every other child
/// is as it was and has the extent that it had. This holds of a split whose weights add
/// up to no more than `u64::MAX`.
pub proof fn lemma_drag_keeps_panes(
    node: LayoutView,
    control: ControlStateView,
    event: EventView,
    container_info: ContainerInfo,
    session: SessionId,
)
    requires
        node.wf(),
        event is MouseMove,
        node.active_divider is Some,
        total_weight(node.children) <= u64::MAX,
        panes_at_minimum(
            node.children,
            axis_extent(node.orientation, container_info.rect),
            node.active_divider->0.index as int,
        ),
    ensures
        ({
            let index = node.active_divider->0.index as int;
            let inner_size = axis_extent(node.orientation, container_info.rect);
            let after = node.handled(control, event, container_info, session).children;
            &&& total_weight(after) == total_weight(node.children)
            &&& panes_at_minimum(after, inner_size, index)
            &&& forall|k: int|
                0 <= k < node.children.len() && k != index && k != index + 1
                    ==> #[trigger] child_extent(after, inner_size, k) == child_extent(
                    node.children,
                    inner_size,
                    k,
                )
            &&& after.len() == node.children.len()
            &&& forall|k: int|
                0 <= k < node.children.len() && k != index && k != index + 1
                    ==> #[trigger] after[k] == node.children[k]
            &&& after[index].layout_or_tab_key == node.children[index].layout_or_tab_key
            &&& after[index + 1].layout_or_tab_key == node.children[index + 1].layout_or_tab_key
            &&& after[index].size > 0
            &&& after[index + 1].size > 0
            &&& after[index].size + after[index + 1].size == node.children[index].size
                + node.children[index + 1].size
        }),
{
    let divider = node.active_divider->0;
    let index = divider.index as int;
    let inner_size = axis_extent(node.orientation, container_info.rect);
    let pass = node.pass(control, event);
    let sizes = panes(node.children, node.orientation, container_info.rect);
    let divisions = divisions(node.children, node.orientation, container_info.rect);
    lemma_dividers_pass_moves(
        pass,
        sizes,
        divisions,
        node.orientation,
        container_info,
        session,
        node.children.len() - 1,
    );
    let drag = moved_drag(divider, node.orientation, event->MouseMove_corrected);
    crate::window_layout::layout::active_divider::lemma_drag_keeps_weight(
        drag,
        node.orientation,
    );
    lemma_weights_kept_at_minimum(
        node.children,
        inner_size,
        index,
        drag.new_division_sizes(node.orientation),
    );
}

impl View for LayoutElement {
    type V = LayoutView;

    open spec fn view(&self) -> LayoutView {
        LayoutView {
            children: self.children(),
            active_divider: self.active_divider(),
            orientation: self.orientation(),
        }
    }
}

impl LayoutElement {
    pub open spec fn children(&self) -> Seq<DividedElement> {
        match *self {
            LayoutElement::Horizontal { children, .. } => children@,
            LayoutElement::Vertical { children, .. } => children@,
        }
    }

    pub open spec fn active_divider(&self) -> Option<ActiveDivider> {
        match *self {
            LayoutElement::Horizontal { active_divider, .. } => active_divider,
            LayoutElement::Vertical { active_divider, .. } => active_divider,
        }
    }

    pub open spec fn orientation(&self) -> Orientation {
        match *self {
            LayoutElement::Horizontal { .. } => Orientation::Horizontal,
            LayoutElement::Vertical { .. } => Orientation::Vertical,
        }
    }

    /// A split has two children or more, and a drag of one of its dividers is consistent
    /// with its children.
    pub open spec fn wf(&self) -> bool {
        self@.wf()
    }

    /// What the split works on while an event passes over it.
    pub open spec fn pass(&self, control: ControlStateView, event: EventView) -> DividerPass {
        self@.pass(control, event)
    }

    /// What the split, the control state and the event are when the split has handled
    /// `event` in the container `container_info`: each divider has had its turn.
    pub open spec fn handled(
        &self,
        control: ControlStateView,
        event: EventView,
        container_info: ContainerInfo,
        session: SessionId,
    ) -> DividerPass {
        self@.handled(control, event, container_info, session)
    }

    /// A split has no more children than a vector holds.
    pub proof fn lemma_children_bounded(&self)
        ensures
            self.children().len() <= usize::MAX,
    {
        match *self {
            LayoutElement::Horizontal { children, .. } => {
                assert(children@.len() == children.len());
            },
            LayoutElement::Vertical { children, .. } => {
                assert(children@.len() == children.len());
            },
        }
    }

    /// The orientation of the split.
    pub fn get_orientation(&self) -> (orientation: Orientation)
        ensures
            orientation == self.orientation(),
    {
        match self {
            LayoutElement::Horizontal { .. } => Orientation::Horizontal,
            LayoutElement::Vertical { .. } => Orientation::Vertical,
        }
    }

    /// The children of the split, with their weights.
    pub fn get_children(&self) -> (children: &Vec<DividedElement>)
        ensures
            children@ == self.children(),
    {
        match self {
            LayoutElement::Horizontal { children, .. } => children,
            LayoutElement::Vertical { children, .. } => children,
        }
    }

    /// The drag of a divider of the split, if one is under way.
    pub fn get_active_divider(&self) -> (divider: Option<ActiveDivider>)
        ensures
            divider == self.active_divider(),
    {
        match self {
            LayoutElement::Horizontal { active_divider, .. } => *active_divider,
            LayoutElement::Vertical { active_divider, .. } => *active_divider,
        }
    }

    /// Every child that is a split is in the arena.
    pub open spec fn children_live(
        children: Seq<DividedElement>,
        layout_elements: &Slotmap<LayoutElement>,
    ) -> bool {
        forall|i: int|
            0 <= i < children.len() ==> ((#[trigger] children[i]).layout_or_tab_key matches LayoutOrTabKey::LayoutKey(
                key,
            ) ==> layout_elements.contains_key(key.0))
    }

    /// The children can be those of a split of the given orientation: there are two or
    /// more of them, and none is itself a split of that orientation.
    pub open spec fn children_valid(
        children: Seq<DividedElement>,
        orientation: Orientation,
        layout_elements: &Slotmap<LayoutElement>,
    ) -> bool {
        &&& children.len() >= 2
        &&& forall|i: int|
            0 <= i < children.len() ==> ((#[trigger] children[i]).layout_or_tab_key matches LayoutOrTabKey::LayoutKey(
                key,
            ) ==> layout_elements.value_of(key.0).orientation() != orientation)
    }

    /// Says whether `children` can be the children of this split.
    pub fn validate_children(
        &self,
        children: &Vec<DividedElement>,
        layout_elements: &Slotmap<LayoutElement>,
    ) -> (valid: bool)
        requires
            Self::children_live(children@, layout_elements),
        ensures
            valid == Self::children_valid(children@, self.orientation(), layout_elements),
    {
        let orientation = self.get_orientation();
        let mut i: usize = 0;
        while i < children.len()
            invariant
                i <= children.len(),
                orientation == self.orientation(),
                Self::children_live(children@, layout_elements),
                forall|k: int|
                    0 <= k < i ==> ((#[trigger] children[k]).layout_or_tab_key matches LayoutOrTabKey::LayoutKey(
                        key,
                    ) ==> layout_elements.value_of(key.0).orientation() != orientation),
            decreases children.len() - i,
        {
            let child = children[i];
            match child.layout_or_tab_key {
                LayoutOrTabKey::TabKey(_) => {},
                LayoutOrTabKey::LayoutKey(layout_key) => {
                    assert(children[i as int].layout_or_tab_key == LayoutOrTabKey::LayoutKey(
                        layout_key,
                    ));
                    let layout_element = layout_elements.get_value(&layout_key.0).unwrap();
                    match (orientation, layout_element.get_orientation()) {
                        (Orientation::Horizontal, Orientation::Horizontal) => {
                            return false;
                        },
                        (Orientation::Vertical, Orientation::Vertical) => {
                            return false;
                        },
                        _ => {},
                    }
                },
            }
            i += 1;
        }
        children.len() >= 2
    }

    /// Appends `new_children` to the children of the split.
    pub fn push_children(&mut self, new_children: Vec<DividedElement>)
        ensures
            final(self).children() == old(self).children() + new_children@,
            final(self).active_divider() == old(self).active_divider(),
            final(self).orientation() == old(self).orientation(),
    {
        let mut new_children = new_children;
        match self {
            LayoutElement::Horizontal { children, .. } => {
                children.append(&mut new_children);
            },
            LayoutElement::Vertical { children, .. } => {
                children.append(&mut new_children);
            },
        }
    }

    /// Gives `layout` the children `new_children` and stores it in the arena, if they can
    /// be its children; stores nothing and returns `None` if they cannot.
    pub fn validate_and_create(
        layout: LayoutElement,
        new_children: Vec<DividedElement>,
        layout_elements: &mut Slotmap<LayoutElement>,
    ) -> (created: Option<LayoutSlotKey>)
        requires
            old(layout_elements).wf(),
            Self::children_live(new_children@, old(layout_elements)),
        ensures
            final(layout_elements).wf(),
            created is Some <==> Self::children_valid(
                new_children@,
                layout.orientation(),
                old(layout_elements),
            ),
            created is None ==> final(layout_elements).slots() == old(layout_elements).slots()
                && final(layout_elements).vacant() == old(layout_elements).vacant(),
            created matches Some(key) ==> {
                let stored = final(layout_elements).value_of(key.0);
                &&& !old(layout_elements).contains_key(key.0)
                &&& final(layout_elements).stores(old(layout_elements), key.0, stored)
                &&& stored.children() == layout.children() + new_children@
                &&& stored.active_divider() == layout.active_divider()
                &&& stored.orientation() == layout.orientation()
                &&& old(layout_elements).vacant().len() == 0 ==> {
                    &&& key.0.index == old(layout_elements).slots().len()
                    &&& final(layout_elements).slots().len() == old(layout_elements).slots().len()
                        + 1
                    &&& final(layout_elements).vacant().len() == 0
                }
            },
    {
        let mut layout = layout;
        let valid = layout.validate_children(&new_children, layout_elements);
        if !valid {
            None
        } else {
            layout.push_children(new_children);
            match layout_elements.push(layout) {
                Some(slot_key) => Some(LayoutSlotKey(slot_key)),
                None => None,
            }
        }
    }

    /// Stores a horizontal split with the given children; `None` if there are less than
    /// two children or if one of them is a horizontal split.
    pub fn create_horizontal(
        new_children: Vec<DividedElement>,
        layout_elements: &mut Slotmap<LayoutElement>,
    ) -> (created: Option<LayoutSlotKey>)
        requires
            old(layout_elements).wf(),
            Self::children_live(new_children@, old(layout_elements)),
        ensures
            final(layout_elements).wf(),
            created is Some <==> Self::children_valid(
                new_children@,
                Orientation::Horizontal,
                old(layout_elements),
            ),
            created is None ==> final(layout_elements).slots() == old(layout_elements).slots()
                && final(layout_elements).vacant() == old(layout_elements).vacant(),
            created matches Some(key) ==> {
                let stored = final(layout_elements).value_of(key.0);
                &&& !old(layout_elements).contains_key(key.0)
                &&& final(layout_elements).stores(old(layout_elements), key.0, stored)
                &&& stored.children() == new_children@
                &&& stored.active_divider() is None
                &&& stored.orientation() == Orientation::Horizontal
                &&& stored.wf()
                &&& old(layout_elements).vacant().len() == 0 ==> {
                    &&& key.0.index == old(layout_elements).slots().len()
                    &&& final(layout_elements).slots().len() == old(layout_elements).slots().len()
                        + 1
                    &&& final(layout_elements).vacant().len() == 0
                }
            },
    {
        let horizontal_layout = LayoutElement::Horizontal {
            children: Vec::<DividedElement>::new(),
            active_divider: None,
        };
        assert(horizontal_layout.children() + new_children@ =~= new_children@);
        Self::validate_and_create(horizontal_layout, new_children, layout_elements)
    }

    /// Stores a vertical split with the given children; `None` if there are less than two
    /// children or if one of them is a vertical split.
    pub fn create_vertical(
        new_children: Vec<DividedElement>,
        layout_elements: &mut Slotmap<LayoutElement>,
    ) -> (created: Option<LayoutSlotKey>)
        requires
            old(layout_elements).wf(),
            Self::children_live(new_children@, old(layout_elements)),
        ensures
            final(layout_elements).wf(),
            created is Some <==> Self::children_valid(
                new_children@,
                Orientation::Vertical,
                old(layout_elements),
            ),
            created is None ==> final(layout_elements).slots() == old(layout_elements).slots()
                && final(layout_elements).vacant() == old(layout_elements).vacant(),
            created matches Some(key) ==> {
                let stored = final(layout_elements).value_of(key.0);
                &&& !old(layout_elements).contains_key(key.0)
                &&& final(layout_elements).stores(old(layout_elements), key.0, stored)
                &&& stored.children() == new_children@
                &&& stored.active_divider() is None
                &&& stored.orientation() == Orientation::Vertical
                &&& stored.wf()
                &&& old(layout_elements).vacant().len() == 0 ==> {
                    &&& key.0.index == old(layout_elements).slots().len()
                    &&& final(layout_elements).slots().len() == old(layout_elements).slots().len()
                        + 1
                    &&& final(layout_elements).vacant().len() == 0
                }
            },
    {
        let vertical_layout = LayoutElement::Vertical {
            children: Vec::<DividedElement>::new(),
            active_divider: None,
        };
        assert(vertical_layout.children() + new_children@ =~= new_children@);
        Self::validate_and_create(vertical_layout, new_children, layout_elements)
    }

    /// Lays out the children in the container and lets every divider handle the event.
    /// Returns, for each child in order, the child with its rectangle. A drag that the
    /// event begins gets a fresh session identifier.
    pub fn handle_event(
        &mut self,
        event: &mut UIEvent,
        container_info: ContainerInfo,
        control_state: &mut ControlState,
    ) -> (handles: Vec<LayoutOrTabInfo>)
        requires
            old(self).wf(),
            old(control_state).in_frame(),
            container_info.depth_range_fits(),
        ensures
            handles.len() == old(self).children().len(),
            forall|i: int|
                0 <= i < handles.len() ==> handles[i] == pane_handle(
                    old(self).children(),
                    old(self).orientation(),
                    container_info,
                    i,
                ),
            final(self).orientation() == old(self).orientation(),
            exists|session: SessionId|
                {
                    &&& old(event).left_pressed() ==> !session.is_nil()
                    &&& final(self).pass(final(control_state)@, final(event)@)
                        == #[trigger] old(self).handled(
                        old(control_state)@,
                        old(event)@,
                        container_info,
                        session,
                    )
                },
            pass_kept(
                old(self).pass(old(control_state)@, old(event)@),
                final(self).pass(final(control_state)@, final(event)@),
            ),
            final(self).wf(),
            total_weight(final(self).children()) == total_weight(old(self).children()),
    {
        let session = if event.is_left_pressed() {
            SessionId::new_random()
        } else {
            SessionId::nil()
        };
        self.handle_event_with_session(event, container_info, control_state, session)
    }

    /// Lays out the children in the container and lets every divider handle the event.
    /// Returns, for each child in order, the child with its rectangle. `session` is the
    /// identifier under which a drag begins if the event begins one.
    pub fn handle_event_with_session(
        &mut self,
        event: &mut UIEvent,
        container_info: ContainerInfo,
        control_state: &mut ControlState,
        session: SessionId,
    ) -> (handles: Vec<LayoutOrTabInfo>)
        requires
            old(self).wf(),
            old(control_state).in_frame(),
            container_info.depth_range_fits(),
        ensures
            handles.len() == old(self).children().len(),
            forall|i: int|
                0 <= i < handles.len() ==> handles[i] == pane_handle(
                    old(self).children(),
                    old(self).orientation(),
                    container_info,
                    i,
                ),
            final(self).orientation() == old(self).orientation(),
            final(self).pass(final(control_state)@, final(event)@) == old(self).handled(
                old(control_state)@,
                old(event)@,
                container_info,
                session,
            ),
            pass_kept(
                old(self).pass(old(control_state)@, old(event)@),
                final(self).pass(final(control_state)@, final(event)@),
            ),
            final(self).wf(),
            total_weight(final(self).children()) == total_weight(old(self).children()),
    {
        match self {
            LayoutElement::Horizontal { children, active_divider } => handle_event_layout_element(
                children,
                control_state,
                container_info,
                event,
                active_divider,
                Orientation::Horizontal,
                session,
            ),
            LayoutElement::Vertical { children, active_divider } => handle_event_layout_element(
                children,
                control_state,
                container_info,
                event,
                active_divider,
                Orientation::Vertical,
                session,
            ),
        }
    }
}

} // verus!
