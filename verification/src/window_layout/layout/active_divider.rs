//! The drag of a divider: how cursor movement turns into new weights of two panes.

use vstd::prelude::*;
use crate::control::SessionId;
use crate::window_layout::layout::greatest_weight;
use crate::window_layout::layout::greatest_weight_for;
use crate::window_layout::layout::least_weight;
use crate::window_layout::layout::least_weight_for;
use crate::window_layout::layout::lemma_divide_bounds;
use crate::window_layout::layout::lemma_shares_cover;
use crate::window_layout::layout::lemma_weight_for_extent;
use crate::window_layout::layout::share;
use crate::window_layout::layout::Orientation;
use crate::window_layout::tabs_container::TAB_SIZE;

verus! {

/// Weight and pixel extent of one pane when the drag began.
#[derive(Clone, Copy, Debug, PartialEq, Eq, Structural)]
pub struct DivData {
    pub div_size: u32,
    pub div_px_size: i32,
}

/// The two panes next to a divider as they were when the drag began, and the cursor
/// coordinate along the axis of the split then and now.
#[derive(Clone, Copy, Debug, PartialEq, Eq)]
pub struct LayoutDragDivider {
    pub div_data: [DivData; 2],
    pub start_cursor_position: i32,
    pub current_cursor_position: i32,
}

/// A drag of a divider that is under way.
#[derive(Clone, Copy, Debug, PartialEq, Eq)]
pub struct ActiveDivider {
    pub active_id: SessionId,
    pub index: usize,
    pub drag_divider: LayoutDragDivider,
}

/// `numerator / denominator`, rounded to the nearest whole number, halves up.
pub open spec fn rounded_ratio(numerator: int, denominator: int) -> int {
    (2 * numerator + denominator) / (2 * denominator)
}

impl LayoutDragDivider {
    /// Sum of the pixel extents of the two panes.
    pub open spec fn total_px_size(&self) -> int {
        self.div_data[0].div_px_size + self.div_data[1].div_px_size
    }

    /// Sum of the weights of the two panes.
    pub open spec fn total_div_size(&self) -> int {
        self.div_data[0].div_size + self.div_data[1].div_size
    }

    /// Cursor movement since the drag began, towards the second pane. The axis of a
    /// vertical split points down the panes, against the Y axis.
    pub open spec fn movement(&self, orientation: Orientation) -> int {
        match orientation {
            Orientation::Horizontal => self.current_cursor_position - self.start_cursor_position,
            Orientation::Vertical => self.start_cursor_position - self.current_cursor_position,
        }
    }

    /// How far the divider follows the cursor: no further than to where the pane that
    /// shrinks is `TAB_SIZE` pixels wide.
    pub open spec fn clamped_movement(&self, orientation: Orientation) -> int {
        let movement = self.movement(orientation);
        if movement < 0 {
            let room = self.div_data[0].div_px_size - TAB_SIZE;
            if -movement < room {
                -movement
            } else {
                room
            }
        } else {
            let room = self.div_data[1].div_px_size - TAB_SIZE;
            if movement < room {
                movement
            } else {
                room
            }
        }
    }

    /// Pixel extents of the two panes with the divider where the cursor has taken it.
    pub open spec fn new_px_sizes(&self, orientation: Orientation) -> (int, int) {
        let shift = self.clamped_movement(orientation);
        if self.movement(orientation) < 0 {
            (self.div_data[0].div_px_size - shift, self.div_data[1].div_px_size + shift)
        } else {
            (self.div_data[0].div_px_size + shift, self.div_data[1].div_px_size - shift)
        }
    }

    /// Both panes had at least `TAB_SIZE` pixels when the drag began.
    pub open spec fn began_at_minimum(&self) -> bool {
        self.div_data[0].div_px_size >= TAB_SIZE && self.div_data[1].div_px_size >= TAB_SIZE
    }

    /// The pixels that a first pane of weight `weight` gets of the pixels of the two
    /// panes: its share, rounded to the nearest pixel. The second pane gets the rest.
    pub open spec fn first_extent(&self, weight: int) -> int {
        share(self.total_px_size(), weight as nat, self.total_div_size() as nat)
    }

    /// With a first pane of weight `weight`, both panes have at least `TAB_SIZE` pixels.
    pub open spec fn at_minimum(&self, weight: int) -> bool {
        TAB_SIZE <= self.first_extent(weight) <= self.total_px_size() - TAB_SIZE
    }

    /// The first pane can get the weight `weight`: both weights fit in `u32` and are
    /// positive.
    pub open spec fn fits(&self, weight: int) -> bool {
        self.least_fitting_weight() <= weight <= self.greatest_fitting_weight()
    }

    /// Least weight of the first pane with which both weights fit in `u32` and are
    /// positive.
    pub open spec fn least_fitting_weight(&self) -> int {
        if self.total_div_size() - u32::MAX > 1 {
            self.total_div_size() - u32::MAX
        } else {
            1
        }
    }

    /// Greatest weight of the first pane with which both weights fit in `u32` and are
    /// positive.
    pub open spec fn greatest_fitting_weight(&self) -> int {
        if self.total_div_size() - 1 < u32::MAX {
            self.total_div_size() - 1
        } else {
            u32::MAX as int
        }
    }

    /// Least weight that the first pane can get: both weights must fit in `u32` and stay
    /// positive, and where both panes began with `TAB_SIZE` pixels or more, the first
    /// pane must keep as many.
    pub open spec fn least_first_weight(&self) -> int {
        let keeping = least_weight_for(
            self.total_px_size(),
            self.total_div_size(),
            TAB_SIZE as int,
        );
        if self.began_at_minimum() && keeping > self.least_fitting_weight() {
            keeping
        } else {
            self.least_fitting_weight()
        }
    }

    /// Greatest weight that the first pane can get: both weights must fit in `u32` and
    /// stay positive, and where both panes began with `TAB_SIZE` pixels or more, the
    /// first pane must leave as many to the second.
    pub open spec fn greatest_first_weight(&self) -> int {
        let keeping = greatest_weight_for(
            self.total_px_size(),
            self.total_div_size(),
            self.total_px_size() - TAB_SIZE,
        );
        if self.began_at_minimum() && keeping < self.greatest_fitting_weight() {
            keeping
        } else {
            self.greatest_fitting_weight()
        }
    }

    /// Weights of the two panes with the divider where the cursor has taken it. The first
    /// pane gets the share of the common weight that its pixels are of the common pixels,
    /// rounded, but no less than its least and no more than its greatest weight; the
    /// second pane gets the rest. Where the weights are so coarse that no weight keeps
    /// both panes at `TAB_SIZE` pixels, the weight need only fit. Where the panes have no
    /// pixels, the first pane keeps its weight within the same bounds. Where there are
    /// less than two units of weight to share, the weights stay as they were.
    pub open spec fn new_division_sizes(&self, orientation: Orientation) -> (u32, u32) {
        let total_px = self.total_px_size();
        let total = self.total_div_size();
        if total < 2 {
            (self.div_data[0].div_size, self.div_data[1].div_size)
        } else {
            let px = self.new_px_sizes(orientation).0;
            let raw = if total_px <= 0 {
                self.div_data[0].div_size as int
            } else if px <= 0 {
                0
            } else {
                rounded_ratio(px * total, total_px)
            };
            let (least, greatest) = if self.least_first_weight()
                <= self.greatest_first_weight() {
                (self.least_first_weight(), self.greatest_first_weight())
            } else {
                (self.least_fitting_weight(), self.greatest_fitting_weight())
            };
            let first = if raw < least {
                least
            } else if raw > greatest {
                greatest
            } else {
                raw
            };
            (first as u32, (total - first) as u32)
        }
    }

    pub fn new(div_data: [DivData; 2], start_cursor_position: i32) -> (drag: LayoutDragDivider)
        ensures
            drag.div_data == div_data,
            drag.start_cursor_position == start_cursor_position,
            drag.current_cursor_position == start_cursor_position,
    {
        LayoutDragDivider {
            div_data,
            start_cursor_position,
            current_cursor_position: start_cursor_position,
        }
    }

    pub fn update_cursor_position(&mut self, current_position: i32)
        ensures
            *final(self) == (LayoutDragDivider {
                current_cursor_position: current_position,
                ..*old(self)
            }),
    {
        self.current_cursor_position = current_position;
    }

    /// The weights that the two panes get for the present cursor position.
    pub fn compute_new_division_sizes(&self, orientation: Orientation) -> (sizes: (u32, u32))
        ensures
            sizes == self.new_division_sizes(orientation),
            sizes.0 + sizes.1 == self.total_div_size(),
    {
        let px_0: i64 = self.div_data[0].div_px_size as i64;
        let px_1: i64 = self.div_data[1].div_px_size as i64;
        let weight_0: u32 = self.div_data[0].div_size;
        let weight_1: u32 = self.div_data[1].div_size;
        let total_px: i64 = px_0 + px_1;
        let total: u64 = weight_0 as u64 + weight_1 as u64;
        if total < 2 {
            return (weight_0, weight_1);
        }
        let movement: i64 = match orientation {
            Orientation::Horizontal => self.current_cursor_position as i64
                - self.start_cursor_position as i64,
            Orientation::Vertical => self.start_cursor_position as i64
                - self.current_cursor_position as i64,
        };
        let new_px_0: i64 = if movement < 0 {
            let room: i64 = px_0 - TAB_SIZE as i64;
            let shift: i64 = if -movement < room {
                -movement
            } else {
                room
            };
            px_0 - shift
        } else {
            let room: i64 = px_1 - TAB_SIZE as i64;
            let shift: i64 = if movement < room {
                movement
            } else {
                room
            };
            px_0 + shift
        };
        assert(new_px_0 == self.new_px_sizes(orientation).0);
        let began_at_minimum: bool = px_0 >= TAB_SIZE as i64 && px_1 >= TAB_SIZE as i64;
        let fitting_least: u64 = if total > u32::MAX as u64 + 1 {
            total - u32::MAX as u64
        } else {
            1
        };
        let fitting_greatest: u64 = if total - 1 < u32::MAX as u64 {
            total - 1
        } else {
            u32::MAX as u64
        };
        let mut least: u128 = fitting_least as u128;
        let mut greatest: u128 = fitting_greatest as u128;
        if began_at_minimum {
            let keeping_least: u128 = least_weight(total_px, total as u128, TAB_SIZE as i64);
            let keeping_greatest: u128 = greatest_weight(
                total_px,
                total as u128,
                total_px - TAB_SIZE as i64,
            );
            if keeping_least > least {
                least = keeping_least;
            }
            if keeping_greatest < greatest {
                greatest = keeping_greatest;
            }
        }
        assert(least == self.least_first_weight());
        assert(greatest == self.greatest_first_weight());
        if least > greatest {
            least = fitting_least as u128;
            greatest = fitting_greatest as u128;
        }
        let raw: u128 = if total_px <= 0 {
            weight_0 as u128
        } else if new_px_0 <= 0 {
            0
        } else {
            assert(new_px_0 * total <= 0x1_0000_0000 * 0x2_0000_0000) by (nonlinear_arith)
                requires
                    0 < new_px_0 <= 0x1_0000_0000,
                    total <= 0x2_0000_0000,
            ;
            assert(0 <= new_px_0 * total) by (nonlinear_arith)
                requires
                    0 < new_px_0,
                    0 <= total,
            ;
            (2 * (new_px_0 as u128 * total as u128) + total_px as u128) / (2 * total_px as u128)
        };
        let first: u128 = if raw < least {
            least
        } else if raw > greatest {
            greatest
        } else {
            raw
        };
        (first as u32, (total as u128 - first) as u32)
    }
}

impl ActiveDivider {
    pub fn new(
        active_id: SessionId,
        index: usize,
        div_data: [DivData; 2],
        start_cursor_position: i32,
    ) -> (divider: ActiveDivider)
        ensures
            divider.active_id == active_id,
            divider.index == index,
            divider.drag_divider.div_data == div_data,
            divider.drag_divider.start_cursor_position == start_cursor_position,
            divider.drag_divider.current_cursor_position == start_cursor_position,
    {
        ActiveDivider {
            active_id,
            index,
            drag_divider: LayoutDragDivider::new(div_data, start_cursor_position),
        }
    }
}

/// A drag moves weight from one pane to the other and makes none: the two new weights add
/// up to what the two panes had. Where there are two units or more to share, each pane
/// gets at least one.
pub proof fn lemma_drag_keeps_weight(drag: LayoutDragDivider, orientation: Orientation)
    ensures
        drag.new_division_sizes(orientation).0 + drag.new_division_sizes(orientation).1
            == drag.total_div_size(),
        drag.total_div_size() >= 2 ==> drag.new_division_sizes(orientation).0 > 0
            && drag.new_division_sizes(orientation).1 > 0,
{
    if drag.began_at_minimum() && drag.total_div_size() >= 2 {
        lemma_least_is_positive(drag);
    }
}

/// The least weight that keeps the first pane at `TAB_SIZE` pixels is positive.
proof fn lemma_least_is_positive(drag: LayoutDragDivider)
    requires
        drag.began_at_minimum(),
        drag.total_div_size() >= 1,
    ensures
        least_weight_for(drag.total_px_size(), drag.total_div_size(), TAB_SIZE as int) >= 1,
        greatest_weight_for(
            drag.total_px_size(),
            drag.total_div_size(),
            drag.total_px_size() - TAB_SIZE,
        ) <= drag.total_div_size() - 1,
{
    let p = drag.total_px_size();
    let t = drag.total_div_size();
    lemma_divide_bounds(t * (2 * TAB_SIZE - 1), 2 * p, 0);
    assert(t * (2 * TAB_SIZE - 1) > 0) by (nonlinear_arith)
        requires
            t >= 1,
    ;
    lemma_divide_bounds(t * (2 * (p - TAB_SIZE) + 1) - 1, 2 * p, t);
    assert((2 * p) * t > t * (2 * (p - TAB_SIZE) + 1) - 1) by (nonlinear_arith)
        requires
            t >= 1,
            p >= 2 * TAB_SIZE,
    ;
}

/// While the divider follows the cursor, no pane gets less than `TAB_SIZE` pixels: where
/// both panes had at least `TAB_SIZE` pixels when the drag began, both still have, and
/// together they have as many pixels as before. This is said of the pixels that the
/// divider is taken to; [`lemma_drag_keeps_minimum_weights`] says it of the weights that
/// the drag gives.
pub proof fn lemma_drag_keeps_minimum(drag: LayoutDragDivider, orientation: Orientation)
    requires
        drag.div_data[0].div_px_size >= TAB_SIZE,
        drag.div_data[1].div_px_size >= TAB_SIZE,
    ensures
        drag.new_px_sizes(orientation).0 >= TAB_SIZE,
        drag.new_px_sizes(orientation).1 >= TAB_SIZE,
        drag.new_px_sizes(orientation).0 + drag.new_px_sizes(orientation).1
            == drag.total_px_size(),
{
}

/// The weights that a drag gives never stand for less than `TAB_SIZE` pixels: where both
/// panes had at least `TAB_SIZE` pixels when the drag began, and there is a weight for
/// the first pane that keeps both panes there, the share of each new weight of the pixels
/// of the two panes is at least `TAB_SIZE`, and so is what the share of the first leaves
/// of these pixels.
pub proof fn lemma_drag_keeps_minimum_weights(drag: LayoutDragDivider, orientation: Orientation)
    requires
        drag.began_at_minimum(),
        exists|weight: int| drag.fits(weight) && #[trigger] drag.at_minimum(weight),
    ensures
        share(
            drag.total_px_size(),
            drag.new_division_sizes(orientation).0 as nat,
            drag.total_div_size() as nat,
        ) >= TAB_SIZE,
        share(
            drag.total_px_size(),
            drag.new_division_sizes(orientation).1 as nat,
            drag.total_div_size() as nat,
        ) >= TAB_SIZE,
        drag.at_minimum(drag.new_division_sizes(orientation).0 as int),
{
    let p = drag.total_px_size();
    let t = drag.total_div_size();
    let witness = choose|weight: int| drag.fits(weight) && #[trigger] drag.at_minimum(weight);
    lemma_weight_for_extent(p, witness as nat, t as nat, TAB_SIZE as int);
    lemma_weight_for_extent(p, witness as nat, t as nat, p - TAB_SIZE);
    assert(drag.least_first_weight() <= witness <= drag.greatest_first_weight());
    let first = drag.new_division_sizes(orientation).0 as int;
    assert(drag.least_first_weight() <= first <= drag.greatest_first_weight());
    lemma_least_is_positive(drag);
    lemma_weight_for_extent(p, first as nat, t as nat, TAB_SIZE as int);
    lemma_weight_for_extent(p, first as nat, t as nat, p - TAB_SIZE);
    lemma_shares_cover(p, first as nat, t as nat);
}

/// A drag that takes the divider back by as much as an earlier drag has taken it gives
/// each pane the pixels that it had before the earlier drag. `first` is the earlier drag,
/// which began with both panes at least `TAB_SIZE` pixels wide; `second` begins with the
/// panes as the earlier drag has left them, and its cursor has moved as far as the
/// divider had followed the cursor of the first, the other way.
pub proof fn lemma_drag_round_trip(
    first: LayoutDragDivider,
    second: LayoutDragDivider,
    orientation: Orientation,
)
    requires
        first.div_data[0].div_px_size >= TAB_SIZE,
        first.div_data[1].div_px_size >= TAB_SIZE,
        second.div_data[0].div_px_size == first.new_px_sizes(orientation).0,
        second.div_data[1].div_px_size == first.new_px_sizes(orientation).1,
        second.movement(orientation) == first.div_data[0].div_px_size - first.new_px_sizes(
            orientation,
        ).0,
    ensures
        second.new_px_sizes(orientation).0 == first.div_data[0].div_px_size,
        second.new_px_sizes(orientation).1 == first.div_data[1].div_px_size,
{
}

/// Where the weights are at least as fine as the pixels, the weight that stands for a
/// number of pixels takes that many pixels: the rounded share of the pixels that the
/// rounded weight of `extent` pixels gets is `extent`.
pub proof fn lemma_weight_of_pixels(available: int, total: int, extent: int)
    requires
        0 < available <= total,
        0 <= extent <= available,
    ensures
        0 <= rounded_ratio(extent * total, available) <= total,
        share(available, rounded_ratio(extent * total, available) as nat, total as nat)
            == extent,
{
    let n = 2 * (extent * total) + available;
    let d = 2 * available;
    let r = rounded_ratio(extent * total, available);
    lemma_divide_bounds(n, d, r);
    lemma_divide_bounds(n, d, r + 1);
    lemma_divide_bounds(n, d, 0);
    lemma_divide_bounds(n, d, total + 1);
    assert(0 <= n && d * (total + 1) > n) by (nonlinear_arith)
        requires
            n == 2 * (extent * total) + available,
            d == 2 * available,
            0 < available <= total,
            0 <= extent <= available,
    ;
    let m = 2 * available * r + total;
    lemma_divide_bounds(m, 2 * total, extent);
    lemma_divide_bounds(m, 2 * total, extent + 1);
    assert((2 * total) * extent <= m && (2 * total) * (extent + 1) > m) by (nonlinear_arith)
        requires
            m == 2 * available * r + total,
            n == 2 * (extent * total) + available,
            d == 2 * available,
            d * r <= n,
            d * (r + 1) > n,
            0 < available <= total,
    ;
}

/// A drag that takes the divider back by as much as an earlier drag has taken it gives
/// the first pane the weight that stands for the pixels that it had before the earlier
/// drag, which takes exactly these pixels; where the pane had that weight, the two panes
/// have the weights again that they had. This holds where the weights are at least as fine
/// as the pixels and fit in `u32` together. `first` is the earlier drag, which began with
/// both panes at least `TAB_SIZE` pixels wide; `second` begins with the weights that the
/// earlier drag has given and with the pixels that these weights get, and its cursor has
/// moved as far as the divider had followed the cursor of the first, the other way.
pub proof fn lemma_drag_round_trip_weights(
    first: LayoutDragDivider,
    second: LayoutDragDivider,
    orientation: Orientation,
)
    requires
        first.began_at_minimum(),
        first.total_px_size() <= first.total_div_size() <= u32::MAX,
        second.div_data[0].div_size == first.new_division_sizes(orientation).0,
        second.div_data[1].div_size == first.new_division_sizes(orientation).1,
        second.div_data[0].div_px_size == first.first_extent(
            first.new_division_sizes(orientation).0 as int,
        ),
        second.div_data[1].div_px_size == first.total_px_size()
            - second.div_data[0].div_px_size,
        second.movement(orientation) == first.div_data[0].div_px_size - first.new_px_sizes(
            orientation,
        ).0,
    ensures
        second.div_data[0].div_px_size == first.new_px_sizes(orientation).0,
        second.new_division_sizes(orientation).0 == rounded_ratio(
            first.div_data[0].div_px_size * first.total_div_size(),
            first.total_px_size(),
        ),
        second.first_extent(second.new_division_sizes(orientation).0 as int)
            == first.div_data[0].div_px_size,
        first.div_data[0].div_size == rounded_ratio(
            first.div_data[0].div_px_size * first.total_div_size(),
            first.total_px_size(),
        ) ==> second.new_division_sizes(orientation) == (
            first.div_data[0].div_size,
            first.div_data[1].div_size,
        ),
{
    let p = first.total_px_size();
    let t = first.total_div_size();
    let taken = first.new_px_sizes(orientation).0;
    lemma_drag_keeps_minimum(first, orientation);
    lemma_least_is_positive(first);
    lemma_weight_of_pixels(p, t, taken);
    let given = rounded_ratio(taken * t, p);
    lemma_weight_for_extent(p, given as nat, t as nat, TAB_SIZE as int);
    lemma_weight_for_extent(p, given as nat, t as nat, p - TAB_SIZE);
    assert(first.new_division_sizes(orientation).0 == given);
    lemma_drag_keeps_weight(first, orientation);
    assert(second.total_px_size() == p);
    assert(second.total_div_size() == t);
    lemma_drag_round_trip(first, second, orientation);
    let back = first.div_data[0].div_px_size as int;
    lemma_least_is_positive(second);
    lemma_weight_of_pixels(p, t, back);
    let restored = rounded_ratio(back * t, p);
    lemma_weight_for_extent(p, restored as nat, t as nat, TAB_SIZE as int);
    lemma_weight_for_extent(p, restored as nat, t as nat, p - TAB_SIZE);
    assert(second.new_division_sizes(orientation).0 == restored);
}

} // verus!
