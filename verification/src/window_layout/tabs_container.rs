//! A strip of tab buttons above a content area; exactly one tab is active.

use vstd::prelude::*;
use crate::control::ControlState;
use crate::control::ControlStateView;
use crate::event::EventView;
use crate::event::UIEvent;
use crate::geometry::Rect;
use crate::geometry::Vec2i;
use crate::geometry::half;
use crate::geometry::half_of;
use crate::geometry::sat_add;
use crate::geometry::sat_sub;
use crate::geometry::saturate;
use crate::geometry::saturate_to_i32;
use crate::render::DrawKind;
use crate::render::DrawRequest;
use crate::window_layout::depth_offset;
use crate::window_layout::GUIContainerInfo;
use crate::window_layout::GUIContainerSlotkey;
use crate::ContainerInfo;

verus! {

/// Height of the tab strip, and the least extent that a drag leaves to a pane.
pub const TAB_SIZE: i32 = 30;

/// Width of a tab button.
pub const TAB_WIDTH: i32 = 100;

/// Gap between tab buttons, and between the buttons and the edge of the strip.
pub const TAB_GAP: i32 = 5;

/// Height of the shadow under the tab strip.
pub const TAB_SHADOW_SIZE: i32 = 6;

/// Several leaf containers behind one strip of tabs.
pub struct TabsContainer {
    pub tabs: Vec<GUIContainerSlotkey>,
    active_tab: usize,
}

/// The strip of tabs of a container: its upper `TAB_SIZE` pixels.
pub open spec fn tab_strip_rect(rect: Rect) -> Rect {
    Rect {
        position: Vec2i {
            x: rect.position.x,
            y: saturate(rect.top() - TAB_SIZE + half(TAB_SIZE as int)) as i32,
        },
        size: Vec2i { x: rect.size.x, y: TAB_SIZE },
    }
}

/// The content area of a container: what lies under the strip of tabs.
pub open spec fn tab_content_rect(rect: Rect) -> Rect {
    Rect {
        position: Vec2i {
            x: rect.position.x,
            y: saturate(rect.bottom() + half(saturate(rect.size.y - TAB_SIZE))) as i32,
        },
        size: Vec2i { x: rect.size.x, y: saturate(rect.size.y - TAB_SIZE) as i32 },
    }
}

/// For a container that is high enough, the strip is its top and the content area is
/// the rest: the two do not overlap and leave nothing out.
pub proof fn lemma_strip_and_content_tile(rect: Rect)
    requires
        rect.size.y >= TAB_SIZE,
        i32::MIN <= rect.bottom(),
        rect.top() <= i32::MAX,
    ensures
        tab_strip_rect(rect).top() == rect.top(),
        tab_strip_rect(rect).bottom() == tab_content_rect(rect).top(),
        tab_content_rect(rect).bottom() == rect.bottom(),
        tab_strip_rect(rect).left() == rect.left(),
        tab_content_rect(rect).left() == rect.left(),
        tab_strip_rect(rect).right() == rect.right(),
        tab_content_rect(rect).right() == rect.right(),
{
}

/// The button of tab `index` in the strip `tab_rect`: buttons of `TAB_WIDTH` pixels
/// follow each other from the left edge, each behind a gap of `TAB_GAP` pixels.
pub open spec fn tab_button_rect(tab_rect: Rect, index: int) -> Rect {
    Rect {
        position: Vec2i {
            x: saturate(
                tab_rect.left() + TAB_GAP + half(TAB_WIDTH as int) + index * (TAB_GAP + TAB_WIDTH),
            ) as i32,
            y: tab_rect.position.y,
        },
        size: Vec2i { x: TAB_WIDTH, y: saturate(tab_rect.size.y - 2 * TAB_GAP) as i32 },
    }
}

/// The button of the active tab is drawn taller, down to the content area.
pub open spec fn tab_button_drawn_rect(rect: Rect, is_active_tab: bool) -> Rect {
    if is_active_tab {
        Rect {
            position: Vec2i {
                x: rect.position.x,
                y: saturate(rect.position.y - half(TAB_GAP as int)) as i32,
            },
            size: Vec2i { x: rect.size.x, y: saturate(rect.size.y + TAB_GAP + 2) as i32 },
        }
    } else {
        rect
    }
}

/// What the buttons of a strip of tabs work on while an event passes over them.
pub struct TabsPass {
    pub active_tab: usize,
    pub control: ControlStateView,
    pub event: EventView,
}

/// The button of tab `index` is clicked: the left button goes down while it is hovered.
pub open spec fn tab_clicked(control: ControlStateView, event: EventView) -> bool {
    &&& event matches EventView::MouseButton(input)
    &&& input.left_pressed()
    &&& control.hovered == Some(control.upcoming_id())
}

/// What one tab button does with an event.
///
/// - The button takes one identity, whatever the event.
/// - A click makes its tab the active one, and nothing else.
/// - Update: the button hit-tests the part of its rectangle that lies in the strip.
/// - Render: the button and its label are drawn, clipped to the strip.
pub open spec fn tab_button_step(
    pass: TabsPass,
    tab_rect: Rect,
    tabs: Seq<GUIContainerSlotkey>,
    index: int,
) -> TabsPass {
    let control_id = pass.control.upcoming_id();
    let control = pass.control.get_id();
    let rect = tab_button_rect(tab_rect, index);
    if tab_clicked(pass.control, pass.event) {
        TabsPass { active_tab: index as usize, control, ..pass }
    } else {
        match pass.event {
            EventView::Update => match rect.intersection(tab_rect) {
                Some(test_rect) => TabsPass {
                    control: control.update_hot_with_rect(control_id, test_rect),
                    ..pass
                },
                None => TabsPass { control, ..pass },
            },
            EventView::Render { .. } => {
                let is_active_tab = index == pass.active_tab;
                let drawn = tab_button_drawn_rect(rect, is_active_tab);
                TabsPass {
                    control,
                    event: pass.event.draw(
                        DrawRequest {
                            rect: drawn,
                            kind: DrawKind::TabButton {
                                index: index as usize,
                                active: is_active_tab,
                                hovered: control.hovered == Some(control_id),
                            },
                            mask: Some(tab_rect),
                        },
                    ).draw(
                        DrawRequest {
                            rect: drawn,
                            kind: DrawKind::TabLabel { container: tabs[index] },
                            mask: Some(tab_rect),
                        },
                    ),
                    ..pass
                }
            },
            _ => TabsPass { control, ..pass },
        }
    }
}

/// What the buttons of the tabs `0` to `count - 1` do with an event, one after the other.
pub open spec fn tab_buttons_pass(
    pass: TabsPass,
    tab_rect: Rect,
    tabs: Seq<GUIContainerSlotkey>,
    count: int,
) -> TabsPass
    decreases count,
{
    if count <= 0 {
        pass
    } else {
        tab_button_step(
            tab_buttons_pass(pass, tab_rect, tabs, count - 1),
            tab_rect,
            tabs,
            count - 1,
        )
    }
}

/// What the buttons leave as it is, and what they keep true, whatever the event.
pub open spec fn tabs_kept(before: TabsPass, after: TabsPass, count: int) -> bool {
    &&& before.active_tab < count ==> after.active_tab < count
    &&& after.control.current_ui_id is Some
    &&& after.control.current_ui_id->0.id >= before.control.current_ui_id->0.id
    &&& after.control.current_ui_id->0.depth == before.control.current_ui_id->0.depth
    &&& after.control.depth_stack == before.control.depth_stack
    &&& after.control.last_cursor_position == before.control.last_cursor_position
    &&& after.control.active == before.control.active
    &&& after.event.same_input(before.event)
    &&& before.event matches EventView::Render { steps, .. } ==> after.event
        == (EventView::Render { rects: after.event->Render_rects, steps })
}

/// The buttons keep the active tab within the tabs, take one identity each, begin and
/// end no session, and queue no deferred step.
pub proof fn lemma_tab_buttons_keep(
    pass: TabsPass,
    tab_rect: Rect,
    tabs: Seq<GUIContainerSlotkey>,
    count: int,
)
    requires
        pass.control.current_ui_id is Some,
        0 <= count <= tabs.len() <= usize::MAX,
    ensures
        tabs_kept(pass, tab_buttons_pass(pass, tab_rect, tabs, count), tabs.len() as int),
    decreases count,
{
    if count > 0 {
        lemma_tab_buttons_keep(pass, tab_rect, tabs, count - 1);
    }
}

/// The shadows under the strip of tabs: one from the left edge of the container to the
/// active tab, and, where the container reaches beyond the active tab, one from there to
/// the right edge. Under the active tab there is none.
pub open spec fn tab_shadows(active_tab: int, rect: Rect, tab_rect: Rect) -> Seq<DrawRequest> {
    let reach = active_tab * (TAB_GAP + TAB_WIDTH) + TAB_GAP;
    let left_size = if reach < rect.size.x {
        reach
    } else {
        rect.size.x as int
    };
    let right_start = (active_tab + 1) * (TAB_GAP + TAB_WIDTH);
    let top = tab_rect.bottom();
    let left_shadow = DrawRequest {
        rect: Rect::from_edges(
            rect.left(),
            rect.left() + left_size,
            top - TAB_SHADOW_SIZE,
            top,
        ),
        kind: DrawKind::TabShadow,
        mask: None,
    };
    let right_shadow = DrawRequest {
        rect: Rect::from_edges(
            rect.left() + right_start,
            rect.left() + rect.size.x,
            top - TAB_SHADOW_SIZE,
            top,
        ),
        kind: DrawKind::TabShadow,
        mask: None,
    };
    if right_start < rect.size.x {
        seq![right_shadow, left_shadow]
    } else {
        seq![left_shadow]
    }
}

fn render_shadow_under_tab(active_tab: usize, container_info: ContainerInfo, tab_rect: Rect) -> (shadows:
    Vec<DrawRequest>)
    ensures
        shadows@ == tab_shadows(active_tab as int, container_info.rect, tab_rect),
{
    let rect = container_info.rect;
    let stride: i128 = TAB_GAP as i128 + TAB_WIDTH as i128;
    assert(0 <= active_tab * stride <= 0x1_0000_0000_0000_0000 * 105) by (nonlinear_arith)
        requires
            0 <= active_tab <= 0xffff_ffff_ffff_ffff,
            stride == 105,
    ;
    assert((active_tab + 1) * stride == active_tab * stride + stride) by (nonlinear_arith);
    let reach: i128 = active_tab as i128 * stride + TAB_GAP as i128;
    let left_size: i128 = if reach < rect.size.x as i128 {
        reach
    } else {
        rect.size.x as i128
    };
    let right_start: i128 = (active_tab as i128 + 1) * stride;
    let top: i64 = tab_rect.bottom_edge();
    let left: i64 = rect.left_edge();
    let mut shadows: Vec<DrawRequest> = Vec::with_capacity(2);
    if right_start < rect.size.x as i128 {
        shadows.push(
            DrawRequest {
                rect: Rect::with_edges(
                    left + right_start as i64,
                    left + rect.size.x as i64,
                    top - TAB_SHADOW_SIZE as i64,
                    top,
                ),
                kind: DrawKind::TabShadow,
                mask: None,
            },
        );
    }
    shadows.push(
        DrawRequest {
            rect: Rect::with_edges(
                left,
                left + left_size as i64,
                top - TAB_SHADOW_SIZE as i64,
                top,
            ),
            kind: DrawKind::TabShadow,
            mask: None,
        },
    );
    assert(shadows@ =~= tab_shadows(active_tab as int, container_info.rect, tab_rect));
    shadows
}

/// The event with the requests queued at `depth`, in their order.
pub open spec fn defer_all(event: EventView, requests: Seq<DrawRequest>, depth: u32) -> EventView
    decreases requests.len(),
{
    if requests.len() == 0 {
        event
    } else {
        defer_all(event, requests.drop_last(), depth).defer(requests.last(), depth)
    }
}

/// Mathematical value of a [`TabsContainer`].
pub struct TabsView {
    /// The leaf containers behind the tabs, in the order of the tabs.
    pub tabs: Seq<GUIContainerSlotkey>,
    /// Index of the active tab.
    pub active: usize,
}

impl TabsView {
    /// There is a tab, and the active tab is one of the tabs.
    pub open spec fn wf(self) -> bool {
        0 < self.tabs.len() <= usize::MAX && self.active < self.tabs.len()
    }

    /// What the buttons work on while an event passes over them.
    pub open spec fn pass(self, control: ControlStateView, event: EventView) -> TabsPass {
        TabsPass { active_tab: self.active, control, event }
    }

    /// The event as the container leaves it before the buttons have their turn: on a
    /// render event the background of the strip is drawn and the shadows are queued.
    pub open spec fn with_strip(self, event: EventView, container_info: ContainerInfo) -> EventView {
        defer_all(
            event.draw(
                DrawRequest {
                    rect: tab_strip_rect(container_info.rect),
                    kind: DrawKind::TabStrip,
                    mask: None,
                },
            ),
            tab_shadows(
                self.active as int,
                container_info.rect,
                tab_strip_rect(container_info.rect),
            ),
            (container_info.depth_range.0 + depth_offset::TAB_SHADOW) as u32,
        )
    }

    /// What the active tab, the control state and the event are when the container has
    /// handled `event`.
    pub open spec fn handled(
        self,
        control: ControlStateView,
        event: EventView,
        container_info: ContainerInfo,
    ) -> TabsPass {
        tab_buttons_pass(
            self.pass(control, self.with_strip(event, container_info)),
            tab_strip_rect(container_info.rect),
            self.tabs,
            self.tabs.len() as int,
        )
    }

    /// What the container resolves to when it handles an event: the leaf container behind
    /// the active tab, in the content area.
    pub open spec fn resolved(self, container_info: ContainerInfo) -> GUIContainerInfo {
        GUIContainerInfo {
            key: self.tabs[self.active as int],
            container_info: ContainerInfo {
                rect: tab_content_rect(container_info.rect),
                depth_range: container_info.depth_range,
            },
        }
    }
}

impl View for TabsContainer {
    type V = TabsView;

    open spec fn view(&self) -> TabsView {
        TabsView { tabs: self.tabs(), active: self.active() }
    }
}

impl TabsContainer {
    /// The leaf containers behind the tabs, in the order of the tabs.
    pub closed spec fn tabs(&self) -> Seq<GUIContainerSlotkey> {
        self.tabs@
    }

    /// Index of the active tab.
    pub closed spec fn active(&self) -> usize {
        self.active_tab
    }

    /// There is a tab, and the active tab is one of the tabs.
    pub open spec fn wf(&self) -> bool {
        self@.wf()
    }

    /// What the buttons work on while an event passes over them.
    pub open spec fn pass(&self, control: ControlStateView, event: EventView) -> TabsPass {
        self@.pass(control, event)
    }

    /// What the active tab, the control state and the event are when the container has
    /// handled `event`.
    pub open spec fn handled(
        &self,
        control: ControlStateView,
        event: EventView,
        container_info: ContainerInfo,
    ) -> TabsPass {
        self@.handled(control, event, container_info)
    }

    /// A tab container over the given leaf containers, the first tab active. `None` if
    /// there is no leaf container.
    pub fn new(containers: Vec<GUIContainerSlotkey>) -> (created: Option<TabsContainer>)
        ensures
            created is Some <==> containers.len() > 0,
            created matches Some(container) ==> {
                &&& container.tabs() == containers@
                &&& container.active() == 0
                &&& container.wf()
            },
    {
        if containers.len() == 0 {
            None
        } else {
            Some(TabsContainer { tabs: containers, active_tab: 0 })
        }
    }

    /// Index of the active tab.
    pub fn active_tab(&self) -> (index: usize)
        ensures
            index == self.active(),
    {
        self.active_tab
    }

    /// Number of tabs.
    pub fn tab_count(&self) -> (count: usize)
        ensures
            count == self.tabs().len(),
    {
        self.tabs.len()
    }

    /// The leaf container behind tab `index`.
    pub fn tab_key(&self, index: usize) -> (key: GUIContainerSlotkey)
        requires
            index < self.tabs().len(),
        ensures
            key == self.tabs()[index as int],
    {
        self.tabs[index]
    }

    /// One tab button handles the event. Returns true if the button was clicked.
    pub fn tab_button(
        control_state: &mut ControlState,
        event: &mut UIEvent,
        rect: Rect,
        rect_mask: &Rect,
        is_active_tab: bool,
        index: usize,
        label: GUIContainerSlotkey,
    ) -> (clicked: bool)
        requires
            old(control_state).in_frame(),
        ensures
            clicked == tab_clicked(old(control_state)@, old(event)@),
            clicked ==> final(control_state)@ == old(control_state)@.get_id() && final(event)@
                == old(event)@,
            !clicked && old(event)@ is Update ==> final(event)@ == old(event)@
                && final(control_state)@ == (match rect.intersection(*rect_mask) {
                Some(test_rect) => old(control_state)@.get_id().update_hot_with_rect(
                    old(control_state)@.upcoming_id(),
                    test_rect,
                ),
                None => old(control_state)@.get_id(),
            }),
            !clicked && old(event)@ is Render ==> final(control_state)@
                == old(control_state)@.get_id() && final(event)@ == old(event)@.draw(
                DrawRequest {
                    rect: tab_button_drawn_rect(rect, is_active_tab),
                    kind: DrawKind::TabButton {
                        index,
                        active: is_active_tab,
                        hovered: old(control_state)@.hovered == Some(
                            old(control_state)@.upcoming_id(),
                        ),
                    },
                    mask: Some(*rect_mask),
                },
            ).draw(
                DrawRequest {
                    rect: tab_button_drawn_rect(rect, is_active_tab),
                    kind: DrawKind::TabLabel { container: label },
                    mask: Some(*rect_mask),
                },
            ),
            !clicked && !(old(event)@ is Update) && !(old(event)@ is Render)
                ==> final(control_state)@ == old(control_state)@.get_id() && final(event)@
                == old(event)@,
    {
        let control_id = control_state.get_id();
        let hovered: bool = control_state.is_hovered(control_id);
        match event {
            UIEvent::MouseButton(mouse_input) => {
                if mouse_input.is_left_pressed() && hovered {
                    return true;
                }
            },
            UIEvent::Update => {
                let mouse_test_rect = rect.combine_rects(rect_mask);
                if let Some(test_rect) = mouse_test_rect {
                    control_state.update_hot_with_rect(control_id, &test_rect);
                }
            },
            UIEvent::Render { gui_rects, .. } => {
                let drawn = if is_active_tab {
                    Rect {
                        position: Vec2i {
                            x: rect.position.x,
                            y: sat_sub(rect.position.y, half_of(TAB_GAP)),
                        },
                        size: Vec2i { x: rect.size.x, y: sat_add(rect.size.y, TAB_GAP + 2) },
                    }
                } else {
                    rect
                };
                gui_rects.push(
                    DrawRequest {
                        rect: drawn,
                        kind: DrawKind::TabButton { index, active: is_active_tab, hovered },
                        mask: Some(*rect_mask),
                    },
                );
                gui_rects.push(
                    DrawRequest {
                        rect: drawn,
                        kind: DrawKind::TabLabel { container: label },
                        mask: Some(*rect_mask),
                    },
                );
            },
            _ => {},
        }
        false
    }

    /// Every tab button handles the event, from the left. A button that is clicked makes
    /// its tab the active one.
    pub fn create_tab_buttons(
        &mut self,
        control_state: &mut ControlState,
        event: &mut UIEvent,
        tab_rect: Rect,
    )
        requires
            old(self).wf(),
            old(control_state).in_frame(),
        ensures
            final(self).tabs() == old(self).tabs(),
            final(self).pass(final(control_state)@, final(event)@) == tab_buttons_pass(
                old(self).pass(old(control_state)@, old(event)@),
                tab_rect,
                old(self).tabs(),
                old(self).tabs().len() as int,
            ),
            tabs_kept(
                old(self).pass(old(control_state)@, old(event)@),
                final(self).pass(final(control_state)@, final(event)@),
                old(self).tabs().len() as int,
            ),
            final(self).wf(),
    {
        let ghost before = self.pass(control_state@, event@);
        let left: i64 = tab_rect.left_edge();
        let count: usize = self.tabs.len();
        let mut index: usize = 0;
        while index < count
            invariant
                index <= count,
                count == self.tabs().len(),
                self.tabs() == old(self).tabs(),
                left == tab_rect.left(),
                before.control.current_ui_id is Some,
                before.active_tab < count,
                self.pass(control_state@, event@) == tab_buttons_pass(
                    before,
                    tab_rect,
                    self.tabs(),
                    index as int,
                ),
            decreases count - index,
        {
            proof {
                lemma_tab_buttons_keep(before, tab_rect, self.tabs(), index as int);
            }
            let stride: i128 = TAB_GAP as i128 + TAB_WIDTH as i128;
            assert(0 <= index * stride <= 0x1_0000_0000_0000_0000 * 105) by (nonlinear_arith)
                requires
                    0 <= index <= 0xffff_ffff_ffff_ffff,
                    stride == 105,
            ;
            let x: i32 = saturate_to_i32(
                left as i128 + TAB_GAP as i128 + half_of(TAB_WIDTH) as i128 + index as i128
                    * stride,
            );
            let rect = Rect {
                position: Vec2i { x, y: tab_rect.position.y },
                size: Vec2i { x: TAB_WIDTH, y: sat_sub(tab_rect.size.y, 2 * TAB_GAP) },
            };
            assert(rect == tab_button_rect(tab_rect, index as int));
            let is_active_tab: bool = index == self.active_tab;
            let label = self.tabs[index];
            if Self::tab_button(
                control_state,
                event,
                rect,
                &tab_rect,
                is_active_tab,
                index,
                label,
            ) {
                self.active_tab = index;
            }
            index += 1;
        }
        proof {
            lemma_tab_buttons_keep(before, tab_rect, self.tabs(), count as int);
        }
    }

    /// Splits the container into the strip of tabs and the content area, lets the tab
    /// buttons handle the event, and returns the leaf container of the tab that was
    /// active when the event arrived, with the content area as its rectangle.
    pub fn handle_event(
        &mut self,
        event: &mut UIEvent,
        container_info: ContainerInfo,
        control_state: &mut ControlState,
    ) -> (resolved: GUIContainerInfo)
        requires
            old(self).wf(),
            old(control_state).in_frame(),
            container_info.depth_range_fits(),
        ensures
            resolved == old(self)@.resolved(container_info),
            final(self).tabs() == old(self).tabs(),
            final(self).pass(final(control_state)@, final(event)@) == old(self).handled(
                old(control_state)@,
                old(event)@,
                container_info,
            ),
            final(self).wf(),
            final(control_state).in_frame(),
            final(control_state)@.depth_stack == old(control_state)@.depth_stack,
            final(control_state)@.current_depth() == old(control_state)@.current_depth(),
            final(control_state)@.current_ui_id->0.id >= old(control_state)@.current_ui_id->0.id,
            final(control_state)@.last_cursor_position == old(control_state)@.last_cursor_position,
            final(control_state)@.active == old(control_state)@.active,
            final(event)@.same_input(old(event)@),
    {
        let rect = container_info.rect;
        let active_tab_key = self.tabs[self.active_tab];
        let content_height: i32 = sat_sub(rect.size.y, TAB_SIZE);
        let content_rect = Rect {
            position: Vec2i {
                x: rect.position.x,
                y: saturate_to_i32(rect.bottom_edge() as i128 + half_of(content_height) as i128),
            },
            size: Vec2i { x: rect.size.x, y: content_height },
        };
        let tab_rect = Rect {
            position: Vec2i {
                x: rect.position.x,
                y: saturate_to_i32(
                    rect.top_edge() as i128 - TAB_SIZE as i128 + half_of(TAB_SIZE) as i128,
                ),
            },
            size: Vec2i { x: rect.size.x, y: TAB_SIZE },
        };
        assert(tab_rect == tab_strip_rect(rect));
        event.draw(DrawRequest { rect: tab_rect, kind: DrawKind::TabStrip, mask: None });
        if let UIEvent::Render { .. } = event {
            let depth: u32 = container_info.depth_range.0 + depth_offset::TAB_SHADOW;
            let shadows = render_shadow_under_tab(self.active_tab, container_info, tab_rect);
            let ghost drawn = event@;
            let mut i: usize = 0;
            while i < shadows.len()
                invariant
                    i <= shadows.len(),
                    event@ == defer_all(drawn, shadows@.subrange(0, i as int), depth),
                decreases shadows.len() - i,
            {
                assert(shadows@.subrange(0, i + 1).drop_last() =~= shadows@.subrange(0, i as int));
                event.defer(shadows[i], depth);
                i += 1;
            }
            assert(shadows@.subrange(0, i as int) =~= shadows@);
        } else {
            proof {
                lemma_defer_all_other(
                    event@,
                    tab_shadows(self.active() as int, rect, tab_rect),
                    (container_info.depth_range.0 + depth_offset::TAB_SHADOW) as u32,
                );
            }
        }
        proof {
            lemma_defer_all_same_input(
                old(event)@.draw(
                    DrawRequest { rect: tab_rect, kind: DrawKind::TabStrip, mask: None },
                ),
                tab_shadows(self.active() as int, rect, tab_rect),
                (container_info.depth_range.0 + depth_offset::TAB_SHADOW) as u32,
            );
        }
        self.create_tab_buttons(control_state, event, tab_rect);
        GUIContainerInfo {
            key: active_tab_key,
            container_info: ContainerInfo {
                rect: content_rect,
                depth_range: container_info.depth_range,
            },
        }
    }
}

/// Queuing steps changes no event but a render event.
pub proof fn lemma_defer_all_other(event: EventView, requests: Seq<DrawRequest>, depth: u32)
    requires
        !(event is Render),
    ensures
        defer_all(event, requests, depth) == event,
    decreases requests.len(),
{
    if requests.len() > 0 {
        lemma_defer_all_other(event, requests.drop_last(), depth);
    }
}

/// Queuing steps leaves the kind and the input of an event as they are, and the sink of
/// a render event as well.
pub proof fn lemma_defer_all_same_input(event: EventView, requests: Seq<DrawRequest>, depth: u32)
    ensures
        defer_all(event, requests, depth).same_input(event),
        event matches EventView::Render { rects, .. } ==> defer_all(event, requests, depth)
            is Render && defer_all(event, requests, depth)->Render_rects == rects,
    decreases requests.len(),
{
    if requests.len() > 0 {
        lemma_defer_all_same_input(event, requests.drop_last(), depth);
    }
}

} // verus!
