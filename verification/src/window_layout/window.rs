//! A top-level window: a rectangle with a title bar that drags it, a corner handle that
//! resizes it, and one split layout as its content.

use vstd::prelude::*;
use crate::control::drag_element::DragElement;
use crate::control::main_window_top_bar::main_window_top_bar;
use crate::control::main_window_top_bar::top_bar_step;
use crate::control::main_window_top_bar::TopBarPass;
use crate::control::ControlId;
use crate::control::ControlState;
use crate::control::ControlStateView;
use crate::control::SessionId;
use crate::control::State;
use crate::event::EventView;
use crate::event::UIEvent;
use crate::geometry::Rect;
use crate::geometry::Vec2i;
use crate::geometry::half;
use crate::geometry::half_of;
use crate::geometry::sat_add;
use crate::geometry::sat_sub;
use crate::geometry::saturate;
use crate::control::frame_kept;
use crate::public_data::PublicData;
use crate::public_data::WindowCommand;
use crate::render::DrawKind;
use crate::render::DrawRequest;
use crate::window_layout::depth_offset;
use crate::window_layout::LayoutOrTabInfo;
use crate::window_layout::LayoutOrTabKey;
use crate::window_layout::LayoutSlotKey;
use crate::ContainerInfo;

verus! {

/// Least width and height that a resize asks for.
pub const MIN_WINDOW_SIZE: i32 = 100;

/// Height of the title bar.
pub const TOP_BAR_SIZE: i32 = 20;

/// Width and height of the resize handle.
pub const RESIZE_HANDLE_SIZE: i32 = 60;

/// The cursor takes the resize handle within this distance of the corner.
pub const RESIZE_HANDLE_REACH: i32 = 30;

/// Width that the margins take from the content of a window.
pub const WINDOW_MARGIN_WIDTH: i32 = 10;

/// Height that the title bar and the margins take from the content of a window.
pub const WINDOW_MARGIN_HEIGHT: i32 = 30;

/// The resize of a window that is under way: the size asked for last, and a counter that
/// lets only every other request through to the host.
#[derive(Clone, Copy, Debug, PartialEq, Eq, Structural)]
pub struct ResizeDrag {
    pub active_id: SessionId,
    pub new_size: Vec2i,
    pub get_count: u32,
    pub changed: bool,
}

impl ResizeDrag {
    /// The counter after one more request: it alternates between one and zero.
    pub open spec fn next_count(&self) -> u32 {
        if self.get_count % 2 == 0 {
            1
        } else {
            0
        }
    }

    /// The resize after a request for the size.
    pub open spec fn after_get_size(&self) -> ResizeDrag {
        if self.changed {
            ResizeDrag { get_count: self.next_count(), ..*self }
        } else {
            *self
        }
    }

    /// The size that a request hands on to the host: the size asked for last, on every
    /// other request once a size has been asked for.
    pub open spec fn size_to_apply(&self) -> Option<Vec2i> {
        if self.changed && self.next_count() == 0 {
            Some(self.new_size)
        } else {
            None
        }
    }

    pub fn new(id: SessionId, size: Vec2i) -> (drag: ResizeDrag)
        ensures
            drag == (ResizeDrag { active_id: id, new_size: size, get_count: 0, changed: false }),
    {
        ResizeDrag { active_id: id, new_size: size, get_count: 0, changed: false }
    }

    pub fn update_counter(&mut self)
        ensures
            *final(self) == (ResizeDrag { get_count: old(self).next_count(), ..*old(self) }),
    {
        self.get_count = if self.get_count % 2 == 0 {
            1
        } else {
            0
        };
    }

    pub fn update_size(&mut self, size: Vec2i)
        ensures
            *final(self) == (ResizeDrag { new_size: size, changed: true, ..*old(self) }),
    {
        self.new_size = size;
        self.changed = true;
    }

    pub fn get_size(&mut self) -> (size: Option<Vec2i>)
        ensures
            size == old(self).size_to_apply(),
            *final(self) == old(self).after_get_size(),
    {
        if self.changed {
            self.update_counter();
            if self.get_count == 0 {
                Some(self.new_size)
            } else {
                None
            }
        } else {
            None
        }
    }
}

/// What the resize handle works on while an event passes over it.
pub struct ResizePass {
    pub resize: Option<ResizeDrag>,
    pub control: ControlStateView,
    pub event: EventView,
    pub mutations: Seq<WindowCommand>,
}

/// The corner of the window at which the resize handle sits: the lower right one.
pub open spec fn resize_corner(position: Vec2i, size: Vec2i) -> Vec2i {
    Vec2i {
        x: saturate(position.x + half(size.x as int)) as i32,
        y: saturate(position.y - half(size.y as int)) as i32,
    }
}

/// The size that a resize asks for when the cursor is at `raw`: no less than
/// `MIN_WINDOW_SIZE` either way.
pub open spec fn requested_size(raw: Vec2i) -> Vec2i {
    Vec2i {
        x: if raw.x < MIN_WINDOW_SIZE {
            MIN_WINDOW_SIZE
        } else {
            raw.x
        },
        y: if raw.y < MIN_WINDOW_SIZE {
            MIN_WINDOW_SIZE
        } else {
            raw.y
        },
    }
}

/// The cursor is within reach of the corner.
pub open spec fn within_reach(cursor: Vec2i, corner: Vec2i) -> bool {
    (cursor.x - corner.x) * (cursor.x - corner.x) + (cursor.y - corner.y) * (cursor.y - corner.y)
        <= RESIZE_HANDLE_REACH * RESIZE_HANDLE_REACH
}

fn is_within_reach(cursor: Vec2i, corner: Vec2i) -> (within: bool)
    ensures
        within == within_reach(cursor, corner),
{
    let dx: i128 = cursor.x as i128 - corner.x as i128;
    let dy: i128 = cursor.y as i128 - corner.y as i128;
    assert(0 <= dx * dx <= 0x1_0000_0000 * 0x1_0000_0000) by (nonlinear_arith)
        requires
            -0x1_0000_0000 <= dx <= 0x1_0000_0000,
    ;
    assert(0 <= dy * dy <= 0x1_0000_0000 * 0x1_0000_0000) by (nonlinear_arith)
        requires
            -0x1_0000_0000 <= dy <= 0x1_0000_0000,
    ;
    let reach: i128 = RESIZE_HANDLE_REACH as i128;
    assert(reach * reach == 900) by (nonlinear_arith)
        requires
            reach == 30,
    ;
    dx * dx + dy * dy <= reach * reach
}

/// What the resize handle of the window at `position` with size `size` does with an
/// event. `screen_size` is the size of the surface, `depth` the depth at which the
/// handle asks for its identity and queues its highlight, `session` the identifier under
/// which a resize begins if one does.
///
/// - The handle takes one identity, at depth `depth`, whatever the event.
/// - Left button down: a resize begins if the handle is the hovered control and no
///   session is active. Left button up: the resize, if any, ends.
/// - Pointer motion: a resize that is under way notes the size that the cursor asks for.
/// - Update: a resize that is under way votes to hold its session and hands every other
///   request on to the host; else the handle claims to be hot if the cursor is within
///   reach of the corner.
/// - Render: a hovered or active handle queues its highlight, clipped to the window.
pub open spec fn resize_step(
    pass: ResizePass,
    position: Vec2i,
    size: Vec2i,
    screen_size: Vec2i,
    depth: u32,
    session: SessionId,
) -> ResizePass {
    let scoped = pass.control.set_depth_and_save(depth);
    let control_id = scoped.upcoming_id();
    let control = scoped.get_id();
    let corner = resize_corner(position, size);
    let handle = Rect {
        position: corner,
        size: Vec2i { x: RESIZE_HANDLE_SIZE, y: RESIZE_HANDLE_SIZE },
    };
    let mask = Rect { position, size };
    let handled = match pass.event {
        EventView::MouseButton(input) => {
            let pressed = if input.left_pressed() && control.may_set_active(control_id) {
                ResizePass {
                    resize: Some(
                        ResizeDrag {
                            active_id: session,
                            new_size: screen_size,
                            get_count: 0,
                            changed: false,
                        },
                    ),
                    control: control.set_active(control_id, session),
                    ..pass
                }
            } else {
                ResizePass { control, ..pass }
            };
            if input.left_released() {
                ResizePass { resize: None, ..pressed }
            } else {
                pressed
            }
        },
        EventView::MouseMove { raw, corrected } => match pass.resize {
            Some(drag) => ResizePass {
                resize: Some(
                    ResizeDrag { new_size: requested_size(raw), changed: true, ..drag },
                ),
                control,
                ..pass
            },
            None => ResizePass { control, ..pass },
        },
        EventView::Update => match pass.resize {
            Some(drag) => ResizePass {
                resize: Some(drag.after_get_size()),
                control: control.hold_active_state(drag.active_id),
                mutations: match drag.size_to_apply() {
                    Some(new_size) => pass.mutations.push(WindowCommand::SetInnerSize(new_size)),
                    None => pass.mutations,
                },
                ..pass
            },
            None => ResizePass {
                control: if control.last_cursor_position is Some && within_reach(
                    control.last_cursor_position->0,
                    corner,
                ) {
                    control.set_hot(control_id)
                } else {
                    control
                },
                ..pass
            },
        },
        EventView::Render { .. } => {
            let state = control.control_state(ControlId::Control(control_id));
            ResizePass {
                control,
                event: if state == State::Inactive {
                    pass.event
                } else {
                    pass.event.defer(
                        DrawRequest {
                            rect: handle,
                            kind: DrawKind::ResizeHandle { state },
                            mask: Some(mask),
                        },
                        depth,
                    )
                },
                ..pass
            }
        },
        _ => ResizePass { control, ..pass },
    };
    ResizePass { control: handled.control.restore_depth(), ..handled }
}

/// The resize handle of a window handles the event.
pub fn resize_controls(
    position: Vec2i,
    size: Vec2i,
    event: &mut UIEvent,
    public_data: &mut PublicData,
    control_state: &mut ControlState,
    active_id: &mut Option<ResizeDrag>,
    container_info: &ContainerInfo,
    session: SessionId,
)
    requires
        old(control_state).in_frame(),
        container_info.depth_range_fits(),
    ensures
        ({
            let next = resize_step(
                ResizePass {
                    resize: *old(active_id),
                    control: old(control_state)@,
                    event: old(event)@,
                    mutations: old(public_data).mutations@,
                },
                position,
                size,
                old(public_data).engine_data.screen_size,
                (container_info.depth_range.0 + depth_offset::RESIZE_CONTROL) as u32,
                session,
            );
            &&& *final(active_id) == next.resize
            &&& final(control_state)@ == next.control
            &&& final(event)@ == next.event
            &&& final(public_data).mutations@ == next.mutations
            &&& final(public_data).host_kept(old(public_data))
        }),
{
    let depth: u32 = container_info.depth_range.0 + depth_offset::RESIZE_CONTROL;
    control_state.set_depth_and_save(depth);
    let rect_mask = Rect { position, size };
    let c_position = Vec2i {
        x: sat_add(position.x, half_of(size.x)),
        y: sat_sub(position.y, half_of(size.y)),
    };
    let c_size = Vec2i { x: RESIZE_HANDLE_SIZE, y: RESIZE_HANDLE_SIZE };
    let control_id = control_state.get_id();
    match event {
        UIEvent::MouseButton(mouse_input) => {
            if mouse_input.is_left_pressed() {
                let id = control_state.set_active_session(control_id, session);
                if let Some(id) = id {
                    *active_id = Some(ResizeDrag::new(id, public_data.engine_data.screen_size));
                }
            }
            if mouse_input.is_left_released() {
                *active_id = None;
            }
        },
        UIEvent::MouseMove { raw, .. } => {
            if let Some(drag_resize) = active_id {
                let new_size = Vec2i {
                    x: if raw.x < MIN_WINDOW_SIZE {
                        MIN_WINDOW_SIZE
                    } else {
                        raw.x
                    },
                    y: if raw.y < MIN_WINDOW_SIZE {
                        MIN_WINDOW_SIZE
                    } else {
                        raw.y
                    },
                };
                drag_resize.update_size(new_size);
            }
        },
        UIEvent::Update => {
            match active_id {
                Some(drag_resize) => {
                    control_state.hold_active_state(drag_resize.active_id);
                    if let Some(new_size) = drag_resize.get_size() {
                        public_data.push_mut(WindowCommand::SetInnerSize(new_size));
                    }
                },
                None => {
                    if let Some(cursor_pos) = control_state.cursor_position() {
                        if is_within_reach(cursor_pos, c_position) {
                            control_state.set_hot(control_id);
                        }
                    }
                },
            }
        },
        UIEvent::Render { extra_render_steps, .. } => {
            let state = control_state.get_control_state(ControlId::Control(control_id));
            match state {
                State::Inactive => {},
                _ => {
                    extra_render_steps.push(
                        DrawRequest {
                            rect: Rect { position: c_position, size: c_size },
                            kind: DrawKind::ResizeHandle { state },
                            mask: Some(rect_mask),
                        },
                        depth,
                    );
                },
            }
        },
        _ => {},
    }
    control_state.restore_depth();
}

/// A top-level window.
pub struct UIWindow {
    pub layout_key: LayoutSlotKey,
    pub size: Vec2i,
    pub position: Vec2i,
    pub drag_window: DragElement,
    pub top_bar_active_id: Option<SessionId>,
    pub resize_drag_active_id: Option<ResizeDrag>,
}

/// Mathematical value of a window, the control state, the event and the command queue
/// while an event passes over the window.
pub struct WindowPass {
    pub window: UIWindow,
    pub control: ControlStateView,
    pub event: EventView,
    pub mutations: Seq<WindowCommand>,
}

/// The strip of the title bar of the window at `position` with size `size`: its upper
/// `TOP_BAR_SIZE` pixels.
pub open spec fn top_bar_rect(position: Vec2i, size: Vec2i) -> Rect {
    Rect {
        position: Vec2i {
            x: position.x,
            y: saturate(position.y + half(size.y as int) - half(TOP_BAR_SIZE as int)) as i32,
        },
        size: Vec2i { x: size.x, y: TOP_BAR_SIZE },
    }
}

/// The request with which the title bar of `window` is drawn in a frame that begins with
/// the control state `control`: the strip of the bar, in the colour of the state that the
/// bar has when it has taken its identity.
pub open spec fn top_bar_request(window: UIWindow, control: ControlStateView) -> DrawRequest {
    DrawRequest {
        rect: top_bar_rect(window.position, window.size),
        kind: DrawKind::TopBar {
            state: control.get_id().control_state(
                crate::control::main_window_top_bar::top_bar_control_id(
                    window.top_bar_active_id,
                    control.upcoming_id(),
                ),
            ),
        },
        mask: None,
    }
}

/// The interior of the window at `position` with size `size`: what the title bar and the
/// margins leave.
pub open spec fn interior_rect(position: Vec2i, size: Vec2i) -> Rect {
    Rect {
        position: Vec2i {
            x: position.x,
            y: saturate(position.y - half(TOP_BAR_SIZE as int)) as i32,
        },
        size: Vec2i {
            x: saturate(size.x - WINDOW_MARGIN_WIDTH) as i32,
            y: saturate(size.y - WINDOW_MARGIN_HEIGHT) as i32,
        },
    }
}

impl UIWindow {
    /// What the window, the control state, the event and the command queue are when the
    /// window has handled `event`: first the title bar has its turn, then the resize
    /// handle; a resize of the surface then makes the window fill the surface.
    pub open spec fn handled(
        self,
        control: ControlStateView,
        event: EventView,
        mutations: Seq<WindowCommand>,
        window_position: Vec2i,
        screen_size: Vec2i,
        depth_range: (u32, u32),
        session: SessionId,
    ) -> WindowPass {
        let bar = top_bar_step(
            TopBarPass {
                active_id: self.top_bar_active_id,
                drag: self.drag_window,
                control,
                event,
                mutations,
            },
            top_bar_rect(self.position, self.size),
            window_position,
            session,
        );
        let handle = resize_step(
            ResizePass {
                resize: self.resize_drag_active_id,
                control: bar.control,
                event: bar.event,
                mutations: bar.mutations,
            },
            self.position,
            self.size,
            screen_size,
            (depth_range.0 + depth_offset::RESIZE_CONTROL) as u32,
            session,
        );
        let (size, position) = match event {
            EventView::Resize(new_size) => (
                new_size,
                Vec2i { x: half(new_size.x as int) as i32, y: half(new_size.y as int) as i32 },
            ),
            _ => (self.size, self.position),
        };
        WindowPass {
            window: UIWindow {
                layout_key: self.layout_key,
                size,
                position,
                drag_window: bar.drag,
                top_bar_active_id: bar.active_id,
                resize_drag_active_id: handle.resize,
            },
            control: handle.control,
            event: handle.event,
            mutations: handle.mutations,
        }
    }

    /// A window that is neither dragged nor resized.
    pub open spec fn fresh(layout_key: LayoutSlotKey, size: Vec2i, position: Vec2i) -> UIWindow {
        UIWindow {
            layout_key,
            size,
            position,
            drag_window: DragElement {
                start_mouse_position: Vec2i { x: 0, y: 0 },
                start_element_position: Vec2i { x: 0, y: 0 },
                current_mouse_position: Vec2i { x: 0, y: 0 },
                is_draggin: false,
            },
            top_bar_active_id: None,
            resize_drag_active_id: None,
        }
    }

    pub fn new_with_contianer(layout_key: LayoutSlotKey, size: Vec2i, position: Vec2i) -> (window:
        UIWindow)
        ensures
            window == UIWindow::fresh(layout_key, size, position),
    {
        UIWindow {
            layout_key,
            size,
            position,
            drag_window: DragElement::new(),
            top_bar_active_id: None,
            resize_drag_active_id: None,
        }
    }

    /// The title bar and the resize handle handle the event. Returns the layout of the
    /// window with the interior of the window as it was when the event arrived, and the
    /// depth range of the window. `session` is the identifier under which a drag or a
    /// resize begins if the event begins one.
    pub fn handle_event(
        &mut self,
        event: &mut UIEvent,
        public_data: &mut PublicData,
        control_state: &mut ControlState,
        depth_range: (u32, u32),
        session: SessionId,
    ) -> (root: LayoutOrTabInfo)
        requires
            old(control_state).in_frame(),
            depth_range.0 + crate::window_layout::DEPTH_SLICE_SIZE - 1 <= depth_range.1,
        ensures
            root == (LayoutOrTabInfo {
                key: LayoutOrTabKey::LayoutKey(old(self).layout_key),
                container_info: ContainerInfo {
                    rect: interior_rect(old(self).position, old(self).size),
                    depth_range,
                },
            }),
            ({
                let next = old(self).handled(
                    old(control_state)@,
                    old(event)@,
                    old(public_data).mutations@,
                    old(public_data).engine_data.window_position,
                    old(public_data).engine_data.screen_size,
                    depth_range,
                    session,
                );
                &&& *final(self) == next.window
                &&& final(control_state)@ == next.control
                &&& final(event)@ == next.event
                &&& final(public_data).mutations@ == next.mutations
                &&& final(public_data).host_kept(old(public_data))
            }),
            final(self).layout_key == old(self).layout_key,
            frame_kept(old(control_state)@, final(control_state)@),
            final(control_state)@.last_cursor_position == old(
                control_state,
            )@.last_cursor_position,
            final(event)@.same_input(old(event)@),
            old(public_data).mutations@.is_prefix_of(final(public_data).mutations@),
    {
        let inner_size = Vec2i {
            x: sat_sub(self.size.x, WINDOW_MARGIN_WIDTH),
            y: sat_sub(self.size.y, WINDOW_MARGIN_HEIGHT),
        };
        let inner_position = Vec2i {
            x: self.position.x,
            y: sat_sub(self.position.y, half_of(TOP_BAR_SIZE)),
        };
        let menu_bar_pos = Vec2i {
            x: self.position.x,
            y: crate::geometry::saturate_to_i32(
                self.position.y as i128 + half_of(self.size.y) as i128 - half_of(TOP_BAR_SIZE) as i128,
            ),
        };
        let menu_bar_size = Vec2i { x: self.size.x, y: TOP_BAR_SIZE };
        main_window_top_bar(
            menu_bar_pos,
            menu_bar_size,
            event,
            public_data,
            control_state,
            &mut self.top_bar_active_id,
            &mut self.drag_window,
            session,
        );
        proof {
            lemma_top_bar_keeps_frame(
                TopBarPass {
                    active_id: old(self).top_bar_active_id,
                    drag: old(self).drag_window,
                    control: old(control_state)@,
                    event: old(event)@,
                    mutations: old(public_data).mutations@,
                },
                top_bar_rect(old(self).position, old(self).size),
                old(public_data).engine_data.window_position,
                session,
            );
        }
        proof {
            let bar = top_bar_step(
                TopBarPass {
                    active_id: old(self).top_bar_active_id,
                    drag: old(self).drag_window,
                    control: old(control_state)@,
                    event: old(event)@,
                    mutations: old(public_data).mutations@,
                },
                top_bar_rect(old(self).position, old(self).size),
                old(public_data).engine_data.window_position,
                session,
            );
            lemma_resize_keeps_frame(
                ResizePass {
                    resize: old(self).resize_drag_active_id,
                    control: bar.control,
                    event: bar.event,
                    mutations: bar.mutations,
                },
                old(self).position,
                old(self).size,
                old(public_data).engine_data.screen_size,
                (depth_range.0 + depth_offset::RESIZE_CONTROL) as u32,
                session,
            );
        }
        let container_info = ContainerInfo {
            rect: Rect { position: Vec2i { x: 0, y: 0 }, size: Vec2i { x: 0, y: 0 } },
            depth_range,
        };
        resize_controls(
            self.position,
            self.size,
            event,
            public_data,
            control_state,
            &mut self.resize_drag_active_id,
            &container_info,
            session,
        );
        match event {
            UIEvent::Resize(screen_size) => {
                self.size = *screen_size;
                self.position = Vec2i { x: half_of(screen_size.x), y: half_of(screen_size.y) };
            },
            _ => {},
        }
        LayoutOrTabInfo {
            key: LayoutOrTabKey::LayoutKey(self.layout_key),
            container_info: ContainerInfo {
                rect: Rect { position: inner_position, size: inner_size },
                depth_range,
            },
        }
    }
}

/// The title bar leaves a frame open, the depth scope as it found it, and the kind and
/// input of the event as they are.
pub proof fn lemma_top_bar_keeps_frame(
    pass: TopBarPass,
    rect: Rect,
    window_position: Vec2i,
    session: SessionId,
)
    requires
        pass.control.current_ui_id is Some,
    ensures
        ({
            let next = top_bar_step(pass, rect, window_position, session);
            &&& next.control.current_ui_id is Some
            &&& next.control.current_ui_id->0.id >= pass.control.current_ui_id->0.id
            &&& next.control.current_ui_id->0.depth == pass.control.current_ui_id->0.depth
            &&& next.control.depth_stack == pass.control.depth_stack
            &&& next.control.last_cursor_position == pass.control.last_cursor_position
            &&& next.event.same_input(pass.event)
        }),
{
}

/// The resize handle leaves a frame open, the depth scope as it found it, and the kind
/// and input of the event as they are.
pub proof fn lemma_resize_keeps_frame(
    pass: ResizePass,
    position: Vec2i,
    size: Vec2i,
    screen_size: Vec2i,
    depth: u32,
    session: SessionId,
)
    requires
        pass.control.current_ui_id is Some,
    ensures
        ({
            let next = resize_step(pass, position, size, screen_size, depth, session);
            &&& next.control.current_ui_id is Some
            &&& next.control.current_ui_id->0.id >= pass.control.current_ui_id->0.id
            &&& next.control.current_ui_id->0.depth == pass.control.current_ui_id->0.depth
            &&& next.control.depth_stack == pass.control.depth_stack
            &&& next.control.last_cursor_position == pass.control.last_cursor_position
            &&& next.event.same_input(pass.event)
        }),
{
    let scoped = pass.control.set_depth_and_save(depth);
    assert(scoped.depth_stack.drop_last() =~= pass.control.depth_stack);
}

} // verus!
