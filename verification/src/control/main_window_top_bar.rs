//! The title bar of a window: a strip that shows its state and drags the window.

use vstd::prelude::*;
use crate::control::drag_element::DragElement;
use crate::control::ControlId;
use crate::control::ControlState;
use crate::control::ControlStateView;
use crate::control::SessionId;
use crate::control::State;
use crate::control::Uiid;
use crate::event::EventView;
use crate::event::UIEvent;
use crate::geometry::Rect;
use crate::geometry::Vec2i;
use crate::public_data::PublicData;
use crate::public_data::WindowCommand;
use crate::render::DrawKind;
use crate::render::DrawRequest;

verus! {

/// What the title bar works on while an event passes over it.
pub struct TopBarPass {
    /// The session of the drag of the window, if one is under way.
    pub active_id: Option<SessionId>,
    pub drag: DragElement,
    pub control: ControlStateView,
    pub event: EventView,
    pub mutations: Seq<WindowCommand>,
}

/// The name under which the title bar asks for its state: its session while the window
/// is dragged, else its identity of this frame.
pub open spec fn top_bar_control_id(active_id: Option<SessionId>, control_id: Uiid) -> ControlId {
    match active_id {
        Some(session) => ControlId::Active(session),
        None => ControlId::Control(control_id),
    }
}

/// What the title bar does with an event. `rect` is the strip of the bar,
/// `window_position` the outer position of the window, `session` the identifier under
/// which a drag begins if one does.
///
/// - The bar takes one identity, whatever the event.
/// - Render: the bar is drawn in the colour of its state.
/// - Update: the bar hit-tests its strip; while its session is active it asks the host
///   to move the window to where the drag has taken it, and votes to hold the session.
/// - Pointer motion: the bar hit-tests its strip and notes where the pointer is on the
///   screen.
/// - Left button down: a drag begins if the bar is the hovered control and no session is
///   active. Left button up: the drag ends if its session is the active one.
pub open spec fn top_bar_step(
    pass: TopBarPass,
    rect: Rect,
    window_position: Vec2i,
    session: SessionId,
) -> TopBarPass {
    let control_id = pass.control.upcoming_id();
    let control = pass.control.get_id();
    let current = top_bar_control_id(pass.active_id, control_id);
    match pass.event {
        EventView::Render { .. } => TopBarPass {
            control,
            event: pass.event.draw(
                DrawRequest {
                    rect,
                    kind: DrawKind::TopBar { state: control.control_state(current) },
                    mask: None,
                },
            ),
            ..pass
        },
        EventView::Update => {
            let tested = control.update_hot_with_rect(control_id, rect);
            if tested.control_state(current) == State::Active {
                TopBarPass {
                    control: tested.hold_active_state(pass.active_id->0),
                    mutations: pass.mutations.push(
                        WindowCommand::SetOuterPosition(pass.drag.element_position()),
                    ),
                    ..pass
                }
            } else {
                TopBarPass { control: tested, ..pass }
            }
        },
        EventView::MouseMove { raw, corrected } => TopBarPass {
            control: control.update_hot_with_rect(control_id, rect),
            drag: DragElement {
                start_mouse_position: if pass.drag.is_draggin {
                    pass.drag.start_mouse_position
                } else {
                    window_position.plus(raw)
                },
                current_mouse_position: window_position.plus(raw),
                ..pass.drag
            },
            ..pass
        },
        EventView::MouseButton(input) => {
            if input.left_pressed() {
                if control.may_set_active(control_id) {
                    TopBarPass {
                        active_id: Some(session),
                        control: control.set_active(control_id, session),
                        drag: DragElement {
                            start_element_position: window_position,
                            is_draggin: true,
                            ..pass.drag
                        },
                        ..pass
                    }
                } else {
                    TopBarPass { active_id: None, control, ..pass }
                }
            } else if input.left_released() && control.control_state(current) == State::Active {
                TopBarPass {
                    active_id: None,
                    control: control.remove_active(pass.active_id->0),
                    drag: DragElement {
                        start_mouse_position: pass.drag.current_mouse_position,
                        is_draggin: false,
                        ..pass.drag
                    },
                    ..pass
                }
            } else {
                TopBarPass { control, ..pass }
            }
        },
        _ => TopBarPass { control, ..pass },
    }
}

/// The title bar of a window handles the event.
pub fn main_window_top_bar(
    position: Vec2i,
    size: Vec2i,
    event: &mut UIEvent,
    public_data: &mut PublicData,
    control_state: &mut ControlState,
    active_id: &mut Option<SessionId>,
    drag_element: &mut DragElement,
    session: SessionId,
)
    requires
        old(control_state).in_frame(),
    ensures
        ({
            let next = top_bar_step(
                TopBarPass {
                    active_id: *old(active_id),
                    drag: *old(drag_element),
                    control: old(control_state)@,
                    event: old(event)@,
                    mutations: old(public_data).mutations@,
                },
                Rect { position, size },
                old(public_data).engine_data.window_position,
                session,
            );
            &&& *final(active_id) == next.active_id
            &&& *final(drag_element) == next.drag
            &&& final(control_state)@ == next.control
            &&& final(event)@ == next.event
            &&& final(public_data).mutations@ == next.mutations
            &&& final(public_data).host_kept(old(public_data))
        }),
{
    let control_id = control_state.get_id();
    let rect = Rect { position, size };
    let current = match active_id {
        Some(session_id) => ControlId::Active(*session_id),
        None => ControlId::Control(control_id),
    };
    let window_position = public_data.engine_data.window_position;
    match event {
        UIEvent::Render { gui_rects, .. } => {
            let state = control_state.get_control_state(current);
            gui_rects.push(DrawRequest { rect, kind: DrawKind::TopBar { state }, mask: None });
        },
        UIEvent::Update => {
            control_state.update_hot_with_rect(control_id, &rect);
            match control_state.get_control_state(current) {
                State::Active => {
                    let window_pos = drag_element.compute_element_position();
                    public_data.push_mut(WindowCommand::SetOuterPosition(window_pos));
                    if let Some(session_id) = active_id {
                        control_state.hold_active_state(*session_id);
                    }
                },
                _ => {},
            }
        },
        UIEvent::MouseMove { raw, .. } => {
            control_state.update_hot_with_rect(control_id, &rect);
            drag_element.update_position(window_position.add(*raw));
        },
        UIEvent::MouseButton(input) => {
            if input.is_left_pressed() {
                *active_id = control_state.set_active_session(control_id, session);
                if active_id.is_some() {
                    drag_element.start_dragging(window_position);
                }
            } else if input.is_left_released() {
                if let State::Active = control_state.get_control_state(current) {
                    if let Some(session_id) = active_id {
                        let _ = control_state.remove_active(*session_id);
                    }
                    drag_element.stop_dragging();
                    *active_id = None;
                }
            }
        },
        _ => {},
    }
}

} // verus!
