//! A push button: a rectangle that reports a click.

use vstd::prelude::*;
use crate::control::ControlState;
use crate::control::ControlStateView;
use crate::event::EventView;
use crate::event::UIEvent;
use crate::geometry::Rect;
use crate::render::DrawKind;
use crate::render::DrawRequest;

verus! {

/// The button is clicked: the left button goes down while it is the hovered control.
pub open spec fn button_clicked(control: ControlStateView, event: EventView) -> bool {
    &&& event matches EventView::MouseButton(input)
    &&& input.left_pressed()
    &&& control.hovered == Some(control.upcoming_id())
}

/// The control state when a button has handled an event: the button has taken one
/// identity, and on an update it has hit-tested the part of its rectangle that lies in
/// its mask.
pub open spec fn button_control(
    control: ControlStateView,
    event: EventView,
    rect: Rect,
    mask: Rect,
) -> ControlStateView {
    match event {
        EventView::Update => match rect.intersection(mask) {
            Some(interact_rect) => control.get_id().update_hot_with_rect(
                control.upcoming_id(),
                interact_rect,
            ),
            None => control.get_id(),
        },
        _ => control.get_id(),
    }
}

/// The event when a button has handled it: on a render event the button is drawn,
/// clipped to its mask.
pub open spec fn button_drawn(
    control: ControlStateView,
    event: EventView,
    rect: Rect,
    mask: Rect,
) -> EventView {
    event.draw(
        DrawRequest {
            rect,
            kind: DrawKind::Button { hovered: control.hovered == Some(control.upcoming_id()) },
            mask: Some(mask),
        },
    )
}

/// A button handles the event. Returns true if the button was clicked.
pub fn button(rect: Rect, mask: Rect, event: &mut UIEvent, control_state: &mut ControlState) -> (clicked:
    bool)
    requires
        old(control_state).in_frame(),
    ensures
        clicked == button_clicked(old(control_state)@, old(event)@),
        final(control_state)@ == button_control(old(control_state)@, old(event)@, rect, mask),
        final(event)@ == button_drawn(old(control_state)@, old(event)@, rect, mask),
{
    let control_id = control_state.get_id();
    let hovered: bool = control_state.is_hovered(control_id);
    match event {
        UIEvent::Update => {
            let interact_rect = rect.combine_rects(&mask);
            if let Some(interact_rect) = interact_rect {
                control_state.update_hot_with_rect(control_id, &interact_rect);
            }
        },
        UIEvent::MouseButton(mouse_input) => {
            if mouse_input.is_left_pressed() && hovered {
                return true;
            }
        },
        UIEvent::Render { gui_rects, .. } => {
            gui_rects.push(
                DrawRequest { rect, kind: DrawKind::Button { hovered }, mask: Some(mask) },
            );
        },
        _ => {},
    }
    false
}

} // verus!
