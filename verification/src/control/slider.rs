//! A slider: a track with a pin that sets a whole number between two bounds.

use vstd::prelude::*;
use crate::control::current_control_id;
use crate::control::get_current_control_id;
use crate::control::ControlId;
use crate::control::ControlState;
use crate::control::ControlStateView;
use crate::control::SessionId;
use crate::control::State;
use crate::event::EventView;
use crate::event::UIEvent;
use crate::geometry::saturate;
use crate::geometry::saturate_to_i32;
use crate::geometry::Rect;
use crate::geometry::Vec2i;
use crate::render::DrawKind;
use crate::render::DrawRequest;

verus! {

/// Width of the pin.
pub const SLIDER_CONTROL_PIN_WIDTH: i32 = 22;

/// Height of the pin, and of the strip in which the slider takes the pointer.
pub const SLIDER_CONTROL_PIN_HEIGHT: i32 = 22;

/// Height of the track.
pub const SLIDER_CONTROL_BG_HEIGHT: i32 = 10;

/// `value` moved into `[min, max]`; `max` where the bounds are crossed.
pub open spec fn clamped_value(value: int, min: int, max: int) -> int {
    let raised = if value < min {
        min
    } else {
        value
    };
    if raised > max {
        max
    } else {
        raised
    }
}

/// How far along the track the position `x` lies, in pixels from the left end.
pub open spec fn track_offset(rect: Rect, x: int) -> int {
    let offset = x - rect.left();
    if offset < 0 {
        0
    } else if offset > rect.size.x {
        rect.size.x as int
    } else {
        offset
    }
}

/// `amount * part / whole`, rounded to the nearest whole number; `whole` is positive and
/// `part` is not negative.
pub open spec fn scaled(amount: int, part: int, whole: int) -> int {
    if amount >= 0 {
        (2 * amount * part + whole) / (2 * whole)
    } else {
        -((2 * (-amount) * part + whole) / (2 * whole))
    }
}

/// The value that the slider takes when the pin is put at the position `x`: `min` at the
/// left end of the track, `max` at the right end, in proportion between. A track without
/// width gives `min`.
pub open spec fn value_at(rect: Rect, min: i32, max: i32, x: int) -> int {
    if rect.size.x <= 0 {
        min as int
    } else {
        saturate(min + scaled(max - min, track_offset(rect, x), rect.size.x as int))
    }
}

/// How far along the track the pin stands for `value`, in pixels from the left end.
pub open spec fn pin_offset(rect: Rect, value: i32, min: i32, max: i32) -> int {
    if max <= min || rect.size.x <= 0 {
        0
    } else {
        scaled(rect.size.x as int, clamped_value(value as int, min as int, max as int) - min, max - min)
    }
}

fn clamp_value(value: i32, min: i32, max: i32) -> (clamped: i32)
    ensures
        clamped == clamped_value(value as int, min as int, max as int),
{
    let raised: i32 = if value < min {
        min
    } else {
        value
    };
    if raised > max {
        max
    } else {
        raised
    }
}

fn scale(amount: i64, part: i64, whole: i64) -> (result: i64)
    requires
        -0x1_0000_0000 <= amount <= 0x1_0000_0000,
        0 <= part <= whole,
        0 < whole <= 0x1_0000_0000,
    ensures
        result == scaled(amount as int, part as int, whole as int),
        -0x1_0000_0000 <= result <= 0x1_0000_0000,
{
    let magnitude: i128 = if amount >= 0 {
        amount as i128
    } else {
        -(amount as i128)
    };
    assert(0 <= magnitude * part <= 0x1_0000_0000 * 0x1_0000_0000) by (nonlinear_arith)
        requires
            0 <= magnitude <= 0x1_0000_0000,
            0 <= part <= 0x1_0000_0000,
    ;
    let quotient: i128 = (2 * (magnitude * part as i128) + whole as i128) / (2 * whole as i128);
    assert(0 <= quotient <= magnitude) by {
        let n = 2 * (magnitude * part) + whole;
        let d = 2 * whole;
        assert(n < d * (magnitude + 1)) by (nonlinear_arith)
            requires
                n == 2 * (magnitude * part) + whole,
                d == 2 * whole,
                0 <= magnitude,
                0 <= part <= whole,
                whole > 0,
        ;
        vstd::arithmetic::div_mod::lemma_div_pos_is_pos(n as int, d as int);
        vstd::arithmetic::div_mod::lemma_div_by_multiple_is_strongly_ordered(
            n as int,
            (d * (magnitude + 1)) as int,
            (magnitude + 1) as int,
            d as int,
        );
        vstd::arithmetic::div_mod::lemma_div_multiples_vanish((magnitude + 1) as int, d as int);
    }
    assert(2 * (magnitude * part) == 2 * magnitude * part) by (nonlinear_arith);
    if amount >= 0 {
        quotient as i64
    } else {
        -(quotient as i64)
    }
}

fn compute_new_value(rect: Rect, min: i32, max: i32, x: i32) -> (value: i32)
    ensures
        value == value_at(rect, min, max, x as int),
{
    if rect.size.x <= 0 {
        min
    } else {
        let offset: i64 = x as i64 - rect.left_edge();
        let along: i64 = if offset < 0 {
            0
        } else if offset > rect.size.x as i64 {
            rect.size.x as i64
        } else {
            offset
        };
        let span: i64 = max as i64 - min as i64;
        saturate_to_i32(min as i128 + scale(span, along, rect.size.x as i64) as i128)
    }
}

/// What a slider works on while an event passes over it.
pub struct SliderPass {
    pub value: i32,
    pub active_id: Option<SessionId>,
    pub control: ControlStateView,
    pub event: EventView,
}

/// The strip in which the slider takes the pointer: as wide as the track, as high as the
/// pin.
pub open spec fn slider_grip(rect: Rect) -> Rect {
    Rect { position: rect.position, size: Vec2i { x: rect.size.x, y: SLIDER_CONTROL_PIN_HEIGHT } }
}

/// The event with the slider drawn into it: the track before the pin, the track behind
/// the pin, and the pin, each clipped to the mask.
pub open spec fn slider_drawn(
    event: EventView,
    rect: Rect,
    mask: Rect,
    value: i32,
    min: i32,
    max: i32,
    state: State,
) -> EventView {
    let reach = pin_offset(rect, value, min, max);
    let track = Rect {
        position: rect.position,
        size: Vec2i { x: rect.size.x, y: SLIDER_CONTROL_BG_HEIGHT },
    };
    let filled = Rect::from_edges(rect.left(), rect.left() + reach, rect.bottom(), rect.top());
    let unfilled = Rect::from_edges(rect.left() + reach, rect.right(), rect.bottom(), rect.top());
    let pin = Rect {
        position: Vec2i { x: saturate(rect.left() + reach) as i32, y: rect.position.y },
        size: Vec2i { x: SLIDER_CONTROL_PIN_WIDTH, y: SLIDER_CONTROL_PIN_HEIGHT },
    };
    let with_fill = match filled.intersection(mask) {
        Some(clip) => event.draw(
            DrawRequest { rect: track, kind: DrawKind::SliderFill, mask: Some(clip) },
        ),
        None => event,
    };
    let with_track = match mask.intersection(unfilled) {
        Some(clip) => with_fill.draw(
            DrawRequest { rect: track, kind: DrawKind::SliderTrack { state }, mask: Some(clip) },
        ),
        None => with_fill,
    };
    with_track.draw(DrawRequest { rect: pin, kind: DrawKind::SliderPin { state }, mask: Some(mask) })
}

/// What a slider does with an event. `value` is the present value, `session` the
/// identifier under which a drag of the pin begins if one does.
///
/// - The slider takes one identity, whatever the event.
/// - Left button down: a drag begins if the slider is the hovered control and no session
///   is active, and the pin jumps to the cursor if the cursor is known. Left button up:
///   the drag, if any, ends.
/// - Pointer motion: while its session is the active one, the pin follows the cursor.
/// - Update: a slider that is dragged votes to hold its session; else it hit-tests the
///   part of its grip that lies in the mask.
/// - Render: the slider is drawn.
/// The value is within its bounds afterwards.
pub open spec fn slider_step(
    pass: SliderPass,
    rect: Rect,
    mask: Rect,
    min: i32,
    max: i32,
    session: SessionId,
) -> SliderPass {
    let control_id = pass.control.upcoming_id();
    let control = pass.control.get_id();
    let value = clamped_value(pass.value as int, min as int, max as int) as i32;
    match pass.event {
        EventView::MouseButton(input) => {
            if input.left_pressed() {
                if control.may_set_active(control_id) {
                    SliderPass {
                        value: match control.last_cursor_position {
                            Some(cursor) => value_at(rect, min, max, cursor.x as int) as i32,
                            None => value,
                        },
                        active_id: Some(session),
                        control: control.set_active(control_id, session),
                        ..pass
                    }
                } else {
                    SliderPass { value, active_id: None, control, ..pass }
                }
            } else if input.left_released() {
                SliderPass { value, active_id: None, control, ..pass }
            } else {
                SliderPass { value, control, ..pass }
            }
        },
        EventView::MouseMove { raw, corrected } => SliderPass {
            value: if pass.active_id is Some && control.active == pass.active_id->0 {
                value_at(rect, min, max, corrected.x as int) as i32
            } else {
                value
            },
            control,
            ..pass
        },
        EventView::Update => SliderPass {
            value,
            control: match pass.active_id {
                Some(active) => control.hold_active_state(active),
                None => match slider_grip(rect).intersection(mask) {
                    Some(grip) => control.update_hot_with_rect(control_id, grip),
                    None => control,
                },
            },
            ..pass
        },
        EventView::Render { .. } => SliderPass {
            value,
            control,
            event: slider_drawn(
                pass.event,
                rect,
                mask,
                pass.value,
                min,
                max,
                control.control_state(current_control_id(control_id, pass.active_id)),
            ),
            ..pass
        },
        _ => SliderPass { value, control, ..pass },
    }
}

/// A slider handles the event. Returns the value of the slider after the event.
pub fn slider(
    rect: Rect,
    mask: Rect,
    value: i32,
    min: i32,
    max: i32,
    active_id: &mut Option<SessionId>,
    event: &mut UIEvent,
    control_state: &mut ControlState,
    session: SessionId,
) -> (new_value: i32)
    requires
        old(control_state).in_frame(),
    ensures
        ({
            let next = slider_step(
                SliderPass {
                    value,
                    active_id: *old(active_id),
                    control: old(control_state)@,
                    event: old(event)@,
                },
                rect,
                mask,
                min,
                max,
                session,
            );
            &&& new_value == next.value
            &&& *final(active_id) == next.active_id
            &&& final(control_state)@ == next.control
            &&& final(event)@ == next.event
        }),
{
    let mut new_value: i32 = clamp_value(value, min, max);
    let control_id = control_state.get_id();
    match event {
        UIEvent::MouseButton(mouse_input) => {
            if mouse_input.is_left_pressed() {
                *active_id = control_state.set_active_session(control_id, session);
                if active_id.is_some() {
                    if let Some(cursor) = control_state.cursor_position() {
                        new_value = compute_new_value(rect, min, max, cursor.x);
                    }
                }
            } else if mouse_input.is_left_released() {
                *active_id = None;
            }
        },
        UIEvent::MouseMove { corrected, .. } => {
            if let Some(active) = active_id {
                let state = control_state.get_control_state(ControlId::Active(*active));
                if let State::Active = state {
                    new_value = compute_new_value(rect, min, max, corrected.x);
                }
            }
        },
        UIEvent::Update => {
            let control_rect = Rect {
                position: rect.position,
                size: Vec2i { x: rect.size.x, y: SLIDER_CONTROL_PIN_HEIGHT },
            };
            let control_rect = control_rect.combine_rects(&mask);
            match active_id {
                Some(active) => {
                    control_state.hold_active_state(*active);
                },
                None => {
                    if let Some(control_rect) = control_rect {
                        control_state.update_hot_with_rect(control_id, &control_rect);
                    }
                },
            }
        },
        UIEvent::Render { gui_rects, .. } => {
            let state = control_state.get_control_state(
                get_current_control_id(control_id, active_id),
            );
            let reach: i64 = if max <= min || rect.size.x <= 0 {
                0
            } else {
                scale(
                    rect.size.x as i64,
                    clamp_value(value, min, max) as i64 - min as i64,
                    max as i64 - min as i64,
                )
            };
            let track = Rect {
                position: rect.position,
                size: Vec2i { x: rect.size.x, y: SLIDER_CONTROL_BG_HEIGHT },
            };
            let filled = Rect::with_edges(
                rect.left_edge(),
                rect.left_edge() + reach,
                rect.bottom_edge(),
                rect.top_edge(),
            );
            let unfilled = Rect::with_edges(
                rect.left_edge() + reach,
                rect.right_edge(),
                rect.bottom_edge(),
                rect.top_edge(),
            );
            let pin = Rect {
                position: Vec2i {
                    x: saturate_to_i32(rect.left_edge() as i128 + reach as i128),
                    y: rect.position.y,
                },
                size: Vec2i { x: SLIDER_CONTROL_PIN_WIDTH, y: SLIDER_CONTROL_PIN_HEIGHT },
            };
            if let Some(clip) = filled.combine_rects(&mask) {
                gui_rects.push(
                    DrawRequest { rect: track, kind: DrawKind::SliderFill, mask: Some(clip) },
                );
            }
            if let Some(clip) = mask.combine_rects(&unfilled) {
                gui_rects.push(
                    DrawRequest {
                        rect: track,
                        kind: DrawKind::SliderTrack { state },
                        mask: Some(clip),
                    },
                );
            }
            gui_rects.push(
                DrawRequest { rect: pin, kind: DrawKind::SliderPin { state }, mask: Some(mask) },
            );
        },
        _ => {},
    }
    new_value
}

} // verus!
