//! The events that the host hands to the GUI.

use vstd::prelude::*;
use crate::geometry::Vec2i;
use crate::render::DrawRequest;
use crate::render::ExtraRenderSteps;
use crate::render::GUIRects;
use crate::render::RenderStep;

verus! {

#[derive(Clone, Copy, Debug, PartialEq, Eq, Structural)]
pub enum MouseButton {
    Left,
    Right,
    Middle,
    Other(u16),
}

#[derive(Clone, Copy, Debug, PartialEq, Eq, Structural)]
pub enum ElementState {
    Pressed,
    Released,
}

/// An edge of a pointer button.
#[derive(Clone, Copy, Debug, PartialEq, Eq, Structural)]
pub struct MouseInput {
    pub button: MouseButton,
    pub state: ElementState,
}

impl MouseInput {
    pub open spec fn left_pressed(&self) -> bool {
        self.button == MouseButton::Left && self.state == ElementState::Pressed
    }

    pub open spec fn left_released(&self) -> bool {
        self.button == MouseButton::Left && self.state == ElementState::Released
    }

    #[verifier::when_used_as_spec(left_pressed)]
    pub fn is_left_pressed(&self) -> (pressed: bool)
        ensures
            pressed == self.left_pressed(),
    {
        self.button == MouseButton::Left && self.state == ElementState::Pressed
    }

    #[verifier::when_used_as_spec(left_released)]
    pub fn is_left_released(&self) -> (released: bool)
        ensures
            released == self.left_released(),
    {
        self.button == MouseButton::Left && self.state == ElementState::Released
    }
}

/// One event of the user interface. A `Render` event carries the sink that the frame is
/// drawn into and the queue of deferred render steps.
pub enum UIEvent {
    /// Logic-only tick, no drawing.
    Update,
    /// Draw this frame.
    Render { gui_rects: GUIRects, extra_render_steps: ExtraRenderSteps },
    /// Pointer motion: the raw position and the position in surface coordinates.
    MouseMove { raw: Vec2i, corrected: Vec2i },
    /// Pointer button edge.
    MouseButton(MouseInput),
    /// Scroll delta of the wheel.
    MouseWheel { delta: Vec2i },
    /// Keyboard edge.
    KeyboardInput { key: u32, state: ElementState },
    /// The surface was resized to the given size.
    Resize(Vec2i),
    /// The pointer left the surface.
    CursorExit,
}

/// Mathematical value of a [`UIEvent`]: a `Render` event is known by the requests that
/// its sink holds and by the steps that are queued.
pub enum EventView {
    Update,
    Render { rects: Seq<DrawRequest>, steps: Seq<RenderStep> },
    MouseMove { raw: Vec2i, corrected: Vec2i },
    MouseButton(MouseInput),
    MouseWheel { delta: Vec2i },
    KeyboardInput { key: u32, state: ElementState },
    Resize(Vec2i),
    CursorExit,
}

impl View for UIEvent {
    type V = EventView;

    open spec fn view(&self) -> EventView {
        match *self {
            UIEvent::Update => EventView::Update,
            UIEvent::Render { gui_rects, extra_render_steps } => EventView::Render {
                rects: gui_rects@,
                steps: extra_render_steps@,
            },
            UIEvent::MouseMove { raw, corrected } => EventView::MouseMove { raw, corrected },
            UIEvent::MouseButton(input) => EventView::MouseButton(input),
            UIEvent::MouseWheel { delta } => EventView::MouseWheel { delta },
            UIEvent::KeyboardInput { key, state } => EventView::KeyboardInput { key, state },
            UIEvent::Resize(size) => EventView::Resize(size),
            UIEvent::CursorExit => EventView::CursorExit,
        }
    }
}

impl EventView {
    /// The event with `request` appended to the sink, if it is a render event.
    pub open spec fn draw(self, request: DrawRequest) -> EventView {
        match self {
            EventView::Render { rects, steps } => EventView::Render {
                rects: rects.push(request),
                steps,
            },
            _ => self,
        }
    }

    /// The event with `request` queued at `depth`, if it is a render event.
    pub open spec fn defer(self, request: DrawRequest, depth: u32) -> EventView {
        match self {
            EventView::Render { rects, steps } => EventView::Render {
                rects,
                steps: steps.insert(
                    crate::render::queue_position(steps, depth) as int,
                    RenderStep { request, depth },
                ),
            },
            _ => self,
        }
    }

    /// The event when the steps that are queued in it have been executed: their requests
    /// stand behind what the sink held, in the order of the queue, and the queue is empty.
    pub open spec fn executed(self) -> EventView {
        match self {
            EventView::Render { rects, steps } => EventView::Render {
                rects: rects + crate::render::requests_of(steps),
                steps: Seq::empty(),
            },
            _ => self,
        }
    }

    /// The event is what `before` has become in the hands of a handler: it is of the same
    /// kind and carries the same input, and the sink of a render event has only grown.
    pub open spec fn same_input(self, before: EventView) -> bool {
        match self {
            EventView::Render { rects, .. } => before is Render && before->Render_rects.is_prefix_of(
                rects,
            ),
            _ => before == self,
        }
    }
}

impl UIEvent {
    /// The event is the press of the left pointer button.
    pub open spec fn left_pressed(&self) -> bool {
        self matches UIEvent::MouseButton(input) && input.left_pressed()
    }

    /// Appends `request` to the sink of a render event; does nothing to another event.
    pub fn draw(&mut self, request: DrawRequest)
        ensures
            final(self)@ == old(self)@.draw(request),
    {
        match self {
            UIEvent::Render { gui_rects, .. } => {
                gui_rects.push(request);
            },
            _ => {},
        }
    }

    /// Queues `request` at `depth` in a render event; does nothing to another event.
    pub fn defer(&mut self, request: DrawRequest, depth: u32)
        ensures
            final(self)@ == old(self)@.defer(request, depth),
    {
        match self {
            UIEvent::Render { extra_render_steps, .. } => {
                extra_render_steps.push(request, depth);
            },
            _ => {},
        }
    }

    #[verifier::when_used_as_spec(left_pressed)]
    pub fn is_left_pressed(&self) -> (pressed: bool)
        ensures
            pressed == self.left_pressed(),
    {
        match self {
            UIEvent::MouseButton(input) => input.is_left_pressed(),
            _ => false,
        }
    }
}

} // verus!
