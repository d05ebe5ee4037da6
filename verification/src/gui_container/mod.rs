//! The contract of a leaf content container: a widget that fills the content area of a
//! tab.

use vstd::prelude::*;
use crate::control::frame_kept;
use crate::control::ControlState;
use crate::event::UIEvent;
use crate::public_data::PublicData;
use crate::render::DrawKind;
use crate::render::DrawRequest;
use crate::render::GUIRects;
use crate::ContainerInfo;

pub mod performance_monitor;

verus! {

/// A value whose type is known only when the program runs: what `as_any` of a container
/// hands out. It holds a `&dyn Any` of std, which is not looked into.
#[verifier::external_body]
pub struct AnyRef<'a> {
    value: &'a dyn core::any::Any,
}

/// The value as one whose type is known only when the program runs. Wraps the
/// conversion of a reference into `&dyn Any`, of which nothing is stated.
#[verifier::external_body]
fn any_ref<'a, T: 'static>(value: &'a T) -> (any: AnyRef<'a>) {
    AnyRef { value }
}

/// The value as a value of the type `T`, if it is one. Wraps `downcast_ref` of
/// `dyn Any`, of which nothing is stated.
#[verifier::external_body]
fn any_downcast_ref<'a, T: 'static>(any: &AnyRef<'a>) -> (found: Option<&'a T>) {
    any.value.downcast_ref::<T>()
}

impl<'a> AnyRef<'a> {
    /// `value`, to be asked for its type when the program runs.
    pub fn of<T: 'static>(value: &'a T) -> (any: AnyRef<'a>) {
        any_ref(value)
    }

    /// The value as a value of the type `T`; `None` if it is of another type.
    pub fn downcast_ref<T: 'static>(&self) -> (found: Option<&'a T>) {
        any_downcast_ref::<T>(self)
    }
}


/// A leaf content container. It takes its identities from the control state, draws into
/// the sink of a render event, and asks the host for changes through the command queue.
pub trait GUIContainer {
    /// The name of the container, which labels its tab.
    fn get_name(&self) -> &str;

    /// The container itself, to be asked for its type when the program runs: a container
    /// hands out `AnyRef::of(self)`.
    fn as_any(&self) -> AnyRef<'_>;

    /// The container handles the event in the rectangle that it was resolved to.
    fn handle_event(
        &mut self,
        event: &mut UIEvent,
        public_data: &mut PublicData,
        container_info: ContainerInfo,
        control_state: &mut ControlState,
    )
        requires
            old(control_state).in_frame(),
            container_info.depth_range_fits(),
        ensures
            frame_kept(old(control_state)@, final(control_state)@),
            final(control_state)@.last_cursor_position == old(control_state)@.last_cursor_position,
            final(event)@.same_input(old(event)@),
            final(public_data).host_kept(old(public_data)),
            old(public_data).mutations@.is_prefix_of(final(public_data).mutations@),
    ;
}

/// Draws the background of a container: its rectangle, clipped to itself.
pub fn render_container_background(gui_rects: &mut GUIRects, container_info: &ContainerInfo)
    ensures
        final(gui_rects)@ == old(gui_rects)@.push(
            DrawRequest {
                rect: container_info.rect,
                kind: DrawKind::ContainerBackground,
                mask: Some(container_info.rect),
            },
        ),
{
    gui_rects.push(
        DrawRequest {
            rect: container_info.rect,
            kind: DrawKind::ContainerBackground,
            mask: Some(container_info.rect),
        },
    );
}

/// A container that does nothing; the first of two that stand in for real widgets.
pub struct WOne {
    pub index: u32,
    pub ans: u32,
}

/// A container that does nothing; the second of two that stand in for real widgets.
pub struct WTwo {
    pub index: u32,
    pub ans: u32,
}

impl WOne {
    pub fn new() -> (container: WOne)
        ensures
            container.index == 0,
            container.ans == 202,
    {
        WOne { index: 0, ans: 202 }
    }
}

impl WTwo {
    pub fn new() -> (container: WTwo)
        ensures
            container.index == 2,
            container.ans == 859,
    {
        WTwo { index: 2, ans: 859 }
    }
}

impl GUIContainer for WOne {
    fn get_name(&self) -> (name: &str)
        ensures
            name@ == "WOne"@,
    {
        "WOne"
    }

    fn as_any(&self) -> AnyRef<'_> {
        AnyRef::of(self)
    }

    fn handle_event(
        &mut self,
        event: &mut UIEvent,
        public_data: &mut PublicData,
        container_info: ContainerInfo,
        control_state: &mut ControlState,
    )
        ensures
            *final(self) == *old(self),
            final(control_state)@ == old(control_state)@,
            final(event)@ == old(event)@,
            final(public_data).mutations@ == old(public_data).mutations@,
    {
    }
}

impl GUIContainer for WTwo {
    fn get_name(&self) -> (name: &str)
        ensures
            name@ == "WTwo"@,
    {
        "WTwo"
    }

    fn as_any(&self) -> AnyRef<'_> {
        AnyRef::of(self)
    }

    fn handle_event(
        &mut self,
        event: &mut UIEvent,
        public_data: &mut PublicData,
        container_info: ContainerInfo,
        control_state: &mut ControlState,
    )
        ensures
            *final(self) == *old(self),
            final(control_state)@ == old(control_state)@,
            final(event)@ == old(event)@,
            final(public_data).mutations@ == old(public_data).mutations@,
    {
    }
}

} // verus!
