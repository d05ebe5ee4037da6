//! Bookkeeping of a drag: where the pointer and the dragged element started.

use vstd::prelude::*;
use crate::geometry::Vec2i;

verus! {

/// The drag of an element by the pointer. All positions are taken in one coordinate
/// system.
#[derive(Clone, Copy, Debug, PartialEq, Eq, Structural)]
pub struct DragElement {
    pub start_mouse_position: Vec2i,
    pub start_element_position: Vec2i,
    pub current_mouse_position: Vec2i,
    pub is_draggin: bool,
}

impl DragElement {
    /// Where the element is now: where it started, moved by as much as the pointer has
    /// moved since.
    pub open spec fn element_position(&self) -> Vec2i {
        self.start_element_position.plus(
            self.current_mouse_position.minus(self.start_mouse_position),
        )
    }

    pub fn new() -> (drag: DragElement)
        ensures
            drag == (DragElement {
                start_mouse_position: Vec2i { x: 0, y: 0 },
                start_element_position: Vec2i { x: 0, y: 0 },
                current_mouse_position: Vec2i { x: 0, y: 0 },
                is_draggin: false,
            }),
    {
        DragElement {
            start_mouse_position: Vec2i { x: 0, y: 0 },
            start_element_position: Vec2i { x: 0, y: 0 },
            current_mouse_position: Vec2i { x: 0, y: 0 },
            is_draggin: false,
        }
    }

    /// The drag begins with the element at `element_position`.
    pub fn start_dragging(&mut self, element_position: Vec2i)
        ensures
            *final(self) == (DragElement {
                start_element_position: element_position,
                is_draggin: true,
                ..*old(self)
            }),
    {
        self.start_element_position = element_position;
        self.is_draggin = true;
    }

    /// The drag ends.
    pub fn stop_dragging(&mut self)
        ensures
            *final(self) == (DragElement {
                start_mouse_position: old(self).current_mouse_position,
                is_draggin: false,
                ..*old(self)
            }),
    {
        self.start_mouse_position = self.current_mouse_position;
        self.is_draggin = false;
    }

    /// The pointer is at `current_position`. While nothing is dragged, this is also where
    /// the next drag starts from.
    pub fn update_position(&mut self, current_position: Vec2i)
        ensures
            *final(self) == (DragElement {
                start_mouse_position: if old(self).is_draggin {
                    old(self).start_mouse_position
                } else {
                    current_position
                },
                current_mouse_position: current_position,
                ..*old(self)
            }),
    {
        if !self.is_draggin {
            self.start_mouse_position = current_position;
        }
        self.current_mouse_position = current_position;
    }

    pub fn compute_element_position(&self) -> (position: Vec2i)
        ensures
            position == self.element_position(),
    {
        let delta_mouse_pos = self.current_mouse_position.sub(self.start_mouse_position);
        self.start_element_position.add(delta_mouse_pos)
    }
}

} // verus!
