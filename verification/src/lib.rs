//! Window and panel layout core of an immediate-mode style GUI.
//!
//! The crate decides geometry, control identity and draw ordering; it never rasterizes.
//! All coordinates are whole pixels held in `i32`, all split weights are whole units held
//! in `u32`, so that every rule of the layout can be stated and proved exactly.

pub mod anymap;
pub mod control;
pub mod event;
pub mod geometry;
pub mod gui_container;
pub mod public_data;
pub mod render;
pub mod runtime_data;
pub mod slotmap;
pub mod window_layout;

use vstd::prelude::*;
use crate::geometry::Rect;
use crate::geometry::Vec2i;
use crate::geometry::saturate;
use crate::geometry::saturate_to_i32;
use crate::event::UIEvent;
use crate::gui_container::GUIContainer;
use crate::public_data::PublicData;
use crate::render::GUIRects;
use crate::slotmap::Slotmap;
use crate::window_layout::WindowSystem;

verus! {

/// What a container is handed during one traversal: its rectangle and the depth range of
/// the window that it belongs to. Never stored.
#[derive(Clone, Copy, Debug, PartialEq, Eq)]
pub struct ContainerInfo {
    pub rect: Rect,
    pub depth_range: (u32, u32),
}

impl ContainerInfo {
    /// The depth range holds a whole slice, so that every depth offset of an overlay
    /// stays inside it.
    pub open spec fn depth_range_fits(&self) -> bool {
        self.depth_range.0 + crate::window_layout::DEPTH_SLICE_SIZE - 1 <= self.depth_range.1
    }

    /// The upper left corner of the rectangle, saturating.
    pub open spec fn top_left(&self) -> Vec2i {
        Vec2i { x: saturate(self.rect.left()) as i32, y: saturate(self.rect.top()) as i32 }
    }

    pub fn top_left_position(&self) -> (corner: Vec2i)
        ensures
            corner == self.top_left(),
    {
        Vec2i {
            x: saturate_to_i32(self.rect.left_edge() as i128),
            y: saturate_to_i32(self.rect.top_edge() as i128),
        }
    }
}

/// The GUI of an application: the window system and the size of the surface. This
/// version works with windowed panes only; there is no docking.
pub struct GUISystem {
    pub window_layouting: WindowSystem,
    pub container_collection: Slotmap<Box<dyn GUIContainer>>,
    pub screen_size: Vec2i,
}

impl GUISystem {
    /// A GUI without windows on a surface of the given size. The host builds its windows
    /// through `window_layouting`.
    pub fn new(screen_size: Vec2i) -> (system: GUISystem)
        ensures
            system.window_layouting.wf(),
            system.window_layouting.order().len() == 0,
            system.container_collection.wf(),
            system.screen_size == screen_size,
    {
        GUISystem {
            window_layouting: WindowSystem::new(),
            container_collection: Slotmap::<Box<dyn GUIContainer>>::with_capacity(30),
            screen_size,
        }
    }

    /// One event is handled, as [`WindowSystem::event_handled`] says. A resize of the
    /// surface is noted before the windows see it.
    pub fn handle_event(&mut self, event: &mut UIEvent, public_data: &mut PublicData)
        requires
            old(self).window_layouting.wf(),
        ensures
            final(self).window_layouting.wf(),
            final(self).window_layouting.kept(&old(self).window_layouting),
            final(self).screen_size == (match old(event)@ {
                crate::event::EventView::Resize(new_size) => new_size,
                _ => old(self).screen_size,
            }),
            exists|session: crate::control::SessionId|
                {
                    &&& old(event).left_pressed() ==> !session.is_nil()
                    &&& #[trigger] final(self).window_layouting.event_handled(
                        &old(self).window_layouting,
                        old(event)@,
                        final(event)@,
                        old(public_data),
                        final(public_data),
                        session,
                    )
                },
    {
        match event {
            UIEvent::Resize(new_size) => {
                self.resize(*new_size);
            },
            _ => {},
        }
        self.window_layouting.handle_event(event, public_data)
    }

    /// The logic-only tick of a frame: the windows handle an update, as
    /// [`WindowSystem::event_handled`] says.
    pub fn update(&mut self, public_data: &mut PublicData)
        requires
            old(self).window_layouting.wf(),
        ensures
            final(self).window_layouting.wf(),
            final(self).window_layouting.kept(&old(self).window_layouting),
            final(self).screen_size == old(self).screen_size,
            exists|session: crate::control::SessionId, event_after: crate::event::EventView|
                #[trigger] final(self).window_layouting.event_handled(
                    &old(self).window_layouting,
                    crate::event::EventView::Update,
                    event_after,
                    old(public_data),
                    final(public_data),
                    session,
                ),
    {
        let mut event = UIEvent::Update;
        self.window_layouting.handle_event(&mut event, public_data)
    }

    /// Notes the size of the surface.
    pub fn resize(&mut self, new_size: Vec2i)
        ensures
            final(self).screen_size == new_size,
            final(self).window_layouting == old(self).window_layouting,
            final(self).container_collection == old(self).container_collection,
    {
        self.screen_size = new_size;
    }

    /// The frame is drawn into `gui_rects`, which is emptied first: a GUI without windows
    /// leaves it empty, and the title bar of the first window is the first that is drawn.
    /// Every window has its turn, in the window order, and what a window has deferred is
    /// drawn before the next window begins. The frame is opened and closed as for any
    /// event, so nothing is hovered while a session is active.
    pub fn render(&mut self, gui_rects: &mut GUIRects, public_data: &mut PublicData)
        requires
            old(self).window_layouting.wf(),
        ensures
            final(self).window_layouting.wf(),
            final(self).window_layouting.kept(&old(self).window_layouting),
            final(self).screen_size == old(self).screen_size,
            final(self).container_collection == old(self).container_collection,
            final(public_data).host_kept(old(public_data)),
            old(public_data).mutations@.is_prefix_of(final(public_data).mutations@),
            !final(self).window_layouting.control().active.is_nil()
                ==> final(self).window_layouting.control().hovered is None,
            old(self).window_layouting.order().len() == 0 ==> {
                &&& final(gui_rects)@ == Seq::<crate::render::DrawRequest>::empty()
                &&& final(self).window_layouting.control() == old(self).window_layouting.control().on_gui_start().on_gui_end()
                &&& final(public_data).mutations@ == old(public_data).mutations@
            },
            old(self).window_layouting.first_window_live() ==> {
                &&& final(gui_rects)@.len() > 0
                &&& final(gui_rects)@[0] == crate::window_layout::window::top_bar_request(
                    old(self).window_layouting.windows().value_of(
                        old(self).window_layouting.order()[0].0,
                    ),
                    old(self).window_layouting.control().on_gui_start(),
                )
            },
            final(self).window_layouting.frame_drawn(
                &old(self).window_layouting,
                Seq::<crate::render::DrawRequest>::empty(),
                final(gui_rects)@,
                old(public_data),
                final(public_data),
            ),
    {
        gui_rects.clear_buffers();
        let ghost emptied = gui_rects@;
        self.window_layouting.render_event(public_data, gui_rects);
        proof {
            if old(self).window_layouting.first_window_live() {
                let first = emptied.push(
                    crate::window_layout::window::top_bar_request(
                        old(self).window_layouting.windows().value_of(
                            old(self).window_layouting.order()[0].0,
                        ),
                        old(self).window_layouting.control().on_gui_start(),
                    ),
                );
                assert(first.is_prefix_of(gui_rects@));
                assert(first.len() == 1);
                assert(first[0] == gui_rects@[0]);
            }
        }
    }
}

} // verus!
