//! The render sink: draw requests, and the queue of deferred render steps.
//!
//! The core never rasterizes. It says which rectangle is to be drawn as what, and in
//! which order; a request that must composite above content found later in the walk is
//! queued with a depth and flushed, in ascending depth order, once the walk is done.

use vstd::prelude::*;
use crate::control::State;
use crate::geometry::Rect;
use crate::window_layout::GUIContainerSlotkey;

verus! {

/// What a rectangle is drawn as. The host decides colours, gradients and glyphs.
#[derive(Clone, Copy, Debug, PartialEq, Eq, Structural)]
pub enum DrawKind {
    /// Highlight of a divider under the cursor.
    DividerHovered,
    /// Highlight of a divider that is being dragged.
    DividerActive,
    /// Background of a tab strip.
    TabStrip,
    /// Button of the tab with the given index.
    TabButton { index: usize, active: bool, hovered: bool },
    /// Label of a tab: the name of the leaf container behind it.
    TabLabel { container: GUIContainerSlotkey },
    /// Soft shadow under the tab strip, left or right of the active tab.
    TabShadow,
    /// Title bar of a window.
    TopBar { state: State },
    /// Resize handle at a corner of a window.
    ResizeHandle { state: State },
    /// Background of a leaf container.
    ContainerBackground,
    /// A push button.
    Button { hovered: bool },
    /// The part of the track of a slider that lies before the pin.
    SliderFill,
    /// The part of the track of a slider that lies behind the pin.
    SliderTrack { state: State },
    /// The pin of a slider.
    SliderPin { state: State },
    /// A drawing of a leaf container that only the host knows how to make; the host
    /// finds it by its tag.
    Custom { tag: u64 },
}

/// One rectangle to draw, and the rectangle that clips it, if any.
#[derive(Clone, Copy, Debug, PartialEq, Eq, Structural)]
pub struct DrawRequest {
    pub rect: Rect,
    pub kind: DrawKind,
    pub mask: Option<Rect>,
}

/// The append-only list of draw requests of a frame.
pub struct GUIRects {
    pub rect_collection: Vec<DrawRequest>,
}

impl View for GUIRects {
    type V = Seq<DrawRequest>;

    open spec fn view(&self) -> Seq<DrawRequest> {
        self.rect_collection@
    }
}

impl GUIRects {
    pub fn new() -> (sink: GUIRects)
        ensures
            sink@ == Seq::<DrawRequest>::empty(),
    {
        GUIRects { rect_collection: Vec::new() }
    }

    pub fn push(&mut self, request: DrawRequest)
        ensures
            final(self)@ == old(self)@.push(request),
    {
        self.rect_collection.push(request);
    }

    pub fn clear_buffers(&mut self)
        ensures
            final(self)@ == Seq::<DrawRequest>::empty(),
    {
        self.rect_collection.clear();
    }
}

/// A deferred draw request and the depth that orders it.
#[derive(Clone, Copy, Debug, PartialEq, Eq, Structural)]
pub struct RenderStep {
    pub request: DrawRequest,
    pub depth: u32,
}

/// The steps are in ascending order of depth.
pub open spec fn sorted_by_depth(steps: Seq<RenderStep>) -> bool {
    forall|i: int, j: int| 0 <= i <= j < steps.len() ==> steps[i].depth <= steps[j].depth
}

/// Number of leading steps that a step of depth `depth` is queued behind: the length of
/// the longest prefix whose depths do not exceed `depth`.
pub open spec fn queue_position(steps: Seq<RenderStep>, depth: u32) -> nat
    decreases steps.len(),
{
    if steps.len() == 0 || steps[0].depth > depth {
        0
    } else {
        1 + queue_position(steps.drop_first(), depth)
    }
}

/// The draw requests of the steps, in their order.
pub open spec fn requests_of(steps: Seq<RenderStep>) -> Seq<DrawRequest> {
    Seq::new(steps.len(), |i: int| steps[i].request)
}

/// In a sorted queue the position of a depth splits the queue into the steps that are not
/// deeper and those that are.
pub proof fn lemma_queue_position(steps: Seq<RenderStep>, depth: u32)
    requires
        sorted_by_depth(steps),
    ensures
        queue_position(steps, depth) <= steps.len(),
        forall|i: int| 0 <= i < queue_position(steps, depth) ==> steps[i].depth <= depth,
        forall|i: int| queue_position(steps, depth) <= i < steps.len() ==> steps[i].depth > depth,
    decreases steps.len(),
{
    if steps.len() == 0 || steps[0].depth > depth {
    } else {
        let rest = steps.drop_first();
        assert forall|i: int, j: int| 0 <= i <= j < rest.len() implies rest[i].depth
            <= rest[j].depth by {
            assert(rest[i] == steps[i + 1]);
            assert(rest[j] == steps[j + 1]);
        }
        lemma_queue_position(rest, depth);
        let k = queue_position(rest, depth);
        assert forall|i: int| 0 <= i < k + 1 implies steps[i].depth <= depth by {
            if i > 0 {
                assert(steps[i] == rest[i - 1]);
            }
        }
        assert forall|i: int| k + 1 <= i < steps.len() implies steps[i].depth > depth by {
            assert(steps[i] == rest[i - 1]);
        }
    }
}

/// The queue of deferred render steps, kept in ascending order of depth. Steps of equal
/// depth keep the order in which they were queued.
pub struct ExtraRenderSteps {
    steps: Vec<RenderStep>,
}

impl View for ExtraRenderSteps {
    type V = Seq<RenderStep>;

    closed spec fn view(&self) -> Seq<RenderStep> {
        self.steps@
    }
}

impl ExtraRenderSteps {
    #[verifier::type_invariant]
    spec fn ordered(&self) -> bool {
        sorted_by_depth(self.steps@)
    }

    pub fn new(capacity: usize) -> (queue: ExtraRenderSteps)
        ensures
            queue@ == Seq::<RenderStep>::empty(),
    {
        ExtraRenderSteps { steps: Vec::with_capacity(capacity) }
    }

    pub fn len(&self) -> (n: usize)
        ensures
            n == self@.len(),
    {
        self.steps.len()
    }

    /// Queues `request` behind every step that is not deeper than `depth`.
    pub fn push(&mut self, request: DrawRequest, depth: u32)
        ensures
            final(self)@ == old(self)@.insert(
                queue_position(old(self)@, depth) as int,
                RenderStep { request, depth },
            ),
            sorted_by_depth(old(self)@),
            sorted_by_depth(final(self)@),
    {
        proof {
            use_type_invariant(&*self);
            lemma_queue_position(self.steps@, depth);
        }
        let ghost before = self.steps@;
        let step = RenderStep { request, depth };
        let mut merged: Vec<RenderStep> = Vec::with_capacity(self.steps.len());
        let mut placed: bool = false;
        let mut i: usize = 0;
        while i < self.steps.len()
            invariant
                self.steps@ == before,
                sorted_by_depth(before),
                i <= before.len(),
                queue_position(before, depth) <= before.len(),
                forall|k: int| 0 <= k < queue_position(before, depth) ==> before[k].depth <= depth,
                forall|k: int|
                    queue_position(before, depth) <= k < before.len() ==> before[k].depth > depth,
                placed <==> i > queue_position(before, depth),
                !placed ==> merged@ == before.subrange(0, i as int),
                placed ==> merged@ == before.subrange(0, i as int).insert(
                    queue_position(before, depth) as int,
                    step,
                ),
            decreases before.len() - i,
        {
            let current = self.steps[i];
            if !placed && current.depth > depth {
                assert(i as int == queue_position(before, depth)) by {
                    if i < queue_position(before, depth) {
                        assert(before[i as int].depth <= depth);
                    }
                }
                merged.push(step);
                placed = true;
            } else if !placed {
                assert(i < queue_position(before, depth)) by {
                    if queue_position(before, depth) <= i {
                        assert(before[i as int].depth > depth);
                    }
                }
            }
            merged.push(current);
            i += 1;
            assert(merged@ =~= if placed {
                before.subrange(0, i as int).insert(queue_position(before, depth) as int, step)
            } else {
                before.subrange(0, i as int)
            });
        }
        assert(before.subrange(0, i as int) =~= before);
        if !placed {
            merged.push(step);
            assert(merged@ =~= before.insert(queue_position(before, depth) as int, step));
        }
        assert(sorted_by_depth(merged@)) by {
            let at = queue_position(before, depth) as int;
            let after = merged@;
            assert forall|i: int, j: int| 0 <= i <= j < after.len() implies after[i].depth
                <= after[j].depth by {
                if i < at {
                    assert(after[i] == before[i]);
                } else if i > at {
                    assert(after[i] == before[i - 1]);
                }
                if j < at {
                    assert(after[j] == before[j]);
                } else if j > at {
                    assert(after[j] == before[j - 1]);
                }
            }
        }
        self.steps = merged;
    }

    /// Hands every queued request to the sink, in ascending order of depth, and empties
    /// the queue.
    pub fn execute_render_steps(&mut self, gui_rects: &mut GUIRects)
        ensures
            final(self)@ == Seq::<RenderStep>::empty(),
            final(gui_rects)@ == old(gui_rects)@ + requests_of(old(self)@),
            sorted_by_depth(old(self)@),
    {
        proof {
            use_type_invariant(&*self);
        }
        let ghost sink_before = gui_rects@;
        let ghost queued = self.steps@;
        let mut i: usize = 0;
        while i < self.steps.len()
            invariant
                self.steps@ == queued,
                i <= queued.len(),
                gui_rects@ == sink_before + requests_of(queued.subrange(0, i as int)),
            decreases queued.len() - i,
        {
            let step = self.steps[i];
            gui_rects.push(step.request);
            assert(requests_of(queued.subrange(0, i + 1)) =~= requests_of(
                queued.subrange(0, i as int),
            ).push(step.request));
            i += 1;
        }
        assert(queued.subrange(0, i as int) =~= queued);
        self.steps = Vec::new();
    }
}

} // verus!
