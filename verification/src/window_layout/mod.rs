//! Windows, split layouts and tab containers, and the orchestrator that walks them.

use vstd::prelude::*;
use crate::control::ControlState;
use crate::control::ControlStateView;
use crate::control::SessionId;
use crate::event::EventView;
use crate::event::UIEvent;
use crate::geometry::Vec2i;
use crate::control::frame_kept;
use crate::gui_container::GUIContainer;
use crate::public_data::PublicData;
use crate::public_data::WindowCommand;
use crate::render::ExtraRenderSteps;
use crate::render::GUIRects;
use crate::render::RenderStep;
use crate::slotmap::SlotKey;
use crate::slotmap::Slotmap;
use crate::window_layout::layout::DividedElement;
use crate::window_layout::layout::LayoutElement;
use crate::window_layout::layout::LayoutView;
use crate::window_layout::tabs_container::TabsContainer;
use crate::window_layout::tabs_container::TabsView;
use crate::window_layout::traversal::layout_walk;
use crate::window_layout::traversal::layout_walk_step;
use crate::window_layout::traversal::layouts_kept;
use crate::window_layout::traversal::layouts_shape;
use crate::window_layout::traversal::layouts_view;
use crate::window_layout::traversal::child_fits;
use crate::window_layout::traversal::layout_fits;
use crate::window_layout::traversal::lemma_system_wf_by_values;
use crate::window_layout::traversal::lemma_system_wf_kept;
use crate::window_layout::traversal::tabs_fit;
use crate::window_layout::traversal::system_wf;
use crate::window_layout::traversal::windows_kept;
use crate::window_layout::traversal::lemma_walk_kept_transitive;
use crate::window_layout::traversal::lemma_walk_step;
use crate::window_layout::traversal::lemma_walk_step_known;
use crate::window_layout::traversal::is_child;
use crate::window_layout::traversal::entry_leaves;
use crate::window_layout::traversal::found_keys;
use crate::window_layout::traversal::lemma_walk_step_leaves;
use crate::window_layout::traversal::stack_leaves;
use crate::window_layout::traversal::walk_known;
use crate::window_layout::traversal::stack_weight;
use crate::window_layout::traversal::tabs_kept;
use crate::window_layout::traversal::tabs_view;
use crate::window_layout::traversal::tabs_walk;
use crate::window_layout::traversal::tabs_wf;
use crate::window_layout::traversal::walk_kept;
use crate::window_layout::traversal::walk_wf;
use crate::window_layout::traversal::LayoutWalk;
use crate::window_layout::traversal::TabsWalk;
use crate::window_layout::window::UIWindow;
use crate::ContainerInfo;

pub mod depth_offset;
pub mod layout;
pub mod tabs_container;
pub mod traversal;
pub mod window;

verus! {

/// Key of a leaf content container.
#[derive(Clone, Copy, Debug, PartialEq, Eq, Structural)]
pub struct GUIContainerSlotkey(pub SlotKey);

/// Key of a tab container.
#[derive(Clone, Copy, Debug, PartialEq, Eq, Structural)]
pub struct TabsSlotKey(pub SlotKey);

/// Key of a split layout node.
#[derive(Clone, Copy, Debug, PartialEq, Eq, Structural)]
pub struct LayoutSlotKey(pub SlotKey);

/// Key of a window.
#[derive(Clone, Copy, Debug, PartialEq, Eq, Structural)]
pub struct WindowSlotKey(pub SlotKey);

/// A child of a split: a tab container or another split.
#[derive(Clone, Copy, Debug, PartialEq, Eq, Structural)]
pub enum LayoutOrTabKey {
    TabKey(TabsSlotKey),
    LayoutKey(LayoutSlotKey),
}

impl From<TabsSlotKey> for LayoutOrTabKey {
    fn from(key: TabsSlotKey) -> (r: LayoutOrTabKey)
    {
        LayoutOrTabKey::TabKey(key)
    }
}

impl vstd::std_specs::convert::FromSpecImpl<TabsSlotKey> for LayoutOrTabKey {
    open spec fn obeys_from_spec() -> bool {
        true
    }

    open spec fn from_spec(key: TabsSlotKey) -> LayoutOrTabKey {
        LayoutOrTabKey::TabKey(key)
    }
}

impl From<LayoutSlotKey> for LayoutOrTabKey {
    fn from(key: LayoutSlotKey) -> (r: LayoutOrTabKey)
    {
        LayoutOrTabKey::LayoutKey(key)
    }
}

impl vstd::std_specs::convert::FromSpecImpl<LayoutSlotKey> for LayoutOrTabKey {
    open spec fn obeys_from_spec() -> bool {
        true
    }

    open spec fn from_spec(key: LayoutSlotKey) -> LayoutOrTabKey {
        LayoutOrTabKey::LayoutKey(key)
    }
}

/// A tab container that the walk has reached, and where it lies.
#[derive(Clone, Copy, Debug, PartialEq, Eq)]
pub struct TabLayoutInfo {
    pub key: TabsSlotKey,
    pub container_info: ContainerInfo,
}

/// A child of a split that the walk has reached, and where it lies.
#[derive(Clone, Copy, Debug, PartialEq, Eq)]
pub struct LayoutOrTabInfo {
    pub key: LayoutOrTabKey,
    pub container_info: ContainerInfo,
}

/// A leaf container that the walk has reached, and where it lies.
#[derive(Clone, Copy, Debug, PartialEq, Eq)]
pub struct GUIContainerInfo {
    pub key: GUIContainerSlotkey,
    pub container_info: ContainerInfo,
}

/// Number of depth values that each window owns.
pub const DEPTH_SLICE_SIZE: u32 = 15;

/// Greatest number of windows: each needs a depth slice of its own.
pub const MAX_WINDOWS: usize = 286_331_153;

/// The depth range of the window at place `index` of the window order.
pub open spec fn window_depth_range(index: int) -> (int, int) {
    (index * DEPTH_SLICE_SIZE, (index + 1) * DEPTH_SLICE_SIZE - 1)
}

/// The depth ranges of two windows have no depth in common, and the window that comes
/// first in the window order has the lower depths. Each range holds `DEPTH_SLICE_SIZE`
/// depths.
pub proof fn lemma_depth_ranges_disjoint(first: int, second: int)
    requires
        0 <= first < second,
    ensures
        window_depth_range(first).0 <= window_depth_range(first).1,
        window_depth_range(first).1 < window_depth_range(second).0,
        window_depth_range(first).1 - window_depth_range(first).0 == DEPTH_SLICE_SIZE - 1,
{
}

/// Every overlay of a window is queued at a depth of the range of the window: the depth
/// offsets are smaller than a slice.
pub proof fn lemma_overlays_within_range(container_info: ContainerInfo)
    requires
        container_info.depth_range_fits(),
    ensures
        container_info.depth_range.0 + depth_offset::DIVIDER <= container_info.depth_range.1,
        container_info.depth_range.0 + depth_offset::TAB_SHADOW <= container_info.depth_range.1,
        container_info.depth_range.0 + depth_offset::SELECT_COUNT <= container_info.depth_range.1,
        container_info.depth_range.0 + depth_offset::FONT_ANIM_OFFSET
            <= container_info.depth_range.1,
        container_info.depth_range.0 + depth_offset::RESIZE_CONTROL
            <= container_info.depth_range.1,
{
}

/// Executable form of [`window_depth_range`].
pub fn depth_range_of(index: usize) -> (range: (u32, u32))
    requires
        index < MAX_WINDOWS,
    ensures
        range.0 == window_depth_range(index as int).0,
        range.1 == window_depth_range(index as int).1,
        range.0 + DEPTH_SLICE_SIZE - 1 == range.1,
{
    let low: u64 = index as u64 * DEPTH_SLICE_SIZE as u64;
    let high: u64 = low + DEPTH_SLICE_SIZE as u64 - 1;
    (low as u32, high as u32)
}

/// The layout and interaction core: the arenas of leaf containers, tab containers,
/// splits and windows, the order of the windows, and the control state.
pub struct WindowSystem {
    gui_container_slotmap: Slotmap<Box<dyn GUIContainer>>,
    tabs_slotmap: Slotmap<TabsContainer>,
    layout_slotmap: Slotmap<LayoutElement>,
    window_collection: Slotmap<UIWindow>,
    window_order: Vec<WindowSlotKey>,
    pub control_state: ControlState,
}

/// The control state when a frame has been opened for an event: the identities start
/// again, and a pointer motion is noted.
pub open spec fn frame_opened(control: ControlStateView, event: EventView) -> ControlStateView {
    match event {
        EventView::MouseMove { raw, corrected } => ControlStateView {
            last_cursor_position: Some(corrected),
            ..control.on_gui_start()
        },
        _ => control.on_gui_start(),
    }
}

/// The control state when the frame of an event has been closed: the hot control is
/// committed as the hovered one; when the pointer has left the surface, the state is
/// reset; after an update, a session that nobody holds is released.
pub open spec fn frame_closed(control: ControlStateView, event: EventView) -> ControlStateView {
    match event {
        EventView::CursorExit => control.on_gui_end().on_cursor_exit(),
        EventView::Update => control.on_gui_end().on_after_update(),
        _ => control.on_gui_end(),
    }
}

/// The turn of one window while an event passes over the windows. `window` is the window
/// when its turn begins, `layouts`, `tabs`, `control`, `event` and `mutations` are the
/// splits, the tab containers, the control state, the event and the command queue then.
/// `visits` is the number of visits that the walk over the splits of the window makes.
/// `walked` is the event when the window, its splits, its tab containers and its leaf
/// containers have handled it; `layouts_after`, `tabs_after`, `control_after` and
/// `mutations_after` are what there is then. The turn ends when the steps that `walked`
/// holds have been executed.
pub struct WindowTurn {
    pub window: UIWindow,
    pub layouts: Map<SlotKey, LayoutView>,
    pub tabs: Map<SlotKey, TabsView>,
    pub control: ControlStateView,
    pub event: EventView,
    pub mutations: Seq<WindowCommand>,
    pub visits: nat,
    pub walked: EventView,
    pub layouts_after: Map<SlotKey, LayoutView>,
    pub tabs_after: Map<SlotKey, TabsView>,
    pub control_after: ControlStateView,
    pub mutations_after: Seq<WindowCommand>,
}

/// The splits that the turns leave of `layouts`: those of the last turn.
pub open spec fn layouts_left(turns: Seq<WindowTurn>, layouts: Map<SlotKey, LayoutView>) -> Map<
    SlotKey,
    LayoutView,
> {
    if turns.len() == 0 {
        layouts
    } else {
        turns.last().layouts_after
    }
}

/// The tab containers that the turns leave of `tabs`: those of the last turn.
pub open spec fn tabs_left(turns: Seq<WindowTurn>, tabs: Map<SlotKey, TabsView>) -> Map<
    SlotKey,
    TabsView,
> {
    if turns.len() == 0 {
        tabs
    } else {
        turns.last().tabs_after
    }
}

/// The control state that the turns leave of `control`: that of the last turn.
pub open spec fn control_left(turns: Seq<WindowTurn>, control: ControlStateView) -> ControlStateView {
    if turns.len() == 0 {
        control
    } else {
        turns.last().control_after
    }
}

/// The event that the turns leave of `event`: that of the last turn, its steps executed.
pub open spec fn event_left(turns: Seq<WindowTurn>, event: EventView) -> EventView {
    if turns.len() == 0 {
        event
    } else {
        turns.last().walked.executed()
    }
}

/// The command queue that the turns leave of `mutations`: that of the last turn.
pub open spec fn mutations_left(turns: Seq<WindowTurn>, mutations: Seq<WindowCommand>) -> Seq<
    WindowCommand,
> {
    if turns.len() == 0 {
        mutations
    } else {
        turns.last().mutations_after
    }
}

/// The walk before its first visit: only the root is on the stack, and no tab container
/// has been found.
pub open spec fn initial_walk(
    layouts: Map<SlotKey, LayoutView>,
    control: ControlStateView,
    event: EventView,
    root: LayoutOrTabInfo,
) -> LayoutWalk {
    LayoutWalk { layouts, control, event, stack: seq![root], tabs: Seq::empty() }
}

impl WindowSystem {
    /// The arena of the leaf containers.
    pub closed spec fn containers(&self) -> Slotmap<Box<dyn GUIContainer>> {
        self.gui_container_slotmap
    }

    /// The arena of the tab containers.
    pub closed spec fn tabs(&self) -> Slotmap<TabsContainer> {
        self.tabs_slotmap
    }

    /// The arena of the splits.
    pub closed spec fn layouts(&self) -> Slotmap<LayoutElement> {
        self.layout_slotmap
    }

    /// The arena of the windows.
    pub closed spec fn windows(&self) -> Slotmap<UIWindow> {
        self.window_collection
    }

    /// The windows in the order in which they handle events and are drawn.
    pub closed spec fn order(&self) -> Seq<WindowSlotKey> {
        self.window_order@
    }

    /// The control state.
    pub closed spec fn control(&self) -> ControlStateView {
        self.control_state@
    }

    /// The arenas fit together, and no depth scope is open.
    pub open spec fn wf(&self) -> bool {
        &&& system_wf(
            &self.containers(),
            &self.tabs(),
            &self.layouts(),
            &self.windows(),
            self.order(),
        )
        &&& self.control().depth_stack.len() == 0
    }

    /// A window system without windows.
    pub fn new() -> (system: WindowSystem)
        ensures
            system.wf(),
            system.order().len() == 0,
            system.containers().slots().len() == 0,
            system.tabs().slots().len() == 0,
            system.layouts().slots().len() == 0,
            system.windows().slots().len() == 0,
            system.control() == ControlStateView::initial(),
    {
        WindowSystem {
            gui_container_slotmap: Slotmap::<Box<dyn GUIContainer>>::with_capacity(20),
            tabs_slotmap: Slotmap::<TabsContainer>::with_capacity(10),
            layout_slotmap: Slotmap::<LayoutElement>::with_capacity(20),
            window_collection: Slotmap::<UIWindow>::with_capacity(5),
            window_order: Vec::<WindowSlotKey>::with_capacity(5),
            control_state: ControlState::new(),
        }
    }

    /// Says whether child `i` of the split under `key` fits into the arenas.
    fn child_is_fit(&self, key: SlotKey, i: usize) -> (ok: bool)
        requires
            self.layouts().contains_key(key),
            i < self.layouts().value_of(key).children().len(),
        ensures
            ok == child_fits(&self.layouts(), &self.tabs(), key, i as int),
    {
        let node = self.layout_slotmap.get_value(&key).unwrap();
        match node.get_children()[i].layout_or_tab_key {
            LayoutOrTabKey::LayoutKey(child) => {
                match self.layout_slotmap.get_value(&child.0) {
                    Some(found) => {
                        let differs: bool = match (found.get_orientation(), node.get_orientation()) {
                            (layout::Orientation::Horizontal, layout::Orientation::Horizontal) => false,
                            (layout::Orientation::Vertical, layout::Orientation::Vertical) => false,
                            _ => true,
                        };
                        child.0.index < key.index && differs
                    },
                    None => false,
                }
            },
            LayoutOrTabKey::TabKey(child) => self.tabs_slotmap.contains(&child.0),
        }
    }

    /// Says whether the split under `key` fits into the arenas.
    fn layout_is_fit(&self, key: SlotKey) -> (ok: bool)
        requires
            self.layouts().contains_key(key),
        ensures
            ok == layout_fits(&self.layouts(), &self.tabs(), key),
    {
        let node = self.layout_slotmap.get_value(&key).unwrap();
        let children = node.get_children();
        if children.len() < 2 {
            return false;
        }
        match node.get_active_divider() {
            Some(divider) => {
                if divider.index >= children.len() - 1 {
                    return false;
                }
                let dragged: u64 = divider.drag_divider.div_data[0].div_size as u64
                    + divider.drag_divider.div_data[1].div_size as u64;
                let held: u64 = children[divider.index].size as u64 + children[divider.index
                    + 1].size as u64;
                if dragged != held {
                    return false;
                }
            },
            None => {},
        }
        let mut i: usize = 0;
        while i < children.len()
            invariant
                i <= children.len(),
                self.layouts().contains_key(key),
                children@ == self.layouts().value_of(key).children(),
                forall|k: int| 0 <= k < i ==> child_fits(&self.layouts(), &self.tabs(), key, k),
            decreases children.len() - i,
        {
            if !self.child_is_fit(key, i) {
                return false;
            }
            i += 1;
        }
        true
    }

    /// Says whether the tab container under `key` fits into the arenas.
    fn tabs_are_fit(&self, key: SlotKey) -> (ok: bool)
        requires
            self.tabs().contains_key(key),
        ensures
            ok == tabs_fit(&self.tabs(), &self.containers(), key),
    {
        let container = self.tabs_slotmap.get_value(&key).unwrap();
        let count: usize = container.tab_count();
        if count == 0 || container.active_tab() >= count {
            return false;
        }
        let mut i: usize = 0;
        while i < count
            invariant
                i <= count,
                count == container@.tabs.len(),
                self.tabs().contains_key(key),
                *container == self.tabs().value_of(key),
                forall|k: int|
                    0 <= k < i ==> self.containers().contains_key((#[trigger] container@.tabs[k]).0),
            decreases count - i,
        {
            let leaf = container.tab_key(i);
            if !self.gui_container_slotmap.contains(&leaf.0) {
                assert(container@.tabs[i as int] == leaf);
                return false;
            }
            i += 1;
        }
        true
    }

    /// Says whether the arenas fit together and no depth scope is open: whether the
    /// system can handle events.
    pub fn is_well_formed(&self) -> (ok: bool)
        ensures
            ok == self.wf(),
    {
        if !(self.gui_container_slotmap.is_well_formed() && self.tabs_slotmap.is_well_formed()
            && self.layout_slotmap.is_well_formed() && self.window_collection.is_well_formed()) {
            return false;
        }
        proof {
            lemma_system_wf_by_values(
                &self.containers(),
                &self.tabs(),
                &self.layouts(),
                &self.windows(),
                self.order(),
            );
        }
        if self.layout_slotmap.vacant_count() != 0 || self.window_order.len() > MAX_WINDOWS
            || self.control_state.depth_stack_len() != 0 {
            return false;
        }
        let mut i: usize = 0;
        while i < self.layout_slotmap.slot_count()
            invariant
                i <= self.layouts().slots().len(),
                self.containers().wf() && self.tabs().wf() && self.layouts().wf()
                    && self.windows().wf(),
                forall|key: SlotKey|
                    key.index < i && #[trigger] self.layouts().contains_key(key) ==> layout_fits(
                        &self.layouts(),
                        &self.tabs(),
                        key,
                    ),
            decreases self.layouts().slots().len() - i,
        {
            if let Some(key) = self.layout_slotmap.key_at(i) {
                if !self.layout_is_fit(key) {
                    assert(self.layouts().contains_key(key));
                    proof {
                        lemma_system_wf_by_values(
                            &self.containers(),
                            &self.tabs(),
                            &self.layouts(),
                            &self.windows(),
                            self.order(),
                        );
                    }
                    return false;
                }
            }
            i += 1;
        }
        let mut i: usize = 0;
        while i < self.tabs_slotmap.slot_count()
            invariant
                i <= self.tabs().slots().len(),
                self.containers().wf() && self.tabs().wf() && self.layouts().wf()
                    && self.windows().wf(),
                forall|key: SlotKey| #[trigger]
                    self.layouts().contains_key(key) ==> layout_fits(
                        &self.layouts(),
                        &self.tabs(),
                        key,
                    ),
                forall|key: SlotKey|
                    key.index < i && #[trigger] self.tabs().contains_key(key) ==> tabs_fit(
                        &self.tabs(),
                        &self.containers(),
                        key,
                    ),
            decreases self.tabs().slots().len() - i,
        {
            if let Some(key) = self.tabs_slotmap.key_at(i) {
                if !self.tabs_are_fit(key) {
                    assert(self.tabs().contains_key(key));
                    proof {
                        lemma_system_wf_by_values(
                            &self.containers(),
                            &self.tabs(),
                            &self.layouts(),
                            &self.windows(),
                            self.order(),
                        );
                    }
                    return false;
                }
            }
            i += 1;
        }
        let mut i: usize = 0;
        while i < self.window_collection.slot_count()
            invariant
                i <= self.windows().slots().len(),
                self.containers().wf() && self.tabs().wf() && self.layouts().wf()
                    && self.windows().wf(),
                self.layouts().vacant().len() == 0,
                self.order().len() <= MAX_WINDOWS,
                self.control().depth_stack.len() == 0,
                forall|key: SlotKey| #[trigger]
                    self.layouts().contains_key(key) ==> layout_fits(
                        &self.layouts(),
                        &self.tabs(),
                        key,
                    ),
                forall|key: SlotKey| #[trigger]
                    self.tabs().contains_key(key) ==> tabs_fit(
                        &self.tabs(),
                        &self.containers(),
                        key,
                    ),
                forall|key: SlotKey|
                    key.index < i && #[trigger] self.windows().contains_key(key)
                        ==> self.layouts().contains_key(
                        self.windows().value_of(key).layout_key.0,
                    ),
            decreases self.windows().slots().len() - i,
        {
            if let Some(key) = self.window_collection.key_at(i) {
                let window = self.window_collection.get_value(&key).unwrap();
                if !self.layout_slotmap.contains(&window.layout_key.0) {
                    assert(self.windows().contains_key(key));
                    proof {
                        lemma_system_wf_by_values(
                            &self.containers(),
                            &self.tabs(),
                            &self.layouts(),
                            &self.windows(),
                            self.order(),
                        );
                    }
                    return false;
                }
            }
            i += 1;
        }
        proof {
            lemma_system_wf_by_values(
                &self.containers(),
                &self.tabs(),
                &self.layouts(),
                &self.windows(),
                self.order(),
            );
        }
        true
    }

    /// The split under `key`, if there is one.
    pub fn get_layout(&self, key: &LayoutSlotKey) -> (layout: Option<&LayoutElement>)
        ensures
            layout is Some <==> self.layouts().contains_key(key.0),
            layout matches Some(found) ==> *found == self.layouts().value_of(key.0),
    {
        self.layout_slotmap.get_value(&key.0)
    }

    /// The tab container under `key`, if there is one.
    pub fn get_tabs(&self, key: &TabsSlotKey) -> (tabs: Option<&TabsContainer>)
        ensures
            tabs is Some <==> self.tabs().contains_key(key.0),
            tabs matches Some(found) ==> *found == self.tabs().value_of(key.0),
    {
        self.tabs_slotmap.get_value(&key.0)
    }

    /// The window under `key`, if there is one.
    pub fn get_window(&self, key: &WindowSlotKey) -> (window: Option<&UIWindow>)
        ensures
            window is Some <==> self.windows().contains_key(key.0),
            window matches Some(found) ==> *found == self.windows().value_of(key.0),
    {
        self.window_collection.get_value(&key.0)
    }

    /// Number of windows in the window order.
    pub fn window_count(&self) -> (count: usize)
        ensures
            count == self.order().len(),
    {
        self.window_order.len()
    }

    /// Stores a tab container over the given leaf containers. `None`, and nothing stored,
    /// if there is no leaf container. The arenas still fit together if every leaf
    /// container is in its arena.
    pub fn create_tab(&mut self, gui_container: Vec<GUIContainerSlotkey>) -> (created: Option<
        TabsSlotKey,
    >)
        requires
            old(self).wf(),
        ensures
            created is Some <==> gui_container.len() > 0,
            final(self).containers() == old(self).containers(),
            final(self).layouts() == old(self).layouts(),
            final(self).windows() == old(self).windows(),
            final(self).order() == old(self).order(),
            final(self).control() == old(self).control(),
            created is None ==> final(self).tabs() == old(self).tabs(),
            created matches Some(key) ==> {
                &&& !old(self).tabs().contains_key(key.0)
                &&& final(self).tabs().stores(
                    &old(self).tabs(),
                    key.0,
                    final(self).tabs().value_of(key.0),
                )
                &&& final(self).tabs().value_of(key.0)@ == (TabsView {
                    tabs: gui_container@,
                    active: 0,
                })
            },
            (forall|i: int|
                0 <= i < gui_container.len() ==> old(self).containers().contains_key(
                    (#[trigger] gui_container[i]).0,
                )) ==> final(self).wf(),
    {
        let ghost keys = gui_container@;
        match TabsContainer::new(gui_container) {
            Some(t_container) => {
                let ghost stored = t_container@;
                match self.tabs_slotmap.push(t_container) {
                    Some(t_container_key) => {
                        proof {
                            let before = tabs_view(&old(self).tabs());
                            let after = tabs_view(&self.tabs());
                            assert(after =~= before.insert(t_container_key, stored));
                        }
                        Some(TabsSlotKey(t_container_key))
                    },
                    None => None,
                }
            },
            None => None,
        }
    }

    /// Stores a window with the given layout, size and position, and puts it last in the
    /// window order. The arenas still fit together if the layout is in its arena.
    pub fn create_window(&mut self, layout_key: LayoutSlotKey, size: Vec2i, position: Vec2i) -> (window_key:
        WindowSlotKey)
        requires
            old(self).wf(),
            old(self).order().len() < MAX_WINDOWS,
        ensures
            final(self).containers() == old(self).containers(),
            final(self).tabs() == old(self).tabs(),
            final(self).layouts() == old(self).layouts(),
            final(self).control() == old(self).control(),
            final(self).order() == old(self).order().push(window_key),
            !old(self).windows().contains_key(window_key.0),
            final(self).windows().stores(
                &old(self).windows(),
                window_key.0,
                final(self).windows().value_of(window_key.0),
            ),
            final(self).windows().value_of(window_key.0) == UIWindow::fresh(
                layout_key,
                size,
                position,
            ),
            old(self).layouts().contains_key(layout_key.0) ==> final(self).wf(),
    {
        let window_layout = UIWindow::new_with_contianer(layout_key, size, position);
        let window_key = WindowSlotKey(self.window_collection.push(window_layout).unwrap());
        self.window_order.push(window_key);
        window_key
    }

    /// Stores a vertical split with the given children; `None`, and nothing stored, if
    /// there are less than two children or if one of them is a vertical split. The arenas
    /// still fit together if every child that is a tab container is in its arena.
    pub fn push_vertical(&mut self, children: Vec<DividedElement>) -> (created: Option<
        LayoutSlotKey,
    >)
        requires
            old(self).wf(),
            LayoutElement::children_live(children@, &old(self).layouts()),
        ensures
            created is Some <==> LayoutElement::children_valid(
                children@,
                layout::Orientation::Vertical,
                &old(self).layouts(),
            ),
            final(self).containers() == old(self).containers(),
            final(self).tabs() == old(self).tabs(),
            final(self).windows() == old(self).windows(),
            final(self).order() == old(self).order(),
            final(self).control() == old(self).control(),
            created is None ==> layouts_view(&final(self).layouts()) == layouts_view(
                &old(self).layouts(),
            ),
            created matches Some(key) ==> {
                &&& !old(self).layouts().contains_key(key.0)
                &&& layouts_view(&final(self).layouts()) == layouts_view(
                    &old(self).layouts(),
                ).insert(
                    key.0,
                    LayoutView {
                        children: children@,
                        active_divider: None,
                        orientation: layout::Orientation::Vertical,
                    },
                )
            },
            (forall|i: int|
                0 <= i < children.len() ==> ((
                #[trigger] children[i]).layout_or_tab_key matches LayoutOrTabKey::TabKey(key)
                    ==> old(self).tabs().contains_key(key.0))) ==> final(self).wf(),
    {
        let ghost keys = children@;
        assert(children@.len() == children.len());
        let created = LayoutElement::create_vertical(children, &mut self.layout_slotmap);
        proof {
            self.lemma_pushed(old(self), keys, layout::Orientation::Vertical, created);
        }
        created
    }

    /// Stores a horizontal split with the given children; `None`, and nothing stored, if
    /// there are less than two children or if one of them is a horizontal split. The
    /// arenas still fit together if every child that is a tab container is in its arena.
    pub fn push_horizontal(&mut self, children: Vec<DividedElement>) -> (created: Option<
        LayoutSlotKey,
    >)
        requires
            old(self).wf(),
            LayoutElement::children_live(children@, &old(self).layouts()),
        ensures
            created is Some <==> LayoutElement::children_valid(
                children@,
                layout::Orientation::Horizontal,
                &old(self).layouts(),
            ),
            final(self).containers() == old(self).containers(),
            final(self).tabs() == old(self).tabs(),
            final(self).windows() == old(self).windows(),
            final(self).order() == old(self).order(),
            final(self).control() == old(self).control(),
            created is None ==> layouts_view(&final(self).layouts()) == layouts_view(
                &old(self).layouts(),
            ),
            created matches Some(key) ==> {
                &&& !old(self).layouts().contains_key(key.0)
                &&& layouts_view(&final(self).layouts()) == layouts_view(
                    &old(self).layouts(),
                ).insert(
                    key.0,
                    LayoutView {
                        children: children@,
                        active_divider: None,
                        orientation: layout::Orientation::Horizontal,
                    },
                )
            },
            (forall|i: int|
                0 <= i < children.len() ==> ((
                #[trigger] children[i]).layout_or_tab_key matches LayoutOrTabKey::TabKey(key)
                    ==> old(self).tabs().contains_key(key.0))) ==> final(self).wf(),
    {
        let ghost keys = children@;
        assert(children@.len() == children.len());
        let created = LayoutElement::create_horizontal(children, &mut self.layout_slotmap);
        proof {
            self.lemma_pushed(old(self), keys, layout::Orientation::Horizontal, created);
        }
        created
    }

    /// What storing a split does to the arenas.
    proof fn lemma_pushed(
        &self,
        before: &WindowSystem,
        children: Seq<DividedElement>,
        orientation: layout::Orientation,
        created: Option<LayoutSlotKey>,
    )
        requires
            before.wf(),
            children.len() <= usize::MAX,
            LayoutElement::children_live(children, &before.layouts()),
            self.containers() == before.containers(),
            self.tabs() == before.tabs(),
            self.windows() == before.windows(),
            self.order() == before.order(),
            self.control() == before.control(),
            self.layouts().wf(),
            created is Some <==> LayoutElement::children_valid(
                children,
                orientation,
                &before.layouts(),
            ),
            created is None ==> self.layouts().slots() == before.layouts().slots()
                && self.layouts().vacant() == before.layouts().vacant(),
            created matches Some(key) ==> {
                let stored = self.layouts().value_of(key.0);
                &&& !before.layouts().contains_key(key.0)
                &&& self.layouts().stores(&before.layouts(), key.0, stored)
                &&& stored.children() == children
                &&& stored.active_divider() is None
                &&& stored.orientation() == orientation
                &&& stored.wf()
                &&& key.0.index == before.layouts().slots().len()
                &&& self.layouts().slots().len() == before.layouts().slots().len() + 1
                &&& self.layouts().vacant().len() == 0
            },
        ensures
            created is None ==> layouts_view(&self.layouts()) == layouts_view(&before.layouts()),
            created matches Some(key) ==> layouts_view(&self.layouts()) == layouts_view(
                &before.layouts(),
            ).insert(key.0, LayoutView { children, active_divider: None, orientation }),
            (forall|i: int|
                0 <= i < children.len() ==> ((
                #[trigger] children[i]).layout_or_tab_key matches LayoutOrTabKey::TabKey(key)
                    ==> before.tabs().contains_key(key.0))) ==> self.wf(),
    {
        let old_view = layouts_view(&before.layouts());
        let new_view = layouts_view(&self.layouts());
        match created {
            None => {
                assert(new_view =~= old_view);
            },
            Some(key) => {
                let node = LayoutView { children, active_divider: None, orientation };
                assert(self.layouts().value_of(key.0)@ == node);
                assert(new_view =~= old_view.insert(key.0, node));
                if forall|i: int|
                    0 <= i < children.len() ==> ((
                    #[trigger] children[i]).layout_or_tab_key matches LayoutOrTabKey::TabKey(k)
                        ==> before.tabs().contains_key(k.0)) {
                    let shape = layouts_shape(new_view);
                    let old_shape = layouts_shape(old_view);
                    assert forall|k: SlotKey| #[trigger] new_view.contains_key(k) implies new_view[k].wf()
                        && new_view[k].children.len() <= usize::MAX by {
                        if k != key.0 {
                            assert(old_view.contains_key(k));
                        }
                    }
                    assert forall|k: SlotKey, i: int|
                        shape.contains_key(k) && 0 <= i < shape[k].len() implies ((
                    #[trigger] shape[k][i]) matches LayoutOrTabKey::LayoutKey(child)
                        ==> shape.contains_key(child.0) && child.0.index < k.index) by {
                        if k == key.0 {
                            assert(shape[k][i] == children[i].layout_or_tab_key);
                        } else {
                            assert(old_shape.contains_key(k));
                            assert(old_shape[k][i] == shape[k][i]);
                        }
                    }
                    assert forall|k: SlotKey, i: int|
                        new_view.contains_key(k) && 0 <= i < new_view[k].children.len() implies ((
                    #[trigger] new_view[k].children[i]).layout_or_tab_key matches LayoutOrTabKey::LayoutKey(
                        child,
                    ) ==> new_view.contains_key(child.0) ==> new_view[child.0].orientation
                        != new_view[k].orientation) by {
                        if k == key.0 {
                            match children[i].layout_or_tab_key {
                                LayoutOrTabKey::LayoutKey(child) => {
                                    assert(before.layouts().contains_key(child.0));
                                },
                                _ => {},
                            }
                        } else {
                            assert(old_view.contains_key(k));
                            match old_view[k].children[i].layout_or_tab_key {
                                LayoutOrTabKey::LayoutKey(child) => {
                                    assert(old_shape.contains_key(k));
                                    assert(old_shape[k][i] == LayoutOrTabKey::LayoutKey(child));
                                    assert(old_view.contains_key(child.0));
                                },
                                _ => {},
                            }
                        }
                    }
                    let tabs = tabs_view(&self.tabs());
                    assert forall|k: SlotKey, i: int|
                        shape.contains_key(k) && 0 <= i < shape[k].len() implies ((
                    #[trigger] shape[k][i]) matches LayoutOrTabKey::TabKey(child)
                        ==> tabs.contains_key(child.0)) by {
                        if k == key.0 {
                            assert(shape[k][i] == children[i].layout_or_tab_key);
                        } else {
                            assert(old_shape.contains_key(k));
                            assert(old_shape[k][i] == shape[k][i]);
                        }
                    }
                    assert forall|k: SlotKey| #[trigger] self.windows().contains_key(k) implies new_view.contains_key(
                        self.windows().value_of(k).layout_key.0,
                    ) by {
                        assert(old_view.contains_key(before.windows().value_of(k).layout_key.0));
                    }
                }
            },
        }
    }

    /// Stores a leaf container and returns its key.
    pub fn push_gui_container(&mut self, container: Box<dyn GUIContainer>) -> (created: Option<
        GUIContainerSlotkey,
    >)
        requires
            old(self).wf(),
        ensures
            final(self).wf(),
            created is Some,
            created matches Some(key) ==> {
                &&& !old(self).containers().contains_key(key.0)
                &&& final(self).containers().stores(&old(self).containers(), key.0, container)
            },
            final(self).tabs() == old(self).tabs(),
            final(self).layouts() == old(self).layouts(),
            final(self).windows() == old(self).windows(),
            final(self).order() == old(self).order(),
            final(self).control() == old(self).control(),
    {
        let key = self.gui_container_slotmap.push(container);
        match key {
            Some(key) => Some(GUIContainerSlotkey(key)),
            None => None,
        }
    }

    /// Goes through the splits from `root_layout` down and lets each handle the event in
    /// its rectangle. Returns the tab containers found, each with its rectangle: one
    /// entry for each tab container below the root, the last child of a split first.
    /// `session` is the identifier under which a drag begins if the event begins one.
    pub fn layouts_handle_event(
        control_state: &mut ControlState,
        layout_slotmap: &mut Slotmap<LayoutElement>,
        root_layout: LayoutOrTabInfo,
        event: &mut UIEvent,
        session: SessionId,
    ) -> (tab_handle_stack: Vec<TabLayoutInfo>)
        requires
            old(layout_slotmap).wf(),
            walk_wf(
                initial_walk(
                    layouts_view(old(layout_slotmap)),
                    old(control_state)@,
                    old(event)@,
                    root_layout,
                ),
            ),
        ensures
            final(layout_slotmap).wf(),
            final(layout_slotmap).slots().len() == old(layout_slotmap).slots().len(),
            final(layout_slotmap).vacant() == old(layout_slotmap).vacant(),
            exists|steps: nat|
                {
                    let end = #[trigger] layout_walk(
                        initial_walk(
                            layouts_view(old(layout_slotmap)),
                            old(control_state)@,
                            old(event)@,
                            root_layout,
                        ),
                        session,
                        steps,
                    );
                    &&& end.stack.len() == 0
                    &&& end.layouts == layouts_view(final(layout_slotmap))
                    &&& end.control == final(control_state)@
                    &&& end.event == final(event)@
                    &&& end.tabs == tab_handle_stack@
                    &&& walk_kept(
                        initial_walk(
                            layouts_view(old(layout_slotmap)),
                            old(control_state)@,
                            old(event)@,
                            root_layout,
                        ),
                        end,
                    )
                    &&& walk_known(end, root_layout.key)
                },
            forall|i: int|
                0 <= i < tab_handle_stack.len() ==> (
                #[trigger] tab_handle_stack[i]).container_info.depth_range
                    == root_layout.container_info.depth_range,
            found_keys(tab_handle_stack@) == entry_leaves(
                layouts_shape(layouts_view(old(layout_slotmap))),
                root_layout.key,
            ),
    {
        let mut tab_handle_stack: Vec<TabLayoutInfo> = Vec::new();
        let mut layout_handle_stack: Vec<LayoutOrTabInfo> = Vec::new();
        layout_handle_stack.push(root_layout);
        let ghost start = initial_walk(
            layouts_view(layout_slotmap),
            control_state@,
            event@,
            root_layout,
        );
        let ghost shape = layouts_shape(start.layouts);
        let ghost mut steps: nat = 0;
        assert(layout_handle_stack@ =~= start.stack);
        assert(layouts_kept(start.layouts, start.layouts));
        assert(found_keys(tab_handle_stack@) + stack_leaves(shape, layout_handle_stack@)
            =~= entry_leaves(shape, root_layout.key)) by {
            assert(stack_leaves(shape, start.stack.drop_last()) =~= Seq::empty());
        }
        loop
            invariant
                layout_slotmap.wf(),
                found_keys(tab_handle_stack@) + stack_leaves(shape, layout_handle_stack@)
                    == entry_leaves(shape, root_layout.key),
                layout_slotmap.slots().len() == old(layout_slotmap).slots().len(),
                layout_slotmap.vacant() == old(layout_slotmap).vacant(),
                walk_wf(start),
                shape == layouts_shape(start.layouts),
                layout_walk(start, session, steps) == (LayoutWalk {
                    layouts: layouts_view(layout_slotmap),
                    control: control_state@,
                    event: event@,
                    stack: layout_handle_stack@,
                    tabs: tab_handle_stack@,
                }),
                walk_kept(start, layout_walk(start, session, steps)),
                walk_known(layout_walk(start, session, steps), root_layout.key),
                forall|i: int|
                    0 <= i < tab_handle_stack.len() ==> (
                    #[trigger] tab_handle_stack[i]).container_info.depth_range
                        == root_layout.container_info.depth_range,
                forall|i: int|
                    0 <= i < layout_handle_stack.len() ==> (
                    #[trigger] layout_handle_stack[i]).container_info.depth_range
                        == root_layout.container_info.depth_range,
            ensures
                layout_handle_stack.len() == 0,
                found_keys(tab_handle_stack@) == entry_leaves(shape, root_layout.key),
            decreases stack_weight(shape, layout_handle_stack@),
        {
            let ghost now = layout_walk(start, session, steps);
            proof {
                if layout_handle_stack.len() > 0 {
                    lemma_walk_step(now, session);
                    lemma_walk_step_leaves(now, session);
                    lemma_walk_step_known(now, session, root_layout.key);
                    lemma_walk_kept_transitive(start, now, layout_walk_step(now, session));
                }
            }
            match layout_handle_stack.pop() {
                Some(layout_handle) => {
                    match layout_handle.key {
                        LayoutOrTabKey::TabKey(tab_key) => {
                            tab_handle_stack.push(
                                TabLayoutInfo {
                                    key: tab_key,
                                    container_info: layout_handle.container_info,
                                },
                            );
                        },
                        LayoutOrTabKey::LayoutKey(layout_key) => {
                            assert(now.stack[now.stack.len() - 1] == layout_handle);
                            assert(layout_slotmap.contains_key(layout_key.0));
                            let ghost arena = *layout_slotmap;
                            let node = layout_slotmap.get_value_mut(&layout_key.0).unwrap();
                            let ghost node_before = node@;
                            let mut children = node.handle_event_with_session(
                                event,
                                layout_handle.container_info,
                                control_state,
                                session,
                            );
                            assert(children@ =~= node_before.handles(layout_handle.container_info));
                            assert(layouts_view(layout_slotmap) =~= layouts_view(&arena).insert(
                                layout_key.0,
                                layout_slotmap.value_of(layout_key.0)@,
                            ));
                            layout_handle_stack.append(&mut children);
                        },
                    }
                    proof {
                        steps = steps + 1;
                    }
                },
                None => {
                    assert(found_keys(tab_handle_stack@) + stack_leaves(
                        shape,
                        layout_handle_stack@,
                    ) =~= found_keys(tab_handle_stack@));
                    break ;
                },
            }
        }
        tab_handle_stack
    }

    /// Lets each of the tab containers found handle the event in its rectangle, in the
    /// order in which they were found. Returns, for each, the leaf container that it
    /// resolves to, with the content area as its rectangle.
    pub fn tabs_handle_event(
        control_state: &mut ControlState,
        tabs_slotmap: &mut Slotmap<TabsContainer>,
        tab_handle_stack: Vec<TabLayoutInfo>,
        event: &mut UIEvent,
    ) -> (gui_handle_stack: Vec<GUIContainerInfo>)
        requires
            old(tabs_slotmap).wf(),
            tabs_wf(tabs_view(old(tabs_slotmap))),
            old(control_state).in_frame(),
            forall|i: int|
                0 <= i < tab_handle_stack.len() ==> {
                    &&& old(tabs_slotmap).contains_key((#[trigger] tab_handle_stack[i]).key.0)
                    &&& tab_handle_stack[i].container_info.depth_range_fits()
                },
        ensures
            ({
                let end = tabs_walk(
                    TabsWalk {
                        tabs: tabs_view(old(tabs_slotmap)),
                        control: old(control_state)@,
                        event: old(event)@,
                        resolved: Seq::empty(),
                    },
                    tab_handle_stack@,
                    tab_handle_stack.len() as int,
                );
                &&& end.tabs == tabs_view(final(tabs_slotmap))
                &&& end.control == final(control_state)@
                &&& end.event == final(event)@
                &&& end.resolved == gui_handle_stack@
            }),
            final(tabs_slotmap).wf(),
            final(tabs_slotmap).same_keys(old(tabs_slotmap)),
            tabs_wf(tabs_view(final(tabs_slotmap))),
            tabs_kept(tabs_view(old(tabs_slotmap)), tabs_view(final(tabs_slotmap))),
            frame_kept(old(control_state)@, final(control_state)@),
            final(control_state)@.last_cursor_position == old(
                control_state,
            )@.last_cursor_position,
            final(control_state)@.active == old(control_state)@.active,
            final(event)@.same_input(old(event)@),
            gui_handle_stack.len() == tab_handle_stack.len(),
            forall|i: int|
                0 <= i < gui_handle_stack.len() ==> {
                    &&& (#[trigger] gui_handle_stack[i]).container_info.depth_range
                        == tab_handle_stack[i].container_info.depth_range
                    &&& tabs_view(old(tabs_slotmap))[tab_handle_stack[i].key.0].tabs.contains(
                        gui_handle_stack[i].key,
                    )
                },
    {
        let ghost start = TabsWalk {
            tabs: tabs_view(tabs_slotmap),
            control: control_state@,
            event: event@,
            resolved: Seq::empty(),
        };
        let mut gui_handle_stack: Vec<GUIContainerInfo> = Vec::with_capacity(
            tab_handle_stack.len(),
        );
        let mut index: usize = 0;
        while index < tab_handle_stack.len()
            invariant
                index <= tab_handle_stack.len(),
                start.tabs == tabs_view(old(tabs_slotmap)),
                start.control == old(control_state)@,
                start.event == old(event)@,
                tabs_slotmap.wf(),
                tabs_slotmap.same_keys(old(tabs_slotmap)),
                tabs_wf(tabs_view(tabs_slotmap)),
                tabs_kept(start.tabs, tabs_view(tabs_slotmap)),
                frame_kept(start.control, control_state@),
                control_state@.last_cursor_position == start.control.last_cursor_position,
                control_state@.active == start.control.active,
                event@.same_input(start.event),
                forall|i: int|
                    0 <= i < tab_handle_stack.len() ==> {
                        &&& old(tabs_slotmap).contains_key((#[trigger] tab_handle_stack[i]).key.0)
                        &&& tab_handle_stack[i].container_info.depth_range_fits()
                    },
                tabs_walk(start, tab_handle_stack@, index as int) == (TabsWalk {
                    tabs: tabs_view(tabs_slotmap),
                    control: control_state@,
                    event: event@,
                    resolved: gui_handle_stack@,
                }),
                gui_handle_stack.len() == index,
                forall|i: int|
                    0 <= i < index ==> {
                        &&& (#[trigger] gui_handle_stack[i]).container_info.depth_range
                            == tab_handle_stack[i].container_info.depth_range
                        &&& start.tabs[tab_handle_stack[i].key.0].tabs.contains(
                            gui_handle_stack[i].key,
                        )
                    },
            decreases tab_handle_stack.len() - index,
        {
            let tab = tab_handle_stack[index];
            let ghost arena = *tabs_slotmap;
            assert(tabs_view(&arena).contains_key(tab.key.0));
            assert(start.tabs.contains_key(tab.key.0));
            let tab_container = tabs_slotmap.get_value_mut(&tab.key.0).unwrap();
            let ghost container_before = tab_container@;
            let gui_container_info = tab_container.handle_event(
                event,
                tab.container_info,
                control_state,
            );
            proof {
                let after = tabs_slotmap.value_of(tab.key.0)@;
                assert(tabs_view(tabs_slotmap) =~= tabs_view(&arena).insert(tab.key.0, after));
                assert(after.tabs == container_before.tabs);
                assert(tabs_view(tabs_slotmap).dom() =~= start.tabs.dom());
                assert forall|key: SlotKey| #[trigger] start.tabs.contains_key(key) implies tabs_view(
                    tabs_slotmap,
                )[key].tabs == start.tabs[key].tabs by {
                    assert(tabs_view(&arena).contains_key(key));
                }
                assert(container_before.tabs[container_before.active as int]
                    == gui_container_info.key);
                assert(start.tabs[tab.key.0].tabs == container_before.tabs);
            }
            gui_handle_stack.push(gui_container_info);
            index += 1;
        }
        gui_handle_stack
    }

    /// Lets each of the leaf containers resolved handle the event in its rectangle, in the
    /// order in which they were resolved.
    fn containers_handle_event(
        control_state: &mut ControlState,
        gui_container_slotmap: &mut Slotmap<Box<dyn GUIContainer>>,
        gui_handle_stack: Vec<GUIContainerInfo>,
        event: &mut UIEvent,
        public_data: &mut PublicData,
    )
        requires
            old(gui_container_slotmap).wf(),
            old(control_state).in_frame(),
            forall|i: int|
                0 <= i < gui_handle_stack.len() ==> {
                    &&& old(gui_container_slotmap).contains_key(
                        (#[trigger] gui_handle_stack[i]).key.0,
                    )
                    &&& gui_handle_stack[i].container_info.depth_range_fits()
                },
        ensures
            final(gui_container_slotmap).wf(),
            final(gui_container_slotmap).same_keys(old(gui_container_slotmap)),
            frame_kept(old(control_state)@, final(control_state)@),
            final(control_state)@.last_cursor_position == old(control_state)@.last_cursor_position,
            final(event)@.same_input(old(event)@),
            final(public_data).host_kept(old(public_data)),
            old(public_data).mutations@.is_prefix_of(final(public_data).mutations@),
    {
        let mut index: usize = 0;
        while index < gui_handle_stack.len()
            invariant
                index <= gui_handle_stack.len(),
                gui_container_slotmap.wf(),
                gui_container_slotmap.same_keys(old(gui_container_slotmap)),
                frame_kept(old(control_state)@, control_state@),
                control_state@.last_cursor_position == old(control_state)@.last_cursor_position,
                event@.same_input(old(event)@),
                public_data.host_kept(old(public_data)),
                old(public_data).mutations@.is_prefix_of(public_data.mutations@),
                forall|i: int|
                    0 <= i < gui_handle_stack.len() ==> {
                        &&& old(gui_container_slotmap).contains_key(
                            (#[trigger] gui_handle_stack[i]).key.0,
                        )
                        &&& gui_handle_stack[i].container_info.depth_range_fits()
                    },
            decreases gui_handle_stack.len() - index,
        {
            let gui_handle = gui_handle_stack[index];
            let gui_container = gui_container_slotmap.get_value_mut(&gui_handle.key.0).unwrap();
            gui_container.handle_event(
                event,
                public_data,
                gui_handle.container_info,
                control_state,
            );
            index += 1;
        }
    }

    /// The window order begins with a window that is in its arena.
    pub open spec fn first_window_live(&self) -> bool {
        self.order().len() > 0 && self.windows().contains_key(self.order()[0].0)
    }

    /// What the first window of the window order, the control state, the event and the
    /// command queue are when that window itself, its title bar and its resize handle,
    /// has handled the event in a frame that begins with the control state `control`.
    pub open spec fn first_window_handled(
        &self,
        control: ControlStateView,
        event: EventView,
        public_data: &PublicData,
        session: SessionId,
    ) -> window::WindowPass {
        self.windows().value_of(self.order()[0].0).handled(
            control,
            event,
            public_data.mutations@,
            public_data.engine_data.window_position,
            public_data.engine_data.screen_size,
            (0u32, (DEPTH_SLICE_SIZE - 1) as u32),
            session,
        )
    }

    /// The event, the command queue and the control state continue from what the first
    /// window of the window order itself has left of them in the frame that was opened
    /// for the event: what that window has drawn or asked for stays at the head, and the
    /// running number of the identities has not gone back behind it. `self` is the system
    /// before the event.
    pub open spec fn continued_from_first_window(
        &self,
        event: EventView,
        public_data: &PublicData,
        session: SessionId,
        control_after: ControlStateView,
        event_after: EventView,
        mutations_after: Seq<WindowCommand>,
    ) -> bool {
        self.first_window_live() && !(event is CursorExit) ==> {
            let first = self.first_window_handled(
                frame_opened(self.control(), event),
                event,
                public_data,
                session,
            );
            &&& event_after.same_input(first.event)
            &&& first.mutations.is_prefix_of(mutations_after)
            &&& control_after.current_ui_id is Some
            &&& control_after.current_ui_id->0.id >= first.control.current_ui_id->0.id
        }
    }

    /// The window at place `index` of the window order is in its arena.
    pub open spec fn window_live(&self, index: int) -> bool {
        self.windows().contains_key(self.order()[index].0)
    }

    /// A place of the window order before `index` holds `key`.
    pub open spec fn placed_before(&self, key: SlotKey, index: int) -> bool {
        exists|j: int| 0 <= j < index && (#[trigger] self.order()[j]).0 == key
    }

    /// What the window of `turn`, the control state, the event and the command queue are
    /// when that window itself, its title bar and its resize handle, has handled the
    /// event at place `index` of the window order: in the depth range of that place.
    pub open spec fn window_handled(
        turn: WindowTurn,
        index: int,
        public_data: &PublicData,
        session: SessionId,
    ) -> window::WindowPass {
        turn.window.handled(
            turn.control,
            turn.event,
            turn.mutations,
            public_data.engine_data.window_position,
            public_data.engine_data.screen_size,
            (window_depth_range(index).0 as u32, window_depth_range(index).1 as u32),
            session,
        )
    }

    /// Where the walk over the splits of the window of `turn` begins, at place `index` of
    /// the window order: at the layout of the window, with the interior of the window as
    /// it is when the turn begins, in the depth range of the place.
    pub open spec fn turn_root(turn: WindowTurn, index: int) -> LayoutOrTabInfo {
        LayoutOrTabInfo {
            key: LayoutOrTabKey::LayoutKey(turn.window.layout_key),
            container_info: ContainerInfo {
                rect: window::interior_rect(turn.window.position, turn.window.size),
                depth_range: (
                    window_depth_range(index).0 as u32,
                    window_depth_range(index).1 as u32,
                ),
            },
        }
    }

    /// The walk over the splits of the window of `turn` after the visits of the turn: it
    /// begins with what the window itself has left.
    pub open spec fn turn_walk(
        turn: WindowTurn,
        index: int,
        public_data: &PublicData,
        session: SessionId,
    ) -> LayoutWalk {
        let pass = WindowSystem::window_handled(turn, index, public_data, session);
        layout_walk(
            initial_walk(
                turn.layouts,
                pass.control,
                pass.event,
                WindowSystem::turn_root(turn, index),
            ),
            session,
            turn.visits,
        )
    }

    /// What there is when the tab containers that the walk of `turn` has found have
    /// handled the event, in the order in which they were found: the tab containers, the
    /// control state and the event as they are handed to the leaf containers, and the
    /// leaf containers that the tab containers resolve to, each with its rectangle.
    pub open spec fn turn_tabs(
        turn: WindowTurn,
        index: int,
        public_data: &PublicData,
        session: SessionId,
    ) -> TabsWalk {
        let end = WindowSystem::turn_walk(turn, index, public_data, session);
        tabs_walk(
            TabsWalk {
                tabs: turn.tabs,
                control: end.control,
                event: end.event,
                resolved: Seq::empty(),
            },
            end.tabs,
            end.tabs.len() as int,
        )
    }

    /// `turn` is a turn of the window at place `index` of the window order. A window that
    /// is in its arena handles the event itself, in the depth range of its place; then
    /// its splits handle it, from the root down until none is left to visit, then the tab
    /// containers found; the leaf containers that these resolve to begin with what the
    /// tab containers have left. Whatever the leaf containers do, what the window has
    /// drawn or asked for stays at the head of what is added, and the identities do not
    /// go back. A key that finds no window is passed over.
    pub open spec fn turn_taken(
        &self,
        index: int,
        turn: WindowTurn,
        public_data: &PublicData,
        session: SessionId,
    ) -> bool {
        if self.window_live(index) {
            let pass = WindowSystem::window_handled(turn, index, public_data, session);
            let end = WindowSystem::turn_walk(turn, index, public_data, session);
            let resolved = WindowSystem::turn_tabs(turn, index, public_data, session);
            &&& end.stack.len() == 0
            &&& turn.layouts_after == end.layouts
            &&& turn.tabs_after == resolved.tabs
            &&& turn.walked.same_input(resolved.event)
            &&& frame_kept(resolved.control, turn.control_after)
            &&& turn.walked.same_input(pass.event)
            &&& pass.mutations.is_prefix_of(turn.mutations_after)
            &&& frame_kept(pass.control, turn.control_after)
            &&& turn.walked is Render ==> crate::render::sorted_by_depth(
                turn.walked->Render_steps,
            )
        } else {
            &&& turn.walked == turn.event
            &&& turn.layouts_after == turn.layouts
            &&& turn.tabs_after == turn.tabs
            &&& turn.control_after == turn.control
            &&& turn.mutations_after == turn.mutations
        }
    }

    /// The turns are those of the first windows of the window order when an event passes
    /// over them: the first turn begins with `control`, `event`, the command queue of
    /// `public_data` and the splits and tab containers of `self`, each other turn with
    /// what the turn before it has left when its deferred steps have been executed. A
    /// window whose key stands at no earlier place begins its turn as it is in `self`,
    /// the system before the event.
    pub open spec fn turns_taken(
        &self,
        control: ControlStateView,
        event: EventView,
        public_data: &PublicData,
        session: SessionId,
        turns: Seq<WindowTurn>,
    ) -> bool {
        &&& turns.len() <= self.order().len()
        &&& forall|i: int|
            0 <= i < turns.len() ==> {
                &&& #[trigger] self.turn_taken(i, turns[i], public_data, session)
                &&& turns[i].control == control_left(turns.subrange(0, i), control)
                &&& turns[i].event == event_left(turns.subrange(0, i), event)
                &&& turns[i].mutations == mutations_left(
                    turns.subrange(0, i),
                    public_data.mutations@,
                )
                &&& turns[i].layouts == layouts_left(
                    turns.subrange(0, i),
                    layouts_view(&self.layouts()),
                )
                &&& turns[i].tabs == tabs_left(turns.subrange(0, i), tabs_view(&self.tabs()))
                &&& self.window_live(i) && !self.placed_before(self.order()[i].0, i)
                    ==> turns[i].window == self.windows().value_of(self.order()[i].0)
            }
    }

    /// A place of the window order between `index` and `end` holds `key`.
    pub open spec fn placed_between(&self, key: SlotKey, index: int, end: int) -> bool {
        exists|j: int| index < j < end && (#[trigger] self.order()[j]).0 == key
    }

    /// The turns have left the splits and the tab containers of the system `after`.
    pub open spec fn arenas_left(&self, turns: Seq<WindowTurn>, after: &WindowSystem) -> bool {
        &&& layouts_view(&after.layouts()) == layouts_left(turns, layouts_view(&self.layouts()))
        &&& tabs_view(&after.tabs()) == tabs_left(turns, tabs_view(&self.tabs()))
    }

    /// The first `count` turns have left the windows `windows`: a window whose key stands
    /// at no later place before `count` is as its turn has left it.
    pub open spec fn windows_left(
        &self,
        public_data: &PublicData,
        session: SessionId,
        turns: Seq<WindowTurn>,
        count: int,
        windows: Slotmap<UIWindow>,
    ) -> bool {
        forall|i: int|
            0 <= i < count && #[trigger] self.window_live(i) && !self.placed_between(
                self.order()[i].0,
                i,
                count,
            ) ==> windows.value_of(self.order()[i].0) == WindowSystem::window_handled(
                turns[i],
                i,
                public_data,
                session,
            ).window
    }

    /// Every window has had its turn, in the window order, and the turns have left
    /// `control_after`, `event_after` and `mutations_after`. `self` is the system before
    /// the event.
    pub open spec fn windows_visited(
        &self,
        control: ControlStateView,
        event: EventView,
        public_data: &PublicData,
        session: SessionId,
        turns: Seq<WindowTurn>,
        control_after: ControlStateView,
        event_after: EventView,
        mutations_after: Seq<WindowCommand>,
    ) -> bool {
        &&& self.turns_taken(control, event, public_data, session, turns)
        &&& turns.len() == self.order().len()
        &&& control_after == control_left(turns, control)
        &&& event_after == event_left(turns, event)
        &&& mutations_after == mutations_left(turns, public_data.mutations@)
    }

    /// Every turn begins in an open frame when the first one does.
    pub proof fn lemma_turns_in_frame(
        &self,
        control: ControlStateView,
        event: EventView,
        public_data: &PublicData,
        session: SessionId,
        turns: Seq<WindowTurn>,
        index: int,
    )
        requires
            self.turns_taken(control, event, public_data, session, turns),
            control.current_ui_id is Some,
            0 <= index < turns.len(),
        ensures
            turns[index].control.current_ui_id is Some,
        decreases index,
    {
        assert(self.turn_taken(index, turns[index], public_data, session));
        if index > 0 {
            self.lemma_turns_in_frame(control, event, public_data, session, turns, index - 1);
            assert(self.turn_taken(index - 1, turns[index - 1], public_data, session));
            assert(turns.subrange(0, index).last() == turns[index - 1]);
        }
    }

    /// What a window has deferred is drawn before the next window draws: when the window
    /// at place `index + 1` of the window order is done, the sink begins with what it
    /// held when the window at place `index` was done, followed by the requests of the
    /// steps that this window had left in the queue, in the order of the queue.
    pub proof fn lemma_deferred_before_next_window(
        &self,
        control: ControlStateView,
        event: EventView,
        public_data: &PublicData,
        session: SessionId,
        turns: Seq<WindowTurn>,
        index: int,
    )
        requires
            self.turns_taken(control, event, public_data, session, turns),
            control.current_ui_id is Some,
            0 <= index,
            index + 1 < turns.len(),
            turns[index].walked is Render,
        ensures
            turns[index + 1].walked is Render,
            (turns[index].walked->Render_rects + crate::render::requests_of(
                turns[index].walked->Render_steps,
            )).is_prefix_of(turns[index + 1].walked->Render_rects),
    {
        let next = turns[index + 1];
        assert(self.turn_taken(index + 1, next, public_data, session));
        assert(turns.subrange(0, index + 1).last() == turns[index]);
        assert(next.event == turns[index].walked.executed());
        self.lemma_turns_in_frame(control, event, public_data, session, turns, index + 1);
        if self.window_live(index + 1) {
            let bar_pass = crate::control::main_window_top_bar::TopBarPass {
                active_id: next.window.top_bar_active_id,
                drag: next.window.drag_window,
                control: next.control,
                event: next.event,
                mutations: next.mutations,
            };
            let bar = crate::control::main_window_top_bar::top_bar_step(
                bar_pass,
                window::top_bar_rect(next.window.position, next.window.size),
                public_data.engine_data.window_position,
                session,
            );
            window::lemma_top_bar_keeps_frame(
                bar_pass,
                window::top_bar_rect(next.window.position, next.window.size),
                public_data.engine_data.window_position,
                session,
            );
            window::lemma_resize_keeps_frame(
                window::ResizePass {
                    resize: next.window.resize_drag_active_id,
                    control: bar.control,
                    event: bar.event,
                    mutations: bar.mutations,
                },
                next.window.position,
                next.window.size,
                public_data.engine_data.screen_size,
                (window_depth_range(index + 1).0 + depth_offset::RESIZE_CONTROL) as u32,
                session,
            );
        }
    }

    /// What handling an event leaves of the system: the leaf containers, tab containers,
    /// splits and windows that there are, the keys that each holds, the order of the
    /// windows, and the sum of the weights of each split.
    pub open spec fn kept(&self, before: &WindowSystem) -> bool {
        &&& self.containers().same_keys(&before.containers())
        &&& self.tabs().same_keys(&before.tabs())
        &&& tabs_kept(tabs_view(&before.tabs()), tabs_view(&self.tabs()))
        &&& self.layouts().slots().len() == before.layouts().slots().len()
        &&& layouts_kept(layouts_view(&before.layouts()), layouts_view(&self.layouts()))
        &&& windows_kept(&before.windows(), &self.windows())
        &&& self.order() == before.order()
    }

    /// Every window, in the window order, handles the event in its own depth range: first
    /// the window itself, then its splits from the root down, then the tab containers
    /// found, then the leaf containers that these resolve to. On a render event the
    /// deferred steps of each window are executed when the window is done. `session` is
    /// the identifier under which a drag or a resize begins if the event begins one.
    pub fn windows_handle_event(
        &mut self,
        event: &mut UIEvent,
        public_data: &mut PublicData,
        session: SessionId,
    )
        requires
            old(self).wf(),
            old(self).control().current_ui_id is Some,
        ensures
            final(self).wf(),
            final(self).kept(old(self)),
            frame_kept(old(self).control(), final(self).control()),
            final(self).control().last_cursor_position == old(self).control().last_cursor_position,
            final(event)@.same_input(old(event)@),
            final(public_data).host_kept(old(public_data)),
            old(public_data).mutations@.is_prefix_of(final(public_data).mutations@),
            old(event)@ is Render && old(self).order().len() > 0 ==> final(event)@->Render_steps
                == Seq::<RenderStep>::empty(),
            old(self).order().len() == 0 ==> {
                &&& final(self).control() == old(self).control()
                &&& final(event)@ == old(event)@
                &&& final(public_data).mutations@ == old(public_data).mutations@
            },
            old(self).first_window_live() ==> {
                let first = old(self).first_window_handled(
                    old(self).control(),
                    old(event)@,
                    old(public_data),
                    session,
                );
                &&& final(event)@.same_input(first.event)
                &&& first.mutations.is_prefix_of(final(public_data).mutations@)
                &&& frame_kept(first.control, final(self).control())
            },
            exists|turns: Seq<WindowTurn>|
                {
                    &&& #[trigger] old(self).windows_visited(
                        old(self).control(),
                        old(event)@,
                        old(public_data),
                        session,
                        turns,
                        final(self).control(),
                        final(event)@,
                        final(public_data).mutations@,
                    )
                    &&& old(self).windows_left(
                        old(public_data),
                        session,
                        turns,
                        old(self).order().len() as int,
                        final(self).windows(),
                    )
                    &&& old(self).arenas_left(turns, final(self))
                },
    {
        let mut index: usize = 0;
        let ghost mut turns: Seq<WindowTurn> = Seq::empty();
        while index < self.window_order.len()
            invariant
                index <= self.window_order.len(),
                turns.len() == index,
                old(self).turns_taken(
                    old(self).control(),
                    old(event)@,
                    old(public_data),
                    session,
                    turns,
                ),
                old(self).windows_left(
                    old(public_data),
                    session,
                    turns,
                    index as int,
                    self.windows(),
                ),
                old(self).arenas_left(turns, self),
                self.control() == control_left(turns, old(self).control()),
                event@ == event_left(turns, old(event)@),
                public_data.mutations@ == mutations_left(turns, old(public_data).mutations@),
                forall|key: SlotKey|
                    old(self).windows().contains_key(key) && !old(self).placed_before(
                        key,
                        index as int,
                    ) ==> #[trigger] self.windows().value_of(key) == old(self).windows().value_of(
                        key,
                    ),
                self.wf(),
                self.kept(old(self)),
                frame_kept(old(self).control(), self.control()),
                self.control().last_cursor_position == old(self).control().last_cursor_position,
                event@.same_input(old(event)@),
                public_data.host_kept(old(public_data)),
                old(public_data).mutations@.is_prefix_of(public_data.mutations@),
                old(event)@ is Render && index > 0 ==> event@->Render_steps == Seq::<
                    RenderStep,
                >::empty(),
                index == 0 ==> {
                    &&& self.control() == old(self).control()
                    &&& event@ == old(event)@
                    &&& public_data.mutations@ == old(public_data).mutations@
                    &&& self.windows() == old(self).windows()
                },
                index > 0 && old(self).first_window_live() ==> {
                    let first = old(self).first_window_handled(
                        old(self).control(),
                        old(event)@,
                        old(public_data),
                        session,
                    );
                    &&& event@.same_input(first.event)
                    &&& first.mutations.is_prefix_of(public_data.mutations@)
                    &&& frame_kept(first.control, self.control())
                },
            decreases self.window_order.len() - index,
        {
            let window_key = self.window_order[index];
            let depth_range = depth_range_of(index);
            let ghost before = *self;
            let ghost control_before = self.control_state@;
            let ghost event_before = event@;
            let ghost mutations_before = public_data.mutations@;
            let ghost mut visits: nat = 0;
            if self.window_collection.contains(&window_key.0) {
                let window_mut = self.window_collection.get_value_mut(&window_key.0).unwrap();
                let root_layout = window_mut.handle_event(
                    event,
                    public_data,
                    &mut self.control_state,
                    depth_range,
                    session,
                );
                proof {
                    let walk = initial_walk(
                        layouts_view(&self.layout_slotmap),
                        self.control_state@,
                        event@,
                        root_layout,
                    );
                    assert(before.windows().contains_key(window_key.0));
                    assert(walk.stack[0] == root_layout);
                    assert(walk_wf(walk));
                }
                let ghost layouts_before = self.layout_slotmap;
                let ghost begun = initial_walk(
                    layouts_view(&self.layout_slotmap),
                    self.control_state@,
                    event@,
                    root_layout,
                );
                let tab_handle_stack = WindowSystem::layouts_handle_event(
                    &mut self.control_state,
                    &mut self.layout_slotmap,
                    root_layout,
                    event,
                    session,
                );
                proof {
                    visits = choose|steps: nat|
                        {
                            let end = #[trigger] layout_walk(begun, session, steps);
                            &&& end.stack.len() == 0
                            &&& end.layouts == layouts_view(&self.layout_slotmap)
                            &&& end.control == self.control_state@
                            &&& end.event == event@
                            &&& end.tabs == tab_handle_stack@
                        };
                }
                proof {
                    let shape = layouts_shape(layouts_view(&layouts_before));
                    assert forall|i: int| 0 <= i < tab_handle_stack.len() implies {
                        &&& self.tabs_slotmap.contains_key((#[trigger] tab_handle_stack[i]).key.0)
                        &&& tab_handle_stack[i].container_info.depth_range_fits()
                    } by {
                        let key = LayoutOrTabKey::TabKey(tab_handle_stack[i].key);
                        assert(is_child(shape, key));
                        let (parent, j) = choose|parent: SlotKey, j: int|
                            shape.contains_key(parent) && 0 <= j < shape[parent].len()
                                && #[trigger] shape[parent][j] == key;
                        assert(shape[parent][j] == key);
                    }
                }
                let ghost tabs_before = self.tabs_slotmap;
                let gui_handle_stack = WindowSystem::tabs_handle_event(
                    &mut self.control_state,
                    &mut self.tabs_slotmap,
                    tab_handle_stack,
                    event,
                );
                proof {
                    assert forall|i: int| 0 <= i < gui_handle_stack.len() implies {
                        &&& self.gui_container_slotmap.contains_key(
                            (#[trigger] gui_handle_stack[i]).key.0,
                        )
                        &&& gui_handle_stack[i].container_info.depth_range_fits()
                    } by {
                        let tabs = tabs_view(&tabs_before)[tab_handle_stack[i].key.0].tabs;
                        assert(tabs.contains(gui_handle_stack[i].key));
                        let j = choose|j: int| 0 <= j < tabs.len() && tabs[j] == gui_handle_stack[i].key;
                        assert(tabs_view(&tabs_before).contains_key(tab_handle_stack[i].key.0));
                        assert(self.gui_container_slotmap.contains_key(tabs[j].0));
                    }
                }
                WindowSystem::containers_handle_event(
                    &mut self.control_state,
                    &mut self.gui_container_slotmap,
                    gui_handle_stack,
                    event,
                    public_data,
                );
                proof {
                    lemma_system_wf_kept(
                        &before.gui_container_slotmap,
                        &before.tabs_slotmap,
                        &before.layout_slotmap,
                        &before.window_collection,
                        &self.gui_container_slotmap,
                        &self.tabs_slotmap,
                        &self.layout_slotmap,
                        &self.window_collection,
                        self.window_order@,
                    );
                    self.lemma_kept_transitive(&before, old(self));
                }
            }
            let ghost turn = WindowTurn {
                window: before.windows().value_of(window_key.0),
                layouts: layouts_view(&before.layouts()),
                tabs: tabs_view(&before.tabs()),
                control: control_before,
                event: event_before,
                mutations: mutations_before,
                visits,
                walked: event@,
                layouts_after: layouts_view(&self.layout_slotmap),
                tabs_after: tabs_view(&self.tabs_slotmap),
                control_after: self.control_state@,
                mutations_after: public_data.mutations@,
            };
            if let UIEvent::Render { gui_rects, extra_render_steps } = event {
                extra_render_steps.execute_render_steps(gui_rects);
            }
            proof {
                let earlier = turns;
                turns = turns.push(turn);
                assert(turns.subrange(0, index as int) == earlier);
                assert(event@ == turn.walked.executed());
                assert(old(self).turn_taken(index as int, turn, old(public_data), session));
                assert forall|i: int| 0 <= i < turns.len() implies {
                    &&& #[trigger] old(self).turn_taken(i, turns[i], old(public_data), session)
                    &&& turns[i].control == control_left(
                        turns.subrange(0, i),
                        old(self).control(),
                    )
                    &&& turns[i].event == event_left(turns.subrange(0, i), old(event)@)
                    &&& turns[i].mutations == mutations_left(
                        turns.subrange(0, i),
                        old(public_data).mutations@,
                    )
                    &&& turns[i].layouts == layouts_left(
                        turns.subrange(0, i),
                        layouts_view(&old(self).layouts()),
                    )
                    &&& turns[i].tabs == tabs_left(
                        turns.subrange(0, i),
                        tabs_view(&old(self).tabs()),
                    )
                    &&& old(self).window_live(i) && !old(self).placed_before(
                        old(self).order()[i].0,
                        i,
                    ) ==> turns[i].window == old(self).windows().value_of(old(self).order()[i].0)
                } by {
                    if i < index {
                        assert(turns[i] == earlier[i]);
                        assert(turns.subrange(0, i) == earlier.subrange(0, i));
                        assert(old(self).turn_taken(i, earlier[i], old(public_data), session));
                    }
                }
                assert forall|key: SlotKey|
                    old(self).windows().contains_key(key) && !old(self).placed_before(
                        key,
                        index + 1,
                    ) implies #[trigger] self.windows().value_of(key) == old(
                    self,
                ).windows().value_of(key) by {
                    assert(old(self).order()[index as int].0 != key);
                    if old(self).placed_before(key, index as int) {
                        let j = choose|j: int|
                            0 <= j < index && (#[trigger] old(self).order()[j]).0 == key;
                        assert(0 <= j < index + 1 && old(self).order()[j].0 == key);
                    }
                    assert(before.windows().value_of(key) == old(self).windows().value_of(key));
                }
                assert forall|i: int|
                    0 <= i < index + 1 && #[trigger] old(self).window_live(i) && !old(
                        self,
                    ).placed_between(old(self).order()[i].0, i, index + 1) implies self.windows().value_of(
                    old(self).order()[i].0,
                ) == WindowSystem::window_handled(turns[i], i, old(public_data), session).window by {
                    if i < index {
                        assert(turns[i] == earlier[i]);
                        assert(old(self).order()[index as int].0 != old(self).order()[i].0);
                        if old(self).placed_between(old(self).order()[i].0, i, index as int) {
                            let j = choose|j: int|
                                i < j < index && (#[trigger] old(self).order()[j]).0 == old(
                                    self,
                                ).order()[i].0;
                            assert(i < j < index + 1);
                        }
                    }
                }
            }
            index += 1;
        }
        assert(old(self).windows_visited(
            old(self).control(),
            old(event)@,
            old(public_data),
            session,
            turns,
            self.control(),
            event@,
            public_data.mutations@,
        ));
        assert(old(self).windows_left(
            old(public_data),
            session,
            turns,
            old(self).order().len() as int,
            self.windows(),
        ));
        assert(old(self).arenas_left(turns, self));
    }

    /// What is kept from one event to the next is kept over both.
    pub proof fn lemma_kept_transitive(&self, middle: &WindowSystem, before: &WindowSystem)
        requires
            self.kept(middle),
            middle.kept(before),
        ensures
            self.kept(before),
    {
        let first = layouts_view(&before.layouts());
        let second = layouts_view(&middle.layouts());
        let third = layouts_view(&self.layouts());
        assert forall|key: SlotKey| #[trigger] first.contains_key(key) implies {
            &&& layout::same_keys(third[key].children, first[key].children)
            &&& third[key].orientation == first[key].orientation
            &&& layout::total_weight(third[key].children) == layout::total_weight(
                first[key].children,
            )
        } by {
            assert(second.contains_key(key));
            assert(layout::same_keys(second[key].children, first[key].children));
            assert(layout::same_keys(third[key].children, second[key].children));
        }
        let tabs_first = tabs_view(&before.tabs());
        let tabs_second = tabs_view(&middle.tabs());
        assert forall|key: SlotKey| #[trigger] tabs_first.contains_key(key) implies tabs_view(
            &self.tabs(),
        )[key].tabs == tabs_first[key].tabs by {
            assert(tabs_second.contains_key(key));
        }
        assert forall|key: SlotKey| #[trigger] before.windows().contains_key(key) implies self.windows().value_of(
            key,
        ).layout_key == before.windows().value_of(key).layout_key by {
            assert(middle.windows().contains_key(key));
        }
    }

    /// What holds when the system `before` has handled an event and has become `self`,
    /// whatever the leaf containers did. `event` and `public_data` are as they were before,
    /// `event_after` and `public_data_after` as they are after, `session` is the
    /// identifier under which a drag or a resize begins if the event begins one.
    ///
    /// - The event keeps its kind and input, and its sink has only grown; the host data
    ///   is as it was, and the command queue has only grown.
    /// - Nothing is hovered while a session is active.
    /// - When the pointer has left the surface, session, hot control, identities and
    ///   cursor position are dropped.
    /// - After an update nothing is hot, and a session is active only if it was held in
    ///   this frame.
    /// - The cursor position is the one of a pointer motion, else the one before.
    /// - A system without windows only opens and closes the frame.
    /// - With a first window, event, command queue and identities continue from what
    ///   that window itself has left.
    /// - Every window has had its turn in the frame that was opened, each in the depth
    ///   range of its place: the window itself, its splits, its tab containers, and the
    ///   leaf containers that these resolve to; the deferred steps of a window are
    ///   executed before the next window begins; the frame is closed on what the last
    ///   turn has left.
    pub open spec fn event_handled(
        &self,
        before: &WindowSystem,
        event: EventView,
        event_after: EventView,
        public_data: &PublicData,
        public_data_after: &PublicData,
        session: SessionId,
    ) -> bool {
        &&& event_after.same_input(event)
        &&& public_data_after.host_kept(public_data)
        &&& public_data.mutations@.is_prefix_of(public_data_after.mutations@)
        &&& !self.control().active.is_nil() ==> self.control().hovered is None
        &&& event is CursorExit ==> {
            &&& self.control().active.is_nil()
            &&& self.control().current_ui_id is None
            &&& self.control().hot is None
        }
        &&& event is Update ==> self.control().hot is None
        &&& event is Update && !self.control().active.is_nil() ==> self.control().hold_active
        &&& self.control().last_cursor_position == frame_closed(
            frame_opened(before.control(), event),
            event,
        ).last_cursor_position
        &&& before.order().len() == 0 ==> {
            &&& self.control() == frame_closed(frame_opened(before.control(), event), event)
            &&& event_after == event
            &&& public_data_after.mutations@ == public_data.mutations@
        }
        &&& before.continued_from_first_window(
            event,
            public_data,
            session,
            self.control(),
            event_after,
            public_data_after.mutations@,
        )
        &&& exists|turns: Seq<WindowTurn>|
            {
                &&& #[trigger] before.windows_visited(
                    frame_opened(before.control(), event),
                    event,
                    public_data,
                    session,
                    turns,
                    control_left(turns, frame_opened(before.control(), event)),
                    event_after,
                    public_data_after.mutations@,
                )
                &&& before.windows_left(
                    public_data,
                    session,
                    turns,
                    before.order().len() as int,
                    self.windows(),
                )
                &&& before.arenas_left(turns, self)
                &&& self.control() == frame_closed(
                    control_left(turns, frame_opened(before.control(), event)),
                    event,
                )
            }
    }

    /// One event is handled: a frame is opened, a pointer motion is noted, every window
    /// handles the event, and the frame is closed, which commits the hot control as the
    /// hovered one. When the pointer has left the surface, the control state is reset;
    /// after an update, a session that nobody holds is released. `session` is the
    /// identifier under which a drag or a resize begins if the event begins one.
    pub fn handle_event_with_session(
        &mut self,
        event: &mut UIEvent,
        public_data: &mut PublicData,
        session: SessionId,
    )
        requires
            old(self).wf(),
        ensures
            final(self).wf(),
            final(self).kept(old(self)),
            final(self).event_handled(
                old(self),
                old(event)@,
                final(event)@,
                old(public_data),
                final(public_data),
                session,
            ),
    {
        self.control_state.on_gui_start();
        if let UIEvent::MouseMove { corrected, .. } = event {
            self.control_state.set_cursor_position(Some(*corrected));
        }
        proof {
            self.lemma_kept_reflexive();
        }
        let ghost opened = *self;
        self.windows_handle_event(event, public_data, session);
        let ghost walked = *self;
        let ghost turns = choose|turns: Seq<WindowTurn>|
            {
                &&& #[trigger] opened.windows_visited(
                    opened.control(),
                    old(event)@,
                    old(public_data),
                    session,
                    turns,
                    walked.control(),
                    event@,
                    public_data.mutations@,
                )
                &&& opened.windows_left(
                    old(public_data),
                    session,
                    turns,
                    opened.order().len() as int,
                    walked.windows(),
                )
                &&& opened.arenas_left(turns, &walked)
            };
        proof {
            self.lemma_kept_transitive(&opened, old(self));
            opened.lemma_turns_of(
                old(self),
                opened.control(),
                old(event)@,
                old(public_data),
                session,
                turns,
                walked.windows(),
            );
        }
        self.control_state.on_gui_end();
        match event {
            UIEvent::CursorExit => {
                self.control_state.on_cursor_exit();
            },
            UIEvent::Update => {
                self.control_state.on_after_update();
            },
            _ => {},
        }
        assert(old(self).windows_visited(
            frame_opened(old(self).control(), old(event)@),
            old(event)@,
            old(public_data),
            session,
            turns,
            control_left(turns, frame_opened(old(self).control(), old(event)@)),
            event@,
            public_data.mutations@,
        ));
    }

    /// Turns of the windows of a system are turns of the windows of a system with the
    /// same windows, splits and tab containers in the same order.
    proof fn lemma_turns_of(
        &self,
        other: &WindowSystem,
        control: ControlStateView,
        event: EventView,
        public_data: &PublicData,
        session: SessionId,
        turns: Seq<WindowTurn>,
        windows: Slotmap<UIWindow>,
    )
        requires
            self.windows() == other.windows(),
            self.layouts() == other.layouts(),
            self.tabs() == other.tabs(),
            self.order() == other.order(),
        ensures
            self.turns_taken(control, event, public_data, session, turns) ==> other.turns_taken(
                control,
                event,
                public_data,
                session,
                turns,
            ),
            self.windows_left(public_data, session, turns, self.order().len() as int, windows)
                ==> other.windows_left(
                public_data,
                session,
                turns,
                other.order().len() as int,
                windows,
            ),
    {
        if self.turns_taken(control, event, public_data, session, turns) {
            assert forall|i: int| 0 <= i < turns.len() implies {
                &&& #[trigger] other.turn_taken(i, turns[i], public_data, session)
                &&& turns[i].control == control_left(turns.subrange(0, i), control)
                &&& turns[i].event == event_left(turns.subrange(0, i), event)
                &&& turns[i].mutations == mutations_left(
                    turns.subrange(0, i),
                    public_data.mutations@,
                )
                &&& turns[i].layouts == layouts_left(
                    turns.subrange(0, i),
                    layouts_view(&other.layouts()),
                )
                &&& turns[i].tabs == tabs_left(turns.subrange(0, i), tabs_view(&other.tabs()))
                &&& other.window_live(i) && !other.placed_before(other.order()[i].0, i)
                    ==> turns[i].window == other.windows().value_of(other.order()[i].0)
            } by {
                assert(self.turn_taken(i, turns[i], public_data, session));
                assert(self.window_live(i) == other.window_live(i));
                assert(self.placed_before(self.order()[i].0, i) == other.placed_before(
                    other.order()[i].0,
                    i,
                ));
            }
        }
        if self.windows_left(public_data, session, turns, self.order().len() as int, windows) {
            assert forall|i: int|
                0 <= i < other.order().len() && #[trigger] other.window_live(i)
                    && !other.placed_between(
                    other.order()[i].0,
                    i,
                    other.order().len() as int,
                ) implies windows.value_of(other.order()[i].0) == WindowSystem::window_handled(
                turns[i],
                i,
                public_data,
                session,
            ).window by {
                assert(self.window_live(i));
                assert(self.placed_between(self.order()[i].0, i, self.order().len() as int)
                    == other.placed_between(other.order()[i].0, i, other.order().len() as int));
            }
        }
    }

    /// A system keeps what it has.
    pub proof fn lemma_kept_reflexive(&self)
        ensures
            self.kept(self),
    {
    }

    /// One event is handled; see [`WindowSystem::handle_event_with_session`]. A drag or a
    /// resize that the event begins gets a fresh session identifier.
    pub fn handle_event(&mut self, event: &mut UIEvent, public_data: &mut PublicData)
        requires
            old(self).wf(),
        ensures
            final(self).wf(),
            final(self).kept(old(self)),
            exists|session: SessionId|
                {
                    &&& old(event).left_pressed() ==> !session.is_nil()
                    &&& #[trigger] final(self).event_handled(
                        old(self),
                        old(event)@,
                        final(event)@,
                        old(public_data),
                        final(public_data),
                        session,
                    )
                },
    {
        let session = if event.is_left_pressed() {
            SessionId::new_random()
        } else {
            SessionId::nil()
        };
        self.handle_event_with_session(event, public_data, session);
    }

    /// What holds when the system `before` has drawn a frame into a sink that held `sink`
    /// and has become `self`, whatever the leaf containers did: every window has had its
    /// turn with the render event, each in the depth range of its place; the deferred
    /// steps of a window stand in the sink before anything that the next window draws;
    /// `sink_after` is what the last turn has left, and the frame is closed on the
    /// control state that it has left.
    pub open spec fn frame_drawn(
        &self,
        before: &WindowSystem,
        sink: Seq<crate::render::DrawRequest>,
        sink_after: Seq<crate::render::DrawRequest>,
        public_data: &PublicData,
        public_data_after: &PublicData,
    ) -> bool {
        exists|turns: Seq<WindowTurn>|
            {
                &&& #[trigger] before.windows_visited(
                    before.control().on_gui_start(),
                    EventView::Render { rects: sink, steps: Seq::empty() },
                    public_data,
                    SessionId::nil(),
                    turns,
                    control_left(turns, before.control().on_gui_start()),
                    EventView::Render { rects: sink_after, steps: Seq::empty() },
                    public_data_after.mutations@,
                )
                &&& before.windows_left(
                    public_data,
                    SessionId::nil(),
                    turns,
                    before.order().len() as int,
                    self.windows(),
                )
                &&& before.arenas_left(turns, self)
                &&& self.control() == control_left(
                    turns,
                    before.control().on_gui_start(),
                ).on_gui_end()
            }
    }

    /// The frame is drawn into `gui_rects`: every window handles a render event, and the
    /// deferred steps of each window are executed when the window is done. What `gui_rects`
    /// holds stays; the title bar of the first window is the first that is drawn behind it.
    pub fn render_event(&mut self, public_data: &mut PublicData, gui_rects: &mut GUIRects)
        requires
            old(self).wf(),
        ensures
            final(self).wf(),
            final(self).kept(old(self)),
            final(public_data).host_kept(old(public_data)),
            old(public_data).mutations@.is_prefix_of(final(public_data).mutations@),
            !final(self).control().active.is_nil() ==> final(self).control().hovered is None,
            old(gui_rects)@.is_prefix_of(final(gui_rects)@),
            old(self).order().len() == 0 ==> {
                &&& final(gui_rects)@ == old(gui_rects)@
                &&& final(self).control() == old(self).control().on_gui_start().on_gui_end()
                &&& final(public_data).mutations@ == old(public_data).mutations@
            },
            old(self).first_window_live() ==> old(gui_rects)@.push(
                window::top_bar_request(
                    old(self).windows().value_of(old(self).order()[0].0),
                    old(self).control().on_gui_start(),
                ),
            ).is_prefix_of(final(gui_rects)@),
            final(self).frame_drawn(
                old(self),
                old(gui_rects)@,
                final(gui_rects)@,
                old(public_data),
                final(public_data),
            ),
    {
        let mut sink = GUIRects::new();
        core::mem::swap(gui_rects, &mut sink);
        let mut event = UIEvent::Render {
            gui_rects: sink,
            extra_render_steps: ExtraRenderSteps::new(25),
        };
        self.control_state.on_gui_start();
        proof {
            self.lemma_kept_reflexive();
        }
        let ghost opened = *self;
        let ghost event_before = event@;
        self.windows_handle_event(&mut event, public_data, SessionId::nil());
        let ghost walked = *self;
        let ghost event_after = event@;
        let ghost turns = choose|turns: Seq<WindowTurn>|
            {
                &&& #[trigger] opened.windows_visited(
                    opened.control(),
                    event_before,
                    old(public_data),
                    SessionId::nil(),
                    turns,
                    walked.control(),
                    event_after,
                    public_data.mutations@,
                )
                &&& opened.windows_left(
                    old(public_data),
                    SessionId::nil(),
                    turns,
                    opened.order().len() as int,
                    walked.windows(),
                )
                &&& opened.arenas_left(turns, &walked)
            };
        proof {
            self.lemma_kept_transitive(&opened, old(self));
            opened.lemma_turns_of(
                old(self),
                opened.control(),
                event_before,
                old(public_data),
                SessionId::nil(),
                turns,
                walked.windows(),
            );
        }
        self.control_state.on_gui_end();
        match event {
            UIEvent::Render { gui_rects: drawn, .. } => {
                *gui_rects = drawn;
            },
            _ => {},
        }
        assert(old(self).windows_visited(
            old(self).control().on_gui_start(),
            EventView::Render { rects: old(gui_rects)@, steps: Seq::empty() },
            old(public_data),
            SessionId::nil(),
            turns,
            control_left(turns, old(self).control().on_gui_start()),
            EventView::Render { rects: gui_rects@, steps: Seq::empty() },
            public_data.mutations@,
        ));
    }
}

} // verus!
