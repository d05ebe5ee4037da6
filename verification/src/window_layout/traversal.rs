//! The walk through the split layouts of a window, from the root down to the tab
//! containers.
//!
//! The walk keeps the nodes that it has still to visit on a stack of its own, so that
//! the depth of a layout tree never bears on the call stack. A split can only have
//! children that were in the arena before it, so the walk comes to an end.

use vstd::prelude::*;
use crate::control::ControlStateView;
use crate::control::SessionId;
use crate::event::EventView;
use crate::control::frame_kept;
use crate::slotmap::SlotKey;
use crate::slotmap::Slotmap;
use crate::window_layout::layout::lemma_handled_keeps;
use crate::window_layout::layout::same_keys;
use crate::window_layout::layout::total_weight;
use crate::window_layout::layout::LayoutElement;
use crate::window_layout::layout::LayoutView;
use crate::window_layout::window::UIWindow;
use crate::window_layout::WindowSlotKey;
use crate::window_layout::MAX_WINDOWS;
use crate::gui_container::GUIContainer;
use crate::window_layout::tabs_container::TabsContainer;
use crate::window_layout::tabs_container::TabsView;
use crate::window_layout::GUIContainerInfo;
use crate::window_layout::LayoutOrTabInfo;
use crate::window_layout::LayoutOrTabKey;
use crate::window_layout::TabLayoutInfo;
use crate::window_layout::TabsSlotKey;

verus! {

/// The splits of an arena, each under its key.
pub open spec fn layouts_view(layouts: &Slotmap<LayoutElement>) -> Map<SlotKey, LayoutView> {
    Map::new(|key: SlotKey| layouts.contains_key(key), |key: SlotKey| layouts.value_of(key)@)
}

/// The children of each split, without their weights.
pub open spec fn layouts_shape(layouts: Map<SlotKey, LayoutView>) -> Map<
    SlotKey,
    Seq<LayoutOrTabKey>,
> {
    Map::new(|key: SlotKey| layouts.contains_key(key), |key: SlotKey| layouts[key].keys())
}

/// Every split is well-formed.
pub open spec fn layouts_wf(layouts: Map<SlotKey, LayoutView>) -> bool {
    forall|key: SlotKey| #[trigger]
        layouts.contains_key(key) ==> layouts[key].wf() && layouts[key].children.len()
            <= usize::MAX
}

/// Every child of a split that is itself a split is in the arena, and came into it
/// before its parent.
pub open spec fn shape_ordered(shape: Map<SlotKey, Seq<LayoutOrTabKey>>) -> bool {
    forall|key: SlotKey, i: int|
        shape.contains_key(key) && 0 <= i < shape[key].len() ==> ((#[trigger] shape[key][i]) matches LayoutOrTabKey::LayoutKey(
            child,
        ) ==> shape.contains_key(child.0) && child.0.index < key.index)
}

/// No split has a child that is a split of its own orientation.
pub open spec fn orientations_alternate(layouts: Map<SlotKey, LayoutView>) -> bool {
    forall|key: SlotKey, i: int|
        layouts.contains_key(key) && 0 <= i < layouts[key].children.len() ==> ((
        #[trigger] layouts[key].children[i]).layout_or_tab_key matches LayoutOrTabKey::LayoutKey(
            child,
        ) ==> layouts.contains_key(child.0) ==> layouts[child.0].orientation
            != layouts[key].orientation)
}

/// Number of visits that the walk makes from the split `key` down, the visit of the
/// split itself included; one for a key that finds no split.
pub open spec fn node_weight(shape: Map<SlotKey, Seq<LayoutOrTabKey>>, key: SlotKey) -> nat
    decreases key.index + 1, 0nat,
{
    if shape.contains_key(key) {
        1 + keys_weight(shape, shape[key], key.index as nat)
    } else {
        1
    }
}

/// Number of visits that the walk makes from the children `keys` of a split down. A child
/// that is not below `bound` in the arena counts as one visit.
pub open spec fn keys_weight(
    shape: Map<SlotKey, Seq<LayoutOrTabKey>>,
    keys: Seq<LayoutOrTabKey>,
    bound: nat,
) -> nat
    decreases bound, keys.len(),
{
    if keys.len() == 0 {
        0
    } else {
        keys_weight(shape, keys.drop_last(), bound) + (match keys.last() {
            LayoutOrTabKey::LayoutKey(child) => if child.0.index < bound {
                node_weight(shape, child.0)
            } else {
                1
            },
            LayoutOrTabKey::TabKey(_) => 1,
        })
    }
}

/// Number of visits that the walk makes from one entry of its stack down.
pub open spec fn entry_weight(shape: Map<SlotKey, Seq<LayoutOrTabKey>>, key: LayoutOrTabKey) -> nat {
    match key {
        LayoutOrTabKey::LayoutKey(layout_key) => node_weight(shape, layout_key.0),
        LayoutOrTabKey::TabKey(_) => 1,
    }
}

/// Number of visits that the walk has still to make.
pub open spec fn stack_weight(
    shape: Map<SlotKey, Seq<LayoutOrTabKey>>,
    stack: Seq<LayoutOrTabInfo>,
) -> nat
    decreases stack.len(),
{
    if stack.len() == 0 {
        0
    } else {
        stack_weight(shape, stack.drop_last()) + entry_weight(shape, stack.last().key)
    }
}

/// The visits from two stacks, one on top of the other, add up.
pub proof fn lemma_stack_weight_add(
    shape: Map<SlotKey, Seq<LayoutOrTabKey>>,
    below: Seq<LayoutOrTabInfo>,
    above: Seq<LayoutOrTabInfo>,
)
    ensures
        stack_weight(shape, below + above) == stack_weight(shape, below) + stack_weight(
            shape,
            above,
        ),
    decreases above.len(),
{
    if above.len() == 0 {
        assert(below + above =~= below);
    } else {
        assert((below + above).drop_last() =~= below + above.drop_last());
        lemma_stack_weight_add(shape, below, above.drop_last());
    }
}

/// The visits from what a split hands on are the visits from its children.
pub proof fn lemma_handles_weight(
    shape: Map<SlotKey, Seq<LayoutOrTabKey>>,
    handles: Seq<LayoutOrTabInfo>,
    keys: Seq<LayoutOrTabKey>,
    bound: nat,
)
    requires
        handles.len() == keys.len(),
        forall|i: int| 0 <= i < keys.len() ==> (#[trigger] handles[i]).key == keys[i],
        forall|i: int|
            0 <= i < keys.len() ==> ((#[trigger] keys[i]) matches LayoutOrTabKey::LayoutKey(child)
                ==> child.0.index < bound),
    ensures
        stack_weight(shape, handles) == keys_weight(shape, keys, bound),
    decreases keys.len(),
{
    if keys.len() > 0 {
        let shorter = handles.drop_last();
        let fewer = keys.drop_last();
        assert forall|i: int| 0 <= i < fewer.len() implies (#[trigger] shorter[i]).key
            == fewer[i] by {
            assert(shorter[i] == handles[i]);
        }
        assert forall|i: int| 0 <= i < fewer.len() implies ((
        #[trigger] fewer[i]) matches LayoutOrTabKey::LayoutKey(child) ==> child.0.index
            < bound) by {
            assert(fewer[i] == keys[i]);
        }
        lemma_handles_weight(shape, shorter, fewer, bound);
        assert(handles.last().key == keys.last()) by {
            assert(handles[keys.len() - 1].key == keys[keys.len() - 1]);
        }
        assert(keys[keys.len() - 1] == keys.last());
    }
}

/// The state of a walk: the splits, the control state and the event as the walk has left
/// them so far, the entries still to visit, and the tab containers found.
pub struct LayoutWalk {
    pub layouts: Map<SlotKey, LayoutView>,
    pub control: ControlStateView,
    pub event: EventView,
    pub stack: Seq<LayoutOrTabInfo>,
    pub tabs: Seq<TabLayoutInfo>,
}

/// One visit of the walk: the entry on top of the stack is taken off. A tab container is
/// noted with its rectangle. A split handles the event in its rectangle, and what it
/// hands on for its children goes on the stack, the last child on top. With nothing on
/// the stack, nothing happens.
pub open spec fn layout_walk_step(walk: LayoutWalk, session: SessionId) -> LayoutWalk {
    if walk.stack.len() == 0 {
        walk
    } else {
        let top = walk.stack.last();
        let rest = walk.stack.drop_last();
        match top.key {
            LayoutOrTabKey::TabKey(tab_key) => LayoutWalk {
                stack: rest,
                tabs: walk.tabs.push(
                    TabLayoutInfo { key: tab_key, container_info: top.container_info },
                ),
                ..walk
            },
            LayoutOrTabKey::LayoutKey(layout_key) => {
                let node = walk.layouts[layout_key.0];
                let after = node.handled(walk.control, walk.event, top.container_info, session);
                LayoutWalk {
                    layouts: walk.layouts.insert(
                        layout_key.0,
                        LayoutView {
                            children: after.children,
                            active_divider: after.active_divider,
                            orientation: node.orientation,
                        },
                    ),
                    control: after.control,
                    event: after.event,
                    stack: rest + node.handles(top.container_info),
                    tabs: walk.tabs,
                }
            },
        }
    }
}

/// The walk after `steps` visits.
pub open spec fn layout_walk(walk: LayoutWalk, session: SessionId, steps: nat) -> LayoutWalk
    decreases steps,
{
    if steps == 0 {
        walk
    } else {
        layout_walk_step(layout_walk(walk, session, (steps - 1) as nat), session)
    }
}

/// A walk can go on: the splits are well-formed and in order, a frame is open, and every
/// entry on the stack is a tab container or a split of the arena, with a depth range
/// that holds a whole slice.
pub open spec fn walk_wf(walk: LayoutWalk) -> bool {
    &&& layouts_wf(walk.layouts)
    &&& shape_ordered(layouts_shape(walk.layouts))
    &&& walk.control.current_ui_id is Some
    &&& forall|i: int|
        0 <= i < walk.stack.len() ==> {
            &&& (#[trigger] walk.stack[i]).container_info.depth_range_fits()
            &&& walk.stack[i].key matches LayoutOrTabKey::LayoutKey(key)
                ==> walk.layouts.contains_key(key.0)
        }
}

/// What a walk leaves of the splits: which there are, their children and the order of
/// these, their orientation, and the sum of the weights of each.
pub open spec fn layouts_kept(before: Map<SlotKey, LayoutView>, after: Map<SlotKey, LayoutView>) -> bool {
    &&& after.dom() == before.dom()
    &&& forall|key: SlotKey| #[trigger]
        before.contains_key(key) ==> {
            &&& same_keys(after[key].children, before[key].children)
            &&& after[key].orientation == before[key].orientation
            &&& total_weight(after[key].children) == total_weight(before[key].children)
        }
}

/// What a walk leaves as it is, and what it keeps true, from one visit to the next.
pub open spec fn walk_kept(before: LayoutWalk, after: LayoutWalk) -> bool {
    &&& walk_wf(after)
    &&& layouts_kept(before.layouts, after.layouts)
    &&& layouts_shape(after.layouts) == layouts_shape(before.layouts)
    &&& frame_kept(before.control, after.control)
    &&& after.control.last_cursor_position == before.control.last_cursor_position
    &&& after.event.same_input(before.event)
    &&& before.event matches EventView::Render { rects, .. } ==> after.event
        == (EventView::Render { rects, steps: after.event->Render_steps })
}

/// A visit keeps the walk well-formed and leaves one visit less to make.
pub proof fn lemma_walk_step(walk: LayoutWalk, session: SessionId)
    requires
        walk_wf(walk),
        walk.stack.len() > 0,
    ensures
        walk_kept(walk, layout_walk_step(walk, session)),
        stack_weight(layouts_shape(walk.layouts), layout_walk_step(walk, session).stack) + 1
            == stack_weight(layouts_shape(walk.layouts), walk.stack),
        walk.tabs.is_prefix_of(layout_walk_step(walk, session).tabs),
{
    let next = layout_walk_step(walk, session);
    let top = walk.stack.last();
    let rest = walk.stack.drop_last();
    let shape = layouts_shape(walk.layouts);
    assert(walk.stack[walk.stack.len() - 1] == top);
    assert forall|i: int| 0 <= i < rest.len() implies {
        &&& (#[trigger] rest[i]).container_info.depth_range_fits()
        &&& rest[i].key matches LayoutOrTabKey::LayoutKey(key) ==> walk.layouts.contains_key(
            key.0,
        )
    } by {
        assert(rest[i] == walk.stack[i]);
    }
    match top.key {
        LayoutOrTabKey::TabKey(tab_key) => {
            assert(next.layouts == walk.layouts);
        },
        LayoutOrTabKey::LayoutKey(layout_key) => {
            let key = layout_key.0;
            let node = walk.layouts[key];
            assert(walk.layouts.contains_key(key));
            lemma_handled_keeps(node, walk.control, walk.event, top.container_info, session);
            let after = node.handled(walk.control, walk.event, top.container_info, session);
            let updated = LayoutView {
                children: after.children,
                active_divider: after.active_divider,
                orientation: node.orientation,
            };
            assert(updated.keys() =~= node.keys());
            assert(layouts_shape(next.layouts) =~= shape);
            assert(next.layouts.dom() =~= walk.layouts.dom());
            let handles = node.handles(top.container_info);
            assert forall|i: int| 0 <= i < handles.len() implies (#[trigger] handles[i]).key
                == node.keys()[i] by {}
            assert forall|i: int| 0 <= i < node.keys().len() implies ((
            #[trigger] node.keys()[i]) matches LayoutOrTabKey::LayoutKey(child) ==> child.0.index
                < key.index) by {
                assert(shape.contains_key(key));
                assert(shape[key][i] == node.keys()[i]);
            }
            lemma_handles_weight(shape, handles, node.keys(), key.index as nat);
            lemma_stack_weight_add(shape, rest, handles);
            assert(shape[key] == node.keys());
            assert forall|i: int| 0 <= i < next.stack.len() implies {
                &&& (#[trigger] next.stack[i]).container_info.depth_range_fits()
                &&& next.stack[i].key matches LayoutOrTabKey::LayoutKey(k)
                    ==> next.layouts.contains_key(k.0)
            } by {
                if i < rest.len() {
                    assert(next.stack[i] == rest[i]);
                } else {
                    let j = i - rest.len();
                    assert(next.stack[i] == handles[j]);
                    assert(shape[key][j] == node.keys()[j]);
                }
            }
            assert forall|k: SlotKey| #[trigger] next.layouts.contains_key(k) implies next.layouts[k].wf()
                && next.layouts[k].children.len() <= usize::MAX by {
                if k != key {
                    assert(walk.layouts.contains_key(k));
                }
            }
            assert forall|k: SlotKey| #[trigger] walk.layouts.contains_key(k) implies {
                &&& same_keys(next.layouts[k].children, walk.layouts[k].children)
                &&& next.layouts[k].orientation == walk.layouts[k].orientation
                &&& total_weight(next.layouts[k].children) == total_weight(
                    walk.layouts[k].children,
                )
            } by {}
        },
    }
}

/// The tab containers below the split `key`, in the order in which the walk finds them:
/// those below the last child first. None for a key that finds no split.
pub open spec fn node_leaves(shape: Map<SlotKey, Seq<LayoutOrTabKey>>, key: SlotKey) -> Seq<
    TabsSlotKey,
>
    decreases key.index + 1, 0nat,
{
    if shape.contains_key(key) {
        keys_leaves(shape, shape[key], key.index as nat)
    } else {
        Seq::empty()
    }
}

/// The tab containers at and below the children `keys` of a split, in the order in which
/// the walk finds them. A child split that is not below `bound` in the arena has none.
pub open spec fn keys_leaves(
    shape: Map<SlotKey, Seq<LayoutOrTabKey>>,
    keys: Seq<LayoutOrTabKey>,
    bound: nat,
) -> Seq<TabsSlotKey>
    decreases bound, keys.len(),
{
    if keys.len() == 0 {
        Seq::empty()
    } else {
        (match keys.last() {
            LayoutOrTabKey::LayoutKey(child) => if child.0.index < bound {
                node_leaves(shape, child.0)
            } else {
                Seq::empty()
            },
            LayoutOrTabKey::TabKey(tab_key) => seq![tab_key],
        }) + keys_leaves(shape, keys.drop_last(), bound)
    }
}

/// The tab containers at and below one entry of the stack of the walk.
pub open spec fn entry_leaves(shape: Map<SlotKey, Seq<LayoutOrTabKey>>, key: LayoutOrTabKey) -> Seq<
    TabsSlotKey,
> {
    match key {
        LayoutOrTabKey::LayoutKey(layout_key) => node_leaves(shape, layout_key.0),
        LayoutOrTabKey::TabKey(tab_key) => seq![tab_key],
    }
}

/// The tab containers that the walk has still to find, in the order in which it finds
/// them: those of the entry on top of the stack first.
pub open spec fn stack_leaves(
    shape: Map<SlotKey, Seq<LayoutOrTabKey>>,
    stack: Seq<LayoutOrTabInfo>,
) -> Seq<TabsSlotKey>
    decreases stack.len(),
{
    if stack.len() == 0 {
        Seq::empty()
    } else {
        entry_leaves(shape, stack.last().key) + stack_leaves(shape, stack.drop_last())
    }
}

/// The keys of the tab containers found.
pub open spec fn found_keys(tabs: Seq<TabLayoutInfo>) -> Seq<TabsSlotKey> {
    Seq::new(tabs.len(), |i: int| tabs[i].key)
}

/// What is still to find from two stacks, one on top of the other: first what is to find
/// from the upper one.
pub proof fn lemma_stack_leaves_add(
    shape: Map<SlotKey, Seq<LayoutOrTabKey>>,
    below: Seq<LayoutOrTabInfo>,
    above: Seq<LayoutOrTabInfo>,
)
    ensures
        stack_leaves(shape, below + above) == stack_leaves(shape, above) + stack_leaves(
            shape,
            below,
        ),
    decreases above.len(),
{
    if above.len() == 0 {
        assert(below + above =~= below);
        assert(stack_leaves(shape, above) + stack_leaves(shape, below) =~= stack_leaves(
            shape,
            below,
        ));
    } else {
        assert((below + above).drop_last() =~= below + above.drop_last());
        assert((below + above).last() == above.last());
        lemma_stack_leaves_add(shape, below, above.drop_last());
        assert(stack_leaves(shape, below + above) =~= stack_leaves(shape, above) + stack_leaves(
            shape,
            below,
        ));
    }
}

/// What is to find from what a split hands on is what is to find from its children.
pub proof fn lemma_handles_leaves(
    shape: Map<SlotKey, Seq<LayoutOrTabKey>>,
    handles: Seq<LayoutOrTabInfo>,
    keys: Seq<LayoutOrTabKey>,
    bound: nat,
)
    requires
        handles.len() == keys.len(),
        forall|i: int| 0 <= i < keys.len() ==> (#[trigger] handles[i]).key == keys[i],
        forall|i: int|
            0 <= i < keys.len() ==> ((#[trigger] keys[i]) matches LayoutOrTabKey::LayoutKey(child)
                ==> child.0.index < bound),
    ensures
        stack_leaves(shape, handles) == keys_leaves(shape, keys, bound),
    decreases keys.len(),
{
    if keys.len() > 0 {
        let shorter = handles.drop_last();
        let fewer = keys.drop_last();
        assert forall|i: int| 0 <= i < fewer.len() implies (#[trigger] shorter[i]).key
            == fewer[i] by {
            assert(shorter[i] == handles[i]);
        }
        assert forall|i: int| 0 <= i < fewer.len() implies ((
        #[trigger] fewer[i]) matches LayoutOrTabKey::LayoutKey(child) ==> child.0.index
            < bound) by {
            assert(fewer[i] == keys[i]);
        }
        lemma_handles_leaves(shape, shorter, fewer, bound);
        assert(handles.last().key == keys.last()) by {
            assert(handles[keys.len() - 1].key == keys[keys.len() - 1]);
        }
        assert(keys[keys.len() - 1] == keys.last());
    }
}

/// A visit loses no tab container and finds none twice: what the walk has found, followed
/// by what it has still to find, is the same before and after the visit.
pub proof fn lemma_walk_step_leaves(walk: LayoutWalk, session: SessionId)
    requires
        walk_wf(walk),
        walk.stack.len() > 0,
    ensures
        ({
            let next = layout_walk_step(walk, session);
            let shape = layouts_shape(walk.layouts);
            found_keys(next.tabs) + stack_leaves(shape, next.stack) == found_keys(walk.tabs)
                + stack_leaves(shape, walk.stack)
        }),
{
    let next = layout_walk_step(walk, session);
    let top = walk.stack.last();
    let rest = walk.stack.drop_last();
    let shape = layouts_shape(walk.layouts);
    assert(walk.stack[walk.stack.len() - 1] == top);
    match top.key {
        LayoutOrTabKey::TabKey(tab_key) => {
            assert(found_keys(next.tabs) =~= found_keys(walk.tabs) + seq![tab_key]);
            assert(found_keys(next.tabs) + stack_leaves(shape, next.stack) =~= found_keys(
                walk.tabs,
            ) + stack_leaves(shape, walk.stack));
        },
        LayoutOrTabKey::LayoutKey(layout_key) => {
            let key = layout_key.0;
            let node = walk.layouts[key];
            assert(walk.layouts.contains_key(key));
            let handles = node.handles(top.container_info);
            assert forall|i: int| 0 <= i < handles.len() implies (#[trigger] handles[i]).key
                == node.keys()[i] by {}
            assert forall|i: int| 0 <= i < node.keys().len() implies ((
            #[trigger] node.keys()[i]) matches LayoutOrTabKey::LayoutKey(child) ==> child.0.index
                < key.index) by {
                assert(shape.contains_key(key));
                assert(shape[key][i] == node.keys()[i]);
            }
            lemma_handles_leaves(shape, handles, node.keys(), key.index as nat);
            lemma_stack_leaves_add(shape, rest, handles);
            assert(shape[key] == node.keys());
            assert(next.tabs == walk.tabs);
        },
    }
}

/// The key is that of a child of some split.
pub open spec fn is_child(shape: Map<SlotKey, Seq<LayoutOrTabKey>>, key: LayoutOrTabKey) -> bool {
    exists|parent: SlotKey, i: int|
        shape.contains_key(parent) && 0 <= i < shape[parent].len() && #[trigger] shape[parent][i]
            == key
}

/// Whatever the walk holds is the root or a child of some split.
pub open spec fn walk_known(walk: LayoutWalk, root: LayoutOrTabKey) -> bool {
    &&& forall|i: int|
        0 <= i < walk.stack.len() ==> {
            ||| (#[trigger] walk.stack[i]).key == root
            ||| is_child(layouts_shape(walk.layouts), walk.stack[i].key)
        }
    &&& forall|i: int|
        0 <= i < walk.tabs.len() ==> {
            ||| LayoutOrTabKey::TabKey((#[trigger] walk.tabs[i]).key) == root
            ||| is_child(layouts_shape(walk.layouts), LayoutOrTabKey::TabKey(walk.tabs[i].key))
        }
}

/// A visit finds nothing but children of the splits.
pub proof fn lemma_walk_step_known(walk: LayoutWalk, session: SessionId, root: LayoutOrTabKey)
    requires
        walk_wf(walk),
        walk_known(walk, root),
        walk.stack.len() > 0,
    ensures
        walk_known(layout_walk_step(walk, session), root),
{
    lemma_walk_step(walk, session);
    let next = layout_walk_step(walk, session);
    let top = walk.stack.last();
    let rest = walk.stack.drop_last();
    let shape = layouts_shape(walk.layouts);
    assert(layouts_shape(next.layouts) == shape);
    assert(walk.stack[walk.stack.len() - 1] == top);
    match top.key {
        LayoutOrTabKey::TabKey(tab_key) => {
            assert forall|i: int| 0 <= i < next.stack.len() implies {
                ||| (#[trigger] next.stack[i]).key == root
                ||| is_child(shape, next.stack[i].key)
            } by {
                assert(next.stack[i] == walk.stack[i]);
            }
            assert forall|i: int| 0 <= i < next.tabs.len() implies {
                ||| LayoutOrTabKey::TabKey((#[trigger] next.tabs[i]).key) == root
                ||| is_child(shape, LayoutOrTabKey::TabKey(next.tabs[i].key))
            } by {
                if i < walk.tabs.len() {
                    assert(next.tabs[i] == walk.tabs[i]);
                }
            }
        },
        LayoutOrTabKey::LayoutKey(layout_key) => {
            let node = walk.layouts[layout_key.0];
            let handles = node.handles(top.container_info);
            assert(shape.contains_key(layout_key.0));
            assert forall|i: int| 0 <= i < next.stack.len() implies {
                ||| (#[trigger] next.stack[i]).key == root
                ||| is_child(shape, next.stack[i].key)
            } by {
                if i < rest.len() {
                    assert(next.stack[i] == walk.stack[i]);
                } else {
                    let j = i - rest.len();
                    assert(next.stack[i] == handles[j]);
                    assert(shape[layout_key.0][j] == next.stack[i].key);
                }
            }
        },
    }
}

/// What one visit keeps, two visits keep.
pub proof fn lemma_walk_kept_transitive(first: LayoutWalk, second: LayoutWalk, third: LayoutWalk)
    requires
        walk_kept(first, second),
        walk_kept(second, third),
    ensures
        walk_kept(first, third),
{
    assert forall|key: SlotKey| #[trigger] first.layouts.contains_key(key) implies {
        &&& same_keys(third.layouts[key].children, first.layouts[key].children)
        &&& third.layouts[key].orientation == first.layouts[key].orientation
        &&& total_weight(third.layouts[key].children) == total_weight(
            first.layouts[key].children,
        )
    } by {
        assert(second.layouts.contains_key(key));
        assert(same_keys(second.layouts[key].children, first.layouts[key].children));
        assert(same_keys(third.layouts[key].children, second.layouts[key].children));
    }
}

/// The tab containers of an arena, each under its key.
pub open spec fn tabs_view(tabs: &Slotmap<TabsContainer>) -> Map<SlotKey, TabsView> {
    Map::new(|key: SlotKey| tabs.contains_key(key), |key: SlotKey| tabs.value_of(key)@)
}

/// Every tab container is well-formed.
pub open spec fn tabs_wf(tabs: Map<SlotKey, TabsView>) -> bool {
    forall|key: SlotKey| #[trigger] tabs.contains_key(key) ==> tabs[key].wf()
}

/// What handling an event leaves of the tab containers: which there are, and the leaf
/// containers behind the tabs of each.
pub open spec fn tabs_kept(before: Map<SlotKey, TabsView>, after: Map<SlotKey, TabsView>) -> bool {
    &&& after.dom() == before.dom()
    &&& forall|key: SlotKey| #[trigger]
        before.contains_key(key) ==> after[key].tabs == before[key].tabs
}

/// The state of the second part of a walk: the tab containers, the control state and the
/// event as they have been left so far, and the leaf containers resolved.
pub struct TabsWalk {
    pub tabs: Map<SlotKey, TabsView>,
    pub control: ControlStateView,
    pub event: EventView,
    pub resolved: Seq<GUIContainerInfo>,
}

/// One tab container handles the event in its rectangle and resolves to the leaf
/// container behind the tab that was active when the event arrived.
pub open spec fn tabs_walk_step(walk: TabsWalk, info: TabLayoutInfo) -> TabsWalk {
    let container = walk.tabs[info.key.0];
    let after = container.handled(walk.control, walk.event, info.container_info);
    TabsWalk {
        tabs: walk.tabs.insert(
            info.key.0,
            TabsView { tabs: container.tabs, active: after.active_tab },
        ),
        control: after.control,
        event: after.event,
        resolved: walk.resolved.push(container.resolved(info.container_info)),
    }
}

/// The first `count` of the tab containers found handle the event, in the order in which
/// they were found.
pub open spec fn tabs_walk(walk: TabsWalk, found: Seq<TabLayoutInfo>, count: int) -> TabsWalk
    decreases count,
{
    if count <= 0 {
        walk
    } else {
        tabs_walk_step(tabs_walk(walk, found, count - 1), found[count - 1])
    }
}

/// The leaf container behind every tab is in the arena of the leaf containers.
pub open spec fn tabs_reach_containers(
    tabs: Map<SlotKey, TabsView>,
    containers: &Slotmap<Box<dyn GUIContainer>>,
) -> bool {
    forall|key: SlotKey, i: int|
        tabs.contains_key(key) && 0 <= i < tabs[key].tabs.len() ==> containers.contains_key(
            (#[trigger] tabs[key].tabs[i]).0,
        )
}

/// Every child of a split that is a tab container is in the arena of the tab containers.
pub open spec fn layouts_reach_tabs(
    shape: Map<SlotKey, Seq<LayoutOrTabKey>>,
    tabs: Map<SlotKey, TabsView>,
) -> bool {
    forall|key: SlotKey, i: int|
        shape.contains_key(key) && 0 <= i < shape[key].len() ==> ((#[trigger] shape[key][i]) matches LayoutOrTabKey::TabKey(
            child,
        ) ==> tabs.contains_key(child.0))
}

/// The layout of every window is in the arena of the splits.
pub open spec fn windows_reach_layouts(
    windows: &Slotmap<UIWindow>,
    layouts: Map<SlotKey, LayoutView>,
) -> bool {
    forall|key: SlotKey| #[trigger]
        windows.contains_key(key) ==> layouts.contains_key(windows.value_of(key).layout_key.0)
}

/// The arenas fit together: every key that one of them holds finds its value in the
/// arena that it points into, every value is well-formed, the splits are in order and
/// alternate in orientation, and there are no more windows than depth slices.
pub open spec fn system_wf(
    containers: &Slotmap<Box<dyn GUIContainer>>,
    tabs: &Slotmap<TabsContainer>,
    layouts: &Slotmap<LayoutElement>,
    windows: &Slotmap<UIWindow>,
    order: Seq<WindowSlotKey>,
) -> bool {
    &&& containers.wf()
    &&& tabs.wf()
    &&& layouts.wf()
    &&& layouts.vacant().len() == 0
    &&& windows.wf()
    &&& layouts_wf(layouts_view(layouts))
    &&& shape_ordered(layouts_shape(layouts_view(layouts)))
    &&& orientations_alternate(layouts_view(layouts))
    &&& tabs_wf(tabs_view(tabs))
    &&& tabs_reach_containers(tabs_view(tabs), containers)
    &&& layouts_reach_tabs(layouts_shape(layouts_view(layouts)), tabs_view(tabs))
    &&& windows_reach_layouts(windows, layouts_view(layouts))
    &&& order.len() <= MAX_WINDOWS
}

/// The split under `key` is well-formed, each of its children is in its arena, and each
/// child that is a split came into the arena before it and has the other orientation.
pub open spec fn layout_fits(
    layouts: &Slotmap<LayoutElement>,
    tabs: &Slotmap<TabsContainer>,
    key: SlotKey,
) -> bool {
    let node = layouts.value_of(key)@;
    &&& node.wf()
    &&& forall|i: int| 0 <= i < node.children.len() ==> child_fits(layouts, tabs, key, i)
}

/// Child `i` of the split under `key` is in its arena; if it is a split, it came into the
/// arena before its parent and has the other orientation.
pub open spec fn child_fits(
    layouts: &Slotmap<LayoutElement>,
    tabs: &Slotmap<TabsContainer>,
    key: SlotKey,
    i: int,
) -> bool {
    let node = layouts.value_of(key)@;
    match node.children[i].layout_or_tab_key {
        LayoutOrTabKey::LayoutKey(child) => {
            &&& layouts.contains_key(child.0)
            &&& child.0.index < key.index
            &&& layouts.value_of(child.0)@.orientation != node.orientation
        },
        LayoutOrTabKey::TabKey(child) => tabs.contains_key(child.0),
    }
}

/// The tab container under `key` is well-formed, and the leaf container behind each of
/// its tabs is in its arena.
pub open spec fn tabs_fit(
    tabs: &Slotmap<TabsContainer>,
    containers: &Slotmap<Box<dyn GUIContainer>>,
    key: SlotKey,
) -> bool {
    let container = tabs.value_of(key)@;
    &&& container.wf()
    &&& forall|i: int|
        0 <= i < container.tabs.len() ==> containers.contains_key((#[trigger] container.tabs[i]).0)
}

/// The arenas fit together exactly if each of their values fits.
pub proof fn lemma_system_wf_by_values(
    containers: &Slotmap<Box<dyn GUIContainer>>,
    tabs: &Slotmap<TabsContainer>,
    layouts: &Slotmap<LayoutElement>,
    windows: &Slotmap<UIWindow>,
    order: Seq<WindowSlotKey>,
)
    requires
        containers.wf(),
        tabs.wf(),
        layouts.wf(),
        windows.wf(),
    ensures
        system_wf(containers, tabs, layouts, windows, order) <==> {
            &&& layouts.vacant().len() == 0
            &&& order.len() <= MAX_WINDOWS
            &&& forall|key: SlotKey| #[trigger]
                layouts.contains_key(key) ==> layout_fits(layouts, tabs, key)
            &&& forall|key: SlotKey| #[trigger]
                tabs.contains_key(key) ==> tabs_fit(tabs, containers, key)
            &&& forall|key: SlotKey| #[trigger]
                windows.contains_key(key) ==> layouts.contains_key(
                    windows.value_of(key).layout_key.0,
                )
        },
{
    let view = layouts_view(layouts);
    let shape = layouts_shape(view);
    let tab_view = tabs_view(tabs);
    if system_wf(containers, tabs, layouts, windows, order) {
        assert forall|key: SlotKey| #[trigger] layouts.contains_key(key) implies layout_fits(
            layouts,
            tabs,
            key,
        ) by {
            assert(view.contains_key(key));
            let node = view[key];
            assert forall|i: int| 0 <= i < node.children.len() implies child_fits(
                layouts,
                tabs,
                key,
                i,
            ) by {
                assert(shape.contains_key(key));
                assert(shape[key][i] == node.children[i].layout_or_tab_key);
                match node.children[i].layout_or_tab_key {
                    LayoutOrTabKey::LayoutKey(child) => {
                        assert(shape.contains_key(child.0));
                        assert(view.contains_key(child.0));
                    },
                    LayoutOrTabKey::TabKey(child) => {
                        assert(tab_view.contains_key(child.0));
                    },
                }
            }
        }
        assert forall|key: SlotKey| #[trigger] tabs.contains_key(key) implies tabs_fit(
            tabs,
            containers,
            key,
        ) by {
            assert(tab_view.contains_key(key));
        }
        assert forall|key: SlotKey| #[trigger] windows.contains_key(key) implies layouts.contains_key(
            windows.value_of(key).layout_key.0,
        ) by {
            assert(view.contains_key(windows.value_of(key).layout_key.0));
        }
    }
    if {
        &&& layouts.vacant().len() == 0
        &&& order.len() <= MAX_WINDOWS
        &&& forall|key: SlotKey| #[trigger]
            layouts.contains_key(key) ==> layout_fits(layouts, tabs, key)
        &&& forall|key: SlotKey| #[trigger]
            tabs.contains_key(key) ==> tabs_fit(tabs, containers, key)
        &&& forall|key: SlotKey| #[trigger]
            windows.contains_key(key) ==> layouts.contains_key(windows.value_of(key).layout_key.0)
    } {
        assert forall|key: SlotKey| #[trigger] view.contains_key(key) implies view[key].wf()
            && view[key].children.len() <= usize::MAX by {
            assert(layouts.contains_key(key));
            assert(layout_fits(layouts, tabs, key));
            layouts.value_of(key).lemma_children_bounded();
        }
        assert forall|key: SlotKey, i: int|
            shape.contains_key(key) && 0 <= i < shape[key].len() implies ((
        #[trigger] shape[key][i]) matches LayoutOrTabKey::LayoutKey(child) ==> shape.contains_key(
            child.0,
        ) && child.0.index < key.index) by {
            assert(layouts.contains_key(key));
            assert(layout_fits(layouts, tabs, key));
            assert(child_fits(layouts, tabs, key, i));
        }
        assert forall|key: SlotKey, i: int|
            view.contains_key(key) && 0 <= i < view[key].children.len() implies ((
        #[trigger] view[key].children[i]).layout_or_tab_key matches LayoutOrTabKey::LayoutKey(child)
            ==> view.contains_key(child.0) ==> view[child.0].orientation
            != view[key].orientation) by {
            assert(layouts.contains_key(key));
            assert(layout_fits(layouts, tabs, key));
            assert(child_fits(layouts, tabs, key, i));
        }
        assert forall|key: SlotKey| #[trigger] tab_view.contains_key(key) implies tab_view[key].wf() by {
            assert(tabs.contains_key(key));
            assert(tabs_fit(tabs, containers, key));
        }
        assert forall|key: SlotKey, i: int|
            tab_view.contains_key(key) && 0 <= i < tab_view[key].tabs.len() implies containers.contains_key(
            (#[trigger] tab_view[key].tabs[i]).0,
        ) by {
            assert(tabs.contains_key(key));
            assert(tabs_fit(tabs, containers, key));
        }
        assert forall|key: SlotKey, i: int|
            shape.contains_key(key) && 0 <= i < shape[key].len() implies ((
        #[trigger] shape[key][i]) matches LayoutOrTabKey::TabKey(child) ==> tab_view.contains_key(
            child.0,
        )) by {
            assert(layouts.contains_key(key));
            assert(layout_fits(layouts, tabs, key));
            assert(child_fits(layouts, tabs, key, i));
        }
        assert forall|key: SlotKey| #[trigger] windows.contains_key(key) implies view.contains_key(
            windows.value_of(key).layout_key.0,
        ) by {}
    }
}

/// The layouts of the windows are as they were, and the same windows are there.
pub open spec fn windows_kept(before: &Slotmap<UIWindow>, after: &Slotmap<UIWindow>) -> bool {
    &&& after.same_keys(before)
    &&& forall|key: SlotKey| #[trigger]
        before.contains_key(key) ==> after.value_of(key).layout_key == before.value_of(
            key,
        ).layout_key
}

/// Handling events leaves the arenas fitting together: it changes no key that a value
/// holds, and it keeps every value well-formed.
pub proof fn lemma_system_wf_kept(
    containers: &Slotmap<Box<dyn GUIContainer>>,
    tabs: &Slotmap<TabsContainer>,
    layouts: &Slotmap<LayoutElement>,
    windows: &Slotmap<UIWindow>,
    containers_after: &Slotmap<Box<dyn GUIContainer>>,
    tabs_after: &Slotmap<TabsContainer>,
    layouts_after: &Slotmap<LayoutElement>,
    windows_after: &Slotmap<UIWindow>,
    order: Seq<WindowSlotKey>,
)
    requires
        system_wf(containers, tabs, layouts, windows, order),
        containers_after.wf(),
        containers_after.same_keys(containers),
        tabs_after.wf(),
        tabs_wf(tabs_view(tabs_after)),
        tabs_kept(tabs_view(tabs), tabs_view(tabs_after)),
        layouts_after.wf(),
        layouts_after.vacant() == layouts.vacant(),
        layouts_wf(layouts_view(layouts_after)),
        layouts_kept(layouts_view(layouts), layouts_view(layouts_after)),
        layouts_shape(layouts_view(layouts_after)) == layouts_shape(layouts_view(layouts)),
        windows_after.wf(),
        windows_kept(windows, windows_after),
    ensures
        system_wf(containers_after, tabs_after, layouts_after, windows_after, order),
{
    let before = layouts_view(layouts);
    let after = layouts_view(layouts_after);
    assert forall|key: SlotKey, i: int|
        after.contains_key(key) && 0 <= i < after[key].children.len() implies ((
    #[trigger] after[key].children[i]).layout_or_tab_key matches LayoutOrTabKey::LayoutKey(child)
        ==> after.contains_key(child.0) ==> after[child.0].orientation
        != after[key].orientation) by {
        assert(before.contains_key(key));
        assert(after[key].children[i].layout_or_tab_key
            == before[key].children[i].layout_or_tab_key);
        match after[key].children[i].layout_or_tab_key {
            LayoutOrTabKey::LayoutKey(child) => {
                if after.contains_key(child.0) {
                    assert(before.contains_key(child.0));
                }
            },
            _ => {},
        }
    }
    let tabs_before = tabs_view(tabs);
    let tabs_now = tabs_view(tabs_after);
    assert forall|key: SlotKey, i: int|
        tabs_now.contains_key(key) && 0 <= i < tabs_now[key].tabs.len() implies containers_after.contains_key(
        (#[trigger] tabs_now[key].tabs[i]).0,
    ) by {
        assert(tabs_before.contains_key(key));
        assert(containers.contains_key(tabs_before[key].tabs[i].0));
    }
    let shape = layouts_shape(before);
    assert forall|key: SlotKey, i: int|
        shape.contains_key(key) && 0 <= i < shape[key].len() implies ((
    #[trigger] shape[key][i]) matches LayoutOrTabKey::TabKey(child) ==> tabs_now.contains_key(
        child.0,
    )) by {
        match shape[key][i] {
            LayoutOrTabKey::TabKey(child) => {
                assert(tabs_before.contains_key(child.0));
            },
            _ => {},
        }
    }
    assert forall|key: SlotKey| #[trigger] windows_after.contains_key(key) implies after.contains_key(
        windows_after.value_of(key).layout_key.0,
    ) by {
        assert(windows.contains_key(key));
        assert(before.contains_key(windows.value_of(key).layout_key.0));
    }
}

} // verus!
