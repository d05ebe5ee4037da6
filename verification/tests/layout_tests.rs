use gui_system::control::ControlState;
use gui_system::control::SessionId;
use gui_system::control::State;
use gui_system::control::Uiid;
use gui_system::event::ElementState;
use gui_system::event::MouseButton;
use gui_system::event::MouseInput;
use gui_system::event::UIEvent;
use gui_system::geometry::Rect;
use gui_system::geometry::Vec2i;
use gui_system::render::DrawKind;
use gui_system::render::DrawRequest;
use gui_system::render::ExtraRenderSteps;
use gui_system::render::GUIRects;
use gui_system::slotmap::SlotKey;
use gui_system::slotmap::Slotmap;
use gui_system::window_layout::layout::active_divider::ActiveDivider;
use gui_system::window_layout::layout::active_divider::DivData;
use gui_system::window_layout::layout::active_divider::LayoutDragDivider;
use gui_system::window_layout::layout::compute_children_sizes;
use gui_system::window_layout::layout::greatest_weight;
use gui_system::window_layout::layout::least_weight;
use gui_system::window_layout::layout::sum_weights;
use gui_system::window_layout::layout::ChildrenInfo;
use gui_system::window_layout::layout::DividedElement;
use gui_system::window_layout::layout::LayoutElement;
use gui_system::window_layout::layout::Orientation;
use gui_system::window_layout::layout::Sign;
use gui_system::window_layout::tabs_container::TAB_SIZE;
use gui_system::window_layout::LayoutOrTabInfo;
use gui_system::window_layout::LayoutOrTabKey;
use gui_system::window_layout::LayoutSlotKey;
use gui_system::window_layout::TabsSlotKey;
use gui_system::ContainerInfo;

fn tab_key(index: usize) -> TabsSlotKey {
    TabsSlotKey(SlotKey { index, generation: 0 })
}

fn tab(index: usize, weight: u32) -> DividedElement {
    DividedElement::new_tab(tab_key(index), weight)
}

fn container(x: i32, y: i32, w: i32, h: i32) -> ContainerInfo {
    ContainerInfo { rect: Rect::new(Vec2i::new(x, y), Vec2i::new(w, h)), depth_range: (0, 14) }
}

fn pressed() -> UIEvent {
    UIEvent::MouseButton(MouseInput { button: MouseButton::Left, state: ElementState::Pressed })
}

fn released() -> UIEvent {
    UIEvent::MouseButton(MouseInput { button: MouseButton::Left, state: ElementState::Released })
}

fn moved(x: i32, y: i32) -> UIEvent {
    UIEvent::MouseMove { raw: Vec2i::new(x, y), corrected: Vec2i::new(x, y) }
}

/// One frame over one split, as the orchestrator would bracket it.
fn frame(
    node: &mut LayoutElement,
    state: &mut ControlState,
    event: &mut UIEvent,
    info: ContainerInfo,
    session: SessionId,
) -> Vec<LayoutOrTabInfo> {
    state.on_gui_start();
    if let UIEvent::MouseMove { corrected, .. } = event {
        state.set_cursor_position(Some(*corrected));
    }
    let handles = node.handle_event_with_session(event, info, state, session);
    state.on_gui_end();
    if let UIEvent::CursorExit = event {
        state.on_cursor_exit();
    }
    if let UIEvent::Update = event {
        state.on_after_update();
    }
    handles
}

fn horizontal(children: Vec<DividedElement>) -> LayoutElement {
    let mut node =
        LayoutElement::Horizontal { children: Vec::new(), active_divider: None };
    node.push_children(children);
    node
}

fn vertical(children: Vec<DividedElement>) -> LayoutElement {
    let mut node = LayoutElement::Vertical { children: Vec::new(), active_divider: None };
    node.push_children(children);
    node
}

fn weights(node: &LayoutElement) -> Vec<u32> {
    node.get_children().iter().map(|child| child.size).collect()
}

/// Brings the cursor over the divider at `cursor` and lets the press begin a drag.
fn begin_drag(
    node: &mut LayoutElement,
    state: &mut ControlState,
    info: ContainerInfo,
    cursor: (i32, i32),
    session: SessionId,
) {
    frame(node, state, &mut moved(cursor.0, cursor.1), info, SessionId::nil());
    frame(node, state, &mut UIEvent::Update, info, SessionId::nil());
    frame(node, state, &mut UIEvent::Update, info, SessionId::nil());
    frame(node, state, &mut pressed(), info, session);
}

#[test]
fn horizontal_panes_share_the_width() {
    let children = vec![tab(0, 1000), tab(1, 1000)];
    let (panes, gaps) = compute_children_sizes(&children, -100, 200, Sign::Positive);
    assert_eq!(
        panes,
        vec![
            ChildrenInfo { key: LayoutOrTabKey::TabKey(tab_key(0)), size: 99, position: -51 },
            ChildrenInfo { key: LayoutOrTabKey::TabKey(tab_key(1)), size: 99, position: 50 },
        ]
    );
    assert_eq!(gaps, vec![0]);
}

#[test]
fn vertical_panes_run_down_from_the_top() {
    let children = vec![tab(0, 1), tab(1, 2)];
    let (panes, gaps) = compute_children_sizes(&children, 50, 100, Sign::Negative);
    assert_eq!(panes[0].size, 33);
    assert_eq!(panes[0].position, 33);
    assert_eq!(panes[1].size, 65);
    assert_eq!(panes[1].position, -18);
    assert_eq!(gaps, vec![16]);
}

#[test]
fn three_panes_in_proportion() {
    let children = vec![tab(0, 1500), tab(1, 1000), tab(2, 2000)];
    assert_eq!(sum_weights(&children), 4500);
    let (panes, gaps) = compute_children_sizes(&children, 0, 904, Sign::Positive);
    let sizes: Vec<i32> = panes.iter().map(|p| p.size).collect();
    assert_eq!(sizes, vec![300, 200, 400]);
    let centers: Vec<i32> = panes.iter().map(|p| p.position).collect();
    assert_eq!(centers, vec![150, 402, 704]);
    assert_eq!(gaps, vec![301, 503]);
}

#[test]
fn pane_edges_are_rounded_to_the_nearest_pixel() {
    let children = vec![tab(0, 1), tab(1, 1), tab(2, 1)];
    let (panes, _) = compute_children_sizes(&children, 0, 12, Sign::Positive);
    let sizes: Vec<i32> = panes.iter().map(|p| p.size).collect();
    assert_eq!(sizes, vec![3, 2, 3]);
    let children = vec![tab(0, 1), tab(1, 3)];
    let (panes, _) = compute_children_sizes(&children, 0, 12, Sign::Positive);
    let sizes: Vec<i32> = panes.iter().map(|p| p.size).collect();
    assert_eq!(sizes, vec![3, 7]);
}

#[test]
fn degenerate_layouts_are_clamped() {
    let none: Vec<DividedElement> = Vec::new();
    let (panes, gaps) = compute_children_sizes(&none, 7, 100, Sign::Positive);
    assert!(panes.is_empty());
    assert!(gaps.is_empty());

    let weightless = vec![tab(0, 0), tab(1, 0)];
    let (panes, gaps) = compute_children_sizes(&weightless, 0, 100, Sign::Positive);
    assert_eq!(panes[0].size, 0);
    assert_eq!(panes[1].size, 0);
    assert_eq!(panes[1].position, 2);
    assert_eq!(gaps, vec![1]);

    let cramped = vec![tab(0, 1), tab(1, 1), tab(2, 1)];
    let (panes, gaps) = compute_children_sizes(&cramped, 10, 1, Sign::Positive);
    let sizes: Vec<i32> = panes.iter().map(|p| p.size).collect();
    assert_eq!(sizes, vec![0, 0, 0]);
    let centers: Vec<i32> = panes.iter().map(|p| p.position).collect();
    assert_eq!(centers, vec![10, 12, 14]);
    assert_eq!(gaps, vec![11, 13]);

    let single = vec![tab(0, 5)];
    let (panes, gaps) = compute_children_sizes(&single, 0, 40, Sign::Positive);
    assert_eq!(panes[0].size, 40);
    assert_eq!(panes[0].position, 20);
    assert!(gaps.is_empty());
}

#[test]
fn centers_saturate() {
    let children = vec![tab(0, 1), tab(1, 1)];
    let (panes, gaps) =
        compute_children_sizes(&children, i32::MAX as i64, i32::MAX, Sign::Positive);
    assert_eq!(panes[0].size, 1_073_741_823);
    assert_eq!(panes[0].position, i32::MAX);
    assert_eq!(panes[1].position, i32::MAX);
    assert_eq!(gaps, vec![i32::MAX]);
}

#[test]
fn sign_as_a_factor() {
    assert_eq!(Sign::Positive.as_i32(), 1);
    assert_eq!(Sign::Negative.as_i32(), -1);
    assert_eq!(Orientation::Horizontal.coordinate(Vec2i::new(3, 4)), 3);
    assert_eq!(Orientation::Vertical.coordinate(Vec2i::new(3, 4)), 4);
}

#[test]
fn split_hands_on_the_rectangles_of_its_children() {
    let mut node = horizontal(vec![tab(0, 1000), tab(1, 1000)]);
    let mut state = ControlState::new();
    let info = container(0, 0, 200, 100);
    let handles = frame(&mut node, &mut state, &mut UIEvent::Update, info, SessionId::nil());
    assert_eq!(
        handles,
        vec![
            LayoutOrTabInfo {
                key: LayoutOrTabKey::TabKey(tab_key(0)),
                container_info: container(-51, 0, 99, 100),
            },
            LayoutOrTabInfo {
                key: LayoutOrTabKey::TabKey(tab_key(1)),
                container_info: container(50, 0, 99, 100),
            },
        ]
    );

    let mut node = vertical(vec![tab(0, 1), tab(1, 2)]);
    let info = ContainerInfo {
        rect: Rect::new(Vec2i::new(5, 0), Vec2i::new(40, 100)),
        depth_range: (15, 29),
    };
    let handles = frame(&mut node, &mut state, &mut UIEvent::Update, info, SessionId::nil());
    assert_eq!(handles[0].container_info.rect, Rect::new(Vec2i::new(5, 33), Vec2i::new(40, 33)));
    assert_eq!(handles[1].container_info.rect, Rect::new(Vec2i::new(5, -18), Vec2i::new(40, 65)));
    assert_eq!(handles[0].container_info.depth_range, (15, 29));
    assert_eq!(handles[1].container_info.depth_range, (15, 29));
}

#[test]
fn every_divider_takes_one_identity_at_its_depth() {
    let mut node = horizontal(vec![tab(0, 1), tab(1, 1), tab(2, 1), tab(3, 1)]);
    let mut state = ControlState::new();
    state.on_gui_start();
    let info = ContainerInfo {
        rect: Rect::new(Vec2i::new(0, 0), Vec2i::new(400, 100)),
        depth_range: (30, 44),
    };
    let _ = node.handle_event_with_session(&mut UIEvent::Update, info, &mut state, SessionId::nil());
    assert_eq!(state.get_id(), Uiid { id: 4, depth: 0 });
    assert_eq!(state.depth_stack.len(), 0);
}

#[test]
fn divider_under_the_cursor_becomes_hovered_at_divider_depth() {
    let mut node = horizontal(vec![tab(0, 1000), tab(1, 1000)]);
    let mut state = ControlState::new();
    let info = container(0, 0, 200, 100);
    frame(&mut node, &mut state, &mut moved(3, -49), info, SessionId::nil());
    frame(&mut node, &mut state, &mut UIEvent::Update, info, SessionId::nil());
    assert_eq!(state.hovered, Some(Uiid { id: 1, depth: 2 }));
    frame(&mut node, &mut state, &mut moved(4, 0), info, SessionId::nil());
    frame(&mut node, &mut state, &mut UIEvent::Update, info, SessionId::nil());
    assert_eq!(state.hovered, None);
}

#[test]
fn press_on_a_hovered_divider_begins_a_drag() {
    let mut node = horizontal(vec![tab(0, 1000), tab(1, 1000)]);
    let mut state = ControlState::new();
    let info = container(0, 0, 200, 100);
    let session = SessionId::from_u128(42);
    begin_drag(&mut node, &mut state, info, (0, 0), session);
    assert_eq!(state.active_session(), session);
    assert_eq!(state.hovered, None);
    assert_eq!(
        node.get_active_divider(),
        Some(ActiveDivider {
            active_id: session,
            index: 0,
            drag_divider: LayoutDragDivider {
                div_data: [
                    DivData { div_size: 1000, div_px_size: 99 },
                    DivData { div_size: 1000, div_px_size: 99 },
                ],
                start_cursor_position: 0,
                current_cursor_position: 0,
            },
        })
    );
}

#[test]
fn press_elsewhere_begins_no_drag() {
    let mut node = horizontal(vec![tab(0, 1000), tab(1, 1000)]);
    let mut state = ControlState::new();
    let info = container(0, 0, 200, 100);
    begin_drag(&mut node, &mut state, info, (40, 0), SessionId::from_u128(42));
    assert!(state.active_session().is_nil());
    assert_eq!(node.get_active_divider(), None);
}

#[test]
fn press_without_a_known_cursor_begins_no_drag() {
    let mut node = horizontal(vec![tab(0, 1000), tab(1, 1000)]);
    let mut state = ControlState::new();
    let info = container(0, 0, 200, 100);
    frame(&mut node, &mut state, &mut moved(0, 0), info, SessionId::nil());
    frame(&mut node, &mut state, &mut UIEvent::Update, info, SessionId::nil());
    assert_eq!(state.hovered, Some(Uiid { id: 1, depth: 2 }));
    state.set_cursor_position(None);
    frame(&mut node, &mut state, &mut pressed(), info, SessionId::from_u128(42));
    assert!(state.active_session().is_nil());
    assert_eq!(node.get_active_divider(), None);
}

#[test]
fn round_trip_resize_restores_the_weights() {
    let mut node = horizontal(vec![tab(0, 1000), tab(1, 1000)]);
    let mut state = ControlState::new();
    let info = container(0, 0, 200, 100);
    begin_drag(&mut node, &mut state, info, (0, 0), SessionId::from_u128(1));
    frame(&mut node, &mut state, &mut moved(-49, 0), info, SessionId::nil());
    assert_eq!(weights(&node), vec![505, 1495]);
    frame(&mut node, &mut state, &mut released(), info, SessionId::nil());
    assert_eq!(node.get_active_divider(), None);
    let handles = frame(&mut node, &mut state, &mut UIEvent::Update, info, SessionId::nil());
    assert_eq!(handles[0].container_info.rect.size.x, 50);
    assert_eq!(handles[1].container_info.rect.size.x, 148);
    assert!(state.active_session().is_nil());

    begin_drag(&mut node, &mut state, info, (-49, 0), SessionId::from_u128(2));
    assert_eq!(state.active_session(), SessionId::from_u128(2));
    frame(&mut node, &mut state, &mut moved(0, 0), info, SessionId::nil());
    assert_eq!(weights(&node), vec![1000, 1000]);
    frame(&mut node, &mut state, &mut released(), info, SessionId::nil());
    let handles = frame(&mut node, &mut state, &mut UIEvent::Update, info, SessionId::nil());
    assert_eq!(handles[0].container_info.rect.size.x, 99);
    assert_eq!(handles[1].container_info.rect.size.x, 99);
}

#[test]
fn drags_keep_the_sum_of_the_weights() {
    let mut node = horizontal(vec![tab(0, 700), tab(1, 1300), tab(2, 450)]);
    let mut state = ControlState::new();
    let info = container(0, 0, 604, 100);
    let total: u128 = sum_weights(node.get_children());
    let (_, gaps) = compute_children_sizes(node.get_children(), -302, 604, Sign::Positive);
    begin_drag(&mut node, &mut state, info, (gaps[1], 0), SessionId::from_u128(1));
    assert_eq!(node.get_active_divider().map(|d| d.index), Some(1));
    for x in [-300, -37, 0, 15, 222, 301, 5000, -5000, 100] {
        frame(&mut node, &mut state, &mut moved(x, 0), info, SessionId::nil());
        frame(&mut node, &mut state, &mut UIEvent::Update, info, SessionId::nil());
        assert_eq!(sum_weights(node.get_children()), total);
        assert_eq!(weights(&node)[0], 700);
        let (panes, _) = compute_children_sizes(node.get_children(), -302, 604, Sign::Positive);
        assert!(panes[1].size >= TAB_SIZE - 1);
        assert!(panes[2].size >= TAB_SIZE - 1);
    }
}

#[test]
fn drag_leaves_each_pane_its_least_extent() {
    let drag = LayoutDragDivider::new(
        [DivData { div_size: 1000, div_px_size: 99 }, DivData { div_size: 1000, div_px_size: 99 }],
        0,
    );
    let mut left = drag;
    left.update_cursor_position(-500);
    assert_eq!(left.compute_new_division_sizes(Orientation::Horizontal), (303, 1697));
    let mut right = drag;
    right.update_cursor_position(500);
    assert_eq!(right.compute_new_division_sizes(Orientation::Horizontal), (1697, 303));
    let mut down = drag;
    down.update_cursor_position(-500);
    assert_eq!(down.compute_new_division_sizes(Orientation::Vertical), (1697, 303));
    let still = drag;
    assert_eq!(still.compute_new_division_sizes(Orientation::Horizontal), (1000, 1000));
}

#[test]
fn minimum_pane_size_is_kept() {
    let mut node = horizontal(vec![tab(0, 1000), tab(1, 1000)]);
    let mut state = ControlState::new();
    let info = container(0, 0, 2 * TAB_SIZE + 2, 100);
    let handles = frame(&mut node, &mut state, &mut UIEvent::Update, info, SessionId::nil());
    assert_eq!(handles[0].container_info.rect.size.x, TAB_SIZE);
    assert_eq!(handles[1].container_info.rect.size.x, TAB_SIZE);
    begin_drag(&mut node, &mut state, info, (0, 0), SessionId::from_u128(1));
    assert!(node.get_active_divider().is_some());
    for x in [-25, -1, 1, 25, -400, 400] {
        frame(&mut node, &mut state, &mut moved(x, 0), info, SessionId::nil());
        assert_eq!(weights(&node), vec![1000, 1000]);
        let handles = frame(&mut node, &mut state, &mut UIEvent::Update, info, SessionId::nil());
        assert_eq!(handles[0].container_info.rect.size.x, TAB_SIZE);
        assert_eq!(handles[1].container_info.rect.size.x, TAB_SIZE);
    }
}

#[test]
fn drag_with_little_weight_keeps_both_panes_positive() {
    let drag = LayoutDragDivider::new(
        [DivData { div_size: 1, div_px_size: 300 }, DivData { div_size: 1, div_px_size: 300 }],
        0,
    );
    let mut moved_far = drag;
    moved_far.update_cursor_position(-1000);
    assert_eq!(moved_far.compute_new_division_sizes(Orientation::Horizontal), (1, 1));
    let heavy = LayoutDragDivider::new(
        [
            DivData { div_size: u32::MAX, div_px_size: 300 },
            DivData { div_size: u32::MAX, div_px_size: 300 },
        ],
        0,
    );
    let mut pushed = heavy;
    pushed.update_cursor_position(1000);
    assert_eq!(pushed.compute_new_division_sizes(Orientation::Horizontal), (u32::MAX, u32::MAX));
    let lone = LayoutDragDivider::new(
        [DivData { div_size: 1, div_px_size: 300 }, DivData { div_size: 0, div_px_size: 300 }],
        0,
    );
    let mut pulled = lone;
    pulled.update_cursor_position(-100);
    assert_eq!(pulled.compute_new_division_sizes(Orientation::Horizontal), (1, 0));
    let flat = LayoutDragDivider::new(
        [DivData { div_size: 5, div_px_size: 0 }, DivData { div_size: 7, div_px_size: 0 }],
        0,
    );
    assert_eq!(flat.compute_new_division_sizes(Orientation::Horizontal), (5, 7));
}

#[test]
fn dragged_divider_holds_its_session() {
    let mut node = horizontal(vec![tab(0, 1000), tab(1, 1000)]);
    let mut state = ControlState::new();
    let info = container(0, 0, 200, 100);
    let session = SessionId::from_u128(9);
    begin_drag(&mut node, &mut state, info, (0, 0), session);
    for _ in 0..3 {
        frame(&mut node, &mut state, &mut UIEvent::Update, info, SessionId::nil());
        assert_eq!(state.active_session(), session);
    }
    frame(&mut node, &mut state, &mut released(), info, SessionId::nil());
    assert_eq!(state.active_session(), session);
    frame(&mut node, &mut state, &mut UIEvent::Update, info, SessionId::nil());
    assert!(state.active_session().is_nil());
}

#[test]
fn cursor_exit_clears_the_drag() {
    let mut node = horizontal(vec![tab(0, 1000), tab(1, 1000)]);
    let mut state = ControlState::new();
    let info = container(0, 0, 200, 100);
    begin_drag(&mut node, &mut state, info, (0, 0), SessionId::from_u128(9));
    assert!(node.get_active_divider().is_some());
    frame(&mut node, &mut state, &mut UIEvent::CursorExit, info, SessionId::nil());
    assert!(state.active_session().is_nil());
    assert_eq!(node.get_active_divider(), None);
    frame(&mut node, &mut state, &mut moved(-30, 0), info, SessionId::nil());
    assert_eq!(weights(&node), vec![1000, 1000]);
}

#[test]
fn hovered_and_dragged_dividers_queue_their_highlight() {
    let mut node = horizontal(vec![tab(0, 1000), tab(1, 1000)]);
    let mut state = ControlState::new();
    let info = ContainerInfo {
        rect: Rect::new(Vec2i::new(0, 0), Vec2i::new(200, 100)),
        depth_range: (15, 29),
    };
    let strip = Rect::new(Vec2i::new(0, 0), Vec2i::new(8, 100));

    let mut render =
        UIEvent::Render { gui_rects: GUIRects::new(), extra_render_steps: ExtraRenderSteps::new(4) };
    frame(&mut node, &mut state, &mut render, info, SessionId::nil());
    match render {
        UIEvent::Render { gui_rects, extra_render_steps } => {
            assert_eq!(gui_rects.rect_collection.len(), 0);
            assert_eq!(extra_render_steps.len(), 0);
        }
        _ => panic!("a render event stays a render event"),
    }

    frame(&mut node, &mut state, &mut moved(0, 0), info, SessionId::nil());
    frame(&mut node, &mut state, &mut UIEvent::Update, info, SessionId::nil());
    assert_eq!(state.hovered, Some(Uiid { id: 1, depth: 17 }));
    let mut render =
        UIEvent::Render { gui_rects: GUIRects::new(), extra_render_steps: ExtraRenderSteps::new(4) };
    frame(&mut node, &mut state, &mut render, info, SessionId::nil());
    match render {
        UIEvent::Render { mut gui_rects, mut extra_render_steps } => {
            assert_eq!(gui_rects.rect_collection.len(), 0);
            assert_eq!(extra_render_steps.len(), 1);
            extra_render_steps.execute_render_steps(&mut gui_rects);
            assert_eq!(
                gui_rects.rect_collection,
                vec![DrawRequest { rect: strip, kind: DrawKind::DividerHovered, mask: None }]
            );
        }
        _ => panic!("a render event stays a render event"),
    }

    frame(&mut node, &mut state, &mut UIEvent::Update, info, SessionId::nil());
    frame(&mut node, &mut state, &mut pressed(), info, SessionId::from_u128(5));
    assert!(node.get_active_divider().is_some());
    let mut render =
        UIEvent::Render { gui_rects: GUIRects::new(), extra_render_steps: ExtraRenderSteps::new(4) };
    frame(&mut node, &mut state, &mut render, info, SessionId::nil());
    match render {
        UIEvent::Render { mut gui_rects, mut extra_render_steps } => {
            extra_render_steps.execute_render_steps(&mut gui_rects);
            assert_eq!(
                gui_rects.rect_collection,
                vec![DrawRequest { rect: strip, kind: DrawKind::DividerActive, mask: None }]
            );
        }
        _ => panic!("a render event stays a render event"),
    }
    assert_eq!(state.get_control_state(Uiid { id: 1, depth: 17 }.into()), State::Inactive);
}

#[test]
fn splits_want_two_children_of_the_other_orientation() {
    let mut arena = Slotmap::<LayoutElement>::with_capacity(4);
    assert_eq!(LayoutElement::create_horizontal(vec![], &mut arena), None);
    assert_eq!(LayoutElement::create_horizontal(vec![tab(0, 1)], &mut arena), None);
    assert_eq!(LayoutElement::create_vertical(vec![tab(0, 1)], &mut arena), None);
    let row = LayoutElement::create_horizontal(vec![tab(0, 1), tab(1, 2)], &mut arena)
        .expect("two tab containers side by side");
    assert_eq!(row, LayoutSlotKey(SlotKey { index: 0, generation: 0 }));
    assert_eq!(
        LayoutElement::create_horizontal(
            vec![tab(2, 1), DividedElement::new_layout(row, 1)],
            &mut arena
        ),
        None
    );
    let column = LayoutElement::create_vertical(
        vec![tab(2, 1), DividedElement::new_layout(row, 1)],
        &mut arena,
    )
    .expect("a row under a tab container");
    assert_eq!(column, LayoutSlotKey(SlotKey { index: 1, generation: 0 }));
    assert_eq!(
        LayoutElement::create_vertical(
            vec![DividedElement::new_layout(column, 1), tab(3, 1)],
            &mut arena
        ),
        None
    );
    let stored = arena.get_value(&column.0).expect("stored");
    assert_eq!(stored.get_orientation(), Orientation::Vertical);
    assert_eq!(stored.get_children().len(), 2);
    assert_eq!(stored.get_active_divider(), None);
    assert!(arena.get_value(&SlotKey { index: 2, generation: 0 }).is_none());
}

#[test]
fn validation_says_what_creation_does() {
    let mut arena = Slotmap::<LayoutElement>::with_capacity(4);
    let row = LayoutElement::create_horizontal(vec![tab(0, 1), tab(1, 2)], &mut arena)
        .expect("a row");
    let probe = LayoutElement::Horizontal { children: Vec::new(), active_divider: None };
    assert!(probe.validate_children(&vec![tab(0, 1), tab(1, 1)], &arena));
    assert!(!probe.validate_children(&vec![tab(0, 1)], &arena));
    assert!(!probe.validate_children(&vec![tab(0, 1), DividedElement::new_layout(row, 1)], &arena));
    let probe = LayoutElement::Vertical { children: Vec::new(), active_divider: None };
    assert!(probe.validate_children(&vec![tab(0, 1), DividedElement::new_layout(row, 1)], &arena));
    let key = LayoutElement::validate_and_create(
        probe,
        vec![DividedElement::new(LayoutOrTabKey::LayoutKey(row), 3), tab(5, 4)],
        &mut arena,
    )
    .expect("valid");
    let stored = arena.get_value(&key.0).expect("stored");
    assert_eq!(
        stored.get_children(),
        &vec![DividedElement::new_layout(row, 3), DividedElement::new_tab(tab_key(5), 4)]
    );
}

#[test]
fn keys_turn_into_children() {
    let from_tab: LayoutOrTabKey = tab_key(3).into();
    assert_eq!(from_tab, LayoutOrTabKey::TabKey(tab_key(3)));
    let layout = LayoutSlotKey(SlotKey { index: 1, generation: 2 });
    let from_layout: LayoutOrTabKey = layout.into();
    assert_eq!(from_layout, LayoutOrTabKey::LayoutKey(layout));
    let divider = ActiveDivider::new(
        SessionId::from_u128(3),
        2,
        [DivData { div_size: 1, div_px_size: 2 }, DivData { div_size: 3, div_px_size: 4 }],
        9,
    );
    assert_eq!(divider.index, 2);
    assert_eq!(divider.drag_divider.current_cursor_position, 9);
}

#[test]
fn coarse_weights_are_rounded_up_to_the_minimum() {
    let mut drag = LayoutDragDivider::new(
        [DivData { div_size: 8, div_px_size: 71 }, DivData { div_size: 9, div_px_size: 79 }],
        0,
    );
    drag.update_cursor_position(-41);
    assert_eq!(drag.compute_new_division_sizes(Orientation::Horizontal), (4, 13));
    drag.update_cursor_position(-4000);
    assert_eq!(drag.compute_new_division_sizes(Orientation::Horizontal), (4, 13));
    drag.update_cursor_position(4000);
    assert_eq!(drag.compute_new_division_sizes(Orientation::Horizontal), (13, 4));

    let mut fine = LayoutDragDivider::new(
        [
            DivData { div_size: 1000, div_px_size: 1550 },
            DivData { div_size: 1000, div_px_size: 1550 },
        ],
        0,
    );
    fine.update_cursor_position(-4000);
    assert_eq!(fine.compute_new_division_sizes(Orientation::Horizontal), (20, 1980));
}

#[test]
fn drag_never_leaves_a_pane_under_the_minimum_in_the_next_layout() {
    for (weights, width) in [
        (vec![8u32, 9], 152),
        (vec![1000, 1000], 3102),
        (vec![3, 5, 4], 400),
        (vec![1, 1, 1, 1], 500),
        (vec![700, 1300, 450], 604),
        (vec![2, 3], 62),
    ] {
        for divider in 0..weights.len() - 1 {
            for target in [-5000, -41, -1, 0, 1, 37, 5000] {
                let children: Vec<DividedElement> =
                    weights.iter().enumerate().map(|(i, w)| tab(i, *w)).collect();
                let mut node = horizontal(children);
                let mut state = ControlState::new();
                let info = container(0, 0, width, 100);
                let left = -(width as i64) / 2;
                let (before, gaps) =
                    compute_children_sizes(node.get_children(), left, width, Sign::Positive);
                begin_drag(&mut node, &mut state, info, (gaps[divider], 0), SessionId::from_u128(1));
                assert_eq!(node.get_active_divider().map(|d| d.index), Some(divider));
                frame(&mut node, &mut state, &mut moved(gaps[divider] + target, 0), info, SessionId::nil());
                let (after, _) =
                    compute_children_sizes(node.get_children(), left, width, Sign::Positive);
                let total: u32 = weights.iter().sum();
                assert_eq!(sum_weights(node.get_children()), total as u128);
                for pane in 0..weights.len() {
                    if pane == divider || pane == divider + 1 {
                        if before[divider].size >= TAB_SIZE && before[divider + 1].size >= TAB_SIZE {
                            assert!(after[pane].size >= TAB_SIZE);
                        }
                    } else {
                        assert_eq!(after[pane].size, before[pane].size);
                    }
                }
                assert_eq!(
                    after[divider].size + after[divider + 1].size,
                    before[divider].size + before[divider + 1].size
                );
            }
        }
    }
}

#[test]
fn coarse_split_keeps_the_minimum() {
    let mut node = horizontal(vec![tab(0, 8), tab(1, 9)]);
    let mut state = ControlState::new();
    let info = container(0, 0, 152, 100);
    let handles = frame(&mut node, &mut state, &mut UIEvent::Update, info, SessionId::nil());
    assert_eq!(handles[0].container_info.rect.size.x, 71);
    assert_eq!(handles[1].container_info.rect.size.x, 79);
    begin_drag(&mut node, &mut state, info, (-4, 0), SessionId::from_u128(1));
    assert!(node.get_active_divider().is_some());
    frame(&mut node, &mut state, &mut moved(-45, 0), info, SessionId::nil());
    assert_eq!(weights(&node), vec![4, 13]);
    let handles = frame(&mut node, &mut state, &mut UIEvent::Update, info, SessionId::nil());
    assert_eq!(handles[0].container_info.rect.size.x, 35);
    assert_eq!(handles[1].container_info.rect.size.x, 115);
}

#[test]
fn panes_and_gaps_fill_the_container() {
    for (weights, width) in [
        (vec![1u32, 1], 201),
        (vec![1, 1, 1], 12),
        (vec![1, 2, 3, 4, 5], 1003),
        (vec![7, 1, 1, 1, 90], 333),
        (vec![5], 40),
    ] {
        let children: Vec<DividedElement> =
            weights.iter().enumerate().map(|(i, w)| tab(i, *w)).collect();
        let (panes, gaps) = compute_children_sizes(&children, 10, width, Sign::Positive);
        let extents: i32 = panes.iter().map(|pane| pane.size).sum();
        assert_eq!(extents + 2 * gaps.len() as i32, width);
        assert!(panes.iter().all(|pane| pane.size >= 0));
        let (down, _) = compute_children_sizes(&children, 10, width, Sign::Negative);
        let sizes: Vec<i32> = panes.iter().map(|pane| pane.size).collect();
        let sizes_down: Vec<i32> = down.iter().map(|pane| pane.size).collect();
        assert_eq!(sizes, sizes_down);
    }
    let pair = vec![tab(0, 1), tab(1, 1)];
    let (panes, gaps) = compute_children_sizes(&pair, -100, 201, Sign::Positive);
    assert_eq!(panes[0].size, 100);
    assert_eq!(panes[1].size, 99);
    assert_eq!(panes[0].position, -50);
    assert_eq!(panes[1].position, 51);
    assert_eq!(gaps, vec![1]);
}

#[test]
fn drag_back_restores_the_weight_of_the_pixels() {
    let first = LayoutDragDivider::new(
        [DivData { div_size: 1001, div_px_size: 99 }, DivData { div_size: 999, div_px_size: 99 }],
        10,
    );
    let mut there = first;
    there.update_cursor_position(10 - 49);
    let given = there.compute_new_division_sizes(Orientation::Horizontal);
    assert_eq!(given, (505, 1495));
    let children = vec![tab(0, given.0), tab(1, given.1)];
    let (panes, _) = compute_children_sizes(&children, 0, 200, Sign::Positive);
    let extents: Vec<i32> = panes.iter().map(|pane| pane.size).collect();
    assert_eq!(extents, vec![50, 148]);
    let second = LayoutDragDivider::new(
        [
            DivData { div_size: given.0, div_px_size: extents[0] },
            DivData { div_size: given.1, div_px_size: extents[1] },
        ],
        -39,
    );
    let mut back = second;
    back.update_cursor_position(-39 + 49);
    assert_eq!(back.compute_new_division_sizes(Orientation::Horizontal), (1000, 1000));
    let even = LayoutDragDivider::new(
        [DivData { div_size: 1000, div_px_size: 99 }, DivData { div_size: 1000, div_px_size: 99 }],
        0,
    );
    let mut there = even;
    there.update_cursor_position(-49);
    assert_eq!(there.compute_new_division_sizes(Orientation::Horizontal), (505, 1495));
}

#[test]
fn least_and_greatest_weight_for_an_extent() {
    assert_eq!(least_weight(150, 17, 30), 4);
    assert_eq!(greatest_weight(150, 17, 120), 13);
    assert_eq!(least_weight(198, 2000, 30), 298);
    assert_eq!(greatest_weight(198, 2000, 168), 1702);
    assert_eq!(least_weight(3100, 2000, 30), 20);
    assert_eq!(least_weight(10, 10, 1), 1);
    assert_eq!(greatest_weight(10, 10, 9), 9);
}
