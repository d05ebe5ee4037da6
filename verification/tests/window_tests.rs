use gui_system::control::drag_element::DragElement;
use gui_system::control::main_window_top_bar::main_window_top_bar;
use gui_system::control::ControlState;
use gui_system::control::SessionId;
use gui_system::control::State;
use gui_system::control::Uiid;
use gui_system::event::ElementState;
use gui_system::event::MouseButton;
use gui_system::event::MouseInput;
use gui_system::event::UIEvent;
use gui_system::geometry::Rect;
use gui_system::geometry::Vec2i;
use gui_system::public_data::update_screen_size;
use gui_system::public_data::update_window_position;
use gui_system::public_data::PublicData;
use gui_system::public_data::WindowCommand;
use gui_system::render::DrawKind;
use gui_system::render::DrawRequest;
use gui_system::render::ExtraRenderSteps;
use gui_system::render::GUIRects;
use gui_system::slotmap::SlotKey;
use gui_system::window_layout::window::resize_controls;
use gui_system::window_layout::window::ResizeDrag;
use gui_system::window_layout::window::UIWindow;
use gui_system::window_layout::LayoutOrTabInfo;
use gui_system::window_layout::LayoutOrTabKey;
use gui_system::window_layout::LayoutSlotKey;
use gui_system::ContainerInfo;

fn layout_key() -> LayoutSlotKey {
    LayoutSlotKey(SlotKey { index: 3, generation: 1 })
}

fn rect(x: i32, y: i32, w: i32, h: i32) -> Rect {
    Rect::new(Vec2i::new(x, y), Vec2i::new(w, h))
}

fn pressed() -> UIEvent {
    UIEvent::MouseButton(MouseInput { button: MouseButton::Left, state: ElementState::Pressed })
}

fn released() -> UIEvent {
    UIEvent::MouseButton(MouseInput { button: MouseButton::Left, state: ElementState::Released })
}

fn moved(raw: (i32, i32), corrected: (i32, i32)) -> UIEvent {
    UIEvent::MouseMove {
        raw: Vec2i::new(raw.0, raw.1),
        corrected: Vec2i::new(corrected.0, corrected.1),
    }
}

fn window() -> UIWindow {
    UIWindow::new_with_contianer(layout_key(), Vec2i::new(800, 600), Vec2i::new(400, 300))
}

fn host() -> PublicData {
    let mut data = PublicData::new();
    update_screen_size(&mut data, Vec2i::new(800, 600));
    update_window_position(&mut data, Vec2i::new(50, 60));
    data
}

fn frame(
    window: &mut UIWindow,
    state: &mut ControlState,
    data: &mut PublicData,
    event: &mut UIEvent,
    session: SessionId,
) -> LayoutOrTabInfo {
    state.on_gui_start();
    if let UIEvent::MouseMove { corrected, .. } = event {
        state.set_cursor_position(Some(*corrected));
    }
    let root = window.handle_event(event, data, state, (15, 29), session);
    state.on_gui_end();
    if let UIEvent::Update = event {
        state.on_after_update();
    }
    root
}

#[test]
fn window_hands_on_its_interior() {
    let mut window = window();
    let mut state = ControlState::new();
    let mut data = host();
    let root = frame(&mut window, &mut state, &mut data, &mut UIEvent::Update, SessionId::nil());
    assert_eq!(
        root,
        LayoutOrTabInfo {
            key: LayoutOrTabKey::LayoutKey(layout_key()),
            container_info: ContainerInfo { rect: rect(400, 290, 790, 570), depth_range: (15, 29) },
        }
    );
}

#[test]
fn window_takes_two_identities() {
    let mut window = window();
    let mut state = ControlState::new();
    let mut data = host();
    state.on_gui_start();
    let _ = window.handle_event(&mut UIEvent::Update, &mut data, &mut state, (15, 29), SessionId::nil());
    assert_eq!(state.get_id(), Uiid { id: 3, depth: 0 });
    assert_eq!(state.depth_stack.len(), 0);
}

#[test]
fn title_bar_drags_the_window() {
    let mut window = window();
    let mut state = ControlState::new();
    let mut data = host();
    let session = SessionId::from_u128(8);
    frame(&mut window, &mut state, &mut data, &mut moved((400, 10), (400, 590)), SessionId::nil());
    frame(&mut window, &mut state, &mut data, &mut UIEvent::Update, SessionId::nil());
    assert_eq!(state.hovered, Some(Uiid { id: 1, depth: 0 }));
    assert!(data.mutations.is_empty());
    frame(&mut window, &mut state, &mut data, &mut pressed(), session);
    assert_eq!(window.top_bar_active_id, Some(session));
    assert_eq!(window.resize_drag_active_id, None);
    assert_eq!(state.active_session(), session);
    assert!(window.drag_window.is_draggin);
    assert_eq!(window.drag_window.start_element_position, Vec2i::new(50, 60));
    assert_eq!(window.drag_window.start_mouse_position, Vec2i::new(450, 70));

    frame(&mut window, &mut state, &mut data, &mut moved((410, 15), (410, 585)), SessionId::nil());
    frame(&mut window, &mut state, &mut data, &mut UIEvent::Update, SessionId::nil());
    assert_eq!(data.apply_mut(), vec![WindowCommand::SetOuterPosition(Vec2i::new(60, 65))]);
    assert_eq!(state.active_session(), session);
    frame(&mut window, &mut state, &mut data, &mut UIEvent::Update, SessionId::nil());
    assert_eq!(data.apply_mut(), vec![WindowCommand::SetOuterPosition(Vec2i::new(60, 65))]);

    frame(&mut window, &mut state, &mut data, &mut released(), SessionId::nil());
    assert_eq!(window.top_bar_active_id, None);
    assert!(!window.drag_window.is_draggin);
    assert!(state.active_session().is_nil());
    frame(&mut window, &mut state, &mut data, &mut UIEvent::Update, SessionId::nil());
    assert!(data.apply_mut().is_empty());
}

#[test]
fn press_beside_the_title_bar_drags_nothing() {
    let mut window = window();
    let mut state = ControlState::new();
    let mut data = host();
    frame(&mut window, &mut state, &mut data, &mut moved((400, 300), (400, 300)), SessionId::nil());
    frame(&mut window, &mut state, &mut data, &mut UIEvent::Update, SessionId::nil());
    assert_eq!(state.hovered, None);
    frame(&mut window, &mut state, &mut data, &mut pressed(), SessionId::from_u128(8));
    assert_eq!(window.top_bar_active_id, None);
    assert!(state.active_session().is_nil());
    frame(&mut window, &mut state, &mut data, &mut released(), SessionId::nil());
    assert_eq!(window.top_bar_active_id, None);
}

#[test]
fn corner_handle_resizes_the_window_on_every_other_update() {
    let mut window = window();
    let mut state = ControlState::new();
    let mut data = host();
    let session = SessionId::from_u128(21);
    frame(&mut window, &mut state, &mut data, &mut moved((790, 590), (790, 10)), SessionId::nil());
    frame(&mut window, &mut state, &mut data, &mut UIEvent::Update, SessionId::nil());
    assert_eq!(state.hovered, Some(Uiid { id: 2, depth: 25 }));
    frame(&mut window, &mut state, &mut data, &mut pressed(), session);
    assert_eq!(window.top_bar_active_id, None);
    assert_eq!(
        window.resize_drag_active_id,
        Some(ResizeDrag { active_id: session, new_size: Vec2i::new(800, 600), get_count: 0, changed: false })
    );
    frame(&mut window, &mut state, &mut data, &mut UIEvent::Update, SessionId::nil());
    assert!(data.apply_mut().is_empty());
    assert_eq!(state.active_session(), session);

    frame(&mut window, &mut state, &mut data, &mut moved((50, 500), (50, 100)), SessionId::nil());
    assert_eq!(window.resize_drag_active_id.map(|d| d.new_size), Some(Vec2i::new(100, 500)));
    let mut applied: Vec<Vec<WindowCommand>> = Vec::new();
    for _ in 0..4 {
        frame(&mut window, &mut state, &mut data, &mut UIEvent::Update, SessionId::nil());
        applied.push(data.apply_mut());
    }
    let resize = vec![WindowCommand::SetInnerSize(Vec2i::new(100, 500))];
    assert_eq!(applied, vec![vec![], resize.clone(), vec![], resize]);
    assert_eq!(state.active_session(), session);

    frame(&mut window, &mut state, &mut data, &mut released(), SessionId::nil());
    assert_eq!(window.resize_drag_active_id, None);
    frame(&mut window, &mut state, &mut data, &mut UIEvent::Update, SessionId::nil());
    assert!(state.active_session().is_nil());
    assert!(data.apply_mut().is_empty());
}

#[test]
fn corner_handle_reaches_thirty_pixels() {
    for (cursor, hot) in [((800, 0), true), ((770, 0), true), ((769, 0), false), ((782, 24), true), ((781, 25), false), ((800, -30), true)] {
        let mut window = window();
        let mut state = ControlState::new();
        let mut data = host();
        frame(&mut window, &mut state, &mut data, &mut moved((0, 0), cursor), SessionId::nil());
        frame(&mut window, &mut state, &mut data, &mut UIEvent::Update, SessionId::nil());
        assert_eq!(state.hovered.is_some(), hot);
    }
}

#[test]
fn resize_throttle_lets_every_other_request_through() {
    let mut drag = ResizeDrag::new(SessionId::from_u128(1), Vec2i::new(300, 200));
    assert_eq!(drag.get_size(), None);
    assert_eq!(drag.get_size(), None);
    drag.update_size(Vec2i::new(310, 210));
    assert_eq!(drag.get_size(), None);
    assert_eq!(drag.get_size(), Some(Vec2i::new(310, 210)));
    drag.update_size(Vec2i::new(320, 220));
    assert_eq!(drag.get_size(), None);
    drag.update_size(Vec2i::new(330, 230));
    assert_eq!(drag.get_size(), Some(Vec2i::new(330, 230)));
    drag.update_counter();
    assert_eq!(drag.get_count, 1);
    drag.update_counter();
    assert_eq!(drag.get_count, 0);
}

#[test]
fn surface_resize_makes_the_window_fill_the_surface() {
    let mut window = window();
    let mut state = ControlState::new();
    let mut data = host();
    let root = frame(
        &mut window,
        &mut state,
        &mut data,
        &mut UIEvent::Resize(Vec2i::new(1000, 701)),
        SessionId::nil(),
    );
    assert_eq!(root.container_info.rect, rect(400, 290, 790, 570));
    assert_eq!(window.size, Vec2i::new(1000, 701));
    assert_eq!(window.position, Vec2i::new(500, 350));
    let root = frame(&mut window, &mut state, &mut data, &mut UIEvent::Update, SessionId::nil());
    assert_eq!(root.container_info.rect, rect(500, 340, 990, 671));
}

#[test]
fn window_draws_its_bar_and_queues_its_handle() {
    let mut window = window();
    let mut state = ControlState::new();
    let mut data = host();
    let bar = rect(400, 590, 800, 20);
    let mut render =
        UIEvent::Render { gui_rects: GUIRects::new(), extra_render_steps: ExtraRenderSteps::new(4) };
    frame(&mut window, &mut state, &mut data, &mut render, SessionId::nil());
    match render {
        UIEvent::Render { gui_rects, extra_render_steps } => {
            assert_eq!(
                gui_rects.rect_collection,
                vec![DrawRequest { rect: bar, kind: DrawKind::TopBar { state: State::Inactive }, mask: None }]
            );
            assert_eq!(extra_render_steps.len(), 0);
        }
        _ => panic!("a render event stays a render event"),
    }

    frame(&mut window, &mut state, &mut data, &mut moved((0, 0), (795, 5)), SessionId::nil());
    frame(&mut window, &mut state, &mut data, &mut UIEvent::Update, SessionId::nil());
    let mut render =
        UIEvent::Render { gui_rects: GUIRects::new(), extra_render_steps: ExtraRenderSteps::new(4) };
    frame(&mut window, &mut state, &mut data, &mut render, SessionId::nil());
    match render {
        UIEvent::Render { mut gui_rects, mut extra_render_steps } => {
            gui_rects.clear_buffers();
            extra_render_steps.execute_render_steps(&mut gui_rects);
            assert_eq!(
                gui_rects.rect_collection,
                vec![DrawRequest {
                    rect: rect(800, 0, 60, 60),
                    kind: DrawKind::ResizeHandle { state: State::Hovered },
                    mask: Some(rect(400, 300, 800, 600)),
                }]
            );
        }
        _ => panic!("a render event stays a render event"),
    }

    frame(&mut window, &mut state, &mut data, &mut moved((0, 0), (400, 595)), SessionId::nil());
    frame(&mut window, &mut state, &mut data, &mut UIEvent::Update, SessionId::nil());
    frame(&mut window, &mut state, &mut data, &mut UIEvent::Update, SessionId::nil());
    frame(&mut window, &mut state, &mut data, &mut pressed(), SessionId::from_u128(2));
    let mut render =
        UIEvent::Render { gui_rects: GUIRects::new(), extra_render_steps: ExtraRenderSteps::new(4) };
    frame(&mut window, &mut state, &mut data, &mut render, SessionId::nil());
    match render {
        UIEvent::Render { gui_rects, .. } => {
            assert_eq!(
                gui_rects.rect_collection,
                vec![DrawRequest { rect: bar, kind: DrawKind::TopBar { state: State::Active }, mask: None }]
            );
        }
        _ => panic!("a render event stays a render event"),
    }
}

#[test]
fn drag_element_follows_the_pointer() {
    let mut drag = DragElement::new();
    assert_eq!(drag.compute_element_position(), Vec2i::new(0, 0));
    drag.update_position(Vec2i::new(100, 100));
    drag.start_dragging(Vec2i::new(10, 20));
    drag.update_position(Vec2i::new(130, 90));
    assert_eq!(drag.compute_element_position(), Vec2i::new(40, 10));
    drag.stop_dragging();
    assert!(!drag.is_draggin);
    assert_eq!(drag.start_mouse_position, Vec2i::new(130, 90));
    assert_eq!(drag.compute_element_position(), Vec2i::new(10, 20));
}

#[test]
fn free_standing_bar_and_handle() {
    let mut state = ControlState::new();
    let mut data = host();
    let mut active: Option<SessionId> = None;
    let mut drag = DragElement::new();
    state.on_gui_start();
    state.set_cursor_position(Some(Vec2i::new(0, 0)));
    main_window_top_bar(
        Vec2i::new(0, 0),
        Vec2i::new(100, 20),
        &mut UIEvent::Update,
        &mut data,
        &mut state,
        &mut active,
        &mut drag,
        SessionId::nil(),
    );
    let mut resize: Option<ResizeDrag> = None;
    let info = ContainerInfo { rect: rect(0, 0, 0, 0), depth_range: (0, 14) };
    resize_controls(
        Vec2i::new(0, 0),
        Vec2i::new(100, 100),
        &mut UIEvent::Update,
        &mut data,
        &mut state,
        &mut resize,
        &info,
        SessionId::nil(),
    );
    assert_eq!(state.on_gui_end(), State::Hovered);
    assert_eq!(state.hovered, Some(Uiid { id: 1, depth: 0 }));
    assert_eq!(active, None);
    assert_eq!(resize, None);
}
