use gui_system::control::button::button;
use gui_system::control::get_current_control_id;
use gui_system::control::slider::slider;
use gui_system::control::ControlId;
use gui_system::control::ControlState;
use gui_system::control::SessionId;
use gui_system::control::State;
use gui_system::control::Uiid;
use gui_system::event::ElementState;
use gui_system::event::MouseButton;
use gui_system::event::MouseInput;
use gui_system::event::UIEvent;
use gui_system::geometry::Rect;
use gui_system::geometry::Vec2i;
use gui_system::gui_container::performance_monitor::AverageTimer;
use gui_system::gui_container::GUIContainer;
use gui_system::gui_container::WOne;
use gui_system::public_data::PublicData;
use gui_system::render::DrawKind;
use gui_system::render::DrawRequest;
use gui_system::render::ExtraRenderSteps;
use gui_system::render::GUIRects;
use gui_system::window_layout::layout::DividedElement;
use gui_system::ContainerInfo;
use gui_system::GUISystem;

fn rect(x: i32, y: i32, w: i32, h: i32) -> Rect {
    Rect::new(Vec2i::new(x, y), Vec2i::new(w, h))
}

fn pressed() -> UIEvent {
    UIEvent::MouseButton(MouseInput { button: MouseButton::Left, state: ElementState::Pressed })
}

fn released() -> UIEvent {
    UIEvent::MouseButton(MouseInput { button: MouseButton::Left, state: ElementState::Released })
}

fn render() -> UIEvent {
    UIEvent::Render { gui_rects: GUIRects::new(), extra_render_steps: ExtraRenderSteps::new(2) }
}

fn drawn(event: UIEvent) -> Vec<DrawRequest> {
    match event {
        UIEvent::Render { gui_rects, .. } => gui_rects.rect_collection,
        _ => panic!("a render event stays a render event"),
    }
}

#[test]
fn button_reports_a_click_while_hovered() {
    let area = rect(0, 0, 40, 20);
    let mask = rect(10, 0, 40, 40);
    let mut state = ControlState::new();
    state.on_gui_start();
    state.set_cursor_position(Some(Vec2i::new(-15, 0)));
    assert!(!button(area, mask, &mut UIEvent::Update, &mut state));
    assert_eq!(state.on_gui_end(), State::Inactive);
    state.on_gui_start();
    assert!(!button(area, mask, &mut pressed(), &mut state));
    state.on_gui_end();

    state.on_gui_start();
    state.set_cursor_position(Some(Vec2i::new(15, 0)));
    assert!(!button(area, mask, &mut UIEvent::Update, &mut state));
    assert_eq!(state.on_gui_end(), State::Hovered);
    state.on_gui_start();
    assert!(!button(area, mask, &mut released(), &mut state));
    state.on_gui_end();
    state.on_gui_start();
    assert!(button(area, mask, &mut pressed(), &mut state));
    assert!(!button(area, mask, &mut pressed(), &mut state));
    state.on_gui_end();

    state.on_gui_start();
    let mut event = render();
    assert!(!button(area, mask, &mut event, &mut state));
    assert_eq!(
        drawn(event),
        vec![DrawRequest { rect: area, kind: DrawKind::Button { hovered: true }, mask: Some(mask) }]
    );
}

#[test]
fn button_outside_its_mask_is_never_hot() {
    let area = rect(0, 0, 40, 20);
    let mask = rect(100, 0, 40, 40);
    let mut state = ControlState::new();
    state.on_gui_start();
    state.set_cursor_position(Some(Vec2i::new(0, 0)));
    assert!(!button(area, mask, &mut UIEvent::Update, &mut state));
    assert_eq!(state.on_gui_end(), State::Inactive);
}

fn slide(
    state: &mut ControlState,
    event: &mut UIEvent,
    value: i32,
    active: &mut Option<SessionId>,
    session: SessionId,
) -> i32 {
    state.on_gui_start();
    if let UIEvent::MouseMove { corrected, .. } = event {
        state.set_cursor_position(Some(*corrected));
    }
    let value =
        slider(rect(0, 0, 200, 30), rect(0, 0, 400, 400), value, 10, 110, active, event, state, session);
    state.on_gui_end();
    if let UIEvent::Update = event {
        state.on_after_update();
    }
    value
}

fn moved(x: i32, y: i32) -> UIEvent {
    UIEvent::MouseMove { raw: Vec2i::new(x, y), corrected: Vec2i::new(x, y) }
}

#[test]
fn slider_follows_the_cursor_while_dragged() {
    let mut state = ControlState::new();
    let mut active: Option<SessionId> = None;
    let session = SessionId::from_u128(4);
    let mut value = 500;
    value = slide(&mut state, &mut moved(-50, 5), value, &mut active, SessionId::nil());
    assert_eq!(value, 110);
    value = slide(&mut state, &mut UIEvent::Update, value, &mut active, SessionId::nil());
    assert_eq!(state.hovered, Some(Uiid { id: 1, depth: 0 }));
    value = slide(&mut state, &mut pressed(), value, &mut active, session);
    assert_eq!(active, Some(session));
    assert_eq!(value, 35);
    value = slide(&mut state, &mut UIEvent::Update, value, &mut active, SessionId::nil());
    assert_eq!(state.active_session(), session);
    for (x, expected) in [(-100, 10), (-99, 11), (0, 60), (1, 61), (100, 110), (5000, 110), (-5000, 10), (33, 77)] {
        value = slide(&mut state, &mut moved(x, 300), value, &mut active, SessionId::nil());
        assert_eq!(value, expected);
    }
    value = slide(&mut state, &mut released(), value, &mut active, SessionId::nil());
    assert_eq!(active, None);
    assert_eq!(value, 77);
    value = slide(&mut state, &mut moved(0, 0), value, &mut active, SessionId::nil());
    assert_eq!(value, 77);
}

#[test]
fn slider_beside_the_cursor_starts_nothing() {
    let mut state = ControlState::new();
    let mut active: Option<SessionId> = None;
    let mut value = 3;
    value = slide(&mut state, &mut moved(-50, 12), value, &mut active, SessionId::nil());
    value = slide(&mut state, &mut UIEvent::Update, value, &mut active, SessionId::nil());
    assert_eq!(state.hovered, None);
    value = slide(&mut state, &mut pressed(), value, &mut active, SessionId::from_u128(4));
    assert_eq!(active, None);
    assert_eq!(value, 10);
}

#[test]
fn slider_is_drawn_with_its_pin() {
    let mut state = ControlState::new();
    let mut active: Option<SessionId> = None;
    let mut event = render();
    let value = slide(&mut state, &mut event, 35, &mut active, SessionId::nil());
    assert_eq!(value, 35);
    let track = rect(0, 0, 200, 10);
    assert_eq!(
        drawn(event),
        vec![
            DrawRequest { rect: track, kind: DrawKind::SliderFill, mask: Some(rect(-75, 0, 50, 30)) },
            DrawRequest {
                rect: track,
                kind: DrawKind::SliderTrack { state: State::Inactive },
                mask: Some(rect(25, 0, 150, 30)),
            },
            DrawRequest {
                rect: rect(-50, 0, 22, 22),
                kind: DrawKind::SliderPin { state: State::Inactive },
                mask: Some(rect(0, 0, 400, 400)),
            },
        ]
    );
}

#[test]
fn slider_without_width_gives_the_lower_bound() {
    let mut state = ControlState::new();
    state.on_gui_start();
    state.set_cursor_position(Some(Vec2i::new(0, 0)));
    let id = state.get_id();
    assert!(state.set_hot(id));
    state.on_gui_end();
    state.on_gui_start();
    let mut active: Option<SessionId> = None;
    let value = slider(
        rect(0, 0, 0, 30),
        rect(0, 0, 400, 400),
        50,
        10,
        110,
        &mut active,
        &mut pressed(),
        &mut state,
        SessionId::from_u128(1),
    );
    assert_eq!(active, Some(SessionId::from_u128(1)));
    assert_eq!(value, 10);
}

#[test]
fn control_asks_for_its_state_under_the_right_name() {
    let id = Uiid { id: 3, depth: 1 };
    assert_eq!(get_current_control_id(id, &None), ControlId::Control(id));
    let session = SessionId::from_u128(9);
    assert_eq!(get_current_control_id(id, &Some(session)), ControlId::Active(session));
}

#[test]
fn average_is_taken_when_the_ring_has_come_round() {
    let mut timer = AverageTimer::new();
    assert_eq!(timer.get_most_recent(), 0);
    for _ in 0..58 {
        timer.update_frame_data(600);
        assert_eq!(timer.get_most_recent(), 0);
    }
    timer.update_frame_data(660);
    assert_eq!(timer.get_most_recent(), 591);
    assert_eq!(timer.average_times, [591, 0, 0, 0, 0, 0, 0, 0, 0, 0]);
    assert_eq!(timer.get_average_times(), [0, 0, 0, 0, 0, 0, 0, 0, 0, 591]);
    for _ in 0..60 {
        timer.update_frame_data(1000);
    }
    assert_eq!(timer.get_most_recent(), 1000);
    assert_eq!(timer.get_average_times(), [0, 0, 0, 0, 0, 0, 0, 0, 591, 1000]);
    for round in 0..9u32 {
        for _ in 0..60 {
            timer.update_frame_data(round);
        }
    }
    assert_eq!(timer.get_average_times(), [1000, 0, 1, 2, 3, 4, 5, 6, 7, 8]);
    assert_eq!(timer.get_most_recent(), 8);
    for _ in 0..60 {
        timer.update_frame_data(u32::MAX);
    }
    assert_eq!(timer.get_most_recent(), u32::MAX);
}

#[test]
fn stand_in_container_handles_events_without_a_trace() {
    let mut container = WOne::new();
    let mut state = ControlState::new();
    state.on_gui_start();
    let mut data = PublicData::new();
    let info = ContainerInfo { rect: rect(0, 0, 10, 10), depth_range: (0, 14) };
    let mut event = render();
    container.handle_event(&mut event, &mut data, info, &mut state);
    assert!(drawn(event).is_empty());
    assert_eq!(state.get_id(), Uiid { id: 1, depth: 0 });
    assert!(data.mutations.is_empty());
}

#[test]
fn gui_system_notes_the_size_of_the_surface() {
    let mut gui = GUISystem::new(Vec2i::new(640, 480));
    assert_eq!(gui.screen_size, Vec2i::new(640, 480));
    let leaf = gui.window_layouting.push_gui_container(Box::new(WOne::new())).expect("leaf");
    let other = gui.window_layouting.push_gui_container(Box::new(WOne::new())).expect("leaf");
    let left = gui.window_layouting.create_tab(vec![leaf]).expect("tabs");
    let right = gui.window_layouting.create_tab(vec![other]).expect("tabs");
    let root = gui
        .window_layouting
        .push_horizontal(vec![DividedElement::new_tab(left, 1), DividedElement::new_tab(right, 1)])
        .expect("row");
    let window = gui.window_layouting.create_window(root, Vec2i::new(640, 480), Vec2i::new(320, 240));
    let mut data = PublicData::new();
    gui.update(&mut data);
    gui.handle_event(&mut UIEvent::Resize(Vec2i::new(800, 600)), &mut data);
    assert_eq!(gui.screen_size, Vec2i::new(800, 600));
    let resized = gui.window_layouting.get_window(&window).expect("window");
    assert_eq!(resized.size, Vec2i::new(800, 600));
    assert_eq!(resized.position, Vec2i::new(400, 300));
    gui.resize(Vec2i::new(10, 20));
    assert_eq!(gui.screen_size, Vec2i::new(10, 20));
    let mut sink = GUIRects::new();
    sink.push(DrawRequest { rect: rect(0, 0, 1, 1), kind: DrawKind::TabStrip, mask: None });
    gui.render(&mut sink, &mut data);
    assert_eq!(sink.rect_collection.len(), 11);
    assert_eq!(
        sink.rect_collection[0],
        DrawRequest {
            rect: rect(400, 590, 800, 20),
            kind: DrawKind::TopBar { state: State::Inactive },
            mask: None,
        }
    );
    gui.render(&mut sink, &mut data);
    assert_eq!(sink.rect_collection.len(), 11);
}
