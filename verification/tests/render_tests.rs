use gui_system::event::ElementState;
use gui_system::event::MouseButton;
use gui_system::event::MouseInput;
use gui_system::event::UIEvent;
use gui_system::geometry::Rect;
use gui_system::geometry::Vec2i;
use gui_system::render::DrawKind;
use gui_system::render::DrawRequest;
use gui_system::render::ExtraRenderSteps;
use gui_system::render::GUIRects;

fn request(tag: i32, kind: DrawKind) -> DrawRequest {
    DrawRequest {
        rect: Rect::new(Vec2i::new(tag, 0), Vec2i::new(1, 1)),
        kind,
        mask: None,
    }
}

#[test]
fn deferred_steps_run_in_ascending_depth_order() {
    let mut queue = ExtraRenderSteps::new(25);
    let mut sink = GUIRects::new();
    sink.push(request(100, DrawKind::TabStrip));
    queue.push(request(0, DrawKind::DividerActive), 12);
    queue.push(request(1, DrawKind::TabShadow), 5);
    queue.push(request(2, DrawKind::DividerHovered), 20);
    queue.push(request(3, DrawKind::TabShadow), 5);
    queue.push(request(4, DrawKind::ContainerBackground), 0);
    assert_eq!(queue.len(), 5);
    queue.execute_render_steps(&mut sink);
    assert_eq!(queue.len(), 0);
    let tags: Vec<i32> = sink.rect_collection.iter().map(|r| r.rect.position.x).collect();
    assert_eq!(tags, vec![100, 4, 1, 3, 0, 2]);
}

#[test]
fn executing_an_empty_queue_draws_nothing() {
    let mut queue = ExtraRenderSteps::new(0);
    let mut sink = GUIRects::new();
    queue.execute_render_steps(&mut sink);
    assert_eq!(sink.rect_collection.len(), 0);
}

#[test]
fn buffers_are_cleared() {
    let mut sink = GUIRects::new();
    sink.push(request(1, DrawKind::TabStrip));
    sink.clear_buffers();
    assert_eq!(sink.rect_collection.len(), 0);
}

#[test]
fn only_a_render_event_takes_requests() {
    let mut update = UIEvent::Update;
    update.draw(request(1, DrawKind::TabStrip));
    update.defer(request(2, DrawKind::TabShadow), 3);
    assert!(matches!(update, UIEvent::Update));

    let mut render = UIEvent::Render {
        gui_rects: GUIRects::new(),
        extra_render_steps: ExtraRenderSteps::new(4),
    };
    render.draw(request(1, DrawKind::TabStrip));
    render.defer(request(2, DrawKind::TabShadow), 3);
    match render {
        UIEvent::Render { gui_rects, extra_render_steps } => {
            assert_eq!(gui_rects.rect_collection, vec![request(1, DrawKind::TabStrip)]);
            assert_eq!(extra_render_steps.len(), 1);
        }
        _ => panic!("a render event stays a render event"),
    }
}

#[test]
fn left_button_edges() {
    let pressed = MouseInput { button: MouseButton::Left, state: ElementState::Pressed };
    let released = MouseInput { button: MouseButton::Left, state: ElementState::Released };
    let right = MouseInput { button: MouseButton::Right, state: ElementState::Pressed };
    assert!(pressed.is_left_pressed());
    assert!(!pressed.is_left_released());
    assert!(released.is_left_released());
    assert!(!released.is_left_pressed());
    assert!(!right.is_left_pressed());
    assert!(UIEvent::MouseButton(pressed).is_left_pressed());
    assert!(!UIEvent::MouseButton(released).is_left_pressed());
    assert!(!UIEvent::Update.is_left_pressed());
}
