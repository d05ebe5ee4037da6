use gui_system::control::ControlState;
use gui_system::control::Uiid;
use gui_system::event::ElementState;
use gui_system::event::MouseButton;
use gui_system::event::MouseInput;
use gui_system::event::UIEvent;
use gui_system::geometry::Rect;
use gui_system::geometry::Vec2i;
use gui_system::gui_container::render_container_background;
use gui_system::gui_container::AnyRef;
use gui_system::gui_container::GUIContainer;
use gui_system::gui_container::WOne;
use gui_system::gui_container::WTwo;
use gui_system::public_data::PublicData;
use gui_system::public_data::WindowCommand;
use gui_system::render::DrawKind;
use gui_system::render::DrawRequest;
use gui_system::render::GUIRects;
use gui_system::window_layout::depth_offset;
use gui_system::window_layout::depth_range_of;
use gui_system::window_layout::layout::sum_weights;
use gui_system::window_layout::layout::DividedElement;
use gui_system::window_layout::layout::Orientation;
use gui_system::window_layout::GUIContainerSlotkey;
use gui_system::window_layout::LayoutSlotKey;
use gui_system::window_layout::TabsSlotKey;
use gui_system::window_layout::WindowSlotKey;
use gui_system::window_layout::WindowSystem;
use gui_system::window_layout::DEPTH_SLICE_SIZE;
use gui_system::window_layout::MAX_WINDOWS;
use gui_system::ContainerInfo;
use std::cell::RefCell;
use std::rc::Rc;

/// A leaf container that notes where it was asked to handle which kind of event, takes
/// one identity and draws its background.
struct Recorder {
    name: String,
    seen: Rc<RefCell<Vec<(String, &'static str, ContainerInfo, Uiid)>>>,
}

impl GUIContainer for Recorder {
    fn get_name(&self) -> &str {
        &self.name
    }

    fn as_any(&self) -> AnyRef<'_> {
        AnyRef::of(self)
    }

    fn handle_event(
        &mut self,
        event: &mut UIEvent,
        _public_data: &mut PublicData,
        container_info: ContainerInfo,
        control_state: &mut ControlState,
    ) {
        let id = control_state.get_id();
        let kind = match event {
            UIEvent::Update => "update",
            UIEvent::Render { gui_rects, .. } => {
                render_container_background(gui_rects, &container_info);
                "render"
            }
            UIEvent::MouseMove { .. } => "move",
            UIEvent::MouseButton(_) => "button",
            UIEvent::CursorExit => "exit",
            _ => "other",
        };
        self.seen.borrow_mut().push((self.name.clone(), kind, container_info, id));
    }
}

struct Scene {
    system: WindowSystem,
    data: PublicData,
    seen: Rc<RefCell<Vec<(String, &'static str, ContainerInfo, Uiid)>>>,
    leaves: Vec<GUIContainerSlotkey>,
    tabs_a: TabsSlotKey,
    tabs_b: TabsSlotKey,
    root: LayoutSlotKey,
    window: WindowSlotKey,
}

fn rect(x: i32, y: i32, w: i32, h: i32) -> Rect {
    Rect::new(Vec2i::new(x, y), Vec2i::new(w, h))
}

fn scene() -> Scene {
    let seen = Rc::new(RefCell::new(Vec::new()));
    let mut system = WindowSystem::new();
    let mut leaves = Vec::new();
    for name in ["a0", "a1", "b0"] {
        let key = system
            .push_gui_container(Box::new(Recorder { name: String::from(name), seen: seen.clone() }))
            .expect("a leaf container");
        leaves.push(key);
    }
    let tabs_a = system.create_tab(vec![leaves[0], leaves[1]]).expect("two tabs");
    let tabs_b = system.create_tab(vec![leaves[2]]).expect("one tab");
    let root = system
        .push_horizontal(vec![
            DividedElement::new_tab(tabs_a, 1000),
            DividedElement::new_tab(tabs_b, 1000),
        ])
        .expect("a row of two tab containers");
    let window = system.create_window(root, Vec2i::new(800, 600), Vec2i::new(0, 0));
    Scene { system, data: PublicData::new(), seen, leaves, tabs_a, tabs_b, root, window }
}

fn pressed() -> UIEvent {
    UIEvent::MouseButton(MouseInput { button: MouseButton::Left, state: ElementState::Pressed })
}

fn released() -> UIEvent {
    UIEvent::MouseButton(MouseInput { button: MouseButton::Left, state: ElementState::Released })
}

fn moved(x: i32, y: i32) -> UIEvent {
    UIEvent::MouseMove { raw: Vec2i::new(x + 400, 300 - y), corrected: Vec2i::new(x, y) }
}

fn send(scene: &mut Scene, mut event: UIEvent) {
    scene.system.handle_event(&mut event, &mut scene.data);
    if let UIEvent::Update = event {
        scene.system.control_state.on_frame_end();
    }
}

fn hover(scene: &mut Scene, x: i32, y: i32) {
    send(scene, moved(x, y));
    send(scene, UIEvent::Update);
    send(scene, UIEvent::Update);
}

fn weights(scene: &Scene) -> Vec<u32> {
    scene
        .system
        .get_layout(&scene.root)
        .expect("the root split")
        .get_children()
        .iter()
        .map(|child| child.size)
        .collect()
}

#[test]
fn depth_ranges_are_disjoint_and_in_order() {
    assert_eq!(depth_range_of(0), (0, 14));
    assert_eq!(depth_range_of(1), (15, 29));
    assert_eq!(depth_range_of(2), (30, 44));
    let mut last: Option<(u32, u32)> = None;
    for index in 0..200 {
        let range = depth_range_of(index);
        assert_eq!(range.1 - range.0, DEPTH_SLICE_SIZE - 1);
        if let Some(before) = last {
            assert!(before.1 < range.0);
        }
        last = Some(range);
    }
    assert_eq!(depth_range_of(MAX_WINDOWS - 1), (4_294_967_280, 4_294_967_294));
    assert!(depth_offset::DIVIDER < DEPTH_SLICE_SIZE);
    assert!(depth_offset::TAB_SHADOW < DEPTH_SLICE_SIZE);
    assert!(depth_offset::RESIZE_CONTROL < DEPTH_SLICE_SIZE);
    assert!(depth_offset::SELECT_COUNT < DEPTH_SLICE_SIZE);
    assert!(depth_offset::FONT_ANIM_OFFSET < DEPTH_SLICE_SIZE);
}

#[test]
fn construction_reports_what_it_refuses() {
    let mut system = WindowSystem::new();
    assert_eq!(system.window_count(), 0);
    assert_eq!(system.create_tab(vec![]), None);
    assert_eq!(system.push_horizontal(vec![]), None);
    let leaf = system.push_gui_container(Box::new(WOne::new())).expect("a leaf");
    let other = system.push_gui_container(Box::new(WTwo::new())).expect("a leaf");
    assert_ne!(leaf, other);
    let tabs = system.create_tab(vec![leaf, other]).expect("tabs");
    let more = system.create_tab(vec![other]).expect("tabs");
    assert_eq!(system.push_vertical(vec![DividedElement::new_tab(tabs, 1)]), None);
    let column = system
        .push_vertical(vec![DividedElement::new_tab(tabs, 1), DividedElement::new_tab(more, 2)])
        .expect("a column");
    assert_eq!(
        system.push_vertical(vec![
            DividedElement::new_layout(column, 1),
            DividedElement::new_tab(more, 2)
        ]),
        None
    );
    let row = system
        .push_horizontal(vec![
            DividedElement::new_layout(column, 1),
            DividedElement::new_tab(more, 2),
        ])
        .expect("a row over a column");
    assert_eq!(system.get_layout(&row).map(|l| l.get_orientation()), Some(Orientation::Horizontal));
    assert_eq!(system.get_layout(&column).map(|l| l.get_children().len()), Some(2));
    let window = system.create_window(row, Vec2i::new(640, 480), Vec2i::new(0, 0));
    assert_eq!(system.window_count(), 1);
    assert_eq!(system.get_window(&window).map(|w| w.layout_key), Some(row));
    assert_eq!(system.get_tabs(&tabs).map(|t| t.tab_count()), Some(2));
}

#[test]
fn walk_reaches_every_leaf_with_its_rectangle() {
    let mut scene = scene();
    send(&mut scene, UIEvent::Update);
    let seen = scene.seen.borrow().clone();
    assert_eq!(
        seen,
        vec![
            (
                String::from("b0"),
                "update",
                ContainerInfo { rect: rect(198, -25, 394, 540), depth_range: (0, 14) },
                Uiid { id: 7, depth: 0 },
            ),
            (
                String::from("a0"),
                "update",
                ContainerInfo { rect: rect(-198, -25, 394, 540), depth_range: (0, 14) },
                Uiid { id: 8, depth: 0 },
            ),
        ]
    );
}

#[test]
fn identities_are_the_same_for_every_kind_of_event() {
    let mut scene = scene();
    send(&mut scene, UIEvent::Update);
    send(&mut scene, moved(3, 3));
    send(&mut scene, pressed());
    send(&mut scene, released());
    send(&mut scene, UIEvent::CursorExit);
    let mut sink = GUIRects::new();
    scene.system.render_event(&mut scene.data, &mut sink);
    let seen = scene.seen.borrow().clone();
    assert_eq!(seen.len(), 12);
    for (index, entry) in seen.iter().enumerate() {
        if index % 2 == 0 {
            assert_eq!(entry.0, "b0");
            assert_eq!(entry.3, Uiid { id: 7, depth: 0 });
        } else {
            assert_eq!(entry.0, "a0");
            assert_eq!(entry.3, Uiid { id: 8, depth: 0 });
        }
    }
    let kinds: Vec<&str> = seen.iter().map(|entry| entry.1).collect();
    assert_eq!(
        kinds,
        vec![
            "update", "update", "move", "move", "button", "button", "button", "button", "exit",
            "exit", "render", "render"
        ]
    );
}

#[test]
fn tab_switch_through_the_system() {
    let mut scene = scene();
    hover(&mut scene, -235, 260);
    assert_eq!(scene.system.control_state.hovered, Some(Uiid { id: 6, depth: 0 }));
    assert_eq!(scene.system.get_tabs(&scene.tabs_a).map(|t| t.active_tab()), Some(0));
    scene.seen.borrow_mut().clear();
    send(&mut scene, pressed());
    assert_eq!(scene.system.get_tabs(&scene.tabs_a).map(|t| t.active_tab()), Some(1));
    assert_eq!(scene.system.get_tabs(&scene.tabs_b).map(|t| t.active_tab()), Some(0));
    let names: Vec<String> = scene.seen.borrow().iter().map(|entry| entry.0.clone()).collect();
    assert_eq!(names, vec![String::from("b0"), String::from("a0")]);
    scene.seen.borrow_mut().clear();
    let mut sink = GUIRects::new();
    scene.system.render_event(&mut scene.data, &mut sink);
    let names: Vec<String> = scene.seen.borrow().iter().map(|entry| entry.0.clone()).collect();
    assert_eq!(names, vec![String::from("b0"), String::from("a1")]);
    assert!(sink.rect_collection.contains(&DrawRequest {
        rect: rect(-235, 258, 100, 27),
        kind: DrawKind::TabLabel { container: scene.leaves[1] },
        mask: Some(rect(-198, 260, 394, 30)),
    }));
}

#[test]
fn divider_drag_through_the_system_keeps_the_weight() {
    let mut scene = scene();
    hover(&mut scene, 0, 0);
    assert_eq!(scene.system.control_state.hovered, Some(Uiid { id: 3, depth: 2 }));
    send(&mut scene, pressed());
    let session = scene.system.control_state.active_session();
    assert!(!session.is_nil());
    assert_eq!(scene.system.control_state.hovered, None);
    let divider = scene
        .system
        .get_layout(&scene.root)
        .and_then(|layout| layout.get_active_divider())
        .expect("a drag");
    assert_eq!(divider.active_id, session);
    assert_eq!(divider.index, 0);
    for x in [-100, -394, 17, 1000, 0] {
        send(&mut scene, moved(x, 0));
        send(&mut scene, UIEvent::Update);
        assert_eq!(scene.system.control_state.active_session(), session);
        let now = weights(&scene);
        assert_eq!(now[0] + now[1], 2000);
        let children = scene.system.get_layout(&scene.root).expect("root").get_children().clone();
        assert_eq!(sum_weights(&children), 2000);
    }
    assert_eq!(weights(&scene), vec![1000, 1000]);
    send(&mut scene, moved(-100, 0));
    assert_eq!(weights(&scene), vec![746, 1254]);
    send(&mut scene, released());
    send(&mut scene, UIEvent::Update);
    assert!(scene.system.control_state.active_session().is_nil());
    scene.seen.borrow_mut().clear();
    send(&mut scene, UIEvent::Update);
    let widths: Vec<i32> =
        scene.seen.borrow().iter().map(|entry| entry.2.rect.size.x).collect();
    assert_eq!(widths, vec![494, 294]);
}

#[test]
fn cursor_exit_clears_drag() {
    let mut scene = scene();
    hover(&mut scene, 0, 0);
    send(&mut scene, pressed());
    assert!(!scene.system.control_state.active_session().is_nil());
    assert!(scene
        .system
        .get_layout(&scene.root)
        .and_then(|layout| layout.get_active_divider())
        .is_some());
    send(&mut scene, UIEvent::CursorExit);
    assert!(scene.system.control_state.active_session().is_nil());
    assert_eq!(
        scene.system.get_layout(&scene.root).map(|layout| layout.get_active_divider()),
        Some(None)
    );
    assert_eq!(scene.system.control_state.last_cursor_position, None);
    send(&mut scene, moved(-100, 0));
    assert_eq!(weights(&scene), vec![1000, 1000]);
}

#[test]
fn hover_is_dropped_while_a_session_is_active() {
    let mut scene = scene();
    hover(&mut scene, 0, 0);
    send(&mut scene, pressed());
    for event in [UIEvent::Update, moved(5, 0), UIEvent::Update, moved(-235, 260), UIEvent::Update] {
        send(&mut scene, event);
        assert!(!scene.system.control_state.active_session().is_nil());
        assert_eq!(scene.system.control_state.hovered, None);
    }
}

#[test]
fn frame_is_drawn_back_to_front() {
    let mut scene = scene();
    hover(&mut scene, 0, 0);
    let mut sink = GUIRects::new();
    sink.push(DrawRequest { rect: rect(1, 1, 1, 1), kind: DrawKind::ContainerBackground, mask: None });
    scene.system.render_event(&mut scene.data, &mut sink);
    let strip_a = rect(-198, 260, 394, 30);
    let strip_b = rect(198, 260, 394, 30);
    let shadow = |x: i32, w: i32| DrawRequest {
        rect: rect(x, 242, w, 6),
        kind: DrawKind::TabShadow,
        mask: None,
    };
    let button = |index: usize, x: i32, active: bool, strip: Rect| DrawRequest {
        rect: if active { rect(x, 258, 100, 27) } else { rect(x, 260, 100, 20) },
        kind: DrawKind::TabButton { index, active, hovered: false },
        mask: Some(strip),
    };
    let label = |leaf: GUIContainerSlotkey, x: i32, active: bool, strip: Rect| DrawRequest {
        rect: if active { rect(x, 258, 100, 27) } else { rect(x, 260, 100, 20) },
        kind: DrawKind::TabLabel { container: leaf },
        mask: Some(strip),
    };
    let background = |x: i32| DrawRequest {
        rect: rect(x, -25, 394, 540),
        kind: DrawKind::ContainerBackground,
        mask: Some(rect(x, -25, 394, 540)),
    };
    assert_eq!(
        sink.rect_collection,
        vec![
            DrawRequest { rect: rect(1, 1, 1, 1), kind: DrawKind::ContainerBackground, mask: None },
            DrawRequest {
                rect: rect(0, 290, 800, 20),
                kind: DrawKind::TopBar { state: gui_system::control::State::Inactive },
                mask: None,
            },
            DrawRequest { rect: strip_b, kind: DrawKind::TabStrip, mask: None },
            button(0, 56, true, strip_b),
            label(scene.leaves[2], 56, true, strip_b),
            DrawRequest { rect: strip_a, kind: DrawKind::TabStrip, mask: None },
            button(0, -340, true, strip_a),
            label(scene.leaves[0], -340, true, strip_a),
            button(1, -235, false, strip_a),
            label(scene.leaves[1], -235, false, strip_a),
            background(198),
            background(-198),
            DrawRequest { rect: rect(0, -10, 8, 570), kind: DrawKind::DividerHovered, mask: None },
            shadow(250, 289),
            shadow(3, 5),
            shadow(-146, 289),
            shadow(-393, 5),
        ]
    );
}

#[test]
fn windows_handle_events_in_their_own_depth_ranges() {
    let seen = Rc::new(RefCell::new(Vec::new()));
    let mut system = WindowSystem::new();
    let mut windows = Vec::new();
    for name in ["first", "second", "third"] {
        let left = system
            .push_gui_container(Box::new(Recorder { name: format!("{name}-l"), seen: seen.clone() }))
            .expect("leaf");
        let right = system
            .push_gui_container(Box::new(Recorder { name: format!("{name}-r"), seen: seen.clone() }))
            .expect("leaf");
        let tabs_left = system.create_tab(vec![left]).expect("tabs");
        let tabs_right = system.create_tab(vec![right]).expect("tabs");
        let root = system
            .push_vertical(vec![
                DividedElement::new_tab(tabs_left, 1),
                DividedElement::new_tab(tabs_right, 1),
            ])
            .expect("column");
        windows.push(system.create_window(root, Vec2i::new(400, 400), Vec2i::new(0, 0)));
    }
    assert_eq!(system.window_count(), 3);
    let mut data = PublicData::new();
    system.handle_event(&mut UIEvent::Update, &mut data);
    let ranges: Vec<(String, (u32, u32))> =
        seen.borrow().iter().map(|entry| (entry.0.clone(), entry.2.depth_range)).collect();
    assert_eq!(
        ranges,
        vec![
            (String::from("first-r"), (0, 14)),
            (String::from("first-l"), (0, 14)),
            (String::from("second-r"), (15, 29)),
            (String::from("second-l"), (15, 29)),
            (String::from("third-r"), (30, 44)),
            (String::from("third-l"), (30, 44)),
        ]
    );
    let ids: Vec<u32> = seen.borrow().iter().map(|entry| entry.3.id).collect();
    assert_eq!(ids, vec![6, 7, 13, 14, 20, 21]);
    assert_eq!(system.control_state.depth_stack.len(), 0);
}

#[test]
fn nested_splits_are_walked_to_the_leaves() {
    let seen = Rc::new(RefCell::new(Vec::new()));
    let mut system = WindowSystem::new();
    let mut tabs = Vec::new();
    for name in ["p", "q", "r", "s"] {
        let leaf = system
            .push_gui_container(Box::new(Recorder { name: String::from(name), seen: seen.clone() }))
            .expect("leaf");
        tabs.push(system.create_tab(vec![leaf]).expect("tabs"));
    }
    let column = system
        .push_vertical(vec![
            DividedElement::new_tab(tabs[0], 1),
            DividedElement::new_tab(tabs[1], 1),
        ])
        .expect("column");
    let row = system
        .push_horizontal(vec![
            DividedElement::new_tab(tabs[2], 1),
            DividedElement::new_layout(column, 1),
        ])
        .expect("row");
    let top = system
        .push_vertical(vec![DividedElement::new_layout(row, 3), DividedElement::new_tab(tabs[3], 1)])
        .expect("top");
    let _ = system.create_window(top, Vec2i::new(410, 434), Vec2i::new(0, 0));
    let mut data = PublicData::new();
    system.handle_event(&mut UIEvent::Update, &mut data);
    let visits: Vec<(String, Rect)> =
        seen.borrow().iter().map(|entry| (entry.0.clone(), entry.2.rect)).collect();
    assert_eq!(
        visits,
        vec![
            (String::from("s"), rect(0, -177, 400, 70)),
            (String::from("q"), rect(100, -50, 199, 120)),
            (String::from("p"), rect(100, 102, 199, 120)),
            (String::from("r"), rect(-101, 26, 199, 272)),
        ]
    );
}

#[test]
fn title_bar_drag_asks_the_host_to_move_the_window() {
    let mut scene = scene();
    gui_system::public_data::update_window_position(&mut scene.data, Vec2i::new(100, 100));
    hover(&mut scene, 0, 295);
    assert_eq!(scene.system.control_state.hovered, Some(Uiid { id: 1, depth: 0 }));
    send(&mut scene, pressed());
    assert!(scene.system.get_window(&scene.window).expect("window").top_bar_active_id.is_some());
    send(&mut scene, moved(20, 285));
    send(&mut scene, UIEvent::Update);
    assert_eq!(scene.data.apply_mut(), vec![WindowCommand::SetOuterPosition(Vec2i::new(120, 110))]);
    send(&mut scene, released());
    assert_eq!(scene.system.get_window(&scene.window).expect("window").top_bar_active_id, None);
}

#[test]
fn well_formedness_can_be_tested() {
    let mut scene = scene();
    assert!(scene.system.is_well_formed());
    hover(&mut scene, 0, 0);
    send(&mut scene, pressed());
    send(&mut scene, moved(-100, 0));
    assert!(scene.system.is_well_formed());

    let mut system = WindowSystem::new();
    assert!(system.is_well_formed());
    let leaf = system.push_gui_container(Box::new(WOne::new())).expect("leaf");
    let stale = GUIContainerSlotkey(gui_system::slotmap::SlotKey { index: 7, generation: 0 });
    let tabs = system.create_tab(vec![leaf, stale]).expect("tabs");
    assert!(!system.is_well_formed());

    let mut system = WindowSystem::new();
    let leaf = system.push_gui_container(Box::new(WOne::new())).expect("leaf");
    let good = system.create_tab(vec![leaf]).expect("tabs");
    let missing = TabsSlotKey(gui_system::slotmap::SlotKey { index: 3, generation: 0 });
    let row = system
        .push_horizontal(vec![DividedElement::new_tab(good, 1), DividedElement::new_tab(missing, 1)])
        .expect("a row");
    assert!(!system.is_well_formed());
    let _ = (tabs, row);

    let mut system = WindowSystem::new();
    let nowhere = LayoutSlotKey(gui_system::slotmap::SlotKey { index: 0, generation: 0 });
    let _ = system.create_window(nowhere, Vec2i::new(10, 10), Vec2i::new(0, 0));
    assert!(!system.is_well_formed());

    let mut system = WindowSystem::new();
    system.control_state.on_gui_start();
    system.control_state.set_depth_and_save(3);
    assert!(!system.is_well_formed());
    system.control_state.restore_depth();
    assert!(system.is_well_formed());
}

#[test]
fn system_without_windows_only_brackets_the_frame() {
    let mut system = WindowSystem::new();
    let mut data = PublicData::new();
    system.handle_event(&mut moved(12, 34), &mut data);
    assert_eq!(system.control_state.last_cursor_position, Some(Vec2i::new(12, 34)));
    assert_eq!(system.control_state.hovered, None);
    system.handle_event(&mut UIEvent::Update, &mut data);
    system.handle_event(&mut pressed(), &mut data);
    assert!(system.control_state.active_session().is_nil());
    system.handle_event(&mut UIEvent::CursorExit, &mut data);
    assert_eq!(system.control_state.last_cursor_position, None);
    let mut sink = GUIRects::new();
    let marker =
        DrawRequest { rect: rect(1, 2, 3, 4), kind: DrawKind::Custom { tag: 5 }, mask: None };
    sink.push(marker);
    system.render_event(&mut data, &mut sink);
    assert_eq!(sink.rect_collection, vec![marker]);
    data.push_mut(WindowCommand::Custom { tag: 8 });
    assert_eq!(data.apply_mut(), vec![WindowCommand::Custom { tag: 8 }]);
}

#[test]
fn three_columns_of_tabbed_panes() {
    let seen = Rc::new(RefCell::new(Vec::new()));
    let mut system = WindowSystem::new();
    let mut leaves = Vec::new();
    for index in 0..20 {
        leaves.push(
            system
                .push_gui_container(Box::new(Recorder {
                    name: format!("W | {}", index + 1),
                    seen: seen.clone(),
                }))
                .expect("leaf"),
        );
    }
    let groups: Vec<Vec<usize>> = vec![
        vec![0, 1],
        vec![2, 3, 4],
        vec![5, 6],
        vec![7, 8],
        vec![9, 10, 11],
        vec![12, 13],
        vec![14, 15, 16],
        vec![17],
        vec![18],
        vec![19],
    ];
    let tabs: Vec<TabsSlotKey> = groups
        .iter()
        .map(|group| {
            system.create_tab(group.iter().map(|leaf| leaves[*leaf]).collect()).expect("tabs")
        })
        .collect();
    let tab = |index: usize, weight: u32| DividedElement::new_tab(tabs[index], weight);
    let v1 = system.push_vertical(vec![tab(4, 1500), tab(5, 1000), tab(6, 2000)]).expect("v1");
    let d1 = system.push_vertical(vec![tab(7, 1000), tab(9, 1000)]).expect("d1");
    let d2 = system
        .push_horizontal(vec![DividedElement::new_layout(d1, 1000), tab(8, 1200)])
        .expect("d2");
    let v2 = system
        .push_vertical(vec![tab(0, 1000), DividedElement::new_layout(d2, 2000)])
        .expect("v2");
    let h1 = system.push_horizontal(vec![tab(1, 1000), tab(2, 1000)]).expect("h1");
    let v3 = system
        .push_vertical(vec![tab(3, 3000), DividedElement::new_layout(h1, 1000)])
        .expect("v3");
    let root = system
        .push_horizontal(vec![
            DividedElement::new_layout(v1, 1000),
            DividedElement::new_layout(v2, 2000),
            DividedElement::new_layout(v3, 1250),
        ])
        .expect("root");
    let _ = system.create_window(root, Vec2i::new(1128, 740), Vec2i::new(564, 370));
    assert!(system.is_well_formed());

    let mut data = PublicData::new();
    let events = vec![
        UIEvent::Update,
        moved(100, 100),
        UIEvent::Update,
        pressed(),
        moved(140, 90),
        UIEvent::Update,
        released(),
        UIEvent::Resize(Vec2i::new(900, 600)),
        UIEvent::Update,
        UIEvent::CursorExit,
        UIEvent::Update,
    ];
    for mut event in events {
        seen.borrow_mut().clear();
        system.handle_event(&mut event, &mut data);
        assert_eq!(seen.borrow().len(), 10);
        assert!(system.is_well_formed());
        assert!(system.control_state.active_session().is_nil() || system.control_state.hovered.is_none());
    }
    let mut ids: Vec<u32> = seen.borrow().iter().map(|entry| entry.3.id).collect();
    ids.dedup();
    assert_eq!(ids.len(), 10);
    let mut sink = GUIRects::new();
    system.render_event(&mut data, &mut sink);
    let strips =
        sink.rect_collection.iter().filter(|request| request.kind == DrawKind::TabStrip).count();
    assert_eq!(strips, 10);
    let labels = sink
        .rect_collection
        .iter()
        .filter(|request| matches!(request.kind, DrawKind::TabLabel { .. }))
        .count();
    assert_eq!(labels, 20);
}

#[test]
fn deferred_steps_of_a_window_are_drawn_before_the_next_window() {
    let seen = Rc::new(RefCell::new(Vec::new()));
    let mut system = WindowSystem::new();
    for name in ["back", "front"] {
        let left = system
            .push_gui_container(Box::new(Recorder { name: format!("{name}-l"), seen: seen.clone() }))
            .expect("leaf");
        let right = system
            .push_gui_container(Box::new(Recorder { name: format!("{name}-r"), seen: seen.clone() }))
            .expect("leaf");
        let tabs_left = system.create_tab(vec![left]).expect("tabs");
        let tabs_right = system.create_tab(vec![right]).expect("tabs");
        let root = system
            .push_horizontal(vec![
                DividedElement::new_tab(tabs_left, 1),
                DividedElement::new_tab(tabs_right, 1),
            ])
            .expect("row");
        system.create_window(root, Vec2i::new(400, 400), Vec2i::new(0, 0));
    }
    let mut data = PublicData::new();
    let mut sink = GUIRects::new();
    system.render_event(&mut data, &mut sink);
    let drawn = &sink.rect_collection;
    let bars: Vec<usize> = drawn
        .iter()
        .enumerate()
        .filter(|(_, request)| matches!(request.kind, DrawKind::TopBar { .. }))
        .map(|(at, _)| at)
        .collect();
    assert_eq!(bars.len(), 2);
    assert_eq!(bars[0], 0);
    assert_eq!(drawn.len(), 2 * bars[1]);
    let shadows: Vec<usize> = drawn
        .iter()
        .enumerate()
        .filter(|(_, request)| request.kind == DrawKind::TabShadow)
        .map(|(at, _)| at)
        .collect();
    let last = bars[1];
    assert_eq!(
        shadows,
        vec![
            last - 4,
            last - 3,
            last - 2,
            last - 1,
            2 * last - 4,
            2 * last - 3,
            2 * last - 2,
            2 * last - 1
        ]
    );
    let first_window: Vec<Rect> = drawn[..last].iter().map(|request| request.rect).collect();
    let second_window: Vec<Rect> = drawn[last..].iter().map(|request| request.rect).collect();
    assert_eq!(first_window, second_window);
}
