use gui_system::control::ControlId;
use gui_system::control::ControlState;
use gui_system::control::SessionId;
use gui_system::control::State;
use gui_system::control::Uiid;
use gui_system::geometry::Rect;
use gui_system::geometry::Vec2i;

fn rect(x: i32, y: i32, w: i32, h: i32) -> Rect {
    Rect::new(Vec2i::new(x, y), Vec2i::new(w, h))
}

/// A control state in which the control with the first identity of a frame is hovered.
fn hovered_state() -> (ControlState, Uiid) {
    let mut state = ControlState::new();
    state.on_gui_start();
    state.set_cursor_position(Some(Vec2i::new(5, 5)));
    let id = state.get_id();
    assert!(state.update_hot_with_rect(id, &rect(0, 0, 20, 20)));
    assert_eq!(state.on_gui_end(), State::Hovered);
    state.on_gui_start();
    let again = state.get_id();
    assert_eq!(again, id);
    (state, id)
}

#[test]
fn identities_of_a_frame_are_distinct_and_rising() {
    let mut state = ControlState::new();
    state.on_gui_start();
    let mut seen: Vec<Uiid> = Vec::new();
    for _ in 0..50 {
        let id = state.get_id();
        for earlier in seen.iter() {
            assert_ne!(*earlier, id);
            assert!(earlier.id < id.id);
        }
        seen.push(id);
    }
    assert_eq!(seen[0], Uiid { id: 1, depth: 0 });
    assert_eq!(seen[49], Uiid { id: 50, depth: 0 });
}

#[test]
fn identities_start_again_with_each_frame() {
    let mut state = ControlState::new();
    state.on_gui_start();
    let first = state.get_id();
    let _ = state.get_id();
    state.on_gui_end();
    state.on_gui_start();
    assert_eq!(state.get_id(), first);
}

#[test]
fn depth_scope_is_saved_and_restored() {
    let mut state = ControlState::new();
    state.on_gui_start();
    assert_eq!(state.get_current_depth(), 0);
    state.set_depth_and_save(7);
    assert_eq!(state.get_current_depth(), 7);
    let deep = state.get_id();
    assert_eq!(deep, Uiid { id: 1, depth: 7 });
    state.set_depth_and_save(12);
    assert_eq!(state.get_id(), Uiid { id: 2, depth: 12 });
    state.restore_depth();
    assert_eq!(state.get_current_depth(), 7);
    state.restore_depth();
    assert_eq!(state.get_current_depth(), 0);
    assert_eq!(state.depth_stack.len(), 0);
    assert_eq!(state.get_id(), Uiid { id: 3, depth: 0 });
    state.restore_depth();
    assert_eq!(state.get_current_depth(), 0);
}

#[test]
fn current_depth_is_zero_outside_a_frame() {
    let state = ControlState::new();
    assert_eq!(state.get_current_depth(), 0);
}

#[test]
fn deeper_control_displaces_hot_and_shallower_does_not() {
    let mut state = ControlState::new();
    state.on_gui_start();
    let shallow = Uiid { id: 1, depth: 2 };
    let deep = Uiid { id: 2, depth: 5 };
    let level = Uiid { id: 3, depth: 5 };
    let late_shallow = Uiid { id: 4, depth: 1 };
    assert!(state.set_hot(shallow));
    assert!(state.set_hot(deep));
    assert!(state.set_hot(level));
    assert!(!state.set_hot(late_shallow));
    assert_eq!(state.on_gui_end(), State::Hovered);
    assert_eq!(state.hovered, Some(level));
}

#[test]
fn hit_test_outside_takes_the_hover_away() {
    let (mut state, id) = hovered_state();
    assert_eq!(state.get_control_state(ControlId::Control(id)), State::Hovered);
    assert!(!state.update_hot_with_rect(id, &rect(100, 100, 20, 20)));
    assert_eq!(state.hovered, None);
    assert_eq!(state.get_control_state(ControlId::Control(id)), State::Inactive);
}

#[test]
fn hit_test_without_cursor_takes_the_hover_away() {
    let (mut state, id) = hovered_state();
    state.set_cursor_position(None);
    assert!(!state.update_hot_with_rect(id, &rect(0, 0, 20, 20)));
    assert_eq!(state.hovered, None);
}

#[test]
fn hit_test_of_another_control_leaves_the_hover() {
    let (mut state, id) = hovered_state();
    let other = Uiid { id: 9, depth: 0 };
    assert!(!state.update_hot_with_rect(other, &rect(100, 100, 20, 20)));
    assert_eq!(state.hovered, Some(id));
}

#[test]
fn hit_test_is_half_open() {
    let mut state = ControlState::new();
    state.on_gui_start();
    let id = state.get_id();
    let area = rect(0, 0, 20, 20);
    state.set_cursor_position(Some(Vec2i::new(-10, -10)));
    assert!(state.update_hot_with_rect(id, &area));
    state.set_cursor_position(Some(Vec2i::new(9, 9)));
    assert!(state.update_hot_with_rect(id, &area));
    state.set_cursor_position(Some(Vec2i::new(10, 0)));
    assert!(!state.update_hot_with_rect(id, &area));
    state.set_cursor_position(Some(Vec2i::new(0, 10)));
    assert!(!state.update_hot_with_rect(id, &area));
    state.set_cursor_position(Some(Vec2i::new(-11, 0)));
    assert!(!state.update_hot_with_rect(id, &area));
}

#[test]
fn only_the_hovered_control_starts_a_session() {
    let (mut state, id) = hovered_state();
    let other = Uiid { id: 2, depth: 0 };
    assert_eq!(state.set_active(other), None);
    assert!(state.active_session().is_nil());
    let session = state.set_active(id).expect("the hovered control starts a session");
    assert!(!session.is_nil());
    assert_eq!(state.active_session(), session);
    assert_eq!(state.get_control_state(ControlId::Active(session)), State::Active);
}

#[test]
fn no_second_session_while_one_is_active() {
    let (mut state, id) = hovered_state();
    let session = state.set_active(id).expect("first session");
    assert_eq!(state.set_active(id), None);
    assert_eq!(state.set_active_session(id, SessionId::from_u128(77)), None);
    assert_eq!(state.active_session(), session);
    let stranger = SessionId::from_u128(77);
    assert_eq!(state.get_control_state(ControlId::Active(stranger)), State::Inactive);
}

#[test]
fn fresh_sessions_are_random_uuids() {
    let mut seen: Vec<SessionId> = Vec::new();
    for _ in 0..20 {
        let (mut state, id) = hovered_state();
        let session = state.set_active(id).expect("session");
        assert_ne!(session.as_u128(), 0);
        assert_eq!(
            session.as_u128() & 0x0000_0000_0000_f000_c000_0000_0000_0000,
            0x0000_0000_0000_4000_8000_0000_0000_0000
        );
        assert!(!seen.contains(&session));
        seen.push(session);
    }
    let direct = SessionId::new_random();
    assert!(!direct.is_nil());
    assert!(!seen.contains(&direct));
}

#[test]
fn given_session_is_the_one_that_starts() {
    let (mut state, id) = hovered_state();
    let session = SessionId::from_u128(0x1234);
    assert_eq!(state.set_active_session(id, session), Some(session));
    assert_eq!(state.active_session(), session);
}

#[test]
fn no_hot_claim_while_a_session_is_active() {
    let (mut state, id) = hovered_state();
    let _ = state.set_active(id).expect("session");
    assert!(!state.set_hot(Uiid { id: 5, depth: 100 }));
}

#[test]
fn hover_is_dropped_when_a_session_is_active_at_gui_end() {
    let (mut state, id) = hovered_state();
    let session = state.set_active(id).expect("session");
    assert_eq!(state.on_gui_end(), State::Inactive);
    assert_eq!(state.active_session(), session);
    assert_eq!(state.hovered, None);
}

#[test]
fn gui_end_without_hot_keeps_the_hover() {
    let (mut state, id) = hovered_state();
    assert_eq!(state.on_gui_end(), State::Hovered);
    assert_eq!(state.hovered, Some(id));
}

#[test]
fn gui_end_with_nothing_hovered_is_inactive() {
    let mut state = ControlState::new();
    state.on_gui_start();
    assert_eq!(state.on_gui_end(), State::Inactive);
}

#[test]
fn remove_active_wants_the_right_session() {
    let (mut state, id) = hovered_state();
    let session = state.set_active(id).expect("session");
    assert_eq!(state.remove_active(SessionId::from_u128(1)), Err(()));
    assert_eq!(state.active_session(), session);
    assert_eq!(state.remove_active(session), Ok(()));
    assert!(state.active_session().is_nil());
    assert_eq!(state.remove_active(session), Err(()));
}

#[test]
fn unheld_session_is_released_after_update() {
    let (mut state, id) = hovered_state();
    let _ = state.set_active(id).expect("session");
    state.on_gui_end();
    state.on_after_update();
    assert!(state.active_session().is_nil());
}

#[test]
fn held_session_survives_the_update() {
    let (mut state, id) = hovered_state();
    let session = state.set_active(id).expect("session");
    state.on_gui_end();
    state.on_gui_start();
    state.hold_active_state(SessionId::from_u128(3));
    state.on_gui_end();
    state.on_after_update();
    assert!(state.active_session().is_nil());

    let (mut state, id) = hovered_state();
    let session_two = state.set_active(id).expect("session");
    assert_ne!(session, session_two);
    state.on_gui_end();
    state.on_gui_start();
    state.hold_active_state(session_two);
    state.on_gui_end();
    state.on_after_update();
    assert_eq!(state.active_session(), session_two);
    state.on_gui_start();
    state.on_gui_end();
    state.on_after_update();
    assert!(state.active_session().is_nil());
}

#[test]
fn hover_is_held_only_while_a_control_is_hot() {
    let (mut state, id) = hovered_state();
    assert!(state.update_hot_with_rect(id, &rect(0, 0, 20, 20)));
    state.on_gui_end();
    state.on_after_update();
    state.on_frame_end();
    assert_eq!(state.hovered, Some(id));
    state.on_gui_start();
    state.on_gui_end();
    state.on_after_update();
    state.on_frame_end();
    assert_eq!(state.hovered, None);
}

#[test]
fn cursor_exit_resets_session_and_cursor() {
    let (mut state, id) = hovered_state();
    let _ = state.set_active(id).expect("session");
    state.on_cursor_exit();
    assert!(state.active_session().is_nil());
    assert_eq!(state.last_cursor_position, None);
    assert_eq!(state.cursor_position(), None);
    assert_eq!(state.get_current_depth(), 0);
    assert_eq!(state.on_gui_end(), State::Hovered);
}

#[test]
fn nil_session_is_nil() {
    assert!(SessionId::nil().is_nil());
    assert_eq!(SessionId::nil().as_u128(), 0);
    assert!(!SessionId::from_u128(1).is_nil());
}

#[test]
fn identity_turns_into_control_id() {
    let id = Uiid { id: 4, depth: 2 };
    let control: ControlId = id.into();
    assert_eq!(control, ControlId::Control(id));
    assert_eq!(Uiid::default(), Uiid { id: 0, depth: 0 });
}

#[test]
fn is_hovered_agrees_with_the_state() {
    let (state, id) = hovered_state();
    assert!(state.is_hovered(id));
    assert!(!state.is_hovered(Uiid { id: 2, depth: 0 }));
}
