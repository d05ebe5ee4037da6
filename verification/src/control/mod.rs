//! The per-frame control identity, hover and active-session state machine.
//!
//! Every control asks for an identity once per frame, in a stable order. A control under
//! the cursor claims to be *hot*; at the end of the event the hot control becomes the
//! *hovered* one. A hovered control may start an *active session*, which survives frame
//! boundaries for as long as its owner votes to hold it.

use vstd::prelude::*;
use crate::geometry::Rect;
use crate::geometry::Vec2i;

pub mod button;
pub mod drag_element;
pub mod main_window_top_bar;
pub mod slider;

verus! {

/// What a control is to the pointer.
#[derive(Clone, Copy, Debug, PartialEq, Eq, Structural)]
pub enum State {
    Inactive,
    Hovered,
    Active,
}

/// Identity of a control within one frame: a running number and the depth it was asked at.
#[derive(Clone, Copy, Debug, PartialEq, Eq, Structural)]
pub struct Uiid {
    pub id: u32,
    pub depth: u32,
}

impl Default for Uiid {
    fn default() -> (r: Uiid)
        ensures
            r == (Uiid { id: 0, depth: 0 }),
    {
        Uiid { id: 0, depth: 0 }
    }
}

/// Identifier of an active session: the 128 bits of a UUID. All bits zero is the nil
/// identifier, which stands for "no session".
#[derive(Clone, Copy, Debug, PartialEq, Eq, Structural)]
pub struct SessionId {
    pub value: u128,
}

/// Bits that carry the version and the variant of a UUID.
pub const UUID_VERSION_VARIANT_MASK: u128 = 0x0000_0000_0000_f000_c000_0000_0000_0000;

/// Version 4 (random) and the RFC variant, at the place of the mask.
pub const UUID_V4_RFC_BITS: u128 = 0x0000_0000_0000_4000_8000_0000_0000_0000;

impl SessionId {
    pub open spec fn spec_nil() -> SessionId {
        SessionId { value: 0 }
    }

    pub open spec fn spec_is_nil(&self) -> bool {
        self.value == 0
    }

    /// The identifier carries the version and variant bits of a random UUID.
    pub open spec fn is_random_uuid(&self) -> bool {
        self.value & UUID_VERSION_VARIANT_MASK == UUID_V4_RFC_BITS
    }

    #[verifier::when_used_as_spec(spec_nil)]
    pub fn nil() -> (id: SessionId)
        ensures
            id == SessionId::spec_nil(),
    {
        SessionId { value: 0 }
    }

    #[verifier::when_used_as_spec(spec_is_nil)]
    pub fn is_nil(&self) -> (nil: bool)
        ensures
            nil == self.spec_is_nil(),
    {
        self.value == 0
    }

    pub fn from_u128(value: u128) -> (id: SessionId)
        ensures
            id.value == value,
    {
        SessionId { value }
    }

    pub fn as_u128(&self) -> (value: u128)
        ensures
            value == self.value,
    {
        self.value
    }

    /// A fresh identifier for a session that is about to start. It is never nil.
    pub fn new_random() -> (id: SessionId)
        ensures
            id.is_random_uuid(),
            !id.is_nil(),
    {
        let value: u128 = random_uuid_bits();
        assert(value & 0x0000_0000_0000_f000_c000_0000_0000_0000
            == 0x0000_0000_0000_4000_8000_0000_0000_0000 ==> value != 0) by (bit_vector);
        SessionId { value }
    }
}

/// `uuid::Uuid::new_v4`, read as a 128-bit number with `Uuid::as_u128`. The generator
/// takes random bits from the operating system and overwrites the version nibble with 4
/// and the two variant bits with `10`; nothing else is claimed of the result. It panics
/// if the operating system hands out no random bits.
#[verifier::external_body]
fn random_uuid_bits() -> (value: u128)
    ensures
        value & UUID_VERSION_VARIANT_MASK == UUID_V4_RFC_BITS,
{
    uuid::Uuid::new_v4().as_u128()
}

/// How a control names itself when it asks for its state.
#[derive(Clone, Copy, Debug, PartialEq, Eq, Structural)]
pub enum ControlId {
    /// A control that owns a session which persists across frames.
    Active(SessionId),
    /// A control known by its identity of this frame only.
    Control(Uiid),
}

impl From<Uiid> for ControlId {
    fn from(id: Uiid) -> (r: ControlId)
    {
        ControlId::Control(id)
    }
}

impl vstd::std_specs::convert::FromSpecImpl<Uiid> for ControlId {
    open spec fn obeys_from_spec() -> bool {
        true
    }

    open spec fn from_spec(id: Uiid) -> ControlId {
        ControlId::Control(id)
    }
}

/// The name under which a control that may own a session asks for its state: its
/// session while it has one, else its identity of this frame.
pub open spec fn current_control_id(control_id: Uiid, active_id: Option<SessionId>) -> ControlId {
    match active_id {
        Some(session) => ControlId::Active(session),
        None => ControlId::Control(control_id),
    }
}

/// Executable form of [`current_control_id`].
pub fn get_current_control_id(control_id: Uiid, active_id: &Option<SessionId>) -> (id: ControlId)
    ensures
        id == current_control_id(control_id, *active_id),
{
    match active_id {
        Some(session) => ControlId::Active(*session),
        None => ControlId::Control(control_id),
    }
}

/// The running number that follows `id`. It stops at `u32::MAX`.
pub open spec fn next_id(id: u32) -> u32 {
    if id < u32::MAX {
        (id + 1) as u32
    } else {
        id
    }
}

/// Mathematical value of a [`ControlState`].
pub struct ControlStateView {
    /// Last identity handed out in this frame; `None` outside a frame.
    pub current_ui_id: Option<Uiid>,
    /// Candidate for hover of this frame.
    pub hot: Option<Uiid>,
    pub hold_hover: bool,
    /// Committed hover.
    pub hovered: Option<Uiid>,
    pub hold_active: bool,
    /// The active session, nil for none.
    pub active: SessionId,
    pub last_cursor_position: Option<Vec2i>,
    pub depth_stack: Seq<u32>,
}

impl ControlStateView {
    /// The state before the first frame: no frame open, nothing hot, hovered or active.
    pub open spec fn initial() -> ControlStateView {
        ControlStateView {
            current_ui_id: None,
            hot: None,
            hold_hover: false,
            hovered: None,
            hold_active: false,
            active: SessionId::nil(),
            last_cursor_position: None,
            depth_stack: Seq::empty(),
        }
    }

    pub open spec fn current_depth(self) -> u32 {
        match self.current_ui_id {
            Some(ui_id) => ui_id.depth,
            None => 0,
        }
    }

    pub open spec fn with_depth(self, depth: u32) -> ControlStateView {
        ControlStateView {
            current_ui_id: Some(Uiid { id: self.current_ui_id->0.id, depth }),
            ..self
        }
    }

    /// The identity that the next call of `get_id` returns.
    pub open spec fn upcoming_id(self) -> Uiid {
        Uiid { id: next_id(self.current_ui_id->0.id), depth: self.current_ui_id->0.depth }
    }

    pub open spec fn get_id(self) -> ControlStateView {
        ControlStateView { current_ui_id: Some(self.upcoming_id()), ..self }
    }

    /// A claim of `id` to be hot succeeds: no session is active, and the present claim,
    /// if there is one, is not deeper than `id`.
    pub open spec fn may_set_hot(self, id: Uiid) -> bool {
        self.active.is_nil() && (self.hot is Some ==> self.hot->0.depth <= id.depth)
    }

    pub open spec fn set_hot(self, id: Uiid) -> ControlStateView {
        if self.may_set_hot(id) {
            ControlStateView { hot: Some(id), ..self }
        } else {
            self
        }
    }

    pub open spec fn unset_hovered(self, id: Uiid) -> ControlStateView {
        if self.hovered == Some(id) {
            ControlStateView { hovered: None, ..self }
        } else {
            self
        }
    }

    pub open spec fn set_depth_and_save(self, depth: u32) -> ControlStateView {
        ControlStateView {
            depth_stack: self.depth_stack.push(self.current_depth()),
            ..self.with_depth(depth)
        }
    }

    pub open spec fn restore_depth(self) -> ControlStateView {
        if self.depth_stack.len() > 0 {
            ControlStateView {
                depth_stack: self.depth_stack.drop_last(),
                ..self.with_depth(self.depth_stack.last())
            }
        } else {
            self
        }
    }

    /// The cursor is known and lies inside `rect`.
    pub open spec fn cursor_inside(self, rect: Rect) -> bool {
        self.last_cursor_position is Some && rect.contains(self.last_cursor_position->0)
    }

    pub open spec fn update_hot_with_rect(self, id: Uiid, rect: Rect) -> ControlStateView {
        if self.cursor_inside(rect) {
            self.set_hot(id)
        } else {
            self.unset_hovered(id)
        }
    }

    pub open spec fn control_state(self, id: ControlId) -> State {
        match id {
            ControlId::Active(session) => if self.active == session {
                State::Active
            } else {
                State::Inactive
            },
            ControlId::Control(ui_id) => if self.hovered == Some(ui_id) {
                State::Hovered
            } else {
                State::Inactive
            },
        }
    }

    /// A session may start for `id`: it is the hovered control and no session is active.
    pub open spec fn may_set_active(self, id: Uiid) -> bool {
        self.hovered == Some(id) && self.active.is_nil()
    }

    pub open spec fn set_active(self, id: Uiid, session: SessionId) -> ControlStateView {
        if self.may_set_active(id) {
            ControlStateView { active: session, ..self }
        } else {
            self
        }
    }

    pub open spec fn remove_active(self, session: SessionId) -> ControlStateView {
        if self.active == session {
            ControlStateView { active: SessionId::nil(), ..self }
        } else {
            self
        }
    }

    pub open spec fn hold_active_state(self, session: SessionId) -> ControlStateView {
        if self.active == session {
            ControlStateView { hold_active: true, ..self }
        } else {
            self
        }
    }

    pub open spec fn on_gui_start(self) -> ControlStateView {
        ControlStateView {
            hold_active: false,
            current_ui_id: Some(Uiid { id: 0, depth: 0 }),
            ..self
        }
    }

    pub open spec fn on_gui_end(self) -> ControlStateView {
        if self.active.is_nil() {
            if self.hot is Some {
                ControlStateView { hovered: self.hot, ..self }
            } else {
                self
            }
        } else {
            ControlStateView { hovered: None, ..self }
        }
    }

    pub open spec fn on_cursor_exit(self) -> ControlStateView {
        ControlStateView {
            active: SessionId::nil(),
            current_ui_id: None,
            hot: None,
            hold_active: false,
            last_cursor_position: None,
            ..self
        }
    }

    pub open spec fn on_after_update(self) -> ControlStateView {
        ControlStateView {
            active: if self.hold_active {
                self.active
            } else {
                SessionId::nil()
            },
            hold_hover: self.hot is Some,
            hot: None,
            ..self
        }
    }

    pub open spec fn on_frame_end(self) -> ControlStateView {
        if self.hold_hover {
            self
        } else {
            ControlStateView { hovered: None, ..self }
        }
    }
}

/// What a handler of an event must leave of the control state: a frame stays open, the
/// running number of the identities has not gone back, and the depth scope is as it was
/// found.
pub open spec fn frame_kept(before: ControlStateView, after: ControlStateView) -> bool {
    &&& after.current_ui_id is Some
    &&& after.current_ui_id->0.id >= before.current_ui_id->0.id
    &&& after.current_ui_id->0.depth == before.current_ui_id->0.depth
    &&& after.depth_stack == before.depth_stack
}

/// The running number of the identities has not gone back, and a frame is open.
pub open spec fn counter_kept(before: ControlStateView, after: ControlStateView) -> bool {
    &&& after.current_ui_id is Some
    &&& after.current_ui_id->0.id >= before.current_ui_id->0.id
}

/// Two identities that are handed out in one frame differ, and the later one has the
/// greater running number. `first` is the state before the first of the two calls of
/// `get_id`, `later` the state before the second one: it has come from the state that the
/// first call left by steps that did not take the running number back. The running
/// number stops at `u32::MAX`; the law holds of the frames that have not got there.
pub proof fn lemma_identities_differ(first: ControlStateView, later: ControlStateView)
    requires
        first.current_ui_id is Some,
        counter_kept(first.get_id(), later),
        later.current_ui_id->0.id < u32::MAX,
    ensures
        first.upcoming_id() != later.upcoming_id(),
        first.upcoming_id().id < later.upcoming_id().id,
{
}

/// Within a frame no step but the start of a frame and the exit of the cursor takes the
/// running number of the identities back: `get_id` raises it, and every other step
/// leaves it as it is.
pub proof fn lemma_steps_keep_counter(
    state: ControlStateView,
    id: Uiid,
    rect: Rect,
    depth: u32,
    session: SessionId,
)
    requires
        state.current_ui_id is Some,
    ensures
        counter_kept(state, state.get_id()),
        counter_kept(state, state.set_hot(id)),
        counter_kept(state, state.unset_hovered(id)),
        counter_kept(state, state.update_hot_with_rect(id, rect)),
        counter_kept(state, state.with_depth(depth)),
        counter_kept(state, state.set_depth_and_save(depth)),
        counter_kept(state, state.restore_depth()),
        counter_kept(state, state.set_active(id, session)),
        counter_kept(state, state.remove_active(session)),
        counter_kept(state, state.hold_active_state(session)),
        counter_kept(state, state.on_gui_end()),
        counter_kept(state, state.on_after_update()),
        counter_kept(state, state.on_frame_end()),
{
}

/// At most one session is active at any time: two sessions that the control state both
/// reports as active are the same session.
pub proof fn lemma_one_active_session(state: ControlStateView, a: SessionId, b: SessionId)
    requires
        state.control_state(ControlId::Active(a)) == State::Active,
        state.control_state(ControlId::Active(b)) == State::Active,
    ensures
        a == b,
{
}

/// While a session is active no other session begins: `set_active` leaves the state as
/// it is.
pub proof fn lemma_active_session_stays(state: ControlStateView, id: Uiid, session: SessionId)
    requires
        !state.active.is_nil(),
    ensures
        !state.may_set_active(id),
        state.set_active(id, session) == state,
{
}

/// The single authority on what the pointer interacts with.
pub struct ControlState {
    current_ui_id: Option<Uiid>,
    hot: Option<Uiid>,
    hold_hover: bool,
    pub hovered: Option<Uiid>,
    hold_active: bool,
    active: SessionId,
    pub last_cursor_position: Option<Vec2i>,
    pub depth_stack: Vec<u32>,
}

impl View for ControlState {
    type V = ControlStateView;

    closed spec fn view(&self) -> ControlStateView {
        ControlStateView {
            current_ui_id: self.current_ui_id,
            hot: self.hot,
            hold_hover: self.hold_hover,
            hovered: self.hovered,
            hold_active: self.hold_active,
            active: self.active,
            last_cursor_position: self.last_cursor_position,
            depth_stack: self.depth_stack@,
        }
    }
}

impl ControlState {
    /// A frame is open: identities can be handed out.
    pub open spec fn in_frame(&self) -> bool {
        self@.current_ui_id is Some
    }

    pub fn new() -> (state: ControlState)
        ensures
            state@ == ControlStateView::initial(),
    {
        ControlState {
            last_cursor_position: None,
            current_ui_id: None,
            hot: None,
            hold_hover: false,
            hovered: None,
            active: SessionId::nil(),
            hold_active: false,
            depth_stack: Vec::with_capacity(25),
        }
    }

    /// The identity of the next control of this frame.
    pub fn get_id(&mut self) -> (id: Uiid)
        requires
            old(self).in_frame(),
        ensures
            id == old(self)@.upcoming_id(),
            final(self)@ == old(self)@.get_id(),
            old(self)@.current_ui_id->0.id < u32::MAX ==> id.id > old(self)@.current_ui_id->0.id,
    {
        let current: Uiid = self.current_ui_id.unwrap();
        let id: u32 = if current.id < u32::MAX {
            current.id + 1
        } else {
            current.id
        };
        let next = Uiid { id, depth: current.depth };
        self.current_ui_id = Some(next);
        next
    }

    /// Claims hover candidacy for `id`. Returns true if hot was changed.
    pub fn set_hot(&mut self, id: Uiid) -> (changed: bool)
        ensures
            changed == old(self)@.may_set_hot(id),
            final(self)@ == old(self)@.set_hot(id),
    {
        if self.active.is_nil() {
            match self.hot {
                Some(hot) => {
                    if hot.depth <= id.depth {
                        self.hot = Some(id);
                        return true;
                    }
                },
                None => {
                    self.hot = Some(id);
                    return true;
                },
            }
        }
        false
    }

    fn unset_hovered(&mut self, id: Uiid) -> (changed: bool)
        ensures
            changed == (old(self)@.hovered == Some(id)),
            final(self)@ == old(self)@.unset_hovered(id),
    {
        if let Some(hovered) = self.hovered {
            if hovered == id {
                self.hovered = None;
                return true;
            }
        }
        false
    }

    /// Sets the depth at which the following identities are handed out.
    pub fn set_depth(&mut self, depth: u32)
        requires
            old(self).in_frame(),
        ensures
            final(self)@ == old(self)@.with_depth(depth),
    {
        let current: Uiid = self.current_ui_id.unwrap();
        self.current_ui_id = Some(Uiid { id: current.id, depth });
    }

    /// Remembers the present depth and sets a new one.
    pub fn set_depth_and_save(&mut self, depth: u32)
        requires
            old(self).in_frame(),
        ensures
            final(self)@ == old(self)@.set_depth_and_save(depth),
    {
        let saved: u32 = self.get_current_depth();
        self.depth_stack.push(saved);
        self.set_depth(depth);
    }

    /// Goes back to the depth that the matching `set_depth_and_save` remembered.
    pub fn restore_depth(&mut self)
        requires
            old(self)@.depth_stack.len() > 0 ==> old(self).in_frame(),
        ensures
            final(self)@ == old(self)@.restore_depth(),
    {
        let pop_depth = self.depth_stack.pop();
        if let Some(depth) = pop_depth {
            self.set_depth(depth);
        }
    }

    pub fn get_current_depth(&self) -> (depth: u32)
        ensures
            depth == self@.current_depth(),
    {
        match self.current_ui_id {
            Some(ui_id) => ui_id.depth,
            None => 0,
        }
    }

    /// Claims hover candidacy for `id` if the cursor is inside `control_rect`, and takes
    /// the committed hover away from `id` if it is not. Returns true if the control is
    /// hot now.
    pub fn update_hot_with_rect(&mut self, id: Uiid, control_rect: &Rect) -> (hot: bool)
        ensures
            hot == (old(self)@.cursor_inside(*control_rect) && old(self)@.may_set_hot(id)),
            final(self)@ == old(self)@.update_hot_with_rect(id, *control_rect),
    {
        if let Some(cursor_pos) = self.last_cursor_position {
            if control_rect.inside_rect(cursor_pos) {
                self.set_hot(id)
            } else {
                self.unset_hovered(id);
                false
            }
        } else {
            self.unset_hovered(id);
            false
        }
    }

    pub fn get_control_state(&self, id: ControlId) -> (state: State)
        ensures
            state == self@.control_state(id),
    {
        match id {
            ControlId::Active(session) => {
                if self.active == session {
                    State::Active
                } else {
                    State::Inactive
                }
            },
            ControlId::Control(ui_id) => {
                if let Some(hovered) = self.hovered {
                    if hovered == ui_id {
                        State::Hovered
                    } else {
                        State::Inactive
                    }
                } else {
                    State::Inactive
                }
            },
        }
    }

    /// The control `id` is the hovered one.
    pub fn is_hovered(&self, id: Uiid) -> (hovered: bool)
        ensures
            hovered == (self@.hovered == Some(id)),
    {
        match self.hovered {
            Some(hovered) => hovered == id,
            None => false,
        }
    }

    /// Number of depth scopes that are open.
    pub fn depth_stack_len(&self) -> (count: usize)
        ensures
            count == self@.depth_stack.len(),
    {
        self.depth_stack.len()
    }

    /// Where the cursor was last seen, if it is on the surface.
    pub fn cursor_position(&self) -> (position: Option<Vec2i>)
        ensures
            position == self@.last_cursor_position,
    {
        self.last_cursor_position
    }

    /// Records where the cursor is, or that it is unknown.
    pub fn set_cursor_position(&mut self, position: Option<Vec2i>)
        ensures
            final(self)@ == (ControlStateView { last_cursor_position: position, ..old(self)@ }),
    {
        self.last_cursor_position = position;
    }

    /// The active session, nil if there is none.
    pub fn active_session(&self) -> (session: SessionId)
        ensures
            session == self@.active,
    {
        self.active
    }

    /// Starts the session `session` for `id` if `id` is the hovered control and no session
    /// is active yet.
    pub fn set_active_session(&mut self, id: Uiid, session: SessionId) -> (started: Option<
        SessionId,
    >)
        ensures
            started == if old(self)@.may_set_active(id) {
                Some(session)
            } else {
                None
            },
            final(self)@ == old(self)@.set_active(id, session),
    {
        if let Some(hovered) = self.hovered {
            if self.active.is_nil() && hovered == id {
                self.active = session;
                Some(session)
            } else {
                None
            }
        } else {
            None
        }
    }

    /// Starts a session under a fresh identifier for `id` if `id` is the hovered control
    /// and no session is active yet. This is the one way in which a drag or a press
    /// begins.
    pub fn set_active(&mut self, id: Uiid) -> (started: Option<SessionId>)
        ensures
            started is Some <==> old(self)@.may_set_active(id),
            !old(self)@.active.is_nil() ==> started is None,
            started is Some ==> !started->0.is_nil() && started->0.is_random_uuid(),
            started is Some ==> final(self)@ == old(self)@.set_active(id, started->0),
            started is None ==> final(self)@ == old(self)@,
    {
        if let Some(hovered) = self.hovered {
            if self.active.is_nil() && hovered == id {
                let session = SessionId::new_random();
                self.set_active_session(id, session)
            } else {
                None
            }
        } else {
            None
        }
    }

    /// Ends the session `active_id` if it is the active one.
    pub fn remove_active(&mut self, active_id: SessionId) -> (removed: Result<(), ()>)
        ensures
            removed is Ok <==> old(self)@.active == active_id,
            final(self)@ == old(self)@.remove_active(active_id),
    {
        if self.active == active_id {
            self.active = SessionId::nil();
            Ok(())
        } else {
            Err(())
        }
    }

    /// A vote of the owner of `active_id` to keep its session for another frame.
    pub fn hold_active_state(&mut self, active_id: SessionId)
        ensures
            final(self)@ == old(self)@.hold_active_state(active_id),
    {
        if self.active == active_id {
            self.hold_active = true;
        }
    }

    /// Called at the start of the frame.
    pub fn on_gui_start(&mut self)
        ensures
            final(self)@ == old(self)@.on_gui_start(),
            final(self).in_frame(),
    {
        self.hold_active = false;
        self.current_ui_id = Some(Uiid { id: 0, depth: 0 });
    }

    /// Commits the hot control as the hovered one, unless a session is active: then
    /// nothing is hovered.
    pub fn on_gui_end(&mut self) -> (state: State)
        requires
            old(self)@.depth_stack.len() == 0,
        ensures
            final(self)@ == old(self)@.on_gui_end(),
            state == if final(self)@.active.is_nil() && final(self)@.hovered is Some {
                State::Hovered
            } else {
                State::Inactive
            },
            !final(self)@.active.is_nil() ==> final(self)@.hovered is None,
    {
        if self.active.is_nil() {
            if self.hot.is_some() {
                self.hovered = self.hot;
            }
            if self.hovered.is_some() {
                State::Hovered
            } else {
                State::Inactive
            }
        } else {
            self.hovered = None;
            State::Inactive
        }
    }

    /// The pointer left the surface: session, hot control, identities and cursor position
    /// are dropped.
    pub fn on_cursor_exit(&mut self)
        ensures
            final(self)@ == old(self)@.on_cursor_exit(),
    {
        self.active = SessionId::nil();
        self.current_ui_id = None;
        self.hot = None;
        self.hold_active = false;
        self.last_cursor_position = None;
    }

    /// Releases the session if nobody voted to hold it, and notes whether a control was hot.
    pub fn on_after_update(&mut self)
        ensures
            final(self)@ == old(self)@.on_after_update(),
    {
        if !self.hold_active {
            self.active = SessionId::nil();
        }
        if self.hot.is_some() {
            self.hold_hover = true;
        } else {
            self.hold_hover = false;
        }
        self.hot = None;
    }

    /// Drops the hover if no control was hot in the last update.
    pub fn on_frame_end(&mut self)
        ensures
            final(self)@ == old(self)@.on_frame_end(),
    {
        if !self.hold_hover {
            self.hovered = None;
        }
    }
}

} // verus!
