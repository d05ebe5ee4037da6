//! What the GUI reads of its host, and the queue of changes that it asks the host for.
//!
//! While an event walks the tree, the state of the host is read only. A control that
//! wants the host to move or to resize its window queues a command; the host takes the
//! queue and applies it when the walk is over.

use vstd::prelude::*;
use crate::anymap::Anymap;
use crate::geometry::Vec2i;

verus! {

/// A change that a control asks the host to make to its window.
#[derive(Clone, Copy, Debug, PartialEq, Eq, Structural)]
pub enum WindowCommand {
    /// Move the window so that its outer position is the given one.
    SetOuterPosition(Vec2i),
    /// Resize the window so that its inner size is the given one.
    SetInnerSize(Vec2i),
    /// A change that only the host knows how to make; the host finds it by its tag.
    Custom { tag: u64 },
}

/// What the controls read of the engine.
#[derive(Clone, Copy, Debug, PartialEq, Eq, Structural)]
pub struct EngineData {
    /// Size of the surface.
    pub screen_size: Vec2i,
    /// Outer position of the window on its screen.
    pub window_position: Vec2i,
}

/// The state of the host as the controls see it, and the queue of their commands.
pub struct PublicData {
    /// What the host keeps for its widgets, one value of each type.
    pub collection: Anymap,
    pub engine_data: EngineData,
    pub mutations: Vec<WindowCommand>,
}

impl PublicData {
    /// What a handler of an event leaves alone: all but the queue of commands.
    pub open spec fn host_kept(&self, before: &PublicData) -> bool {
        self.engine_data == before.engine_data && self.collection == before.collection
    }

    pub fn new() -> (data: PublicData)
        ensures
            data.collection.wf(),
            data.collection.keys().len() == 0,
            data.engine_data.screen_size == (Vec2i { x: 0, y: 0 }),
            data.engine_data.window_position == (Vec2i { x: 0, y: 0 }),
            data.mutations@ == Seq::<WindowCommand>::empty(),
    {
        PublicData {
            collection: Anymap::new(),
            engine_data: EngineData {
                screen_size: Vec2i { x: 0, y: 0 },
                window_position: Vec2i { x: 0, y: 0 },
            },
            mutations: Vec::with_capacity(100),
        }
    }

    /// Puts `data` into the collection under its type, unless the collection has a value
    /// of that type already: then `data` is handed back.
    pub fn insert<T: Sized + 'static>(&mut self, data: T) -> (refused: Option<T>)
        requires
            old(self).collection.wf(),
        ensures
            final(self).collection.wf(),
            final(self).engine_data == old(self).engine_data,
            final(self).mutations@ == old(self).mutations@,
            refused is Some ==> refused == Some(data) && final(self).collection.keys()
                == old(self).collection.keys(),
            refused is None ==> final(self).collection.keys().len()
                == old(self).collection.keys().len() + 1,
            old(self).collection.keys().len() == 0 ==> refused is None,
    {
        self.collection.insert(data)
    }

    /// Queues a command for the host.
    pub fn push_mut(&mut self, mutation: WindowCommand)
        ensures
            final(self).host_kept(old(self)),
            final(self).mutations@ == old(self).mutations@.push(mutation),
    {
        self.mutations.push(mutation);
    }

    /// Takes the queued commands, in the order in which they were queued, for the host to
    /// apply. The queue is empty afterwards.
    pub fn apply_mut(&mut self) -> (commands: Vec<WindowCommand>)
        ensures
            commands@ == old(self).mutations@,
            final(self).mutations@ == Seq::<WindowCommand>::empty(),
            final(self).host_kept(old(self)),
    {
        let mut commands: Vec<WindowCommand> = Vec::new();
        commands.append(&mut self.mutations);
        commands
    }
}

/// Records the size of the surface.
pub fn update_screen_size(public_data: &mut PublicData, new_size: Vec2i)
    ensures
        final(public_data).engine_data == (EngineData {
            screen_size: new_size,
            ..old(public_data).engine_data
        }),
        final(public_data).collection == old(public_data).collection,
        final(public_data).mutations@ == old(public_data).mutations@,
{
    public_data.engine_data.screen_size = new_size;
}

/// Records the outer position of the window.
pub fn update_window_position(public_data: &mut PublicData, position: Vec2i)
    ensures
        final(public_data).engine_data == (EngineData {
            window_position: position,
            ..old(public_data).engine_data
        }),
        final(public_data).collection == old(public_data).collection,
        final(public_data).mutations@ == old(public_data).mutations@,
{
    public_data.engine_data.window_position = position;
}

pub fn get_engine_data(public_data: &PublicData) -> (data: &EngineData)
    ensures
        *data == public_data.engine_data,
{
    &public_data.engine_data
}

} // verus!
