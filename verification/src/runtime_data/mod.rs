//! The data that lives as long as the application runs.

use vstd::prelude::*;
use crate::public_data::PublicData;
use crate::public_data::WindowCommand;

pub mod entity_slotmap;

verus! {

/// The data of the running application.
pub struct RuntimeData {
    pub public_data: PublicData,
}

impl RuntimeData {
    pub fn new() -> (data: RuntimeData)
        ensures
            data.public_data.collection.wf(),
            data.public_data.collection.keys().len() == 0,
            data.public_data.mutations@ == Seq::<WindowCommand>::empty(),
    {
        RuntimeData { public_data: PublicData::new() }
    }

    /// Puts `data` into the public collection under its type, unless the collection has
    /// a value of that type already: then `data` is handed back.
    pub fn insert_pub<T: Sized + 'static>(&mut self, data: T) -> (refused: Option<T>)
        requires
            old(self).public_data.collection.wf(),
        ensures
            final(self).public_data.collection.wf(),
            final(self).public_data.engine_data == old(self).public_data.engine_data,
            final(self).public_data.mutations@ == old(self).public_data.mutations@,
            refused is Some ==> refused == Some(data) && final(self).public_data.collection.keys()
                == old(self).public_data.collection.keys(),
            refused is None ==> final(self).public_data.collection.keys().len()
                == old(self).public_data.collection.keys().len() + 1,
            old(self).public_data.collection.keys().len() == 0 ==> refused is None,
    {
        self.public_data.insert(data)
    }

    /// Takes the commands that the controls have queued, for the host to apply.
    pub fn apply_pub_mut(&mut self) -> (commands: Vec<WindowCommand>)
        ensures
            commands@ == old(self).public_data.mutations@,
            final(self).public_data.mutations@ == Seq::<WindowCommand>::empty(),
            final(self).public_data.host_kept(&old(self).public_data),
    {
        self.public_data.apply_mut()
    }
}

} // verus!
