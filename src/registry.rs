//! The connection registry: which live connection belongs to which player.
//! A lookup hands back a reference to the handle; the caller clones it and
//! releases any lock on the registry before writing to it.
use crate::protocol::GameError;
use std::collections::HashMap;
use vstd::prelude::*;

verus! {

broadcast use vstd::std_specs::hash::group_hash_axioms;

/// Connection handles keyed by player id.
#[verifier::reject_recursive_types(H)]
pub struct Registry<H> {
    handles: HashMap<u32, H>,
}

impl<H> View for Registry<H> {
    type V = Map<u32, H>;

    closed spec fn view(&self) -> Map<u32, H> {
        self.handles@
    }
}

impl<H> Registry<H> {
    pub fn new() -> (r: Registry<H>)
        ensures
            r@ == Map::<u32, H>::empty(),
    {
        Registry { handles: HashMap::new() }
    }

    /// Records the connection of player `id`, replacing any earlier one.
    pub fn register(&mut self, id: u32, handle: H)
        ensures
            final(self)@ == old(self)@.insert(id, handle),
    {
        self.handles.insert(id, handle);
    }

    /// The connection of player `id`; `UnknownPlayer` if none is recorded.
    pub fn resolve(&self, id: u32) -> (r: Result<&H, GameError>)
        ensures
            match r {
                Ok(h) => self@.contains_key(id) && *h == self@[id],
                Err(e) => !self@.contains_key(id) && e == GameError::UnknownPlayer,
            },
    {
        match self.handles.get(&id) {
            Some(h) => Ok(h),
            None => Err(GameError::UnknownPlayer),
        }
    }

    /// Forgets the connection of player `id`, if any.
    pub fn unregister(&mut self, id: u32)
        ensures
            final(self)@ == old(self)@.remove(id),
    {
        self.handles.remove(&id);
    }
}

} // verus!
