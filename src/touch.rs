//! Tracking of active touches: where each began and where it is now.
use std::collections::HashMap;
use vstd::prelude::*;

verus! {

broadcast use vstd::std_specs::hash::group_hash_axioms;

/// One touch, by position type `P` (a world coordinate).
pub struct TouchInfo<P> {
    pub initial_pos: P,
    pub curr_pos: P,
}

/// The touches in progress, by touch id.
pub struct TouchTracker<P> {
    touches: HashMap<u64, TouchInfo<P>>,
}

impl<P> View for TouchTracker<P> {
    type V = Map<u64, TouchInfo<P>>;

    closed spec fn view(&self) -> Map<u64, TouchInfo<P>> {
        self.touches@
    }
}

impl<P> Default for TouchTracker<P> {
    /// No touches in progress.
    fn default() -> (r: Self)
        ensures
            r@ == Map::<u64, TouchInfo<P>>::empty(),
    {
        TouchTracker { touches: HashMap::new() }
    }
}

impl<P: Copy> TouchTracker<P> {
    /// Records touch `id` at `pos`: a new touch begins there, a known one moves there.
    pub fn touch(&mut self, id: u64, pos: P)
        ensures
            final(self)@ == old(self)@.insert(
                id,
                TouchInfo {
                    initial_pos: if old(self)@.contains_key(id) {
                        old(self)@[id].initial_pos
                    } else {
                        pos
                    },
                    curr_pos: pos,
                },
            ),
    {
        let initial_pos = match self.touches.get(&id) {
            Some(t) => t.initial_pos,
            None => pos,
        };
        self.touches.insert(id, TouchInfo { initial_pos, curr_pos: pos });
    }

    /// Forgets touch `id`.
    pub fn end_touch(&mut self, id: u64)
        ensures
            final(self)@ == old(self)@.remove(id),
    {
        self.touches.remove(&id);
    }

    pub fn get_touch(&self, id: u64) -> (r: Option<&TouchInfo<P>>)
        ensures
            r matches Some(t) ==> self@.contains_key(id) && *t == self@[id],
            r is None ==> !self@.contains_key(id),
    {
        self.touches.get(&id)
    }
}

} // verus!
