//! Who is heard: the peers whose audio is being played.

use std::collections::HashSet;
use vstd::prelude::*;

verus! {

broadcast use vstd::std_specs::hash::group_hash_axioms;

/// A running audio playback and the peers that feed it.
pub struct AudioStream {
    users: HashSet<u64>,
}

impl View for AudioStream {
    type V = Set<u64>;

    closed spec fn view(&self) -> Set<u64> {
        self.users@
    }
}

impl AudioStream {
    /// A playback that nobody feeds yet.
    pub fn new() -> (stream: AudioStream)
        ensures
            stream@ == Set::<u64>::empty(),
    {
        AudioStream { users: HashSet::new() }
    }

    /// Notes that `user` feeds the playback.
    pub fn add_user(&mut self, user: u64)
        ensures
            final(self)@ == old(self)@.insert(user),
    {
        self.users.insert(user);
    }

    /// Notes that `user` no longer feeds the playback.
    pub fn remove_user(&mut self, user: u64)
        ensures
            final(self)@ == old(self)@.remove(user),
    {
        self.users.remove(&user);
    }

    /// Whether nobody feeds the playback.
    pub fn is_idle(&self) -> (idle: bool)
        requires
            self@.finite(),
        ensures
            idle == (self@ == Set::<u64>::empty()),
    {
        let idle = self.users.len() == 0;
        proof {
            if idle {
                self.users@.lemma_len0_is_empty();
                assert(self.users@ =~= Set::<u64>::empty());
            }
        }
        idle
    }
}

} // verus!
