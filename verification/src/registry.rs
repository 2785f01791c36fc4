//! The table of open playback sessions, keyed by the identifiers the host
//! holds.
//!
//! Opening assigns the next identifier and stores the session; closing
//! removes it.  An identifier that is absent — already closed, or never
//! issued — is a recoverable host-side condition, reported as such rather
//! than as an error.

use vstd::prelude::*;
use std::collections::HashMap;
use crate::session::Session;

verus! {

broadcast use vstd::std_specs::hash::group_hash_axioms;

/// All open sessions, by identifier.
pub struct PlaybackRegistry {
    /// The identifier the next opened session will get.
    pub next_id: i32,
    pub table: HashMap<i32, Session>,
}

impl PlaybackRegistry {
    pub fn new() -> (r: PlaybackRegistry)
        ensures
            r.next_id == 0,
            r.table@ =~= Map::<i32, Session>::empty(),
    {
        PlaybackRegistry { next_id: 0, table: HashMap::new() }
    }

    /// Stores a freshly opened session and hands out its identifier.
    pub fn open_media(&mut self, session: Session) -> (id: i32)
        requires
            old(self).next_id < i32::MAX,
        ensures
            id == old(self).next_id,
            final(self).next_id == old(self).next_id + 1,
            final(self).table@ == old(self).table@.insert(id, session),
    {
        let id: i32 = self.next_id;
        self.next_id = self.next_id + 1;
        self.table.insert(id, session);
        id
    }

    /// Closes a session: removes it, reporting whether the identifier was
    /// valid.
    pub fn close_media(&mut self, id: i32) -> (r: bool)
        ensures
            r == old(self).table@.contains_key(id),
            final(self).table@ == old(self).table@.remove(id),
            final(self).next_id == old(self).next_id,
    {
        self.table.remove(&id).is_some()
    }

    /// Whether the identifier names an open session.
    pub fn has_session(&self, id: i32) -> (r: bool)
        ensures
            r == self.table@.contains_key(id),
    {
        self.table.contains_key(&id)
    }
}

} // verus!
