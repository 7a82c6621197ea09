//! A connection as the bookkeeping sees it: which session it is, and whether
//! that session can still be trusted.

use vstd::prelude::*;

verus! {

/// A handle on one live session with the store. The session itself stays with
/// the runtime; the handle carries its number and its health flag. A handle is
/// neither `Clone` nor `Copy`: whoever holds it is the only user of the session.
#[derive(Debug)]
pub struct Connection {
    id: u64,
    poisoned: bool,
}

impl Connection {
    /// The handle with the given number and health flag.
    pub closed spec fn with(id: u64, poisoned: bool) -> Connection {
        Connection { id, poisoned }
    }

    /// The healthy handle with the given number.
    pub open spec fn healthy(id: u64) -> Connection {
        Connection::with(id, false)
    }

    pub closed spec fn spec_id(&self) -> u64 {
        self.id
    }

    pub closed spec fn spec_is_poisoned(&self) -> bool {
        self.poisoned
    }

    /// A handle is its number and its flag, nothing more.
    pub broadcast proof fn lemma_with(id: u64, poisoned: bool)
        ensures
            (#[trigger] Connection::with(id, poisoned)).spec_id() == id,
            Connection::with(id, poisoned).spec_is_poisoned() == poisoned,
    {
    }

    /// Every handle is `with` of its own number and flag.
    pub broadcast proof fn lemma_parts(c: Connection)
        ensures
            c == Connection::with(#[trigger] c.spec_id(), c.spec_is_poisoned()),
    {
    }

    /// A fresh, healthy handle for session number `id`.
    pub(crate) fn issue(id: u64) -> (c: Connection)
        ensures
            c == Connection::healthy(id),
    {
        Connection { id, poisoned: false }
    }

    /// The number of the session.
    #[verifier::when_used_as_spec(spec_id)]
    pub fn id(&self) -> (id: u64)
        ensures
            id == self.spec_id(),
    {
        self.id
    }

    /// Whether the session is no longer trusted.
    #[verifier::when_used_as_spec(spec_is_poisoned)]
    pub fn is_poisoned(&self) -> (poisoned: bool)
        ensures
            poisoned == self.spec_is_poisoned(),
    {
        self.poisoned
    }

    /// Marks the session as no longer trusted. There is no way back.
    pub fn poison(&mut self)
        ensures
            *final(self) == Connection::with(old(self).id(), true),
    {
        self.poisoned = true;
    }
}

} // verus!
