//! Exclusive access to the session: at most one role holds it at a time.

use crate::protocol::Role;
use vstd::prelude::*;

verus! {

/// The record of who holds the session. Its view is the holder, if there is
/// one.
#[derive(Clone, Copy, Debug)]
pub struct SessionGuard {
    holder: Option<Role>,
}

impl View for SessionGuard {
    type V = Option<Role>;

    closed spec fn view(&self) -> Option<Role> {
        self.holder
    }
}

impl SessionGuard {
    /// A guard that nobody holds.
    pub fn new() -> (guard: SessionGuard)
        ensures
            guard@ is None,
    {
        SessionGuard { holder: None }
    }

    /// The role that holds the session, if one does.
    pub fn holder(&self) -> (holder: Option<Role>)
        ensures
            holder == self@,
    {
        self.holder
    }

    /// Gives the session to `role` if nobody holds it, and says whether it
    /// did. A role that already holds the session is not given it again.
    pub fn try_acquire(&mut self, role: Role) -> (granted: bool)
        ensures
            granted == (old(self)@ is None),
            final(self)@ == (if granted {
                Some(role)
            } else {
                old(self)@
            }),
    {
        match self.holder {
            None => {
                self.holder = Some(role);
                true
            },
            Some(_) => false,
        }
    }

    /// Takes the session back from `role` if it is the holder, and says
    /// whether it did.
    pub fn release(&mut self, role: Role) -> (released: bool)
        ensures
            released == (old(self)@ == Some(role)),
            final(self)@ == (if released {
                None
            } else {
                old(self)@
            }),
    {
        match self.holder {
            Some(holder) => if holder == role {
                self.holder = None;
                true
            } else {
                false
            },
            None => false,
        }
    }
}

} // verus!
