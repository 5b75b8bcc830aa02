//! The caller's identity and permission set, as seen by a guard.

use vstd::prelude::*;
use vstd::hash_set::StringHashSet;

verus! {

/// The per-request authorization context: who the caller is and which
/// permission tokens it holds. A guard only ever reads `perms`; the other
/// fields are carried for the surrounding request pipeline.
pub struct Claims {
    pub user_id: u64,
    pub user_name: String,
    pub perms: StringHashSet,
}

impl Claims {
    /// A claims value with no permissions yet.
    pub fn new(user_id: u64, user_name: String) -> (c: Claims)
        ensures
            c.user_id == user_id,
            c.user_name == user_name,
            c.perms@ == Set::<Seq<char>>::empty(),
    {
        Claims { user_id, user_name, perms: StringHashSet::new() }
    }

    /// Grants one more permission token to the caller.
    pub fn add_perm(&mut self, perm: String)
        ensures
            final(self).user_id == old(self).user_id,
            final(self).user_name == old(self).user_name,
            final(self).perms@ == old(self).perms@.insert(perm@),
    {
        self.perms.insert(perm);
    }

    /// Whether the caller holds the given permission token.
    pub fn has_perm(&self, perm: &str) -> (r: bool)
        ensures
            r == self.perms@.contains(perm@),
    {
        self.perms.contains(perm)
    }
}

} // verus!
