//! Addressing of replication messages: which clients a message, an entity or
//! a control relation applies to.

use vstd::prelude::*;
use crate::id::ClientId;

verus! {

/// The set of clients an action (replication, prediction, interpolation,
/// control) is aimed at.
#[derive(Clone, Debug, Default)]
pub enum NetworkTarget {
    /// No client.
    #[default]
    Nobody,
    /// Every connected client except one.
    AllExceptSingle(ClientId),
    /// Every connected client except those listed.
    AllExcept(Vec<ClientId>),
    /// Every connected client.
    All,
    /// Only the clients listed.
    Only(Vec<ClientId>),
    /// A single client.
    Single(ClientId),
}

impl NetworkTarget {
    /// Which clients the target denotes, as a predicate.
    pub open spec fn spec_targets(self, client_id: ClientId) -> bool {
        match self {
            NetworkTarget::Nobody => false,
            NetworkTarget::AllExceptSingle(id) => client_id != id,
            NetworkTarget::AllExcept(ids) => !ids@.contains(client_id),
            NetworkTarget::All => true,
            NetworkTarget::Only(ids) => ids@.contains(client_id),
            NetworkTarget::Single(id) => client_id == id,
        }
    }

    /// Returns true if the target includes the specified client.
    pub fn targets(&self, client_id: &ClientId) -> (r: bool)
        ensures
            r == self.spec_targets(*client_id),
    {
        match self {
            NetworkTarget::Nobody => false,
            NetworkTarget::AllExceptSingle(id) => *client_id != *id,
            NetworkTarget::AllExcept(ids) => !contains_client(ids, client_id),
            NetworkTarget::All => true,
            NetworkTarget::Only(ids) => contains_client(ids, client_id),
            NetworkTarget::Single(id) => *client_id == *id,
        }
    }
}

/// Whether `ids` holds `client_id`.
fn contains_client(ids: &Vec<ClientId>, client_id: &ClientId) -> (r: bool)
    ensures
        r == ids@.contains(*client_id),
{
    let mut i: usize = 0;
    while i < ids.len()
        invariant
            i <= ids@.len(),
            forall|j: int| 0 <= j < i ==> ids@[j] != *client_id,
        decreases ids@.len() - i,
    {
        if ids[i] == *client_id {
            assert(ids@.contains(*client_id));
            return true;
        }
        i = i + 1;
    }
    assert(!ids@.contains(*client_id)) by {
        if ids@.contains(*client_id) {
            let j = choose|j: int| 0 <= j < ids@.len() && ids@[j] == *client_id;
        }
    }
    false
}

} // verus!
