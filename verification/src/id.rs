//! Peer and entity identifiers.
//!
//! Every replicable object is named by an [`Entity`] handle scoped to one
//! peer's local namespace; remote peers are named by a [`ClientId`].

use vstd::prelude::*;

verus! {

/// Identifier of a remote client connection.
#[derive(Clone, Copy, Debug, PartialEq, Eq, Structural, Hash)]
pub enum ClientId {
    /// A client connected through the netcode handshake.
    Netcode(u64),
    /// A client connected through an external authentication service.
    Steam(u64),
    /// A client hosted in the same process as the server.
    Local(u64),
}

impl ClientId {
    /// The raw numeric identifier, without the transport kind.
    pub fn to_bits(self) -> (r: u64)
        ensures
            r == self.spec_to_bits(),
    {
        match self {
            ClientId::Netcode(id) => id,
            ClientId::Steam(id) => id,
            ClientId::Local(id) => id,
        }
    }

    /// Specification twin of [`Self::to_bits`].
    pub open spec fn spec_to_bits(self) -> u64 {
        match self {
            ClientId::Netcode(id) => id,
            ClientId::Steam(id) => id,
            ClientId::Local(id) => id,
        }
    }
}

/// Opaque handle of a replicable entity, scoped to one peer's namespace.
///
/// Handles are never reused while an object is alive.  Two peers' handles
/// for the same object are distinct values related by the per-connection
/// entity map.
#[derive(Clone, Copy, Debug, PartialEq, Eq, Structural, PartialOrd, Ord, Hash)]
pub struct Entity(pub u64);

impl Entity {
    /// The handle as a raw integer, used to derive group identifiers.
    pub fn to_bits(self) -> (r: u64)
        ensures
            r == self.0,
    {
        self.0
    }
}

} // verus!
