//! Verified core of a client/server state-synchronization library.
//!
//! One authoritative peer replicates frequently-changing object state to
//! remote peers over an unreliable transport, while each client predicts the
//! objects it controls and interpolates the rest.  The crate holds the logic
//! of that core: the tick clock, clock synchronization, the reliability layer,
//! the wire codec, replication send/receive with authority arbitration,
//! client-side prediction with rollback, and snapshot interpolation.

pub mod authority;
pub mod channel;
pub mod client;
pub mod codec;
pub mod entity_map;
pub mod events;
pub mod id;
pub mod interp;
pub mod messages;
pub mod network_target;
pub mod predict;
pub mod receive;
pub mod replication;
pub mod send;
pub mod server;
pub mod sync;
pub mod tick;

use vstd::prelude::*;

verus! {

} // verus!
