//! Server-side knobs of the replication sender.

use vstd::prelude::*;

verus! {

/// Which changes the sender re-sends while it waits for acknowledgement.
#[derive(Clone, Debug)]
pub struct ReplicationConfig {
    /// By default, we send all component updates since the last time we
    /// sent an update for a given entity: an update changed at tick 3 goes
    /// out at tick 3 and is not repeated afterwards.  This saves bandwidth
    /// but delays eventual consistency under packet loss.
    ///
    /// If this is set to true, we instead send all updates since the last
    /// time we received an acknowledgement from the client: the tick-3
    /// update is repeated every tick until the client confirms it.
    pub send_updates_since_last_ack: bool,
}

impl Default for ReplicationConfig {
    /// Send changes once, when they happen.
    fn default() -> (r: Self)
        ensures
            !r.send_updates_since_last_ack,
    {
        ReplicationConfig { send_updates_since_last_ack: false }
    }
}

} // verus!
