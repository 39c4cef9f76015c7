//! The structured form of one replication message: a header and an ordered
//! list of replication group records.  Serialization of whole messages to
//! datagrams is the transport codec's business; the logic here works on the
//! structured form.

use vstd::prelude::*;
use crate::codec::ComponentValue;
use crate::id::Entity;
use crate::replication::ReplicationGroupId;
use crate::tick::Tick;

verus! {

/// What a group record does to its entities.
#[derive(Clone, Copy, Debug, PartialEq, Eq, Structural)]
pub enum GroupKind {
    /// The entities are new to the receiving peer: the record carries full
    /// current state, not a diff.
    Spawn,
    /// The entities already exist at the receiving peer: the record
    /// carries changed component state.
    Update,
    /// The entities are gone; the receiving peer despawns its copies.
    Despawn,
}

/// One typed piece of state on one entity.
#[derive(Clone, Copy, Debug, PartialEq, Eq, Structural)]
pub struct ComponentPayload {
    /// The component type tag.
    pub kind: u64,
    /// The component's value.
    pub value: ComponentValue,
}

/// The state carried for one entity inside a group record.
#[derive(Clone, Debug)]
pub struct EntityRecord {
    /// The entity, in the sender's namespace.
    pub entity: Entity,
    /// The component state carried for it.
    pub components: Vec<ComponentPayload>,
}

/// One replication group inside a message: the group's entities are
/// applied atomically by the receiver.
#[derive(Clone, Debug)]
pub struct GroupRecord {
    /// The group the entities belong to.
    pub group_id: ReplicationGroupId,
    /// What the record does.
    pub kind: GroupKind,
    /// The entities of the group, with their carried state.
    pub entities: Vec<EntityRecord>,
}

/// The header of one replication message.
#[derive(Clone, Copy, Debug, PartialEq, Eq, Structural)]
pub struct MessageHeader {
    /// Protocol tag guarding against foreign datagrams.
    pub protocol: u16,
    /// Sequence number of the message on its channel.
    pub sequence: u64,
    /// Acknowledgement bitset for the most recent received sequences.
    pub ack_bits: u32,
    /// The sender's tick when the message was built.
    pub tick: Tick,
}

/// One replication message: header plus group records.
#[derive(Clone, Debug)]
pub struct ReplicationMessage {
    /// The message header.
    pub header: MessageHeader,
    /// The group records, in priority order.
    pub groups: Vec<GroupRecord>,
}

} // verus!
