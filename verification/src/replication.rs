//! Components attached to replicated entities: who an entity is replicated
//! to, who controls it, how it is grouped for atomic delivery, and the
//! markers the receiving side reacts to.

use vstd::prelude::*;
use core::marker::PhantomData;
use crate::id::{ClientId, Entity};
use crate::network_target::NetworkTarget;

verus! {

/// Marker component that indicates that the entity was spawned via
/// replication (it is being replicated from a remote world).
#[derive(Clone, Debug, PartialEq, Eq, Structural)]
pub struct Replicated {
    /// The client the updates come from; `None` when they come from the
    /// server.
    pub from: Option<ClientId>,
}

/// Marker component to indicate that the entity is under the control of the
/// local peer.
#[derive(Clone, Copy, Debug, PartialEq, Eq, Structural)]
pub struct Controlled;

/// Component that indicates which clients the entity should be replicated
/// to, and which of them should predict or interpolate it.
#[derive(Clone, Debug)]
pub struct ReplicationTarget {
    /// Which clients the entity is replicated to.
    pub replication: NetworkTarget,
    /// Which clients predict the entity (unused for client-to-server
    /// replication).
    pub prediction: NetworkTarget,
    /// Which clients interpolate the entity (unused for client-to-server
    /// replication).
    pub interpolation: NetworkTarget,
}

impl Default for ReplicationTarget {
    /// Replicate to everyone; predict and interpolate nowhere.
    fn default() -> (r: Self)
        ensures
            r.replication is All,
            r.prediction is Nobody,
            r.interpolation is Nobody,
    {
        ReplicationTarget {
            replication: NetworkTarget::All,
            prediction: NetworkTarget::Nobody,
            interpolation: NetworkTarget::Nobody,
        }
    }
}

/// Component storing which client(s) have control over the entity.
///
/// This is only used for server-to-client replication.
#[derive(Clone, Debug)]
pub struct ControlledBy {
    /// Which client(s) control this entity.
    pub target: NetworkTarget,
}

impl Default for ControlledBy {
    /// No client controls the entity.
    fn default() -> (r: Self)
        ensures
            r.target is Nobody,
    {
        ControlledBy { target: NetworkTarget::Nobody }
    }
}

impl ControlledBy {
    /// Returns true if the entity is controlled by the specified client.
    pub fn targets(&self, client_id: &ClientId) -> (r: bool)
        ensures
            r == self.target.spec_targets(*client_id),
    {
        self.target.targets(client_id)
    }
}

/// Component to have more fine-grained control over the visibility of an
/// entity (which clients do we replicate this entity to?).
#[derive(Clone, Copy, Debug, PartialEq, Eq, Structural)]
pub struct Visibility {
    /// Whether visibility is fine-grained (interest management) or coarse.
    mode: VisibilityMode,
}

impl Visibility {
    /// The visibility mode, as seen by specifications.
    pub closed spec fn spec_mode(&self) -> VisibilityMode {
        self.mode
    }

    /// Visibility under the given mode.
    pub fn new(mode: VisibilityMode) -> (r: Visibility)
        ensures
            r.spec_mode() == mode,
    {
        Visibility { mode }
    }

    /// The visibility mode.
    pub fn mode(&self) -> (r: VisibilityMode)
        ensures
            r == self.spec_mode(),
    {
        self.mode
    }
}

/// The entity the replication updates should land on at the remote peer.
#[derive(Clone, Copy, Debug, PartialEq, Eq, Structural)]
pub enum TargetEntity {
    /// Spawn a new entity on the remote peer.
    Spawn,
    /// Apply the replication updates to this already-existing remote entity
    /// instead of spawning a new one.
    Preexisting(Entity),
}

impl Default for TargetEntity {
    /// Spawn a fresh remote entity.
    fn default() -> (r: Self)
        ensures
            r is Spawn,
    {
        TargetEntity::Spawn
    }
}

/// Component that defines how the hierarchy of an entity (parent/children)
/// is replicated.
#[derive(Clone, Copy, Debug, PartialEq, Eq, Structural)]
pub struct ReplicateHierarchy {
    /// If true, recursively mark all children for replication too.
    pub recursive: bool,
}

impl Default for ReplicateHierarchy {
    /// Children are replicated with their parent.
    fn default() -> (r: Self)
        ensures
            r.recursive,
    {
        ReplicateHierarchy { recursive: true }
    }
}

/// Per-component override of the replication behaviour for one entity.
#[derive(Debug)]
pub struct PerComponentReplicationMetadata<C> {
    /// If true, do not replicate the component at all.
    disabled: bool,
    /// If true, replicate only inserts and removals of the component, not
    /// its updates (the component is replicated once, at spawn).
    replicate_once: bool,
    /// Replicate the component to the intersection of the entity's target
    /// and this target.
    target: NetworkTarget,
    _marker: PhantomData<C>,
}

impl<C> PerComponentReplicationMetadata<C> {
    /// Whether replication of the component is switched off.
    pub closed spec fn spec_disabled(&self) -> bool {
        self.disabled
    }

    /// Whether only inserts and removals are replicated.
    pub closed spec fn spec_replicate_once(&self) -> bool {
        self.replicate_once
    }

    /// The component's own replication target.
    pub closed spec fn spec_target(&self) -> NetworkTarget {
        self.target
    }
}

impl<C> Clone for PerComponentReplicationMetadata<C> {
    fn clone(&self) -> (r: Self)
        ensures
            r.spec_disabled() == self.spec_disabled(),
            r.spec_replicate_once() == self.spec_replicate_once(),
    {
        PerComponentReplicationMetadata {
            disabled: self.disabled,
            replicate_once: self.replicate_once,
            target: self.target.clone(),
            _marker: PhantomData,
        }
    }
}

impl<C> Default for PerComponentReplicationMetadata<C> {
    /// Replicate the component like any other, to everyone.
    fn default() -> (r: Self)
        ensures
            !r.spec_disabled(),
            !r.spec_replicate_once(),
            r.spec_target() is All,
    {
        PerComponentReplicationMetadata {
            disabled: false,
            replicate_once: false,
            target: NetworkTarget::All,
            _marker: PhantomData,
        }
    }
}

/// How the replication group id of an entity is chosen.
#[derive(Clone, Copy, Debug, PartialEq, Eq, Structural)]
pub enum ReplicationGroupIdBuilder {
    /// The group id is the entity's own handle.
    FromEntity,
    /// A chosen group id; it must not collide with any entity handle.
    Group(u64),
}

impl Default for ReplicationGroupIdBuilder {
    /// Group by the entity itself.
    fn default() -> (r: Self)
        ensures
            r is FromEntity,
    {
        ReplicationGroupIdBuilder::FromEntity
    }
}

/// Identifier of a replication group, shared by every entity that must be
/// delivered in the same message.
#[derive(Clone, Copy, Debug, PartialEq, Eq, Structural, Hash)]
pub struct ReplicationGroupId(pub u64);

/// Component to specify the replication group of an entity.
///
/// Entities of one group are sent together in the same message and are
/// updated at the same time on the remote world.
#[derive(Clone, Copy, Debug, PartialEq, Eq, Structural)]
pub struct ReplicationGroup {
    id_builder: ReplicationGroupIdBuilder,
    /// The priority of the accumulation group.  Priority is reset to this
    /// value every time a message is sent successfully and accumulates by
    /// it on every tick the group goes unsent.
    base_priority: u32,
}

impl Default for ReplicationGroup {
    /// Group by entity, with unit priority.
    fn default() -> (r: Self)
        ensures
            r.spec_id_builder() is FromEntity,
            r.spec_base_priority() == 1,
    {
        ReplicationGroup {
            id_builder: ReplicationGroupIdBuilder::FromEntity,
            base_priority: 1,
        }
    }
}

impl ReplicationGroup {
    /// How the group id is derived.
    pub closed spec fn spec_id_builder(&self) -> ReplicationGroupIdBuilder {
        self.id_builder
    }

    /// The base priority of the group.
    pub closed spec fn spec_base_priority(&self) -> u32 {
        self.base_priority
    }

    /// The group id the builder yields for `entity`.
    pub open spec fn spec_group_id(&self, entity: Option<Entity>) -> ReplicationGroupId {
        match self.spec_id_builder() {
            ReplicationGroupIdBuilder::FromEntity => ReplicationGroupId(entity->Some_0.0),
            ReplicationGroupIdBuilder::Group(id) => ReplicationGroupId(id),
        }
    }

    /// A group keyed by the entity's own handle, with unit priority.
    pub fn new_from_entity() -> (r: Self)
        ensures
            r.spec_id_builder() is FromEntity,
            r.spec_base_priority() == 1,
    {
        ReplicationGroup {
            id_builder: ReplicationGroupIdBuilder::FromEntity,
            base_priority: 1,
        }
    }

    /// A group with a chosen id, with unit priority.
    pub fn new_id(id: u64) -> (r: Self)
        ensures
            r.spec_id_builder() == ReplicationGroupIdBuilder::Group(id),
            r.spec_base_priority() == 1,
    {
        ReplicationGroup {
            id_builder: ReplicationGroupIdBuilder::Group(id),
            base_priority: 1,
        }
    }

    /// The group id for an entity carrying this component.  A group keyed
    /// by the entity needs the entity handle.
    pub fn group_id(&self, entity: Option<Entity>) -> (r: ReplicationGroupId)
        requires
            self.spec_id_builder() is FromEntity ==> entity is Some,
        ensures
            r == self.spec_group_id(entity),
    {
        match self.id_builder {
            ReplicationGroupIdBuilder::FromEntity => {
                match entity {
                    Some(e) => ReplicationGroupId(e.to_bits()),
                    None => ReplicationGroupId(0),
                }
            },
            ReplicationGroupIdBuilder::Group(id) => ReplicationGroupId(id),
        }
    }

    /// The base priority.
    pub fn priority(&self) -> (r: u32)
        ensures
            r == self.spec_base_priority(),
    {
        self.base_priority
    }

    /// This group with its base priority replaced.
    pub fn set_priority(self, priority: u32) -> (r: Self)
        ensures
            r.spec_base_priority() == priority,
            r.spec_id_builder() == self.spec_id_builder(),
    {
        ReplicationGroup { base_priority: priority, ..self }
    }

    /// This group keyed by a chosen id instead of the entity.
    pub fn set_id(self, id: u64) -> (r: Self)
        ensures
            r.spec_id_builder() == ReplicationGroupIdBuilder::Group(id),
            r.spec_base_priority() == self.spec_base_priority(),
    {
        ReplicationGroup { id_builder: ReplicationGroupIdBuilder::Group(id), ..self }
    }
}

/// How the set of clients an entity is replicated to is controlled.
#[derive(Clone, Copy, Debug, PartialEq, Eq, Structural)]
pub enum VisibilityMode {
    /// Replicate to the clients of the replication target that interest
    /// management has also granted visibility to.
    InterestManagement,
    /// Replicate to every client of the replication target.
    All,
}

impl Default for VisibilityMode {
    /// No interest management.
    fn default() -> (r: Self)
        ensures
            r is All,
    {
        VisibilityMode::All
    }
}

/// Component that indicates that an entity should be replicated.  Added to
/// the entity when it is spawned in the world that sends replication
/// updates.
#[derive(Clone, Debug)]
pub struct Replicate {
    /// Which clients the entity is replicated, predicted and interpolated
    /// on.
    pub replication_target: ReplicationTarget,
    /// Which client(s) control this entity.
    pub controlled_by: ControlledBy,
    /// How the visibility of the entity is controlled.
    pub visibility: VisibilityMode,
    /// The replication group: entities of one group are sent in a single
    /// message.  After the entity is first replicated the group should not
    /// be modified, though more entities may join it.
    pub group: ReplicationGroup,
    /// How the hierarchy of the entity (parents/children) is replicated.
    pub hierarchy: ReplicateHierarchy,
}

impl Default for Replicate {
    /// Replicate to everyone, controlled by nobody, no interest
    /// management, grouped by the entity, children included.
    fn default() -> (r: Self)
        ensures
            r.replication_target.replication is All,
            r.replication_target.prediction is Nobody,
            r.replication_target.interpolation is Nobody,
            r.controlled_by.target is Nobody,
            r.visibility is All,
            r.group.spec_id_builder() is FromEntity,
            r.group.spec_base_priority() == 1,
            r.hierarchy.recursive,
    {
        Replicate {
            replication_target: ReplicationTarget::default(),
            controlled_by: ControlledBy::default(),
            visibility: VisibilityMode::default(),
            group: ReplicationGroup::default(),
            hierarchy: ReplicateHierarchy::default(),
        }
    }
}

impl Replicate {
    /// The replication group id for an entity carrying this component.
    pub fn group_id(&self, entity: Option<Entity>) -> (r: ReplicationGroupId)
        requires
            self.group.spec_id_builder() is FromEntity ==> entity is Some,
        ensures
            r == self.group.spec_group_id(entity),
    {
        self.group.group_id(entity)
    }

    /// Returns true if the entity is controlled by the specified client.
    pub fn is_controlled_by(&self, client_id: &ClientId) -> (r: bool)
        ensures
            r == self.controlled_by.target.spec_targets(*client_id),
    {
        self.controlled_by.targets(client_id)
    }
}

/// Marker component that tells the client to spawn an interpolated copy of
/// the entity.
#[derive(Clone, Debug, PartialEq, Eq, Structural)]
pub struct ShouldBeInterpolated;

/// Indicates that an entity was pre-predicted: the predicted copy existed
/// on the client before the server's spawn arrived.
#[derive(Clone, Copy, Debug, PartialEq, Eq, Structural)]
pub struct PrePredicted {
    /// The client-side entity the prediction was pre-spawned on, if any.
    pub client_entity: Option<Entity>,
}

impl Default for PrePredicted {
    /// No pre-spawned client entity.
    fn default() -> (r: Self)
        ensures
            r.client_entity is None,
    {
        PrePredicted { client_entity: None }
    }
}

/// Marker component that tells the client to spawn a predicted copy of the
/// entity.
#[derive(Clone, Copy, Debug, PartialEq, Eq, Structural, Default)]
pub struct ShouldBePredicted;

} // verus!
