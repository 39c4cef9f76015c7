//! Structured notifications raised by the receive pipeline: one event per
//! received message, input, entity spawn/despawn, and component insert,
//! update or remove.

use vstd::prelude::*;
use core::marker::PhantomData;
use crate::id::{ClientId, Entity};

verus! {

/// Event emitted whenever we receive a message from the remote.
#[derive(Debug)]
pub struct MessageEvent<M> {
    /// The received message.
    pub message: M,
    /// The client that sent the message.  If the server sent the message,
    /// this is `ClientId::Local(0)`.
    pub from: ClientId,
}

impl<M> MessageEvent<M> {
    /// An event for `message` sent by `from`.
    pub fn new(message: M, from: ClientId) -> (r: Self)
        ensures
            r.message == message,
            r.from == from,
    {
        MessageEvent { message, from }
    }

    /// The received message.
    pub fn message(&self) -> (r: &M)
        ensures
            r == &self.message,
    {
        &self.message
    }

    /// The sender.
    pub fn from(&self) -> (r: ClientId)
        ensures
            r == self.from,
    {
        self.from
    }
}

/// Event emitted on the server every time we receive an input.
pub struct InputEvent<I, Ctx = ()> {
    input: Option<I>,
    from: Ctx,
}

impl<I, Ctx: Copy> InputEvent<I, Ctx> {
    /// The buffered input, if one was captured for the tick.
    pub closed spec fn spec_input(&self) -> Option<I> {
        self.input
    }

    /// The sender context.
    pub closed spec fn spec_from(&self) -> Ctx {
        self.from
    }

    /// An event for `input` sent by `from`.
    pub fn new(input: Option<I>, from: Ctx) -> (r: Self)
        ensures
            r.spec_input() == input,
            r.spec_from() == from,
    {
        InputEvent { input, from }
    }

    /// The input, if one was captured.
    pub fn input(&self) -> (r: &Option<I>)
        ensures
            r == &self.spec_input(),
    {
        &self.input
    }

    /// The sender context.
    pub fn from(&self) -> (r: Ctx)
        ensures
            r == self.spec_from(),
    {
        self.from
    }
}

/// Event emitted whenever we spawn an entity from the remote world.
pub struct EntitySpawnEvent<Ctx = ()> {
    entity: Entity,
    context: Ctx,
}

impl<Ctx> EntitySpawnEvent<Ctx> {
    /// The spawned entity.
    pub closed spec fn spec_entity(&self) -> Entity {
        self.entity
    }

    /// The event context.
    pub closed spec fn spec_context(&self) -> Ctx {
        self.context
    }

    /// An event for the spawn of `entity`.
    pub fn new(entity: Entity, context: Ctx) -> (r: Self)
        ensures
            r.spec_entity() == entity,
            r.spec_context() == context,
    {
        EntitySpawnEvent { entity, context }
    }

    /// The spawned entity.
    pub fn entity(&self) -> (r: Entity)
        ensures
            r == self.spec_entity(),
    {
        self.entity
    }

    /// The event context.
    pub fn context(&self) -> (r: &Ctx)
        ensures
            r == &self.spec_context(),
    {
        &self.context
    }
}

/// Event emitted whenever we despawn an entity from the remote world.
pub struct EntityDespawnEvent<Ctx = ()> {
    entity: Entity,
    context: Ctx,
}

impl<Ctx> EntityDespawnEvent<Ctx> {
    /// The despawned entity.
    pub closed spec fn spec_entity(&self) -> Entity {
        self.entity
    }

    /// The event context.
    pub closed spec fn spec_context(&self) -> Ctx {
        self.context
    }

    /// An event for the despawn of `entity`.
    pub fn new(entity: Entity, context: Ctx) -> (r: Self)
        ensures
            r.spec_entity() == entity,
            r.spec_context() == context,
    {
        EntityDespawnEvent { entity, context }
    }

    /// The despawned entity.
    pub fn entity(&self) -> (r: Entity)
        ensures
            r == self.spec_entity(),
    {
        self.entity
    }

    /// The event context.
    pub fn context(&self) -> (r: &Ctx)
        ensures
            r == &self.spec_context(),
    {
        &self.context
    }
}

/// Event emitted whenever we update a component from the remote world.
pub struct ComponentUpdateEvent<C, Ctx = ()> {
    entity: Entity,
    context: Ctx,
    _marker: PhantomData<C>,
}

impl<C, Ctx> ComponentUpdateEvent<C, Ctx> {
    /// The entity whose component was updated.
    pub closed spec fn spec_entity(&self) -> Entity {
        self.entity
    }

    /// The event context.
    pub closed spec fn spec_context(&self) -> Ctx {
        self.context
    }

    /// An event for a component update on `entity`.
    pub fn new(entity: Entity, context: Ctx) -> (r: Self)
        ensures
            r.spec_entity() == entity,
            r.spec_context() == context,
    {
        ComponentUpdateEvent { entity, context, _marker: PhantomData }
    }

    /// The entity whose component was updated.
    pub fn entity(&self) -> (r: Entity)
        ensures
            r == self.spec_entity(),
    {
        self.entity
    }

    /// The event context.
    pub fn context(&self) -> (r: &Ctx)
        ensures
            r == &self.spec_context(),
    {
        &self.context
    }
}

/// Event emitted whenever we insert a component from the remote world.
#[derive(Debug)]
pub struct ComponentInsertEvent<C, Ctx = ()> {
    entity: Entity,
    context: Ctx,
    _marker: PhantomData<C>,
}

impl<C, Ctx> ComponentInsertEvent<C, Ctx> {
    /// The entity the component was inserted on.
    pub closed spec fn spec_entity(&self) -> Entity {
        self.entity
    }

    /// The event context.
    pub closed spec fn spec_context(&self) -> Ctx {
        self.context
    }

    /// An event for a component insert on `entity`.
    pub fn new(entity: Entity, context: Ctx) -> (r: Self)
        ensures
            r.spec_entity() == entity,
            r.spec_context() == context,
    {
        ComponentInsertEvent { entity, context, _marker: PhantomData }
    }

    /// The entity the component was inserted on.
    pub fn entity(&self) -> (r: Entity)
        ensures
            r == self.spec_entity(),
    {
        self.entity
    }

    /// The event context.
    pub fn context(&self) -> (r: &Ctx)
        ensures
            r == &self.spec_context(),
    {
        &self.context
    }
}

/// Event emitted whenever we remove a component from the remote world.
pub struct ComponentRemoveEvent<C, Ctx = ()> {
    entity: Entity,
    context: Ctx,
    _marker: PhantomData<C>,
}

impl<C, Ctx> ComponentRemoveEvent<C, Ctx> {
    /// The entity the component was removed from.
    pub closed spec fn spec_entity(&self) -> Entity {
        self.entity
    }

    /// The event context.
    pub closed spec fn spec_context(&self) -> Ctx {
        self.context
    }

    /// An event for a component removal on `entity`.
    pub fn new(entity: Entity, context: Ctx) -> (r: Self)
        ensures
            r.spec_entity() == entity,
            r.spec_context() == context,
    {
        ComponentRemoveEvent { entity, context, _marker: PhantomData }
    }

    /// The entity the component was removed from.
    pub fn entity(&self) -> (r: Entity)
        ensures
            r == self.spec_entity(),
    {
        self.entity
    }

    /// The event context.
    pub fn context(&self) -> (r: &Ctx)
        ensures
            r == &self.spec_context(),
    {
        &self.context
    }
}

} // verus!
