//! The replication receiver of one connection: applies delivered group
//! records to the local object store, translates entity handles between
//! the peers' namespaces, and gates every update on the authority of
//! record — an update originated by a peer that does not hold authority is
//! silently discarded, which is what keeps a demoted controller's stale
//! updates from clobbering a promoted one's.

use vstd::prelude::*;
use crate::authority::{AuthorityManager, AuthorityPeer};
use crate::codec::ComponentValue;
use crate::entity_map::EntityMap;
use crate::id::Entity;

verus! {


/// The local store of replicated component state: one value per (entity,
/// component type) pair.
pub struct ObjectStore {
    entries: Vec<(Entity, u64, ComponentValue)>,
}

/// The stored value for `(entity, comp)` among `entries`, if any.
pub open spec fn store_lookup(
    entries: Seq<(Entity, u64, ComponentValue)>,
    entity: Entity,
    comp: u64,
) -> Option<ComponentValue> {
    if exists|i: int|
        0 <= i < entries.len() && (#[trigger] entries[i]).0 == entity && entries[i].1 == comp {
        Some(
            entries[choose|i: int|
                0 <= i < entries.len() && (#[trigger] entries[i]).0 == entity && entries[i].1
                    == comp].2,
        )
    } else {
        None
    }
}

impl ObjectStore {
    /// The stored entries.
    pub closed spec fn entries_seq(&self) -> Seq<(Entity, u64, ComponentValue)> {
        self.entries@
    }

    /// No (entity, component type) pair appears twice.
    pub open spec fn wf(&self) -> bool {
        forall|a: int, b: int|
            0 <= a < b < self.entries_seq().len() ==> !((#[trigger] self.entries_seq()[a]).0 == (
            #[trigger] self.entries_seq()[b]).0 && self.entries_seq()[a].1
                == self.entries_seq()[b].1)
    }

    /// The value stored for `(entity, comp)`.
    pub open spec fn spec_get(&self, entity: Entity, comp: u64) -> Option<ComponentValue> {
        store_lookup(self.entries_seq(), entity, comp)
    }

    /// An empty store.
    pub fn new() -> (r: ObjectStore)
        ensures
            r.wf(),
            r.entries_seq().len() == 0,
    {
        ObjectStore { entries: Vec::new() }
    }

    /// Index of the entry for `(entity, comp)`, if there is one.
    fn index_of(&self, entity: Entity, comp: u64) -> (r: Option<usize>)
        ensures
            match r {
                Some(k) => k < self.entries_seq().len() && self.entries_seq()[k as int].0
                    == entity && self.entries_seq()[k as int].1 == comp,
                None => forall|i: int|
                    0 <= i < self.entries_seq().len() ==> !((#[trigger] self.entries_seq()[
                    i]).0 == entity && self.entries_seq()[i].1 == comp),
            },
    {
        let n = self.entries.len();
        let mut i: usize = 0;
        while i < n
            invariant
                i <= n,
                n == self.entries_seq().len(),
                forall|j: int|
                    0 <= j < i ==> !((#[trigger] self.entries_seq()[j]).0 == entity
                        && self.entries_seq()[j].1 == comp),
            decreases n - i,
        {
            if self.entries[i].0.0 == entity.0 && self.entries[i].1 == comp {
                return Some(i);
            }
            i = i + 1;
        }
        None
    }

    /// The stored value for `(entity, comp)`.
    pub fn get_component(&self, entity: Entity, comp: u64) -> (r: Option<ComponentValue>)
        requires
            self.wf(),
        ensures
            r == self.spec_get(entity, comp),
    {
        match self.index_of(entity, comp) {
            Some(k) => {
                proof {
                    lemma_store_lookup_at(self.entries_seq(), k as int);
                }
                Some(self.entries[k].2)
            },
            None => None,
        }
    }

    /// Write `value` for `(entity, comp)`, inserting or overwriting.
    /// Every other pair keeps its value.
    pub fn set_component(&mut self, entity: Entity, comp: u64, value: ComponentValue)
        requires
            old(self).wf(),
        ensures
            final(self).wf(),
            final(self).spec_get(entity, comp) == Some(value),
            forall|e: Entity, c: u64|
                !(e == entity && c == comp) ==> #[trigger] final(self).spec_get(e, c) == old(
                    self,
                ).spec_get(e, c),
    {
        match self.index_of(entity, comp) {
            Some(k) => {
                let ghost before = self.entries_seq();
                self.entries.set(k, (entity, comp, value));
                proof {
                    lemma_store_update(before, self.entries_seq(), k as int, entity, comp, value);
                }
            },
            None => {
                let ghost before = self.entries_seq();
                self.entries.push((entity, comp, value));
                proof {
                    lemma_store_push(before, self.entries_seq(), entity, comp, value);
                }
            },
        }
    }
}

/// With unique pairs, the entry at `k` is what the lookup finds.
proof fn lemma_store_lookup_at(entries: Seq<(Entity, u64, ComponentValue)>, k: int)
    requires
        0 <= k < entries.len(),
        forall|a: int, b: int|
            0 <= a < b < entries.len() ==> !((#[trigger] entries[a]).0 == (
            #[trigger] entries[b]).0 && entries[a].1 == entries[b].1),
    ensures
        store_lookup(entries, entries[k].0, entries[k].1) == Some(entries[k].2),
{
    let e = entries[k].0;
    let c = entries[k].1;
    let k0 = choose|i: int|
        0 <= i < entries.len() && (#[trigger] entries[i]).0 == e && entries[i].1 == c;
    if k0 != k {
        if k0 < k {
            assert(!(entries[k0].0 == entries[k].0 && entries[k0].1 == entries[k].1));
        } else {
            assert(!(entries[k].0 == entries[k0].0 && entries[k].1 == entries[k0].1));
        }
    }
}

/// Overwriting the unique entry for a pair changes that pair's lookup and
/// no other.
proof fn lemma_store_update(
    before: Seq<(Entity, u64, ComponentValue)>,
    after: Seq<(Entity, u64, ComponentValue)>,
    k: int,
    entity: Entity,
    comp: u64,
    value: ComponentValue,
)
    requires
        0 <= k < before.len(),
        before[k].0 == entity && before[k].1 == comp,
        after =~= before.update(k, (entity, comp, value)),
        forall|a: int, b: int|
            0 <= a < b < before.len() ==> !((#[trigger] before[a]).0 == (#[trigger] before[b]).0
                && before[a].1 == before[b].1),
    ensures
        forall|a: int, b: int|
            0 <= a < b < after.len() ==> !((#[trigger] after[a]).0 == (#[trigger] after[b]).0
                && after[a].1 == after[b].1),
        store_lookup(after, entity, comp) == Some(value),
        forall|e: Entity, c: u64|
            !(e == entity && c == comp) ==> #[trigger] store_lookup(after, e, c) == store_lookup(
                before,
                e,
                c,
            ),
{
    assert forall|a: int, b: int|
        0 <= a < b < after.len() implies !((#[trigger] after[a]).0 == (#[trigger] after[b]).0
        && after[a].1 == after[b].1) by {
        assert(after[a].0 == before[a].0 && after[a].1 == before[a].1);
        assert(after[b].0 == before[b].0 && after[b].1 == before[b].1);
    }
    lemma_store_lookup_at(after, k);
    assert forall|e: Entity, c: u64|
        !(e == entity && c == comp) implies #[trigger] store_lookup(after, e, c) == store_lookup(
        before,
        e,
        c,
    ) by {
        if exists|i: int|
            0 <= i < before.len() && (#[trigger] before[i]).0 == e && before[i].1 == c {
            let i = choose|i: int|
                0 <= i < before.len() && (#[trigger] before[i]).0 == e && before[i].1 == c;
            assert(i != k);
            assert(after[i].0 == e && after[i].1 == c);
            lemma_store_lookup_at(after, i);
            lemma_store_lookup_at(before, i);
        } else {
            assert forall|i: int|
                0 <= i < after.len() implies !((#[trigger] after[i]).0 == e && after[i].1
                == c) by {
                if i != k {
                    assert(!(before[i].0 == e && before[i].1 == c));
                }
            }
        }
    }
}

/// Appending an entry for a fresh pair adds its lookup and keeps every
/// other.
proof fn lemma_store_push(
    before: Seq<(Entity, u64, ComponentValue)>,
    after: Seq<(Entity, u64, ComponentValue)>,
    entity: Entity,
    comp: u64,
    value: ComponentValue,
)
    requires
        after =~= before.push((entity, comp, value)),
        forall|i: int|
            0 <= i < before.len() ==> !((#[trigger] before[i]).0 == entity && before[i].1
                == comp),
        forall|a: int, b: int|
            0 <= a < b < before.len() ==> !((#[trigger] before[a]).0 == (#[trigger] before[b]).0
                && before[a].1 == before[b].1),
    ensures
        forall|a: int, b: int|
            0 <= a < b < after.len() ==> !((#[trigger] after[a]).0 == (#[trigger] after[b]).0
                && after[a].1 == after[b].1),
        store_lookup(after, entity, comp) == Some(value),
        forall|e: Entity, c: u64|
            !(e == entity && c == comp) ==> #[trigger] store_lookup(after, e, c) == store_lookup(
                before,
                e,
                c,
            ),
{
    let n = before.len() as int;
    assert forall|a: int, b: int|
        0 <= a < b < after.len() implies !((#[trigger] after[a]).0 == (#[trigger] after[b]).0
        && after[a].1 == after[b].1) by {
        if b < n {
            assert(after[a] == before[a] && after[b] == before[b]);
        } else {
            assert(after[a] == before[a] && after[b] == (entity, comp, value));
        }
    }
    lemma_store_lookup_at(after, n);
    assert forall|e: Entity, c: u64|
        !(e == entity && c == comp) implies #[trigger] store_lookup(after, e, c) == store_lookup(
        before,
        e,
        c,
    ) by {
        if exists|i: int|
            0 <= i < before.len() && (#[trigger] before[i]).0 == e && before[i].1 == c {
            let i = choose|i: int|
                0 <= i < before.len() && (#[trigger] before[i]).0 == e && before[i].1 == c;
            assert(after[i].0 == e && after[i].1 == c);
            lemma_store_lookup_at(after, i);
            lemma_store_lookup_at(before, i);
        } else {
            assert forall|i: int|
                0 <= i < after.len() implies !((#[trigger] after[i]).0 == e && after[i].1
                == c) by {
                if i < n {
                    assert(!(before[i].0 == e && before[i].1 == c));
                }
            }
        }
    }
}

/// Translate an entity reference embedded in a payload through the entity
/// map.  Values that hold no reference pass unchanged; a reference whose
/// target is not yet known locally cannot be translated.
pub fn translate_value(map: &EntityMap, value: &ComponentValue) -> (r: Option<ComponentValue>)
    ensures
        match *value {
            ComponentValue::EntityRef(remote) => match r {
                Some(t) => exists|local: Entity|
                    #[trigger] map.maps(remote, local) && t == ComponentValue::EntityRef(local),
                None => !map.has_remote(remote),
            },
            _ => r == Some(*value),
        },
{
    match value {
        ComponentValue::EntityRef(remote) => {
            match map.get_local(*remote) {
                Some(local) => Some(ComponentValue::EntityRef(local)),
                None => None,
            }
        },
        _ => Some(*value),
    }
}

/// Apply one component update that `sender` originated for `entity`.
///
/// The write happens exactly when the authority of record for the entity
/// names the sender and the sender is not this peer itself; otherwise the
/// store is left untouched.  This is the conflict-resolution rule: after a
/// transfer, updates from the new holder land and updates from the old
/// holder are rejected.
pub fn apply_component_update(
    store: &mut ObjectStore,
    authority: &AuthorityManager,
    sender: &AuthorityPeer,
    entity: Entity,
    comp: u64,
    value: ComponentValue,
) -> (applied: bool)
    requires
        old(store).wf(),
        authority.wf(),
    ensures
        final(store).wf(),
        applied == (authority.spec_authority_of(entity).spec_holds(*sender) && *sender
            != authority.spec_me()),
        applied ==> final(store).spec_get(entity, comp) == Some(value) && forall|
            e: Entity,
            c: u64,
        |
            !(e == entity && c == comp) ==> #[trigger] final(store).spec_get(e, c) == old(
                store,
            ).spec_get(e, c),
        !applied ==> *final(store) == *old(store),
{
    if authority.accepts_update_from(entity, sender) {
        store.set_component(entity, comp, value);
        true
    } else {
        false
    }
}

/// The replication receiver of one connection.
pub struct ReplicationReceiver {
    /// The remote-to-local handle table of this connection.
    pub map: EntityMap,
    /// The local store the updates land in.
    pub store: ObjectStore,
    /// The next fresh local handle to hand out for a remote spawn.
    pub next_local: u64,
}

impl ReplicationReceiver {
    /// The next fresh local handle.
    pub open spec fn spec_next_local(&self) -> u64 {
        self.next_local
    }

    /// Map and store are well-formed, and every local handle the map ever
    /// handed out lies below the fresh-handle counter.
    pub open spec fn wf(&self) -> bool {
        &&& self.map.wf()
        &&& self.store.wf()
        &&& forall|j: int|
            0 <= j < self.map.entries().len() ==> ((#[trigger] self.map.entries()[j]).1).0
                < self.spec_next_local()
    }

    /// A receiver with an empty map and store, handing out local handles
    /// from `first_local` up.
    pub fn new(first_local: u64) -> (r: ReplicationReceiver)
        ensures
            r.wf(),
            r.spec_next_local() == first_local,
            r.map.entries().len() == 0,
            r.store.entries_seq().len() == 0,
    {
        ReplicationReceiver { map: EntityMap::new(), store: ObjectStore::new(), next_local: first_local }
    }

    /// The local entity a remote handle stands for, spawning a fresh local
    /// entity and mapping it on first sight.
    pub fn local_for_remote(&mut self, remote: Entity) -> (r: (Entity, bool))
        requires
            old(self).wf(),
            old(self).spec_next_local() < u64::MAX,
        ensures
            final(self).wf(),
            final(self).map.maps(remote, r.0),
            r.1 ==> !old(self).map.has_remote(remote) && final(self).spec_next_local() == old(
                self,
            ).spec_next_local() + 1 && r.0 == Entity(old(self).spec_next_local())
                && final(self).map.entries() =~= old(self).map.entries().push((remote, r.0))
                && final(self).store == old(self).store,
            !r.1 ==> old(self).map.maps(remote, r.0) && *final(self) == *old(self),
    {
        match self.map.get_local(remote) {
            Some(local) => (local, false),
            None => {
                let local = Entity(self.next_local);
                proof {
                    assert(!self.map.has_local(local)) by {
                        if self.map.has_local(local) {
                            let j = choose|j: int|
                                0 <= j < self.map.entries().len()
                                    && #[trigger] self.map.entries()[j].1 == local;
                            assert((self.map.entries()[j].1).0 < self.spec_next_local());
                        }
                    }
                }
                let ghost before = self.map.entries();
                self.map.insert(remote, local);
                self.next_local = self.next_local + 1;
                proof {
                    assert forall|j: int|
                        0 <= j < self.map.entries().len() implies ((
                    #[trigger] self.map.entries()[j]).1).0 < self.spec_next_local() by {
                        if j < before.len() {
                            assert(self.map.entries()[j] == before[j]);
                        } else {
                            assert(self.map.entries()[j] == (remote, local));
                        }
                    }
                    assert(self.map.entries()[before.len() as int] == (remote, local));
                    assert(self.map.entries().contains((remote, local)));
                }
                (local, true)
            },
        }
    }
}

} // verus!
