//! Who may originate authoritative updates for an object.
//!
//! A peer is said to have authority over an entity if it has the burden of
//! simulating it.  In particular:
//! - a client with authority won't accept replication updates from the server;
//! - a client without authority won't be sending any replication updates;
//! - a server won't accept replication updates from clients without authority.

use vstd::prelude::*;
use crate::id::{ClientId, Entity};

verus! {

/// Marker component held by the peer that currently simulates the entity.
#[derive(Clone, Copy, Debug, PartialEq, Eq, Structural)]
pub struct HasAuthority;

/// The authority of record for one entity: which peer may originate
/// authoritative updates for it.
#[derive(Clone, Copy, Debug, PartialEq, Eq, Structural)]
pub enum AuthorityPeer {
    /// No peer holds authority; every incoming update is rejected.
    Nobody,
    /// The server holds authority.
    Server,
    /// The given client holds authority.
    Client(ClientId),
}

impl Default for AuthorityPeer {
    /// Entities start under server authority.
    fn default() -> (r: Self)
        ensures
            r == AuthorityPeer::Server,
    {
        AuthorityPeer::Server
    }
}

impl AuthorityPeer {
    /// Whether `peer` is the holder this record names.  `Nobody` holds
    /// nothing, so with no authority of record every sender is refused.
    pub open spec fn spec_holds(self, peer: AuthorityPeer) -> bool {
        self == peer && !(self is Nobody)
    }

    /// Returns true if `peer` is the authority this record names.
    pub fn holds(&self, peer: &AuthorityPeer) -> (r: bool)
        ensures
            r == self.spec_holds(*peer),
    {
        match (self, peer) {
            (AuthorityPeer::Server, AuthorityPeer::Server) => true,
            (AuthorityPeer::Client(a), AuthorityPeer::Client(b)) => *a == *b,
            _ => false,
        }
    }
}

/// Message announcing an authority transfer for one entity, sent to the
/// peer that gains or loses the right to simulate it.
#[derive(Clone, Copy, Debug, PartialEq, Eq, Structural)]
pub struct AuthorityChange {
    /// The entity the transfer concerns, in the sender's namespace.
    pub entity: Entity,
    /// True at the peer that gains authority, false at the one losing it.
    pub gain_authority: bool,
}

/// Per-entity authority records of one peer, with the peer's own
/// has-authority flags.
///
/// The flag is kept beside the record rather than derived from it: while a
/// transfer message is in flight the two can briefly disagree, and the rule
/// is that the most recently confirmed record wins.
pub struct AuthorityManager {
    /// The peer this manager belongs to (the server or one client).
    me: AuthorityPeer,
    /// Authority of record per entity.  Entities not listed default to
    /// server authority.
    records: Vec<(Entity, AuthorityPeer)>,
}

impl AuthorityManager {
    /// The identity of the local peer.
    pub closed spec fn spec_me(&self) -> AuthorityPeer {
        self.me
    }

    /// The per-entity records.
    pub closed spec fn records_seq(&self) -> Seq<(Entity, AuthorityPeer)> {
        self.records@
    }

    /// Each entity appears at most once among the records.
    pub open spec fn wf(&self) -> bool {
        forall|i: int, j: int|
            0 <= i < j < self.records_seq().len() ==> (#[trigger] self.records_seq()[i]).0
                != (#[trigger] self.records_seq()[j]).0
    }

    /// The authority of record for `entity`: the stored record, or server
    /// authority where none was ever set.
    pub open spec fn spec_authority_of(&self, entity: Entity) -> AuthorityPeer {
        match lookup(self.records_seq(), entity) {
            Some(p) => p,
            None => AuthorityPeer::Server,
        }
    }

    /// The local peer has authority over `entity` exactly when the record
    /// names it.
    pub open spec fn spec_has_authority(&self, entity: Entity) -> bool {
        self.spec_authority_of(entity).spec_holds(self.spec_me())
    }

    /// A manager for the given peer with no records: every entity is under
    /// the default server authority.
    pub fn new(me: AuthorityPeer) -> (r: AuthorityManager)
        ensures
            r.wf(),
            r.spec_me() == me,
            forall|e: Entity| #[trigger] r.spec_authority_of(e) == AuthorityPeer::Server,
    {
        AuthorityManager { me, records: Vec::new() }
    }

    /// Index of the record for `entity`, if there is one.
    fn index_of(&self, entity: Entity) -> (r: Option<usize>)
        ensures
            match r {
                Some(k) => k < self.records_seq().len() && self.records_seq()[k as int].0
                    == entity,
                None => forall|j: int|
                    0 <= j < self.records_seq().len() ==> #[trigger] self.records_seq()[j].0
                        != entity,
            },
    {
        let n = self.records.len();
        let mut i: usize = 0;
        while i < n
            invariant
                i <= n,
                n == self.records_seq().len(),
                forall|j: int| 0 <= j < i ==> #[trigger] self.records_seq()[j].0 != entity,
            decreases n - i,
        {
            if self.records[i].0 == entity {
                return Some(i);
            }
            i = i + 1;
        }
        None
    }

    /// The authority of record for `entity`.
    pub fn authority_of(&self, entity: Entity) -> (r: AuthorityPeer)
        requires
            self.wf(),
        ensures
            r == self.spec_authority_of(entity),
    {
        match self.index_of(entity) {
            Some(i) => {
                proof {
                    lemma_lookup_at(self.records_seq(), i as int);
                }
                self.records[i].1
            },
            None => AuthorityPeer::Server,
        }
    }

    /// Set the authority of record for `entity` to `new_peer`.
    ///
    /// The old holder's flag is thereby cleared and the new holder's set:
    /// `spec_has_authority` follows the record.
    pub fn transfer(&mut self, entity: Entity, new_peer: AuthorityPeer)
        requires
            old(self).wf(),
        ensures
            final(self).wf(),
            final(self).spec_me() == old(self).spec_me(),
            final(self).spec_authority_of(entity) == new_peer,
            forall|e: Entity|
                e != entity ==> #[trigger] final(self).spec_authority_of(e) == old(
                    self,
                ).spec_authority_of(e),
    {
        match self.index_of(entity) {
            Some(i) => {
                let ghost before = self.records_seq();
                self.records.set(i, (entity, new_peer));
                proof {
                    assert(self.records_seq() =~= before.update(i as int, (entity, new_peer)));
                    lemma_lookup_update(before, self.records_seq(), i as int, entity, new_peer);
                }
            },
            None => {
                let ghost before = self.records_seq();
                self.records.push((entity, new_peer));
                proof {
                    assert(self.records_seq() =~= before.push((entity, new_peer)));
                    lemma_lookup_push(before, self.records_seq(), entity, new_peer);
                }
            },
        }
    }

    /// Whether the local peer currently has authority over `entity`.
    pub fn has_authority(&self, entity: Entity) -> (r: bool)
        requires
            self.wf(),
        ensures
            r == self.spec_has_authority(entity),
    {
        let record = self.authority_of(entity);
        record.holds(&self.me)
    }

    /// Whether an incoming component update for `entity`, originated by
    /// `sender`, is accepted here.
    ///
    /// Accepted exactly when the authority of record is `sender` and the
    /// sender is not this peer itself: a peer never accepts echoes of its
    /// own authority, and an update from a demoted holder is refused the
    /// moment the record names someone else.
    pub fn accepts_update_from(&self, entity: Entity, sender: &AuthorityPeer) -> (r: bool)
        requires
            self.wf(),
        ensures
            r == (self.spec_authority_of(entity).spec_holds(*sender) && *sender
                != self.spec_me()),
    {
        let record = self.authority_of(entity);
        record.holds(sender) && !(*sender == self.me)
    }
}

/// Updating the record at `i` (the only one for `entity`) changes the
/// looked-up authority of `entity` and of no other entity.
proof fn lemma_lookup_update(
    before: Seq<(Entity, AuthorityPeer)>,
    after: Seq<(Entity, AuthorityPeer)>,
    i: int,
    entity: Entity,
    new_peer: AuthorityPeer,
)
    requires
        0 <= i < before.len(),
        after =~= before.update(i, (entity, new_peer)),
        before[i].0 == entity,
        forall|a: int, b: int| 0 <= a < b < before.len() ==> (#[trigger] before[a]).0
            != (#[trigger] before[b]).0,
    ensures
        forall|a: int, b: int| 0 <= a < b < after.len() ==> (#[trigger] after[a]).0
            != (#[trigger] after[b]).0,
        lookup(after, entity) == Some(new_peer),
        forall|e: Entity| e != entity ==> #[trigger] lookup(after, e) == lookup(before, e),
{
    assert forall|a: int| 0 <= a < after.len() implies #[trigger] after[a].0 == before[a].0 by {}
    let j0 = choose|j: int| 0 <= j < after.len() && #[trigger] after[j].0 == entity;
    assert(after[i].0 == entity);
    assert(j0 == i) by {
        if j0 != i {
            assert(before[j0].0 != before[i].0);
        }
    }
    assert(lookup(after, entity) == Some(new_peer));
    assert forall|e: Entity| e != entity implies #[trigger] lookup(after, e) == lookup(
        before,
        e,
    ) by {
        if exists|j: int| 0 <= j < before.len() && #[trigger] before[j].0 == e {
            let j = choose|j: int| 0 <= j < before.len() && #[trigger] before[j].0 == e;
            assert(after[j].0 == e);
            let ja = choose|k: int| 0 <= k < after.len() && #[trigger] after[k].0 == e;
            let jb = choose|k: int| 0 <= k < before.len() && #[trigger] before[k].0 == e;
            assert(ja == jb) by {
                if ja != jb {
                    assert(before[ja].0 == e && before[jb].0 == e);
                }
            }
            assert(ja != i);
            assert(after[ja].1 == before[jb].1);
        } else {
            assert forall|j: int| 0 <= j < after.len() implies #[trigger] after[j].0 != e by {
                assert(before[j].0 != e);
            }
        }
    }
}

/// Appending a record for an entity with no earlier record gives it that
/// authority and leaves every other entity's lookup unchanged.
proof fn lemma_lookup_push(
    before: Seq<(Entity, AuthorityPeer)>,
    after: Seq<(Entity, AuthorityPeer)>,
    entity: Entity,
    new_peer: AuthorityPeer,
)
    requires
        after =~= before.push((entity, new_peer)),
        forall|j: int| 0 <= j < before.len() ==> #[trigger] before[j].0 != entity,
        forall|a: int, b: int| 0 <= a < b < before.len() ==> (#[trigger] before[a]).0
            != (#[trigger] before[b]).0,
    ensures
        forall|a: int, b: int| 0 <= a < b < after.len() ==> (#[trigger] after[a]).0
            != (#[trigger] after[b]).0,
        lookup(after, entity) == Some(new_peer),
        forall|e: Entity| e != entity ==> #[trigger] lookup(after, e) == lookup(before, e),
{
    let n = before.len() as int;
    assert(after[n].0 == entity);
    let j0 = choose|j: int| 0 <= j < after.len() && #[trigger] after[j].0 == entity;
    assert(j0 == n) by {
        if j0 < n {
            assert(before[j0].0 != entity);
        }
    }
    assert(lookup(after, entity) == Some(new_peer));
    assert forall|e: Entity| e != entity implies #[trigger] lookup(after, e) == lookup(
        before,
        e,
    ) by {
        if exists|j: int| 0 <= j < before.len() && #[trigger] before[j].0 == e {
            let j = choose|j: int| 0 <= j < before.len() && #[trigger] before[j].0 == e;
            assert(after[j].0 == e);
            let ja = choose|k: int| 0 <= k < after.len() && #[trigger] after[k].0 == e;
            let jb = choose|k: int| 0 <= k < before.len() && #[trigger] before[k].0 == e;
            assert(ja < n);
            assert(ja == jb) by {
                if ja != jb {
                    assert(before[ja].0 == e && before[jb].0 == e);
                }
            }
            assert(after[ja].1 == before[jb].1);
        } else {
            assert forall|j: int| 0 <= j < after.len() implies #[trigger] after[j].0 != e by {
                if j < n {
                    assert(before[j].0 != e);
                }
            }
        }
    }
}

/// Where entities appear at most once, the record at `j` is the one the
/// lookup finds.
proof fn lemma_lookup_at(records: Seq<(Entity, AuthorityPeer)>, j: int)
    requires
        0 <= j < records.len(),
        forall|a: int, b: int| 0 <= a < b < records.len() ==> (#[trigger] records[a]).0
            != (#[trigger] records[b]).0,
    ensures
        lookup(records, records[j].0) == Some(records[j].1),
{
    let e = records[j].0;
    let j0 = choose|k: int| 0 <= k < records.len() && #[trigger] records[k].0 == e;
    assert(j0 == j) by {
        if j0 != j {
            assert(records[j0].0 == e && records[j].0 == e);
        }
    }
}

/// The stored authority for `entity` among `records`, if any record names it.
pub open spec fn lookup(records: Seq<(Entity, AuthorityPeer)>, entity: Entity) -> Option<
    AuthorityPeer,
> {
    if exists|j: int| 0 <= j < records.len() && #[trigger] records[j].0 == entity {
        Some(
            records[choose|j: int| 0 <= j < records.len() && #[trigger] records[j].0 == entity].1,
        )
    } else {
        None
    }
}

} // verus!
