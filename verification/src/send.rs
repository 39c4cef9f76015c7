//! The replication sender of one connection: tracks which replication
//! groups are dirty, ages their priorities, and packs whole groups into
//! outbound records under a byte budget.
//!
//! Scheduling is deterministic: dirty groups go out in order of descending
//! accumulated priority, ties broken by group id, and a group that stays
//! unsent keeps accumulating priority, so starved groups eventually
//! dominate.

use vstd::prelude::*;
use crate::id::Entity;
use crate::messages::{EntityRecord, GroupKind, GroupRecord};
use crate::replication::ReplicationGroupId;

verus! {

/// The sender-side state of one replication group.
#[derive(Clone, Debug)]
pub struct GroupState {
    /// The group's id.
    pub id: ReplicationGroupId,
    /// Priority gained per tick spent dirty; the send-rate weight.
    pub base_priority: u32,
    /// Accumulated priority; reset on a successful send.
    pub accumulated: u64,
    /// The entities of the group, all delivered together.
    pub members: Vec<Entity>,
    /// Whether the group has changes that still need to go out.
    pub dirty: bool,
    /// What the next send of this group is: a spawn (full state) until the
    /// first send or after a visibility or authority change, an update
    /// afterwards.
    pub kind: GroupKind,
}

/// `g` after one tick of priority aging: a dirty group gains its base
/// priority (saturating), a clean one is left alone.
pub open spec fn spec_aged(g: GroupState) -> GroupState {
    GroupState {
        accumulated: if g.dirty {
            if g.accumulated + g.base_priority > u64::MAX {
                u64::MAX
            } else {
                (g.accumulated + g.base_priority) as u64
            }
        } else {
            g.accumulated
        },
        ..g
    }
}

/// `g` after a successful send: clean, priority reset, next send an
/// update.
pub open spec fn spec_sent(g: GroupState) -> GroupState {
    GroupState { accumulated: 0, dirty: false, kind: GroupKind::Update, ..g }
}

/// Scheduling order: `a` goes before `b` when its accumulated priority is
/// higher, or equal with the smaller id (the deterministic tie-break).
pub open spec fn spec_key_ge(a: GroupState, b: GroupState) -> bool {
    a.accumulated > b.accumulated || (a.accumulated == b.accumulated && a.id.0 <= b.id.0)
}

/// The cost of sending a group: one unit of overhead plus one per member.
pub open spec fn spec_cost(g: GroupState) -> int {
    1 + g.members@.len() as int
}

/// The entities a group record mentions.
pub open spec fn spec_record_entities(r: GroupRecord) -> Seq<Entity> {
    r.entities@.map_values(|er: EntityRecord| er.entity)
}

/// `s` with every occurrence of `entity` removed, order preserved.
pub open spec fn spec_without(s: Seq<Entity>, entity: Entity) -> Seq<Entity>
    decreases s.len(),
{
    if s.len() == 0 {
        Seq::empty()
    } else if s.last() == entity {
        spec_without(s.drop_last(), entity)
    } else {
        spec_without(s.drop_last(), entity).push(s.last())
    }
}

/// The summed cost of the scheduled records.
pub open spec fn spec_total_cost(rs: Seq<GroupRecord>) -> int
    decreases rs.len(),
{
    if rs.len() == 0 {
        0
    } else {
        spec_total_cost(rs.drop_last()) + 1 + rs.last().entities@.len()
    }
}

/// The replication sender of one connection.
pub struct ReplicationSender {
    groups: Vec<GroupState>,
}

impl ReplicationSender {
    /// The tracked groups.
    pub closed spec fn groups_seq(&self) -> Seq<GroupState> {
        self.groups@
    }

    /// Group ids are unique.
    pub open spec fn wf(&self) -> bool {
        forall|i: int, j: int|
            0 <= i < j < self.groups_seq().len() ==> (#[trigger] self.groups_seq()[i]).id
                != (#[trigger] self.groups_seq()[j]).id
    }

    /// A sender tracking no groups.
    pub fn new() -> (r: ReplicationSender)
        ensures
            r.wf(),
            r.groups_seq().len() == 0,
    {
        ReplicationSender { groups: Vec::new() }
    }

    /// Index of the group with `id`, if tracked.
    fn index_of(&self, id: ReplicationGroupId) -> (r: Option<usize>)
        ensures
            match r {
                Some(k) => k < self.groups_seq().len() && self.groups_seq()[k as int].id == id,
                None => forall|j: int|
                    0 <= j < self.groups_seq().len() ==> (#[trigger] self.groups_seq()[j]).id
                        != id,
            },
    {
        let n = self.groups.len();
        let mut i: usize = 0;
        while i < n
            invariant
                i <= n,
                n == self.groups_seq().len(),
                forall|j: int| 0 <= j < i ==> (#[trigger] self.groups_seq()[j]).id != id,
            decreases n - i,
        {
            if self.groups[i].id.0 == id.0 {
                return Some(i);
            }
            i = i + 1;
        }
        None
    }

    /// Start tracking a group.  Its first send will be a spawn carrying
    /// full state.
    pub fn add_group(&mut self, id: ReplicationGroupId, base_priority: u32)
        requires
            old(self).wf(),
            forall|j: int|
                0 <= j < old(self).groups_seq().len() ==> (#[trigger] old(self).groups_seq()[
                j]).id != id,
        ensures
            final(self).wf(),
            final(self).groups_seq().len() == old(self).groups_seq().len() + 1,
            forall|j: int|
                0 <= j < old(self).groups_seq().len() ==> #[trigger] final(self).groups_seq()[j]
                    == old(self).groups_seq()[j],
            ({
                let g = final(self).groups_seq().last();
                g.id == id && g.base_priority == base_priority && g.accumulated == 0
                    && g.members@.len() == 0 && !g.dirty && g.kind is Spawn
            }),
    {
        self.groups.push(
            GroupState {
                id,
                base_priority,
                accumulated: 0,
                members: Vec::new(),
                dirty: false,
                kind: GroupKind::Spawn,
            },
        );
        proof {
            let s = self.groups_seq();
            let olds = old(self).groups_seq();
            assert forall|i: int, j: int| 0 <= i < j < s.len() implies (#[trigger] s[i]).id
                != (#[trigger] s[j]).id by {
                if j < s.len() - 1 {
                    assert(s[i] == olds[i] && s[j] == olds[j]);
                } else {
                    assert(s[i] == olds[i]);
                }
            }
        }
    }

    /// Make `entity` visible through `id`: it joins the group and will be
    /// delivered with it.  The group is marked dirty so the membership
    /// change goes out.
    pub fn add_member(&mut self, id: ReplicationGroupId, entity: Entity) -> (added: bool)
        requires
            old(self).wf(),
        ensures
            final(self).wf(),
            final(self).groups_seq().len() == old(self).groups_seq().len(),
            added == exists|j: int|
                0 <= j < old(self).groups_seq().len() && (#[trigger] old(self).groups_seq()[
                j]).id == id,
            forall|j: int|
                0 <= j < old(self).groups_seq().len() && (#[trigger] old(self).groups_seq()[
                j]).id != id ==> final(self).groups_seq()[j] == old(self).groups_seq()[j],
            forall|j: int|
                0 <= j < old(self).groups_seq().len() && (#[trigger] old(self).groups_seq()[
                j]).id == id ==> ({
                    let g = final(self).groups_seq()[j];
                    let o = old(self).groups_seq()[j];
                    g.members@ =~= o.members@.push(entity) && g.dirty && g.id == o.id
                        && g.base_priority == o.base_priority && g.accumulated == o.accumulated
                        && g.kind == o.kind
                }),
    {
        match self.index_of(id) {
            Some(k) => {
                let g = &mut self.groups[k];
                g.members.push(entity);
                g.dirty = true;
                true
            },
            None => false,
        }
    }

    /// Remove `entity` from the members of `id` (it became invisible to
    /// this connection).  The kept members are exactly the old sequence
    /// with every occurrence of `entity` removed, in their old order.  The
    /// group is marked for a fresh insert, since the peer can no longer
    /// patch state it never saw.
    pub fn remove_member(&mut self, id: ReplicationGroupId, entity: Entity)
        requires
            old(self).wf(),
        ensures
            final(self).wf(),
            final(self).groups_seq().len() == old(self).groups_seq().len(),
            forall|j: int|
                0 <= j < old(self).groups_seq().len() && (#[trigger] old(self).groups_seq()[
                j]).id != id ==> final(self).groups_seq()[j] == old(self).groups_seq()[j],
            forall|j: int|
                0 <= j < old(self).groups_seq().len() && (#[trigger] old(self).groups_seq()[
                j]).id == id ==> ({
                    let g = final(self).groups_seq()[j];
                    let o = old(self).groups_seq()[j];
                    g.dirty && g.id == o.id && g.base_priority == o.base_priority
                        && g.accumulated == o.accumulated && g.kind is Spawn && g.members@
                        =~= spec_without(o.members@, entity)
                }),
    {
        match self.index_of(id) {
            Some(k) => {
                let g = &mut self.groups[k];
                let n = g.members.len();
                let mut out: Vec<Entity> = Vec::new();
                let mut i: usize = 0;
                while i < n
                    invariant
                        i <= n,
                        n == g.members@.len(),
                        out@ =~= spec_without(g.members@.take(i as int), entity),
                    decreases n - i,
                {
                    let e = g.members[i];
                    let ghost prefix = g.members@.take(i as int);
                    if e.0 != entity.0 {
                        out.push(e);
                    }
                    proof {
                        assert(g.members@.take(i + 1).drop_last() =~= prefix);
                        assert(g.members@.take(i + 1).last() == g.members@[i as int]);
                    }
                    i = i + 1;
                }
                proof {
                    assert(g.members@.take(n as int) =~= g.members@);
                }
                g.members = out;
                g.dirty = true;
                g.kind = GroupKind::Spawn;
            },
            None => {},
        }
    }

    /// Record that `entity`'s state changed: every group it belongs to is
    /// marked dirty and will be scheduled.
    pub fn mark_changed(&mut self, entity: Entity)
        requires
            old(self).wf(),
        ensures
            final(self).wf(),
            final(self).groups_seq().len() == old(self).groups_seq().len(),
            forall|j: int|
                0 <= j < old(self).groups_seq().len() ==> ({
                    let g = final(self).groups_seq()[j];
                    let o = #[trigger] old(self).groups_seq()[j];
                    g.id == o.id && g.base_priority == o.base_priority && g.accumulated
                        == o.accumulated && g.members == o.members && g.kind == o.kind && g.dirty
                        == (o.dirty || o.members@.contains(entity))
                }),
    {
        let n = self.groups.len();
        let mut i: usize = 0;
        while i < n
            invariant
                n == self.groups_seq().len(),
                i <= n,
                forall|j: int|
                    i <= j < n ==> #[trigger] self.groups_seq()[j] == old(self).groups_seq()[j],
                forall|j: int|
                    0 <= j < i ==> ({
                        let g = #[trigger] self.groups_seq()[j];
                        let o = old(self).groups_seq()[j];
                        g.id == o.id && g.base_priority == o.base_priority && g.accumulated
                            == o.accumulated && g.members == o.members && g.kind == o.kind
                            && g.dirty == (o.dirty || o.members@.contains(entity))
                    }),
            decreases n - i,
        {
            let has = contains_entity(&self.groups[i].members, entity);
            if has {
                let g = &mut self.groups[i];
                g.dirty = true;
            }
            i = i + 1;
        }
        proof {
            assert forall|a: int, b: int|
                0 <= a < b < self.groups_seq().len() implies (#[trigger] self.groups_seq()[
            a]).id != (#[trigger] self.groups_seq()[b]).id by {
                assert(old(self).groups_seq()[a].id != old(self).groups_seq()[b].id);
            }
        }
    }

    /// Mark the group for a fresh insert: its next send carries full
    /// state, as after an authority or visibility change.
    pub fn mark_reinsert(&mut self, id: ReplicationGroupId)
        requires
            old(self).wf(),
        ensures
            final(self).wf(),
            final(self).groups_seq().len() == old(self).groups_seq().len(),
            forall|j: int|
                0 <= j < old(self).groups_seq().len() && (#[trigger] old(self).groups_seq()[
                j]).id != id ==> final(self).groups_seq()[j] == old(self).groups_seq()[j],
            forall|j: int|
                0 <= j < old(self).groups_seq().len() && (#[trigger] old(self).groups_seq()[
                j]).id == id ==> ({
                    let g = final(self).groups_seq()[j];
                    let o = old(self).groups_seq()[j];
                    g.dirty && g.kind is Spawn && g.id == o.id && g.base_priority
                        == o.base_priority && g.accumulated == o.accumulated && g.members
                        == o.members
                }),
    {
        match self.index_of(id) {
            Some(k) => {
                let g = &mut self.groups[k];
                g.dirty = true;
                g.kind = GroupKind::Spawn;
            },
            None => {},
        }
    }
    /// One send tick: age the dirty groups' priorities, then pack whole
    /// groups into records, highest accumulated priority first (ties by
    /// group id), until the next group no longer fits the budget.
    ///
    /// The contract pins down what goes out and what it does to the
    /// sender's state: a group either goes out whole — a record always
    /// carries every member of its group — and is reset, or it ages and
    /// stays dirty; only dirty groups are ever sent; the total cost stays
    /// within the budget; and the schedule is fair over the aged
    /// priorities ([`spec_schedule_fair`]): records descend by accumulated
    /// priority with ties broken by the smaller group id, every scheduled
    /// group outranks every dirty group left behind, and a dirty group is
    /// left behind only when the best remaining one does not fit the
    /// budget — so a sender that never sends does not meet this contract.
    #[verifier::spinoff_prover]
    #[verifier::rlimit(100)]
    pub fn send_tick(&mut self, budget: u64) -> (records: Vec<GroupRecord>)
        requires
            old(self).wf(),
        ensures
            final(self).wf(),
            final(self).groups_seq().len() == old(self).groups_seq().len(),
            forall|j: int|
                0 <= j < old(self).groups_seq().len() ==> #[trigger] final(self).groups_seq()[j]
                    == ({
                    let o = old(self).groups_seq()[j];
                    if spec_names(records@, o.id) {
                        spec_sent(spec_aged(o))
                    } else {
                        spec_aged(o)
                    }
                }),
            forall|j: int|
                0 <= j < old(self).groups_seq().len() && spec_names(
                    records@,
                    (#[trigger] old(self).groups_seq()[j]).id,
                ) ==> old(self).groups_seq()[j].dirty,
            forall|k: int|
                0 <= k < records@.len() ==> exists|j: int|
                    0 <= j < old(self).groups_seq().len() && (#[trigger] old(
                        self,
                    ).groups_seq()[j]).id == (#[trigger] records@[k]).group_id,
            forall|k: int, j: int|
                0 <= k < records@.len() && 0 <= j < old(self).groups_seq().len() && (
                #[trigger] records@[k]).group_id == (#[trigger] old(self).groups_seq()[j]).id
                    ==> old(self).groups_seq()[j].dirty && records@[k].kind == old(
                    self,
                ).groups_seq()[j].kind && spec_record_entities(records@[k]) =~= old(
                    self,
                ).groups_seq()[j].members@,
            forall|k: int, m: int|
                0 <= k < records@.len() && 0 <= m < records@[k].entities@.len() ==> (
                #[trigger] records@[k].entities@[m]).components@.len() == 0,
            spec_total_cost(records@) <= budget,
            exists|ord: Seq<int>|
                #[trigger] spec_schedule_fair(
                    spec_aged_all(old(self).groups_seq()),
                    records@,
                    ord,
                    budget as int,
                ),
    {
        let ghost olds = old(self).groups_seq();
        let n = self.groups.len();
        // Age every dirty group's priority.
        let mut i: usize = 0;
        while i < n
            invariant
                n == self.groups@.len(),
                i <= n,
                forall|j: int|
                    0 <= j < i ==> #[trigger] self.groups@[j] == spec_aged(
                        old(self).groups_seq()[j],
                    ),
                forall|j: int|
                    i <= j < n ==> #[trigger] self.groups@[j] == old(self).groups_seq()[j],
            decreases n - i,
        {
            let dirty = self.groups[i].dirty;
            if dirty {
                let base = self.groups[i].base_priority as u64;
                let g = &mut self.groups[i];
                if g.accumulated > u64::MAX - base {
                    g.accumulated = u64::MAX;
                } else {
                    g.accumulated = g.accumulated + base;
                }
            }
            i = i + 1;
        }
        let ghost mid = self.groups@;
        proof {
            assert forall|a: int, b: int| 0 <= a < b < n implies (#[trigger] mid[a]).id != (
            #[trigger] mid[b]).id by {
                assert(olds[a].id != olds[b].id);
            }
        }
        // Pack the best-ranked dirty groups under the budget.
        let records = select(&self.groups, budget);
        // Reset what went out.
        let mut i3: usize = 0;
        while i3 < n
            invariant
                i3 <= n,
                n == self.groups@.len(),
                forall|j: int|
                    0 <= j < i3 ==> #[trigger] self.groups@[j] == (if spec_names(
                        records@,
                        mid[j].id,
                    ) {
                        spec_sent(mid[j])
                    } else {
                        mid[j]
                    }),
                forall|j: int| i3 <= j < n ==> #[trigger] self.groups@[j] == mid[j],
            decreases n - i3,
        {
            let went = names_group(&records, self.groups[i3].id);
            if went {
                let g = &mut self.groups[i3];
                g.accumulated = 0;
                g.dirty = false;
                g.kind = GroupKind::Update;
            }
            i3 = i3 + 1;
        }
        // Aging keeps ids, members, kinds and dirtiness, so the packing
        // guarantees proved over the aged state carry back to the old one.
        proof {
            assert forall|j: int| 0 <= j < n implies #[trigger] mid[j] == spec_aged(olds[j])
                && mid[j].id == olds[j].id by {}
            assert forall|j: int| 0 <= j < n implies #[trigger] self.groups_seq()[j] == (
            if spec_names(records@, olds[j].id) {
                spec_sent(spec_aged(olds[j]))
            } else {
                spec_aged(olds[j])
            }) by {}
            assert forall|a: int, b2: int|
                0 <= a < b2 < self.groups_seq().len() implies (#[trigger] self.groups_seq()[
            a]).id != (#[trigger] self.groups_seq()[b2]).id by {
                assert(olds[a].id != olds[b2].id);
            }
            assert(mid =~= spec_aged_all(olds));
            let ord = choose|ord: Seq<int>|
                #[trigger] spec_schedule_fair(mid, records@, ord, budget as int);
            assert(spec_schedule_fair(spec_aged_all(olds), records@, ord, budget as int));
        }
        records
    }
}


/// Some record in `rs` names the group `id`.
pub open spec fn spec_names(rs: Seq<GroupRecord>, id: ReplicationGroupId) -> bool {
    exists|k: int| 0 <= k < rs.len() && (#[trigger] rs[k]).group_id == id
}

/// Every group aged by one tick.
pub open spec fn spec_aged_all(s: Seq<GroupState>) -> Seq<GroupState> {
    s.map_values(|g: GroupState| spec_aged(g))
}

/// Fair scheduling of `records` against `groups`, witnessed by `order`:
/// `order[k]` is the index of the group the `k`-th record sends, the
/// records stand in descending scheduling order (higher accumulated
/// priority first, ties broken by the smaller group id), every scheduled
/// group outranks every dirty group left unscheduled, and if any dirty
/// group was left unscheduled, the best of them did not fit what the
/// budget had left — so whenever the best dirty group fits the budget,
/// something is sent.
pub open spec fn spec_schedule_fair(
    groups: Seq<GroupState>,
    records: Seq<GroupRecord>,
    order: Seq<int>,
    budget: int,
) -> bool {
    &&& order.len() == records.len()
    &&& (forall|k: int| 0 <= k < order.len() ==> 0 <= #[trigger] order[k] < groups.len())
    &&& (forall|k: int|
        0 <= k < order.len() ==> (#[trigger] records[k]).group_id == groups[order[k]].id)
    &&& (forall|k1: int, k2: int|
        0 <= k1 < k2 < order.len() ==> spec_key_ge(
            groups[#[trigger] order[k1]],
            groups[#[trigger] order[k2]],
        ))
    &&& (forall|k: int, j: int|
        0 <= k < order.len() && 0 <= j < groups.len() && (#[trigger] groups[j]).dirty
            && !spec_names(records, groups[j].id) ==> spec_key_ge(
            groups[#[trigger] order[k]],
            groups[j],
        ))
    &&& ((exists|j: int|
        0 <= j < groups.len() && (#[trigger] groups[j]).dirty && !spec_names(
            records,
            groups[j].id,
        )) ==> (exists|b: int|
        0 <= b < groups.len() && (#[trigger] groups[b]).dirty && !spec_names(
            records,
            groups[b].id,
        ) && spec_cost(groups[b]) > budget - spec_total_cost(records) && forall|j: int|
            0 <= j < groups.len() && (#[trigger] groups[j]).dirty && !spec_names(
                records,
                groups[j].id,
            ) ==> spec_key_ge(groups[b], groups[j])))
}


/// Whether some record names the group `id`.
fn names_group(records: &Vec<GroupRecord>, id: ReplicationGroupId) -> (r: bool)
    ensures
        r == spec_names(records@, id),
{
    let n = records.len();
    let mut i: usize = 0;
    while i < n
        invariant
            i <= n,
            n == records@.len(),
            forall|k: int| 0 <= k < i ==> (#[trigger] records@[k]).group_id != id,
        decreases n - i,
    {
        if records[i].group_id.0 == id.0 {
            assert(records@[i as int].group_id == id);
            return true;
        }
        i = i + 1;
    }
    assert(!spec_names(records@, id)) by {
        if spec_names(records@, id) {
            let k = choose|k: int|
                0 <= k < records@.len() && (#[trigger] records@[k]).group_id == id;
        }
    }
    false
}

/// Pack the best-ranked dirty groups into records until the next does not
/// fit the budget.
#[verifier::spinoff_prover]
#[verifier::rlimit(100)]
fn select(groups: &Vec<GroupState>, budget: u64) -> (records: Vec<GroupRecord>)
    requires
        forall|a: int, b: int| 0 <= a < b < groups@.len() ==> (#[trigger] groups@[a]).id != (
        #[trigger] groups@[b]).id,
    ensures
        forall|j: int|
            0 <= j < groups@.len() && spec_names(records@, (#[trigger] groups@[j]).id)
                ==> groups@[j].dirty,
        forall|k: int|
            0 <= k < records@.len() ==> exists|j: int|
                0 <= j < groups@.len() && (#[trigger] groups@[j]).id == (#[trigger] records@[
                k]).group_id,
        forall|k: int, j: int|
            0 <= k < records@.len() && 0 <= j < groups@.len() && (#[trigger] records@[
            k]).group_id == (#[trigger] groups@[j]).id ==> groups@[j].dirty && records@[k].kind
                == groups@[j].kind && spec_record_entities(records@[k]) =~= groups@[j].members@,
        forall|k: int, m: int|
            0 <= k < records@.len() && 0 <= m < records@[k].entities@.len() ==> (
            #[trigger] records@[k].entities@[m]).components@.len() == 0,
        spec_total_cost(records@) <= budget,
        exists|ord: Seq<int>|
            #[trigger] spec_schedule_fair(groups@, records@, ord, budget as int),
{
    let (order, ordered) = select_order(groups);
    let records = pack_in_order(groups, &order, budget);
    proof {
        lemma_select_fair(groups@, order@, records@, ordered@, budget as int);
        lemma_select_contents(groups@, order@, records@);
    }
    records
}

/// Pack records for the ordered groups, front to back, until the next
/// group no longer fits the budget.
#[verifier::spinoff_prover]
#[verifier::rlimit(100)]
fn pack_in_order(groups: &Vec<GroupState>, order: &Vec<usize>, budget: u64) -> (records: Vec<
    GroupRecord,
>)
    requires
        forall|k: int| 0 <= k < order@.len() ==> (#[trigger] order@[k]) < groups@.len(),
    ensures
        records@.len() <= order@.len(),
        forall|k: int|
            0 <= k < records@.len() ==> (#[trigger] records@[k]).group_id == groups@[
            order@[k] as int].id && records@[k].kind == groups@[order@[k] as int].kind
                && spec_record_entities(records@[k]) =~= groups@[order@[k] as int].members@,
        forall|k: int, m: int|
            0 <= k < records@.len() && 0 <= m < records@[k].entities@.len() ==> (
            #[trigger] records@[k].entities@[m]).components@.len() == 0,
        spec_total_cost(records@) <= budget,
        records@.len() < order@.len() ==> spec_cost(groups@[order@[records@.len() as int] as int])
            > budget - spec_total_cost(records@),
{
    let len = order.len();
    let mut records: Vec<GroupRecord> = Vec::new();
    let mut remaining: u64 = budget;
    let mut stopped = false;
    let mut t: usize = 0;
    while t < len
        invariant
            len == order@.len(),
            t <= len,
            forall|k: int| 0 <= k < order@.len() ==> (#[trigger] order@[k]) < groups@.len(),
            !stopped ==> records@.len() == t,
            stopped ==> records@.len() < len && records@.len() <= t && spec_cost(
                groups@[order@[records@.len() as int] as int],
            ) > remaining,
            forall|k: int|
                0 <= k < records@.len() ==> (#[trigger] records@[k]).group_id == groups@[
                order@[k] as int].id && records@[k].kind == groups@[order@[k] as int].kind
                    && spec_record_entities(records@[k]) =~= groups@[order@[k] as int].members@,
            forall|k: int, m: int|
                0 <= k < records@.len() && 0 <= m < records@[k].entities@.len() ==> (
                #[trigger] records@[k].entities@[m]).components@.len() == 0,
            spec_total_cost(records@) + remaining == budget,
        decreases len - t,
    {
        if !stopped {
            let b = order[t];
            if groups[b].members.len() as u64 >= remaining {
                stopped = true;
            } else {
                let cost: u64 = groups[b].members.len() as u64 + 1;
                let rec = build_record(&groups[b]);
                let ghost records0 = records@;
                records.push(rec);
                remaining = remaining - cost;
                proof {
                    assert(records@.drop_last() =~= records0);
                }
            }
        }
        t = t + 1;
    }
    records
}

/// Record ids name exactly the dirty groups the order scheduled/// Composes the packing facts into the sender's contract: record ids name
/// dirty tracked groups, and the order the packer followed witnesses that
/// the schedule is fair.
#[verifier::spinoff_prover]
#[verifier::rlimit(100)]
proof fn lemma_select_fair(
    groups: Seq<GroupState>,
    order: Seq<usize>,
    records: Seq<GroupRecord>,
    fullmask: Seq<bool>,
    budget: int,
)
    requires
        fullmask.len() == groups.len(),
        records.len() <= order.len(),
        forall|a: int, b: int| 0 <= a < b < groups.len() ==> (#[trigger] groups[a]).id != (
        #[trigger] groups[b]).id,
        forall|k: int|
            0 <= k < order.len() ==> (#[trigger] order[k]) < groups.len() && groups[
            order[k] as int].dirty,
        forall|k1: int, k2: int|
            0 <= k1 < k2 < order.len() ==> spec_key_ge(
                groups[order[k1] as int],
                groups[order[k2] as int],
            ),
        forall|k1: int, k2: int|
            0 <= k1 < k2 < order.len() ==> (#[trigger] order[k1]) != (#[trigger] order[k2]),
        forall|j: int|
            0 <= j < groups.len() && (#[trigger] groups[j]).dirty ==> fullmask[j],
        forall|j: int|
            0 <= j < groups.len() && #[trigger] fullmask[j] ==> exists|w: int|
                0 <= w < order.len() && (#[trigger] order[w]) as int == j,
        forall|k: int|
            0 <= k < records.len() ==> (#[trigger] records[k]).group_id == groups[
            order[k] as int].id,
        records.len() < order.len() ==> spec_cost(groups[order[records.len() as int] as int])
            > budget - spec_total_cost(records),
    ensures
        forall|j: int|
            0 <= j < groups.len() && spec_names(records, (#[trigger] groups[j]).id)
                ==> groups[j].dirty,
        forall|k: int|
            0 <= k < records.len() ==> exists|j: int|
                0 <= j < groups.len() && (#[trigger] groups[j]).id == (#[trigger] records[
                k]).group_id,
        exists|ord: Seq<int>| #[trigger] spec_schedule_fair(groups, records, ord, budget),
{
    lemma_select_finish(groups, order, records);
    lemma_unsent_position(groups, order, records, fullmask);
    lemma_select_blocker(
        groups,
        order,
        records,
        fullmask,
        records.len() < order.len(),
        records.len() as int,
        budget - spec_total_cost(records),
        budget,
    );
    lemma_fair_witness(groups, order, records, budget);
}

/// Every dirty group that no record names sits in the order at or past
/// the cut: the packer walked the order front to back.
#[verifier::spinoff_prover]
#[verifier::rlimit(100)]
proof fn lemma_unsent_position(
    groups: Seq<GroupState>,
    order: Seq<usize>,
    records: Seq<GroupRecord>,
    fullmask: Seq<bool>,
)
    requires
        fullmask.len() == groups.len(),
        records.len() <= order.len(),
        forall|k: int|
            0 <= k < order.len() ==> (#[trigger] order[k]) < groups.len() && groups[
            order[k] as int].dirty,
        forall|k: int|
            0 <= k < records.len() ==> (#[trigger] records[k]).group_id == groups[
            order[k] as int].id,
        forall|j: int|
            0 <= j < groups.len() && (#[trigger] groups[j]).dirty ==> fullmask[j],
        forall|j: int|
            0 <= j < groups.len() && #[trigger] fullmask[j] ==> exists|w: int|
                0 <= w < order.len() && (#[trigger] order[w]) as int == j,
    ensures
        forall|j: int|
            0 <= j < groups.len() && (#[trigger] groups[j]).dirty && !spec_names(
                records,
                groups[j].id,
            ) ==> exists|w: int|
                records.len() <= w < order.len() && (#[trigger] order[w]) as int == j,
{
    let n = groups.len() as int;
    assert forall|j: int|
        0 <= j < n && (#[trigger] groups[j]).dirty && !spec_names(records, groups[j].id)
        implies exists|w: int|
        records.len() <= w < order.len() && (#[trigger] order[w]) as int == j by {
        assert(fullmask[j]);
        let w = choose|w: int| 0 <= w < order.len() && (#[trigger] order[w]) as int == j;
        if w < records.len() {
            assert(records[w].group_id == groups[j].id);
            assert(spec_names(records, groups[j].id));
        }
    }
}

/// The order the packer followed, cut at the records, witnesses the
/// fairness predicate.
#[verifier::spinoff_prover]
#[verifier::rlimit(100)]
proof fn lemma_fair_witness(
    groups: Seq<GroupState>,
    order: Seq<usize>,
    records: Seq<GroupRecord>,
    budget: int,
)
    requires
        records.len() <= order.len(),
        forall|k: int|
            0 <= k < order.len() ==> (#[trigger] order[k]) < groups.len() && groups[
            order[k] as int].dirty,
        forall|k1: int, k2: int|
            0 <= k1 < k2 < order.len() ==> spec_key_ge(
                groups[order[k1] as int],
                groups[order[k2] as int],
            ),
        forall|k: int|
            0 <= k < records.len() ==> (#[trigger] records[k]).group_id == groups[
            order[k] as int].id,
        forall|j: int|
            0 <= j < groups.len() && (#[trigger] groups[j]).dirty && !spec_names(
                records,
                groups[j].id,
            ) ==> exists|w: int|
                records.len() <= w < order.len() && (#[trigger] order[w]) as int == j,
        (exists|j: int|
            0 <= j < groups.len() && (#[trigger] groups[j]).dirty && !spec_names(
                records,
                groups[j].id,
            )) ==> (exists|b: int|
            0 <= b < groups.len() && (#[trigger] groups[b]).dirty && !spec_names(
                records,
                groups[b].id,
            ) && spec_cost(groups[b]) > budget - spec_total_cost(records) && forall|j: int|
                0 <= j < groups.len() && (#[trigger] groups[j]).dirty && !spec_names(
                    records,
                    groups[j].id,
                ) ==> spec_key_ge(groups[b], groups[j])),
    ensures
        exists|ord: Seq<int>| #[trigger] spec_schedule_fair(groups, records, ord, budget),
{
    let n = groups.len() as int;
    let ord = Seq::new(records.len(), |k: int| order[k] as int);
    assert forall|k: int, j: int|
        0 <= k < ord.len() && 0 <= j < n && (#[trigger] groups[j]).dirty && !spec_names(
            records,
            groups[j].id,
        ) implies spec_key_ge(groups[#[trigger] ord[k]], groups[j]) by {
        let w = choose|w: int|
            records.len() <= w < order.len() && (#[trigger] order[w]) as int == j;
        assert(ord[k] == order[k] as int);
        assert(spec_key_ge(groups[order[k] as int], groups[order[w] as int]));
    }
    assert(spec_schedule_fair(groups, records, ord, budget));
}

/// Record ids name exactly the dirty groups the order scheduled: each
/// record's id belongs to one tracked group, and that group was dirty.
proof fn lemma_select_finish(
    groups: Seq<GroupState>,
    order: Seq<usize>,
    records: Seq<GroupRecord>,
)
    requires
        records.len() <= order.len(),
        forall|a: int, b: int| 0 <= a < b < groups.len() ==> (#[trigger] groups[a]).id != (
        #[trigger] groups[b]).id,
        forall|k: int|
            0 <= k < order.len() ==> (#[trigger] order[k]) < groups.len() && groups[
            order[k] as int].dirty,
        forall|k: int|
            0 <= k < records.len() ==> (#[trigger] records[k]).group_id == groups[
            order[k] as int].id,
    ensures
        forall|j: int|
            0 <= j < groups.len() && spec_names(records, (#[trigger] groups[j]).id)
                ==> groups[j].dirty,
        forall|k: int|
            0 <= k < records.len() ==> exists|j: int|
                0 <= j < groups.len() && (#[trigger] groups[j]).id == (#[trigger] records[
                k]).group_id,
        forall|k: int, j: int|
            0 <= k < records.len() && 0 <= j < groups.len() && (#[trigger] records[k]).group_id
                == (#[trigger] groups[j]).id ==> order[k] as int == j,
{
    let n = groups.len() as int;
    assert forall|k: int, j: int|
        0 <= k < records.len() && 0 <= j < n && (#[trigger] records[k]).group_id == (
    #[trigger] groups[j]).id implies order[k] as int == j by {
        let oj = order[k] as int;
        if oj != j {
            if oj < j {
                assert(groups[oj].id != groups[j].id);
            } else {
                assert(groups[j].id != groups[oj].id);
            }
        }
    }
    assert forall|j: int|
        0 <= j < n && spec_names(records, (#[trigger] groups[j]).id) implies groups[
    j].dirty by {
        let k = choose|k: int|
            0 <= k < records.len() && (#[trigger] records[k]).group_id == groups[j].id;
        assert(order[k] as int == j);
    }
    assert forall|k: int|
        0 <= k < records.len() implies exists|j: int|
        0 <= j < n && (#[trigger] groups[j]).id == (#[trigger] records[k]).group_id by {
        assert(groups[order[k] as int].id == records[k].group_id);
    }
}

/// A record's carried state is its group's: combining the positional
/// packing facts with the id uniqueness gives the id-keyed form the
/// sender's contract states.
#[verifier::spinoff_prover]
#[verifier::rlimit(100)]
proof fn lemma_select_contents(
    groups: Seq<GroupState>,
    order: Seq<usize>,
    records: Seq<GroupRecord>,
)
    requires
        records.len() <= order.len(),
        forall|a: int, b: int| 0 <= a < b < groups.len() ==> (#[trigger] groups[a]).id != (
        #[trigger] groups[b]).id,
        forall|k: int|
            0 <= k < order.len() ==> (#[trigger] order[k]) < groups.len() && groups[
            order[k] as int].dirty,
        forall|k: int|
            0 <= k < records.len() ==> (#[trigger] records[k]).group_id == groups[
            order[k] as int].id && records[k].kind == groups[order[k] as int].kind
                && spec_record_entities(records[k]) =~= groups[order[k] as int].members@,
        forall|k: int, j: int|
            0 <= k < records.len() && 0 <= j < groups.len() && (#[trigger] records[k]).group_id
                == (#[trigger] groups[j]).id ==> order[k] as int == j,
    ensures
        forall|k: int, j: int|
            0 <= k < records.len() && 0 <= j < groups.len() && (#[trigger] records[k]).group_id
                == (#[trigger] groups[j]).id ==> groups[j].dirty && records[k].kind == groups[
            j].kind && spec_record_entities(records[k]) =~= groups[j].members@,
{
    assert forall|k: int, j: int|
        0 <= k < records.len() && 0 <= j < groups.len() && (#[trigger] records[k]).group_id
            == (#[trigger] groups[j]).id implies groups[j].dirty && records[k].kind == groups[
    j].kind && spec_record_entities(records[k]) =~= groups[j].members@ by {
        assert(order[k] as int == j);
    }
}


/// When a dirty group was left out, the schedule stopped at the best
/// remaining group, and that group did not fit what was left of the
/// budget.
#[verifier::spinoff_prover]
#[verifier::rlimit(100)]
proof fn lemma_select_blocker(
    groups: Seq<GroupState>,
    order: Seq<usize>,
    records: Seq<GroupRecord>,
    fullmask: Seq<bool>,
    stopped: bool,
    blocker: int,
    remaining: int,
    budget: int,
)
    requires
        fullmask.len() == groups.len(),
        records.len() <= order.len(),
        forall|k: int|
            0 <= k < order.len() ==> (#[trigger] order[k]) < groups.len() && groups[
            order[k] as int].dirty,
        forall|k1: int, k2: int|
            0 <= k1 < k2 < order.len() ==> spec_key_ge(
                groups[order[k1] as int],
                groups[order[k2] as int],
            ),
        forall|k1: int, k2: int|
            0 <= k1 < k2 < order.len() ==> (#[trigger] order[k1]) != (#[trigger] order[k2]),
        forall|k: int|
            0 <= k < records.len() ==> (#[trigger] records[k]).group_id == groups[
            order[k] as int].id,
        forall|k: int, j: int|
            0 <= k < records.len() && 0 <= j < groups.len() && (#[trigger] records[k]).group_id
                == (#[trigger] groups[j]).id ==> order[k] as int == j,
        forall|j: int|
            0 <= j < groups.len() && (#[trigger] groups[j]).dirty && !spec_names(
                records,
                groups[j].id,
            ) ==> exists|w: int|
                records.len() <= w < order.len() && (#[trigger] order[w]) as int == j,
        !stopped ==> records.len() == order.len(),
        stopped ==> 0 <= blocker < order.len() && records.len() == blocker && spec_cost(
            groups[order[blocker] as int],
        ) > remaining,
        spec_total_cost(records) + remaining == budget,
    ensures
        (exists|j: int|
            0 <= j < groups.len() && (#[trigger] groups[j]).dirty && !spec_names(
                records,
                groups[j].id,
            )) ==> (exists|b: int|
            0 <= b < groups.len() && (#[trigger] groups[b]).dirty && !spec_names(
                records,
                groups[b].id,
            ) && spec_cost(groups[b]) > budget - spec_total_cost(records) && forall|j: int|
                0 <= j < groups.len() && (#[trigger] groups[j]).dirty && !spec_names(
                    records,
                    groups[j].id,
                ) ==> spec_key_ge(groups[b], groups[j])),
{
    let n = groups.len() as int;
    if exists|j: int|
        0 <= j < n && (#[trigger] groups[j]).dirty && !spec_names(records, groups[j].id) {
        let j0 = choose|j: int|
            0 <= j < n && (#[trigger] groups[j]).dirty && !spec_names(records, groups[j].id);
        let w0 = choose|w: int|
            records.len() <= w < order.len() && (#[trigger] order[w]) as int == j0;
        if stopped {
            let cut = records.len() as int;
            let bi = order[cut] as int;
            assert(!spec_names(records, groups[bi].id)) by {
                if spec_names(records, groups[bi].id) {
                    let k = choose|k: int|
                        0 <= k < records.len() && (#[trigger] records[k]).group_id == groups[
                        bi].id;
                    assert(order[k] as int == bi);
                    assert(order[k] == order[cut]);
                    assert(k != cut);
                }
            }
            assert(groups[bi].dirty && spec_cost(groups[bi]) > budget - spec_total_cost(
                records,
            ));
            assert forall|j: int|
                0 <= j < n && (#[trigger] groups[j]).dirty && !spec_names(
                    records,
                    groups[j].id,
                ) implies spec_key_ge(groups[bi], groups[j]) by {
                let w = choose|w: int|
                    records.len() <= w < order.len() && (#[trigger] order[w]) as int == j;
                if cut < w {
                    assert(spec_key_ge(groups[order[cut] as int], groups[order[w] as int]));
                } else {
                    assert(w == cut);
                }
            }
        }
    }
}

/// Progress: a fair schedule sends something whenever the best dirty
/// group fits the budget.  An empty schedule would force a blocker that
/// outranks every dirty group yet costs more than the whole budget, which
/// the best dirty group contradicts.
pub proof fn lemma_schedule_progress(
    groups: Seq<GroupState>,
    records: Seq<GroupRecord>,
    ord: Seq<int>,
    budget: int,
    j: int,
)
    requires
        spec_schedule_fair(groups, records, ord, budget),
        forall|a: int, b: int| 0 <= a < b < groups.len() ==> (#[trigger] groups[a]).id != (
        #[trigger] groups[b]).id,
        0 <= j < groups.len(),
        groups[j].dirty,
        spec_cost(groups[j]) <= budget,
        forall|j2: int|
            0 <= j2 < groups.len() && (#[trigger] groups[j2]).dirty ==> spec_key_ge(
                groups[j],
                groups[j2],
            ),
    ensures
        records.len() > 0,
{
    if records.len() == 0 {
        assert(spec_total_cost(records) == 0);
        assert(!spec_names(records, groups[j].id));
        let b = choose|b: int|
            0 <= b < groups.len() && (#[trigger] groups[b]).dirty && !spec_names(
                records,
                groups[b].id,
            ) && spec_cost(groups[b]) > budget - spec_total_cost(records) && forall|j2: int|
                0 <= j2 < groups.len() && (#[trigger] groups[j2]).dirty && !spec_names(
                    records,
                    groups[j2].id,
                ) ==> spec_key_ge(groups[b], groups[j2]);
        assert(spec_key_ge(groups[b], groups[j]));
        assert(spec_key_ge(groups[j], groups[b]));
        assert(groups[b].id == groups[j].id);
        assert(b == j) by {
            if b != j {
                if b < j {
                    assert(groups[b].id != groups[j].id);
                } else {
                    assert(groups[j].id != groups[b].id);
                }
            }
        }
    }
}

/// In a fair schedule the record of a group with strictly higher
/// accumulated priority stands earlier: a starved group goes out before a
/// freshly reset one.
pub proof fn lemma_starved_scheduled_first(
    groups: Seq<GroupState>,
    records: Seq<GroupRecord>,
    ord: Seq<int>,
    budget: int,
    ks: int,
    kf: int,
    js: int,
    jf: int,
)
    requires
        spec_schedule_fair(groups, records, ord, budget),
        forall|a: int, b: int| 0 <= a < b < groups.len() ==> (#[trigger] groups[a]).id != (
        #[trigger] groups[b]).id,
        0 <= ks < records.len(),
        0 <= kf < records.len(),
        0 <= js < groups.len(),
        0 <= jf < groups.len(),
        records[ks].group_id == groups[js].id,
        records[kf].group_id == groups[jf].id,
        groups[js].accumulated > groups[jf].accumulated,
    ensures
        ks < kf,
{
    assert(ord[ks] == js) by {
        let o = ord[ks];
        assert(records[ks].group_id == groups[o].id);
        if o != js {
            if o < js {
                assert(groups[o].id != groups[js].id);
            } else {
                assert(groups[js].id != groups[o].id);
            }
        }
    }
    assert(ord[kf] == jf) by {
        let o = ord[kf];
        assert(records[kf].group_id == groups[o].id);
        if o != jf {
            if o < jf {
                assert(groups[o].id != groups[jf].id);
            } else {
                assert(groups[jf].id != groups[o].id);
            }
        }
    }
    if kf < ks {
        assert(spec_key_ge(groups[ord[kf]], groups[ord[ks]]));
    }
    if kf == ks {
        assert(groups[js].accumulated == groups[jf].accumulated);
    }
}

/// Priority aging starves nobody: with equal positive weights, a group
/// whose changes have waited at least two ticks has accumulated more
/// priority than any group that was sent (and so reset) within the last
/// tick, and therefore precedes it in the scheduling order, whatever their
/// ids.
pub proof fn lemma_priority_aging(starved: GroupState, fresh: GroupState, k: u64)
    requires
        starved.base_priority == fresh.base_priority,
        starved.base_priority >= 1,
        k >= 2,
        starved.accumulated >= k * starved.base_priority,
        fresh.accumulated <= fresh.base_priority,
    ensures
        starved.accumulated > fresh.accumulated,
        spec_key_ge(starved, fresh),
        !spec_key_ge(fresh, starved) || fresh.id.0 == starved.id.0,
{
    assert(k * starved.base_priority >= 2 * starved.base_priority) by (nonlinear_arith)
        requires
            k >= 2,
            starved.base_priority >= 1,
    ;
}

/// Find the best still-dirty unchosen group: the scheduling maximum.
fn find_best(groups: &Vec<GroupState>, chosen: &Vec<bool>) -> (r: Option<usize>)
    requires
        groups@.len() == chosen@.len(),
    ensures
        match r {
            Some(b) => b < groups@.len() && groups@[b as int].dirty && !chosen@[b as int]
                && forall|j: int|
                0 <= j < groups@.len() && (#[trigger] groups@[j]).dirty && !chosen@[j]
                    ==> spec_key_ge(groups@[b as int], groups@[j]),
            None => forall|j: int|
                0 <= j < groups@.len() ==> !((#[trigger] groups@[j]).dirty && !chosen@[j]),
        },
{
    let n = groups.len();
    let mut best: Option<usize> = None;
    let mut j: usize = 0;
    while j < n
        invariant
            j <= n,
            n == groups@.len(),
            n == chosen@.len(),
            match best {
                Some(b) => b < n && groups@[b as int].dirty && !chosen@[b as int] && forall|
                    j2: int,
                |
                    0 <= j2 < j && (#[trigger] groups@[j2]).dirty && !chosen@[j2]
                        ==> spec_key_ge(groups@[b as int], groups@[j2]),
                None => forall|j2: int|
                    0 <= j2 < j ==> !((#[trigger] groups@[j2]).dirty && !chosen@[j2]),
            },
        decreases n - j,
    {
        if groups[j].dirty && !chosen[j] {
            match best {
                None => {
                    best = Some(j);
                },
                Some(b) => {
                    let better = groups[j].accumulated > groups[b].accumulated || (
                    groups[j].accumulated == groups[b].accumulated && groups[j].id.0
                        < groups[b].id.0);
                    if better {
                        best = Some(j);
                    }
                },
            }
        }
        j = j + 1;
    }
    best
}
/// The record that sends `g` whole: every member, payloads to be filled by
/// the store.
fn build_record(g: &GroupState) -> (r: GroupRecord)
    ensures
        r.group_id == g.id,
        r.kind == g.kind,
        spec_record_entities(r) =~= g.members@,
        r.entities@.len() == g.members@.len(),
        forall|m: int| 0 <= m < r.entities@.len() ==> (#[trigger] r.entities@[m]).components@.len()
            == 0,
{
    let m = g.members.len();
    let mut ents: Vec<EntityRecord> = Vec::new();
    let mut k: usize = 0;
    while k < m
        invariant
            k <= m,
            m == g.members@.len(),
            ents@.len() == k,
            forall|w: int|
                0 <= w < k ==> (#[trigger] ents@[w]).entity == g.members@[w]
                    && ents@[w].components@.len() == 0,
        decreases m - k,
    {
        ents.push(EntityRecord { entity: g.members[k], components: Vec::new() });
        k = k + 1;
    }
    GroupRecord { group_id: g.id, kind: g.kind, entities: ents }
}
/// The full scheduling order of the dirty groups: every dirty group's
/// index, best key first, with the membership mask of the ordered set.
#[verifier::spinoff_prover]
#[verifier::rlimit(100)]
fn select_order(groups: &Vec<GroupState>) -> (out: (Vec<usize>, Vec<bool>))
    ensures
        out.1@.len() == groups@.len(),
        forall|k: int|
            0 <= k < out.0@.len() ==> (#[trigger] out.0@[k]) < groups@.len()
                && groups@[out.0@[k] as int].dirty && out.1@[out.0@[k] as int],
        forall|j: int|
            0 <= j < groups@.len() && #[trigger] out.1@[j] ==> groups@[j].dirty && exists|w: int|
                0 <= w < out.0@.len() && (#[trigger] out.0@[w]) as int == j,
        forall|j: int|
            0 <= j < groups@.len() && (#[trigger] groups@[j]).dirty ==> out.1@[j],
        forall|k1: int, k2: int|
            0 <= k1 < k2 < out.0@.len() ==> spec_key_ge(
                groups@[out.0@[k1] as int],
                groups@[out.0@[k2] as int],
            ),
        forall|k1: int, k2: int|
            0 <= k1 < k2 < out.0@.len() ==> (#[trigger] out.0@[k1]) != (#[trigger] out.0@[k2]),
        forall|k: int, j: int|
            0 <= k < out.0@.len() && 0 <= j < groups@.len() && !out.1@[j] && (
            #[trigger] groups@[j]).dirty ==> spec_key_ge(groups@[(#[trigger] out.0@[k]) as int], groups@[j]),
{
    let n = groups.len();
    let mut chosen: Vec<bool> = Vec::new();
    let mut i: usize = 0;
    while i < n
        invariant
            i <= n,
            chosen@.len() == i,
            forall|j: int| 0 <= j < i ==> !(#[trigger] chosen@[j]),
        decreases n - i,
    {
        chosen.push(false);
        i = i + 1;
    }
    proof {
        lemma_count_all_false(chosen@);
        lemma_count_true_le_len(chosen@);
    }
    let mut order: Vec<usize> = Vec::new();
    let mut done = false;
    while !done
        invariant
            n == groups@.len(),
            chosen@.len() == n,
            0 <= count_true(chosen@) <= n,
            count_true(chosen@) == order@.len(),
            forall|k: int|
                0 <= k < order@.len() ==> (#[trigger] order@[k]) < n && groups@[order@[
                k] as int].dirty && chosen@[order@[k] as int],
            forall|j: int|
                0 <= j < n && #[trigger] chosen@[j] ==> exists|w: int|
                    0 <= w < order@.len() && (#[trigger] order@[w]) as int == j,
            forall|j: int| 0 <= j < n && #[trigger] chosen@[j] ==> groups@[j].dirty,
            forall|k1: int, k2: int|
                0 <= k1 < k2 < order@.len() ==> spec_key_ge(
                    groups@[order@[k1] as int],
                    groups@[order@[k2] as int],
                ),
            forall|k1: int, k2: int|
                0 <= k1 < k2 < order@.len() ==> (#[trigger] order@[k1]) != (#[trigger] order@[
                k2]),
            forall|k: int, j: int|
                0 <= k < order@.len() && 0 <= j < n && !chosen@[j] && (
                #[trigger] groups@[j]).dirty ==> spec_key_ge(
                    groups@[(#[trigger] order@[k]) as int],
                    groups@[j],
                ),
            done ==> forall|j: int| 0 <= j < n && (#[trigger] groups@[j]).dirty ==> chosen@[j],
        decreases (if done {
            0int
        } else {
            n - count_true(chosen@) + 1
        }),
    {
        match find_best(groups, &chosen) {
            None => {
                done = true;
            },
            Some(b) => {
                let ghost chosen0 = chosen@;
                let ghost order0 = order@;
                order.push(b);
                chosen.set(b, true);
                proof {
                    lemma_count_true_update(chosen0, b as int);
                    lemma_count_true_le_len(chosen@);
                    assert(chosen@ =~= chosen0.update(b as int, true));
                    assert forall|j2: int|
                        0 <= j2 < n && #[trigger] chosen@[j2] implies exists|w: int|
                        0 <= w < order@.len() && (#[trigger] order@[w]) as int == j2 by {
                        if j2 == b as int {
                            assert((order@[order@.len() - 1]) as int == j2);
                        } else {
                            assert(chosen0[j2]);
                            let w = choose|w: int|
                                0 <= w < order0.len() && (#[trigger] order0[w]) as int == j2;
                            assert((order@[w]) as int == j2);
                        }
                    }
                    assert forall|k1: int, k2: int|
                        0 <= k1 < k2 < order@.len() implies (#[trigger] order@[k1]) != (
                    #[trigger] order@[k2]) by {
                        if k2 == order@.len() - 1 {
                            assert(order@[k1] == order0[k1]);
                            assert(chosen0[order0[k1] as int]);
                            assert(!chosen0[b as int]);
                        } else {
                            assert(order@[k1] == order0[k1] && order@[k2] == order0[k2]);
                        }
                    }
                }
            },
        }
    }
    (order, chosen)
}
/// How many entries of `s` are true.
pub open spec fn count_true(s: Seq<bool>) -> int
    decreases s.len(),
{
    if s.len() == 0 {
        0
    } else {
        count_true(s.drop_last()) + if s.last() {
            1int
        } else {
            0int
        }
    }
}
/// The count of true entries is bounded by the length.
proof fn lemma_count_true_le_len(s: Seq<bool>)
    ensures
        0 <= count_true(s) <= s.len(),
    decreases s.len(),
{
    if s.len() > 0 {
        lemma_count_true_le_len(s.drop_last());
    }
}
/// Setting a false entry to true raises the count by one.
proof fn lemma_count_true_update(s: Seq<bool>, j: int)
    requires
        0 <= j < s.len(),
        !s[j],
    ensures
        count_true(s.update(j, true)) == count_true(s) + 1,
    decreases s.len(),
{
    let t = s.update(j, true);
    if j == s.len() - 1 {
        assert(t.drop_last() =~= s.drop_last());
    } else {
        assert(t.drop_last() =~= s.drop_last().update(j, true));
        lemma_count_true_update(s.drop_last(), j);
        assert(t.last() == s.last());
    }
}
/// In an all-false mask nothing is counted.
proof fn lemma_count_all_false(s: Seq<bool>)
    requires
        forall|j: int| 0 <= j < s.len() ==> !(#[trigger] s[j]),
    ensures
        count_true(s) == 0,
    decreases s.len(),
{
    if s.len() > 0 {
        lemma_count_all_false(s.drop_last());
    }
}
/// Whether `members` holds `entity`.
fn contains_entity(members: &Vec<Entity>, entity: Entity) -> (r: bool)
    ensures
        r == members@.contains(entity),
{
    let n = members.len();
    let mut i: usize = 0;
    while i < n
        invariant
            i <= n,
            n == members@.len(),
            forall|j: int| 0 <= j < i ==> members@[j] != entity,
        decreases n - i,
    {
        if members[i].0 == entity.0 {
            assert(members@.contains(entity));
            return true;
        }
        i = i + 1;
    }
    assert(!members@.contains(entity)) by {
        if members@.contains(entity) {
            let w = choose|w: int| 0 <= w < members@.len() && members@[w] == entity;
        }
    }
    false
}

} // verus!
