//! Per-connection translation between the two peers' entity namespaces.
//!
//! Two peers name the same replicated object by different handles.  The
//! entity map is the bidirectional table relating a remote handle to the
//! local one; it is created when an object is first replicated over the
//! connection and torn down with the object or the connection.

use vstd::prelude::*;
use crate::id::Entity;

verus! {

/// Bidirectional remote-handle to local-handle table for one connection.
pub struct EntityMap {
    /// Each entry maps one remote handle to one local handle.
    pairs: Vec<(Entity, Entity)>,
}

impl EntityMap {
    /// The entries of the table: (remote handle, local handle) pairs.
    pub closed spec fn entries(&self) -> Seq<(Entity, Entity)> {
        self.pairs@
    }

    /// The table relates `remote` to `local`.
    pub open spec fn maps(&self, remote: Entity, local: Entity) -> bool {
        self.entries().contains((remote, local))
    }

    /// A remote handle with some local counterpart.
    pub open spec fn has_remote(&self, remote: Entity) -> bool {
        exists|j: int| 0 <= j < self.entries().len() && #[trigger] self.entries()[j].0 == remote
    }

    /// A local handle with some remote counterpart.
    pub open spec fn has_local(&self, local: Entity) -> bool {
        exists|j: int| 0 <= j < self.entries().len() && #[trigger] self.entries()[j].1 == local
    }

    /// Well-formed: no remote handle and no local handle appears twice, so
    /// the table is a bijection between the handles it mentions.
    pub open spec fn wf(&self) -> bool {
        forall|i: int, j: int|
            0 <= i < j < self.entries().len() ==> (#[trigger] self.entries()[i]).0
                != (#[trigger] self.entries()[j]).0 && self.entries()[i].1 != self.entries()[j].1
    }

    /// An empty table.
    pub fn new() -> (r: EntityMap)
        ensures
            r.entries() =~= Seq::<(Entity, Entity)>::empty(),
            r.wf(),
    {
        EntityMap { pairs: Vec::new() }
    }

    /// Number of entries.
    pub fn len(&self) -> (r: usize)
        ensures
            r == self.entries().len(),
    {
        self.pairs.len()
    }

    /// Index of the entry for `remote`, if there is one.
    fn index_of_remote(&self, remote: Entity) -> (r: Option<usize>)
        ensures
            match r {
                Some(k) => k < self.entries().len() && self.entries()[k as int].0 == remote,
                None => !self.has_remote(remote),
            },
    {
        let n = self.pairs.len();
        let mut i: usize = 0;
        while i < n
            invariant
                i <= n,
                n == self.entries().len(),
                forall|j: int| 0 <= j < i ==> #[trigger] self.entries()[j].0 != remote,
            decreases n - i,
        {
            if self.pairs[i].0 == remote {
                return Some(i);
            }
            i = i + 1;
        }
        None
    }

    /// Index of the entry for `local`, if there is one.
    fn index_of_local(&self, local: Entity) -> (r: Option<usize>)
        ensures
            match r {
                Some(k) => k < self.entries().len() && self.entries()[k as int].1 == local,
                None => !self.has_local(local),
            },
    {
        let n = self.pairs.len();
        let mut i: usize = 0;
        while i < n
            invariant
                i <= n,
                n == self.entries().len(),
                forall|j: int| 0 <= j < i ==> #[trigger] self.entries()[j].1 != local,
            decreases n - i,
        {
            if self.pairs[i].1 == local {
                return Some(i);
            }
            i = i + 1;
        }
        None
    }

    /// The local handle the table holds for `remote`, if any.
    pub fn get_local(&self, remote: Entity) -> (r: Option<Entity>)
        ensures
            match r {
                Some(local) => self.maps(remote, local),
                None => !self.has_remote(remote),
            },
    {
        match self.index_of_remote(remote) {
            Some(k) => Some(self.pairs[k].1),
            None => None,
        }
    }

    /// The remote handle the table holds for `local`, if any.
    pub fn get_remote(&self, local: Entity) -> (r: Option<Entity>)
        ensures
            match r {
                Some(remote) => self.maps(remote, local),
                None => !self.has_local(local),
            },
    {
        match self.index_of_local(local) {
            Some(k) => Some(self.pairs[k].0),
            None => None,
        }
    }

    /// Record that `remote` is known locally as `local`.
    ///
    /// Neither handle may already stand in the table: a handle names one
    /// object, and objects are mapped at most once per connection.
    pub fn insert(&mut self, remote: Entity, local: Entity)
        requires
            old(self).wf(),
            !old(self).has_remote(remote),
            !old(self).has_local(local),
        ensures
            final(self).entries() =~= old(self).entries().push((remote, local)),
            final(self).wf(),
    {
        self.pairs.push((remote, local));
        proof {
            let s = self.entries();
            let olds = old(self).entries();
            assert forall|i: int, j: int| 0 <= i < j < s.len() implies (#[trigger] s[i]).0
                != (#[trigger] s[j]).0 && s[i].1 != s[j].1 by {
                if j < s.len() - 1 {
                    assert(s[i] == olds[i] && s[j] == olds[j]);
                } else {
                    assert(s[i] == olds[i] && s[j] == (remote, local));
                    assert(olds[i].0 != remote);
                    assert(olds[i].1 != local);
                }
            }
        }
    }

    /// Drop the entry for `remote`, if there is one; the rest of the table
    /// is kept.
    pub fn remove_by_remote(&mut self, remote: Entity)
        requires
            old(self).wf(),
        ensures
            final(self).wf(),
            !final(self).has_remote(remote),
            forall|p: (Entity, Entity)|
                #[trigger] final(self).entries().contains(p) <==> old(self).entries().contains(p)
                    && p.0 != remote,
    {
        match self.index_of_remote(remote) {
            Some(i) => {
                let ghost before = self.entries();
                self.pairs.remove(i);
                proof {
                    let s = self.entries();
                    assert(s =~= before.remove(i as int));
                    assert forall|a: int, b: int| 0 <= a < b < s.len() implies (#[trigger] s[a]).0
                        != (#[trigger] s[b]).0 && s[a].1 != s[b].1 by {
                        let a0: int = if a < i { a } else { a + 1 };
                        let b0: int = if b < i { b } else { b + 1 };
                        assert(s[a] == before[a0] && s[b] == before[b0]);
                    }
                    assert forall|q: int| 0 <= q < s.len() implies #[trigger] s[q].0 != remote by {
                        let q0: int = if q < i { q } else { q + 1 };
                        assert(s[q] == before[q0]);
                        assert(q0 != i);
                    }
                    assert forall|p: (Entity, Entity)| #[trigger] s.contains(p) implies
                        before.contains(p) && p.0 != remote by {
                        let k = choose|k: int| 0 <= k < s.len() && s[k] == p;
                        let k0: int = if k < i { k } else { k + 1 };
                        assert(before[k0] == p);
                    }
                    assert forall|p: (Entity, Entity)| before.contains(p) && p.0 != remote implies
                        #[trigger] s.contains(p) by {
                        let k = choose|k: int| 0 <= k < before.len() && before[k] == p;
                        assert(k != i);
                        if k < i {
                            assert(s[k] == p);
                        } else {
                            assert(s[k - 1] == p);
                        }
                    }
                }
            },
            None => {
                proof {
                    assert forall|p: (Entity, Entity)| #[trigger] self.entries().contains(p)
                        implies p.0 != remote by {
                        let k = choose|k: int|
                            0 <= k < self.entries().len() && self.entries()[k] == p;
                    }
                }
            },
        }
    }
}

} // verus!
