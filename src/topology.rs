use vstd::prelude::*;
use crate::server::{Server, ServerView};

verus! {

/// Number of hash slots in cluster mode.
pub const CLUSTER_SLOTS: usize = 16384;

/// A replica and the primary it backs, as views.
pub type ReplicaPair = (ServerView, ServerView);

pub open spec fn pair_view(e: (Server, Server)) -> ReplicaPair {
    (e.0@, e.1@)
}

pub open spec fn owner_view(o: Option<Server>) -> Option<ServerView> {
    match o {
        Some(s) => Some(s@),
        None => None,
    }
}

pub open spec fn servers_view(s: Seq<Server>) -> Seq<ServerView> {
    s.map_values(|x: Server| x@)
}

pub open spec fn pairs_view(s: Seq<(Server, Server)>) -> Seq<ReplicaPair> {
    s.map_values(|e: (Server, Server)| pair_view(e))
}

pub open spec fn owners_view(s: Seq<Option<Server>>) -> Seq<Option<ServerView>> {
    s.map_values(|o: Option<Server>| owner_view(o))
}

/// No replica is listed twice.
pub open spec fn unique_replicas(t: Seq<ReplicaPair>) -> bool {
    forall|i: int, j: int| 0 <= i < j < t.len() ==> t[i].0 != t[j].0
}

/// Whether `t` lists `replica`.
pub open spec fn lists_replica(t: Seq<ReplicaPair>, replica: ServerView) -> bool {
    exists|i: int| 0 <= i < t.len() && t[i].0 == replica
}

/// The primary that `t` lists `replica` under, if any.
pub open spec fn primary_of(t: Seq<ReplicaPair>, replica: ServerView) -> Option<ServerView>
    decreases t.len(),
{
    if t.len() == 0 {
        None
    } else if t.last().0 == replica {
        Some(t.last().1)
    } else {
        primary_of(t.drop_last(), replica)
    }
}

/// The replicas that `t` lists under `primary`, in table order.
pub open spec fn replicas_of(t: Seq<ReplicaPair>, primary: ServerView) -> Seq<ServerView>
    decreases t.len(),
{
    if t.len() == 0 {
        Seq::empty()
    } else if t.last().1 == primary {
        replicas_of(t.drop_last(), primary).push(t.last().0)
    } else {
        replicas_of(t.drop_last(), primary)
    }
}

/// The mapping from replica to primary, each replica listed once.
#[derive(Debug)]
pub struct ReplicaTable {
    entries: Vec<(Server, Server)>,
}

impl View for ReplicaTable {
    type V = Seq<ReplicaPair>;

    closed spec fn view(&self) -> Seq<ReplicaPair> {
        pairs_view(self.entries@)
    }
}

impl ReplicaTable {
    pub open spec fn wf(&self) -> bool {
        unique_replicas(self@)
    }

    /// Whether no replica is listed twice.
    pub fn check(&self) -> (r: bool)
        ensures
            r == self.wf(),
    {
        let mut j: usize = 0;
        while j < self.entries.len()
            invariant
                j <= self@.len(),
                self@.len() == self.entries@.len(),
                forall|a: int, b: int| 0 <= a < b < j ==> self@[a].0 != self@[b].0,
            decreases self.entries.len() - j,
        {
            let mut i: usize = 0;
            while i < j
                invariant
                    i <= j < self@.len(),
                    self@.len() == self.entries@.len(),
                    forall|a: int, b: int| 0 <= a < b < j ==> self@[a].0 != self@[b].0,
                    forall|a: int| 0 <= a < i ==> self@[a].0 != self@[j as int].0,
                decreases j - i,
            {
                assert(self@[i as int] == pair_view(self.entries@[i as int]));
                assert(self@[j as int] == pair_view(self.entries@[j as int]));
                if self.entries[i].0.same(&self.entries[j].0) {
                    assert(!unique_replicas(self@)) by {
                        assert(self@[i as int].0 == self@[j as int].0);
                    }
                    return false;
                }
                i = i + 1;
            }
            j = j + 1;
        }
        true
    }

    /// An empty table.
    pub fn new() -> (r: ReplicaTable)
        ensures
            r@ == Seq::<ReplicaPair>::empty(),
            r.wf(),
    {
        let r = ReplicaTable { entries: Vec::new() };
        assert(r@ =~= Seq::<ReplicaPair>::empty());
        r
    }

    /// Number of replicas listed.
    pub fn len(&self) -> (r: usize)
        ensures
            r == self@.len(),
    {
        self.entries.len()
    }

    /// Where `replica` stands in the table, if it is listed.
    pub fn position(&self, replica: &Server) -> (r: Option<usize>)
        ensures
            match r {
                Some(i) => i < self@.len() && self@[i as int].0 == replica@,
                None => !lists_replica(self@, replica@),
            },
    {
        let mut i: usize = 0;
        while i < self.entries.len()
            invariant
                i <= self@.len(),
                self@.len() == self.entries@.len(),
                forall|k: int| 0 <= k < i ==> self@[k].0 != replica@,
            decreases self.entries.len() - i,
        {
            if self.entries[i].0.same(replica) {
                return Some(i);
            }
            i = i + 1;
        }
        None
    }

    /// Lists `replica` under `primary`, unless the table lists it already; says
    /// whether it was added.
    pub fn add(&mut self, replica: Server, primary: Server) -> (r: bool)
        requires
            old(self).wf(),
        ensures
            final(self).wf(),
            r == !lists_replica(old(self)@, replica@),
            r ==> final(self)@ == old(self)@.push((replica@, primary@)),
            !r ==> final(self)@ == old(self)@,
    {
        match self.position(&replica) {
            Some(_) => false,
            None => {
                let ghost before = self@;
                self.entries.push((replica, primary));
                assert(self@ =~= before.push((replica@, primary@)));
                assert forall|i: int, j: int| 0 <= i < j < self@.len() implies self@[i].0
                    != self@[j].0 by {
                    if j == before.len() {
                        assert(before[i].0 != replica@);
                    }
                }
                true
            },
        }
    }

    /// The primary that `replica` backs, if the table lists it.
    pub fn primary_of(&self, replica: &Server) -> (r: Option<Server>)
        ensures
            owner_view(r) == primary_of(self@, replica@),
    {
        let ghost t = self@;
        let mut j: usize = self.entries.len();
        assert(t.subrange(0, t.len() as int) =~= t);
        while j > 0
            invariant
                j <= t.len(),
                t == self@,
                t.len() == self.entries@.len(),
                primary_of(t, replica@) == primary_of(t.subrange(0, j as int), replica@),
            decreases j,
        {
            let ghost s = t.subrange(0, j as int);
            assert(s.drop_last() =~= t.subrange(0, j - 1));
            if self.entries[j - 1].0.same(replica) {
                return Some(self.entries[j - 1].1.duplicate());
            }
            j = j - 1;
        }
        assert(t.subrange(0, 0) =~= Seq::<ReplicaPair>::empty());
        None
    }

    /// The replicas listed under `primary`, in table order.
    pub fn replicas_of(&self, primary: &Server) -> (r: Vec<Server>)
        ensures
            servers_view(r@) == replicas_of(self@, primary@),
    {
        let ghost t = self@;
        let mut out: Vec<Server> = Vec::new();
        let mut i: usize = 0;
        assert(t.subrange(0, 0) =~= Seq::<ReplicaPair>::empty());
        assert(servers_view(out@) =~= Seq::<ServerView>::empty());
        while i < self.entries.len()
            invariant
                i <= t.len(),
                t == self@,
                t.len() == self.entries@.len(),
                servers_view(out@) == replicas_of(t.subrange(0, i as int), primary@),
            decreases self.entries.len() - i,
        {
            let ghost s = t.subrange(0, i + 1);
            assert(s.drop_last() =~= t.subrange(0, i as int));
            assert(s.last() == t[i as int]);
            if self.entries[i].1.same(primary) {
                let ghost prev = out@;
                out.push(self.entries[i].0.duplicate());
                assert(servers_view(out@) =~= servers_view(prev).push(t[i as int].0));
            }
            i = i + 1;
        }
        assert(t.subrange(0, t.len() as int) =~= t);
        out
    }

    /// The table's pairs, replica first, in table order.
    pub fn pairs(&self) -> (r: Vec<(Server, Server)>)
        ensures
            pairs_view(r@) == self@,
    {
        let ghost t = self@;
        let mut out: Vec<(Server, Server)> = Vec::new();
        let mut i: usize = 0;
        assert(pairs_view(out@) =~= t.subrange(0, 0));
        while i < self.entries.len()
            invariant
                i <= t.len(),
                t == self@,
                t.len() == self.entries@.len(),
                pairs_view(out@) == t.subrange(0, i as int),
            decreases self.entries.len() - i,
        {
            let ghost prev = out@;
            let e = &self.entries[i];
            let copy = (e.0.duplicate(), e.1.duplicate());
            assert(pair_view(copy) == t[i as int]);
            out.push(copy);
            assert(pairs_view(out@) =~= pairs_view(prev).push(t[i as int]));
            assert(pairs_view(out@) =~= t.subrange(0, i + 1));
            i = i + 1;
        }
        assert(t.subrange(0, t.len() as int) =~= t);
        out
    }

    /// A copy of the table, as it is now.
    pub fn snapshot(&self) -> (r: ReplicaTable)
        ensures
            r@ == self@,
    {
        ReplicaTable { entries: self.pairs() }
    }
}

/// How many slots a topology has: one per hash slot in cluster mode, a single
/// implicit one otherwise.
pub open spec fn slot_count(cluster: bool) -> int {
    if cluster {
        CLUSTER_SLOTS as int
    } else {
        1
    }
}

/// Whether `s` owns some slot.
pub open spec fn owns_slot(slots: Seq<Option<ServerView>>, s: ServerView) -> bool {
    exists|i: int| 0 <= i < slots.len() && slots[i] == Some(s)
}

/// Whether `s` serves only as a replica: the replica table lists it and it
/// owns no slot.
pub open spec fn replica_only(t: TopologyView, s: ServerView) -> bool {
    lists_replica(t.replicas, s) && !owns_slot(t.slots, s)
}

/// A topology snapshot, mathematically.
pub struct TopologyView {
    pub cluster: bool,
    pub slots: Seq<Option<ServerView>>,
    pub replicas: Seq<ReplicaPair>,
}

/// Which primary owns each hash slot, and which replicas back which primary.
#[derive(Debug)]
pub struct Topology {
    cluster: bool,
    slots: Vec<Option<Server>>,
    replicas: ReplicaTable,
}

impl View for Topology {
    type V = TopologyView;

    closed spec fn view(&self) -> TopologyView {
        TopologyView {
            cluster: self.cluster,
            slots: owners_view(self.slots@),
            replicas: self.replicas@,
        }
    }
}

impl Topology {
    /// Every slot maps to at most one primary, and every replica is listed once.
    pub open spec fn wf(&self) -> bool {
        &&& self@.slots.len() == slot_count(self@.cluster)
        &&& unique_replicas(self@.replicas)
    }

    /// A cluster topology in which no slot is assigned yet and no replica is known.
    pub fn cluster() -> (r: Topology)
        ensures
            r.wf(),
            r@.cluster,
            forall|i: int| 0 <= i < r@.slots.len() ==> r@.slots[i] is None,
            r@.replicas.len() == 0,
    {
        let mut slots: Vec<Option<Server>> = Vec::new();
        let mut i: usize = 0;
        while i < CLUSTER_SLOTS
            invariant
                i <= CLUSTER_SLOTS,
                slots@.len() == i,
                forall|k: int| 0 <= k < i ==> slots@[k] is None,
            decreases CLUSTER_SLOTS - i,
        {
            slots.push(None);
            i = i + 1;
        }
        Topology { cluster: true, slots, replicas: ReplicaTable::new() }
    }

    /// A topology of one primary that owns every key, with no replica known.
    pub fn standalone(primary: Server) -> (r: Topology)
        ensures
            r.wf(),
            !r@.cluster,
            r@.slots == seq![Some(primary@)],
            r@.replicas.len() == 0,
    {
        let ghost p = primary@;
        let mut slots: Vec<Option<Server>> = Vec::new();
        slots.push(Some(primary));
        let r = Topology { cluster: false, slots, replicas: ReplicaTable::new() };
        assert(r@.slots =~= seq![Some(p)]);
        r
    }

    /// Whether the slot table has its mode's size and no replica is listed twice.
    pub fn check(&self) -> (r: bool)
        ensures
            r == self.wf(),
    {
        let expected: usize = if self.cluster {
            CLUSTER_SLOTS
        } else {
            1
        };
        self.slots.len() == expected && self.replicas.check()
    }

    /// Whether this is a cluster topology.
    pub fn is_cluster(&self) -> (r: bool)
        ensures
            r == self@.cluster,
    {
        self.cluster
    }

    /// Number of slots.
    pub fn slot_count(&self) -> (r: usize)
        ensures
            r == self@.slots.len(),
    {
        self.slots.len()
    }

    /// The primary that owns `slot`; `None` when it is unassigned or out of range.
    pub fn lookup_primary(&self, slot: usize) -> (r: Option<Server>)
        ensures
            slot < self@.slots.len() ==> owner_view(r) == self@.slots[slot as int],
            slot >= self@.slots.len() ==> r is None,
    {
        if slot < self.slots.len() {
            match &self.slots[slot] {
                Some(s) => Some(s.duplicate()),
                None => None,
            }
        } else {
            None
        }
    }

    /// The replicas that back `primary`, in table order.
    pub fn lookup_replicas(&self, primary: &Server) -> (r: Vec<Server>)
        ensures
            servers_view(r@) == replicas_of(self@.replicas, primary@),
    {
        self.replicas.replicas_of(primary)
    }

    /// Whether the replica table lists `server` as a replica.
    pub fn replicas_listed(&self, server: &Server) -> (r: bool)
        ensures
            r == lists_replica(self@.replicas, server@),
    {
        self.replicas.position(server).is_some()
    }

    /// Whether `server` owns some slot.
    pub fn owns_slot(&self, server: &Server) -> (r: bool)
        ensures
            r == owns_slot(self@.slots, server@),
    {
        let mut i: usize = 0;
        while i < self.slots.len()
            invariant
                i <= self@.slots.len(),
                self@.slots.len() == self.slots@.len(),
                forall|k: int| 0 <= k < i ==> self@.slots[k] != Some(server@),
            decreases self.slots.len() - i,
        {
            assert(self@.slots[i as int] == owner_view(self.slots@[i as int]));
            match &self.slots[i] {
                Some(s) => {
                    if s.same(server) {
                        return true;
                    }
                },
                None => {},
            }
            i = i + 1;
        }
        false
    }

    /// Whether `server` serves only as a replica.
    pub fn replica_only(&self, server: &Server) -> (r: bool)
        ensures
            r == replica_only(self@, server@),
    {
        self.replicas_listed(server) && !self.owns_slot(server)
    }

    /// A copy of the replica-to-primary table.
    pub fn replica_table(&self) -> (r: ReplicaTable)
        ensures
            r@ == self@.replicas,
    {
        self.replicas.snapshot()
    }

    /// Makes `server` the standing owner of `slot`.
    pub fn set_owner(&mut self, slot: usize, server: &Server)
        requires
            old(self).wf(),
            slot < old(self)@.slots.len(),
        ensures
            final(self).wf(),
            final(self)@ == (TopologyView {
                slots: old(self)@.slots.update(slot as int, Some(server@)),
                ..old(self)@
            }),
    {
        let ghost before = self.slots@;
        self.slots.set(slot, Some(server.duplicate()));
        assert(owners_view(self.slots@) =~= owners_view(before).update(slot as int, Some(server@)));
    }

    /// Makes `server` the owner of every slot from `first` to `last`, both included.
    pub fn assign_range(&mut self, first: usize, last: usize, server: &Server)
        requires
            old(self).wf(),
            first <= last < old(self)@.slots.len(),
        ensures
            final(self).wf(),
            final(self)@.cluster == old(self)@.cluster,
            final(self)@.replicas == old(self)@.replicas,
            final(self)@.slots.len() == old(self)@.slots.len(),
            forall|i: int| 0 <= i < old(self)@.slots.len() ==> final(self)@.slots[i] == if first
                <= i <= last {
                Some(server@)
            } else {
                old(self)@.slots[i]
            },
    {
        let ghost start = self@;
        let mut i: usize = first;
        while i <= last
            invariant
                self.wf(),
                first <= i <= last + 1,
                last < self@.slots.len(),
                self@.cluster == start.cluster,
                self@.replicas == start.replicas,
                self@.slots.len() == start.slots.len(),
                forall|k: int| 0 <= k < start.slots.len() ==> self@.slots[k] == if first <= k < i {
                    Some(server@)
                } else {
                    start.slots[k]
                },
            decreases last + 1 - i,
        {
            self.set_owner(i, server);
            i = i + 1;
        }
    }

    /// Installs `table` as the whole replica table at once; the slot table stays.
    pub fn replace_replicas(&mut self, table: ReplicaTable)
        requires
            old(self).wf(),
            table.wf(),
        ensures
            final(self).wf(),
            final(self)@ == (TopologyView { replicas: table@, ..old(self)@ }),
    {
        self.replicas = table;
    }

    /// A copy of this topology, as it is now.
    pub fn snapshot(&self) -> (r: Topology)
        ensures
            r@ == self@,
    {
        let ghost t = self@.slots;
        let mut slots: Vec<Option<Server>> = Vec::new();
        let mut i: usize = 0;
        assert(owners_view(slots@) =~= t.subrange(0, 0));
        while i < self.slots.len()
            invariant
                i <= t.len(),
                t == self@.slots,
                t.len() == self.slots@.len(),
                owners_view(slots@) == t.subrange(0, i as int),
            decreases self.slots.len() - i,
        {
            let ghost prev = slots@;
            let copy = match &self.slots[i] {
                Some(s) => Some(s.duplicate()),
                None => None,
            };
            assert(owner_view(copy) == t[i as int]);
            slots.push(copy);
            assert(owners_view(slots@) =~= owners_view(prev).push(t[i as int]));
            assert(owners_view(slots@) =~= t.subrange(0, i + 1));
            i = i + 1;
        }
        assert(t.subrange(0, t.len() as int) =~= t);
        Topology { cluster: self.cluster, slots, replicas: self.replicas.snapshot() }
    }
}

} // verus!
