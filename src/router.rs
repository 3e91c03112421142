use vstd::prelude::*;
use crate::command::Envelope;
use crate::connection::{Connection, ConnState, requeue_all, requeue_outcome};
use crate::error::RedisError;
use crate::redirect::{Action, Reply, RouterConfig, handle_reply, outcome, topology_after};
use crate::routing::{route, route_spec};
use crate::server::{Server, ServerView};
use crate::topology::{ReplicaTable, Topology, TopologyView, replica_only};

verus! {

/// Every connection goes to a different server.
pub open spec fn distinct_servers(c: Seq<Connection>) -> bool {
    forall|i: int, j: int|
        0 <= i < j < c.len() ==> c[i].server_view() != c[j].server_view()
}

/// Whether some connection goes to `s`.
pub open spec fn has_connection(c: Seq<Connection>, s: ServerView) -> bool {
    exists|i: int| 0 <= i < c.len() && c[i].server_view() == s
}

/// `after` is `before` with `env` added behind the commands pending on the
/// connection to `s`, that connection being opened when there was none; every
/// other connection stays as it was.
pub open spec fn enqueued(before: Seq<Connection>, after: Seq<Connection>, s: ServerView, env: Envelope) -> bool {
    if has_connection(before, s) {
        &&& after.len() == before.len()
        &&& forall|i: int| #![trigger after[i]] 0 <= i < before.len() ==> if before[i].server_view() == s {
            &&& after[i].server_view() == s
            &&& after[i].state_view() == before[i].state_view()
            &&& after[i].pending_view() == before[i].pending_view().push(env)
        } else {
            after[i] == before[i]
        }
    } else {
        &&& after.len() == before.len() + 1
        &&& forall|i: int| #![trigger after[i]] 0 <= i < before.len() ==> after[i] == before[i]
        &&& after.last().server_view() == s
        &&& after.last().state_view() == ConnState::Connecting
        &&& after.last().pending_view() == seq![env]
    }
}

/// `after` is `before` with the oldest command pending on the connection to
/// `s` taken off; every other connection stays as it was.
pub open spec fn replied(before: Seq<Connection>, after: Seq<Connection>, s: ServerView) -> bool {
    &&& after.len() == before.len()
    &&& forall|i: int| #![trigger after[i]] 0 <= i < before.len() ==> if before[i].server_view() == s
        && before[i].pending_view().len() > 0 {
        &&& after[i].server_view() == s
        &&& after[i].state_view() == before[i].state_view()
        &&& after[i].pending_view() == before[i].pending_view().subrange(1, before[i].pending_view().len() as int)
    } else {
        after[i] == before[i]
    }
}

/// `after` is `before` with the connection to `s` closed and emptied; every
/// other connection stays as it was.
pub open spec fn closed_only(before: Seq<Connection>, after: Seq<Connection>, s: ServerView) -> bool {
    &&& after.len() == before.len()
    &&& forall|i: int| #![trigger after[i]] 0 <= i < before.len() ==> if before[i].server_view() == s {
        &&& after[i].server_view() == s
        &&& after[i].state_view() == ConnState::Closed
        &&& after[i].pending_view().len() == 0
    } else {
        after[i] == before[i]
    }
}

/// The requeue of every command pending on `c`, oldest first.
pub open spec fn requeued(config: RouterConfig, c: Connection) -> Seq<Action> {
    c.pending_view().map_values(|e: Envelope| requeue_outcome(config, e))
}

/// The requeues a resync causes: those of the connections to servers that
/// serve only as replicas in `t`, in connection order.
pub open spec fn resync_actions(config: RouterConfig, c: Seq<Connection>, t: TopologyView) -> Seq<Action>
    decreases c.len(),
{
    if c.len() == 0 {
        Seq::empty()
    } else {
        let prev = resync_actions(config, c.drop_last(), t);
        if replica_only(t, c.last().server_view()) {
            prev + requeued(config, c.last())
        } else {
            prev
        }
    }
}

/// The single owner of the topology and the connections: every routing
/// decision and every change goes through it.
pub struct Router {
    topology: Topology,
    connections: Vec<Connection>,
    config: RouterConfig,
    rotation: u64,
}

impl Router {
    pub closed spec fn topology_view(&self) -> TopologyView {
        self.topology@
    }

    pub closed spec fn conns(&self) -> Seq<Connection> {
        self.connections@
    }

    pub closed spec fn config_view(&self) -> RouterConfig {
        self.config
    }

    pub closed spec fn rotation_view(&self) -> u64 {
        self.rotation
    }

    pub open spec fn wf(&self) -> bool {
        &&& self.topology_view().slots.len() == crate::topology::slot_count(self.topology_view().cluster)
        &&& crate::topology::unique_replicas(self.topology_view().replicas)
        &&& distinct_servers(self.conns())
    }

    proof fn lemma_topology_wf(&self)
        requires
            self.wf(),
        ensures
            self.topology.wf(),
    {
    }

    /// Whether the topology is well formed and no two connections go to the
    /// same server.
    pub fn check(&self) -> (r: bool)
        ensures
            r == self.wf(),
    {
        if !self.topology.check() {
            return false;
        }
        let mut j: usize = 0;
        while j < self.connections.len()
            invariant
                j <= self.conns().len(),
                self.conns() == self.connections@,
                forall|a: int, b: int| 0 <= a < b < j ==> self.conns()[a].server_view() != self.conns()[b].server_view(),
            decreases self.connections.len() - j,
        {
            let mut i: usize = 0;
            while i < j
                invariant
                    i <= j < self.conns().len(),
                    self.conns() == self.connections@,
                    forall|a: int, b: int| 0 <= a < b < j ==> self.conns()[a].server_view() != self.conns()[b].server_view(),
                    forall|a: int| 0 <= a < i ==> self.conns()[a].server_view() != self.conns()[j as int].server_view(),
                decreases j - i,
            {
                if self.connections[i].server().same(self.connections[j].server()) {
                    return false;
                }
                i = i + 1;
            }
            j = j + 1;
        }
        true
    }

    /// A router over `topology`, with no connection open yet.
    pub fn new(topology: Topology, config: RouterConfig) -> (r: Router)
        requires
            topology.wf(),
        ensures
            r.wf(),
            r.topology_view() == topology@,
            r.conns().len() == 0,
            r.config_view() == config,
            r.rotation_view() == 0,
    {
        Router { topology, connections: Vec::new(), config, rotation: 0 }
    }

    /// The current topology.
    pub fn topology(&self) -> (r: &Topology)
        ensures
            r@ == self.topology_view(),
    {
        &self.topology
    }

    /// A copy of the current topology, for readers.
    pub fn snapshot(&self) -> (r: Topology)
        ensures
            r@ == self.topology_view(),
    {
        self.topology.snapshot()
    }

    /// The limits the router applies.
    pub fn config(&self) -> (r: RouterConfig)
        ensures
            r == self.config_view(),
    {
        self.config
    }

    /// Number of connections known.
    pub fn connection_count(&self) -> (r: usize)
        ensures
            r == self.conns().len(),
    {
        self.connections.len()
    }

    /// The connection at `index`.
    pub fn connection(&self, index: usize) -> (r: &Connection)
        requires
            index < self.conns().len(),
        ensures
            *r == self.conns()[index as int],
    {
        &self.connections[index]
    }

    /// Where the connection to `server` stands, if there is one.
    pub fn find(&self, server: &Server) -> (r: Option<usize>)
        ensures
            match r {
                Some(i) => i < self.conns().len() && self.conns()[i as int].server_view() == server@,
                None => !has_connection(self.conns(), server@),
            },
    {
        let mut i: usize = 0;
        while i < self.connections.len()
            invariant
                i <= self.conns().len(),
                self.conns() == self.connections@,
                forall|k: int| 0 <= k < i ==> self.conns()[k].server_view() != server@,
            decreases self.connections.len() - i,
        {
            if self.connections[i].server().same(server) {
                return Some(i);
            }
            i = i + 1;
        }
        None
    }

    /// Writes `env` to `server`: it joins the end of that connection's pending
    /// commands, the connection being opened first when there is none.
    /// Returns the connection's index.
    pub fn send_to(&mut self, server: Server, env: Envelope) -> (r: usize)
        requires
            old(self).wf(),
        ensures
            final(self).wf(),
            final(self).topology_view() == old(self).topology_view(),
            final(self).config_view() == old(self).config_view(),
            final(self).rotation_view() == old(self).rotation_view(),
            r < final(self).conns().len(),
            final(self).conns()[r as int].server_view() == server@,
            has_connection(old(self).conns(), server@) ==> {
                &&& final(self).conns().len() == old(self).conns().len()
                &&& final(self).conns()[r as int].pending_view() == old(self).conns()[r as int].pending_view().push(env)
                &&& final(self).conns()[r as int].state_view() == old(self).conns()[r as int].state_view()
            },
            !has_connection(old(self).conns(), server@) ==> {
                &&& final(self).conns().len() == old(self).conns().len() + 1
                &&& r == old(self).conns().len()
                &&& final(self).conns()[r as int].pending_view() == seq![env]
                &&& final(self).conns()[r as int].state_view() == ConnState::Connecting
            },
            forall|i: int| 0 <= i < old(self).conns().len() && i != r ==> final(self).conns()[i] == old(self).conns()[i],
            enqueued(old(self).conns(), final(self).conns(), server@, env),
    {
        let ghost before = self.connections@;
        match self.find(&server) {
            Some(i) => {
                let mut conn = self.connections.remove(i);
                conn.enqueue(env);
                self.connections.insert(i, conn);
                assert(self.connections@ =~= before.update(i as int, conn));
                assert forall|a: int, b: int| 0 <= a < b < self.conns().len() implies self.conns()[a].server_view()
                    != self.conns()[b].server_view() by {
                    assert(before[a].server_view() != before[b].server_view());
                }
                assert forall|k: int| 0 <= k < before.len() && before[k].server_view() == server@ implies k == i by {
                    if k < i {
                        assert(before[k].server_view() != before[i as int].server_view());
                    } else if k > i {
                        assert(before[i as int].server_view() != before[k].server_view());
                    }
                }
                i
            },
            None => {
                let ghost sv = server@;
                let n = self.connections.len();
                let mut conn = Connection::new(server);
                conn.enqueue(env);
                assert(conn.pending_view() =~= seq![env]);
                self.connections.push(conn);
                assert forall|a: int, b: int| 0 <= a < b < self.conns().len() implies self.conns()[a].server_view()
                    != self.conns()[b].server_view() by {
                    if b == before.len() {
                        assert(before[a].server_view() != sv);
                    } else {
                        assert(before[a].server_view() != before[b].server_view());
                    }
                }
                n
            },
        }
    }

    /// Routes `env` and writes it to the server chosen: `Ok` with that server,
    /// or, when its slot has no owner, the action that fails it.
    pub fn dispatch(&mut self, env: Envelope) -> (r: Result<Server, Action>)
        requires
            old(self).wf(),
        ensures
            final(self).wf(),
            final(self).topology_view() == old(self).topology_view(),
            final(self).config_view() == old(self).config_view(),
            final(self).rotation_view() == if env.command.use_replica && route_spec(
                old(self).topology_view(),
                env.slot,
                true,
                old(self).rotation_view(),
            ) is Some {
                if old(self).rotation_view() == u64::MAX {
                    0
                } else {
                    (old(self).rotation_view() + 1) as u64
                }
            } else {
                old(self).rotation_view()
            },
            ({
                let target = route_spec(
                    old(self).topology_view(),
                    env.slot,
                    env.command.use_replica,
                    old(self).rotation_view(),
                );
                &&& target is None ==> r == Err::<Server, Action>(
                    Action::Deliver { id: env.id, result: Err(RedisError::ClusterUnavailable) },
                )
                &&& target is None ==> final(self).conns() == old(self).conns()
                &&& target matches Some(t) ==> (r matches Ok(s) && s@ == t && enqueued(
                    old(self).conns(),
                    final(self).conns(),
                    t,
                    env,
                ))
            }),
    {
        proof {
            self.lemma_topology_wf();
        }
        let target = route(&self.topology, env.slot, env.use_replica(), self.rotation);
        match target {
            None => Err(Action::Deliver { id: env.id, result: Err(RedisError::ClusterUnavailable) }),
            Some(server) => {
                if env.use_replica() {
                    self.rotation = self.rotation.wrapping_add(1);
                }
                let copy = server.duplicate();
                self.send_to(copy, env);
                Ok(server)
            },
        }
    }

    /// Records that the connection to `server` is open; `false` when there is
    /// no connection to it.
    pub fn on_connected(&mut self, server: &Server) -> (r: bool)
        requires
            old(self).wf(),
        ensures
            final(self).wf(),
            final(self).topology_view() == old(self).topology_view(),
            final(self).config_view() == old(self).config_view(),
            final(self).rotation_view() == old(self).rotation_view(),
            final(self).conns().len() == old(self).conns().len(),
            r == has_connection(old(self).conns(), server@),
            forall|i: int| #![trigger old(self).conns()[i]] 0 <= i < old(self).conns().len() ==> {
                let c = old(self).conns()[i];
                if c.server_view() == server@ {
                    &&& final(self).conns()[i].state_view() == ConnState::Ready
                    &&& final(self).conns()[i].server_view() == c.server_view()
                    &&& final(self).conns()[i].pending_view() == c.pending_view()
                } else {
                    final(self).conns()[i] == c
                }
            },
    {
        let ghost before = self.connections@;
        match self.find(server) {
            None => false,
            Some(i) => {
                let mut conn = self.connections.remove(i);
                conn.mark_ready();
                self.connections.insert(i, conn);
                assert(self.connections@ =~= before.update(i as int, conn));
                assert forall|a: int, b: int| 0 <= a < b < self.conns().len() implies self.conns()[a].server_view()
                    != self.conns()[b].server_view() by {
                    assert(before[a].server_view() != before[b].server_view());
                }
                assert forall|k: int| 0 <= k < before.len() && before[k].server_view() == server@ implies k == i by {
                    if k < i {
                        assert(before[k].server_view() != before[i as int].server_view());
                    } else if k > i {
                        assert(before[i as int].server_view() != before[k].server_view());
                    }
                }
                true
            },
        }
    }

    /// Handles a reply read from the connection to `server`. It belongs to the
    /// oldest command pending there; `None` when there is no such command.
    pub fn on_reply(&mut self, server: &Server, reply: Reply) -> (r: Option<Action>)
        requires
            old(self).wf(),
        ensures
            final(self).wf(),
            final(self).config_view() == old(self).config_view(),
            final(self).rotation_view() == old(self).rotation_view(),
            replied(old(self).conns(), final(self).conns(), server@),
            r is None ==> final(self).conns() == old(self).conns(),
            match r {
                None => final(self).topology_view() == old(self).topology_view() && !(exists|i: int|
                    0 <= i < old(self).conns().len() && old(self).conns()[i].server_view() == server@
                        && old(self).conns()[i].pending_view().len() > 0),
                Some(a) => exists|i: int|
                    0 <= i < old(self).conns().len() && old(self).conns()[i].server_view() == server@
                        && old(self).conns()[i].pending_view().len() > 0 && a == outcome(
                        old(self).config_view(),
                        old(self).topology_view().slots.len() as int,
                        old(self).conns()[i].pending_view()[0],
                        reply,
                    ) && final(self).conns()[i].pending_view() == old(self).conns()[i].pending_view().subrange(
                        1,
                        old(self).conns()[i].pending_view().len() as int,
                    ) && final(self).topology_view() == topology_after(old(self).topology_view(), reply),
            },
    {
        proof {
            self.lemma_topology_wf();
        }
        let ghost before = self.connections@;
        match self.find(server) {
            None => None,
            Some(i) => {
                let mut conn = self.connections.remove(i);
                let next = conn.take_next();
                self.connections.insert(i, conn);
                assert(self.connections@ =~= before.update(i as int, conn));
                assert forall|a: int, b: int| 0 <= a < b < self.conns().len() implies self.conns()[a].server_view()
                    != self.conns()[b].server_view() by {
                    assert(before[a].server_view() != before[b].server_view());
                }
                match next {
                    None => {
                        assert forall|k: int| 0 <= k < before.len() && before[k].server_view() == server@
                            implies before[k].pending_view().len() == 0 by {
                            if k != i {
                                if k < i {
                                    assert(before[k].server_view() != before[i as int].server_view());
                                } else {
                                    assert(before[i as int].server_view() != before[k].server_view());
                                }
                            }
                        }
                        None
                    },
                    Some(env) => {
                        let a = handle_reply(self.config, &mut self.topology, env, reply);
                        assert(self.conns()[i as int] == conn);
                        Some(a)
                    },
                }
            },
        }
    }

    /// Handles the loss of the connection to `server`: it is marked closed and
    /// every command pending on it is requeued, one action each, oldest first.
    pub fn on_closed(&mut self, server: &Server) -> (r: Vec<Action>)
        requires
            old(self).wf(),
        ensures
            final(self).wf(),
            final(self).topology_view() == old(self).topology_view(),
            final(self).config_view() == old(self).config_view(),
            !has_connection(old(self).conns(), server@) ==> r@.len() == 0 && final(self).conns() == old(self).conns(),
            final(self).rotation_view() == old(self).rotation_view(),
            closed_only(old(self).conns(), final(self).conns(), server@),
            forall|i: int| 0 <= i < old(self).conns().len() && old(self).conns()[i].server_view() == server@ ==> {
                &&& r@ == requeued(old(self).config_view(), old(self).conns()[i])
                &&& final(self).conns()[i].state_view() == ConnState::Closed
                &&& final(self).conns()[i].pending_view().len() == 0
            },
    {
        let ghost before = self.connections@;
        match self.find(server) {
            None => Vec::new(),
            Some(i) => {
                let r = self.close_at(i);
                assert forall|k: int| 0 <= k < before.len() && before[k].server_view() == server@ implies k == i by {
                    if k < i {
                        assert(before[k].server_view() != before[i as int].server_view());
                    } else if k > i {
                        assert(before[i as int].server_view() != before[k].server_view());
                    }
                }
                r
            },
        }
    }

    fn close_at(&mut self, i: usize) -> (r: Vec<Action>)
        requires
            old(self).wf(),
            i < old(self).conns().len(),
        ensures
            final(self).wf(),
            final(self).topology_view() == old(self).topology_view(),
            final(self).config_view() == old(self).config_view(),
            final(self).rotation_view() == old(self).rotation_view(),
            final(self).conns().len() == old(self).conns().len(),
            r@ == requeued(old(self).config_view(), old(self).conns()[i as int]),
            final(self).conns()[i as int].server_view() == old(self).conns()[i as int].server_view(),
            final(self).conns()[i as int].state_view() == ConnState::Closed,
            final(self).conns()[i as int].pending_view().len() == 0,
            forall|k: int| 0 <= k < old(self).conns().len() && k != i ==> final(self).conns()[k] == old(self).conns()[k],
    {
        let ghost before = self.connections@;
        let mut conn = self.connections.remove(i);
        let pending = conn.close();
        self.connections.insert(i, conn);
        assert(self.connections@ =~= before.update(i as int, conn));
        assert forall|a: int, b: int| 0 <= a < b < self.conns().len() implies self.conns()[a].server_view()
            != self.conns()[b].server_view() by {
            assert(before[a].server_view() != before[b].server_view());
        }
        let r = requeue_all(self.config, pending);
        assert(r@ =~= requeued(self.config, before[i as int]));
        r
    }

    /// Installs a rebuilt replica table: every connection to a server that
    /// serves only as a replica (the current table lists it, and it owns no
    /// slot) is closed and its pending commands
    /// requeued, then `table` replaces the whole replica table at once.
    pub fn resync(&mut self, table: ReplicaTable) -> (r: Vec<Action>)
        requires
            old(self).wf(),
            table.wf(),
        ensures
            final(self).wf(),
            final(self).topology_view() == (TopologyView { replicas: table@, ..old(self).topology_view() }),
            final(self).config_view() == old(self).config_view(),
            r@ == resync_actions(old(self).config_view(), old(self).conns(), old(self).topology_view()),
            final(self).conns().len() == old(self).conns().len(),
            forall|i: int| #![trigger old(self).conns()[i]] 0 <= i < old(self).conns().len() ==> {
                let c = old(self).conns()[i];
                if replica_only(old(self).topology_view(), c.server_view()) {
                    final(self).conns()[i].state_view() == ConnState::Closed
                        && final(self).conns()[i].pending_view().len() == 0
                } else {
                    final(self).conns()[i] == c
                }
            },
    {
        proof {
            self.lemma_topology_wf();
        }
        let ghost start = self.connections@;
        let ghost t = self.topology@;
        let mut out: Vec<Action> = Vec::new();
        let mut i: usize = 0;
        assert(start.subrange(0, 0) =~= Seq::<Connection>::empty());
        while i < self.connections.len()
            invariant
                self.wf(),
                self.topology_view() == old(self).topology_view(),
                self.config_view() == old(self).config_view(),
                t == self.topology_view(),
                start == old(self).conns(),
                self.conns().len() == start.len(),
                i <= start.len(),
                out@ == resync_actions(self.config_view(), start.subrange(0, i as int), t),
                forall|k: int| i <= k < start.len() ==> self.conns()[k] == start[k],
                forall|k: int| #![trigger start[k]] 0 <= k < i ==> {
                    if replica_only(t, start[k].server_view()) {
                        self.conns()[k].state_view() == ConnState::Closed
                            && self.conns()[k].pending_view().len() == 0
                    } else {
                        self.conns()[k] == start[k]
                    }
                },
            decreases start.len() - i,
        {
            assert(start.subrange(0, i + 1).drop_last() =~= start.subrange(0, i as int));
            assert(start.subrange(0, i + 1).last() == start[i as int]);
            let listed = self.topology.replica_only(self.connections[i].server());
            if listed {
                let mut more = self.close_at(i);
                out.append(&mut more);
            }
            i = i + 1;
        }
        assert(start.subrange(0, start.len() as int) =~= start);
        self.topology.replace_replicas(table);
        out
    }
}

} // verus!
