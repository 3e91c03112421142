use vstd::prelude::*;
use std::sync::Arc;
use crate::batch::BatchRun;
use crate::command::{Command, Envelope, command_slot};
use crate::topology::{ReplicaTable, Topology, TopologyView};

verus! {

/// What every client handle shares: an identity and the topology snapshot it
/// reads, published by the router.
#[derive(Debug)]
pub struct ClientInner {
    pub id: String,
    pub topology: Topology,
}

/// A command as `client` forwards it: the same command, marked for a replica
/// when the client prefers replicas.
pub open spec fn as_forwarded(prefers_replica: bool, c: Command) -> Command {
    Command { use_replica: c.use_replica || prefers_replica, ..c }
}

/// The behaviour shared by every client facade: the state it reads, and the
/// routing hint it puts on each command it forwards.
pub trait ClientLike: Sized {
    spec fn prefers_replica(&self) -> bool;

    spec fn inner_view(&self) -> Arc<ClientInner>;

    /// The shared client state.
    fn inner(&self) -> (r: &Arc<ClientInner>)
        ensures
            *r == self.inner_view();

    /// Puts this client's routing hint on `command`.
    fn change_command(&self, command: &mut Command)
        ensures
            *final(command) == as_forwarded(self.prefers_replica(), *old(command));
}

/// A client whose commands go to primaries.
#[derive(Debug)]
pub struct RedisClient {
    inner: Arc<ClientInner>,
}

/// A client whose commands go to a replica when one is known. It shares the
/// primary client's state, so it sees the same topology.
#[derive(Debug)]
pub struct Replicas {
    inner: Arc<ClientInner>,
}

impl ClientLike for RedisClient {
    open spec fn prefers_replica(&self) -> bool {
        false
    }

    closed spec fn inner_view(&self) -> Arc<ClientInner> {
        self.inner
    }

    fn inner(&self) -> (r: &Arc<ClientInner>) {
        &self.inner
    }

    fn change_command(&self, command: &mut Command) {
    }
}

impl ClientLike for Replicas {
    open spec fn prefers_replica(&self) -> bool {
        true
    }

    closed spec fn inner_view(&self) -> Arc<ClientInner> {
        self.inner
    }

    fn inner(&self) -> (r: &Arc<ClientInner>) {
        &self.inner
    }

    fn change_command(&self, command: &mut Command) {
        command.use_replica = true;
    }
}

impl<'a> From<&'a Arc<ClientInner>> for Replicas {
    fn from(inner: &'a Arc<ClientInner>) -> (r: Replicas) {
        Replicas::from_inner(inner)
    }
}

impl<'a> vstd::std_specs::convert::FromSpecImpl<&'a Arc<ClientInner>> for Replicas {
    open spec fn obeys_from_spec() -> bool {
        true
    }

    closed spec fn from_spec(inner: &'a Arc<ClientInner>) -> Replicas {
        Replicas { inner: *inner }
    }
}

impl<'a> From<&'a Arc<ClientInner>> for RedisClient {
    fn from(inner: &'a Arc<ClientInner>) -> (r: RedisClient) {
        RedisClient::from_inner(inner)
    }
}

impl<'a> vstd::std_specs::convert::FromSpecImpl<&'a Arc<ClientInner>> for RedisClient {
    open spec fn obeys_from_spec() -> bool {
        true
    }

    closed spec fn from_spec(inner: &'a Arc<ClientInner>) -> RedisClient {
        RedisClient { inner: *inner }
    }
}

/// A facade made from shared state reads exactly that state.
pub proof fn lemma_replicas_from_keeps_inner(inner: &Arc<ClientInner>)
    ensures
        <Replicas as vstd::std_specs::convert::FromSpec<&Arc<ClientInner>>>::from_spec(inner).inner_view()
            == *inner,
{
}

/// A client made from shared state reads exactly that state.
pub proof fn lemma_client_from_keeps_inner(inner: &Arc<ClientInner>)
    ensures
        <RedisClient as vstd::std_specs::convert::FromSpec<&Arc<ClientInner>>>::from_spec(inner).inner_view()
            == *inner,
{
}

impl RedisClient {
    /// A client over `inner`.
    pub fn from_inner(inner: &Arc<ClientInner>) -> (r: RedisClient)
        ensures
            r.inner_view() == *inner,
    {
        RedisClient { inner: inner.clone() }
    }

    /// A facade over the same state that prefers replicas.
    pub fn replicas(&self) -> (r: Replicas)
        ensures
            r.inner_view() == self.inner_view(),
    {
        Replicas { inner: self.inner.clone() }
    }

    /// Starts a batch bound to this client's routing hint.
    pub fn pipeline(&self) -> (r: Pipeline<RedisClient>)
        ensures
            r.client().inner_view() == self.inner_view(),
            r.commands_view().len() == 0,
    {
        Pipeline::new(RedisClient { inner: self.inner.clone() })
    }
}

impl Replicas {
    /// A facade over `inner`.
    pub fn from_inner(inner: &Arc<ClientInner>) -> (r: Replicas)
        ensures
            r.inner_view() == *inner,
    {
        Replicas { inner: inner.clone() }
    }

    /// The topology this facade reads.
    pub open spec fn topology_view(&self) -> TopologyView {
        self.inner_view().topology@
    }

    /// A copy of the replica-to-primary table, as it is now.
    pub fn nodes(&self) -> (r: ReplicaTable)
        ensures
            r@ == self.topology_view().replicas,
    {
        self.inner.topology.replica_table()
    }

    /// Starts a batch whose commands go to replicas.
    pub fn pipeline(&self) -> (r: Pipeline<Replicas>)
        ensures
            r.client().inner_view() == self.inner_view(),
            r.commands_view().len() == 0,
    {
        Pipeline::new(Replicas { inner: self.inner.clone() })
    }

    /// The client over the same state whose commands go to primaries.
    pub fn client(&self) -> (r: RedisClient)
        ensures
            r.inner_view() == self.inner_view(),
    {
        RedisClient::from_inner(&self.inner)
    }
}

/// Commands gathered to be sent together, each carrying the routing hint of
/// the client that made the batch.
pub struct Pipeline<C: ClientLike> {
    client: C,
    commands: Vec<Command>,
}

impl<C: ClientLike> Pipeline<C> {
    pub closed spec fn client(&self) -> C {
        self.client
    }

    pub closed spec fn commands_view(&self) -> Seq<Command> {
        self.commands@
    }

    /// An empty batch for `client`.
    pub fn new(client: C) -> (r: Pipeline<C>)
        ensures
            r.client() == client,
            r.commands_view().len() == 0,
    {
        Pipeline { client, commands: Vec::new() }
    }

    /// Number of commands gathered.
    pub fn len(&self) -> (r: usize)
        ensures
            r == self.commands_view().len(),
    {
        self.commands.len()
    }

    /// Adds `command` at the end, with the client's routing hint on it.
    pub fn push(&mut self, command: Command)
        ensures
            final(self).client() == old(self).client(),
            final(self).commands_view() == old(self).commands_view().push(
                as_forwarded(old(self).client().prefers_replica(), command),
            ),
    {
        let mut c = command;
        self.client.change_command(&mut c);
        self.commands.push(c);
    }

    /// Sends the batch: its commands wrapped for the router in submission
    /// order under the ids `first_id`, `first_id + 1`, ..., and the run that
    /// gathers their results by id.
    pub fn run(self, first_id: u64) -> (r: (Vec<Envelope>, BatchRun))
        requires
            first_id + self.commands_view().len() <= u64::MAX,
        ensures
            r.0@.len() == self.commands_view().len(),
            forall|i: int| 0 <= i < r.0@.len() ==> {
                &&& (#[trigger] r.0@[i]).id == first_id + i
                &&& r.0@[i].command == self.commands_view()[i]
                &&& r.0@[i].slot == command_slot(self.commands_view()[i])
                &&& r.0@[i].redirections == 0
                &&& r.0@[i].attempts == 0
            },
            r.1.first_id_view() == first_id,
            r.1.slots().len() == self.commands_view().len(),
            forall|i: int| 0 <= i < r.1.slots().len() ==> #[trigger] r.1.slots()[i] is None,
    {
        let n = self.commands.len();
        let envelopes = self.into_envelopes(first_id);
        (envelopes, BatchRun::new(first_id, n))
    }

    /// The batch's commands wrapped for the router in submission order; the
    /// one at position `i` gets the caller id `first_id + i`.
    pub fn into_envelopes(self, first_id: u64) -> (r: Vec<Envelope>)
        requires
            first_id + self.commands_view().len() <= u64::MAX,
        ensures
            r@.len() == self.commands_view().len(),
            forall|i: int| 0 <= i < r@.len() ==> {
                &&& (#[trigger] r@[i]).id == first_id + i
                &&& r@[i].command == self.commands_view()[i]
                &&& r@[i].slot == command_slot(self.commands_view()[i])
                &&& r@[i].redirections == 0
                &&& r@[i].attempts == 0
            },
    {
        let ghost all = self.commands@;
        let mut rest = self.commands;
        let mut out: Vec<Envelope> = Vec::new();
        while rest.len() > 0
            invariant
                first_id + all.len() <= u64::MAX,
                out@.len() + rest@.len() == all.len(),
                rest@ == all.subrange(out@.len() as int, all.len() as int),
                forall|i: int| 0 <= i < out@.len() ==> {
                    &&& (#[trigger] out@[i]).id == first_id + i
                    &&& out@[i].command == all[i]
                    &&& out@[i].slot == command_slot(all[i])
                    &&& out@[i].redirections == 0
                    &&& out@[i].attempts == 0
                },
            decreases rest@.len(),
        {
            let ghost k = out@.len() as int;
            let c = rest.remove(0);
            assert(c == all[k]);
            let id = first_id + out.len() as u64;
            out.push(Envelope::new(id, c));
            assert(rest@ =~= all.subrange(out@.len() as int, all.len() as int));
        }
        out
    }
}

} // verus!
