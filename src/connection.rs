use vstd::prelude::*;
use crate::command::Envelope;
use crate::error::RedisError;
use crate::redirect::{Action, RouterConfig, action_id, next_redirection};
use crate::server::{Server, ServerView};

verus! {

/// Liveness of a connection.
#[derive(Clone, Copy, Debug, PartialEq, Eq, Structural)]
pub enum ConnState {
    Connecting,
    Ready,
    Closed,
}

/// One connection to one server, with the commands written to it that await
/// a reply, oldest first: the next reply read belongs to the first of them.
pub struct Connection {
    server: Server,
    state: ConnState,
    pending: Vec<Envelope>,
}

impl Connection {
    pub closed spec fn server_view(&self) -> ServerView {
        self.server@
    }

    pub closed spec fn state_view(&self) -> ConnState {
        self.state
    }

    pub closed spec fn pending_view(&self) -> Seq<Envelope> {
        self.pending@
    }

    /// A connection being opened to `server`, with nothing pending.
    pub fn new(server: Server) -> (r: Connection)
        ensures
            r.server_view() == server@,
            r.state_view() == ConnState::Connecting,
            r.pending_view().len() == 0,
    {
        Connection { server, state: ConnState::Connecting, pending: Vec::new() }
    }

    /// The server at the other end.
    pub fn server(&self) -> (r: &Server)
        ensures
            r@ == self.server_view(),
    {
        &self.server
    }

    /// The connection's liveness.
    pub fn state(&self) -> (r: ConnState)
        ensures
            r == self.state_view(),
    {
        self.state
    }

    /// Number of commands awaiting a reply.
    pub fn pending_len(&self) -> (r: usize)
        ensures
            r == self.pending_view().len(),
    {
        self.pending.len()
    }

    /// Records that the connection is open.
    pub fn mark_ready(&mut self)
        ensures
            final(self).server_view() == old(self).server_view(),
            final(self).pending_view() == old(self).pending_view(),
            final(self).state_view() == ConnState::Ready,
    {
        self.state = ConnState::Ready;
    }

    /// Records that `env` was written and awaits its reply, after all others.
    pub fn enqueue(&mut self, env: Envelope)
        ensures
            final(self).server_view() == old(self).server_view(),
            final(self).state_view() == old(self).state_view(),
            final(self).pending_view() == old(self).pending_view().push(env),
    {
        self.pending.push(env);
    }

    /// The command that the reply just read belongs to: the oldest pending one.
    pub fn take_next(&mut self) -> (r: Option<Envelope>)
        ensures
            final(self).server_view() == old(self).server_view(),
            final(self).state_view() == old(self).state_view(),
            old(self).pending_view().len() == 0 ==> r is None && *final(self) == *old(self),
            old(self).pending_view().len() > 0 ==> r == Some(old(self).pending_view()[0])
                && final(self).pending_view() == old(self).pending_view().subrange(
                1,
                old(self).pending_view().len() as int,
            ),
    {
        if self.pending.len() == 0 {
            None
        } else {
            let ghost before = self.pending@;
            let e = self.pending.remove(0);
            assert(self.pending@ =~= before.subrange(1, before.len() as int));
            Some(e)
        }
    }

    /// Marks the connection closed and hands back every pending command, oldest
    /// first; none stays behind.
    pub fn close(&mut self) -> (r: Vec<Envelope>)
        ensures
            final(self).server_view() == old(self).server_view(),
            final(self).state_view() == ConnState::Closed,
            final(self).pending_view().len() == 0,
            r@ == old(self).pending_view(),
    {
        self.state = ConnState::Closed;
        let mut taken: Vec<Envelope> = Vec::new();
        std::mem::swap(&mut taken, &mut self.pending);
        taken
    }
}

/// What becomes of a command whose connection failed: it is sent again through
/// routing, which spends one unit of its redirection budget; with the budget
/// spent it fails.
pub open spec fn requeue_outcome(config: RouterConfig, env: Envelope) -> Action {
    match next_redirection(config, env.redirections) {
        None => Action::Deliver { id: env.id, result: Err(RedisError::ConnectionFailed) },
        Some(n) => Action::Retry { envelope: Envelope { redirections: n, ..env } },
    }
}

/// Requeues one command of a failed connection.
pub fn requeue(config: RouterConfig, env: Envelope) -> (r: Action)
    ensures
        r == requeue_outcome(config, env),
        action_id(r) == env.id,
{
    if env.redirections >= config.max_redirections {
        Action::Deliver { id: env.id, result: Err(RedisError::ConnectionFailed) }
    } else {
        let redirections = env.redirections + 1;
        Action::Retry { envelope: Envelope { redirections, ..env } }
    }
}

/// Requeues every command of a failed connection: one action per command, in
/// the order they were pending, each for the same caller.
pub fn requeue_all(config: RouterConfig, envs: Vec<Envelope>) -> (r: Vec<Action>)
    ensures
        r@.len() == envs@.len(),
        forall|i: int| 0 <= i < r@.len() ==> r@[i] == requeue_outcome(config, #[trigger] envs@[i]),
        forall|i: int| 0 <= i < r@.len() ==> #[trigger] action_id(r@[i]) == envs@[i].id,
{
    let ghost all = envs@;
    let mut rest = envs;
    let mut out: Vec<Action> = Vec::new();
    while rest.len() > 0
        invariant
            out@.len() + rest@.len() == all.len(),
            rest@ == all.subrange(out@.len() as int, all.len() as int),
            forall|i: int| 0 <= i < out@.len() ==> out@[i] == requeue_outcome(config, #[trigger] all[i]),
            forall|i: int| 0 <= i < out@.len() ==> #[trigger] action_id(out@[i]) == all[i].id,
        decreases rest@.len(),
    {
        let ghost k = out@.len();
        let env = rest.remove(0);
        assert(env == all[k as int]);
        out.push(requeue(config, env));
        assert(rest@ =~= all.subrange(out@.len() as int, all.len() as int));
    }
    out
}

} // verus!
