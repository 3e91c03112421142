use vstd::prelude::*;
use crate::command::Envelope;
use crate::error::RedisError;
use crate::server::Server;
use crate::topology::{Topology, TopologyView};

verus! {

/// Limits on how often one command may be redirected or retried.
#[derive(Clone, Copy, Debug, PartialEq, Eq, Structural)]
pub struct RouterConfig {
    pub max_redirections: u32,
    pub max_attempts: u32,
}

/// A reply as the protocol layer classifies it.
#[derive(Debug)]
pub enum Reply {
    /// An ordinary reply, handed to the caller as it is.
    Value(Vec<u8>),
    /// The slot now belongs to another server for good.
    Moved(u16, Server),
    /// Ask another server this once; the slot is migrating.
    Ask(u16, Server),
    /// The cluster cannot serve requests right now.
    ClusterDown,
    /// A reply that could not be understood.
    Malformed,
}

/// What the router does next with a command.
#[derive(Debug)]
pub enum Action {
    /// Hand `result` to the caller waiting on `id`.
    Deliver { id: u64, result: Result<Vec<u8>, RedisError> },
    /// Write the command to `server`, preceded by the one-shot primer when `asking`.
    Send { server: Server, envelope: Envelope, asking: bool },
    /// Route the command again after a backoff.
    Retry { envelope: Envelope },
}

/// The caller an action concerns.
pub open spec fn action_id(a: Action) -> u64 {
    match a {
        Action::Deliver { id, .. } => id,
        Action::Send { envelope, .. } => envelope.id,
        Action::Retry { envelope } => envelope.id,
    }
}

/// The redirection counter after one more redirection, or `None` when the
/// budget is spent.
pub open spec fn next_redirection(config: RouterConfig, count: u32) -> Option<u32> {
    if count >= config.max_redirections {
        None
    } else {
        Some((count + 1) as u32)
    }
}

/// The topology after a reply: `Moved` for a slot of the table makes its server
/// the slot's standing owner; every other reply leaves the topology as it is.
pub open spec fn topology_after(t: TopologyView, reply: Reply) -> TopologyView {
    match reply {
        Reply::Moved(slot, server) => if (slot as int) < t.slots.len() {
            TopologyView { slots: t.slots.update(slot as int, Some(server@)), ..t }
        } else {
            t
        },
        _ => t,
    }
}

/// What follows a reply to `env`.
pub open spec fn outcome(config: RouterConfig, slot_count: int, env: Envelope, reply: Reply) -> Action {
    match reply {
        Reply::Value(v) => Action::Deliver { id: env.id, result: Ok(v) },
        Reply::Moved(slot, server) => redirect_outcome(config, slot_count, env, slot, server, false),
        Reply::Ask(slot, server) => redirect_outcome(config, slot_count, env, slot, server, true),
        Reply::ClusterDown => if env.attempts >= config.max_attempts {
            Action::Deliver { id: env.id, result: Err(RedisError::ClusterUnavailable) }
        } else {
            Action::Retry { envelope: Envelope { attempts: (env.attempts + 1) as u32, ..env } }
        },
        Reply::Malformed => Action::Deliver { id: env.id, result: Err(RedisError::ProtocolError) },
    }
}

/// What follows a redirection of `env` to `server` for `slot`.
pub open spec fn redirect_outcome(
    config: RouterConfig,
    slot_count: int,
    env: Envelope,
    slot: u16,
    server: Server,
    asking: bool,
) -> Action {
    if slot as int >= slot_count {
        Action::Deliver { id: env.id, result: Err(RedisError::ProtocolError) }
    } else {
        match next_redirection(config, env.redirections) {
            None => Action::Deliver { id: env.id, result: Err(RedisError::RedirectionLoop) },
            Some(n) => Action::Send { server, envelope: Envelope { redirections: n, ..env }, asking },
        }
    }
}

/// Handles the reply that `env` received: delivers it, follows a redirection,
/// schedules a retry, or fails the command. A `Moved` reply also corrects the
/// topology.
pub fn handle_reply(config: RouterConfig, topology: &mut Topology, env: Envelope, reply: Reply) -> (r: Action)
    requires
        old(topology).wf(),
    ensures
        final(topology).wf(),
        final(topology)@ == topology_after(old(topology)@, reply),
        r == outcome(config, old(topology)@.slots.len() as int, env, reply),
        action_id(r) == env.id,
{
    let count = topology.slot_count();
    match reply {
        Reply::Value(v) => Action::Deliver { id: env.id, result: Ok(v) },
        Reply::Moved(slot, server) => {
            if (slot as usize) < count {
                topology.set_owner(slot as usize, &server);
            }
            redirect(config, count, env, slot, server, false)
        },
        Reply::Ask(slot, server) => redirect(config, count, env, slot, server, true),
        Reply::ClusterDown => {
            if env.attempts >= config.max_attempts {
                Action::Deliver { id: env.id, result: Err(RedisError::ClusterUnavailable) }
            } else {
                let attempts = env.attempts + 1;
                Action::Retry { envelope: Envelope { attempts, ..env } }
            }
        },
        Reply::Malformed => Action::Deliver { id: env.id, result: Err(RedisError::ProtocolError) },
    }
}

fn redirect(config: RouterConfig, slot_count: usize, env: Envelope, slot: u16, server: Server, asking: bool) -> (r: Action)
    ensures
        r == redirect_outcome(config, slot_count as int, env, slot, server, asking),
{
    if slot as usize >= slot_count {
        Action::Deliver { id: env.id, result: Err(RedisError::ProtocolError) }
    } else if env.redirections >= config.max_redirections {
        Action::Deliver { id: env.id, result: Err(RedisError::RedirectionLoop) }
    } else {
        let redirections = env.redirections + 1;
        Action::Send { server, envelope: Envelope { redirections, ..env }, asking }
    }
}

} // verus!
