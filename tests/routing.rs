use replica_router::batch::Batch;
use replica_router::command::{Command, Envelope};
use replica_router::connection::{requeue_all, ConnState, Connection};
use replica_router::error::RedisError;
use replica_router::redirect::{handle_reply, Action, Reply, RouterConfig};
use replica_router::routing::route;
use replica_router::server::Server;
use replica_router::slot::hash_slot;
use replica_router::topology::{ReplicaTable, Topology};

fn config() -> RouterConfig {
    RouterConfig { max_redirections: 3, max_attempts: 2 }
}

fn cluster_of(a: &Server) -> Topology {
    let mut t = Topology::cluster();
    t.assign_range(0, 16383, a);
    t
}

fn envelope(id: u64, slot: u16) -> Envelope {
    let mut e = Envelope::new(id, Command::new("GET", None));
    e.slot = Some(slot);
    e
}

#[test]
fn route_goes_to_slot_owner() {
    let a = Server::new("a", 1);
    let b = Server::new("b", 2);
    let mut t = Topology::cluster();
    t.assign_range(0, 8191, &a);
    t.assign_range(8192, 16383, &b);
    assert!(route(&t, Some(hash_slot(b"bar")), false, 0).unwrap() == a);
    assert!(route(&t, Some(hash_slot(b"foo")), false, 0).unwrap() == b);
    assert!(route(&t, None, false, 0).unwrap() == a);
}

#[test]
fn route_to_unassigned_slot_is_none() {
    let t = Topology::cluster();
    assert!(route(&t, Some(7), false, 0).is_none());
    assert!(route(&t, Some(7), true, 0).is_none());
}

#[test]
fn replica_routing_rotates_and_falls_back() {
    let a = Server::new("a", 1);
    let r1 = Server::new("r1", 1);
    let r2 = Server::new("r2", 1);
    let mut t = cluster_of(&a);
    assert!(route(&t, Some(5), true, 0).unwrap() == a);
    let mut table = ReplicaTable::new();
    table.add(r1.clone(), a.clone());
    table.add(r2.clone(), a.clone());
    t.replace_replicas(table);
    assert!(route(&t, Some(5), true, 0).unwrap() == r1);
    assert!(route(&t, Some(5), true, 1).unwrap() == r2);
    assert!(route(&t, Some(5), true, 2).unwrap() == r1);
    assert!(route(&t, Some(5), false, 1).unwrap() == a);
}

#[test]
fn standalone_routes_every_command_to_primary() {
    let a = Server::new("a", 6379);
    let t = Topology::standalone(a.clone());
    assert!(route(&t, Some(12182), false, 0).unwrap() == a);
    assert!(route(&t, None, true, 3).unwrap() == a);
}

#[test]
fn moved_updates_slot_and_resends() {
    let a = Server::new("a", 1);
    let b = Server::new("b", 2);
    let mut t = cluster_of(&a);
    let act = handle_reply(config(), &mut t, envelope(9, 100), Reply::Moved(100, b.clone()));
    match act {
        Action::Send { server, envelope, asking } => {
            assert!(server == b);
            assert_eq!(envelope.id, 9);
            assert_eq!(envelope.redirections, 1);
            assert!(!asking);
        }
        other => panic!("unexpected {:?}", other),
    }
    assert!(t.lookup_primary(100).unwrap() == b);
    assert!(t.lookup_primary(101).unwrap() == a);
}

#[test]
fn ask_leaves_topology_alone() {
    let a = Server::new("a", 1);
    let b = Server::new("b", 2);
    let mut t = cluster_of(&a);
    let act = handle_reply(config(), &mut t, envelope(4, 100), Reply::Ask(100, b.clone()));
    match act {
        Action::Send { server, envelope, asking } => {
            assert!(server == b);
            assert_eq!(envelope.redirections, 1);
            assert!(asking);
        }
        other => panic!("unexpected {:?}", other),
    }
    assert!(t.lookup_primary(100).unwrap() == a);
}

#[test]
fn circular_moves_end_in_redirection_loop() {
    let a = Server::new("a", 1);
    let b = Server::new("b", 2);
    let mut t = cluster_of(&a);
    let mut env = envelope(1, 100);
    let mut outcome = None;
    for step in 0..10 {
        let to = if step % 2 == 0 { b.clone() } else { a.clone() };
        match handle_reply(config(), &mut t, env, Reply::Moved(100, to)) {
            Action::Send { envelope, .. } => env = envelope,
            other => {
                outcome = Some((step, other));
                break;
            }
        }
    }
    let (step, act) = outcome.expect("the loop must end");
    assert_eq!(step, 3);
    assert!(matches!(act, Action::Deliver { id: 1, result: Err(RedisError::RedirectionLoop) }));
}

#[test]
fn redirect_outside_slot_table_is_protocol_error() {
    let a = Server::new("a", 1);
    let mut t = cluster_of(&a);
    let act = handle_reply(config(), &mut t, envelope(2, 1), Reply::Moved(20000, a.clone()));
    assert!(matches!(act, Action::Deliver { id: 2, result: Err(RedisError::ProtocolError) }));
    let act = handle_reply(config(), &mut t, envelope(3, 1), Reply::Malformed);
    assert!(matches!(act, Action::Deliver { id: 3, result: Err(RedisError::ProtocolError) }));
}

#[test]
fn cluster_down_retries_then_fails() {
    let a = Server::new("a", 1);
    let mut t = cluster_of(&a);
    let mut env = envelope(5, 1);
    for n in 1..=2 {
        match handle_reply(config(), &mut t, env, Reply::ClusterDown) {
            Action::Retry { envelope } => {
                assert_eq!(envelope.attempts, n);
                env = envelope;
            }
            other => panic!("unexpected {:?}", other),
        }
    }
    let act = handle_reply(config(), &mut t, env, Reply::ClusterDown);
    assert!(matches!(act, Action::Deliver { id: 5, result: Err(RedisError::ClusterUnavailable) }));
}

#[test]
fn value_reply_is_delivered() {
    let a = Server::new("a", 1);
    let mut t = cluster_of(&a);
    let act = handle_reply(config(), &mut t, envelope(6, 1), Reply::Value(vec![1, 2]));
    match act {
        Action::Deliver { id, result } => {
            assert_eq!(id, 6);
            assert_eq!(result, Ok(vec![1, 2]));
        }
        other => panic!("unexpected {:?}", other),
    }
}

#[test]
fn connection_replies_pair_in_order() {
    let mut c = Connection::new(Server::new("a", 1));
    assert_eq!(c.state(), ConnState::Connecting);
    c.mark_ready();
    c.enqueue(envelope(1, 0));
    c.enqueue(envelope(2, 0));
    assert_eq!(c.take_next().unwrap().id, 1);
    assert_eq!(c.take_next().unwrap().id, 2);
    assert!(c.take_next().is_none());
}

#[test]
fn closed_connection_requeues_every_pending_command() {
    let mut c = Connection::new(Server::new("a", 1));
    c.enqueue(envelope(1, 0));
    let mut spent = envelope(2, 0);
    spent.redirections = 3;
    c.enqueue(spent);
    c.enqueue(envelope(3, 0));
    let pending = c.close();
    assert_eq!(c.state(), ConnState::Closed);
    assert_eq!(c.pending_len(), 0);
    let acts = requeue_all(config(), pending);
    assert_eq!(acts.len(), 3);
    assert!(matches!(&acts[0], Action::Retry { envelope } if envelope.id == 1 && envelope.redirections == 1));
    assert!(matches!(&acts[1], Action::Deliver { id: 2, result: Err(RedisError::ConnectionFailed) }));
    assert!(matches!(&acts[2], Action::Retry { envelope } if envelope.id == 3 && envelope.redirections == 1));
}

#[test]
fn batch_results_keep_submission_order() {
    let mut b = Batch::new(3);
    assert!(b.record(2, Ok(vec![3])));
    assert!(!b.is_complete());
    assert!(b.record(0, Ok(vec![1])));
    assert!(b.record(1, Err(RedisError::Timeout)));
    assert!(!b.record(1, Ok(vec![9])));
    assert!(!b.record(3, Ok(vec![9])));
    assert!(b.is_complete());
    let out = b.finish().ok().unwrap();
    assert_eq!(out, vec![Ok(vec![1]), Err(RedisError::Timeout), Ok(vec![3])]);
}

#[test]
fn unfinished_batch_is_handed_back() {
    let mut b = Batch::new(2);
    b.record(1, Ok(vec![]));
    let back = b.finish().err().unwrap();
    assert_eq!(back.len(), 2);
}

#[test]
fn empty_batch_finishes_at_once() {
    let b = Batch::new(0);
    assert!(b.finish().ok().unwrap().is_empty());
}

#[test]
fn error_names() {
    assert_eq!(RedisError::RedirectionLoop.name(), "too many redirections");
    assert_eq!(RedisError::Cancelled.name(), "cancelled");
}
