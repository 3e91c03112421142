use std::sync::Arc;

use replica_router::batch::BatchRun;
use replica_router::clients::{ClientInner, ClientLike, Pipeline, RedisClient, Replicas};
use replica_router::command::{Command, Envelope};
use replica_router::connection::ConnState;
use replica_router::error::RedisError;
use replica_router::redirect::{Action, Reply, RouterConfig};
use replica_router::router::Router;
use replica_router::server::Server;
use replica_router::slot::hash_slot;
use replica_router::topology::{ReplicaTable, Topology};

fn config() -> RouterConfig {
    RouterConfig { max_redirections: 3, max_attempts: 2 }
}

fn envelope(id: u64, slot: u16, use_replica: bool) -> Envelope {
    let mut c = Command::new("GET", None);
    c.use_replica = use_replica;
    let mut e = Envelope::new(id, c);
    e.slot = Some(slot);
    e
}

#[test]
fn moved_example_resends_and_updates_table() {
    let a = Server::new("a", 1);
    let b = Server::new("b", 2);
    let mut t = Topology::cluster();
    t.assign_range(100, 100, &a);
    let mut router = Router::new(t, config());
    let sent = router.dispatch(envelope(7, 100, false)).ok().unwrap();
    assert!(sent == a);
    let act = router.on_reply(&a, Reply::Moved(100, b.clone())).unwrap();
    let env = match act {
        Action::Send { server, envelope, asking } => {
            assert!(server == b);
            assert!(!asking);
            envelope
        }
        other => panic!("unexpected {:?}", other),
    };
    assert!(router.topology().lookup_primary(100).unwrap() == b);
    router.send_to(b.clone(), env);
    let done = router.on_reply(&b, Reply::Value(b"2".to_vec())).unwrap();
    assert!(matches!(done, Action::Deliver { id: 7, result: Ok(ref v) } if v == b"2"));
    let again = router.dispatch(envelope(8, 100, false)).ok().unwrap();
    assert!(again == b);
}

#[test]
fn dispatch_to_unassigned_slot_fails() {
    let mut router = Router::new(Topology::cluster(), config());
    let act = router.dispatch(envelope(1, 5, false)).err().unwrap();
    assert!(matches!(act, Action::Deliver { id: 1, result: Err(RedisError::ClusterUnavailable) }));
    assert_eq!(router.connection_count(), 0);
}

#[test]
fn dispatch_by_key_reaches_owner() {
    let a = Server::new("a", 1);
    let b = Server::new("b", 2);
    let mut t = Topology::cluster();
    t.assign_range(0, 5460, &a);
    t.assign_range(5461, 16383, &b);
    let mut router = Router::new(t, config());
    let e = Envelope::new(1, Command::new("GET", Some(b"bar".to_vec())));
    assert_eq!(e.slot, Some(5061));
    assert!(router.dispatch(e).ok().unwrap() == a);
    let e = Envelope::new(2, Command::new("GET", Some(b"foo".to_vec())));
    assert_eq!(e.slot, Some(hash_slot(b"foo")));
    assert!(router.dispatch(e).ok().unwrap() == b);
    assert_eq!(router.connection_count(), 2);
}

#[test]
fn reply_without_pending_command_is_ignored() {
    let a = Server::new("a", 1);
    let mut router = Router::new(Topology::standalone(a.clone()), config());
    assert!(router.on_reply(&a, Reply::Value(vec![])).is_none());
}

#[test]
fn lost_connection_requeues_all_pending() {
    let a = Server::new("a", 1);
    let mut router = Router::new(Topology::standalone(a.clone()), config());
    for id in 0..4 {
        router.dispatch(envelope(id, 0, false)).ok().unwrap();
    }
    assert_eq!(router.connection(0).pending_len(), 4);
    let acts = router.on_closed(&a);
    assert_eq!(acts.len(), 4);
    for (i, act) in acts.iter().enumerate() {
        assert!(matches!(act, Action::Retry { envelope } if envelope.id == i as u64 && envelope.redirections == 1));
    }
    assert_eq!(router.connection(0).state(), ConnState::Closed);
    assert_eq!(router.connection(0).pending_len(), 0);
    assert!(router.on_closed(&Server::new("z", 9)).is_empty());
}

#[test]
fn resync_swaps_table_and_resets_replica_connections() {
    let a = Server::new("a", 1);
    let r1 = Server::new("r1", 1);
    let r2 = Server::new("r2", 1);
    let mut t = Topology::standalone(a.clone());
    let mut old = ReplicaTable::new();
    old.add(r1.clone(), a.clone());
    t.replace_replicas(old);
    let mut router = Router::new(t, config());
    assert!(router.dispatch(envelope(1, 0, true)).ok().unwrap() == r1);
    assert!(router.dispatch(envelope(2, 0, false)).ok().unwrap() == a);
    let mut fresh = ReplicaTable::new();
    fresh.add(r2.clone(), a.clone());
    let acts = router.resync(fresh);
    assert_eq!(acts.len(), 1);
    assert!(matches!(&acts[0], Action::Retry { envelope } if envelope.id == 1));
    let i = router.find(&r1).unwrap();
    assert_eq!(router.connection(i).state(), ConnState::Closed);
    let j = router.find(&a).unwrap();
    assert_eq!(router.connection(j).pending_len(), 1);
    let table = router.snapshot().replica_table();
    assert_eq!(table.len(), 1);
    assert!(table.primary_of(&r2).unwrap() == a);
    assert!(table.primary_of(&r1).is_none());
    assert!(router.dispatch(envelope(3, 0, true)).ok().unwrap() == r2);
}

fn shared(table: ReplicaTable) -> Arc<ClientInner> {
    let a = Server::new("a", 1);
    let mut t = Topology::standalone(a);
    t.replace_replicas(table);
    Arc::new(ClientInner { id: "c1".to_string(), topology: t })
}

#[test]
fn replicas_nodes_copies_table() {
    let mut table = ReplicaTable::new();
    table.add(Server::new("r", 1), Server::new("a", 1));
    let replicas = Replicas::from_inner(&shared(table));
    let nodes = replicas.nodes();
    assert_eq!(nodes.len(), 1);
    assert!(nodes.primary_of(&Server::new("r", 1)).unwrap() == Server::new("a", 1));
}

#[test]
fn replicas_mark_commands_for_replicas() {
    let replicas = Replicas::from_inner(&shared(ReplicaTable::new()));
    let mut c = Command::new("GET", Some(b"k".to_vec()));
    replicas.change_command(&mut c);
    assert!(c.use_replica);
    let client = replicas.client();
    let mut d = Command::new("GET", None);
    client.change_command(&mut d);
    assert!(!d.use_replica);
    assert!(Arc::ptr_eq(client.inner(), replicas.inner()));
}

#[test]
fn replica_pipeline_carries_hint() {
    let replicas = Replicas::from_inner(&shared(ReplicaTable::new()));
    let mut p: Pipeline<Replicas> = replicas.pipeline();
    p.push(Command::new("GET", Some(b"foo".to_vec())));
    p.push(Command::new("GET", Some(b"bar".to_vec())));
    assert_eq!(p.len(), 2);
    let envs = p.into_envelopes(10);
    assert_eq!(envs.len(), 2);
    assert_eq!(envs[0].id, 10);
    assert_eq!(envs[1].id, 11);
    assert!(envs[0].command.use_replica && envs[1].command.use_replica);
    assert_eq!(envs[0].slot, Some(12182));
    assert_eq!(envs[1].slot, Some(5061));
}

#[test]
fn primary_pipeline_leaves_hint_off() {
    let inner = shared(ReplicaTable::new());
    let client = RedisClient::from_inner(&inner);
    let mut p = client.pipeline();
    p.push(Command::new("SET", Some(b"k".to_vec())));
    let envs = p.into_envelopes(0);
    assert!(!envs[0].command.use_replica);
    let back = client.replicas();
    assert!(Arc::ptr_eq(back.inner(), &inner));
}

#[test]
fn connection_becomes_ready() {
    let a = Server::new("a", 1);
    let mut router = Router::new(Topology::standalone(a.clone()), config());
    assert!(!router.on_connected(&a));
    router.dispatch(envelope(1, 0, false)).ok().unwrap();
    assert_eq!(router.connection(0).state(), ConnState::Connecting);
    assert!(router.on_connected(&a));
    assert_eq!(router.connection(0).state(), ConnState::Ready);
    assert_eq!(router.connection(0).pending_len(), 1);
}

#[test]
fn replica_dispatch_rotates_through_replicas() {
    let a = Server::new("a", 1);
    let r1 = Server::new("r1", 1);
    let r2 = Server::new("r2", 1);
    let mut t = Topology::standalone(a.clone());
    let mut table = ReplicaTable::new();
    table.add(r1.clone(), a.clone());
    table.add(r2.clone(), a.clone());
    t.replace_replicas(table);
    let mut router = Router::new(t, config());
    assert!(router.dispatch(envelope(1, 0, true)).ok().unwrap() == r1);
    assert!(router.dispatch(envelope(2, 0, false)).ok().unwrap() == a);
    assert!(router.dispatch(envelope(3, 0, true)).ok().unwrap() == r2);
    assert!(router.dispatch(envelope(4, 0, true)).ok().unwrap() == r1);
    assert_eq!(router.connection_count(), 3);
}

#[test]
fn from_shared_state_builds_facades() {
    let inner = shared(ReplicaTable::new());
    let replicas = Replicas::from(&inner);
    let client = RedisClient::from(&inner);
    assert!(Arc::ptr_eq(replicas.inner(), client.inner()));
    assert_eq!(replicas.nodes().len(), 0);
}

#[test]
fn pipeline_results_follow_submission_order() {
    let replicas = Replicas::from_inner(&shared(ReplicaTable::new()));
    let mut p = replicas.pipeline();
    p.push(Command::new("GET", Some(b"a".to_vec())));
    p.push(Command::new("GET", Some(b"b".to_vec())));
    p.push(Command::new("GET", Some(b"c".to_vec())));
    let (envs, mut run) = p.run(40);
    assert_eq!(envs.len(), 3);
    assert_eq!(envs[2].id, 42);
    assert!(run.complete(42, Ok(b"c".to_vec())));
    assert!(run.complete(40, Ok(b"a".to_vec())));
    assert!(!run.is_complete());
    assert!(!run.complete(43, Ok(vec![])));
    assert!(!run.complete(39, Ok(vec![])));
    assert!(!run.complete(40, Ok(vec![])));
    let run = run.finish().err().unwrap();
    let mut run: BatchRun = run;
    assert!(run.complete(41, Err(RedisError::RedirectionLoop)));
    let out = run.finish().ok().unwrap();
    assert_eq!(out, vec![Ok(b"a".to_vec()), Err(RedisError::RedirectionLoop), Ok(b"c".to_vec())]);
}

#[test]
fn dispatch_leaves_other_connections_alone() {
    let a = Server::new("a", 1);
    let b = Server::new("b", 2);
    let mut t = Topology::cluster();
    t.assign_range(0, 99, &a);
    t.assign_range(100, 16383, &b);
    let mut router = Router::new(t, config());
    router.dispatch(envelope(1, 5, false)).ok().unwrap();
    router.dispatch(envelope(2, 500, false)).ok().unwrap();
    router.dispatch(envelope(3, 6, false)).ok().unwrap();
    let ia = router.find(&a).unwrap();
    let ib = router.find(&b).unwrap();
    assert_eq!(router.connection(ia).pending_len(), 2);
    assert_eq!(router.connection(ib).pending_len(), 1);
    let act = router.on_reply(&a, Reply::Value(vec![])).unwrap();
    assert!(matches!(act, Action::Deliver { id: 1, .. }));
    assert_eq!(router.connection(ib).pending_len(), 1);
    router.on_closed(&b);
    assert_eq!(router.connection(ia).pending_len(), 1);
    assert_eq!(router.connection(ia).state(), ConnState::Connecting);
}

#[test]
fn resync_keeps_connection_of_a_slot_owner() {
    let a = Server::new("a", 1);
    let b = Server::new("b", 2);
    let mut t = Topology::cluster();
    t.assign_range(0, 16383, &a);
    let mut listed = ReplicaTable::new();
    listed.add(a.clone(), b.clone());
    t.replace_replicas(listed);
    let mut router = Router::new(t, config());
    router.dispatch(envelope(1, 0, false)).ok().unwrap();
    let acts = router.resync(ReplicaTable::new());
    assert!(acts.is_empty());
    let i = router.find(&a).unwrap();
    assert_eq!(router.connection(i).pending_len(), 1);
    assert_eq!(router.connection(i).state(), ConnState::Connecting);
}
