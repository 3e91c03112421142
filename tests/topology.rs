use replica_router::server::Server;
use replica_router::slot::hash_slot;
use replica_router::topology::{ReplicaTable, Topology, CLUSTER_SLOTS};

#[test]
fn hash_slot_of_check_string() {
    assert_eq!(hash_slot(b"123456789"), 12739);
}

#[test]
fn hash_slot_of_known_keys() {
    assert_eq!(hash_slot(b"foo"), 12182);
    assert_eq!(hash_slot(b"bar"), 5061);
    assert_eq!(hash_slot(b""), 0);
}

#[test]
fn hash_tag_decides_slot() {
    assert_eq!(hash_slot(b"{user1000}.following"), hash_slot(b"user1000"));
    assert_eq!(hash_slot(b"foo{bar}baz"), hash_slot(b"bar"));
}

#[test]
fn empty_hash_tag_uses_whole_key() {
    let whole = hash_slot(b"foo{}{bar}");
    assert_ne!(whole, hash_slot(b"bar"));
    assert_eq!(hash_slot(b"{}"), hash_slot(b"{}"));
    assert_ne!(hash_slot(b"{}foo"), hash_slot(b"foo"));
}

#[test]
fn new_cluster_has_no_owners() {
    let t = Topology::cluster();
    assert!(t.is_cluster());
    assert_eq!(t.slot_count(), CLUSTER_SLOTS);
    assert!(t.lookup_primary(0).is_none());
    assert!(t.lookup_primary(16383).is_none());
    assert!(t.lookup_primary(16384).is_none());
    assert_eq!(t.replica_table().len(), 0);
}

#[test]
fn standalone_has_one_slot() {
    let a = Server::new("a", 6379);
    let t = Topology::standalone(a.clone());
    assert!(!t.is_cluster());
    assert_eq!(t.slot_count(), 1);
    assert!(t.lookup_primary(0).unwrap() == a);
    assert!(t.lookup_primary(1).is_none());
}

#[test]
fn assign_range_sets_only_the_range() {
    let a = Server::new("a", 30001);
    let mut t = Topology::cluster();
    t.assign_range(0, 5460, &a);
    assert!(t.lookup_primary(0).unwrap() == a);
    assert!(t.lookup_primary(5460).unwrap() == a);
    assert!(t.lookup_primary(5461).is_none());
}

#[test]
fn set_owner_replaces_one_slot() {
    let a = Server::new("a", 30001);
    let b = Server::new("b", 30002);
    let mut t = Topology::cluster();
    t.assign_range(0, 16383, &a);
    t.set_owner(100, &b);
    assert!(t.lookup_primary(100).unwrap() == b);
    assert!(t.lookup_primary(99).unwrap() == a);
    assert!(t.lookup_primary(101).unwrap() == a);
}

#[test]
fn replica_table_lists_each_replica_once() {
    let p = Server::new("p", 1);
    let q = Server::new("q", 2);
    let r1 = Server::new("r", 1);
    let r2 = Server::new("r", 2);
    let mut table = ReplicaTable::new();
    assert!(table.add(r1.clone(), p.clone()));
    assert!(table.add(r2.clone(), p.clone()));
    assert!(!table.add(r1.clone(), q.clone()));
    assert_eq!(table.len(), 2);
    assert!(table.primary_of(&r1).unwrap() == p);
    assert!(table.primary_of(&q).is_none());
    let rs = table.replicas_of(&p);
    assert_eq!(rs.len(), 2);
    assert!(rs[0] == r1 && rs[1] == r2);
    assert!(table.replicas_of(&q).is_empty());
    let pairs = table.snapshot().pairs();
    assert!(pairs[0].0 == r1 && pairs[0].1 == p);
    assert!(pairs[1].0 == r2 && pairs[1].1 == p);
}

#[test]
fn server_identity_is_host_and_port() {
    let a = Server::new("h", 1);
    assert!(a == Server::new("h", 1));
    assert!(a != Server::new("h", 2));
    assert!(a != Server::new("g", 1));
    assert!(a.same(&a.duplicate()));
}
