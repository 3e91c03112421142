use vstd::prelude::*;
use crate::server::{Server, ServerView};
use crate::topology::{Topology, TopologyView, owner_view, replicas_of, servers_view};

verus! {

/// The slot a command resolves through. In cluster mode it is the key's slot; a
/// command without a key goes through slot 0. Otherwise there is one slot.
pub open spec fn target_slot(cluster: bool, slot: Option<u16>) -> int {
    if cluster {
        match slot {
            Some(s) => s as int,
            None => 0,
        }
    } else {
        0
    }
}

/// The primary that owns the slot a command resolves through.
pub open spec fn owner_for(t: TopologyView, slot: Option<u16>) -> Option<ServerView> {
    let i = target_slot(t.cluster, slot);
    if 0 <= i < t.slots.len() {
        t.slots[i]
    } else {
        None
    }
}

/// Where a command goes. A command that may use a replica goes to one of its
/// primary's replicas, chosen by rotating through them with `rotation`; with no
/// replica known, or when it may not, it goes to the primary.
pub open spec fn route_spec(t: TopologyView, slot: Option<u16>, use_replica: bool, rotation: u64) -> Option<ServerView> {
    match owner_for(t, slot) {
        None => None,
        Some(p) => {
            let rs = replicas_of(t.replicas, p);
            if use_replica && rs.len() > 0 {
                Some(rs[(rotation as int) % (rs.len() as int)])
            } else {
                Some(p)
            }
        },
    }
}

/// The server a command is sent to; `None` when its slot has no owner.
pub fn route(topology: &Topology, slot: Option<u16>, use_replica: bool, rotation: u64) -> (r: Option<Server>)
    requires
        topology.wf(),
    ensures
        owner_view(r) == route_spec(topology@, slot, use_replica, rotation),
        owner_for(topology@, slot) is None ==> r is None,
        owner_for(topology@, slot) matches Some(p) ==> {
            let rs = replicas_of(topology@.replicas, p);
            &&& r is Some
            &&& (!use_replica || rs.len() == 0) ==> r.unwrap()@ == p
            &&& (use_replica && rs.len() > 0) ==> rs.contains(r.unwrap()@)
        },
{
    let index: usize = if topology.is_cluster() {
        match slot {
            Some(s) => s as usize,
            None => 0,
        }
    } else {
        0
    };
    match topology.lookup_primary(index) {
        None => None,
        Some(primary) => {
            if use_replica {
                let mut replicas = topology.lookup_replicas(&primary);
                let n = replicas.len();
                if n > 0 {
                    let k = (rotation % (n as u64)) as usize;
                    let chosen = replicas.swap_remove(k);
                    proof {
                        let rs = replicas_of(topology@.replicas, primary@);
                        assert(rs[k as int] == chosen@);
                    }
                    return Some(chosen);
                }
            }
            Some(primary)
        },
    }
}

} // verus!
