use vstd::prelude::*;
use crate::batch::{Outcome, all_filled, position_of, record_step};
use crate::command::{Command, Envelope, command_slot};
use crate::error::RedisError;
use crate::redirect::{Action, Reply, RouterConfig, outcome, topology_after};
use crate::routing::route_spec;
use crate::server::{Server, ServerView};
use crate::slot::key_slot;
use crate::topology::{ReplicaTable, TopologyView, primary_of, replicas_of, slot_count};

verus! {

/// A command whose key hashes into a slot goes to that slot's owner, or, when
/// it may use a replica and the owner has some, to one of the owner's replicas.
pub proof fn lemma_route_follows_slot_owner(
    t: TopologyView,
    key: Seq<u8>,
    use_replica: bool,
    rotation: u64,
)
    requires
        t.cluster,
        t.slots.len() == slot_count(true),
    ensures
        ({
            let owner = t.slots[key_slot(key) as int];
            let r = route_spec(t, Some(key_slot(key)), use_replica, rotation);
            &&& owner is None ==> r is None
            &&& owner matches Some(p) ==> {
                let rs = replicas_of(t.replicas, p);
                &&& (!use_replica || rs.len() == 0) ==> r == Some(p)
                &&& (use_replica && rs.len() > 0) ==> (r matches Some(s) && rs.contains(s))
            }
        }),
{
    let owner = t.slots[key_slot(key) as int];
    if let Some(p) = owner {
        let rs = replicas_of(t.replicas, p);
        if use_replica && rs.len() > 0 {
            let k = (rotation as int) % (rs.len() as int);
            assert(0 <= k < rs.len());
            assert(rs.contains(rs[k]));
        }
    }
}

/// A command with a key, sent through a client that does not prefer replicas,
/// goes to the primary that owns its key's slot; through one that does, to one
/// of that primary's replicas when it has any.
pub proof fn lemma_command_goes_to_slot_owner(t: TopologyView, c: Command, rotation: u64)
    requires
        t.cluster,
        t.slots.len() == slot_count(true),
        c.key is Some,
    ensures
        ({
            let owner = t.slots[key_slot(c.key.unwrap()@) as int];
            let r = route_spec(t, command_slot(c), c.use_replica, rotation);
            &&& !c.use_replica ==> r == owner
            &&& owner matches Some(p) ==> (c.use_replica && replicas_of(t.replicas, p).len() > 0 ==> (r matches Some(
                s,
            ) && replicas_of(t.replicas, p).contains(s)))
        }),
{
    lemma_route_follows_slot_owner(t, c.key.unwrap()@, c.use_replica, rotation);
}

/// After `Moved(slot, server)` the slot belongs to `server` for good: later
/// lookups of the slot give `server`, and the command is resent there while its
/// redirection budget lasts.
pub proof fn lemma_moved_is_standing(
    config: RouterConfig,
    t: TopologyView,
    env: Envelope,
    slot: u16,
    server: Server,
    rotation: u64,
)
    requires
        t.cluster,
        t.slots.len() == slot_count(true),
        (slot as int) < t.slots.len(),
    ensures
        topology_after(t, Reply::Moved(slot, server)).slots[slot as int] == Some(server@),
        route_spec(topology_after(t, Reply::Moved(slot, server)), Some(slot), false, rotation) == Some(
            server@,
        ),
        env.redirections < config.max_redirections ==> (outcome(
            config,
            t.slots.len() as int,
            env,
            Reply::Moved(slot, server),
        ) matches Action::Send { server: s, asking, .. } && s == server && !asking),
{
}

/// `Ask` never changes the topology.
pub proof fn lemma_ask_keeps_topology(t: TopologyView, slot: u16, server: Server)
    ensures
        topology_after(t, Reply::Ask(slot, server)) == t,
{
}

/// Whether a reply redirects to a slot of the table.
pub open spec fn redirects_within(r: Reply, slots: int) -> bool {
    match r {
        Reply::Moved(s, _) => (s as int) < slots,
        Reply::Ask(s, _) => (s as int) < slots,
        _ => false,
    }
}

/// Where a command ends after it receives `replies` one after another, each in
/// answer to the send that the previous one caused; `None` while it is still
/// in flight.
pub open spec fn after_replies(config: RouterConfig, slots: int, env: Envelope, replies: Seq<Reply>) -> Option<Action>
    decreases replies.len(),
{
    if replies.len() == 0 {
        None
    } else {
        match outcome(config, slots, env, replies[0]) {
            Action::Send { envelope, .. } => after_replies(config, slots, envelope, replies.drop_first()),
            a => Some(a),
        }
    }
}

/// A command redirected more often than its budget allows fails with
/// `RedirectionLoop`, however the redirections go round.
pub proof fn lemma_redirection_loop_ends(config: RouterConfig, slots: int, env: Envelope, replies: Seq<Reply>)
    requires
        env.redirections <= config.max_redirections,
        forall|i: int| 0 <= i < replies.len() ==> redirects_within(#[trigger] replies[i], slots),
        replies.len() + env.redirections > config.max_redirections,
    ensures
        after_replies(config, slots, env, replies) == Some(
            Action::Deliver { id: env.id, result: Err(RedisError::RedirectionLoop) },
        ),
    decreases replies.len(),
{
    assert(redirects_within(replies[0], slots));
    if env.redirections < config.max_redirections {
        let next = Envelope { redirections: (env.redirections + 1) as u32, ..env };
        match replies[0] {
            Reply::Moved(sl, sv) => {
                assert(outcome(config, slots, env, replies[0]) == Action::Send { server: sv, envelope: next, asking: false });
            },
            Reply::Ask(sl, sv) => {
                assert(outcome(config, slots, env, replies[0]) == Action::Send { server: sv, envelope: next, asking: true });
            },
            _ => {},
        }
        let rest = replies.drop_first();
        assert forall|i: int| 0 <= i < rest.len() implies redirects_within(#[trigger] rest[i], slots) by {
            assert(rest[i] == replies[i + 1]);
        }
        lemma_redirection_loop_ends(config, slots, next, rest);
    }
}

/// The slots of a batch after recording each result of `recs`, first to last.
pub open spec fn record_all(slots: Seq<Option<Outcome>>, recs: Seq<(int, Outcome)>) -> Seq<Option<Outcome>>
    decreases recs.len(),
{
    if recs.len() == 0 {
        slots
    } else {
        let prev = record_all(slots, recs.drop_last());
        record_step(prev, recs.last().0, recs.last().1)
    }
}

/// Whether some result of `recs` is for position `i`.
pub open spec fn has_result(recs: Seq<(int, Outcome)>, i: int) -> bool {
    exists|j: int| 0 <= j < recs.len() && #[trigger] recs[j].0 == i
}

/// Whether `recs` gives each position of a batch of `n` exactly one result.
pub open spec fn one_result_each(n: int, recs: Seq<(int, Outcome)>) -> bool {
    &&& forall|j: int| 0 <= j < recs.len() ==> 0 <= #[trigger] recs[j].0 < n
    &&& forall|j: int, k: int| 0 <= j < k < recs.len() ==> recs[j].0 != recs[k].0
    &&& forall|i: int| 0 <= i < n ==> #[trigger] has_result(recs, i)
}

proof fn lemma_record_all(n: int, recs: Seq<(int, Outcome)>)
    requires
        n >= 0,
        forall|j: int| 0 <= j < recs.len() ==> 0 <= #[trigger] recs[j].0 < n,
        forall|j: int, k: int| 0 <= j < k < recs.len() ==> recs[j].0 != recs[k].0,
    ensures
        ({
            let s = record_all(Seq::new(n as nat, |i: int| None::<Outcome>), recs);
            &&& s.len() == n
            &&& forall|j: int| 0 <= j < recs.len() ==> s[#[trigger] recs[j].0] == Some(recs[j].1)
            &&& forall|i: int| 0 <= i < n && (forall|j: int| 0 <= j < recs.len() ==> recs[j].0 != i) ==> (
            #[trigger] s[i]) is None
        }),
    decreases recs.len(),
{
    if recs.len() > 0 {
        let init = Seq::new(n as nat, |i: int| None::<Outcome>);
        let front = recs.drop_last();
        assert forall|j: int| 0 <= j < front.len() implies 0 <= #[trigger] front[j].0 < n by {
            assert(front[j] == recs[j]);
        }
        lemma_record_all(n, front);
        let prev = record_all(init, front);
        let last = recs.last();
        assert(forall|j: int| 0 <= j < front.len() ==> front[j] == recs[j]);
        assert(recs[recs.len() - 1] == last);
        assert forall|j: int| 0 <= j < front.len() implies front[j].0 != last.0 by {
            assert(recs[j].0 != recs[recs.len() - 1].0);
        }
        assert(prev[last.0] is None);
        let s = record_all(init, recs);
        assert forall|j: int| 0 <= j < recs.len() implies s[#[trigger] recs[j].0] == Some(recs[j].1) by {
            if j < recs.len() - 1 {
                assert(front[j] == recs[j]);
            }
        }
    }
}

/// However the results of a batch arrive, once each position has had one the
/// batch is complete and position `i` holds the result recorded for it, so the
/// results come out in submission order.
pub proof fn lemma_batch_keeps_order(n: nat, recs: Seq<(int, Outcome)>)
    requires
        one_result_each(n as int, recs),
    ensures
        ({
            let s = record_all(Seq::new(n, |i: int| None::<Outcome>), recs);
            &&& s.len() == n
            &&& all_filled(s)
            &&& forall|j: int| 0 <= j < recs.len() ==> s[#[trigger] recs[j].0] == Some(recs[j].1)
        }),
{
    lemma_record_all(n as int, recs);
    let s = record_all(Seq::new(n, |i: int| None::<Outcome>), recs);
    assert forall|i: int| 0 <= i < s.len() implies #[trigger] s[i] is Some by {
        assert(has_result(recs, i));
        let j = choose|j: int| 0 <= j < recs.len() && #[trigger] recs[j].0 == i;
        assert(s[recs[j].0] == Some(recs[j].1));
    }
}

/// The positions that results delivered by caller id go to, in a batch of
/// `n` whose ids start at `first_id`.
pub open spec fn by_position(first_id: u64, n: int, deliveries: Seq<(u64, Outcome)>) -> Seq<(int, Outcome)> {
    deliveries.map_values(|d: (u64, Outcome)| (position_of(first_id, d.0, n), d.1))
}

/// Whether some delivery is for caller id `id`.
pub open spec fn delivered(deliveries: Seq<(u64, Outcome)>, id: int) -> bool {
    exists|j: int| 0 <= j < deliveries.len() && #[trigger] deliveries[j].0 == id
}

/// However the results of a sent pipeline of `n` commands arrive, once each
/// of its ids has had one, the run is complete, has `n` results, and position
/// `i` holds the result delivered for the command submitted at `i`.
pub proof fn lemma_pipeline_keeps_order(first_id: u64, n: nat, deliveries: Seq<(u64, Outcome)>)
    requires
        first_id + n <= u64::MAX,
        forall|j: int| 0 <= j < deliveries.len() ==> first_id <= #[trigger] deliveries[j].0 < first_id + n,
        forall|j: int, k: int| 0 <= j < k < deliveries.len() ==> deliveries[j].0 != deliveries[k].0,
        forall|i: int| 0 <= i < n ==> #[trigger] delivered(deliveries, first_id + i),
    ensures
        ({
            let s = record_all(Seq::new(n, |i: int| None::<Outcome>), by_position(first_id, n as int, deliveries));
            &&& s.len() == n
            &&& all_filled(s)
            &&& forall|j: int| 0 <= j < deliveries.len() ==> s[#[trigger] deliveries[j].0 - first_id] == Some(
                deliveries[j].1,
            )
        }),
{
    let recs = by_position(first_id, n as int, deliveries);
    assert forall|j: int| 0 <= j < recs.len() implies 0 <= #[trigger] recs[j].0 < n && recs[j].0 == deliveries[j].0
        - first_id by {
        assert(first_id <= deliveries[j].0 < first_id + n);
    }
    assert forall|j: int, k: int| 0 <= j < k < recs.len() implies recs[j].0 != recs[k].0 by {
        assert(recs[j].0 == deliveries[j].0 - first_id);
        assert(recs[k].0 == deliveries[k].0 - first_id);
        assert(deliveries[j].0 != deliveries[k].0);
    }
    assert forall|i: int| 0 <= i < n implies #[trigger] has_result(recs, i) by {
        assert(delivered(deliveries, first_id + i));
        let j = choose|j: int| 0 <= j < deliveries.len() && #[trigger] deliveries[j].0 == first_id + i;
        assert(recs[j].0 == deliveries[j].0 - first_id);
    }
    lemma_batch_keeps_order(n, recs);
    let s = record_all(Seq::new(n, |i: int| None::<Outcome>), recs);
    assert forall|j: int| 0 <= j < deliveries.len() implies s[#[trigger] deliveries[j].0 - first_id] == Some(
        deliveries[j].1,
    ) by {
        assert(recs[j].0 == deliveries[j].0 - first_id);
        assert(recs[j].1 == deliveries[j].1);
        assert(s[recs[j].0] == Some(recs[j].1));
    }
}

/// Installing a rebuilt replica table replaces it whole: afterwards every
/// replica's primary, and every primary's replicas, are those of the new table,
/// and the slot table is untouched.
pub proof fn lemma_resync_replaces_whole_table(t: TopologyView, table: ReplicaTable, replica: ServerView, primary: ServerView)
    ensures
        ({
            let after = TopologyView { replicas: table@, ..t };
            &&& primary_of(after.replicas, replica) == primary_of(table@, replica)
            &&& replicas_of(after.replicas, primary) == replicas_of(table@, primary)
            &&& after.slots == t.slots
            &&& after.cluster == t.cluster
        }),
{
}

} // verus!
