//! What follows from the protocol for every state and every message.

use crate::message::{Envelope, Payload};
use crate::protocol::{
    answers, filed, gossip, id_after, next_state, refusal, replies, settled, stash, succ, sweeps,
    targets, State,
};
use crate::repo::{adjacent, among, listed, other_than};
use vstd::prelude::*;

verus! {

/// An `echo` is answered by its own text, and the answer refers to the id
/// of the request.
pub proof fn lemma_echo_comes_back(
    pre: State,
    msg: Envelope,
    minted: Seq<char>,
    reply: Option<Envelope>,
    text: Seq<char>,
)
    requires
        msg.payload == Payload::Echo(text),
        replies(pre, msg, minted, reply),
    ensures
        refusal(pre, msg) is None,
        reply is Some,
        reply->0.payload == Payload::EchoOk(text),
        reply->0.in_reply_to == msg.msg_id,
        reply->0.src == msg.dest,
        reply->0.dest == msg.src,
{
}

/// A value that is broadcast to a registered node twice, by whichever
/// senders, is afterwards among the values it has observed, and every
/// answer to `read` lists it exactly once.
pub proof fn lemma_broadcast_twice_read_once(
    pre: State,
    first: Envelope,
    second: Envelope,
    value: usize,
    read: Envelope,
    minted: Seq<char>,
    answer: Payload,
)
    requires
        pre.me is Some,
        first.payload == Payload::Broadcast(value),
        second.payload == Payload::Broadcast(value),
        read.payload == Payload::Read,
        answers(next_state(next_state(pre, first), second), read, minted, answer),
    ensures
        next_state(next_state(pre, first), second).seen == pre.seen.insert(value),
        answer is ReadOk,
        exists|at: int| 0 <= at < answer->ReadOk_0.len() && answer->ReadOk_0[at] == value,
        forall|i: int, j: int|
            0 <= i < answer->ReadOk_0.len() && 0 <= j < answer->ReadOk_0.len()
                && answer->ReadOk_0[i] == value && answer->ReadOk_0[j] == value ==> i == j,
{
}

/// A broadcast of a value that the node holds already causes no gossip:
/// the value is acknowledged, and neither the observed values nor the
/// outbox change.
pub proof fn lemma_duplicate_is_not_spread(
    pre: State,
    msg: Envelope,
    value: usize,
    minted: Seq<char>,
    reply: Option<Envelope>,
)
    requires
        pre.me is Some,
        pre.seen.contains(value),
        msg.payload == Payload::Broadcast(value),
        replies(pre, msg, minted, reply),
    ensures
        gossip(pre, msg) == Seq::<Envelope>::empty(),
        reply is Some,
        reply->0.payload == Payload::BroadcastOk,
        next_state(pre, msg) == (State { next_id: succ(pre.next_id), ..pre }),
{
    assert(pre.seen.insert(value) =~= pre.seen);
}

/// A node that has been registered and has done nothing else answers
/// `read` with the empty list.
pub proof fn lemma_read_after_init_is_empty(
    pre: State,
    init: Envelope,
    read: Envelope,
    minted: Seq<char>,
    answer: Payload,
)
    requires
        init.payload is Init,
        read.payload == Payload::Read,
        answers(next_state(pre, init), read, minted, answer),
    ensures
        refusal(next_state(pre, init), read) is None,
        answer == Payload::ReadOk(Seq::empty()),
{
    let values = answer->ReadOk_0;
    if values.len() > 0 {
        assert(values.to_set().contains(values[0]));
    }
    assert(values =~= Seq::<usize>::empty());
}

/// Setting an adjacency and then another leaves the second alone: the
/// state is the one that the second gives on its own, but for the id that
/// the first reply took, and whom a node gossips to is read from the
/// second adjacency only.
pub proof fn lemma_topology_is_replaced(
    pre: State,
    first: Envelope,
    second: Envelope,
    wiring: Seq<(Seq<char>, Seq<Seq<char>>)>,
    id: Seq<char>,
)
    requires
        first.payload is Topology,
        second.payload == Payload::Topology(wiring),
    ensures
        next_state(next_state(pre, first), second).wiring == Some(wiring),
        next_state(next_state(pre, first), second) == (State {
            next_id: succ(succ(pre.next_id)),
            ..next_state(pre, second)
        }),
        adjacent(
            next_state(next_state(pre, first), second).wiring,
            next_state(next_state(pre, first), second).roster,
            id,
        ) == listed(wiring, id).filter(among(pre.roster)),
{
}

/// How many ids there are.
pub open spec fn id_count() -> int {
    usize::MAX + 1
}

/// The id taken after `count` others is `count` steps on from the first,
/// counted round the circle of ids.
pub proof fn lemma_id_after_counts(start: usize, count: nat)
    ensures
        id_after(start, count) == (start + count) % id_count(),
    decreases count,
{
    let m = id_count();
    if count == 0 {
        vstd::arithmetic::div_mod::lemma_small_mod(start as nat, m as nat);
    } else {
        lemma_id_after_counts(start, (count - 1) as nat);
        let earlier = (start + count - 1) % m;
        vstd::arithmetic::div_mod::lemma_add_mod_noop(start + count - 1, 1, m);
        vstd::arithmetic::div_mod::lemma_small_mod(1, m as nat);
        if earlier == m - 1 {
            vstd::arithmetic::div_mod::lemma_mod_self_0(m);
        } else {
            vstd::arithmetic::div_mod::lemma_small_mod((earlier + 1) as nat, m as nat);
        }
    }
}

/// Ids do not repeat: two messages of one node carry different ids, as
/// long as fewer ids lie between them than there are ids at all.
pub proof fn lemma_ids_are_distinct(start: usize, i: nat, j: nat)
    requires
        i < j,
        j - i < id_count(),
    ensures
        id_after(start, i) != id_after(start, j),
{
    let m = id_count();
    lemma_id_after_counts(start, i);
    lemma_id_after_counts(start, j);
    vstd::arithmetic::div_mod::lemma_mod_equivalence(start + j, start + i, m);
    vstd::arithmetic::div_mod::lemma_small_mod((j - i) as nat, m as nat);
}

/// Taking ids goes on where it stopped: the id after `a` and then `b`
/// others is the id after `a + b`.
pub proof fn lemma_ids_continue(start: usize, a: nat, b: nat)
    ensures
        id_after(id_after(start, a), b) == id_after(start, a + b),
    decreases b,
{
    if b > 0 {
        lemma_ids_continue(start, a, (b - 1) as nat);
    }
}

/// The messages that one broadcast causes, the gossip and then the reply,
/// carry the ids that follow each other from the node's next id on, and
/// the node's next id afterwards is the one after them.
pub proof fn lemma_step_takes_ids_in_turn(pre: State, msg: Envelope, minted: Seq<char>, reply: Envelope)
    requires
        refusal(pre, msg) is None,
        replies(pre, msg, minted, Some(reply)),
    ensures
        forall|i: int|
            0 <= i < gossip(pre, msg).len() ==> (#[trigger] gossip(pre, msg)[i]).msg_id == Some(
                id_after(pre.next_id, i as nat),
            ),
        reply.msg_id == Some(id_after(pre.next_id, gossip(pre, msg).len())),
        next_state(pre, msg).next_id == id_after(pre.next_id, gossip(pre, msg).len() + 1),
{
}

/// How many ids the node takes when it acts on `msg` in the state `pre`:
/// one for each message of gossip and one for the reply.
pub open spec fn issued(pre: State, msg: Envelope) -> nat {
    if refusal(pre, msg) is Some || msg.payload is BroadcastOk {
        0
    } else {
        gossip(pre, msg).len() + 1
    }
}

/// The state after the node has acted on each of `msgs` in turn.
pub open spec fn after(pre: State, msgs: Seq<Envelope>) -> State
    decreases msgs.len(),
{
    if msgs.len() == 0 {
        pre
    } else {
        next_state(after(pre, msgs.drop_last()), msgs.last())
    }
}

/// The ids that the node takes while it acts on each of `msgs` in turn, in
/// the order in which it takes them.
pub open spec fn ids_taken(pre: State, msgs: Seq<Envelope>) -> Seq<usize>
    decreases msgs.len(),
{
    if msgs.len() == 0 {
        Seq::empty()
    } else {
        let before = after(pre, msgs.drop_last());
        ids_taken(pre, msgs.drop_last()) + Seq::new(
            issued(before, msgs.last()),
            |i: int| id_after(before.next_id, i as nat),
        )
    }
}

/// Acting on a message moves the next id on by as many ids as were taken.
pub proof fn lemma_step_moves_next_id(pre: State, msg: Envelope)
    ensures
        next_state(pre, msg).next_id == id_after(pre.next_id, issued(pre, msg)),
{
    reveal_with_fuel(id_after, 2);
}

/// Over any run of messages the node takes its ids in turn from its first
/// one on: the `k`-th id taken is `k` steps on from the first.
pub proof fn lemma_ids_taken_in_turn(pre: State, msgs: Seq<Envelope>)
    ensures
        after(pre, msgs).next_id == id_after(pre.next_id, ids_taken(pre, msgs).len()),
        forall|k: int|
            0 <= k < ids_taken(pre, msgs).len() ==> #[trigger] ids_taken(pre, msgs)[k] == id_after(
                pre.next_id,
                k as nat,
            ),
    decreases msgs.len(),
{
    if msgs.len() > 0 {
        let earlier = msgs.drop_last();
        let before = after(pre, earlier);
        let taken = ids_taken(pre, earlier);
        let count = issued(before, msgs.last());
        lemma_ids_taken_in_turn(pre, earlier);
        lemma_step_moves_next_id(before, msgs.last());
        lemma_ids_continue(pre.next_id, taken.len(), count);
        assert forall|k: int| 0 <= k < ids_taken(pre, msgs).len() implies #[trigger] ids_taken(
            pre,
            msgs,
        )[k] == id_after(pre.next_id, k as nat) by {
            if k >= taken.len() {
                lemma_ids_continue(pre.next_id, taken.len(), (k - taken.len()) as nat);
            }
        }
    }
}

/// Over any run of messages no id is taken twice, as long as the node
/// takes no more ids than there are.
pub proof fn lemma_ids_never_repeat(pre: State, msgs: Seq<Envelope>)
    requires
        ids_taken(pre, msgs).len() <= id_count(),
    ensures
        ids_taken(pre, msgs).no_duplicates(),
{
    let taken = ids_taken(pre, msgs);
    lemma_ids_taken_in_turn(pre, msgs);
    assert forall|i: int, j: int| 0 <= i < taken.len() && 0 <= j < taken.len() && i != j implies taken[i]
        != taken[j] by {
        if i < j {
            lemma_ids_are_distinct(pre.next_id, i as nat, j as nat);
        } else {
            lemma_ids_are_distinct(pre.next_id, j as nat, i as nat);
        }
    }
}

/// Gossip reaches every neighbour: when a registered node learns a new
/// value, it sends the value to each node that it gossips to, the sender
/// left out, and a registered node that gets such a message holds the
/// value from then on.
pub proof fn lemma_gossip_reaches_neighbours(
    pre: State,
    msg: Envelope,
    value: usize,
    neighbour: Seq<char>,
    there: State,
)
    requires
        pre.me is Some,
        !pre.seen.contains(value),
        msg.payload == Payload::Broadcast(value),
        adjacent(pre.wiring, pre.roster, pre.me->0).contains(neighbour),
        neighbour != msg.src,
        there.me is Some,
    ensures
        exists|i: int|
            0 <= i < gossip(pre, msg).len() && (#[trigger] gossip(pre, msg)[i]).dest == neighbour
                && gossip(pre, msg)[i].src == pre.me->0 && gossip(pre, msg)[i].payload
                == Payload::Broadcast(value) && next_state(there, gossip(pre, msg)[i]).seen.contains(
                value,
            ),
{
    let near = adjacent(pre.wiring, pre.roster, pre.me->0);
    let keep = other_than(msg.src);
    let at = choose|at: int| 0 <= at < near.len() && near[at] == neighbour;
    near.lemma_filter_contains(keep, at);
    let to = targets(pre, msg);
    let i = choose|i: int| 0 <= i < to.len() && to[i] == neighbour;
    assert(gossip(pre, msg)[i].dest == neighbour);
}

/// The ids under which `sent` is kept.
pub open spec fn ids_of(sent: Seq<Envelope>) -> Set<usize> {
    Set::new(|id: usize| exists|i: int| 0 <= i < sent.len() && #[trigger] sent[i].msg_id == Some(id))
}

/// The ids that `acks` acknowledge.
pub open spec fn ids_acknowledged(acks: Seq<Envelope>) -> Set<usize> {
    Set::new(
        |id: usize| exists|i: int| 0 <= i < acks.len() && #[trigger] acks[i].in_reply_to == Some(id),
    )
}

/// What is kept after `sent` has been put in the outbox is what was kept
/// before and what was sent, and every message put in is kept under its
/// own id.
pub proof fn lemma_stash_keeps(outbox: Map<usize, Envelope>, sent: Seq<Envelope>)
    ensures
        stash(outbox, sent).dom() == outbox.dom().union(ids_of(sent)),
        filed(outbox) ==> filed(stash(outbox, sent)),
    decreases sent.len(),
{
    if sent.len() > 0 {
        let rest = sent.drop_last();
        lemma_stash_keeps(outbox, rest);
        assert forall|id: usize| ids_of(sent).contains(id) <==> (ids_of(rest).contains(id)
            || sent.last().msg_id == Some(id)) by {
            if ids_of(sent).contains(id) {
                let i = choose|i: int| 0 <= i < sent.len() && #[trigger] sent[i].msg_id == Some(id);
                if i < sent.len() - 1 {
                    assert(rest[i].msg_id == Some(id));
                }
            }
            if ids_of(rest).contains(id) {
                let i = choose|i: int| 0 <= i < rest.len() && #[trigger] rest[i].msg_id == Some(id);
                assert(sent[i].msg_id == Some(id));
            }
            if sent.last().msg_id == Some(id) {
                assert(sent[sent.len() - 1].msg_id == Some(id));
            }
        }
    }
}

/// What is kept after `acks` is what was kept before without what they
/// acknowledge; what stays is kept as it was.
pub proof fn lemma_settled_removes(outbox: Map<usize, Envelope>, acks: Seq<Envelope>)
    ensures
        settled(outbox, acks).dom() == outbox.dom().difference(ids_acknowledged(acks)),
        forall|id: usize| #[trigger]
            settled(outbox, acks).contains_key(id) ==> settled(outbox, acks)[id] == outbox[id],
    decreases acks.len(),
{
    if acks.len() > 0 {
        let rest = acks.drop_last();
        lemma_settled_removes(outbox, rest);
        assert forall|id: usize| ids_acknowledged(acks).contains(id) <==> (ids_acknowledged(
            rest,
        ).contains(id) || acks.last().in_reply_to == Some(id)) by {
            if ids_acknowledged(acks).contains(id) {
                let i = choose|i: int|
                    0 <= i < acks.len() && #[trigger] acks[i].in_reply_to == Some(id);
                if i < acks.len() - 1 {
                    assert(rest[i].in_reply_to == Some(id));
                }
            }
            if ids_acknowledged(rest).contains(id) {
                let i = choose|i: int|
                    0 <= i < rest.len() && #[trigger] rest[i].in_reply_to == Some(id);
                assert(acks[i].in_reply_to == Some(id));
            }
            if acks.last().in_reply_to == Some(id) {
                assert(acks[acks.len() - 1].in_reply_to == Some(id));
            }
        }
    }
}

/// The outbox drains: once every message that was sent from an empty
/// outbox has been acknowledged, the outbox is empty again, and a sweep of
/// it sends nothing.
pub proof fn lemma_outbox_drains(sent: Seq<Envelope>, acks: Seq<Envelope>)
    requires
        forall|i: int|
            0 <= i < sent.len() ==> (#[trigger] sent[i]).msg_id is Some && ids_acknowledged(
                acks,
            ).contains(sent[i].msg_id->0),
    ensures
        settled(stash(Map::empty(), sent), acks) == Map::<usize, Envelope>::empty(),
        forall|ids: Seq<usize>, resent: Seq<Envelope>| #[trigger]
            sweeps(settled(stash(Map::empty(), sent), acks), ids, resent) ==> resent.len() == 0,
{
    let kept = stash(Map::empty(), sent);
    lemma_stash_keeps(Map::empty(), sent);
    lemma_settled_removes(kept, acks);
    assert forall|ids: Seq<usize>, resent: Seq<Envelope>| #[trigger]
        sweeps(Map::<usize, Envelope>::empty(), ids, resent) implies resent.len() == 0 by {
        if ids.len() > 0 {
            assert(ids.to_set().contains(ids[0]));
        }
    }
}

/// Acting on a message keeps every message of the outbox under its own
/// id.
pub proof fn lemma_outbox_stays_filed(pre: State, msg: Envelope)
    requires
        filed(pre.outbox),
    ensures
        filed(next_state(pre, msg).outbox),
{
    lemma_stash_keeps(pre.outbox, gossip(pre, msg));
}

} // verus!
