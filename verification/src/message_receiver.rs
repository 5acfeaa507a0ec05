//! The protocol engine: what a node does with each message it receives.

use crate::message::{
    is_ulid_text, views, Body, BodyBroadcast, BodyGenerate, BodyInit, BodyReadOk, BodyTopology,
    BodyType, Envelope, Message,
};
use crate::node::Node;
use crate::protocol::{
    fan_out, gossip, gossip_message, handled, id_after, minted_in, recipients, stash, succ, sweeps,
    Outgoing, ProtocolError, State,
};
use crate::repo::{distinct, id_of, names_of_refs, other_than, seen_by, Repo};
use std::collections::HashMap;
use vstd::prelude::*;
use vstd::std_specs::iter::IteratorSpec;

verus! {

broadcast use vstd::std_specs::hash::group_hash_axioms;

/// The messages of `queue` as plain values, under the same ids.
pub open spec fn envelopes(queue: Map<usize, Message>) -> Map<usize, Envelope> {
    Map::new(|id: usize| queue.contains_key(id), |id: usize| queue[id]@)
}

/// The message that carries `value` as gossip from `from` to `to`.
fn gossip_to(from: &String, to: &String, value: usize, msg_id: usize) -> (message: Message)
    ensures
        message@ == gossip_message(from@, to@, value, msg_id),
{
    Message {
        src: from.clone(),
        dest: to.clone(),
        body: Body {
            typ: BodyType::Broadcast(BodyBroadcast { message: value }),
            msg_id: Some(msg_id),
            in_reply_to: None,
        },
    }
}

/// The ids of `nodes` without `sender`, in order.
fn ids_without(nodes: &Vec<&Node>, sender: &String) -> (ids: Vec<String>)
    ensures
        ids.deep_view() == names_of_refs(nodes@).filter(other_than(sender@)),
{
    let ghost names = names_of_refs(nodes@);
    let ghost keep = other_than(sender@);
    let mut ids: Vec<String> = Vec::new();
    let mut at: usize = 0;
    proof {
        reveal(Seq::filter);
    }
    while at < nodes.len()
        invariant
            at <= nodes.len(),
            names == names_of_refs(nodes@),
            keep == other_than(sender@),
            ids.deep_view() == names.take(at as int).filter(keep),
        decreases nodes.len() - at,
    {
        proof {
            Seq::lemma_filter_push(names.take(at as int), names[at as int], keep);
            assert(names.take(at as int).push(names[at as int]) =~= names.take(at as int + 1));
        }
        if !nodes[at].has_id(sender) {
            ids.push(nodes[at].id());
        }
        at += 1;
    }
    assert(names.take(at as int) =~= names);
    ids
}

/// The engine of one node, over the store `R` of the node's state.
pub struct MessageReceiver<R: Repo + ?Sized = dyn Repo> {
    msg_queue: HashMap<usize, Message>,
    next_msg_id: usize,
    repo: Box<R>,
}

impl<R: Repo + ?Sized> MessageReceiver<R> {
    /// What this engine remembers.
    pub closed spec fn state(&self) -> State {
        State {
            me: id_of(self.repo.me()),
            seen: seen_by(self.repo.me()),
            roster: self.repo.roster(),
            wiring: self.repo.wiring(),
            outbox: envelopes(self.msg_queue@),
            next_id: self.next_msg_id,
        }
    }

    /// An engine over `repo`, with an empty outbox and ids that start at zero.
    pub fn new(repo: Box<R>) -> (receiver: Self)
        ensures
            receiver.state() == (State {
                me: id_of(repo.me()),
                seen: seen_by(repo.me()),
                roster: repo.roster(),
                wiring: repo.wiring(),
                outbox: Map::empty(),
                next_id: 0,
            }),
    {
        let receiver = Self { repo, msg_queue: HashMap::new(), next_msg_id: 0 };
        assert(receiver.state().outbox =~= Map::empty());
        receiver
    }

    /// Takes the next message id.
    pub fn get_next_msg_id(&mut self) -> (id: usize)
        ensures
            id == old(self).state().next_id,
            final(self).state() == (State { next_id: succ(id), ..old(self).state() }),
    {
        let id = self.next_msg_id;
        self.next_msg_id = if id == usize::MAX {
            0
        } else {
            id + 1
        };
        id
    }

    /// Registers this node and the nodes of the network, as `body_init`
    /// names them, in place of any registered before: this node starts
    /// with nothing observed.
    pub fn on_init(&mut self, body_init: BodyInit) -> (reply: BodyType)
        ensures
            reply is InitOk,
            final(self).state() == (State {
                me: Some(body_init.node_id@),
                seen: Set::empty(),
                roster: distinct(body_init.node_ids.deep_view()),
                ..old(self).state()
            }),
    {
        let (node, nodes) = <(Node, Vec<Node>)>::from(body_init);
        self.repo.add_nodes(node, nodes);
        BodyType::InitOk
    }

    /// Replaces the adjacency by that of `body_topology`, as a whole.
    pub fn on_topology(&mut self, body_topology: BodyTopology) -> (reply: BodyType)
        ensures
            reply is TopologyOk,
            final(self).state() == (State {
                wiring: Some(body_topology.topology.deep_view()),
                ..old(self).state()
            }),
    {
        self.repo.set_topology(body_topology.topology);
        BodyType::TopologyOk
    }

    /// Takes the gossip that `body` acknowledges out of the outbox. An
    /// acknowledgement of anything else changes nothing; none is answered.
    pub fn on_broadcast_ok(&mut self, body: &Body) -> (reply: Option<BodyType>)
        ensures
            reply is None,
            final(self).state() == (State {
                outbox: match body.in_reply_to {
                    Some(id) => old(self).state().outbox.remove(id),
                    None => old(self).state().outbox,
                },
                ..old(self).state()
            }),
    {
        if let Some(msg_id) = body.in_reply_to {
            self.msg_queue.remove(&msg_id);
            assert(envelopes(self.msg_queue@) =~= envelopes(old(self).msg_queue@).remove(msg_id));
        }
        None
    }

    /// Records the value of `body_broadcast`, which `sender` sent. Where
    /// the value is new to this node, gossip goes to each node that this
    /// one gossips to, but not back to `sender`: each message takes the
    /// next id and is kept in the outbox under it. The second part of the
    /// result is that gossip, in the order of its ids. The value is
    /// acknowledged whether it is new or not. Before this node is
    /// registered there is no answer and nothing changes.
    pub fn on_broadcast(&mut self, body_broadcast: BodyBroadcast, sender: &String) -> (outcome: (
        Option<BodyType>,
        Vec<Message>,
    ))
        ensures
            match old(self).state().me {
                None => {
                    &&& outcome.0 is None
                    &&& outcome.1@.len() == 0
                    &&& final(self).state() == old(self).state()
                },
                Some(me) => {
                    let pre = old(self).state();
                    let to = recipients(pre, body_broadcast.message, sender@);
                    let sent = fan_out(me, to, body_broadcast.message, pre.next_id);
                    &&& outcome.0 matches Some(BodyType::BroadcastOk)
                    &&& views(outcome.1@) == sent
                    &&& final(self).state() == (State {
                        seen: pre.seen.insert(body_broadcast.message),
                        outbox: stash(pre.outbox, sent),
                        next_id: id_after(pre.next_id, to.len()),
                        ..pre
                    })
                },
            },
    {
        let value = body_broadcast.message;
        let ghost pre = self.state();
        let mut sent: Vec<Message> = Vec::new();
        let (id, fresh) = match self.repo.this_node() {
            Some(node) => (node.id(), !node.has_message(value)),
            None => {
                return (None, sent);
            },
        };
        if !fresh {
            assert(pre.seen.insert(value) =~= pre.seen);
            return (Some(BodyType::BroadcastOk), sent);
        }
        let to = ids_without(&self.repo.neighbors(id.as_str()), sender);
        if let Some(node) = self.repo.this_node() {
            node.add_message(value);
        }
        let ghost all = fan_out(id@, to.deep_view(), value, pre.next_id);
        let ghost mid = self.state();
        let mut at: usize = 0;
        while at < to.len()
            invariant
                at <= to.len(),
                all == fan_out(id@, to.deep_view(), value, pre.next_id),
                views(sent@) == all.take(at as int),
                self.state() == (State {
                    outbox: stash(pre.outbox, all.take(at as int)),
                    next_id: id_after(pre.next_id, at as nat),
                    ..mid
                }),
            decreases to.len() - at,
        {
            let ghost queued = self.msg_queue@;
            let msg_id = self.get_next_msg_id();
            let message = gossip_to(&id, &to[at], value, msg_id);
            sent.push(message.clone());
            self.msg_queue.insert(msg_id, message);
            proof {
                assert(all.take(at as int + 1).drop_last() =~= all.take(at as int));
                assert(envelopes(self.msg_queue@) =~= envelopes(queued).insert(
                    msg_id,
                    all[at as int],
                ));
            }
            at += 1;
        }
        (Some(BodyType::BroadcastOk), sent)
    }

    /// The answer to `read`: all values observed so far, each once, in no
    /// particular order. There is none before this node is registered.
    pub fn on_read(&mut self) -> (reply: Option<BodyType>)
        ensures
            final(self).state() == old(self).state(),
            match reply {
                Some(BodyType::ReadOk(body)) => {
                    &&& old(self).state().me is Some
                    &&& body.messages@.no_duplicates()
                    &&& body.messages@.to_set() == old(self).state().seen
                },
                Some(_) => false,
                None => old(self).state().me is None,
            },
    {
        if let Some(node) = self.repo.this_node() {
            let observed = node.get_messages();
            let ghost order = observed.iter().remaining();
            let mut messages: Vec<usize> = Vec::new();
            for value in it: observed.iter()
                invariant
                    it.seq() == order,
                    messages@ == order.unref().take(it.index()),
            {
                messages.push(*value);
            }
            assert(messages@ =~= order.unref());
            return Some(BodyType::ReadOk(BodyReadOk { messages }));
        }
        None
    }

    /// Acts on `message`, with `minted` at hand as the identifier to give
    /// out if the message asks for one.
    pub fn handle(&mut self, message: Message, minted: BodyGenerate) -> (outcome: Result<
        Outgoing,
        ProtocolError,
    >)
        ensures
            handled(old(self).state(), message@, minted.id@, final(self).state(), outcome),
    {
        let ghost pre = self.state();
        let mut spread: Vec<Message> = Vec::new();
        let body_type = match message.body.typ.clone() {
            BodyType::Echo(body) => Some(BodyType::EchoOk(body)),
            BodyType::Init(body) => Some(self.on_init(body)),
            BodyType::Generate => Some(BodyType::GenerateOk(minted)),
            BodyType::Broadcast(body) => {
                let (reply, sent) = self.on_broadcast(body, &message.src);
                if reply.is_none() {
                    return Err(ProtocolError::NotInitialized);
                }
                spread = sent;
                reply
            },
            BodyType::BroadcastOk => self.on_broadcast_ok(&message.body),
            BodyType::Read => {
                let reply = self.on_read();
                if reply.is_none() {
                    return Err(ProtocolError::NotInitialized);
                }
                reply
            },
            BodyType::Topology(body) => Some(self.on_topology(body)),
            _ => {
                return Err(ProtocolError::Unsupported);
            },
        };
        let reply = match body_type {
            Some(body_type) => {
                let next_id = self.get_next_msg_id();
                Some(message.response(body_type, next_id))
            },
            None => None,
        };
        assert(views(spread@) =~= gossip(pre, message@));
        Ok(Outgoing { reply, gossip: spread })
    }

    /// Acts on `message`. Where it asks for an identifier, a new one is
    /// made for the reply; which one is not said, only its form.
    pub fn process_incoming(&mut self, message: Message) -> (outcome: Result<
        Outgoing,
        ProtocolError,
    >)
        ensures
            handled(
                old(self).state(),
                message@,
                minted_in(outcome),
                final(self).state(),
                outcome,
            ),
            message@.payload is Generate ==> is_ulid_text(minted_in(outcome)),
    {
        let minted = match &message.body.typ {
            BodyType::Generate => BodyGenerate::new(),
            _ => BodyGenerate { id: String::new() },
        };
        self.handle(message, minted)
    }

    /// The gossip that waits for its acknowledgement: every message of the
    /// outbox once, as it was sent, in no particular order. A sweep only
    /// reads: the outbox stays as it is.
    pub fn pending(&self) -> (resent: Vec<Message>)
        ensures
            exists|ids: Seq<usize>| sweeps(self.state().outbox, ids, views(resent@)),
    {
        let ghost queue = self.msg_queue@;
        let ghost order = self.msg_queue.iter().remaining();
        let mut resent: Vec<Message> = Vec::new();
        for entry in it: self.msg_queue.iter()
            invariant
                it.seq() == order,
                order.no_duplicates(),
                resent.len() == it.index(),
                forall|i: int| 0 <= i < resent.len() ==> (#[trigger] resent[i])@ == (*order[i].1)@,
        {
            resent.push(entry.1.clone());
        }
        proof {
            let ids = Seq::new(order.len(), |i: int| *order[i].0);
            let outbox = self.state().outbox;
            // Two entries under one id would hold the same message, and so
            // be one entry.
            assert forall|i: int, j: int| 0 <= i < ids.len() && 0 <= j < ids.len() && i != j implies ids[i]
                != ids[j] by {
                assert(queue[*order[i].0] == *order[i].1);
                assert(queue[*order[j].0] == *order[j].1);
            }
            assert forall|id: usize| ids.to_set().contains(id) <==> queue.dom().contains(id) by {
                if queue.dom().contains(id) {
                    let at = choose|at: int| 0 <= at < order.len() && order[at] == (&id, &queue[id]);
                    assert(ids[at] == id);
                }
                if ids.to_set().contains(id) {
                    let at = choose|at: int| 0 <= at < ids.len() && ids[at] == id;
                    assert(queue.contains_key(*order[at].0));
                }
            }
            assert(ids.to_set() =~= outbox.dom());
            assert(sweeps(outbox, ids, views(resent@)));
        }
        resent
    }
}

} // verus!
