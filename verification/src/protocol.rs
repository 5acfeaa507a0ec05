//! What the protocol asks of a node: for every state and every message, the
//! state that follows, the gossip that goes out and the reply.

use crate::message::{reply_to, views, Envelope, Message, Payload};
use crate::repo::{adjacent, distinct, other_than};
use vstd::prelude::*;

verus! {

/// Why a message was not acted on.
#[derive(Clone, Copy, Debug, PartialEq, Eq, Structural)]
pub enum ProtocolError {
    /// The message needs this node's identity, and no `init` has come yet.
    NotInitialized,
    /// Nodes do not act on messages of this type.
    Unsupported,
}

/// All that a node remembers between two messages.
pub struct State {
    /// This node's id, once an `init` has registered it.
    pub me: Option<Seq<char>>,
    /// The broadcast values that this node has observed.
    pub seen: Set<usize>,
    /// The ids of the known nodes.
    pub roster: Seq<Seq<char>>,
    /// The adjacency that was last set, if one ever was.
    pub wiring: Option<Seq<(Seq<char>, Seq<Seq<char>>)>>,
    /// The gossip that was sent and not yet acknowledged, by message id.
    pub outbox: Map<usize, Envelope>,
    /// The id that the next message of this node will carry.
    pub next_id: usize,
}

/// What acting on a message sends out.
#[derive(Debug)]
pub struct Outgoing {
    /// The reply to the sender, where one is due.
    pub reply: Option<Message>,
    /// The gossip to other nodes, in the order of its ids.
    pub gossip: Vec<Message>,
}

/// The id that follows `id`: ids start again at zero after the largest.
pub open spec fn succ(id: usize) -> usize {
    if id == usize::MAX {
        0
    } else {
        (id + 1) as usize
    }
}

/// The id that is taken after `count` others, where `start` is taken first.
pub open spec fn id_after(start: usize, count: nat) -> usize
    decreases count,
{
    if count == 0 {
        start
    } else {
        succ(id_after(start, (count - 1) as nat))
    }
}

/// The error that `msg` meets in the state `pre`, if it meets one. Replies
/// of other nodes are not acted on, but for the acknowledgement of gossip;
/// `broadcast` and `read` need this node to be registered.
pub open spec fn refusal(pre: State, msg: Envelope) -> Option<ProtocolError> {
    match msg.payload {
        Payload::Echo(_) | Payload::Init(_, _) | Payload::Generate | Payload::Topology(_)
        | Payload::BroadcastOk => None,
        Payload::Broadcast(_) | Payload::Read => if pre.me is None {
            Some(ProtocolError::NotInitialized)
        } else {
            None
        },
        _ => Some(ProtocolError::Unsupported),
    }
}

/// The nodes that gossip goes to when `value` comes from `sender` in the
/// state `pre`: where this node is registered and the value is new to it,
/// the nodes it gossips to without `sender`; else none.
pub open spec fn recipients(pre: State, value: usize, sender: Seq<char>) -> Seq<Seq<char>> {
    if pre.me is Some && !pre.seen.contains(value) {
        adjacent(pre.wiring, pre.roster, pre.me->0).filter(other_than(sender))
    } else {
        Seq::empty()
    }
}

/// The nodes that gossip goes to when `msg` arrives in the state `pre`:
/// those of a broadcast, and none for any other message.
pub open spec fn targets(pre: State, msg: Envelope) -> Seq<Seq<char>> {
    match msg.payload {
        Payload::Broadcast(value) => recipients(pre, value, msg.src),
        _ => Seq::empty(),
    }
}

/// The message that carries `value` as gossip from `from` to `to`.
pub open spec fn gossip_message(from: Seq<char>, to: Seq<char>, value: usize, id: usize) -> Envelope {
    Envelope {
        src: from,
        dest: to,
        payload: Payload::Broadcast(value),
        msg_id: Some(id),
        in_reply_to: None,
    }
}

/// The gossip that `value` causes from `from` to each of `to`, with ids
/// from `first` on.
pub open spec fn fan_out(from: Seq<char>, to: Seq<Seq<char>>, value: usize, first: usize) -> Seq<
    Envelope,
> {
    Seq::new(to.len(), |i: int| gossip_message(from, to[i], value, id_after(first, i as nat)))
}

/// The gossip that goes out when `msg` arrives in the state `pre`.
pub open spec fn gossip(pre: State, msg: Envelope) -> Seq<Envelope> {
    match msg.payload {
        Payload::Broadcast(value) => if pre.me is Some {
            fan_out(pre.me->0, targets(pre, msg), value, pre.next_id)
        } else {
            Seq::empty()
        },
        _ => Seq::empty(),
    }
}

/// `outbox` after each message of `sent` has been put in it under its id,
/// one after the other.
pub open spec fn stash(outbox: Map<usize, Envelope>, sent: Seq<Envelope>) -> Map<usize, Envelope>
    decreases sent.len(),
{
    if sent.len() == 0 {
        outbox
    } else {
        let earlier = stash(outbox, sent.drop_last());
        match sent.last().msg_id {
            Some(id) => earlier.insert(id, sent.last()),
            None => earlier,
        }
    }
}

/// `outbox` without the message that `msg` acknowledges.
pub open spec fn acknowledged(outbox: Map<usize, Envelope>, msg: Envelope) -> Map<usize, Envelope> {
    match msg.in_reply_to {
        Some(id) => outbox.remove(id),
        None => outbox,
    }
}

/// `outbox` after each of `acks` has been acted on as an acknowledgement,
/// one after the other.
pub open spec fn settled(outbox: Map<usize, Envelope>, acks: Seq<Envelope>) -> Map<usize, Envelope>
    decreases acks.len(),
{
    if acks.len() == 0 {
        outbox
    } else {
        acknowledged(settled(outbox, acks.drop_last()), acks.last())
    }
}

/// The state after `msg` has been acted on in the state `pre`. A refused
/// message changes nothing.
pub open spec fn next_state(pre: State, msg: Envelope) -> State {
    if refusal(pre, msg) is Some {
        pre
    } else {
        match msg.payload {
            Payload::Init(id, ids) => State {
                me: Some(id),
                seen: Set::empty(),
                roster: distinct(ids),
                next_id: succ(pre.next_id),
                ..pre
            },
            Payload::Topology(wiring) => State {
                wiring: Some(wiring),
                next_id: succ(pre.next_id),
                ..pre
            },
            Payload::Broadcast(value) => State {
                seen: pre.seen.insert(value),
                outbox: stash(pre.outbox, gossip(pre, msg)),
                next_id: succ(reply_id(pre, msg)),
                ..pre
            },
            Payload::BroadcastOk => State { outbox: acknowledged(pre.outbox, msg), ..pre },
            _ => State { next_id: succ(pre.next_id), ..pre },
        }
    }
}

/// The id of the reply to `msg`: the one that is free once the gossip has
/// taken its ids.
pub open spec fn reply_id(pre: State, msg: Envelope) -> usize {
    id_after(pre.next_id, targets(pre, msg).len())
}

/// Whether `payload` answers `msg` in the state `pre`, where `minted` is the
/// identifier at hand for a `generate`. The answer to `read` lists the
/// observed values once each, in any order; every other answer is fixed.
pub open spec fn answers(pre: State, msg: Envelope, minted: Seq<char>, payload: Payload) -> bool {
    match msg.payload {
        Payload::Echo(text) => payload == Payload::EchoOk(text),
        Payload::Init(_, _) => payload == Payload::InitOk,
        Payload::Generate => payload == Payload::GenerateOk(minted),
        Payload::Broadcast(_) => payload == Payload::BroadcastOk,
        Payload::Read => payload matches Payload::ReadOk(values) && values.no_duplicates()
            && values.to_set() == pre.seen,
        Payload::Topology(_) => payload == Payload::TopologyOk,
        _ => false,
    }
}

/// Whether `reply` is what goes back to the sender of `msg`: nothing for an
/// acknowledgement of gossip; else the answer, from this message's
/// destination to its source, under a new id and with the id of `msg` as
/// the one replied to.
pub open spec fn replies(pre: State, msg: Envelope, minted: Seq<char>, reply: Option<Envelope>) -> bool {
    match reply {
        None => msg.payload is BroadcastOk,
        Some(sent) => {
            &&& !(msg.payload is BroadcastOk)
            &&& answers(pre, msg, minted, sent.payload)
            &&& sent == reply_to(msg, sent.payload, reply_id(pre, msg))
        },
    }
}

/// `reply` as a plain value.
pub open spec fn reply_view(reply: Option<Message>) -> Option<Envelope> {
    match reply {
        Some(message) => Some(message@),
        None => None,
    }
}

/// Whether `outcome` and the state `post` are what the protocol asks for
/// when `msg` arrives in the state `pre`, with `minted` at hand for a
/// `generate`: a refused message gives its error and changes nothing; any
/// other gives its gossip and its reply, and the state that follows.
pub open spec fn handled(
    pre: State,
    msg: Envelope,
    minted: Seq<char>,
    post: State,
    outcome: Result<Outgoing, ProtocolError>,
) -> bool {
    &&& post == next_state(pre, msg)
    &&& match outcome {
        Err(error) => refusal(pre, msg) == Some(error),
        Ok(sent) => {
            &&& refusal(pre, msg) is None
            &&& views(sent.gossip@) == gossip(pre, msg)
            &&& replies(pre, msg, minted, reply_view(sent.reply))
        },
    }
}

/// The identifier that `outcome` hands out, if it answers a `generate`.
pub open spec fn minted_in(outcome: Result<Outgoing, ProtocolError>) -> Seq<char> {
    match outcome {
        Ok(sent) => match reply_view(sent.reply) {
            Some(reply) => match reply.payload {
                Payload::GenerateOk(id) => id,
                _ => Seq::empty(),
            },
            None => Seq::empty(),
        },
        Err(_) => Seq::empty(),
    }
}

/// Whether `resent` holds the messages of `outbox`, each once and as it
/// is kept, in the order `ids` of their ids.
pub open spec fn sweeps(outbox: Map<usize, Envelope>, ids: Seq<usize>, resent: Seq<Envelope>) -> bool {
    &&& ids.no_duplicates()
    &&& ids.to_set() == outbox.dom()
    &&& resent.len() == ids.len()
    &&& forall|i: int| 0 <= i < ids.len() ==> #[trigger] resent[i] == outbox[ids[i]]
}

/// Whether every message of `outbox` is kept under its own id.
pub open spec fn filed(outbox: Map<usize, Envelope>) -> bool {
    forall|id: usize| #[trigger] outbox.contains_key(id) ==> outbox[id].msg_id == Some(id)
}

} // verus!
