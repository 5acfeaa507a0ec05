//! The messages that nodes exchange, and their mathematical views.

use crate::node::Node;
use crate::repo::names_of;
use vstd::prelude::*;
use vstd::std_specs::convert::FromSpecImpl;

verus! {

/// The adjacency list of one node: its id and the ids of its neighbours.
pub type Links = (String, Vec<String>);

/// What a body carries, with strings as sequences of characters.
pub enum Payload {
    Echo(Seq<char>),
    EchoOk(Seq<char>),
    Init(Seq<char>, Seq<Seq<char>>),
    InitOk,
    Generate,
    GenerateOk(Seq<char>),
    Broadcast(usize),
    BroadcastOk,
    Read,
    ReadOk(Seq<usize>),
    Topology(Seq<(Seq<char>, Seq<Seq<char>>)>),
    TopologyOk,
}

/// A message as a plain value: who sent it, to whom, what it carries, and
/// the two correlation ids.
pub struct Envelope {
    pub src: Seq<char>,
    pub dest: Seq<char>,
    pub payload: Payload,
    pub msg_id: Option<usize>,
    pub in_reply_to: Option<usize>,
}

/// The text of an `echo`, and of the answer to it.
#[derive(Debug)]
pub struct BodyEcho {
    pub echo: String,
}

/// What `init` tells a node: its own id, and the ids of all nodes.
#[derive(Debug)]
pub struct BodyInit {
    pub node_id: String,
    pub node_ids: Vec<String>,
}

/// The identifier that answers a `generate`.
#[derive(Debug)]
pub struct BodyGenerate {
    pub id: String,
}

/// The value that a `broadcast` carries.
#[derive(Debug)]
pub struct BodyBroadcast {
    pub message: usize,
}

/// The values that answer a `read`.
#[derive(Debug)]
pub struct BodyReadOk {
    pub messages: Vec<usize>,
}

/// The adjacency of the network, one entry per node. Where a node is listed
/// more than once, its first entry counts.
#[derive(Debug)]
pub struct BodyTopology {
    pub topology: Vec<Links>,
}

/// What a message is about: a request, or the answer to one.
#[derive(Debug)]
pub enum BodyType {
    Echo(BodyEcho),
    EchoOk(BodyEcho),
    Init(BodyInit),
    InitOk,
    Generate,
    GenerateOk(BodyGenerate),
    Broadcast(BodyBroadcast),
    BroadcastOk,
    Read,
    ReadOk(BodyReadOk),
    Topology(BodyTopology),
    TopologyOk,
}

/// The body of a message: what it is about, the id that its sender gave
/// it, and the id of the message that it answers.
#[derive(Debug)]
pub struct Body {
    pub typ: BodyType,
    pub msg_id: Option<usize>,
    pub in_reply_to: Option<usize>,
}

/// A message from the node `src` to the node `dest`.
#[derive(Debug)]
pub struct Message {
    pub src: String,
    pub dest: String,
    pub body: Body,
}

impl View for BodyType {
    type V = Payload;

    open spec fn view(&self) -> Payload {
        match *self {
            BodyType::Echo(b) => Payload::Echo(b.echo@),
            BodyType::EchoOk(b) => Payload::EchoOk(b.echo@),
            BodyType::Init(b) => Payload::Init(b.node_id@, b.node_ids.deep_view()),
            BodyType::InitOk => Payload::InitOk,
            BodyType::Generate => Payload::Generate,
            BodyType::GenerateOk(b) => Payload::GenerateOk(b.id@),
            BodyType::Broadcast(b) => Payload::Broadcast(b.message),
            BodyType::BroadcastOk => Payload::BroadcastOk,
            BodyType::Read => Payload::Read,
            BodyType::ReadOk(b) => Payload::ReadOk(b.messages@),
            BodyType::Topology(b) => Payload::Topology(b.topology.deep_view()),
            BodyType::TopologyOk => Payload::TopologyOk,
        }
    }
}

impl View for Message {
    type V = Envelope;

    open spec fn view(&self) -> Envelope {
        Envelope {
            src: self.src@,
            dest: self.dest@,
            payload: self.body.typ@,
            msg_id: self.body.msg_id,
            in_reply_to: self.body.in_reply_to,
        }
    }
}

/// The messages of `sent` as plain values, in order.
pub open spec fn views(sent: Seq<Message>) -> Seq<Envelope> {
    Seq::new(sent.len(), |i: int| sent[i]@)
}

/// A copy of `names`.
fn copy_names(names: &Vec<String>) -> (copy: Vec<String>)
    ensures
        copy.deep_view() == names.deep_view(),
{
    let mut copy: Vec<String> = Vec::new();
    let mut at: usize = 0;
    while at < names.len()
        invariant
            at <= names.len(),
            copy.len() == at,
            forall|i: int| 0 <= i < at ==> (#[trigger] copy[i])@ == names[i]@,
        decreases names.len() - at,
    {
        copy.push(names[at].clone());
        at += 1;
    }
    copy
}

/// A copy of `links`.
fn copy_links(links: &Vec<Links>) -> (copy: Vec<Links>)
    ensures
        copy.deep_view() == links.deep_view(),
{
    let mut copy: Vec<Links> = Vec::new();
    let mut at: usize = 0;
    while at < links.len()
        invariant
            at <= links.len(),
            copy.len() == at,
            forall|i: int| 0 <= i < at ==> (#[trigger] copy[i]).deep_view() == links[i].deep_view(),
        decreases links.len() - at,
    {
        let entry = (links[at].0.clone(), copy_names(&links[at].1));
        copy.push(entry);
        at += 1;
    }
    copy
}

/// A copy of `values`.
fn copy_values(values: &Vec<usize>) -> (copy: Vec<usize>)
    ensures
        copy@ == values@,
{
    let mut copy: Vec<usize> = Vec::new();
    let mut at: usize = 0;
    while at < values.len()
        invariant
            at <= values.len(),
            copy@ == values@.take(at as int),
        decreases values.len() - at,
    {
        copy.push(values[at]);
        at += 1;
    }
    copy
}

impl Clone for BodyType {
    fn clone(&self) -> (copy: Self)
        ensures
            copy@ == self@,
    {
        match self {
            BodyType::Echo(body) => BodyType::Echo(BodyEcho { echo: body.echo.clone() }),
            BodyType::EchoOk(body) => BodyType::EchoOk(BodyEcho { echo: body.echo.clone() }),
            BodyType::Init(body) => BodyType::Init(
                BodyInit { node_id: body.node_id.clone(), node_ids: copy_names(&body.node_ids) },
            ),
            BodyType::InitOk => BodyType::InitOk,
            BodyType::Generate => BodyType::Generate,
            BodyType::GenerateOk(body) => BodyType::GenerateOk(BodyGenerate { id: body.id.clone() }),
            BodyType::Broadcast(body) => BodyType::Broadcast(
                BodyBroadcast { message: body.message },
            ),
            BodyType::BroadcastOk => BodyType::BroadcastOk,
            BodyType::Read => BodyType::Read,
            BodyType::ReadOk(body) => BodyType::ReadOk(
                BodyReadOk { messages: copy_values(&body.messages) },
            ),
            BodyType::Topology(body) => BodyType::Topology(
                BodyTopology { topology: copy_links(&body.topology) },
            ),
            BodyType::TopologyOk => BodyType::TopologyOk,
        }
    }
}

impl Clone for Message {
    fn clone(&self) -> (copy: Self)
        ensures
            copy@ == self@,
    {
        Message {
            src: self.src.clone(),
            dest: self.dest.clone(),
            body: Body {
                typ: self.body.typ.clone(),
                msg_id: self.body.msg_id,
                in_reply_to: self.body.in_reply_to,
            },
        }
    }
}

/// The reply to `request` that carries `payload` under the id `next_id`: it
/// goes back to where the request came from, and refers to the request's id.
pub open spec fn reply_to(request: Envelope, payload: Payload, next_id: usize) -> Envelope {
    Envelope {
        src: request.dest,
        dest: request.src,
        payload,
        msg_id: Some(next_id),
        in_reply_to: request.msg_id,
    }
}

/// Whether `c` is a digit of Crockford's base 32: a decimal digit, or a
/// capital letter other than I, L, O and U.
pub open spec fn is_crockford_digit(c: char) -> bool {
    ('0' <= c && c <= '9') || ('A' <= c && c <= 'Z' && c != 'I' && c != 'L' && c != 'O' && c != 'U')
}

/// Whether `text` has the form of a ULID in text: 26 digits of Crockford's
/// base 32.
pub open spec fn is_ulid_text(text: Seq<char>) -> bool {
    &&& text.len() == 26
    &&& forall|i: int| 0 <= i < 26 ==> is_crockford_digit(#[trigger] text[i])
}

/// Makes a ULID with `ulid::Ulid::new`, from the clock and a random number,
/// and writes it out with `Ulid::to_string`. Nothing is said of which
/// identifier comes back, only of its form: the text is 26 characters long,
/// each of them a digit of Crockford's base 32.
#[verifier::external_body]
fn mint_ulid() -> (text: String)
    ensures
        is_ulid_text(text@),
{
    ulid::Ulid::new().to_string()
}

impl BodyGenerate {
    /// A body with a newly made identifier. Two calls may give any two
    /// identifiers: the contract speaks of their form alone.
    pub fn new() -> (body: Self)
        ensures
            is_ulid_text(body.id@),
    {
        Self { id: mint_ulid() }
    }
}

impl From<BodyInit> for (Node, Vec<Node>) {
    /// The node that `body_init` names, and one node for each id of the
    /// network in the order given, none of which has observed anything.
    fn from(body_init: BodyInit) -> (registered: Self)
        ensures
            registered.0.name() == body_init.node_id@,
            registered.0.seen() == Set::<usize>::empty(),
            names_of(registered.1@) == body_init.node_ids.deep_view(),
            forall|i: int|
                0 <= i < registered.1.len() ==> (#[trigger] registered.1[i]).seen() == Set::<
                    usize,
                >::empty(),
    {
        let ghost ids = body_init.node_ids.deep_view();
        let mut nodes: Vec<Node> = Vec::new();
        for id in it: body_init.node_ids
            invariant
                it.seq() == body_init.node_ids@,
                ids == body_init.node_ids.deep_view(),
                nodes.len() == it.index(),
                forall|i: int| 0 <= i < nodes.len() ==> (#[trigger] nodes[i]).name() == ids[i],
                forall|i: int|
                    0 <= i < nodes.len() ==> (#[trigger] nodes[i]).seen() == Set::<usize>::empty(),
        {
            nodes.push(Node::new(id));
        }
        (Node::new(body_init.node_id), nodes)
    }
}

impl FromSpecImpl<BodyInit> for (Node, Vec<Node>) {
    /// A node is more than its id and the values it has observed, so no
    /// function gives the nodes that `from` makes.
    open spec fn obeys_from_spec() -> bool {
        false
    }

    open spec fn from_spec(body_init: BodyInit) -> Self {
        arbitrary()
    }
}

impl Message {
    /// Turns this message into the reply to it.
    pub fn response(self, body_type: BodyType, next_id: usize) -> (reply: Self)
        ensures
            reply@ == reply_to(self@, body_type@, next_id),
    {
        Message {
            src: self.dest,
            dest: self.src,
            body: Body { typ: body_type, msg_id: Some(next_id), in_reply_to: self.body.msg_id },
        }
    }
}

} // verus!
