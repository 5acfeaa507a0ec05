use gossip_node::message::{
    Body, BodyBroadcast, BodyEcho, BodyGenerate, BodyInit, BodyReadOk, BodyTopology, BodyType,
    Message,
};
use gossip_node::node::Node;

fn request() -> Message {
    Message {
        src: "c1".to_string(),
        dest: "n1".to_string(),
        body: Body {
            typ: BodyType::Echo(BodyEcho { echo: "hi".to_string() }),
            msg_id: Some(12),
            in_reply_to: Some(3),
        },
    }
}

#[test]
fn response_turns_the_message_round() {
    let reply = request().response(BodyType::InitOk, 40);
    assert_eq!(reply.src, "n1");
    assert_eq!(reply.dest, "c1");
    assert_eq!(reply.body.msg_id, Some(40));
    assert_eq!(reply.body.in_reply_to, Some(12));
    assert!(matches!(reply.body.typ, BodyType::InitOk));
}

#[test]
fn response_to_a_message_without_id_refers_to_none() {
    let mut message = request();
    message.body.msg_id = None;
    let reply = message.response(BodyType::BroadcastOk, 0);
    assert_eq!(reply.body.in_reply_to, None);
    assert_eq!(reply.body.msg_id, Some(0));
}

#[test]
fn init_gives_this_node_and_the_others() {
    let body = BodyInit {
        node_id: "n2".to_string(),
        node_ids: vec!["n1".to_string(), "n2".to_string(), "n1".to_string()],
    };
    let (this, others): (Node, Vec<Node>) = body.into();
    assert_eq!(this.id, "n2");
    assert!(this.get_messages().is_empty());
    let ids: Vec<String> = others.iter().map(|node| node.id()).collect();
    assert_eq!(ids, vec!["n1", "n2", "n1"]);
    assert!(others.iter().all(|node| node.get_messages().is_empty()));
}

#[test]
fn a_new_identifier_is_a_ulid_in_text() {
    let first = BodyGenerate::new();
    let second = BodyGenerate::new();
    for id in [&first.id, &second.id] {
        assert_eq!(id.len(), 26);
        assert!(id.chars().all(|c| "0123456789ABCDEFGHJKMNPQRSTVWXYZ".contains(c)));
    }
    assert_ne!(first.id, second.id);
}

#[test]
fn a_copy_of_a_message_holds_the_same() {
    let message = Message {
        src: "a".to_string(),
        dest: "b".to_string(),
        body: Body {
            typ: BodyType::Topology(BodyTopology {
                topology: vec![
                    ("a".to_string(), vec!["b".to_string(), "c".to_string()]),
                    ("b".to_string(), vec![]),
                ],
            }),
            msg_id: Some(1),
            in_reply_to: None,
        },
    };
    let copy = message.clone();
    assert_eq!(copy.src, "a");
    assert_eq!(copy.dest, "b");
    assert_eq!(copy.body.msg_id, Some(1));
    assert_eq!(copy.body.in_reply_to, None);
    match (copy.body.typ, message.body.typ) {
        (BodyType::Topology(copy), BodyType::Topology(first)) => {
            assert_eq!(copy.topology, first.topology)
        }
        other => panic!("expected two topologies, got {:?}", other),
    }
}

#[test]
fn a_copy_of_each_body_is_of_the_same_type() {
    let bodies = vec![
        BodyType::Echo(BodyEcho { echo: "e".to_string() }),
        BodyType::EchoOk(BodyEcho { echo: "e".to_string() }),
        BodyType::Init(BodyInit { node_id: "n".to_string(), node_ids: vec!["n".to_string()] }),
        BodyType::InitOk,
        BodyType::Generate,
        BodyType::GenerateOk(BodyGenerate { id: "g".to_string() }),
        BodyType::Broadcast(BodyBroadcast { message: 5 }),
        BodyType::BroadcastOk,
        BodyType::Read,
        BodyType::ReadOk(BodyReadOk { messages: vec![3, 1, 2] }),
        BodyType::Topology(BodyTopology { topology: vec![] }),
        BodyType::TopologyOk,
    ];
    for body in bodies {
        assert_eq!(format!("{:?}", body.clone()), format!("{:?}", body));
    }
}
