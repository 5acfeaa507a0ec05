use gossip_node::echo::get_reply;
use gossip_node::message::{Body, BodyEcho, BodyInit, BodyType, Message};
use gossip_node::protocol::ProtocolError;

fn message(typ: BodyType, msg_id: Option<usize>) -> Message {
    Message {
        src: "c1".to_string(),
        dest: "n1".to_string(),
        body: Body { typ, msg_id, in_reply_to: Some(77) },
    }
}

#[test]
fn get_reply_echoes() {
    let echo = BodyType::Echo(BodyEcho { echo: "hello there".to_string() });
    let reply = get_reply(message(echo, Some(1))).unwrap();
    assert_eq!(reply.src, "n1");
    assert_eq!(reply.dest, "c1");
    assert_eq!(reply.body.msg_id, None);
    assert_eq!(reply.body.in_reply_to, Some(1));
    match reply.body.typ {
        BodyType::EchoOk(body) => assert_eq!(body.echo, "hello there"),
        other => panic!("expected echo_ok, got {:?}", other),
    }
}

#[test]
fn get_reply_acknowledges_init() {
    let init = BodyType::Init(BodyInit {
        node_id: "n1".to_string(),
        node_ids: vec!["n1".to_string(), "n2".to_string()],
    });
    let reply = get_reply(message(init, None)).unwrap();
    assert!(matches!(reply.body.typ, BodyType::InitOk));
    assert_eq!(reply.body.in_reply_to, None);
    assert_eq!(reply.body.msg_id, None);
}

#[test]
fn get_reply_refuses_the_rest() {
    for typ in [BodyType::Read, BodyType::Generate, BodyType::InitOk, BodyType::BroadcastOk] {
        assert_eq!(get_reply(message(typ, Some(1))).unwrap_err(), ProtocolError::Unsupported);
    }
}
