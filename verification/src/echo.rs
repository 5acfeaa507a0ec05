//! The smallest node: it answers `echo` and `init`, and keeps no state.

use crate::message::{Body, BodyType, Envelope, Message, Payload};
use crate::protocol::ProtocolError;
use vstd::prelude::*;

verus! {

/// What the echo node answers to `payload`, if it answers.
pub open spec fn echoed(payload: Payload) -> Option<Payload> {
    match payload {
        Payload::Echo(text) => Some(Payload::EchoOk(text)),
        Payload::Init(_, _) => Some(Payload::InitOk),
        _ => None,
    }
}

/// The reply to `message`: an `echo` comes back with its text, an `init`
/// is acknowledged, and every other message is refused as unsupported.
/// The reply goes from the message's destination to its source, carries no
/// id of its own, and refers to the id of `message`.
pub fn get_reply(message: Message) -> (reply: Result<Message, ProtocolError>)
    ensures
        match echoed(message@.payload) {
            Some(payload) => reply matches Ok(sent) && sent@ == (Envelope {
                src: message@.dest,
                dest: message@.src,
                payload,
                msg_id: None,
                in_reply_to: message@.msg_id,
            }),
            None => reply matches Err(error) && error == ProtocolError::Unsupported,
        },
{
    let body_type = match message.body.typ {
        BodyType::Echo(body) => BodyType::EchoOk(body),
        BodyType::Init(_) => BodyType::InitOk,
        _ => {
            return Err(ProtocolError::Unsupported);
        },
    };
    Ok(
        Message {
            src: message.dest,
            dest: message.src,
            body: Body { typ: body_type, msg_id: None, in_reply_to: message.body.msg_id },
        },
    )
}

} // verus!
