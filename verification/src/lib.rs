//! A single participant of a gossip network: the protocol engine that turns
//! each inbound message into the reply and the gossip it calls for, with the
//! state that the engine keeps between messages.

pub mod echo;
pub mod laws;
pub mod message;
pub mod message_receiver;
pub mod node;
pub mod protocol;
pub mod registry;
pub mod repo;
