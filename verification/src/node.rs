//! A participant's identity and the broadcast values it has observed.

use std::collections::HashSet;
use vstd::prelude::*;

verus! {

broadcast use vstd::std_specs::hash::group_hash_axioms;

/// A node of the network: its id, and the set of broadcast values it has
/// seen so far. Values are only ever added.
pub struct Node {
    pub id: String,
    messages: HashSet<usize>,
}

impl Node {
    /// The node's id, as the characters it is made of.
    pub closed spec fn name(&self) -> Seq<char> {
        self.id@
    }

    /// The broadcast values this node has observed.
    pub closed spec fn seen(&self) -> Set<usize> {
        self.messages@
    }

    /// A node that has observed nothing yet.
    pub fn new(id: String) -> (node: Self)
        ensures
            node.name() == id@,
            node.seen() == Set::<usize>::empty(),
    {
        Self { id, messages: HashSet::new() }
    }

    /// A copy of the node's id.
    pub fn id(&self) -> (id: String)
        ensures
            id@ == self.name(),
    {
        self.id.clone()
    }

    /// Whether `id` is this node's id.
    pub fn has_id(&self, id: &String) -> (same: bool)
        ensures
            same == (self.name() == id@),
    {
        self.id == *id
    }

    /// Records `msg_id` as observed; recording a value twice changes nothing.
    pub fn add_message(&mut self, msg_id: usize)
        ensures
            final(self).name() == old(self).name(),
            final(self).seen() == old(self).seen().insert(msg_id),
    {
        self.messages.insert(msg_id);
    }

    /// The observed values, as the set that holds them.
    pub fn get_messages(&self) -> (messages: &HashSet<usize>)
        ensures
            messages@ == self.seen(),
    {
        &self.messages
    }

    /// Whether `msg_id` has been observed.
    pub fn has_message(&self, msg_id: usize) -> (seen: bool)
        ensures
            seen == self.seen().contains(msg_id),
    {
        self.messages.contains(&msg_id)
    }
}

} // verus!
