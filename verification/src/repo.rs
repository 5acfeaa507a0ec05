//! The store of a node's state: who it is, whom it knows, and how the
//! network is wired.

use crate::message::Links;
use crate::node::Node;
use vstd::prelude::*;

verus! {

/// The id of the registered node, if there is one.
pub open spec fn id_of(me: Option<Node>) -> Option<Seq<char>> {
    match me {
        Some(node) => Some(node.name()),
        None => None,
    }
}

/// The values that the registered node has observed; none without a node.
pub open spec fn seen_by(me: Option<Node>) -> Set<usize> {
    match me {
        Some(node) => node.seen(),
        None => Set::empty(),
    }
}

/// The ids of `nodes`, in order.
pub open spec fn names_of(nodes: Seq<Node>) -> Seq<Seq<char>> {
    Seq::new(nodes.len(), |i: int| nodes[i].name())
}

/// The ids of the nodes that `nodes` refers to, in order.
pub open spec fn names_of_refs(nodes: Seq<&Node>) -> Seq<Seq<char>> {
    Seq::new(nodes.len(), |i: int| nodes[i].name())
}

/// `names` with each name kept where it first occurs and dropped elsewhere.
pub open spec fn distinct(names: Seq<Seq<char>>) -> Seq<Seq<char>>
    decreases names.len(),
{
    if names.len() == 0 {
        Seq::empty()
    } else {
        let earlier = distinct(names.drop_last());
        if earlier.contains(names.last()) {
            earlier
        } else {
            earlier.push(names.last())
        }
    }
}

/// `distinct` keeps every name, and none twice.
pub proof fn lemma_distinct_keeps_each_once(names: Seq<Seq<char>>)
    ensures
        distinct(names).no_duplicates(),
        distinct(names).to_set() == names.to_set(),
    decreases names.len(),
{
    if names.len() > 0 {
        let rest = names.drop_last();
        let earlier = distinct(rest);
        lemma_distinct_keeps_each_once(rest);
        assert forall|name: Seq<char>| names.to_set().contains(name) <==> (rest.to_set().contains(
            name,
        ) || name == names.last()) by {
            if names.contains(name) {
                let at = choose|at: int| 0 <= at < names.len() && names[at] == name;
                if at < names.len() - 1 {
                    assert(rest[at] == name);
                }
            }
            if rest.contains(name) {
                let at = choose|at: int| 0 <= at < rest.len() && rest[at] == name;
                assert(names[at] == name);
            }
            if name == names.last() {
                assert(names[names.len() - 1] == name);
            }
        }
        if !earlier.contains(names.last()) {
            let kept = earlier.push(names.last());
            assert forall|name: Seq<char>| kept.to_set().contains(name) <==> (
            earlier.to_set().contains(name) || name == names.last()) by {
                if kept.contains(name) {
                    let at = choose|at: int| 0 <= at < kept.len() && kept[at] == name;
                    if at < earlier.len() {
                        assert(earlier[at] == name);
                    }
                }
                if earlier.contains(name) {
                    let at = choose|at: int| 0 <= at < earlier.len() && earlier[at] == name;
                    assert(kept[at] == name);
                }
                if name == names.last() {
                    assert(kept[kept.len() - 1] == name);
                }
            }
        }
    }
}

/// The neighbours that `wiring` lists for `id`: those of the first entry
/// for `id`, and none where there is no such entry.
pub open spec fn listed(wiring: Seq<(Seq<char>, Seq<Seq<char>>)>, id: Seq<char>) -> Seq<Seq<char>>
    decreases wiring.len(),
{
    if wiring.len() == 0 {
        Seq::empty()
    } else if wiring[0].0 == id {
        wiring[0].1
    } else {
        listed(wiring.drop_first(), id)
    }
}

/// Holds of every name but `id`.
pub open spec fn other_than(id: Seq<char>) -> spec_fn(Seq<char>) -> bool {
    |name: Seq<char>| name != id
}

/// Holds of the names that occur in `roster`.
pub open spec fn among(roster: Seq<Seq<char>>) -> spec_fn(Seq<char>) -> bool {
    |name: Seq<char>| roster.contains(name)
}

/// The known nodes that `id` gossips to. Without a wiring these are all
/// known nodes but `id` itself; with one, the listed neighbours that are
/// known, as often and in the order in which they are listed.
pub open spec fn adjacent(
    wiring: Option<Seq<(Seq<char>, Seq<Seq<char>>)>>,
    roster: Seq<Seq<char>>,
    id: Seq<char>,
) -> Seq<Seq<char>> {
    match wiring {
        None => roster.filter(other_than(id)),
        Some(w) => listed(w, id).filter(among(roster)),
    }
}

/// What the protocol engine needs of the store of a node's state.
pub trait Repo {
    /// This node, once it has been registered.
    spec fn me(&self) -> Option<Node>;

    /// The ids of the known nodes: no id twice, in the order of registration.
    spec fn roster(&self) -> Seq<Seq<char>>;

    /// The adjacency that was last set, if one ever was.
    spec fn wiring(&self) -> Option<Seq<(Seq<char>, Seq<Seq<char>>)>>;

    /// Registers this node and the nodes of the network, in place of any
    /// that were registered before.
    fn add_nodes(&mut self, this_node: Node, nodes: Vec<Node>)
        ensures
            final(self).me() == Some(this_node),
            final(self).roster() == distinct(names_of(nodes@)),
            final(self).wiring() == old(self).wiring(),
    ;

    /// This node, open to change, if it has been registered.
    fn this_node(&mut self) -> (node: Option<&mut Node>)
        ensures
            node is Some <==> old(self).me() is Some,
            node matches Some(n) ==> *n == old(self).me()->0 && final(self).me() == Some(
                *final(n),
            ),
            node is None ==> final(self).me() == old(self).me(),
            final(self).roster() == old(self).roster(),
            final(self).wiring() == old(self).wiring(),
    ;

    /// Replaces the adjacency as a whole.
    fn set_topology(&mut self, topology: Vec<Links>)
        ensures
            final(self).wiring() == Some(topology.deep_view()),
            final(self).me() == old(self).me(),
            final(self).roster() == old(self).roster(),
    ;

    /// The known nodes that `node_id` gossips to.
    fn neighbors(&self, node_id: &str) -> (nodes: Vec<&Node>)
        ensures
            names_of_refs(nodes@) == adjacent(self.wiring(), self.roster(), node_id@),
    ;

    /// All known nodes.
    fn all_nodes(&self) -> (nodes: Vec<&Node>)
        ensures
            names_of_refs(nodes@) == self.roster(),
    ;
}

} // verus!
