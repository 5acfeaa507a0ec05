//! The store that a node keeps in memory.

use crate::message::Links;
use crate::node::Node;
use crate::repo::{among, distinct, listed, names_of, names_of_refs, other_than, Repo};
use vstd::prelude::*;

verus! {

/// A node's state in memory: itself, the known nodes in the order in which
/// they were registered, and the adjacency once one has been set.
pub struct App {
    this_node: Option<Node>,
    nodes: Vec<Node>,
    topology: Option<Vec<Links>>,
}

/// Where among `nodes` the node with the id `id` stands, if there is one.
fn position(nodes: &Vec<Node>, id: &String) -> (found: Option<usize>)
    ensures
        match found {
            Some(at) => at < nodes.len() && nodes[at as int].name() == id@,
            None => !names_of(nodes@).contains(id@),
        },
{
    let mut at: usize = 0;
    while at < nodes.len()
        invariant
            at <= nodes.len(),
            forall|k: int| 0 <= k < at ==> nodes[k].name() != id@,
        decreases nodes.len() - at,
    {
        if nodes[at].has_id(id) {
            return Some(at);
        }
        at += 1;
    }
    None
}

/// The neighbours that `topology` lists for `id`, if it has an entry for it.
fn lookup<'a>(topology: &'a Vec<Links>, id: &String) -> (found: Option<&'a Vec<String>>)
    ensures
        listed(topology.deep_view(), id@) == match found {
            Some(neighbors) => neighbors.deep_view(),
            None => Seq::empty(),
        },
{
    let ghost wiring = topology.deep_view();
    let mut at: usize = 0;
    assert(wiring.skip(0) =~= wiring);
    while at < topology.len()
        invariant
            at <= topology.len(),
            wiring == topology.deep_view(),
            listed(wiring, id@) == listed(wiring.skip(at as int), id@),
        decreases topology.len() - at,
    {
        assert(wiring.skip(at as int).drop_first() =~= wiring.skip(at as int + 1));
        if topology[at].0 == *id {
            return Some(&topology[at].1);
        }
        at += 1;
    }
    None
}

impl App {
    /// A store that knows no node and no adjacency.
    pub fn new() -> (app: Self)
        ensures
            app.me() is None,
            app.roster() == Seq::<Seq<char>>::empty(),
            app.wiring() is None,
    {
        App { this_node: None, nodes: Vec::new(), topology: None }
    }
}

impl Repo for App {
    closed spec fn me(&self) -> Option<Node> {
        self.this_node
    }

    closed spec fn roster(&self) -> Seq<Seq<char>> {
        names_of(self.nodes@)
    }

    closed spec fn wiring(&self) -> Option<Seq<(Seq<char>, Seq<Seq<char>>)>> {
        match self.topology {
            None => None,
            Some(t) => Some(t.deep_view()),
        }
    }

    fn add_nodes(&mut self, this_node: Node, nodes: Vec<Node>) {
        let ghost all = names_of(nodes@);
        let mut kept: Vec<Node> = Vec::new();
        for node in it: nodes
            invariant
                it.seq() == nodes@,
                all == names_of(nodes@),
                names_of(kept@) == distinct(all.take(it.index() as int)),
        {
            let ghost i = it.index() as int;
            assert(all.take(i + 1).drop_last() =~= all.take(i));
            let ghost before = names_of(kept@);
            let id = node.id();
            match position(&kept, &id) {
                Some(at) => assert(before[at as int] == id@),
                None => kept.push(node),
            }
        }
        assert(all.take(nodes@.len() as int) =~= all);
        self.this_node = Some(this_node);
        self.nodes = kept;
    }

    fn this_node(&mut self) -> (node: Option<&mut Node>) {
        self.this_node.as_mut()
    }

    fn set_topology(&mut self, topology: Vec<Links>) {
        self.topology = Some(topology);
    }

    fn neighbors(&self, node_id: &str) -> (nodes: Vec<&Node>) {
        let id: String = node_id.to_owned();
        let ghost roster = names_of(self.nodes@);
        let mut found: Vec<&Node> = Vec::new();
        match &self.topology {
            None => {
                let ghost keep = other_than(id@);
                let mut at: usize = 0;
                proof {
                    reveal(Seq::filter);
                }
                while at < self.nodes.len()
                    invariant
                        at <= self.nodes.len(),
                        roster == names_of(self.nodes@),
                        keep == other_than(id@),
                        names_of_refs(found@) == roster.take(at as int).filter(keep),
                    decreases self.nodes.len() - at,
                {
                    proof {
                        Seq::lemma_filter_push(roster.take(at as int), roster[at as int], keep);
                        assert(roster.take(at as int).push(roster[at as int]) =~= roster.take(
                            at as int + 1,
                        ));
                    }
                    if !self.nodes[at].has_id(&id) {
                        found.push(&self.nodes[at]);
                    }
                    at += 1;
                }
                assert(roster.take(at as int) =~= roster);
            },
            Some(topology) => {
                let ghost keep = among(roster);
                let ghost wanted = listed(topology.deep_view(), id@);
                match lookup(topology, &id) {
                    None => {
                        proof {
                            reveal(Seq::filter);
                        }
                    },
                    Some(neighbors) => {
                        let mut at: usize = 0;
                        proof {
                            reveal(Seq::filter);
                        }
                        while at < neighbors.len()
                            invariant
                                at <= neighbors.len(),
                                roster == names_of(self.nodes@),
                                keep == among(roster),
                                wanted == neighbors.deep_view(),
                                names_of_refs(found@) == wanted.take(at as int).filter(keep),
                            decreases neighbors.len() - at,
                        {
                            proof {
                                Seq::lemma_filter_push(
                                    wanted.take(at as int),
                                    wanted[at as int],
                                    keep,
                                );
                                assert(wanted.take(at as int).push(wanted[at as int])
                                    =~= wanted.take(at as int + 1));
                            }
                            if let Some(index) = position(&self.nodes, &neighbors[at]) {
                                assert(roster[index as int] == wanted[at as int]);
                                found.push(&self.nodes[index]);
                            }
                            at += 1;
                        }
                        assert(wanted.take(at as int) =~= wanted);
                    },
                }
            },
        }
        found
    }

    fn all_nodes(&self) -> (nodes: Vec<&Node>) {
        let mut all: Vec<&Node> = Vec::new();
        let mut at: usize = 0;
        while at < self.nodes.len()
            invariant
                at <= self.nodes.len(),
                all.len() == at,
                forall|k: int| 0 <= k < at ==> all[k].name() == self.nodes[k].name(),
            decreases self.nodes.len() - at,
        {
            all.push(&self.nodes[at]);
            at += 1;
        }
        all
    }
}

} // verus!
