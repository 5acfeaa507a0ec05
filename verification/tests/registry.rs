use gossip_node::node::Node;
use gossip_node::registry::App;
use gossip_node::repo::Repo;

fn nodes(ids: &[&str]) -> Vec<Node> {
    ids.iter().map(|id| Node::new(id.to_string())).collect()
}

fn links(entries: &[(&str, &[&str])]) -> Vec<(String, Vec<String>)> {
    entries
        .iter()
        .map(|(id, to)| (id.to_string(), to.iter().map(|s| s.to_string()).collect()))
        .collect()
}

fn ids(found: Vec<&Node>) -> Vec<String> {
    found.iter().map(|node| node.id()).collect()
}

#[test]
fn a_new_store_knows_nobody() {
    let mut app = App::new();
    assert!(app.this_node().is_none());
    assert!(app.all_nodes().is_empty());
    assert!(app.neighbors("n1").is_empty());
}

#[test]
fn add_nodes_registers_this_node_and_the_others() {
    let mut app = App::new();
    app.add_nodes(Node::new("n2".to_string()), nodes(&["n1", "n2", "n3"]));
    assert_eq!(app.this_node().unwrap().id(), "n2");
    assert_eq!(ids(app.all_nodes()), vec!["n1", "n2", "n3"]);
}

#[test]
fn add_nodes_keeps_each_id_once() {
    let mut app = App::new();
    app.add_nodes(Node::new("n1".to_string()), nodes(&["n2", "n1", "n2", "n3", "n1"]));
    assert_eq!(ids(app.all_nodes()), vec!["n2", "n1", "n3"]);
}

#[test]
fn add_nodes_replaces_what_was_registered() {
    let mut app = App::new();
    app.add_nodes(Node::new("n1".to_string()), nodes(&["n1", "n2"]));
    app.this_node().unwrap().add_message(5);
    app.add_nodes(Node::new("n3".to_string()), nodes(&["n3"]));
    assert_eq!(ids(app.all_nodes()), vec!["n3"]);
    assert!(!app.this_node().unwrap().has_message(5));
}

#[test]
fn this_node_can_be_changed_in_place() {
    let mut app = App::new();
    app.add_nodes(Node::new("n1".to_string()), nodes(&["n1"]));
    app.this_node().unwrap().add_message(8);
    assert!(app.this_node().unwrap().has_message(8));
}

#[test]
fn without_topology_all_others_are_neighbors() {
    let mut app = App::new();
    app.add_nodes(Node::new("n2".to_string()), nodes(&["n1", "n2", "n3"]));
    assert_eq!(ids(app.neighbors("n2")), vec!["n1", "n3"]);
    assert_eq!(ids(app.neighbors("n9")), vec!["n1", "n2", "n3"]);
}

#[test]
fn with_topology_the_known_listed_nodes_are_neighbors() {
    let mut app = App::new();
    app.add_nodes(Node::new("n1".to_string()), nodes(&["n1", "n2", "n3"]));
    app.set_topology(links(&[("n1", &["n3", "n7", "n2", "n3"]), ("n2", &[])]));
    assert_eq!(ids(app.neighbors("n1")), vec!["n3", "n2", "n3"]);
    assert!(app.neighbors("n2").is_empty());
    assert!(app.neighbors("n3").is_empty());
}

#[test]
fn the_first_entry_of_a_node_counts() {
    let mut app = App::new();
    app.add_nodes(Node::new("n1".to_string()), nodes(&["n1", "n2", "n3"]));
    app.set_topology(links(&[("n1", &["n2"]), ("n1", &["n3"])]));
    assert_eq!(ids(app.neighbors("n1")), vec!["n2"]);
}

#[test]
fn set_topology_leaves_nothing_of_the_one_before() {
    let mut app = App::new();
    app.add_nodes(Node::new("n1".to_string()), nodes(&["n1", "n2", "n3"]));
    app.set_topology(links(&[("n1", &["n2"]), ("n2", &["n1", "n3"])]));
    app.set_topology(links(&[("n1", &["n3"])]));
    assert_eq!(ids(app.neighbors("n1")), vec!["n3"]);
    assert!(app.neighbors("n2").is_empty());
}

#[test]
fn an_empty_topology_is_a_topology() {
    let mut app = App::new();
    app.add_nodes(Node::new("n1".to_string()), nodes(&["n1", "n2"]));
    app.set_topology(Vec::new());
    assert!(app.neighbors("n1").is_empty());
}
