use gossip_node::node::Node;

#[test]
fn a_new_node_has_seen_nothing() {
    let node = Node::new("n1".to_string());
    assert_eq!(node.id, "n1");
    assert_eq!(node.id(), "n1");
    assert!(node.get_messages().is_empty());
    assert!(!node.has_message(0));
}

#[test]
fn a_value_is_kept_once() {
    let mut node = Node::new("n1".to_string());
    node.add_message(3);
    node.add_message(3);
    node.add_message(usize::MAX);
    assert!(node.has_message(3));
    assert!(node.has_message(usize::MAX));
    assert!(!node.has_message(4));
    assert_eq!(node.get_messages().len(), 2);
    assert_eq!(node.id, "n1");
}

#[test]
fn has_id_compares_the_whole_id() {
    let node = Node::new("n1".to_string());
    assert!(node.has_id(&"n1".to_string()));
    assert!(!node.has_id(&"n".to_string()));
    assert!(!node.has_id(&"n12".to_string()));
    assert!(!node.has_id(&String::new()));
}
