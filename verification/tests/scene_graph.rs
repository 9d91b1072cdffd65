use storm::scene_graph::{NodeBuilderError, NodeId, SceneGraph, TraversalError};

fn id(uuid: u128) -> NodeId {
    NodeId { uuid }
}

#[test]
fn nodes_form_a_tree() {
    let mut graph: SceneGraph<(f32, f32)> = SceneGraph::new();
    assert_eq!(graph.add_node(1, "root".to_string(), None, (0.0, 0.0)), Ok(id(1)));
    assert_eq!(graph.add_node(2, "left".to_string(), Some(id(1)), (1.0, 0.0)), Ok(id(2)));
    assert_eq!(graph.add_node(3, "right".to_string(), Some(id(1)), (2.0, 0.0)), Ok(id(3)));
    assert_eq!(graph.add_node(4, "leaf".to_string(), Some(id(3)), (3.0, 0.0)), Ok(id(4)));
    assert_eq!(graph.add_node(5, "other root".to_string(), None, (4.0, 0.0)), Ok(id(5)));

    assert_eq!(graph.root_nodes(), &[id(1), id(5)]);
    let root = graph.get(id(1)).unwrap();
    assert_eq!(root.parent(), None);
    assert_eq!(root.children(), &[id(2), id(3)]);
    assert_eq!(root.name, "root");
    let leaf = graph.get(id(4)).unwrap();
    assert_eq!(leaf.parent(), Some(id(3)));
    assert!(leaf.children().is_empty());
    assert_eq!(leaf.transform, (3.0, 0.0));
    assert!(graph.contains(id(4)));
    assert!(!graph.contains(id(6)));
    assert!(graph.get(id(6)).is_none());
}

#[test]
fn missing_parent_changes_nothing() {
    let mut graph: SceneGraph<u8> = SceneGraph::new();
    graph.add_node(1, String::new(), None, 0).unwrap();
    assert_eq!(
        graph.add_node(2, String::new(), Some(id(9)), 0),
        Err(NodeBuilderError::ParentNodeNotFound(id(9)))
    );
    assert!(!graph.contains(id(2)));
    assert_eq!(graph.root_nodes(), &[id(1)]);
    assert!(graph.get(id(1)).unwrap().children().is_empty());
}

#[test]
fn duplicate_uuid_keeps_the_first_node() {
    let mut graph: SceneGraph<u8> = SceneGraph::new();
    graph.add_node(1, "first".to_string(), None, 7).unwrap();
    graph.add_node(2, "parent".to_string(), None, 0).unwrap();
    assert_eq!(
        graph.add_node(1, "second".to_string(), Some(id(2)), 9),
        Err(NodeBuilderError::UuidNotUnique(1))
    );
    let first = graph.get(id(1)).unwrap();
    assert_eq!(first.name, "first");
    assert_eq!(first.transform, 7);
    assert_eq!(first.parent(), None);
    // The link to the parent is made before the UUID is checked.
    assert_eq!(graph.get(id(2)).unwrap().children(), &[id(1)]);
    assert_eq!(
        graph.add_node(2, String::new(), None, 0),
        Err(NodeBuilderError::UuidNotUnique(2))
    );
    assert_eq!(graph.root_nodes(), &[id(1), id(2), id(2)]);
}

#[test]
fn node_data_can_be_changed() {
    let mut graph: SceneGraph<i32> = SceneGraph::new();
    graph.add_node(10, "a".to_string(), None, 1).unwrap();
    graph.add_node(11, "b".to_string(), Some(id(10)), 2).unwrap();
    {
        let node = graph.get_mut(id(11)).unwrap();
        node.transform = 5;
        node.name = "renamed".to_string();
    }
    assert!(graph.get_mut(id(12)).is_none());
    let node = graph.get(id(11)).unwrap();
    assert_eq!(node.transform, 5);
    assert_eq!(node.name, "renamed");
    assert_eq!(node.parent(), Some(id(10)));
    assert_eq!(graph.get(id(10)).unwrap().transform, 1);
}

#[test]
fn update_order_is_preorder() {
    let mut graph: SceneGraph<u8> = SceneGraph::new();
    graph.add_node(1, String::new(), None, 0).unwrap();
    graph.add_node(2, String::new(), Some(id(1)), 0).unwrap();
    graph.add_node(3, String::new(), Some(id(2)), 0).unwrap();
    graph.add_node(4, String::new(), Some(id(1)), 0).unwrap();
    graph.add_node(5, String::new(), Some(id(2)), 0).unwrap();
    assert_eq!(graph.len(), 5);
    assert_eq!(graph.update_order(id(1), 6), Ok(vec![id(1), id(2), id(3), id(5), id(4)]));
    assert_eq!(graph.update_order(id(2), 6), Ok(vec![id(2), id(3), id(5)]));
    assert_eq!(graph.update_order(id(1), 2), Err(TraversalError::TooDeep));
    assert_eq!(graph.update_order(id(9), 6), Err(TraversalError::NodeNotFound(id(9))));
}

#[test]
fn update_order_stops_at_a_cycle() {
    let mut graph: SceneGraph<u8> = SceneGraph::new();
    graph.add_node(1, String::new(), None, 0).unwrap();
    // A repeated UUID still links the node under the parent: node 1 lists itself.
    assert!(graph.add_node(1, String::new(), Some(id(1)), 0).is_err());
    assert_eq!(graph.update_order(id(1), graph.len() + 1), Err(TraversalError::TooDeep));
}
