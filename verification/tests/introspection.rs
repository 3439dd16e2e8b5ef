use sparrow_core::introspect::{
    assemble_nodes, find_node, plan_set_listing, sets_info_key, IntrospectError, Node,
};

#[test]
fn nodes_pair_names_with_their_namespaces() {
    let entries = vec![
        ("BB9000000000001".to_string(), Some("test;bar".to_string())),
        ("BB9000000000002".to_string(), Some("".to_string())),
    ];
    let nodes = assemble_nodes(&entries).unwrap();
    assert_eq!(
        nodes,
        vec![
            Node {
                name: "BB9000000000001".to_string(),
                namespaces: vec!["test".to_string(), "bar".to_string()],
            },
            Node { name: "BB9000000000002".to_string(), namespaces: vec![] },
        ]
    );
}

#[test]
fn one_failed_node_info_fails_the_whole_listing() {
    let entries = vec![
        ("a".to_string(), Some("test".to_string())),
        ("b".to_string(), None),
        ("c".to_string(), None),
    ];
    assert_eq!(
        assemble_nodes(&entries),
        Err(IntrospectError::NodeInfoError { node: "b".to_string() })
    );
}

#[test]
fn empty_cluster_lists_no_nodes() {
    let entries: Vec<(String, Option<String>)> = vec![];
    assert_eq!(assemble_nodes(&entries), Ok(vec![]));
}

#[test]
fn find_node_returns_the_first_match() {
    let names = vec!["a".to_string(), "b".to_string(), "b".to_string()];
    assert_eq!(find_node(&names, "b"), Ok(1));
    assert_eq!(find_node(&names, "a"), Ok(0));
}

#[test]
fn unknown_node_is_reported() {
    let names = vec!["a".to_string()];
    assert_eq!(find_node(&names, "z"), Err(IntrospectError::UnknownNode));
    assert_eq!(
        plan_set_listing(&names, "z", "test"),
        Err(IntrospectError::UnknownNode)
    );
}

#[test]
fn set_listing_plan_names_node_and_info_key() {
    let names = vec!["a".to_string(), "b".to_string()];
    assert_eq!(sets_info_key("test"), "sets/test".to_string());
    assert_eq!(plan_set_listing(&names, "b", "bar"), Ok((1, "sets/bar".to_string())));
}
