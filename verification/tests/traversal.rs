use helix_traversal::element::{EdgeType, ElementKind, GraphError, RecordData, TraversalVal};
use helix_traversal::hop::{
    edges_by_type, incoming_edges, incoming_nodes, nodes_by_type, outgoing_edges, outgoing_nodes,
};
use helix_traversal::builder::G;
use helix_traversal::hop::{Direction, Target};
use helix_traversal::key::{in_edge_key, out_edge_key};
use helix_traversal::label_hash::hash_label;
use helix_traversal::store::{find_record, same_bytes, AdjacencyEntry, Adjacent, Snapshot, StoredRecord};
use helix_traversal::tools::{MCPConnection, McpBackend, ToolArgs};

fn data(label: &str, props: &[(&str, &str)]) -> RecordData {
    RecordData {
        label: label.to_string(),
        properties: props.iter().map(|(k, v)| (k.to_string(), v.to_string())).collect(),
    }
}

fn row(id: u128, label: &str, props: &[(&str, &str)]) -> StoredRecord {
    StoredRecord { id, data: Some(data(label, props)) }
}

fn node(id: u128, label: &str, props: &[(&str, &str)]) -> TraversalVal {
    TraversalVal { kind: ElementKind::Node, id, data: data(label, props) }
}

fn link(snap: &mut Snapshot, edge: u128, label: &str, from: u128, to: u128) {
    let hash = hash_label(label, None);
    snap.edges.push(row(edge, label, &[]));
    snap.out_edges.push(AdjacencyEntry {
        key: out_edge_key(from, hash),
        value: Some(Adjacent { edge_id: edge, node_id: to }),
    });
    snap.in_edges.push(AdjacencyEntry {
        key: in_edge_key(to, hash),
        value: Some(Adjacent { edge_id: edge, node_id: from }),
    });
}

fn empty_store() -> Snapshot {
    Snapshot {
        nodes: Vec::new(),
        edges: Vec::new(),
        vectors: Vec::new(),
        out_edges: Vec::new(),
        in_edges: Vec::new(),
    }
}

fn alice_knows_bob() -> Snapshot {
    let mut snap = empty_store();
    snap.nodes.push(row(1, "user", &[("name", "alice")]));
    snap.nodes.push(row(2, "user", &[("name", "bob")]));
    link(&mut snap, 10, "knows", 1, 2);
    snap
}

fn ids(items: &[TraversalVal]) -> Vec<u128> {
    items.iter().map(|e| e.id).collect()
}

fn props_filter(pairs: &[(&str, &str)]) -> ToolArgs {
    ToolArgs::FilterItems {
        properties: Some(pairs.iter().map(|(k, v)| (k.to_string(), v.to_string())).collect()),
        filter_traversals: None,
    }
}

fn out_step(label: &str) -> ToolArgs {
    ToolArgs::OutStep { edge_label: label.to_string(), edge_type: EdgeType::Node }
}

#[test]
fn hash_of_empty_label_is_the_basis() {
    assert_eq!(hash_label("", None), 2166136261u32);
    assert_eq!(hash_label("", Some(0)), 2166136261u32);
}

#[test]
fn hash_of_known_labels() {
    assert_eq!(hash_label("a", None), 0xe40c292c);
    assert_eq!(hash_label("foobar", None), 0xbf9cf968);
}

#[test]
fn hash_depends_on_salt() {
    assert_eq!(hash_label("", Some(1)), 2166136261u32 ^ 1);
    assert_ne!(hash_label("knows", Some(7)), hash_label("knows", None));
}

#[test]
fn hash_is_deterministic() {
    assert_eq!(hash_label("knows", None), hash_label("knows", None));
    assert_ne!(hash_label("knows", None), hash_label("likes", None));
}

#[test]
fn key_is_id_then_hash_big_endian() {
    let key = out_edge_key(1, 0x01020304);
    let mut expected = vec![0u8; 15];
    expected.extend_from_slice(&[1, 1, 2, 3, 4]);
    assert_eq!(key, expected);
    assert_eq!(in_edge_key(1, 0x01020304), expected);
}

#[test]
fn key_of_largest_id() {
    let key = out_edge_key(u128::MAX, u32::MAX);
    assert_eq!(key, vec![0xffu8; 20]);
    let key = in_edge_key(0x0102_0304_0506_0708_090a_0b0c_0d0e_0f10, 0);
    assert_eq!(
        key,
        vec![1, 2, 3, 4, 5, 6, 7, 8, 9, 10, 11, 12, 13, 14, 15, 16, 0, 0, 0, 0]
    );
}

#[test]
fn key_order_follows_id_order() {
    assert!(out_edge_key(1, 9) < out_edge_key(2, 0));
    assert!(out_edge_key(255, 0) < out_edge_key(256, 0));
    assert!(out_edge_key(5, 1) < out_edge_key(5, 2));
}

#[test]
fn same_bytes_compares_contents() {
    assert!(same_bytes(&vec![1, 2, 3], &vec![1, 2, 3]));
    assert!(!same_bytes(&vec![1, 2, 3], &vec![1, 2, 4]));
    assert!(!same_bytes(&vec![1, 2], &vec![1, 2, 3]));
    assert!(same_bytes(&Vec::new(), &Vec::new()));
}

#[test]
fn find_record_takes_the_row_of_the_id() {
    let snap = alice_knows_bob();
    assert_eq!(find_record(&snap.nodes, 2).map(|r| r.id), Some(2));
    assert!(find_record(&snap.nodes, 3).is_none());
}

#[test]
fn check_property_present_and_absent() {
    let a = node(1, "user", &[("name", "alice"), ("age", "30")]);
    assert_eq!(a.check_property(&"name".to_string()), Some(&"alice".to_string()));
    assert_eq!(a.check_property(&"age".to_string()), Some(&"30".to_string()));
    assert_eq!(a.check_property(&"email".to_string()), None);
    assert_eq!(a.id(), 1);
}

#[test]
fn duplicate_keeps_everything() {
    let a = node(1, "user", &[("name", "alice"), ("age", "30")]);
    let b = a.duplicate();
    assert_eq!(b.id, 1);
    assert_eq!(b.kind, ElementKind::Node);
    assert_eq!(b.data.label, "user");
    assert_eq!(b.data.properties, a.data.properties);
}

#[test]
fn outgoing_nodes_follows_the_edge() {
    let snap = alice_knows_bob();
    let found = outgoing_nodes(&snap, 1, "knows", EdgeType::Node).unwrap();
    assert_eq!(ids(&found), vec![2]);
    assert_eq!(found[0].kind, ElementKind::Node);
    assert_eq!(found[0].data.label, "user");
    assert_eq!(found[0].data.properties, vec![("name".to_string(), "bob".to_string())]);
}

#[test]
fn incoming_nodes_follows_the_edge_back() {
    let snap = alice_knows_bob();
    let found = incoming_nodes(&snap, 2, "knows", EdgeType::Node).unwrap();
    assert_eq!(ids(&found), vec![1]);
}

#[test]
fn edge_scans_yield_the_edge() {
    let snap = alice_knows_bob();
    let out = outgoing_edges(&snap, 1, "knows").unwrap();
    assert_eq!(ids(&out), vec![10]);
    assert_eq!(out[0].kind, ElementKind::Edge);
    assert_eq!(out[0].data.label, "knows");
    let inc = incoming_edges(&snap, 2, "knows").unwrap();
    assert_eq!(ids(&inc), vec![10]);
}

#[test]
fn absent_prefix_gives_empty_and_no_error() {
    let snap = alice_knows_bob();
    assert!(outgoing_nodes(&snap, 1, "likes", EdgeType::Node).unwrap().is_empty());
    assert!(outgoing_nodes(&snap, 2, "knows", EdgeType::Node).unwrap().is_empty());
    assert!(incoming_nodes(&snap, 1, "knows", EdgeType::Node).unwrap().is_empty());
    assert!(outgoing_edges(&snap, 2, "knows").unwrap().is_empty());
    assert!(incoming_edges(&snap, 1, "knows").unwrap().is_empty());
    assert!(outgoing_nodes(&empty_store(), 1, "knows", EdgeType::Node).unwrap().is_empty());
}

#[test]
fn vector_hop_reads_the_vector_table() {
    let mut snap = alice_knows_bob();
    snap.vectors.push(row(2, "embedding", &[]));
    let found = outgoing_nodes(&snap, 1, "knows", EdgeType::Vec).unwrap();
    assert_eq!(ids(&found), vec![2]);
    assert_eq!(found[0].kind, ElementKind::VectorElement);
    assert_eq!(found[0].data.label, "embedding");
}

#[test]
fn missing_target_is_passed_over() {
    let mut snap = alice_knows_bob();
    link(&mut snap, 11, "knows", 1, 99);
    snap.nodes.push(row(3, "user", &[]));
    link(&mut snap, 12, "knows", 1, 3);
    let found = outgoing_nodes(&snap, 1, "knows", EdgeType::Node).unwrap();
    assert_eq!(ids(&found), vec![2, 3]);
}

#[test]
fn malformed_entry_fails_the_scan() {
    let mut snap = alice_knows_bob();
    snap.out_edges.push(AdjacencyEntry {
        key: out_edge_key(1, hash_label("knows", None)),
        value: None,
    });
    assert_eq!(
        outgoing_nodes(&snap, 1, "knows", EdgeType::Node).unwrap_err(),
        GraphError::StorageDecodeError
    );
    assert!(outgoing_nodes(&snap, 2, "knows", EdgeType::Node).unwrap().is_empty());
}

#[test]
fn malformed_target_fails_the_scan() {
    let mut snap = alice_knows_bob();
    snap.nodes[1].data = None;
    assert_eq!(
        outgoing_nodes(&snap, 1, "knows", EdgeType::Node).unwrap_err(),
        GraphError::StorageDecodeError
    );
    assert_eq!(ids(&outgoing_edges(&snap, 1, "knows").unwrap()), vec![10]);
}

#[test]
fn hop_stops_at_one_hundred() {
    let mut snap = empty_store();
    snap.nodes.push(row(0, "hub", &[]));
    for i in 1..=150u128 {
        snap.nodes.push(row(i, "user", &[]));
        link(&mut snap, 1000 + i, "knows", 0, i);
    }
    let found = outgoing_nodes(&snap, 0, "knows", EdgeType::Node).unwrap();
    assert_eq!(found.len(), 100);
    assert_eq!(ids(&found), (1..=100u128).collect::<Vec<_>>());
}

#[test]
fn failure_behind_the_cap_is_not_seen() {
    let mut snap = empty_store();
    for i in 1..=100u128 {
        snap.nodes.push(row(i, "user", &[]));
    }
    snap.nodes.push(StoredRecord { id: 101, data: None });
    assert_eq!(nodes_by_type(&snap, &"user".to_string()).unwrap().len(), 100);
    snap.nodes.swap(99, 100);
    assert_eq!(
        nodes_by_type(&snap, &"user".to_string()).unwrap_err(),
        GraphError::StorageDecodeError
    );
}

#[test]
fn n_from_type_returns_exactly_the_users() {
    let mut snap = empty_store();
    snap.nodes.push(row(1, "user", &[]));
    snap.nodes.push(row(2, "org", &[]));
    snap.nodes.push(row(3, "user", &[]));
    snap.nodes.push(row(4, "org", &[]));
    snap.nodes.push(row(5, "user", &[]));
    let backend = McpBackend { db: snap };
    let mut session = MCPConnection::new(Vec::new());
    backend
        .advance(&mut session, &ToolArgs::NFromType { node_type: "user".to_string() })
        .unwrap();
    assert_eq!(ids(session.working_set()), vec![1, 3, 5]);
    assert!(session.working_set().iter().all(|e| e.kind == ElementKind::Node && e.data.label == "user"));
}

#[test]
fn n_from_type_never_more_than_one_hundred() {
    let mut snap = empty_store();
    for i in 0..500u128 {
        snap.nodes.push(row(i, "user", &[]));
    }
    let found = nodes_by_type(&snap, &"user".to_string()).unwrap();
    assert_eq!(ids(&found), (0..100u128).collect::<Vec<_>>());
    let backend = McpBackend { db: snap };
    let found = backend.n_from_type(&"user".to_string()).unwrap();
    assert_eq!(found.len(), 100);
}

#[test]
fn e_from_type_scans_the_edge_table() {
    let mut snap = alice_knows_bob();
    link(&mut snap, 11, "likes", 2, 1);
    link(&mut snap, 12, "knows", 2, 1);
    assert_eq!(ids(&edges_by_type(&snap, &"knows".to_string()).unwrap()), vec![10, 12]);
    let backend = McpBackend { db: snap };
    let found = backend.e_from_type(&"likes".to_string()).unwrap();
    assert_eq!(ids(&found), vec![11]);
    assert_eq!(found[0].kind, ElementKind::Edge);
    assert!(backend.e_from_type(&"owns".to_string()).unwrap().is_empty());
}

#[test]
fn session_scenario_out_step_then_filters() {
    let backend = McpBackend { db: alice_knows_bob() };
    let mut session = MCPConnection::new(vec![node(1, "user", &[("name", "alice")])]);
    backend.advance(&mut session, &out_step("knows")).unwrap();
    assert_eq!(ids(session.working_set()), vec![2]);
    assert_eq!(session.working_set()[0].data.properties, vec![("name".to_string(), "bob".to_string())]);
    backend.advance(&mut session, &props_filter(&[("name", "bob")])).unwrap();
    assert_eq!(ids(session.working_set()), vec![2]);
    backend.advance(&mut session, &props_filter(&[("name", "carol")])).unwrap();
    assert!(session.working_set().is_empty());
    assert!(session.is_open());
}

#[test]
fn property_filter_is_a_conjunction() {
    let backend = McpBackend { db: empty_store() };
    let session = MCPConnection::new(vec![
        node(1, "user", &[("name", "alice"), ("city", "paris")]),
        node(2, "user", &[("name", "alice")]),
        node(3, "user", &[("city", "paris")]),
        node(4, "user", &[("name", "alice"), ("city", "rome")]),
        node(5, "user", &[("name", "bob"), ("city", "paris")]),
        node(6, "user", &[("city", "paris"), ("name", "alice"), ("age", "3")]),
    ]);
    let found = backend
        .call(&session, &props_filter(&[("name", "alice"), ("city", "paris")]))
        .unwrap();
    assert_eq!(ids(&found), vec![1, 6]);
    let all = backend.call(&session, &props_filter(&[])).unwrap();
    assert_eq!(ids(&all), vec![1, 2, 3, 4, 5, 6]);
}

#[test]
fn filter_without_lists_keeps_everything() {
    let backend = McpBackend { db: empty_store() };
    let session = MCPConnection::new(vec![node(1, "user", &[]), node(2, "org", &[])]);
    let found = backend
        .call(&session, &ToolArgs::FilterItems { properties: None, filter_traversals: None })
        .unwrap();
    assert_eq!(ids(&found), vec![1, 2]);
}

#[test]
fn existence_filter_gates_inclusion() {
    let backend = McpBackend { db: alice_knows_bob() };
    let session = MCPConnection::new(vec![
        node(1, "user", &[("name", "alice")]),
        node(2, "user", &[("name", "bob")]),
    ]);
    let has_out = ToolArgs::FilterItems {
        properties: None,
        filter_traversals: Some(vec![out_step("knows")]),
    };
    assert_eq!(ids(&backend.call(&session, &has_out).unwrap()), vec![1]);
    let has_in_edge = ToolArgs::FilterItems {
        properties: None,
        filter_traversals: Some(vec![ToolArgs::InEStep { edge_label: "knows".to_string() }]),
    };
    assert_eq!(ids(&backend.call(&session, &has_in_edge).unwrap()), vec![2]);
    let either = ToolArgs::FilterItems {
        properties: None,
        filter_traversals: Some(vec![
            ToolArgs::InStep { edge_label: "knows".to_string(), edge_type: EdgeType::Node },
            ToolArgs::OutEStep { edge_label: "knows".to_string() },
        ]),
    };
    assert_eq!(ids(&backend.call(&session, &either).unwrap()), vec![1, 2]);
    let none = ToolArgs::FilterItems { properties: None, filter_traversals: Some(Vec::new()) };
    assert!(backend.call(&session, &none).unwrap().is_empty());
    let both = ToolArgs::FilterItems {
        properties: Some(vec![("name".to_string(), "bob".to_string())]),
        filter_traversals: Some(vec![out_step("knows")]),
    };
    assert!(backend.call(&session, &both).unwrap().is_empty());
}

#[test]
fn nested_filter_is_unsupported() {
    let backend = McpBackend { db: alice_knows_bob() };
    let mut session = MCPConnection::new(vec![node(1, "user", &[("name", "alice")])]);
    let nested = ToolArgs::FilterItems {
        properties: None,
        filter_traversals: Some(vec![
            out_step("knows"),
            ToolArgs::FilterItems { properties: None, filter_traversals: None },
        ]),
    };
    assert_eq!(backend.advance(&mut session, &nested).unwrap_err(), GraphError::UnsupportedStep);
    assert_eq!(ids(session.working_set()), vec![1]);
    let scan = ToolArgs::FilterItems {
        properties: None,
        filter_traversals: Some(vec![ToolArgs::NFromType { node_type: "user".to_string() }]),
    };
    let empty = MCPConnection::new(Vec::new());
    assert_eq!(backend.call(&empty, &scan).unwrap_err(), GraphError::UnsupportedStep);
}

#[test]
fn failed_step_leaves_the_working_set() {
    let mut snap = alice_knows_bob();
    snap.nodes[1].data = None;
    let backend = McpBackend { db: snap };
    let mut session = MCPConnection::new(vec![node(1, "user", &[("name", "alice")])]);
    assert_eq!(
        backend.advance(&mut session, &out_step("knows")).unwrap_err(),
        GraphError::StorageDecodeError
    );
    assert_eq!(ids(session.working_set()), vec![1]);
    assert!(session.is_open());
    backend
        .advance(&mut session, &ToolArgs::OutEStep { edge_label: "knows".to_string() })
        .unwrap();
    assert_eq!(ids(session.working_set()), vec![10]);
}

#[test]
fn closed_session_rejects_every_step() {
    let backend = McpBackend { db: alice_knows_bob() };
    let mut session = MCPConnection::new(vec![node(1, "user", &[("name", "alice")])]);
    session.close();
    assert!(!session.is_open());
    let steps = vec![
        out_step("knows"),
        ToolArgs::OutEStep { edge_label: "knows".to_string() },
        ToolArgs::InStep { edge_label: "knows".to_string(), edge_type: EdgeType::Node },
        ToolArgs::InEStep { edge_label: "knows".to_string() },
        ToolArgs::NFromType { node_type: "user".to_string() },
        ToolArgs::EFromType { edge_type: "knows".to_string() },
        props_filter(&[("name", "alice")]),
    ];
    for step in &steps {
        assert_eq!(backend.advance(&mut session, step).unwrap_err(), GraphError::SessionClosed);
        assert_eq!(backend.call(&session, step).unwrap_err(), GraphError::SessionClosed);
        assert_eq!(ids(session.working_set()), vec![1]);
        assert!(!session.is_open());
    }
}

#[test]
fn hop_concatenates_without_merging() {
    let mut snap = empty_store();
    snap.nodes.push(row(1, "user", &[]));
    snap.nodes.push(row(2, "user", &[]));
    snap.nodes.push(row(3, "user", &[]));
    link(&mut snap, 10, "knows", 1, 3);
    link(&mut snap, 11, "knows", 2, 3);
    link(&mut snap, 12, "knows", 1, 2);
    let backend = McpBackend { db: snap };
    let session = MCPConnection::new(vec![node(2, "user", &[]), node(1, "user", &[])]);
    let found = backend.out_step(&session, "knows", &EdgeType::Node).unwrap();
    assert_eq!(ids(&found), vec![3, 3, 2]);
    let edges = backend.out_e_step(&session, "knows").unwrap();
    assert_eq!(ids(&edges), vec![11, 10, 12]);
    let back = MCPConnection::new(vec![node(3, "user", &[])]);
    assert_eq!(ids(&backend.in_step(&back, "knows", &EdgeType::Node).unwrap()), vec![1, 2]);
    assert_eq!(ids(&backend.in_e_step(&back, "knows").unwrap()), vec![10, 11]);
}

#[test]
fn hop_over_a_set_is_capped_globally() {
    let mut snap = empty_store();
    for i in 1..=60u128 {
        snap.nodes.push(row(i, "user", &[]));
        link(&mut snap, 1000 + i, "knows", 500, i);
        link(&mut snap, 2000 + i, "knows", 501, i);
    }
    let backend = McpBackend { db: snap };
    let session = MCPConnection::new(vec![node(500, "hub", &[]), node(501, "hub", &[])]);
    let found = backend.out_step(&session, "knows", &EdgeType::Node).unwrap();
    let mut expected: Vec<u128> = (1..=60).collect();
    expected.extend(1..=40u128);
    assert_eq!(ids(&found), expected);
}

#[test]
fn builder_chains_hops() {
    let mut snap = alice_knows_bob();
    snap.nodes.push(row(3, "user", &[("name", "carol")]));
    link(&mut snap, 11, "knows", 2, 3);
    let start = vec![node(1, "user", &[])];
    let two = G::new_from(&snap, start).out("knows", EdgeType::Node).unwrap();
    let end = two.out("knows", EdgeType::Node).unwrap();
    assert_eq!(ids(&end.items), vec![3]);
    let back = end.in_("knows", EdgeType::Node).unwrap().collect_to_vec();
    assert_eq!(ids(&back), vec![2]);
    let g = G::new_from(&snap, vec![node(2, "user", &[])]);
    assert_eq!(g.probe(Direction::Out, Target::Node, "knows"), Ok(true));
    assert_eq!(g.probe(Direction::Out, Target::Node, "likes"), Ok(false));
    assert_eq!(g.probe(Direction::In, Target::Edge, "knows"), Ok(true));
    assert_eq!(ids(&g.out_e("knows").unwrap().items), vec![11]);
    let g = G::new_from(&snap, vec![node(2, "user", &[])]);
    assert_eq!(ids(&g.in_e("knows").unwrap().items), vec![10]);
}

#[test]
fn replay_gives_the_same_working_set() {
    let mut snap = alice_knows_bob();
    snap.nodes.push(row(3, "user", &[("name", "carol")]));
    link(&mut snap, 11, "knows", 1, 3);
    let backend = McpBackend { db: snap };
    let steps = vec![
        ToolArgs::NFromType { node_type: "user".to_string() },
        props_filter(&[("name", "alice")]),
        out_step("knows"),
    ];
    let mut first = MCPConnection::new(Vec::new());
    let mut second = MCPConnection::new(Vec::new());
    for step in &steps {
        backend.advance(&mut first, step).unwrap();
    }
    assert_eq!(backend.replay(&mut second, &steps), 3);
    assert_eq!(ids(first.working_set()), vec![2, 3]);
    assert_eq!(ids(first.working_set()), ids(second.working_set()));
    for (a, b) in first.working_set().iter().zip(second.working_set().iter()) {
        assert_eq!(a.kind, b.kind);
        assert_eq!(a.data.label, b.data.label);
        assert_eq!(a.data.properties, b.data.properties);
    }
}

#[test]
fn replay_goes_on_after_a_rejected_step() {
    let backend = McpBackend { db: alice_knows_bob() };
    let steps = vec![
        ToolArgs::FilterItems {
            properties: None,
            filter_traversals: Some(vec![props_filter(&[])]),
        },
        out_step("knows"),
    ];
    let mut session = MCPConnection::new(vec![node(1, "user", &[])]);
    assert_eq!(backend.replay(&mut session, &steps), 1);
    assert_eq!(ids(session.working_set()), vec![2]);
    session.close();
    assert_eq!(backend.replay(&mut session, &steps), 0);
    assert_eq!(ids(session.working_set()), vec![2]);
}

#[test]
fn errors_describe_themselves() {
    assert_eq!(GraphError::StorageDecodeError.message(), "a stored record could not be decoded");
    assert_eq!(GraphError::UnsupportedStep.message(), "the step is not supported where it stands");
    assert_eq!(GraphError::SessionClosed.message(), "the session is closed");
}

#[test]
fn seeded_session_starts_open_with_its_seed() {
    let session = MCPConnection::new(vec![node(7, "user", &[])]);
    assert!(session.is_open());
    assert_eq!(ids(session.working_set()), vec![7]);
    let empty = MCPConnection::new(Vec::new());
    assert!(empty.working_set().is_empty());
}

#[test]
fn hop_from_empty_working_set_is_empty() {
    let backend = McpBackend { db: alice_knows_bob() };
    let session = MCPConnection::new(Vec::new());
    assert!(backend.out_step(&session, "knows", &EdgeType::Node).unwrap().is_empty());
    assert!(backend.in_e_step(&session, "knows").unwrap().is_empty());
}

#[test]
fn first_property_of_a_name_wins() {
    let a = node(1, "user", &[("name", "alice"), ("name", "bob")]);
    assert_eq!(a.check_property(&"name".to_string()), Some(&"alice".to_string()));
}
