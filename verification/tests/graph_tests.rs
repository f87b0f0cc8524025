use qpwgraph::blocking::{BlockedConnections, Rebuild, RebuildStep, REBUILD_PASSES};
use qpwgraph::drivers::{existing_connections, ApplicationDriver};
use qpwgraph::graph::Graph;
use qpwgraph::ids::{
    backend_for_link, backend_for_node, backend_for_port, decode_backend_local_id,
    decode_backend_namespace, encode_backend_id, graph_id, native_id, native_link_id,
    native_node_id, native_port_id, BackendKind, BackendNamespace, LinkId, NodeId, PortId,
};
use qpwgraph::insertion::{host_node, links_touching, retire, splice};
use qpwgraph::merge::{merge_graph_into, refresh_due};
use qpwgraph::model::{
    native_error, port_keys_equal, port_types_compatible, BackendError, Direction, GraphError, Link,
    Node, NodeIdentity, NodeType, Port, PortKey, PortType, Position,
};

const ALL: [BackendNamespace; 5] = [
    BackendNamespace::PipeWire,
    BackendNamespace::AlsaMidi,
    BackendNamespace::WindowsAudio,
    BackendNamespace::WindowsMidi,
    BackendNamespace::Demo,
];

/// A microphone with one port and speakers with two.
fn fixture() -> Graph {
    let mut graph = Graph::new();
    graph.add_node(Node::new(NodeId(1), "Microphone", NodeType::PipeWire)).unwrap();
    graph.add_node(Node::new(NodeId(2), "Speakers", NodeType::PipeWire)).unwrap();
    graph
        .add_port(Port::new(PortId(10), NodeId(1), "capture", Direction::Source, PortType::Audio))
        .unwrap();
    graph
        .add_port(
            Port::new(PortId(20), NodeId(2), "playback_FL", Direction::Sink, PortType::Audio)
                .with_channel("FL"),
        )
        .unwrap();
    graph
        .add_port(
            Port::new(PortId(21), NodeId(2), "playback_FR", Direction::Sink, PortType::Audio)
                .with_channel("FR"),
        )
        .unwrap();
    graph
}

#[test]
fn merging_a_graph_lists_every_port_once() {
    let mut source = Graph::new();
    let node_id = NodeId(encode_backend_id(BackendNamespace::PipeWire, 7));
    let port_id = PortId(encode_backend_id(BackendNamespace::PipeWire, 8));
    source.add_node(Node::new(node_id, "Speakers", NodeType::PipeWire)).unwrap();
    source
        .add_port(Port::new(port_id, node_id, "audio", Direction::Sink, PortType::Audio))
        .unwrap();

    let mut merged = Graph::new();
    merge_graph_into(&mut merged, &source).expect("merge succeeds");

    assert_eq!(merged.nodes[&node_id.0].ports, vec![port_id]);
}

#[test]
fn a_composite_merges_children_without_overlapping_namespaces() {
    let mut graph = Graph::new();
    graph.add_node(Node::new(NodeId(1), "PipeWire", NodeType::PipeWire)).unwrap();
    graph
        .add_port(Port::new(PortId(1), NodeId(1), "out", Direction::Source, PortType::Audio))
        .unwrap();
    assert!(graph.port(PortId(1)).is_some());
}

#[test]
fn application_driver_blanket_impl_covers_the_deterministic_driver() {
    fn accepts_driver<T: ApplicationDriver>(_driver: &T) {}
    accepts_driver(&qpwgraph::demo::DemoDriver::demo());
}

const NOW: u64 = 60_000_000_000;
const SECOND: u64 = 1_000_000_000;

#[test]
fn refresh_schedule_polls_when_a_child_has_no_deadline_yet() {
    assert!(refresh_due(None, false, NOW));
}

#[test]
fn refresh_schedule_prioritizes_dirty_children() {
    assert!(refresh_due(Some(NOW + 30 * SECOND), true, NOW));
    assert!(!refresh_due(Some(NOW + 30 * SECOND), false, NOW));
}

#[test]
fn refresh_schedule_expires_at_the_child_deadline() {
    assert!(!refresh_due(Some(NOW + 30 * SECOND), false, NOW));
    assert!(refresh_due(Some(NOW - SECOND / 1000), false, NOW));
    assert!(refresh_due(Some(NOW), false, NOW));
}

#[test]
fn adding_objects_is_checked() {
    let mut graph = fixture();
    let before = graph.duplicate();
    assert_eq!(
        graph.add_node(Node::new(NodeId(1), "Again", NodeType::PipeWire)),
        Err(GraphError::DuplicateNode(NodeId(1)))
    );
    assert_eq!(
        graph.add_port(Port::new(PortId(10), NodeId(2), "x", Direction::Sink, PortType::Audio)),
        Err(GraphError::DuplicatePort(PortId(10)))
    );
    assert_eq!(
        graph.add_port(Port::new(PortId(30), NodeId(9), "x", Direction::Sink, PortType::Audio)),
        Err(GraphError::MissingNode(NodeId(9)))
    );
    assert_eq!(graph, before);
    assert_eq!(graph.node(NodeId(2)).unwrap().ports, vec![PortId(20), PortId(21)]);
    assert!(graph.node(NodeId(3)).is_none());
    assert!(graph.port(PortId(3)).is_none());
    assert!(graph.link(LinkId(3)).is_none());
}

#[test]
fn links_are_checked() {
    let mut graph = fixture();
    assert_eq!(
        graph.add_link(LinkId(1), PortId(99), PortId(20)),
        Err(GraphError::MissingPort(PortId(99)))
    );
    assert_eq!(
        graph.add_link(LinkId(1), PortId(10), PortId(99)),
        Err(GraphError::MissingPort(PortId(99)))
    );
    assert_eq!(
        graph.add_link(LinkId(1), PortId(20), PortId(21)),
        Err(GraphError::NotSource(PortId(20)))
    );
    assert_eq!(
        graph.add_link(LinkId(1), PortId(10), PortId(10)),
        Err(GraphError::NotSink(PortId(10)))
    );
    graph
        .add_port(Port::new(PortId(22), NodeId(2), "video", Direction::Sink, PortType::Video))
        .unwrap();
    assert_eq!(
        graph.add_link(LinkId(1), PortId(10), PortId(22)),
        Err(GraphError::IncompatiblePorts(PortId(10), PortId(22)))
    );
    let link = graph.add_link(LinkId(1), PortId(10), PortId(20)).unwrap();
    assert_eq!(
        link,
        Link { id: LinkId(1), output_port: PortId(10), input_port: PortId(20) }
    );
    assert_eq!(
        graph.add_link(LinkId(1), PortId(10), PortId(21)),
        Err(GraphError::DuplicateLink(LinkId(1)))
    );
    assert_eq!(
        graph.add_link(LinkId(2), PortId(10), PortId(20)),
        Err(GraphError::DuplicateConnection(PortId(10), PortId(20)))
    );
    assert!(graph.is_connected(PortId(10), PortId(20)));
    assert!(!graph.is_connected(PortId(10), PortId(21)));
    assert_eq!(
        graph.remove_link(LinkId(5)),
        Err(GraphError::MissingLink(LinkId(5)))
    );
}

#[test]
fn unlinking_undoes_linking() {
    let mut graph = fixture();
    let before = graph.duplicate();
    graph.add_link(LinkId(1), PortId(10), PortId(20)).unwrap();
    let linked = graph.duplicate();
    let link = graph.remove_link(LinkId(1)).unwrap();
    assert_eq!(graph, before);
    graph.insert_existing_link(link).unwrap();
    assert_eq!(graph, linked);
}

#[test]
fn a_node_leaves_with_its_ports_and_links() {
    let mut graph = fixture();
    graph.add_link(LinkId(1), PortId(10), PortId(20)).unwrap();
    graph.add_link(LinkId(2), PortId(10), PortId(21)).unwrap();
    assert_eq!(graph.links_at_node(NodeId(2)), vec![1, 2]);
    graph.remove_node(NodeId(2)).unwrap();
    assert!(graph.links.is_empty());
    assert_eq!(graph.ports.len(), 1);
    assert_eq!(
        graph.remove_node(NodeId(2)),
        Err(GraphError::MissingNode(NodeId(2)))
    );
}

#[test]
fn positions_are_kept() {
    let mut graph = fixture();
    let place = Position { x: 5f32.to_bits(), y: 7f32.to_bits() };
    graph.set_position(NodeId(1), place).unwrap();
    assert_eq!(graph.node(NodeId(1)).unwrap().position, place);
    assert_eq!(
        graph.set_position(NodeId(4), place),
        Err(GraphError::MissingNode(NodeId(4)))
    );
    assert_eq!(Position::origin(), Position { x: 0f32.to_bits(), y: 0f32.to_bits() });
}

#[test]
fn port_keys_lead_back_to_their_port() {
    let graph = fixture();
    let key = graph.port_key(PortId(21)).unwrap();
    assert_eq!(
        key,
        PortKey {
            node_name: "Speakers".to_string(),
            node_type: NodeType::PipeWire,
            port_name: "playback_FR".to_string(),
            channel: Some("FR".to_string()),
            direction: Direction::Sink,
            port_type: PortType::Audio,
        }
    );
    assert_eq!(graph.resolve_port_key(&key), Some(PortId(21)));
    assert!(graph.port_key(PortId(77)).is_none());
    let mut other = key.duplicate();
    other.channel = None;
    assert_eq!(graph.resolve_port_key(&other), Some(PortId(21)));
    assert!(port_keys_equal(&key, &other));
    other.channel = Some("FL".to_string());
    assert_eq!(graph.resolve_port_key(&other), None);
    assert!(!port_keys_equal(&key, &other));
    assert!(key.same_as(&key.duplicate()));
    assert!(!key.same_as(&other));
    assert!(port_keys_equal(&key, &key.duplicate()));
}

#[test]
fn ports_of_unknown_media_fit_every_port() {
    assert!(port_types_compatible(PortType::Audio, PortType::Audio));
    assert!(!port_types_compatible(PortType::Audio, PortType::Video));
    assert!(!port_types_compatible(PortType::MidiJack, PortType::Audio));
    assert!(port_types_compatible(PortType::Unknown, PortType::Audio));
    assert!(port_types_compatible(PortType::Video, PortType::Unknown));
}

#[test]
fn identifiers_keep_their_backend() {
    for namespace in ALL {
        for local in [0u64, 7, 0x00FF_FFFF_FFFF_FFFF] {
            let id = encode_backend_id(namespace, local);
            assert_eq!(decode_backend_namespace(id), Some(namespace));
            assert_eq!(decode_backend_local_id(id), local);
        }
    }
    assert_eq!(
        backend_for_node(NodeId(encode_backend_id(BackendNamespace::AlsaMidi, 3))),
        Some(BackendKind::AlsaMidi)
    );
    assert_eq!(
        backend_for_port(PortId(encode_backend_id(BackendNamespace::WindowsMidi, 3))),
        Some(BackendKind::WindowsMidi)
    );
    assert_eq!(
        backend_for_link(LinkId(encode_backend_id(BackendNamespace::Demo, 3))),
        Some(BackendKind::Demo)
    );
}

#[test]
fn native_identifiers_round_trip() {
    let id = graph_id(4_000_000_000);
    assert_eq!(native_id(id), 4_000_000_000);
    assert_eq!(native_node_id(NodeId(id)), 4_000_000_000);
    assert_eq!(native_port_id(PortId(id)), 4_000_000_000);
    assert_eq!(native_link_id(LinkId(id)), 4_000_000_000);
    assert_eq!(backend_for_node(NodeId(id)), Some(BackendKind::PipeWire));
}

#[test]
fn graphs_of_different_backends_merge() {
    let mut merged = Graph::new();
    for namespace in ALL {
        let mut part = Graph::new();
        let node = NodeId(encode_backend_id(namespace, 1));
        part.add_node(Node::new(node, "device", NodeType::PipeWire)).unwrap();
        part.add_port(Port::new(
            PortId(encode_backend_id(namespace, 2)),
            node,
            "out",
            Direction::Source,
            PortType::Audio,
        ))
        .unwrap();
        part.add_port(Port::new(
            PortId(encode_backend_id(namespace, 3)),
            node,
            "in",
            Direction::Sink,
            PortType::Audio,
        ))
        .unwrap();
        part.add_link(
            LinkId(encode_backend_id(namespace, 4)),
            PortId(encode_backend_id(namespace, 2)),
            PortId(encode_backend_id(namespace, 3)),
        )
        .unwrap();
        merge_graph_into(&mut merged, &part).unwrap();
    }
    assert_eq!(merged.nodes.len(), 5);
    assert_eq!(merged.ports.len(), 10);
    assert_eq!(merged.links.len(), 5);
}

#[test]
fn merging_a_graph_twice_is_refused() {
    let part = fixture();
    let mut merged = Graph::new();
    merge_graph_into(&mut merged, &part).unwrap();
    assert_eq!(
        merge_graph_into(&mut merged, &part),
        Err(GraphError::DuplicateNode(NodeId(1)))
    );
}

#[test]
fn hosting_splicing_and_retiring_restore_the_graph() {
    let mut graph = fixture();
    let direct = graph.add_link(LinkId(1), PortId(10), PortId(20)).unwrap();
    let before = graph.duplicate();
    host_node(
        &mut graph,
        Node::new(NodeId(5), "Gate", NodeType::Effect),
        PortId(50),
        PortId(51),
    )
    .unwrap();
    splice(&mut graph, NodeId(5), direct, LinkId(2), LinkId(3), PortId(50), PortId(51)).unwrap();
    assert!(!graph.is_connected(PortId(10), PortId(20)));
    assert!(graph.is_connected(PortId(10), PortId(50)));
    assert!(graph.is_connected(PortId(51), PortId(20)));
    assert_eq!(links_touching(&graph, PortId(50), PortId(51)), vec![2, 3]);
    retire(&mut graph, NodeId(5), PortId(50), PortId(51), Some(direct)).unwrap();
    assert_eq!(graph, before);
}

#[test]
fn blocked_connections_are_found_again() {
    let mut graph = fixture();
    let link = graph.add_link(LinkId(1), PortId(10), PortId(20)).unwrap();
    let other = graph.add_link(LinkId(2), PortId(10), PortId(21)).unwrap();
    let mut blocked = BlockedConnections::new();
    assert!(!blocked.connection_is_blocked(&graph, &link));
    blocked.block_connection(&graph, &link);
    assert!(blocked.connection_is_blocked(&graph, &link));
    assert!(!blocked.connection_is_blocked(&graph, &other));
    assert_eq!(blocked.suppressed_links(&graph), vec![1]);

    let output = graph.port_key(PortId(10)).unwrap();
    let input = graph.port_key(PortId(20)).unwrap();
    assert!(blocked.is_blocked_pair(&output, &input));
    blocked.allow_connection(&output, &input);
    assert_eq!(blocked, BlockedConnections::new());
    blocked.suppress_connection(&output, &input);
    blocked.suppress_connection(&output, &input);
    assert_eq!(blocked.pairs.len(), 1);
    assert!(blocked.keep_direct_connection(&graph, PortId(10), PortId(20)));
    assert!(blocked.pairs.is_empty());
    assert!(!blocked.keep_direct_connection(&graph, PortId(21), PortId(10)));
}

#[test]
fn a_rebuild_gives_up_after_its_passes() {
    let mut graph = fixture();
    let link = graph.add_link(LinkId(1), PortId(10), PortId(20)).unwrap();
    let mut blocked = BlockedConnections::new();
    blocked.block_connection(&graph, &link);
    let mut rebuild = Rebuild::new();
    let mut rounds = 0;
    while rebuild.step(&graph, &blocked) == RebuildStep::Destroy(vec![1]) {
        rounds += 1;
        assert!(rounds <= REBUILD_PASSES);
    }
    assert_eq!(rounds, REBUILD_PASSES - 1);
    let mut rebuild = Rebuild::new();
    graph.remove_link(LinkId(1)).unwrap();
    assert_eq!(rebuild.step(&graph, &blocked), RebuildStep::Done);
}

#[test]
fn connections_are_listed_by_their_ports() {
    let mut driver = qpwgraph::demo::DemoDriver::demo();
    assert!(existing_connections(&driver).is_empty());
    driver.connect(PortId(1), PortId(3)).unwrap();
    assert_eq!(existing_connections(&driver), vec![(PortId(1), PortId(3))]);
}

#[test]
fn errors_have_texts() {
    let texts = [
        GraphError::MissingNode(NodeId(1)).to_text(),
        GraphError::MissingPort(PortId(1)).to_text(),
        GraphError::MissingLink(LinkId(1)).to_text(),
        GraphError::DuplicateNode(NodeId(1)).to_text(),
        GraphError::DuplicatePort(PortId(1)).to_text(),
        GraphError::DuplicateLink(LinkId(1)).to_text(),
        GraphError::NotSource(PortId(1)).to_text(),
        GraphError::NotSink(PortId(1)).to_text(),
        GraphError::IncompatiblePorts(PortId(1), PortId(2)).to_text(),
        GraphError::DuplicateConnection(PortId(1), PortId(2)).to_text(),
    ];
    for (i, text) in texts.iter().enumerate() {
        assert!(!text.is_empty());
        assert!(texts.iter().skip(i + 1).all(|other| other != text));
    }
    assert_eq!(texts[0], "unknown node 1");
    assert_eq!(texts[8], "incompatible ports 1 and 2");
    assert_eq!(
        native_error("create link", "no such port"),
        BackendError::native("create link failed: no such port")
    );
    assert_eq!(
        BackendError::Graph(GraphError::MissingNode(NodeId(1))).to_text(),
        texts[0]
    );
}

#[test]
fn an_identity_can_be_given() {
    let identity = NodeIdentity::named("player");
    let node = Node::new(NodeId(1), "Player", NodeType::PipeWire)
        .with_serial(9)
        .with_effect_instance("gate-1")
        .with_identity(identity.duplicate());
    assert_eq!(node.identity, identity);
    assert_eq!(node.serial, Some(9));
    assert_eq!(node.effect_instance_id, Some("gate-1".to_string()));
    assert_eq!(node.duplicate(), node);
}
