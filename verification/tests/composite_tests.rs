use qpwgraph::composite::{
    opens_at_start, pipewire_capabilities, route_for_ports, BackendAvailability, BackendCapabilities, Child, ChildAnswers,
    CompositeDriver, CompositeRoute, NodeQuery, VideoRequest,
};
use qpwgraph::ids::{
    encode_backend_id, BackendKind, BackendNamespace, LinkId, NodeId, PortId,
};
use qpwgraph::merge::merge_graph_into;
use qpwgraph::model::{
    BackendError, Direction, GraphError, Node, NodeType, Port, PortType, Position,
};

fn node(namespace: BackendNamespace, local: u64) -> NodeId {
    NodeId(encode_backend_id(namespace, local))
}

fn port(namespace: BackendNamespace, local: u64) -> PortId {
    PortId(encode_backend_id(namespace, local))
}

fn everything() -> BackendCapabilities {
    BackendCapabilities {
        topology: true,
        connect: true,
        disconnect: true,
        volume: true,
        mute: true,
        meters: true,
        effects: true,
        relay: true,
        recorders: true,
    }
}

fn topology() -> BackendCapabilities {
    BackendCapabilities { topology: true, ..BackendCapabilities::default() }
}

/// PipeWire and ALSA are open.
fn live() -> CompositeDriver {
    CompositeDriver::new(
        Child::Open(everything()),
        Child::Open(topology()),
        Child::Disabled,
        Child::Disabled,
    )
}

fn unsupported<T: std::fmt::Debug>(result: Result<T, BackendError>) -> String {
    match result {
        Err(BackendError::Unsupported(text)) => text,
        other => panic!("unexpected answer: {other:?}"),
    }
}

#[test]
fn composite_reports_cross_backend_connections_before_mutation() {
    let pipewire_output = port(BackendNamespace::PipeWire, 42);
    let alsa_output = port(BackendNamespace::AlsaMidi, 42);
    let windows_output = port(BackendNamespace::WindowsAudio, 42);

    assert_eq!(
        route_for_ports(pipewire_output, port(BackendNamespace::PipeWire, 43)),
        Ok(CompositeRoute::PipeWire)
    );
    assert_eq!(
        route_for_ports(alsa_output, port(BackendNamespace::AlsaMidi, 43)),
        Ok(CompositeRoute::AlsaMidi)
    );
    assert_eq!(
        route_for_ports(pipewire_output, port(BackendNamespace::AlsaMidi, 43)),
        Err("connections cannot cross PipeWire and ALSA MIDI backends")
    );
    assert_eq!(
        route_for_ports(alsa_output, port(BackendNamespace::PipeWire, 43)),
        Err("connections cannot cross PipeWire and ALSA MIDI backends")
    );
    assert_eq!(
        route_for_ports(windows_output, port(BackendNamespace::WindowsAudio, 43)),
        Ok(CompositeRoute::WindowsAudio)
    );
}

#[test]
fn other_backends_are_not_crossed_either() {
    assert_eq!(
        route_for_ports(
            port(BackendNamespace::WindowsAudio, 1),
            port(BackendNamespace::PipeWire, 2)
        ),
        Err("connections cannot cross native backends")
    );
    let composite = live();
    assert_eq!(
        unsupported(composite.route_connect(
            port(BackendNamespace::PipeWire, 1),
            port(BackendNamespace::AlsaMidi, 2)
        )),
        "connections cannot cross PipeWire and ALSA MIDI backends"
    );
    assert_eq!(
        composite.route_connect(
            port(BackendNamespace::PipeWire, 1),
            port(BackendNamespace::PipeWire, 2)
        ),
        Ok(CompositeRoute::PipeWire)
    );
}

#[test]
fn missing_children_are_reported() {
    let composite = CompositeDriver::new(
        Child::Missing,
        Child::Missing,
        Child::Missing,
        Child::Missing,
    );
    assert_eq!(
        unsupported(composite.child(CompositeRoute::PipeWire)),
        "PipeWire backend is unavailable"
    );
    assert_eq!(
        unsupported(composite.child(CompositeRoute::AlsaMidi)),
        "ALSA MIDI backend is unavailable"
    );
    assert_eq!(
        unsupported(composite.child(CompositeRoute::WindowsAudio)),
        "Windows audio backend is unavailable"
    );
    assert_eq!(
        unsupported(composite.child(CompositeRoute::WindowsMidi)),
        "Windows MIDI backend is unavailable"
    );
    assert_eq!(
        unsupported(composite.child(CompositeRoute::Demo)),
        "demo resources are not part of the live composite"
    );
    assert_eq!(
        unsupported(composite.effect_backend()),
        "PipeWire backend is unavailable"
    );
    let none = CompositeDriver::new(
        Child::Disabled,
        Child::Disabled,
        Child::Disabled,
        Child::Disabled,
    );
    assert_eq!(
        unsupported(none.child(CompositeRoute::PipeWire)),
        "PipeWire backend is disabled"
    );
    assert_eq!(
        unsupported(none.child(CompositeRoute::AlsaMidi)),
        "ALSA MIDI backend is disabled"
    );
    assert_eq!(
        unsupported(none.effect_backend()),
        "effect processing is unavailable"
    );
    assert_eq!(none.effect_list_backend(), None);
    assert_eq!(none.effect_events_backend(), Ok(None));
    assert_eq!(composite.effect_list_backend(), None);
    assert_eq!(
        unsupported(composite.effect_events_backend()),
        "PipeWire backend is unavailable"
    );
    assert_eq!(
        unsupported(none.relay_backend()),
        "audio relay is not available for this backend"
    );
    assert_eq!(
        unsupported(none.route_create_recorder()),
        "recorder backend is unavailable"
    );
    assert_eq!(
        unsupported(none.video_backend(VideoRequest::Filter)),
        "video filters need the PipeWire backend"
    );
    assert_eq!(
        unsupported(none.video_backend(VideoRequest::ScreenCapture)),
        "screen capture needs the PipeWire backend"
    );
    assert_eq!(
        unsupported(composite.video_backend(VideoRequest::VirtualDisplay)),
        "PipeWire backend is unavailable"
    );
    assert!(!none.has_pipewire() && !none.has_alsa());
    assert!(!none.has_windows_audio() && !none.has_windows_midi());
}

#[test]
fn audio_questions_reach_the_owning_backend() {
    let composite = live();
    assert_eq!(
        composite.route_node_audio_state(node(BackendNamespace::PipeWire, 5)),
        Ok(NodeQuery::Ask(CompositeRoute::PipeWire))
    );
    assert_eq!(
        composite.route_node_capabilities(node(BackendNamespace::PipeWire, 5)),
        NodeQuery::Ask(CompositeRoute::PipeWire)
    );
    assert_eq!(
        composite.route_node_audio_state(node(BackendNamespace::AlsaMidi, 5)),
        Ok(NodeQuery::Nothing)
    );
    assert_eq!(
        unsupported(composite.route_node_audio_state(node(BackendNamespace::Demo, 5))),
        "demo resources are not part of the live composite"
    );
    assert_eq!(
        composite.route_set_node_mute(node(BackendNamespace::PipeWire, 5)),
        Ok(CompositeRoute::PipeWire)
    );
    assert_eq!(
        unsupported(composite.route_set_node_mute(node(BackendNamespace::AlsaMidi, 5))),
        "ALSA MIDI nodes do not expose audio mute"
    );
    assert_eq!(
        unsupported(composite.route_set_node_volume(node(BackendNamespace::WindowsMidi, 5))),
        "Windows MIDI nodes do not expose audio volume"
    );
    assert_eq!(composite.audio_backend(), Some(CompositeRoute::PipeWire));
}

#[test]
fn capabilities_are_joined() {
    let composite = live();
    assert_eq!(composite.capabilities(), everything());
    assert_eq!(composite.capabilities_for_backend(BackendKind::AlsaMidi), topology());
    assert_eq!(
        composite.capabilities_for_backend(BackendKind::WindowsAudio),
        BackendCapabilities::default()
    );
    assert_eq!(everything().union(topology()), everything());
    assert_eq!(pipewire_capabilities(true, true), everything());
    assert!(!pipewire_capabilities(false, true).relay);
    assert_eq!(
        composite.capabilities_for_node(node(BackendNamespace::PipeWire, 1), false),
        BackendCapabilities { connect: false, disconnect: false, ..everything() }
    );
    assert_eq!(
        composite.capabilities_for_node(node(BackendNamespace::PipeWire, 1), true),
        everything()
    );
    assert!(composite.node_supports_routing(node(BackendNamespace::PipeWire, 1), true));
    assert!(!composite.node_supports_routing(node(BackendNamespace::PipeWire, 1), false));
    assert!(!composite.node_supports_routing(node(BackendNamespace::WindowsAudio, 1), true));
}

#[test]
fn children_are_asked_together() {
    let composite = live();
    let nobody =
        ChildAnswers { pipewire: false, alsa: false, windows_audio: false, windows_midi: false };
    assert!(!composite.any_child(nobody));
    assert!(composite.any_child(ChildAnswers { alsa: true, ..nobody }));
    // A backend that is not open has nothing to say.
    assert!(!composite.any_child(ChildAnswers { windows_audio: true, ..nobody }));
    assert_eq!(
        composite.route_connection_support(
            port(BackendNamespace::PipeWire, 1),
            port(BackendNamespace::PipeWire, 2)
        ),
        Some(CompositeRoute::PipeWire)
    );
    assert_eq!(
        composite.route_connection_support(
            port(BackendNamespace::PipeWire, 1),
            port(BackendNamespace::AlsaMidi, 2)
        ),
        None
    );
}

#[test]
fn links_are_taken_down_where_they_live() {
    let mut composite = live();
    let mut part = qpwgraph::graph::Graph::new();
    let owner = node(BackendNamespace::PipeWire, 1);
    part.add_node(Node::new(owner, "loop", NodeType::PipeWire)).unwrap();
    part.add_port(Port::new(
        port(BackendNamespace::PipeWire, 2),
        owner,
        "out",
        Direction::Source,
        PortType::Audio,
    ))
    .unwrap();
    part.add_port(Port::new(
        port(BackendNamespace::PipeWire, 3),
        owner,
        "in",
        Direction::Sink,
        PortType::Audio,
    ))
    .unwrap();
    let link = part
        .add_link(
            LinkId(encode_backend_id(BackendNamespace::PipeWire, 4)),
            port(BackendNamespace::PipeWire, 2),
            port(BackendNamespace::PipeWire, 3),
        )
        .unwrap();
    merge_graph_into(&mut composite.graph, &part).unwrap();
    assert_eq!(
        composite.route_disconnect(link.id),
        Ok((link, CompositeRoute::PipeWire))
    );
    assert_eq!(
        composite.route_disconnect(LinkId(9)),
        Err(BackendError::Graph(GraphError::MissingLink(LinkId(9))))
    );
    assert!(composite.route_is_link_mutable(link.id, true));
    assert!(!composite.route_is_link_mutable(link.id, false));
    assert!(!composite.route_is_link_mutable(LinkId(9), true));
    assert_eq!(
        composite.route_set_node_position(owner),
        Ok(CompositeRoute::PipeWire)
    );
    let place = Position { x: 1, y: 2 };
    composite.position_set(owner, place);
    assert_eq!(composite.graph.node(owner).unwrap().position, place);
}

#[test]
fn recorders_stay_with_their_backend() {
    let mut composite = live();
    assert_eq!(composite.route_create_recorder(), Ok(CompositeRoute::PipeWire));
    composite.recorder_created(7, CompositeRoute::PipeWire);
    assert_eq!(composite.route_recorder(7), Ok(CompositeRoute::PipeWire));
    assert_eq!(composite.route_remove_recorder(7), Ok(Some(CompositeRoute::PipeWire)));
    composite.recorder_removed(7);
    assert!(composite.route_recorder(7).is_err());
}

#[test]
fn opened_backends_are_recorded() {
    let mut seen = BackendAvailability::default();
    seen.record(BackendKind::PipeWire, None);
    seen.record(BackendKind::AlsaMidi, Some("no sequencer".to_string()));
    assert!(seen.pipewire);
    assert!(!seen.alsa);
    assert_eq!(seen.failures, vec!["no sequencer".to_string()]);
    assert!(opens_at_start(BackendKind::AlsaMidi, false));
    assert!(!opens_at_start(BackendKind::AlsaMidi, true));
    assert!(opens_at_start(BackendKind::PipeWire, true));
    assert!(!opens_at_start(BackendKind::Demo, false));
    assert_eq!(
        CompositeRoute::from_backend(BackendKind::WindowsMidi),
        CompositeRoute::WindowsMidi
    );
}
