use qpwgraph::audio_controls::{
    apply_props_reading, nodes_to_read, parse_props, set_node_mute, set_node_volume,
    AudioControls, ControlRoute,
    NodeAudioState, NodeCapabilities, NodeProperty, PropsReading,
};
use qpwgraph::graph::Graph;
use qpwgraph::ids::{graph_id, LinkId, NodeId, PortId};
use qpwgraph::metering::{
    is_measurable_audio_node, is_node_measurable, list_contains, measurable_nodes,
    media_class_is_playback_sink, meter_stream, node_has_audio, nodes_to_meter, same_list,
    stream_target, MeterBoard, MeterPolicy, MeterStream, METER_LINGER_NANOS,
};
use qpwgraph::model::{
    BackendError, Direction, GraphError, Node, NodeType, PortType, Position,
};
use qpwgraph::registry::{
    classify_port_type, is_default_metadata, non_empty_property, parse_default_device,
    DefaultDevice, MetadataBindings, ObjectKind, Properties, RegistryState,
};
use qpwgraph::relay_callback::RelayNodeKind;
use qpwgraph::relay_playback::RelayPlaybackShared;
use qpwgraph::roundtrip::Roundtrip;
use qpwgraph::snapshot::build_graph_from_state;
use qpwgraph::streams::{
    effect_properties, meter_properties, recorder_properties, relay_properties,
};
use std::collections::BTreeMap;

fn props(entries: &[(&str, &str)]) -> Properties {
    Properties {
        entries: entries.iter().map(|(k, v)| (k.to_string(), v.to_string())).collect(),
    }
}

fn announce(state: &mut RegistryState, id: u32, kind: ObjectKind, entries: &[(&str, &str)]) {
    assert!(state.apply_global(id, kind, Some(&props(entries))));
}

/// A player that feeds one side of a sound card.
fn desk() -> RegistryState {
    let mut state = RegistryState::new();
    announce(
        &mut state,
        30,
        ObjectKind::Client,
        &[("application.name", "Player"), ("application.id", "org.player")],
    );
    announce(
        &mut state,
        40,
        ObjectKind::Node,
        &[
            ("node.name", "player"),
            ("media.class", "Stream/Output/Audio"),
            ("object.serial", "400"),
            ("client.id", "30"),
        ],
    );
    announce(
        &mut state,
        41,
        ObjectKind::Node,
        &[
            ("node.name", "card"),
            ("node.description", "Sound card"),
            ("media.class", "Audio/Sink"),
            ("object.serial", "410"),
        ],
    );
    announce(
        &mut state,
        50,
        ObjectKind::Port,
        &[
            ("node.id", "40"),
            ("port.name", "output_FL"),
            ("audio.channel", "FL"),
            ("port.direction", "out"),
            ("format.dsp", "32 bit float mono audio"),
        ],
    );
    announce(
        &mut state,
        51,
        ObjectKind::Port,
        &[
            ("node.id", "41"),
            ("port.name", "playback_FL"),
            ("audio.channel", "FL"),
            ("port.direction", "in"),
            ("format.dsp", "32 bit float mono audio"),
        ],
    );
    announce(
        &mut state,
        60,
        ObjectKind::Link,
        &[("link.output.port", "50"), ("link.input.port", "51")],
    );
    state
}

fn built(state: &RegistryState) -> Graph {
    let mut positions = BTreeMap::new();
    build_graph_from_state(state, &BTreeMap::new(), &mut positions, &BTreeMap::new())
}

#[test]
fn classifies_media_types_without_case_sensitive_metadata() {
    assert_eq!(classify_port_type("Audio", None), PortType::Audio);
    assert_eq!(classify_port_type("video/raw", None), PortType::Video);
    assert_eq!(classify_port_type("", Some("Midi/Source")), PortType::MidiJack);
}

#[test]
fn prefers_explicit_port_media_metadata() {
    assert_eq!(classify_port_type("audio/raw", Some("Video/Source")), PortType::Audio);
    assert_eq!(classify_port_type("midi/raw", Some("Audio/Source")), PortType::MidiJack);
    assert_eq!(classify_port_type("", Some("Stream/Output")), PortType::Unknown);
}

#[test]
fn meter_policy_round_trips_and_defaults_safely() {
    for policy in MeterPolicy::all() {
        assert_eq!(MeterPolicy::parse(policy.as_str()), policy);
    }
    assert_eq!(MeterPolicy::parse("OFF"), MeterPolicy::Disabled);
    assert_eq!(MeterPolicy::parse("all"), MeterPolicy::Always);
    // An unreadable or older config must not silently start metering
    // everything, so anything unrecognized lands on the default.
    assert_eq!(MeterPolicy::parse("nonsense"), MeterPolicy::default());
    assert_eq!(MeterPolicy::default(), MeterPolicy::OnDemand);
}

#[test]
fn playback_sinks_are_measurable_through_their_monitor() {
    // Speakers: input ports only, no source port anywhere.
    assert!(is_measurable_audio_node("Audio/Sink", false, true));
    // A capture device keeps working exactly as before.
    assert!(is_measurable_audio_node("Audio/Source", true, false));
    // So does an application playing audio.
    assert!(is_measurable_audio_node("Stream/Output/Audio", true, false));
}

#[test]
fn nodes_without_measurable_audio_are_left_alone() {
    // A recording application is not a sink and has no source port, so
    // there is nothing to capture and no stream should be opened for it.
    assert!(!is_measurable_audio_node("Stream/Input/Audio", false, true));
    // Video and MIDI nodes report neither audio direction.
    assert!(!is_measurable_audio_node("Video/Sink", false, false));
    assert!(!is_measurable_audio_node("Midi/Bridge", false, false));
    // A sink with no audio ports at all is not measurable either.
    assert!(!is_measurable_audio_node("Audio/Sink", false, false));
}

#[test]
fn playback_sink_detection_matches_the_meter_stream_rule() {
    assert!(media_class_is_playback_sink("Audio/Sink"));
    assert!(media_class_is_playback_sink("audio/sink"));
    assert!(!media_class_is_playback_sink("Audio/Source"));
    assert!(!media_class_is_playback_sink("Stream/Output/Audio"));
    assert!(!media_class_is_playback_sink(""));
    // A meter stream captures a sink exactly where the rule says so.
    let state = desk();
    let card = meter_stream(NodeId(graph_id(41)), &state.nodes[&41]);
    assert!(card.capture_sink);
    let player = meter_stream(NodeId(graph_id(40)), &state.nodes[&40]);
    assert!(!player.capture_sink);
}

#[test]
fn volume_only_props_keep_mute_unknown() {
    let mut state = NodeAudioState::unsupported();
    apply_props_reading(
        &mut state,
        PropsReading { volume: Some(0.5f32.to_bits()), muted: None },
    );
    assert_eq!(state.volume, Some(0.5f32.to_bits()));
    assert!(state.volume_readable);
    assert_eq!(state.muted, None);
    assert!(!state.mute_readable);
}

#[test]
fn mute_only_props_keep_volume_unknown() {
    let mut state = NodeAudioState::unsupported();
    apply_props_reading(&mut state, PropsReading { volume: None, muted: Some(true) });
    assert_eq!(state.muted, Some(true));
    assert!(state.mute_readable);
    assert_eq!(state.volume, None);
    assert!(!state.volume_readable);
}

#[test]
fn both_props_are_applied_independently() {
    let mut state = NodeAudioState::unsupported();
    apply_props_reading(
        &mut state,
        PropsReading { volume: Some(0.75f32.to_bits()), muted: Some(false) },
    );
    assert_eq!(state.volume, Some(0.75f32.to_bits()));
    assert_eq!(state.muted, Some(false));
    assert!(state.volume_readable && state.mute_readable);
}

#[test]
fn missing_props_do_not_change_existing_state() {
    let mut state = NodeAudioState::readable(0.8f32.to_bits(), true);
    apply_props_reading(&mut state, PropsReading::default());
    assert_eq!(state, NodeAudioState::readable(0.8f32.to_bits(), true));
}

#[test]
fn a_pod_that_is_not_a_props_object_reads_as_nothing() {
    assert!(parse_props(&vec![]).is_empty());
    assert!(parse_props(&vec![NodeProperty::Other, NodeProperty::Other]).is_empty());
}

#[test]
fn properties_are_read_from_their_list() {
    let reading = parse_props(&vec![
        NodeProperty::Other,
        NodeProperty::Mute(true),
        NodeProperty::Volume(0.25f32.to_bits()),
    ]);
    assert_eq!(
        reading,
        PropsReading { volume: Some(0.25f32.to_bits()), muted: Some(true) }
    );
    assert!(!reading.is_empty());
}

#[test]
fn announced_objects_become_a_graph() {
    let state = desk();
    let graph = built(&state);
    assert_eq!(graph.nodes.len(), 2);
    assert_eq!(graph.ports.len(), 2);
    let player = graph.node(NodeId(graph_id(40))).unwrap();
    assert_eq!(player.name, "player");
    assert_eq!(player.serial, Some(400));
    assert_eq!(player.ports, vec![PortId(graph_id(50))]);
    assert_eq!(player.identity.application_name, Some("Player".to_string()));
    assert_eq!(player.node_type, NodeType::PipeWire);
    let port = graph.port(PortId(graph_id(51))).unwrap();
    assert_eq!(port.direction, Direction::Sink);
    assert_eq!(port.port_type, PortType::Audio);
    let link = graph.link(LinkId(graph_id(60))).unwrap();
    assert_eq!(link.output_port, PortId(graph_id(50)));
    assert_eq!(link.input_port, PortId(graph_id(51)));
}

#[test]
fn meters_do_not_show() {
    let mut state = desk();
    let stream = meter_stream(NodeId(graph_id(40)), &state.nodes[&40]);
    announce(
        &mut state,
        70,
        ObjectKind::Node,
        &[("node.name", stream.name.as_str()), ("media.class", "Stream/Input/Audio")],
    );
    let graph = built(&state);
    assert_eq!(graph.nodes.len(), 2);
    assert!(graph.node(NodeId(graph_id(70))).is_none());
}

#[test]
fn effects_are_marked_and_placed() {
    let state = desk();
    let mut effects = BTreeMap::new();
    effects.insert(graph_id(40), "gate-1".to_string());
    let kept = Position { x: 1, y: 2 };
    let fallback = Position { x: 3, y: 4 };
    let mut positions = BTreeMap::new();
    positions.insert(graph_id(40), kept);
    let mut defaults = BTreeMap::new();
    defaults.insert(graph_id(40), fallback);
    defaults.insert(graph_id(41), fallback);
    let graph = build_graph_from_state(&state, &effects, &mut positions, &defaults);
    let effect = graph.node(NodeId(graph_id(40))).unwrap();
    assert_eq!(effect.node_type, NodeType::Effect);
    assert_eq!(effect.effect_instance_id, Some("gate-1".to_string()));
    assert_eq!(effect.position, kept);
    assert_eq!(graph.node(NodeId(graph_id(41))).unwrap().position, fallback);
    assert_eq!(positions[&graph_id(41)], fallback);
}

#[test]
fn withdrawn_objects_are_forgotten() {
    let mut state = desk();
    let before = built(&state);
    announce(
        &mut state,
        61,
        ObjectKind::Link,
        &[("link.output.port", "50"), ("link.input.port", "99")],
    );
    state.remove_global(61);
    assert_eq!(built(&state), before);
    state.remove_global(60);
    assert!(built(&state).links.is_empty());
    state.remove_global(41);
    assert_eq!(built(&state).nodes.len(), 1);
}

#[test]
fn objects_without_properties_are_ignored() {
    let mut state = RegistryState::new();
    assert!(!state.apply_global(5, ObjectKind::Node, None));
    assert!(state.apply_global(5, ObjectKind::Other, Some(&props(&[]))));
    assert_eq!(state, RegistryState::new());
}

#[test]
fn default_devices_are_read_from_metadata() {
    assert_eq!(
        parse_default_device(Some("{\"name\": \"card\", \"serial\": 41}")),
        Some(DefaultDevice { name: "card".to_string(), serial: Some(41) })
    );
    assert_eq!(
        parse_default_device(Some("{\"node.name\":\"card\",\"serial\":\"42\"}")),
        Some(DefaultDevice { name: "card".to_string(), serial: Some(42) })
    );
    assert_eq!(
        parse_default_device(Some(" \"card\" ")),
        Some(DefaultDevice { name: "card".to_string(), serial: None })
    );
    assert_eq!(
        parse_default_device(Some("card one")),
        Some(DefaultDevice { name: "card one".to_string(), serial: None })
    );
    assert_eq!(parse_default_device(Some("{\"serial\": 41}")), None);
    assert_eq!(parse_default_device(Some("  ")), None);
    assert_eq!(parse_default_device(None), None);
}

#[test]
fn defaults_follow_the_metadata() {
    let mut state = RegistryState::new();
    assert!(state.apply_default_property("default.audio.sink", Some("{\"name\":\"card\"}")));
    assert!(!state.apply_default_property("default.video.source", Some("x")));
    assert_eq!(
        state.default_sink,
        Some(DefaultDevice { name: "card".to_string(), serial: None })
    );
    assert_eq!(state.default_source, None);
    assert!(state.apply_default_property("default.audio.source", Some("mic")));
    state.clear_defaults();
    assert_eq!(state, RegistryState::new());
    assert!(is_default_metadata(Some("default")));
    assert!(!is_default_metadata(Some("settings")));
    assert!(is_default_metadata(None));
}

#[test]
fn blank_properties_count_as_absent() {
    assert_eq!(non_empty_property(Some("icon")), Some("icon".to_string()));
    assert_eq!(non_empty_property(Some("")), None);
    assert_eq!(non_empty_property(Some("  ")), None);
    assert_eq!(non_empty_property(None), None);
}

#[test]
fn nodes_are_metered_by_the_policy() {
    let state = desk();
    let graph = built(&state);
    let player = graph_id(40);
    let card = graph_id(41);
    assert!(node_has_audio(&graph, NodeId(player), Direction::Source));
    assert!(!node_has_audio(&graph, NodeId(card), Direction::Source));
    assert!(is_node_measurable(&graph, &state, NodeId(card)));
    let measurable = measurable_nodes(&graph, &state);
    assert_eq!(measurable, vec![player, card]);
    let mut requested = BTreeMap::new();
    requested.insert(card, 1u64);
    assert_eq!(
        nodes_to_meter(MeterPolicy::Disabled, &measurable, &requested),
        Vec::<u64>::new()
    );
    assert_eq!(nodes_to_meter(MeterPolicy::OnDemand, &measurable, &requested), vec![card]);
    assert_eq!(
        nodes_to_meter(MeterPolicy::Always, &measurable, &BTreeMap::new()),
        vec![player, card]
    );
}

#[test]
fn requested_meters_linger() {
    let state = desk();
    let graph = built(&state);
    let measurable = measurable_nodes(&graph, &state);
    let card = graph_id(41);
    let mut board = MeterBoard::new();
    assert!(board.request_meters(&vec![card], 100, &measurable));
    let plan = board.ensure_meters(100, &measurable, &state);
    assert_eq!(plan.open, vec![card]);
    assert!(plan.release.is_empty());
    board.meter_opened(card);
    assert!(board.ensure_meters(200, &measurable, &state).open.is_empty());
    let late = 100 + METER_LINGER_NANOS + 1;
    let plan = board.ensure_meters(late, &measurable, &state);
    assert_eq!(plan.release, vec![card]);
    assert!(board.wanted_meter_nodes(&measurable).is_empty());
    assert!(board.set_meter_policy(MeterPolicy::Always));
    assert!(!board.set_meter_policy(MeterPolicy::Always));
    board.reset_audio_config();
    assert!(board.requests.is_empty());
}

#[test]
fn repeated_requests_change_nothing() {
    let measurable = vec![3, 7, 9];
    let mut board = MeterBoard::new();
    assert!(board.request_meters(&vec![7, 3], 100, &measurable));
    board.meter_opened(7);
    board.meter_opened(3);
    board.meter_opened(7);
    assert_eq!(board.active, vec![3, 7]);
    assert!(!board.request_meters(&vec![3, 7], 200, &measurable));
    assert!(board.request_meters(&vec![9], 300, &measurable));
    board.meter_opened(9);
    let late = 200 + METER_LINGER_NANOS;
    let plan = board.ensure_meters(late, &measurable, &RegistryState::new());
    assert_eq!(plan.release, vec![3, 7]);
    assert_eq!(board.active, vec![9]);
    assert!(plan.open.is_empty());
}

#[test]
fn only_answers_change_what_is_known() {
    let mut graph = Graph::new();
    graph.add_node(Node::new(NodeId(5), "card", NodeType::PipeWire)).unwrap();
    graph.add_node(Node::new(NodeId(2), "mic", NodeType::PipeWire)).unwrap();
    graph.add_node(Node::new(NodeId(3), "gate", NodeType::Effect)).unwrap();
    assert_eq!(nodes_to_read(&graph), vec![2, 5]);
    let mut controls = AudioControls::new();
    controls.read(NodeId(7), PropsReading::default());
    assert!(controls.known.is_empty());
    controls.read(NodeId(2), PropsReading { volume: None, muted: Some(true) });
    let before = controls.known[&2];
    let mut readings = BTreeMap::new();
    readings.insert(2, PropsReading::default());
    readings.insert(5, PropsReading { volume: Some(0.5f32.to_bits()), muted: None });
    controls.read_all(&readings);
    assert_eq!(controls.known[&2], before);
    assert_eq!(controls.known[&5].volume, Some(0.5f32.to_bits()));
    assert_eq!(controls.known.len(), 2);
}

#[test]
fn number_lists_are_compared() {
    assert!(list_contains(&vec![1, 2], 2));
    assert!(!list_contains(&vec![1, 2], 3));
    assert!(same_list(&vec![1, 2], &vec![1, 2]));
    assert!(!same_list(&vec![1, 2], &vec![2, 1]));
}

#[test]
fn streams_are_aimed_by_serial() {
    let state = desk();
    assert_eq!(stream_target(&state.nodes[&40]), "400");
    let mut bare = state;
    announce(&mut bare, 42, ObjectKind::Node, &[("node.name", "plain")]);
    assert_eq!(stream_target(&bare.nodes[&42]), "plain");
}

#[test]
fn read_controls_are_offered() {
    let state = desk();
    let graph = built(&state);
    let card = NodeId(graph_id(41));
    let mut controls = AudioControls::new();
    assert_eq!(
        controls.node_audio_state(&graph, None, NodeId(graph_id(99))),
        Err(BackendError::Graph(GraphError::MissingNode(NodeId(graph_id(99)))))
    );
    controls.read(
        card,
        PropsReading { volume: Some(0.5f32.to_bits()), muted: Some(false) },
    );
    let seen = controls.node_audio_state(&graph, None, card).unwrap();
    assert_eq!(seen.volume, Some(0.5f32.to_bits()));
    assert_eq!(seen.muted, Some(false));
    controls.mute_written(card, true);
    controls.volume_written(card, 0.25f32.to_bits());
    let seen = controls.node_audio_state(&graph, None, card).unwrap();
    assert_eq!(seen.volume, Some(0.25f32.to_bits()));
    assert_eq!(seen.muted, Some(true));
    let offered = controls.node_capabilities(&graph, &state, None, card);
    assert!(offered.volume_read && offered.mute_read);
    assert!(offered.has_any_control());
    assert!(offered.has_any_meter());
    assert!(!NodeCapabilities::none().has_any_control());
    assert!(!NodeCapabilities::none().has_any_meter());
}

#[test]
fn volume_is_held_in_its_range() {
    let state = desk();
    let graph = built(&state);
    let card = NodeId(graph_id(41));
    let mut relay: Option<RelayPlaybackShared> = None;
    assert_eq!(
        set_node_volume(&graph, &mut relay, card, 9.0f32.to_bits()),
        Ok((ControlRoute::Properties, 1.5f32.to_bits()))
    );
    assert_eq!(
        set_node_volume(&graph, &mut relay, card, (-1.0f32).to_bits()),
        Ok((ControlRoute::Properties, 0.0f32.to_bits()))
    );
    assert_eq!(
        set_node_mute(&graph, &mut relay, card, true),
        Ok(ControlRoute::Properties)
    );
    assert!(set_node_mute(&graph, &mut relay, NodeId(graph_id(9)), true).is_err());
}

#[test]
fn withdrawn_metadata_forgets_the_defaults() {
    let mut state = RegistryState::new();
    let mut bindings = MetadataBindings::default();
    bindings.metadata_bound(7);
    bindings.metadata_bound(9);
    bindings.metadata_bound(7);
    assert!(state.apply_default_property("default.audio.source", Some("mic")));
    assert!(!state.withdraw_defaults(&mut bindings, 8));
    assert!(state.default_source.is_some());
    assert!(state.withdraw_defaults(&mut bindings, 7));
    assert_eq!(state, RegistryState::new());
    assert_eq!(bindings.bound, vec![9]);
    assert!(!bindings.metadata_removed(7));
    assert!(bindings.metadata_removed(9));
    assert!(bindings.bound.is_empty());
}

#[test]
fn a_wait_ends_with_the_answer_or_an_error() {
    let mut wait = Roundtrip::begin(7);
    wait.answer_heard(false, 7);
    wait.answer_heard(true, 6);
    assert!(wait.waits());
    wait.answer_heard(true, 7);
    assert!(!wait.waits());
    assert_eq!(wait.outcome(), Ok(()));

    let mut wait = Roundtrip::begin(7);
    wait.error_heard(-32, "broken pipe");
    assert!(!wait.waits());
    assert_eq!(
        wait.outcome(),
        Err(BackendError::native(
            "PipeWire registry synchronization failed: broken pipe (-32)"
        ))
    );
    let mut wait = Roundtrip::begin(1);
    wait.error_heard(5, "odd");
    assert_eq!(wait.failure, Some("odd (5)".to_string()));
    assert_eq!(
        Roundtrip::begin(1).outcome(),
        Err(BackendError::native("PipeWire registry synchronization ended unexpectedly"))
    );
}

#[test]
fn streams_say_what_they_are() {
    let mut state = RegistryState::new();
    announce(
        &mut state,
        40,
        ObjectKind::Node,
        &[("node.name", "speakers"), ("media.class", "Audio/Sink"), ("object.serial", "400")],
    );
    let stream = meter_stream(NodeId(5), state.nodes.get(&40).unwrap());
    let says = meter_properties(&stream);
    assert_eq!(says.len(), 12);
    let value = |list: &[(String, String)], key: &str| {
        list.iter().find(|entry| entry.0 == key).map(|entry| entry.1.clone())
    };
    assert_eq!(value(&says, "target.object"), Some("400".to_string()));
    assert_eq!(value(&says, "node.passive"), Some("true".to_string()));
    assert_eq!(says[11], ("stream.capture.sink".to_string(), "true".to_string()));
    let quiet = MeterStream { capture_sink: false, ..stream };
    assert_eq!(meter_properties(&quiet).len(), 11);

    let says = recorder_properties("take");
    assert_eq!(says[0], ("node.name".to_string(), "take".to_string()));
    assert_eq!(value(&says, "media.role"), Some("Recording".to_string()));
    let says = effect_properties("Gate (one)", "one", "builtin.gate");
    assert_eq!(value(&says, "node.autoconnect"), Some("false".to_string()));
    assert_eq!(value(&says, "qpwgraph-rs.effect.instance"), Some("one".to_string()));
    let says = relay_properties(RelayNodeKind::Speaker);
    assert_eq!(value(&says, "media.class"), Some("Audio/Sink".to_string()));
    let says = relay_properties(RelayNodeKind::Microphone);
    assert_eq!(value(&says, "qpwgraph-rs.relay.kind"), Some("source".to_string()));
}
