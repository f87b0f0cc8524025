use qpwgraph::audio_controls::NodeAudioState;
use qpwgraph::demo::DemoDriver;
use qpwgraph::effect_model::{
    channel_index, copy_parameters, effect_already_exists, effect_link_endpoints,
    effect_link_endpoints_locked, effect_node_name, effect_port_names, effect_restore_endpoints,
    effect_routing_incomplete, inferred_audio_channels, inferred_native_channels, is_blank,
    plan_native_effect, unknown_effect_instance, validate_pipewire_text, validate_request,
    active_channel_mask, ChannelPolicy, EffectConfig, PreparedEffect,
};
use qpwgraph::demo_recorders::SavePlan;
use qpwgraph::drivers::GraphDriver;
use qpwgraph::effect_request::{
    EffectCreateRequest, EffectEvent, EffectTarget, PreparationEvent,
};
use qpwgraph::graph::Graph;
use qpwgraph::ids::{LinkId, NodeId, PortId};
use qpwgraph::model::{
    BackendError, Direction, GraphError, Node, NodeType, Port, PortType, Position,
};
use qpwgraph::recorder::{
    failure_message, queue_capacity_frames, settle_poll, settle_stop, RecorderCreateRequest,
    RecorderState, RecorderStatus, RecorderWriterState, WriterDiagnostics, WriterResult,
};
use qpwgraph::recorder_buffer::{recorder_writes, ByteBlock, RecorderIntake};
use qpwgraph::text_table::TextTable;

fn config(id: &str) -> EffectConfig {
    EffectConfig {
        instance_id: id.to_string(),
        effect_id: "builtin.noise-gate".to_string(),
        module: None,
        enabled: true,
        parameters: TextTable::new(),
        channel_policy: ChannelPolicy::Auto,
    }
}

fn prepared() -> PreparedEffect {
    PreparedEffect {
        effect_id: "builtin.noise-gate".to_string(),
        name: "Noise gate".to_string(),
    }
}

fn place() -> Position {
    Position { x: 250f32.to_bits(), y: 180f32.to_bits() }
}

#[test]
fn demo_backend_connects_and_disconnects() {
    let mut driver = DemoDriver::demo();
    let link = driver.connect(PortId(1), PortId(3)).unwrap();
    assert_eq!(driver.graph().links.len(), 1);
    driver.disconnect(link.id).unwrap();
    assert!(driver.graph().links.is_empty());
}

#[test]
fn demo_backend_has_a_stable_graph_for_demo_runs() {
    let driver = DemoDriver::demo();
    assert_eq!(driver.graph().nodes.len(), 4);
    assert_eq!(driver.graph().ports.len(), 6);
    assert!(driver
        .graph()
        .nodes
        .values()
        .all(|node| node.node_type == NodeType::PipeWire));
}

#[test]
fn demo_backend_inserts_and_removes_an_effect_transactionally() {
    let mut driver = DemoDriver::demo();
    driver.connect(PortId(1), PortId(3)).unwrap();
    let source = driver.graph().port_key(PortId(1)).unwrap();
    let destination = driver.graph().port_key(PortId(3)).unwrap();
    let instance = driver
        .insert_effect_prepared(config("test-effect"), &source, &destination, place(), &prepared())
        .unwrap();
    assert_eq!(driver.effect_instances().len(), 1);
    assert_eq!(
        driver.graph().nodes[&instance.node_id.0].node_type,
        NodeType::Effect
    );
    assert_eq!(driver.graph().links.len(), 2);
    driver.remove_effect("test-effect").unwrap();
    assert!(driver.effect_instances().is_empty());
    assert_eq!(driver.graph().links.len(), 1);
    assert_eq!(driver.graph().nodes.len(), 4);
}

#[test]
fn disconnecting_undoes_connecting() {
    let mut driver = DemoDriver::demo();
    let before = driver.graph().duplicate();
    let link = driver.connect(PortId(2), PortId(4)).unwrap();
    assert!(driver.is_link_mutable(link.id));
    assert_eq!(driver.disconnect(link.id), Ok(link));
    assert_eq!(*driver.graph(), before);
    assert_eq!(
        driver.disconnect(link.id),
        Err(BackendError::Graph(GraphError::MissingLink(link.id)))
    );
    assert_eq!(
        driver.connect(PortId(1), PortId(6)),
        Err(BackendError::Graph(GraphError::IncompatiblePorts(PortId(1), PortId(6))))
    );
}

#[test]
fn observed_links_are_not_mutable() {
    let mut driver = DemoDriver::demo();
    let link = driver.connect(PortId(1), PortId(3)).unwrap();
    driver.mark_link_observed(link.id);
    assert!(!driver.is_link_mutable(link.id));
    assert!(!driver.is_link_mutable(LinkId(99)));
}

#[test]
fn failures_can_be_forced() {
    let mut driver = DemoDriver::demo();
    driver.fail_connect_of(PortId(1), PortId(3));
    assert!(driver.connect(PortId(1), PortId(3)).is_err());
    driver.allow_connect_of(PortId(1), PortId(3));
    let link = driver.connect(PortId(1), PortId(3)).unwrap();
    driver.fail_disconnect_of(link.id);
    assert!(driver.disconnect(link.id).is_err());

    let mut driver = DemoDriver::demo();
    driver.fail_disconnect_of_pair(PortId(2), PortId(4));
    let link = driver.connect(PortId(2), PortId(4)).unwrap();
    assert!(driver.disconnect(link.id).is_err());
    driver.fail_position_at(NodeId(1), place());
    assert!(driver.set_node_position(NodeId(1), place()).is_err());
    assert!(driver.set_node_position(NodeId(2), place()).is_ok());
    assert_eq!(driver.graph().node(NodeId(2)).unwrap().position, place());
}

#[test]
fn suppression_is_kept_by_stable_names() {
    let mut driver = DemoDriver::demo();
    let output = driver.graph().port_key(PortId(1)).unwrap();
    let input = driver.graph().port_key(PortId(3)).unwrap();
    assert!(!driver.is_connection_suppressed(&output, &input));
    driver.suppress_connection(&output, &input);
    assert!(driver.is_connection_suppressed(&output, &input));
    driver.allow_connection(&output, &input);
    assert!(!driver.is_connection_suppressed(&output, &input));
    driver.mark_connection_suppressed(output.duplicate(), input.duplicate());
    assert!(driver.is_connection_suppressed(&output, &input));
}

#[test]
fn demo_audio_controls_are_kept() {
    let mut driver = DemoDriver::demo();
    assert!(driver.set_node_mute(NodeId(9), true).is_err());
    driver.set_node_mute(NodeId(2), true).unwrap();
    driver.set_node_volume(NodeId(2), 9.0f32.to_bits()).unwrap();
    let state = driver.node_audio_state(NodeId(2)).unwrap();
    assert_eq!(state.muted, Some(true));
    assert_eq!(state.volume, Some(1.5f32.to_bits()));
    assert!(state.is_supported());
    assert!(driver.node_capabilities(NodeId(2)).has_any_control());
    assert!(driver.node_audio_state(NodeId(9)).is_err());
    assert!(!NodeAudioState::unsupported().is_supported());
    assert!(driver.capabilities().connect);
}

#[test]
fn graphs_can_be_replaced() {
    let mut driver = DemoDriver::new(Graph::new());
    assert!(driver.graph().nodes.is_empty());
    driver.replace_graph(DemoDriver::demo().into_graph());
    assert_eq!(driver.graph().nodes.len(), 4);
    assert!(driver.is_node_type(NodeType::PipeWire));
    assert!(driver.is_node_type(NodeType::Effect));
    assert!(!driver.is_node_type(NodeType::AlsaMidi));
}

#[test]
fn inserting_and_removing_restores_the_graph() {
    let mut driver = DemoDriver::demo();
    driver.connect(PortId(1), PortId(3)).unwrap();
    let source = driver.graph().port_key(PortId(1)).unwrap();
    let destination = driver.graph().port_key(PortId(3)).unwrap();
    let before = driver.graph().duplicate();
    driver
        .insert_effect_prepared(config("gate"), &source, &destination, place(), &prepared())
        .unwrap();
    driver.remove_effect("gate").unwrap();
    assert_eq!(driver.graph().nodes, before.nodes);
    assert_eq!(driver.graph().ports, before.ports);
    assert!(driver.graph().is_connected(PortId(1), PortId(3)));
}

#[test]
fn refused_effects_leave_no_trace() {
    let mut driver = DemoDriver::demo();
    let source = driver.graph().port_key(PortId(1)).unwrap();
    let destination = driver.graph().port_key(PortId(3)).unwrap();
    let before = driver.graph().duplicate();
    assert!(driver
        .insert_effect_prepared(config("gate"), &source, &destination, place(), &prepared())
        .is_err());
    assert_eq!(*driver.graph(), before);
    assert!(driver.effect_instances().is_empty());
    driver.create_effect_node_prepared(config("gate"), place(), &prepared()).unwrap();
    assert_eq!(
        driver.create_effect_node_prepared(config("gate"), place(), &prepared()),
        Err(effect_already_exists("gate"))
    );
    assert_eq!(driver.remove_effect("other"), Err(unknown_effect_instance("other")));
}

#[test]
fn standalone_effects_are_controlled() {
    let mut driver = DemoDriver::demo();
    let instance =
        driver.create_effect_node_prepared(config("gate"), place(), &prepared()).unwrap();
    let node = driver.graph().node(instance.node_id).unwrap();
    assert_eq!(node.position, place());
    assert_eq!(node.ports, vec![instance.input_port, instance.output_port]);
    assert!(driver.set_effect_enabled("gate", false).is_ok());
    assert!(!driver.effect_instances()[0].config.enabled);
    driver.effect_parameter_set("gate", "threshold", 7).unwrap();
    assert_eq!(
        driver.effect_instances()[0].config.parameters.get("threshold"),
        Some(&7)
    );
    assert!(driver.set_effect_enabled("other", false).is_err());
    assert!(driver.effect_parameter_set("other", "threshold", 7).is_err());
}

#[test]
fn pending_effects_become_ready() {
    let mut driver = DemoDriver::demo();
    let request = EffectCreateRequest {
        config: config("gate"),
        target: EffectTarget::Standalone { position: place() },
    };
    assert_eq!(driver.check_create_effect(&request), Ok(None));
    driver.effect_pending(5, request);
    assert!(driver.effect_ready(6, &prepared()).is_none());
    let made = driver.effect_ready(5, &prepared()).expect("a pending request").unwrap();
    assert_eq!(made.config.instance_id, "gate");
    assert!(driver.effect_ready(5, &prepared()).is_none());
    let again = EffectCreateRequest {
        config: config("gate"),
        target: EffectTarget::Standalone { position: place() },
    };
    assert_eq!(driver.check_create_effect(&again), Err(effect_already_exists("gate")));
    let other = EffectCreateRequest {
        config: config("other"),
        target: EffectTarget::Standalone { position: place() },
    };
    driver.effect_pending(7, other);
    driver.effect_dropped(7);
    assert!(driver.effect_ready(7, &prepared()).is_none());
}

fn mask_fixture() -> (Graph, NodeId, PortId, PortId, PortId) {
    let mut graph = Graph::new();
    let effect = NodeId(1);
    graph.add_node(Node::new(effect, "Hush", NodeType::Effect)).unwrap();
    let left = PortId(2);
    let right = PortId(3);
    graph
        .add_port(
            Port::new(left, effect, "input_FL", Direction::Sink, PortType::Audio)
                .with_channel("FL"),
        )
        .unwrap();
    graph
        .add_port(
            Port::new(right, effect, "input_FR", Direction::Sink, PortType::Audio)
                .with_channel("FR"),
        )
        .unwrap();
    let source = NodeId(4);
    graph.add_node(Node::new(source, "Microphone", NodeType::PipeWire)).unwrap();
    let source_port = PortId(5);
    graph
        .add_port(Port::new(
            source_port,
            source,
            "capture_FL",
            Direction::Source,
            PortType::Audio,
        ))
        .unwrap();
    (graph, effect, left, right, source_port)
}

#[test]
fn active_mask_follows_stable_links_not_physical_capacity() {
    let (mut graph, effect, left, right, source_port) = mask_fixture();
    assert_eq!(active_channel_mask(&graph, effect, 2), 0);

    graph.add_link(LinkId(10), source_port, left).unwrap();
    assert_eq!(active_channel_mask(&graph, effect, 2), 0b01);

    let right_source = PortId(6);
    graph
        .add_port(Port::new(
            right_source,
            NodeId(4),
            "capture_FR",
            Direction::Source,
            PortType::Audio,
        ))
        .unwrap();
    graph.add_link(LinkId(11), right_source, right).unwrap();
    assert_eq!(active_channel_mask(&graph, effect, 2), 0b11);

    graph.remove_link(LinkId(10)).unwrap();
    assert_eq!(active_channel_mask(&graph, effect, 2), 0b10);
}

#[test]
fn mask_never_includes_channels_outside_physical_capacity() {
    let (mut graph, effect, left, right, source_port) = mask_fixture();
    graph.add_link(LinkId(10), source_port, left).unwrap();
    let right_source = PortId(6);
    graph
        .add_port(Port::new(
            right_source,
            NodeId(4),
            "capture_FR",
            Direction::Source,
            PortType::Audio,
        ))
        .unwrap();
    graph.add_link(LinkId(11), right_source, right).unwrap();
    assert_eq!(active_channel_mask(&graph, effect, 1), 0b01);
}

#[test]
fn effect_endpoints_are_resolved() {
    let mut driver = DemoDriver::demo();
    let source = driver.graph().port_key(PortId(1)).unwrap();
    let destination = driver.graph().port_key(PortId(3)).unwrap();
    assert_eq!(
        effect_restore_endpoints(driver.graph(), &source, &destination),
        Ok((PortId(1), PortId(3)))
    );
    assert_eq!(
        effect_link_endpoints(driver.graph(), &source, &destination),
        Err(BackendError::native("effect endpoints are not directly connected"))
    );
    let link = driver.connect(PortId(1), PortId(3)).unwrap();
    assert_eq!(
        effect_link_endpoints(driver.graph(), &source, &destination),
        Ok((PortId(1), PortId(3), link))
    );
    assert_eq!(
        effect_link_endpoints_locked(driver.graph(), &source, &destination),
        Ok((PortId(1), PortId(3), link))
    );
    let mut gone = source.duplicate();
    gone.node_name = "nobody".to_string();
    assert_eq!(
        effect_restore_endpoints(driver.graph(), &gone, &destination),
        Err(BackendError::native("effect source endpoint is unavailable"))
    );
    assert_eq!(
        effect_restore_endpoints(driver.graph(), &source, &gone),
        Err(BackendError::native("effect destination endpoint is unavailable"))
    );
    assert_eq!(inferred_audio_channels(driver.graph(), &source), Some(2));
    assert!(inferred_native_channels(driver.graph(), &source).is_some());
    assert_eq!(inferred_audio_channels(driver.graph(), &gone), None);
}

#[test]
fn effect_requests_are_validated() {
    assert!(validate_request("gate", "builtin.noise-gate").is_ok());
    assert!(validate_request(" ", "builtin.noise-gate").is_err());
    assert!(validate_request("gate", "").is_ok());
    assert!(validate_request("gate", "nul\0byte").is_err());
    assert!(validate_pipewire_text("name", "plain").is_ok());
    assert!(validate_pipewire_text("name", "nul\0byte").is_err());
    assert!(is_blank("  \t"));
    assert!(!is_blank(" x "));
    let name = effect_node_name("Noise gate", "gate-1");
    assert_eq!(name, "Noise gate (gate-1)");
    assert_eq!(plan_native_effect("gate-1", "builtin.noise-gate", false, "Noise gate"), Ok(name));
    assert!(plan_native_effect("", "builtin.noise-gate", false, "Noise gate").is_err());
    assert_eq!(
        effect_port_names("input", 2),
        vec![
            ("input_FL".to_string(), "FL".to_string()),
            ("input_FR".to_string(), "FR".to_string()),
        ]
    );
    assert_eq!(
        effect_port_names("output", 1),
        vec![("output_MONO".to_string(), "MONO".to_string())]
    );
    assert_eq!(effect_routing_incomplete().to_text(), "effect routing is incomplete");
    assert_eq!(
        validate_request(" ", "x"),
        Err(BackendError::native("effect instance id cannot be empty"))
    );
    assert_eq!(
        validate_pipewire_text("effect id", "a\0b"),
        Err(BackendError::native(
            "effect id contains a NUL byte and cannot be passed to PipeWire"
        ))
    );
    assert_eq!(
        plan_native_effect("gate-1", "x", true, "Noise gate").unwrap_err().to_text(),
        "WASM/native effect modules are not yet hosted by the PipeWire filter runtime"
    );
    let right = Port::new(PortId(1), NodeId(1), "x", Direction::Sink, PortType::Audio)
        .with_channel("FR");
    assert_eq!(channel_index(&right), Some(1));
    let mut parameters = TextTable::new();
    parameters.insert("b".to_string(), 2u32);
    parameters.insert("a".to_string(), 1u32);
    assert_eq!(copy_parameters(&parameters), parameters);
    assert_eq!(parameters.len(), 2);
    assert_eq!(parameters.remove("b"), Some(2));
    assert!(!parameters.contains_key("b"));
}

fn recorder_request() -> RecorderCreateRequest {
    RecorderCreateRequest {
        name: "  ".to_string(),
        position: place(),
        sample_rate: 48_000,
        channels: 2,
        recording_dir: Some("/tmp".to_string()),
        capacity_frames: 0,
    }
}

fn written() -> WriterResult {
    WriterResult {
        temporary_path: "/tmp/take.wav".to_string(),
        frames_written: 480,
        dropped_frames: 3,
        file_bytes: 4096,
    }
}

fn refusal<T: std::fmt::Debug>(result: Result<T, BackendError>) -> String {
    match result {
        Err(BackendError::Native(text)) => text,
        other => panic!("unexpected answer: {other:?}"),
    }
}

#[test]
fn a_recording_is_made_and_saved() {
    let mut driver = DemoDriver::demo();
    let recorder = driver.create_recorder(recorder_request()).unwrap();
    let node = driver.graph().node(recorder.node_id).unwrap();
    assert_eq!(node.name, format!("Recorder {}", recorder.id));
    assert_eq!(recorder.status, RecorderStatus::idle(recorder.id, 48_000, 2));
    assert_eq!(node.node_type, NodeType::Recorder);
    assert_eq!(
        driver.recorder_status(recorder.id, None),
        Ok(RecorderStatus::idle(recorder.id, 48_000, 2))
    );
    let plan = driver.check_start_recording(recorder.id, 250).unwrap();
    assert_eq!(plan.capacity, 12_000);
    assert_eq!(plan.directory, Some("/tmp".to_string()));
    driver.recording_started(recorder.id, "/tmp/take.wav".to_string(), plan.capacity);
    assert_eq!(
        refusal(driver.check_start_recording(recorder.id, 250)),
        "recorder is already recording"
    );
    assert_eq!(
        refusal(driver.remove_recorder(recorder.id)),
        "stop or discard the recording before removing its node"
    );
    assert_eq!(
        refusal(driver.check_save_recording(recorder.id, Some(RecorderWriterState::Recording))),
        "stop the recorder before saving it"
    );
    assert!(driver.check_request_stop(recorder.id).is_ok());
    assert!(driver.check_stop_recording(recorder.id).is_ok());
    let result = driver.recording_finished(recorder.id, written()).unwrap();
    assert_eq!(result.frames_written, 480);
    assert_eq!(result.temporary_path, "/tmp/take.wav");
    assert_eq!(
        driver.recorder_status(recorder.id, None).unwrap().state,
        RecorderState::Unsaved
    );
    assert_eq!(
        refusal(driver.remove_recorder(recorder.id)),
        "save or explicitly discard the pending recording before removing its node"
    );
    for (writer, finish) in [
        (None, false),
        (Some(RecorderWriterState::Finished), false),
        (Some(RecorderWriterState::Recording), true),
        (Some(RecorderWriterState::Error), true),
    ] {
        assert_eq!(
            driver.check_save_recording(recorder.id, writer),
            Ok(SavePlan { source: "/tmp/take.wav".to_string(), finish })
        );
    }
    driver.recording_saved(recorder.id, "/home/take.wav".to_string());
    driver.remove_recorder(recorder.id).unwrap();
    assert_eq!(driver.graph().nodes.len(), 4);
    assert_eq!(
        refusal(driver.remove_recorder(recorder.id)),
        format!("unknown recorder {}", recorder.id)
    );
}

#[test]
fn a_recording_is_discarded() {
    let mut driver = DemoDriver::demo();
    let recorder = driver.create_recorder(recorder_request()).unwrap();
    driver.recording_started(recorder.id, "/tmp/take.wav".to_string(), 10);
    assert_eq!(
        refusal(driver.begin_discard(recorder.id)),
        "stop the recorder before discarding it"
    );
    let polled = driver.recording_polled(recorder.id, Ok(Some(written()))).unwrap();
    assert_eq!(polled.expect("a finished recording").file_bytes, 4096);
    assert_eq!(
        driver.begin_discard(recorder.id),
        Ok(Some("/tmp/take.wav".to_string()))
    );
    driver.recording_discarded(recorder.id);
    assert!(driver.check_start_recording(recorder.id, 250).is_ok());
}

#[test]
fn a_failed_writer_is_shown() {
    let mut driver = DemoDriver::demo();
    let recorder = driver.create_recorder(recorder_request()).unwrap();
    driver.recording_started(recorder.id, "/tmp/take.wav".to_string(), 10);
    let diagnostics = WriterDiagnostics {
        writer_state: RecorderWriterState::Recording,
        frames_written: 5,
        dropped_frames: 1,
        queue_depth: 2,
        queue_capacity: 10,
        file_bytes: 64,
        last_error: None,
    };
    let status = driver.recorder_status(recorder.id, Some(diagnostics)).unwrap();
    assert_eq!(status.frames_written, 5);
    assert_eq!(status.queue_depth, 2);
    assert!(driver.recording_polled(recorder.id, Err("disk full".to_string())).is_err());
    let status = driver.recorder_status(recorder.id, None).unwrap();
    assert_eq!(status.state, RecorderState::Error);
    assert_eq!(status.error, Some("disk full".to_string()));
    assert_eq!(status.duplicate(), status);
}

#[test]
fn live_recordings_are_settled() {
    assert_eq!(queue_capacity_frames(0, 48_000, 250), 12_000);
    assert_eq!(queue_capacity_frames(20_000, 48_000, 250), 20_000);
    assert_eq!(queue_capacity_frames(0, 0, 250), 1);
    assert_eq!(failure_message(false, false), None);
    assert_eq!(
        failure_message(true, true),
        Some("PipeWire recorder negotiated a non-float32 format")
    );
    assert_eq!(failure_message(false, true), Some("PipeWire recorder stream failed"));
    assert_eq!(settle_stop(Ok(written()), false, false), Ok(written()));
    assert_eq!(
        refusal(settle_stop(Ok(written()), false, true)),
        "PipeWire recorder stream failed"
    );
    assert_eq!(refusal(settle_stop(Err("gone".to_string()), true, true)), "gone");
    assert_eq!(settle_poll(Ok(None), false, false), Ok(None));
    assert!(settle_poll(Ok(None), true, false).is_err());
}

#[test]
fn no_sample_is_lost_on_its_way_to_the_writer() {
    let samples = [1.0f32, -0.5, 0.25, f32::NAN, 2.0];
    let mut bytes = vec![9u8, 9, 9, 9];
    for sample in samples {
        bytes.extend(sample.to_le_bytes());
    }
    bytes.push(7);
    let first = ByteBlock { offset: 4, size: 12, bytes: Some(bytes[..16].to_vec()) };
    let unmapped = ByteBlock { offset: 0, size: 8, bytes: None };
    let second = ByteBlock { offset: 0, size: 99, bytes: Some(bytes[16..].to_vec()) };
    let writes = recorder_writes(&vec![first, unmapped, second], 2);
    let expected: Vec<Vec<u32>> = vec![
        vec![1.0f32.to_bits(), (-0.5f32).to_bits()],
        vec![0.25f32.to_bits(), 0],
        vec![2.0f32.to_bits()],
    ];
    assert_eq!(writes, expected);
}

#[test]
fn effect_instances_are_told_apart() {
    assert_ne!(effect_node_name("Gate", "a"), effect_node_name("Gate", "b"));
}

#[test]
fn preparations_are_reported_in_order() {
    let mut driver = DemoDriver::demo();
    let request = |id: &str| EffectCreateRequest {
        config: config(id),
        target: EffectTarget::Standalone { position: place() },
    };
    for (ticket, id) in [(1, "one"), (2, "two"), (3, "three"), (4, "four")] {
        driver.check_create_effect(&request(id)).unwrap();
        driver.effect_pending(ticket, request(id));
    }
    let other = PreparedEffect { effect_id: "other".to_string(), name: "Other".to_string() };
    let events = driver.poll_effect_lifecycle(vec![
        PreparationEvent::Loading { ticket: 1, stage: "reading".to_string() },
        PreparationEvent::Ready { ticket: 1, prepared: prepared() },
        PreparationEvent::Ready { ticket: 1, prepared: prepared() },
        PreparationEvent::Ready { ticket: 2, prepared: other },
        PreparationEvent::Failed { ticket: 3, error: "broken".to_string() },
        PreparationEvent::Cancelled { ticket: 4 },
        PreparationEvent::Ready { ticket: 4, prepared: prepared() },
    ]);
    assert_eq!(events.len(), 5);
    assert_eq!(events[0], EffectEvent::Loading { ticket: 1, stage: "reading".to_string() });
    assert!(matches!(
        &events[1],
        EffectEvent::Ready { ticket: 1, instance } if instance.config.instance_id == "one"
    ));
    assert_eq!(
        events[2],
        EffectEvent::Failed {
            ticket: 2,
            error: "prepared effect other does not match requested effect builtin.noise-gate"
                .to_string(),
        }
    );
    assert_eq!(events[3], EffectEvent::Failed { ticket: 3, error: "broken".to_string() });
    assert_eq!(events[4], EffectEvent::Cancelled { ticket: 4 });
    assert!(driver.pending_effects.is_empty());
    assert_eq!(driver.effect_instances().len(), 1);
}

#[test]
fn any_graph_can_be_taken_on() {
    let mut driver = DemoDriver::demo();
    let made = driver.create_effect_node_prepared(config("gate"), place(), &prepared()).unwrap();
    // The effect's number belongs to a node with other ports now.
    let mut graph = Graph::new();
    graph.add_node(Node::new(made.node_id, "stranger", NodeType::PipeWire)).unwrap();
    graph
        .add_port(Port::new(PortId(77), made.node_id, "in", Direction::Sink, PortType::Audio))
        .unwrap();
    driver.replace_graph(graph);
    assert_eq!(driver.effect_instances().len(), 1);
    driver.remove_effect("gate").unwrap();
    assert!(driver.effect_instances().is_empty());
    // Only what has the effect's own numbers is gone.
    assert!(driver.graph().nodes.is_empty());
    assert_eq!(driver.graph().ports.keys().copied().collect::<Vec<u64>>(), vec![77]);
}

#[test]
fn a_removed_effect_takes_its_numbers_along() {
    let mut driver = DemoDriver::demo();
    let made = driver.create_effect_node_prepared(config("gate"), place(), &prepared()).unwrap();
    // A port of another node has the number of the effect's input now.
    let mut graph = Graph::new();
    graph.add_node(Node::new(NodeId(900), "stranger", NodeType::PipeWire)).unwrap();
    for (port, direction) in [(made.input_port, Direction::Sink), (PortId(78), Direction::Source)] {
        graph
            .add_port(Port::new(port, NodeId(900), "port", direction, PortType::Audio))
            .unwrap();
    }
    driver.replace_graph(graph);
    driver.remove_effect("gate").unwrap();
    assert!(driver.graph().port(made.input_port).is_none());
    assert!(driver.graph().port(PortId(78)).is_some());
    assert!(driver.graph().node(NodeId(900)).is_some());
}

#[test]
fn the_driver_answers_through_its_trait() {
    let mut driver = DemoDriver::demo();
    assert!(GraphDriver::capabilities(&driver).connect);
    let link = GraphDriver::connect(&mut driver, PortId(1), PortId(3)).unwrap();
    assert_eq!(GraphDriver::graph(&driver).links.len(), 1);
    assert!(GraphDriver::connect(&mut driver, PortId(1), PortId(3)).is_err());
    assert_eq!(GraphDriver::disconnect(&mut driver, link.id), Ok(link));
    assert_eq!(
        GraphDriver::disconnect(&mut driver, link.id),
        Err(BackendError::Graph(GraphError::MissingLink(link.id)))
    );
}

#[test]
fn effects_keep_their_ports() {
    let mut driver = DemoDriver::demo();
    let first = driver.create_effect_node_prepared(config("one"), place(), &prepared()).unwrap();
    let second = driver.create_effect_node_prepared(config("two"), place(), &prepared()).unwrap();
    let link = driver.connect(PortId(1), second.input_port).unwrap();
    driver.remove_effect("one").unwrap();
    driver.disconnect(link.id).unwrap();
    assert!(driver.graph().node(first.node_id).is_none());
    assert_eq!(
        driver.graph().node(second.node_id).unwrap().ports,
        vec![second.input_port, second.output_port]
    );
}

#[test]
fn buffers_in_another_format_are_not_written() {
    let block = || ByteBlock {
        offset: 0,
        size: 4,
        bytes: Some(0.5f32.to_bits().to_le_bytes().to_vec()),
    };
    let mut intake = RecorderIntake { unsupported_format: false };
    assert_eq!(intake.take_buffer(true, &vec![block()], 2), vec![vec![0.5f32.to_bits()]]);
    assert!(!intake.unsupported_format);
    assert!(intake.take_buffer(false, &vec![block()], 2).is_empty());
    assert!(intake.unsupported_format);
    assert_eq!(intake.take_buffer(true, &vec![block()], 2).len(), 1);
    assert!(intake.unsupported_format);
}
