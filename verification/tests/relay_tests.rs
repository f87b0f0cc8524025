use qpwgraph::demo::DemoDriver;
use qpwgraph::graph::Graph;
use qpwgraph::ids::{LinkId, NodeId, PortId};
use qpwgraph::model::{BackendError, Direction, Node, NodeType, Port, PortType};
use qpwgraph::publication::{PublicationStep, PublicationWait};
use qpwgraph::registry::{DefaultDevice, ObjectKind, Properties, RegistryState};
use qpwgraph::relay_callback::{
    clip, clip_block, plan_relay_block, play_block, relay_playback_status, RelayBlock,
    RelayMeterSnapshot, RelayNodeKind, RelayPlaybackStatus,
};
use qpwgraph::relay_endpoints::{
    relay_looked,
    composite_route_mode, pipewire_relay_endpoint_infos, plan_for_signals, relay_devices_visible,
    relay_playback_sinks, relay_receive_sinks, relay_send_sources, serial_of_named,
    RelayEndpointInfo, RelaySignal, RelaySinkInfo, SignalPlan,
};
use qpwgraph::relay_local::{
    check_host_mode, check_send_source, desktop_relay_client_roles, direction_for_mode,
    mode_for_direction, receive_sink_for, settings_for_direction, settings_for_mode,
    RelayDirection, RelayLocalRouteState, RelayLocalRouter, RelayMode, RelayReceiveSink,
    RelayRoles, RelaySendSource,
};
use qpwgraph::relay_playback::{
    alive_links, find_joining, LevelBits, PlaybackStart, PlaybackStep, RelayPlaybackRouter,
    RelayPlaybackShared, RelayPlaybackState,
};
use qpwgraph::relay_ports::{
    channel_is, find_audio_ports, find_default_node, find_named_node, find_node,
    find_relay_source_ports, find_sink_input_ports, is_named_class_sink, is_relay_device_node,
    node_has_audio_direction, node_keys, RELAY_SINK_NAME, RELAY_SOURCE_NAME,
};
use qpwgraph::relay_requests::{
    device_name, engine_answered, engine_started, without_engine, EngineStep, RelayRequest,
};
use qpwgraph::relay_route::{
    copy_ids, has_pair, merge_ids, LocalStart, LocalStep, RelayRouters,
};
use qpwgraph::samples::{
    all_finite, clamp_gain, cleaned, copied, fan_out, finite, hold, magnitude_of, pad_silence,
    peak_level, Blocks, MAX_GAIN, SILENCE, UNITY,
};

fn approx_eq(a: f32, b: f32, eps: f32) -> bool {
    (a - b).abs() < eps
}

fn stereo(graph: &mut Graph, node: u64, name: &str, first: u64, direction: Direction, stem: &str) {
    graph.add_node(Node::new(NodeId(node), name, NodeType::PipeWire)).unwrap();
    for (i, channel) in ["FL", "FR"].iter().enumerate() {
        graph
            .add_port(
                Port::new(
                    PortId(first + i as u64),
                    NodeId(node),
                    format!("{stem}_{channel}").as_str(),
                    direction,
                    PortType::Audio,
                )
                .with_channel(channel),
            )
            .unwrap();
    }
}

/// The relay's two devices, a sound card and a microphone.
fn desk() -> Graph {
    let mut graph = Graph::new();
    stereo(&mut graph, 1, RELAY_SOURCE_NAME, 10, Direction::Source, "output");
    stereo(&mut graph, 2, RELAY_SINK_NAME, 20, Direction::Sink, "input");
    stereo(&mut graph, 3, "card", 30, Direction::Sink, "playback");
    stereo(&mut graph, 4, "mic", 40, Direction::Source, "capture");
    graph
}

fn registry() -> RegistryState {
    let mut state = RegistryState::new();
    for (id, name, class) in [(3u32, "card", "Audio/Sink"), (4u32, "mic", "Audio/Source")] {
        let props = Properties {
            entries: vec![
                ("node.name".to_string(), name.to_string()),
                ("media.class".to_string(), class.to_string()),
            ],
        };
        assert!(state.apply_global(id, ObjectKind::Node, Some(&props)));
    }
    state.default_sink = Some(DefaultDevice { name: "card".to_string(), serial: None });
    state.default_source = Some(DefaultDevice { name: "mic".to_string(), serial: None });
    state
}

#[test]
fn desktop_relay_roles_are_derived_from_direction() {
    assert_eq!(
        desktop_relay_client_roles(RelayDirection::MobileToDesktop),
        RelayRoles::receive_only()
    );
    assert_eq!(
        desktop_relay_client_roles(RelayDirection::DesktopToMobile),
        RelayRoles::emit_only()
    );
}

#[test]
fn gain_clamping_limits_range() {
    let clamp = |gain: f32| f32::from_bits(clamp_gain(gain.to_bits()));
    assert!(approx_eq(clamp(3.0), 2.0, 1e-6));
    assert!(approx_eq(clamp(-1.0), 0.0, 1e-6));
    assert!(approx_eq(clamp(1.5), 1.5, 1e-6));
}

#[test]
fn routing_idempotency_no_duplicate_desired() {
    let router = RelayPlaybackRouter::new();
    // Desired links should be None when no graph, but calling twice gives same result
    let graph = Graph::new();
    let registry = RegistryState::new();
    let a = router.desired_links(&graph, &registry);
    let b = router.desired_links(&graph, &registry);
    assert_eq!(a, b);
    assert_eq!(a, None);
}

#[test]
fn relay_playback_state_display() {
    assert_eq!(
        RelayPlaybackState::WaitingForSink.to_text(),
        "Waiting for output device"
    );
    assert_eq!(RelayPlaybackState::Connected.to_text(), "Connected");
    assert_eq!(RelayPlaybackState::Disabled.to_text(), "Disabled");
}

#[test]
fn android_mono_duplicated_to_both_channels() {
    let mono: f32 = 0.5;
    let mut outputs = Blocks {
        left: Some(vec![0.0f32.to_bits()]),
        right: Some(vec![0.0f32.to_bits()]),
    };
    fan_out(&vec![mono.to_bits()], &mut outputs);
    let fl = f32::from_bits(outputs.left.unwrap()[0]);
    let fr = f32::from_bits(outputs.right.unwrap()[0]);
    assert_eq!(fl, 0.5);
    assert_eq!(fr, 0.5);
}

#[test]
fn samples_are_cleaned_and_held() {
    assert_eq!(cleaned(f32::NAN.to_bits()), SILENCE);
    assert_eq!(cleaned(f32::INFINITY.to_bits()), SILENCE);
    assert_eq!(cleaned(0.5f32.to_bits()), 0.5f32.to_bits());
    assert!(finite((-2.0f32).to_bits()));
    assert!(!finite(f32::NEG_INFINITY.to_bits()));
    assert!(all_finite(&vec![1.0f32.to_bits(), 0]));
    assert!(!all_finite(&vec![1.0f32.to_bits(), f32::NAN.to_bits()]));
    assert_eq!(magnitude_of((-0.75f32).to_bits()), 0.75f32.to_bits());
    assert_eq!(hold(5.0f32.to_bits(), UNITY), UNITY);
    assert_eq!(hold((-5.0f32).to_bits(), UNITY), SILENCE);
    assert_eq!(MAX_GAIN, 2.0f32.to_bits());
    assert_eq!(
        peak_level(&vec![0.5f32.to_bits(), (-1.0f32).to_bits(), 0.25f32.to_bits()]),
        1.0f32.to_bits()
    );
    assert_eq!(peak_level(&vec![]), SILENCE);
    assert_eq!(peak_level(&vec![2.0f32.to_bits()]), 2.0f32.to_bits());
    assert_eq!(
        peak_level(&vec![f32::NAN.to_bits(), (-3.5f32).to_bits(), 1.5f32.to_bits()]),
        3.5f32.to_bits()
    );
    assert_eq!(peak_level(&vec![f32::NAN.to_bits()]), SILENCE);
    assert_eq!(copied(&vec![1, 2, 3]), vec![1, 2, 3]);
    let mut samples = vec![7, 8, 9];
    pad_silence(&mut samples, 1);
    assert_eq!(samples, vec![7, 0, 0]);
}

#[test]
fn shared_playback_state_is_kept() {
    let mut shared = RelayPlaybackShared::new();
    assert_eq!(f32::from_bits(shared.gain()), 1.0);
    shared.set_gain(0.5f32.to_bits());
    assert_eq!(f32::from_bits(shared.effective_gain_bits()), 0.5);
    shared.set_muted(true);
    assert!(shared.muted());
    assert_eq!(f32::from_bits(shared.effective_gain_bits()), 0.0);
    shared.set_gain(9.0f32.to_bits());
    assert_eq!(f32::from_bits(shared.gain()), 2.0);
    shared.set_enabled(false);
    assert!(!shared.enabled());
    let level = LevelBits { rms: 1, peak: 2 };
    let smooth = LevelBits { rms: 3, peak: 4 };
    shared.update_input(level, smooth);
    shared.update_output(smooth, level);
    assert_eq!(shared.input, level);
    assert_eq!(shared.smoothed_input, smooth);
    assert_eq!(shared.output, smooth);
    assert_eq!(shared.smoothed_output, level);
}

#[test]
fn directions_and_modes_agree() {
    for direction in [RelayDirection::MobileToDesktop, RelayDirection::DesktopToMobile] {
        assert_eq!(direction_for_mode(mode_for_direction(direction)), direction);
        let settings = settings_for_direction(direction, 7);
        assert_eq!(settings, settings_for_mode(mode_for_direction(direction), 7));
        assert_eq!(settings.client_roles, desktop_relay_client_roles(direction));
        assert_eq!(settings.direction_generation, 7);
    }
    assert_eq!(RelayMode::Emitter.roles(), RelayRoles::emit_only());
    assert_eq!(mode_for_direction(RelayDirection::MobileToDesktop), RelayMode::Receiver);
}

#[test]
fn hosting_and_sources_are_checked() {
    assert_eq!(check_host_mode(RelayMode::Receiver), Ok(()));
    assert_eq!(
        check_host_mode(RelayMode::Emitter),
        Err(BackendError::unsupported("a local relay host must run in Receiver mode"))
    );
    assert_eq!(check_send_source(&RelaySendSource::DefaultInput), Ok(()));
    assert_eq!(
        check_send_source(&RelaySendSource::Application("x".to_string())),
        Err(BackendError::unsupported(
            "application relay selectors are available only on Windows"
        ))
    );
    assert_eq!(
        receive_sink_for(Some("card".to_string())),
        RelayReceiveSink::OutputDevice("card".to_string())
    );
    assert_eq!(receive_sink_for(None), RelayReceiveSink::DefaultOutput);
}

#[test]
fn relay_devices_are_found() {
    let graph = desk();
    assert!(is_relay_device_node(RELAY_SOURCE_NAME));
    assert!(is_relay_device_node(RELAY_SINK_NAME));
    assert!(!is_relay_device_node("card"));
    assert!(relay_devices_visible(&graph));
    assert!(!relay_devices_visible(&Graph::new()));
    assert_eq!(node_keys(&graph), vec![1, 2, 3, 4]);
    assert_eq!(find_named_node(&graph, "card"), Some(NodeId(3)));
    assert_eq!(find_relay_source_ports(&graph), Some((PortId(10), PortId(11))));
    assert_eq!(find_sink_input_ports(&graph, NodeId(3)), Some((PortId(30), PortId(31))));
    assert_eq!(find_sink_input_ports(&graph, NodeId(4)), None);
    assert!(node_has_audio_direction(&graph, NodeId(4), true));
    assert!(!node_has_audio_direction(&graph, NodeId(4), false));
    assert_eq!(
        find_audio_ports(&graph, NodeId(4), true, false),
        Some((PortId(40), PortId(41)))
    );
    assert_eq!(
        RelayLocalRouter::relay_sink_ports(&graph),
        Some((PortId(20), PortId(21)))
    );
    assert_eq!(
        RelayLocalRouter::relay_source_ports(&graph),
        Some((PortId(10), PortId(11)))
    );
    assert!(channel_is(&Some("FL".to_string()), "FL"));
    assert!(!channel_is(&None, "FL"));
    assert!(is_named_class_sink(&registry(), "card"));
    assert!(!is_named_class_sink(&registry(), "mic"));
}

#[test]
fn a_single_input_takes_both_channels() {
    let mut graph = Graph::new();
    graph.add_node(Node::new(NodeId(1), "mono", NodeType::PipeWire)).unwrap();
    graph
        .add_port(Port::new(PortId(5), NodeId(1), "in", Direction::Sink, PortType::Audio))
        .unwrap();
    assert_eq!(find_sink_input_ports(&graph, NodeId(1)), Some((PortId(5), PortId(5))));
}

#[test]
fn nodes_are_selected_by_name_and_by_default() {
    let graph = desk();
    let state = registry();
    assert_eq!(find_node(&graph, &state, "mic", true), Some(NodeId(4)));
    assert_eq!(find_node(&graph, &state, "nobody", true), None);
    assert_eq!(
        find_default_node(&graph, &state, &state.default_sink, false),
        Some(NodeId(3))
    );
    assert_eq!(find_default_node(&graph, &state, &None, true), None);
}

#[test]
fn playback_is_routed_to_the_sink_once() {
    let mut graph = desk();
    let state = registry();
    let mut router = RelayPlaybackRouter::new();
    router.set_enabled(true);
    let route = router.desired_links(&graph, &state).expect("a route");
    assert_eq!(route.from, (PortId(10), PortId(11)));
    assert_eq!(route.to, (PortId(30), PortId(31)));
    assert_eq!(route.sink_name, "card");

    let mut task = match router.begin_route(&graph, &state, true) {
        PlaybackStart::Connect(task) => task,
        other => panic!("unexpected start: {other:?}"),
    };
    let mut made = 0;
    while let PlaybackStep::Connect(src, dst) = task.step(&graph) {
        made += 1;
        graph.add_link(LinkId(100 + made), src, dst).unwrap();
        task.connected(LinkId(100 + made));
    }
    assert_eq!(made, 2);
    assert!(router.stale_links(&graph, &task).is_empty());
    router.finish_route(&graph, task);
    assert_eq!(router.state, RelayPlaybackState::Connected);
    assert_eq!(router.link_ids, vec![101, 102]);
    assert!(graph.is_connected(PortId(10), PortId(30)));
    assert!(graph.is_connected(PortId(11), PortId(31)));
    // A route that stands is left alone.
    router.validate_links(&graph);
    let again = router.begin_route(&graph, &state, true);
    match again {
        PlaybackStart::Settled => {}
        PlaybackStart::Connect(mut task) => {
            assert_eq!(task.step(&graph), PlaybackStep::Linked);
        }
        other => panic!("unexpected start: {other:?}"),
    }
    assert_eq!(alive_links(&graph, &vec![101, 102, 103]), vec![101, 102]);
    assert_eq!(alive_links(&graph, &vec![102, 101, 102, 101, 7]), vec![102, 101]);
    assert_eq!(find_joining(&graph, PortId(10), PortId(30)), Some(101));
    // Switching off takes the links down.
    router.set_enabled(false);
    assert_eq!(
        router.begin_route(&graph, &state, true),
        PlaybackStart::Remove(vec![101, 102])
    );
    assert_eq!(router.state, RelayPlaybackState::Disabled);
}

#[test]
fn playback_waits_for_a_sink() {
    let mut graph = Graph::new();
    stereo(&mut graph, 1, RELAY_SOURCE_NAME, 10, Direction::Source, "output");
    let mut router = RelayPlaybackRouter::new();
    router.set_enabled(true);
    router.begin_route(&graph, &RegistryState::new(), true);
    assert_eq!(router.state, RelayPlaybackState::WaitingForSink);
    router.route_failed("link refused");
    assert_eq!(
        router.state,
        RelayPlaybackState::Error("Unable to create PipeWire link: link refused".to_string())
    );
}

#[test]
fn received_audio_is_routed_locally() {
    let mut graph = desk();
    let state = registry();
    let source = RelaySendSource::DefaultInput;
    let sink = RelayReceiveSink::DefaultOutput;
    let mut routers = RelayRouters::new(source.duplicate(), sink.duplicate());
    let start = routers.begin_local_route(RelayMode::Receiver, &source, &sink, &graph, &state);
    let mut task = match start {
        LocalStart::Change(task) => task,
        other => panic!("unexpected start: {other:?}"),
    };
    let mut next = 200;
    loop {
        match task.step(&graph) {
            LocalStep::Disconnect(link) => {
                graph.remove_link(link).unwrap();
            }
            LocalStep::Connect(src, dst) => {
                next += 1;
                graph.add_link(LinkId(next), src, dst).unwrap();
                task.connected(LinkId(next));
            }
            LocalStep::Done => break,
        }
    }
    routers.finish_local_route(task);
    assert!(routers.local.state.active);
    assert_eq!(routers.local.state.sink_id, Some("card".to_string()));
    assert!(graph.is_connected(PortId(10), PortId(30)));
    assert!(graph.is_connected(PortId(11), PortId(31)));
    assert_eq!(routers.route_mode(), RelayMode::Receiver);
    // The route that was made is recognised.
    assert_eq!(
        routers.begin_local_route(RelayMode::Receiver, &source, &sink, &graph, &state),
        LocalStart::Settled
    );
}

#[test]
fn sent_audio_is_routed_locally() {
    let mut graph = desk();
    let state = registry();
    let source = RelaySendSource::InputDevice("mic".to_string());
    let sink = RelayReceiveSink::DefaultOutput;
    let mut routers = RelayRouters::new(source.duplicate(), sink.duplicate());
    let start = routers.begin_local_route(RelayMode::Emitter, &source, &sink, &graph, &state);
    let mut task = match start {
        LocalStart::Change(task) => task,
        other => panic!("unexpected start: {other:?}"),
    };
    let first = task.step(&graph);
    assert_eq!(first, LocalStep::Connect(PortId(40), PortId(20)));
    graph.add_link(LinkId(201), PortId(40), PortId(20)).unwrap();
    task.connected(LinkId(201));
    let (undo, error) = routers.local_route_failed(task, "refused");
    assert_eq!(undo, vec![201]);
    assert_eq!(error, BackendError::native("could not create local relay route: refused"));
    assert!(!routers.local.state.active);
    assert_eq!(routers.local.state.description, "local relay route failed: refused");
}

#[test]
fn manual_routes_are_left_to_the_user() {
    let graph = desk();
    let state = registry();
    let mut router = RelayLocalRouter::default();
    router.set_mode(RelayMode::Emitter);
    router.set_send_source(RelaySendSource::ManualGraph);
    assert!(router.desired_links(&graph, &state).is_none());
    assert_eq!(router.idle_reason_text(RelayMode::Emitter), "manual graph routing");
    assert_eq!(
        router.idle_reason_text(RelayMode::Receiver),
        "waiting for an output sink"
    );
    router.set_mode(RelayMode::Receiver);
    router.set_receive_sink(RelayReceiveSink::OutputDevice("card".to_string()));
    router.enabled = true;
    let route = router.desired_links(&graph, &state).expect("a route");
    assert_eq!(route.pairs[0], (PortId(10), PortId(30)));
    assert_eq!(route.pairs[1], (PortId(11), PortId(31)));
    assert_eq!(route.description, "Relay Microphone -> card");
    let idle = RelayLocalRouteState::inactive(RelayMode::Emitter, "idle".to_string());
    assert!(!idle.active);
    assert_eq!(idle.duplicate(), idle);
}

#[test]
fn endpoints_are_listed() {
    let graph = desk();
    let state = registry();
    let ids = |endpoints: Vec<RelayEndpointInfo>| -> Vec<String> {
        endpoints.into_iter().map(|endpoint| endpoint.id).collect()
    };
    let sources = ids(relay_send_sources(&graph, &state));
    assert!(sources.contains(&"default-input".to_string()));
    assert!(sources.contains(&"input:mic".to_string()));
    assert!(sources.contains(&"manual".to_string()));
    let sinks = ids(relay_receive_sinks(&graph, &state));
    assert!(sinks.contains(&"default-output".to_string()));
    assert!(sinks.contains(&"output:card".to_string()));
    let inputs = pipewire_relay_endpoint_infos(&graph, &state, true, false);
    assert_eq!(inputs.len(), 1);
    assert_eq!(
        relay_playback_sinks(&graph),
        vec![RelaySinkInfo {
            name: "card".to_string(),
            description: "card".to_string(),
            serial: None,
        }]
    );
    assert_eq!(serial_of_named(&graph, "card"), None);
}

#[test]
fn signals_make_a_plan() {
    assert_eq!(
        plan_for_signals(&vec![RelaySignal::Other], None),
        SignalPlan { rebuild: false, resolved: None, route: None }
    );
    let plan = plan_for_signals(
        &vec![RelaySignal::SessionEstablished, RelaySignal::FlowResolved(RelayMode::Receiver)],
        None,
    );
    assert_eq!(plan.resolved, Some(RelayMode::Receiver));
    assert_eq!(
        composite_route_mode(&vec![RelaySignal::FlowResolved(RelayMode::Emitter)], None),
        Some(RelayMode::Emitter)
    );
}

#[test]
fn playback_settings_reach_both_routers() {
    let graph = desk();
    let mut shared = RelayPlaybackShared::new();
    let mut routers = RelayRouters::new(
        RelaySendSource::DefaultInput,
        RelayReceiveSink::DefaultOutput,
    );
    routers.set_playback_enabled(&mut shared, false);
    assert!(!shared.enabled());
    assert!(!routers.playback.enabled);
    routers.set_playback_sink(Some("card".to_string()), &graph);
    assert_eq!(routers.playback.preferred_sink_name, Some("card".to_string()));
    assert_eq!(routers.local.receive_sink, RelayReceiveSink::OutputDevice("card".to_string()));
}

#[test]
fn link_lists_are_merged() {
    assert_eq!(merge_ids(&vec![1, 2], &vec![2, 3]), vec![1, 2, 3]);
    assert_eq!(copy_ids(&vec![4, 5]), vec![4, 5]);
    assert!(has_pair(&vec![(PortId(1), PortId(2))], (PortId(1), PortId(2))));
    assert!(!has_pair(&vec![(PortId(1), PortId(2))], (PortId(2), PortId(1))));
}

#[test]
fn relay_blocks_need_a_length_and_a_channel() {
    let microphone = RelayNodeKind::Microphone;
    assert_eq!(
        plan_relay_block(microphone, Some(256), 8192, true, false),
        RelayBlock::Play { frames: 256 }
    );
    assert_eq!(
        plan_relay_block(RelayNodeKind::Speaker, Some(8192), 8192, false, true),
        RelayBlock::Capture { frames: 8192 }
    );
    assert_eq!(plan_relay_block(microphone, None, 8192, true, true), RelayBlock::Skip);
    assert_eq!(plan_relay_block(microphone, Some(0), 8192, true, true), RelayBlock::Skip);
    assert_eq!(plan_relay_block(microphone, Some(8193), 8192, true, true), RelayBlock::Skip);
    assert_eq!(plan_relay_block(microphone, Some(256), 8192, false, false), RelayBlock::Skip);
}

#[test]
fn received_samples_are_held_within_full_scale() {
    for value in [0.0f32, -0.0, 0.5, -1.0, 1.5, -7.0, f32::INFINITY, f32::NEG_INFINITY] {
        assert_eq!(clip(value.to_bits()), value.clamp(-1.0, 1.0).to_bits());
    }
    assert!(f32::from_bits(clip(f32::NAN.to_bits())).is_nan());
    let mut samples = vec![2.0f32.to_bits(), 0.5f32.to_bits()];
    clip_block(&mut samples);
    assert_eq!(samples, vec![1.0f32.to_bits(), 0.5f32.to_bits()]);
    let mut outputs = Blocks { left: Some(vec![0]), right: None };
    play_block(vec![2.0f32.to_bits()], None, &mut outputs);
    assert_eq!(outputs.left, Some(vec![1.0f32.to_bits()]));
    play_block(vec![2.0f32.to_bits()], Some(vec![0.25f32.to_bits()]), &mut outputs);
    assert_eq!(outputs.left, Some(vec![0.25f32.to_bits()]));
    assert_eq!(outputs.right, None);
}

#[test]
fn playback_is_shown_with_smoothed_levels() {
    let mut shared = RelayPlaybackShared::new();
    shared.update_input(LevelBits { rms: 1, peak: 2 }, LevelBits { rms: 3, peak: 4 });
    shared.update_output(LevelBits { rms: 5, peak: 6 }, LevelBits { rms: 7, peak: 8 });
    assert_eq!(
        shared.instant_snapshot(),
        RelayMeterSnapshot { input_rms: 1, input_peak: 2, output_rms: 5, output_peak: 6 }
    );
    let status = relay_playback_status(&shared, &RelayPlaybackRouter::new());
    assert_eq!(
        status.meters,
        RelayMeterSnapshot { input_rms: 3, input_peak: 4, output_rms: 7, output_peak: 8 }
    );
    assert_eq!(status.sink_name, None);
    assert_eq!(RelayPlaybackStatus::default().gain, 1.0f32.to_bits());
    assert_eq!(RelayPlaybackStatus::default().state, RelayPlaybackState::Disabled);
}

#[test]
fn playback_never_ends_at_the_relay_itself() {
    let mut graph = Graph::new();
    stereo(&mut graph, 1, RELAY_SOURCE_NAME, 10, Direction::Source, "output");
    stereo(&mut graph, 2, RELAY_SINK_NAME, 20, Direction::Sink, "input");
    let mut router = RelayPlaybackRouter::new();
    router.set_enabled(true);
    router.set_preferred_sink(Some(RELAY_SINK_NAME.to_string()), None);
    assert_eq!(router.find_target_sink(&graph, &RegistryState::new()), None);
    assert_eq!(router.desired_links(&graph, &RegistryState::new()), None);
}

#[test]
fn the_two_modes_share_no_pair() {
    let graph = desk();
    let state = registry();
    let mut router = RelayLocalRouter::default();
    router.set_mode(RelayMode::Emitter);
    let sending = router.desired_links(&graph, &state).expect("a route");
    router.set_mode(RelayMode::Receiver);
    let receiving = router.desired_links(&graph, &state).expect("a route");
    for pair in sending.pairs {
        assert!(!receiving.pairs.contains(&pair));
    }
    assert_eq!(sending.description, "mic -> Relay Speaker");
}

#[test]
fn an_ambiguous_sink_is_an_error() {
    let mut graph = Graph::new();
    stereo(&mut graph, 1, RELAY_SOURCE_NAME, 10, Direction::Source, "output");
    graph.add_node(Node::new(NodeId(3), "card", NodeType::PipeWire)).unwrap();
    for port in [30, 31] {
        graph
            .add_port(Port::new(
                PortId(port),
                NodeId(3),
                "playback",
                Direction::Sink,
                PortType::Audio,
            ))
            .unwrap();
    }
    let mut router = RelayPlaybackRouter::new();
    router.set_enabled(true);
    router.begin_route(&graph, &registry(), true);
    assert_eq!(
        router.state,
        RelayPlaybackState::Error(
            "Relay playback route failed: stereo channel mapping is ambiguous \
             (missing FL/FR channel metadata)"
                .to_string()
        )
    );
}

#[test]
fn tracked_links_are_valid_and_no_duplicates() {
    let mut graph = DemoDriver::demo().into_graph();
    graph.add_link(LinkId(5), PortId(1), PortId(3)).unwrap();
    let mut router = RelayPlaybackRouter::new();
    router.link_ids = vec![5, 5, 6];
    router.validate_links(&graph);
    assert_eq!(router.link_ids, vec![5]);
}

#[test]
fn port_order_decides_nothing() {
    let mut straight = Graph::new();
    stereo(&mut straight, 1, "card", 10, Direction::Sink, "playback");
    let mut turned = straight.duplicate();
    turned.nodes.get_mut(&1).unwrap().ports.reverse();
    assert_ne!(straight, turned);
    assert_eq!(find_sink_input_ports(&straight, NodeId(1)), Some((PortId(10), PortId(11))));
    assert_eq!(
        find_sink_input_ports(&straight, NodeId(1)),
        find_sink_input_ports(&turned, NodeId(1))
    );
}

#[test]
fn levels_are_those_last_noted() {
    let mut shared = RelayPlaybackShared::new();
    let silent = LevelBits { rms: 0, peak: 0 };
    shared.update_input(LevelBits { rms: 9, peak: 9 }, silent);
    shared.set_gain(0.25f32.to_bits());
    shared.update_output(LevelBits { rms: 5, peak: 6 }, silent);
    shared.set_muted(true);
    shared.update_input(LevelBits { rms: 1, peak: 2 }, silent);
    shared.set_enabled(false);
    shared.set_gain(2.0f32.to_bits());
    let read = shared.instant_snapshot();
    assert_eq!(
        read,
        RelayMeterSnapshot { input_rms: 1, input_peak: 2, output_rms: 5, output_peak: 6 }
    );
    assert_eq!(read.peak(), 6);
}

#[test]
fn requests_without_an_engine_are_answered() {
    assert_eq!(without_engine(RelayRequest::StartHost), EngineStep::Start);
    assert_eq!(without_engine(RelayRequest::Discover), EngineStep::Start);
    assert_eq!(without_engine(RelayRequest::StopHost), EngineStep::Done);
    for (request, text) in [
        (RelayRequest::OfferMode, "no relay session exists"),
        (RelayRequest::OfferFlow, "no relay session exists"),
        (RelayRequest::OfferDirection, "no relay session exists"),
        (RelayRequest::Disconnect, "no relay session exists to disconnect"),
        (RelayRequest::AcceptEnrollment, "no relay host is running"),
        (RelayRequest::RejectEnrollment, "no relay host is running"),
        (RelayRequest::RemovePeer, "no relay engine is running"),
    ] {
        assert_eq!(without_engine(request), EngineStep::Refuse(BackendError::native(text)));
    }
    assert_eq!(engine_answered(RelayRequest::StartHost, Ok(4000u16)), Ok(4000));
    assert_eq!(
        engine_answered::<()>(RelayRequest::RemovePeer, Err("unknown".to_string())),
        Err(BackendError::native("trusted peer removal failed: unknown"))
    );
    assert_eq!(
        engine_answered::<()>(RelayRequest::OfferMode, Err("closed".to_string())),
        Err(BackendError::native("relay mode offer failed: closed"))
    );
    assert_eq!(
        engine_started::<()>(Err("no socket".to_string())),
        Err(BackendError::native("relay engine start: no socket"))
    );
    assert_eq!(device_name(None), "qpwgraph-rs");
    assert_eq!(device_name(Some("desk".to_string())), "desk");
}

#[test]
fn relay_nodes_are_looked_for_twice() {
    let mut wait = PublicationWait::default();
    let empty = Graph::new();
    assert_eq!(relay_looked(&mut wait, &empty, Ok(())), PublicationStep::LookAgain);
    assert_eq!(relay_looked(&mut wait, &empty, Ok(())), PublicationStep::Settled(Ok(())));
    let mut graph = Graph::new();
    graph.add_node(Node::new(NodeId(1), RELAY_SOURCE_NAME, NodeType::PipeWire)).unwrap();
    graph.add_node(Node::new(NodeId(2), RELAY_SINK_NAME, NodeType::PipeWire)).unwrap();
    let mut wait = PublicationWait::default();
    assert_eq!(relay_looked(&mut wait, &graph, Ok(())), PublicationStep::Settled(Ok(())));
    let failed = Err(BackendError::native("gone"));
    let mut wait = PublicationWait::default();
    assert_eq!(
        relay_looked(&mut wait, &graph, failed),
        PublicationStep::Settled(Err(BackendError::native("gone")))
    );
}

#[test]
fn a_mono_route_is_recognised() {
    let mut graph = Graph::new();
    for (node, name, port, direction) in [
        (1u64, RELAY_SOURCE_NAME, 10u64, Direction::Source),
        (3, "card", 30, Direction::Sink),
    ] {
        graph.add_node(Node::new(NodeId(node), name, NodeType::PipeWire)).unwrap();
        graph
            .add_port(Port::new(PortId(port), NodeId(node), "mono", direction, PortType::Audio))
            .unwrap();
    }
    let state = registry();
    let source = RelaySendSource::DefaultInput;
    let sink = RelayReceiveSink::DefaultOutput;
    let mut routers = RelayRouters::new(source.duplicate(), sink.duplicate());
    let start = routers.begin_local_route(RelayMode::Receiver, &source, &sink, &graph, &state);
    let LocalStart::Change(mut task) = start else {
        panic!("nothing to change");
    };
    assert_eq!(task.step(&graph), LocalStep::Connect(PortId(10), PortId(30)));
    graph.add_link(LinkId(201), PortId(10), PortId(30)).unwrap();
    task.connected(LinkId(201));
    assert_eq!(task.step(&graph), LocalStep::Done);
    routers.finish_local_route(task);
    assert!(routers.local.state.active);
    assert_eq!(
        routers.begin_local_route(RelayMode::Receiver, &source, &sink, &graph, &state),
        LocalStart::Settled
    );
}
