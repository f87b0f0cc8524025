use qpwgraph::graph::Graph;
use qpwgraph::ids::{graph_id, LinkId, NodeId, PortId};
use qpwgraph::model::{BackendError, Direction, Node, NodeType, Port, PortType, Position};
use qpwgraph::recorder_buffer::ByteBlock;
use qpwgraph::registry::{ObjectKind, Properties, RegistryState};
use qpwgraph::video_board::{
    bridge_output_source_port, target_for_node, unknown_video_filter, VideoBoard,
};
use qpwgraph::video_bridge::{
    OutputHealth, PreviewState, VideoBridge, VideoCounters, VideoFilterInstance, VideoNodeState,
};
use qpwgraph::video_connect::{connected_link, ConnectPlan};
use qpwgraph::video_frames::{
    frame_stride, gather_frame, spread_frame, BlockFill, OutputAction, VideoCaptureState,
    VideoOutputState,
};
use qpwgraph::video_names::{
    is_video_synthetic_id, video_capture_stream_name, video_node_name, video_output_stream_name,
    video_serial, VideoIds, VIDEO_STREAM_PREFIX,
};
use qpwgraph::video_session::{
    filter_failed, filter_output_failed, mirror_step, preview_failure, preview_step,
    screen_cast_info, screen_cast_node, unknown_filter_kind, InfoSource, MirrorStep, PreviewStep,
    WorkerStep,
};
use qpwgraph::video_spec::{
    check_fixed_format, offered_formats, parse_format_param, pixel_to_spa, plan_buffers,
    plan_capture_buffers, plan_output_buffers, spa_format_to_pixel, supported_pixel_formats,
    video_info_to_spec, SpaVideoFormat, VideoError, VideoInfo, VideoPixelFormat, VideoSpec,
    MAX_FRAME_BYTES, MAX_VIDEO_WIDTH,
};
use std::collections::BTreeMap;

fn test_bridge() -> VideoBridge {
    VideoBridge::new(VideoFilterInstance {
        instance_id: "test".into(),
        node_id: NodeId(1),
        input_port: PortId(2),
        output_port: PortId(3),
        filter_id: "passthrough".into(),
    })
}

fn small() -> VideoSpec {
    VideoSpec::new(4, 2, 30, 1, VideoPixelFormat::Rgbx).unwrap()
}

#[test]
fn bridge_lifecycle_and_failure_states() {
    let mut bridge = test_bridge();
    assert_eq!(bridge.state(), VideoNodeState::Idle);
    bridge.ensure_worker();
    assert!(bridge.worker_running());
    assert_eq!(bridge.state(), VideoNodeState::Live);
    bridge.mark_bypassed("test stall");
    assert_eq!(bridge.state(), VideoNodeState::Bypassed);
    bridge.clear_failure();
    assert_eq!(bridge.state(), VideoNodeState::Live);
    bridge.mark_failed("boom");
    assert_eq!(bridge.state(), VideoNodeState::Failed);
    assert!(matches!(bridge.preview, PreviewState::Error(_)));
    bridge.stop_worker();
    assert!(!bridge.worker_running());
}

#[test]
fn bridge_info_reports_spec_and_counters() {
    let mut bridge = test_bridge();
    let spec = VideoSpec::new(640, 480, 30, 1, VideoPixelFormat::Rgbx).unwrap();
    bridge.note_output_spec(&spec);
    let info = bridge.info(None);
    assert_eq!(info.spec, Some(spec));
    assert!(info.counters.is_some());
}

#[test]
fn supported_formats_cover_task_set() {
    let formats = supported_pixel_formats();
    assert!(formats.contains(&VideoPixelFormat::Rgbx));
    assert!(formats.contains(&VideoPixelFormat::Bgrx));
    assert!(formats.contains(&VideoPixelFormat::Rgba));
    assert!(formats.contains(&VideoPixelFormat::Nv12));
    assert!(formats.contains(&VideoPixelFormat::I420));
}

#[test]
fn spa_format_mapping_covers_supported_set() {
    for pixel in supported_pixel_formats() {
        assert_eq!(spa_format_to_pixel(&pixel_to_spa(pixel)), Some(pixel));
    }
    assert_eq!(spa_format_to_pixel(&SpaVideoFormat::Other("YUY2".into())), None);
    assert_eq!(spa_format_to_pixel(&SpaVideoFormat::Other("Unknown".into())), None);
}

#[test]
fn enum_format_pod_serializes() {
    let all = offered_formats(&vec![]);
    assert!(!all.is_empty());
    for pixel in supported_pixel_formats() {
        assert!(all.contains(&pixel_to_spa(pixel)));
    }
    let one = offered_formats(&vec![VideoPixelFormat::Nv12]);
    assert_eq!(one, vec![SpaVideoFormat::NV12]);
}

#[test]
fn buffers_pods_serialize_and_validate() {
    let capture = plan_capture_buffers().expect("capture buffers should build");
    assert!(capture.min_size <= capture.default_size && capture.default_size <= capture.max_size);
    let spec = VideoSpec::new(320, 240, 30, 1, VideoPixelFormat::Rgbx).unwrap();
    let output = plan_output_buffers(&spec).expect("output buffers should build");
    assert_eq!(output.default_size, 320 * 240 * 4);
    assert!(plan_buffers(0, 1, 1, 1).is_err());
    assert!(plan_buffers(10, 1, 100, 1).is_err());
    assert!(plan_buffers(1, 1, MAX_FRAME_BYTES as u32 + 1, 1).is_err());
    assert_eq!(
        plan_buffers(10, 1, 100, 1),
        Err(BackendError::native("video buffer sizes must order min <= default <= max"))
    );
}

#[test]
fn fixed_format_pod_rejects_invalid_spec() {
    let valid = VideoSpec::new(1280, 720, 60, 1, VideoPixelFormat::Bgrx).unwrap();
    assert_eq!(check_fixed_format(&valid), Ok(SpaVideoFormat::BGRx));
    let invalid = VideoSpec {
        width: 0,
        height: 720,
        framerate_num: 60,
        framerate_den: 1,
        format: VideoPixelFormat::Bgrx,
    };
    assert!(check_fixed_format(&invalid).is_err());
}

#[test]
fn frame_sizes_follow_the_format() {
    assert_eq!(small().frame_bytes(), Ok(32));
    let planar = VideoSpec::new(4, 2, 30, 1, VideoPixelFormat::Nv12).unwrap();
    assert_eq!(planar.frame_bytes(), Ok(12));
    let planar = VideoSpec::new(4, 2, 30, 1, VideoPixelFormat::I420).unwrap();
    assert_eq!(planar.frame_bytes(), Ok(12));
    assert_eq!(frame_stride(&small()), 16);
    assert_eq!(frame_stride(&planar), 4);
    let too_wide = VideoSpec::new(MAX_VIDEO_WIDTH + 1, 2, 30, 1, VideoPixelFormat::Rgbx);
    assert!(matches!(too_wide, Err(VideoError::InvalidSpec(_))));
    let no_rate = VideoSpec::new(4, 2, 30, 0, VideoPixelFormat::Rgbx);
    assert!(matches!(no_rate, Err(VideoError::InvalidSpec(_))));
    assert_eq!(
        VideoSpec::new(0, 2, 30, 1, VideoPixelFormat::Rgbx),
        Err(VideoError::InvalidSpec("video size must be nonzero".to_string()))
    );
    assert_eq!(small().validate(), Ok(()));
}

#[test]
fn negotiated_formats_are_read() {
    let info = VideoInfo {
        format: SpaVideoFormat::RGBx,
        width: 4,
        height: 2,
        framerate_num: 30,
        framerate_den: 1,
    };
    assert_eq!(video_info_to_spec(&info), Ok(small()));
    assert_eq!(parse_format_param(Some(info)), Ok(small()));
    assert!(parse_format_param(None).is_err());
    let odd = VideoInfo {
        format: SpaVideoFormat::Other("YUY2".into()),
        width: 4,
        height: 2,
        framerate_num: 30,
        framerate_den: 1,
    };
    assert!(matches!(video_info_to_spec(&odd), Err(VideoError::UnsupportedFormat(_))));
}

fn block(bytes: &[u8]) -> ByteBlock {
    ByteBlock { offset: 0, size: bytes.len() as u32, bytes: Some(bytes.to_vec()) }
}

#[test]
fn frames_are_gathered_and_spread() {
    let frame: Vec<u8> = (0..32).collect();
    let blocks = vec![block(&frame[..20]), block(&frame[20..])];
    assert_eq!(gather_frame(&blocks, 32), Some(frame));
    assert_eq!(gather_frame(&blocks, 33), None);
    assert_eq!(
        spread_frame(&vec![Some(20), None, Some(40)], 32),
        Some(vec![
            Some(BlockFill { from: 0, len: 20 }),
            None,
            Some(BlockFill { from: 20, len: 12 }),
        ])
    );
    assert_eq!(spread_frame(&vec![Some(20)], 32), None);
}

#[test]
fn captured_frames_are_counted() {
    let mut capture = VideoCaptureState::new();
    let frame: Vec<u8> = (0..32).collect();
    // Nothing can be made of a frame before its format is known.
    assert!(capture.take_frame(&vec![block(&frame)]).is_none());
    assert!(capture.format_changed(Ok(small())));
    capture.state_changed(true, false);
    assert!(capture.connected);
    let first = capture.take_frame(&vec![block(&frame)]).expect("a frame");
    let second = capture.take_frame(&vec![block(&frame)]).expect("a frame");
    assert_eq!(first.bytes, frame);
    assert_eq!(first.spec, small());
    assert!(second.sequence > first.sequence);
    let rejected = capture.rejected;
    assert!(capture.take_frame(&vec![block(&frame[..9])]).is_none());
    assert_eq!(capture.rejected, rejected + 1);
    capture.state_changed(false, true);
    assert!(!capture.connected);
}

#[test]
fn output_frames_are_published_in_the_offered_format() {
    let mut output = VideoOutputState::new(small());
    assert_eq!(output.publish(Some(32), &vec![Some(31)]), OutputAction::Empty);
    assert_eq!(output.error, Some("output buffer smaller than frame".to_string()));
    output.state_changed(true, false);
    assert!(output.connected);
    output.format_changed(Ok(small()));
    assert_eq!(
        output.publish(Some(32), &vec![Some(32)]),
        OutputAction::Fill(vec![Some(BlockFill { from: 0, len: 32 })])
    );
    assert_eq!(output.frames_written, 1);
    assert_eq!(output.publish(None, &vec![Some(32)]), OutputAction::Empty);
    let other = VideoSpec::new(8, 2, 30, 1, VideoPixelFormat::Rgbx).unwrap();
    output.format_changed(Ok(other));
    assert!(output.format_mismatch);
    assert_eq!(output.publish(Some(32), &vec![Some(32)]), OutputAction::Empty);
}

#[test]
fn streams_decide_the_state_of_a_filter() {
    let mut bridge = test_bridge();
    bridge.ensure_worker();
    let healthy = OutputHealth { connected: true, format_mismatch: false };
    bridge.reconcile_streams(Some(true), Some(healthy));
    assert_eq!(bridge.state(), VideoNodeState::Live);
    bridge.mark_failed("boom");
    bridge.reconcile_streams(Some(true), Some(healthy));
    assert_eq!(bridge.state(), VideoNodeState::Failed);
    assert_eq!(bridge.counters(), VideoCounters { received: 0, dropped: 0, rejected: 0 });
    assert_eq!(bridge.duplicate(), bridge);
}

#[test]
fn synthetic_numbers_are_recognised_and_differ() {
    let mut ids = VideoIds::new();
    let first = ids.alloc_video_id();
    let second = ids.alloc_video_id();
    assert_ne!(first, second);
    assert!(is_video_synthetic_id(first));
    assert!(is_video_synthetic_id(second));
    assert!(!is_video_synthetic_id(graph_id(5)));
}

#[test]
fn filters_have_stable_names() {
    // FNV-1a over the bytes of the name.
    let mut expected: u64 = 0xcbf2_9ce4_8422_2325;
    for byte in "blur-ä".bytes() {
        expected ^= byte as u64;
        expected = expected.wrapping_mul(0x0000_0100_0000_01b3);
    }
    assert_eq!(video_serial("blur-ä"), expected);
    assert_eq!(video_serial(""), 0xcbf2_9ce4_8422_2325);
    assert_ne!(video_capture_stream_name("a"), video_output_stream_name("a"));
    assert_ne!(video_output_stream_name("a"), video_output_stream_name("b"));
    assert_eq!(video_node_name("blur", "a"), "qpwgraph-video-blur-a");
    assert_eq!(
        video_capture_stream_name("a"),
        format!("{VIDEO_STREAM_PREFIX}in-a")
    );
    assert_eq!(
        video_output_stream_name("a"),
        format!("{VIDEO_STREAM_PREFIX}out-a")
    );
}

fn announce(state: &mut RegistryState, id: u32, kind: ObjectKind, entries: &[(&str, &str)]) {
    let props = Properties {
        entries: entries.iter().map(|(k, v)| (k.to_string(), v.to_string())).collect(),
    };
    assert!(state.apply_global(id, kind, Some(&props)));
}

/// A camera and a viewer.
fn studio() -> Graph {
    let mut graph = Graph::new();
    let camera = NodeId(graph_id(40));
    let viewer = NodeId(graph_id(41));
    graph
        .add_node(Node::new(camera, "camera", NodeType::PipeWire).with_serial(400))
        .unwrap();
    graph.add_node(Node::new(viewer, "viewer", NodeType::PipeWire)).unwrap();
    graph
        .add_port(Port::new(
            PortId(graph_id(50)),
            camera,
            "capture",
            Direction::Source,
            PortType::Video,
        ))
        .unwrap();
    graph
        .add_port(Port::new(
            PortId(graph_id(51)),
            viewer,
            "input",
            Direction::Sink,
            PortType::Video,
        ))
        .unwrap();
    graph
}

#[test]
fn filters_are_made_and_removed() {
    let mut board = VideoBoard::new();
    let made = board.create_filter("blur-1", "blur", Position { x: 1, y: 2 });
    assert_eq!(
        board.check_create_filter("blur-1"),
        Err(BackendError::native("video filter instance blur-1 already exists"))
    );
    assert_eq!(
        board.check_create_filter(" "),
        Err(BackendError::native("video filter instance id is empty"))
    );
    assert!(board.check_create_filter("blur-2").is_ok());
    assert_eq!(board.video_filters(), vec![made.duplicate()]);
    assert_eq!(
        board.video_bridge_for_port(made.input_port),
        Some(("blur-1".to_string(), true))
    );
    assert_eq!(
        board.video_bridge_for_port(made.output_port),
        Some(("blur-1".to_string(), false))
    );
    assert_eq!(board.video_bridge_for_port(PortId(5)), None);
    let removed = board.remove_filter("blur-1").unwrap();
    assert!(removed.is_empty());
    assert!(board.video_filters().is_empty());
    assert_eq!(board.remove_filter("blur-1"), Err(unknown_video_filter("blur-1")));
}

#[test]
fn a_camera_is_connected_to_a_filter() {
    let mut graph = studio();
    let state = RegistryState::new();
    let mut board = VideoBoard::new();
    let filter = board.create_filter("blur-1", "blur", Position::origin());
    board.inject_video_nodes(&mut graph, &BTreeMap::new());
    let plan = board
        .plan_connect(&graph, &state, PortId(graph_id(50)), filter.input_port)
        .unwrap();
    assert_eq!(
        plan,
        ConnectPlan::Retarget { bridge: "blur-1".to_string(), target: "400".to_string() }
    );
    assert_eq!(target_for_node(&graph, NodeId(graph_id(40))), Ok("400".to_string()));
    board.release_capture("blur-1").unwrap();
    board.capture_opened("blur-1");
    let link = board.project(
        PortId(graph_id(50)),
        filter.input_port,
        None,
        Some("blur-1".to_string()),
    );
    assert!(is_video_synthetic_id(link.0));
    let (gone, real_link) = board.disconnect(link).unwrap();
    assert_eq!(gone.output_port, PortId(graph_id(50)));
    assert_eq!(gone.input_port, filter.input_port);
    assert_eq!(real_link, None);
    assert!(board.disconnect(link).is_err());
    assert_eq!(
        board.plan_connect(&graph, &state, filter.output_port, filter.input_port),
        Err(BackendError::native("a video filter cannot feed its own input"))
    );
    assert_eq!(
        board.plan_connect(&graph, &state, filter.output_port, PortId(graph_id(51))),
        Err(BackendError::native(
            "filter blur-1 has no negotiated output yet; link its input and wait for negotiation"
        ))
    );
}

#[test]
fn a_filter_is_connected_to_a_viewer() {
    let mut graph = studio();
    let mut state = RegistryState::new();
    let mut board = VideoBoard::new();
    let filter = board.create_filter("blur-1", "blur", Position::origin());
    board.inject_video_nodes(&mut graph, &BTreeMap::new());
    assert_eq!(bridge_output_source_port(&state, "blur-1"), None);
    announce(
        &mut state,
        60,
        ObjectKind::Node,
        &[
            ("node.name", video_output_stream_name("blur-1").as_str()),
            ("media.class", "Stream/Output/Video"),
        ],
    );
    announce(
        &mut state,
        61,
        ObjectKind::Port,
        &[("node.id", "60"), ("port.name", "output"), ("port.direction", "out")],
    );
    let (port, node) = bridge_output_source_port(&state, "blur-1").expect("a stream");
    assert_eq!(port, PortId(graph_id(61)));
    assert_eq!(node, 60);
    let plan = board
        .plan_connect(&graph, &state, filter.output_port, PortId(graph_id(51)))
        .unwrap();
    match plan {
        ConnectPlan::Join { bridge, port, to_port, existing, .. } => {
            assert_eq!(bridge, "blur-1");
            assert_eq!(port, 61);
            assert_eq!(to_port, 51);
            assert_eq!(existing, None);
        }
        other => panic!("unexpected plan: {other:?}"),
    }
    let link = board
        .joined(filter.output_port, PortId(graph_id(51)), Ok(70))
        .unwrap();
    let (_, real_link) = board.disconnect(link).unwrap();
    assert_eq!(real_link, Some(LinkId(graph_id(70))));
    assert_eq!(
        board.joined(
            filter.output_port,
            PortId(graph_id(51)),
            Err(BackendError::native("refused"))
        ),
        Err(BackendError::native("refused"))
    );
}

#[test]
fn filters_only_add_to_the_graph() {
    let mut graph = studio();
    let before = graph.duplicate();
    let mut board = VideoBoard::new();
    let filter = board.create_filter("blur-1", "blur", Position { x: 3, y: 4 });
    board.inject_video_nodes(&mut graph, &BTreeMap::new());
    for (id, node) in &before.nodes {
        assert_eq!(graph.nodes.get(id), Some(node));
    }
    let shown = graph.node(filter.node_id).expect("the filter");
    assert_eq!(shown.position, Position { x: 3, y: 4 });
    assert_eq!(shown.ports, vec![filter.input_port, filter.output_port]);
    assert_eq!(graph.port(filter.input_port).unwrap().port_type, PortType::Video);
}

#[test]
fn filters_are_switched() {
    let mut board = VideoBoard::new();
    board.create_filter("blur-1", "blur", Position::origin());
    assert_eq!(board.set_video_filter_enabled("blur-1", true), Ok(WorkerStep::Keep));
    assert_eq!(board.set_video_filter_enabled("blur-1", false), Ok(WorkerStep::Stop));
    assert_eq!(board.set_video_filter_enabled("blur-1", true), Ok(WorkerStep::Start));
    board.worker_started("blur-1");
    assert_eq!(board.set_video_filter_enabled("blur-1", true), Ok(WorkerStep::Keep));
    board.input_negotiated("blur-1");
    assert!(board.output_needs_rebuild("blur-1", &small()));
    board.release_output("blur-1");
    board.output_opened("blur-1", &small(), Ok(()));
    assert!(!board.output_needs_rebuild("blur-1", &small()));
    board.streams_seen(
        "blur-1",
        Some(true),
        Some(OutputHealth { connected: true, format_mismatch: false }),
    );
    assert_eq!(board.set_video_filter_enabled("blur-1", false), Ok(WorkerStep::Stop));
    assert_eq!(
        board.set_video_filter_enabled("other", true),
        Err(unknown_video_filter("other"))
    );
    assert_eq!(
        unknown_filter_kind("swirl", "no such kind").to_text(),
        "unknown video filter swirl: no such kind"
    );
    assert_eq!(filter_failed("x").to_text(), "video filter failed: x");
    assert_eq!(filter_output_failed("x").to_text(), "video filter output spec failed: x");
    assert_eq!(unknown_video_filter("x").to_text(), "unknown video filter instance x");
}

#[test]
fn captures_are_previewed() {
    let graph = studio();
    let mut state = RegistryState::new();
    assert_eq!(screen_cast_node(&graph, None), None);
    assert_eq!(screen_cast_node(&graph, Some(40)), Some(NodeId(graph_id(40))));
    assert_eq!(screen_cast_node(&graph, Some(99)), None);
    assert_eq!(preview_step(None, &state, true), PreviewStep::Drop);
    assert_eq!(preview_step(Some(40), &state, false), PreviewStep::Nothing);
    announce(
        &mut state,
        40,
        ObjectKind::Node,
        &[("node.name", "cast"), ("object.serial", "400")],
    );
    assert_eq!(
        preview_step(Some(40), &state, false),
        PreviewStep::Open("400".to_string())
    );
    assert_eq!(preview_step(Some(40), &state, true), PreviewStep::Mirror);
    assert_eq!(
        mirror_step(4, Some(5), true, false),
        MirrorStep { publish: Some(5), idle: false }
    );
    assert_eq!(
        mirror_step(5, Some(5), true, true),
        MirrorStep { publish: None, idle: false }
    );
    let counters = VideoCounters { received: 1, dropped: 0, rejected: 0 };
    let info = screen_cast_info(
        NodeId(graph_id(40)),
        Some(40),
        Some(small()),
        true,
        counters,
        &PreviewState::Live,
    )
    .expect("the captured node");
    assert_eq!(info.spec, Some(small()));
    assert_eq!(info.state, VideoNodeState::Live);
    assert!(screen_cast_info(
        NodeId(graph_id(41)),
        Some(40),
        None,
        true,
        counters,
        &PreviewState::Idle
    )
    .is_none());
}

#[test]
fn removed_filters_leave_no_link() {
    let mut graph = studio();
    let mut board = VideoBoard::new();
    let filter = board.create_filter("blur-1", "blur", Position::origin());
    let other = board.create_filter("blur-2", "blur", Position::origin());
    board.inject_video_nodes(&mut graph, &BTreeMap::new());
    let gone = board.project(
        PortId(graph_id(50)),
        filter.input_port,
        None,
        Some("blur-1".to_string()),
    );
    let kept = board.project(
        PortId(graph_id(50)),
        other.input_port,
        None,
        Some("blur-2".to_string()),
    );
    board.remove_filter("blur-1").unwrap();
    assert!(!board.links.contains_key(&gone.0));
    assert!(board.links.contains_key(&kept.0));
}

#[test]
fn the_first_reason_counts() {
    let mut bridge = test_bridge();
    bridge.ensure_worker();
    bridge.mark_bypassed("first");
    bridge.mark_bypassed("second");
    assert_eq!(bridge.state(), VideoNodeState::Bypassed);
    assert_eq!(bridge.last_error, Some("first".to_string()));
    bridge.note_input_detached();
    assert!(bridge.worker_running());
}

#[test]
fn frames_are_bounded() {
    let largest = VideoSpec::new(MAX_VIDEO_WIDTH, 4320, 60, 1, VideoPixelFormat::Rgba).unwrap();
    assert_eq!(largest.frame_bytes(), Ok(MAX_FRAME_BYTES));
}

#[test]
fn a_connection_ends_with_its_link() {
    let mut graph = Graph::new();
    for (node, port, direction) in [(1, 10, Direction::Source), (2, 20, Direction::Sink)] {
        graph.add_node(Node::new(NodeId(node), "node", NodeType::PipeWire)).unwrap();
        graph
            .add_port(Port::new(PortId(port), NodeId(node), "port", direction, PortType::Video))
            .unwrap();
    }
    assert_eq!(
        connected_link(&graph, LinkId(5)),
        Err(BackendError::native("video link projection failed"))
    );
    graph.add_link(LinkId(5), PortId(10), PortId(20)).unwrap();
    let link = connected_link(&graph, LinkId(5)).unwrap();
    assert_eq!((link.id, link.output_port, link.input_port), (LinkId(5), PortId(10), PortId(20)));
}

#[test]
fn node_info_comes_from_filter_or_capture() {
    let mut board = VideoBoard::new();
    let made = board.create_filter("blur", "passthrough", Position { x: 0, y: 0 });
    assert_eq!(
        board.info_source(made.node_id, false, None),
        InfoSource::Filter("blur".to_string())
    );
    let captured = NodeId(graph_id(40));
    assert_eq!(board.info_source(captured, true, Some(40)), InfoSource::Capture);
    assert_eq!(board.info_source(captured, false, Some(40)), InfoSource::Nowhere);
    assert_eq!(board.info_source(captured, true, Some(41)), InfoSource::Nowhere);
    assert_eq!(board.info_source(captured, true, None), InfoSource::Nowhere);
    assert_eq!(
        preview_failure(&BackendError::native("no stream")),
        PreviewState::Error("preview failed: no stream".to_string())
    );
}
