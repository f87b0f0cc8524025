use qpwgraph::configuration::{
    hold_zoom, Canvas, Settings, Viewport, WindowInput, LARGEST_ZOOM, SMALLEST_ZOOM,
};
use qpwgraph::effect_model::{ChannelPolicy, EffectConfig, EffectInstance};
use qpwgraph::events::{
    paired, process_event, tray_step, EventScene, EventStep, TrayCommand, TrayStep, UiEvent,
};
use qpwgraph::gallery::{
    available_descriptors, default_parameters, effect_controls, find_descriptor, gallery_message,
    gallery_request, parameter_controls,
    unique_effect_id, EffectDescriptor, EffectGalleryPhase, EffectGalleryState,
    ParameterDescriptor,
};
use qpwgraph::graph::Graph;
use qpwgraph::ids::{LinkId, NodeId, PortId};
use qpwgraph::metering::{policy_change, MeterPolicy};
use qpwgraph::model::{BackendError, Direction, Node, NodeType, Port, PortType, Position};
use qpwgraph::rows::{
    graph_counts_text, minimap_height, node_height, port_rows, ports_of_pin, relay_level,
    relay_row_step, relay_state_text, PinGroup, PortColors, RelayDeviceRow, RelayDeviceState,
    RelayRowStep,
};
use qpwgraph::saved_effects::{
    effect_instance_id, restore_plan, EffectUpdate, RestorePlan, SavedEffects, FALLBACK_X, FALLBACK_Y,
};
use qpwgraph::selection::{
    commit_drag, connect_action, delete_actions, drop_action, input_ports, links_touching_node,
    places_equal, selected_nodes, stable_link_pairs, CanvasAction, DragRow, DragStep, Row,
    Selection,
};
use qpwgraph::settings::{
    appearance_of, audio_meters, connect_mode_text, graph_refresh_due, is_unique, meter_refresh_due,
    node_positions, parse_sort_key, parse_sort_order, positions_by_name, sort_key_text,
    sort_order_text, views_by_name, visible_meters, AudioMeter, Autosave, MeterSource, MeterTable,
    NodeAppearance, PatchbayPlaces, Rgba, WindowSize, AUTOSAVE_DELAY,
};
use qpwgraph::status::{status_note, StatusEvent, StatusNote};
use qpwgraph::text::{
    after_prefix, behind_last, chars_of, concat2, concat3, decimal_text, eq_ignoring_case,
    is_white_space, lower_contains, number_in_base, parse_u64, text_contains, text_eq, text_of, to_lower_char,
    trim, trim_char,
};
use qpwgraph::text_table::{stands_before, TextTable};
use qpwgraph::ui_actions::{
    parse_action, ConnectMode, MediaFilter, PanDirection, PanSpeed, RelayPanel, SortKey, SortOrder,
    UiAction, UiCommand, UiState,
};
use qpwgraph::window::{
    effect_fields, node_type_text, LinkRow, LinkShown, MinimapRow, NodeShown, Scene, WindowModels,
};
use std::collections::BTreeMap;

fn descriptor() -> EffectDescriptor {
    EffectDescriptor {
        id: "builtin.noise-gate".to_string(),
        name: "Noise gate".to_string(),
        parameters: vec![
            ParameterDescriptor {
                id: "threshold".to_string(),
                name: "Threshold".to_string(),
                minimum: (-80.0f32).to_bits(),
                maximum: 0.0f32.to_bits(),
                default: (-40.0f32).to_bits(),
                unit: "dB".to_string(),
            },
            ParameterDescriptor {
                id: "hold".to_string(),
                name: "Hold".to_string(),
                minimum: 0.0f32.to_bits(),
                maximum: 1.0f32.to_bits(),
                default: 1.0f32.to_bits(),
                unit: "bool".to_string(),
            },
        ],
    }
}

#[test]
fn gallery_starts_with_a_standalone_node_and_default_parameters() {
    let descriptor = descriptor();
    let state = EffectGalleryState::new(&descriptor, 4);
    assert_eq!(state.phase, EffectGalleryPhase::Choose);
    assert_eq!(state.parameters, default_parameters(&descriptor));
    assert_eq!(state.scroll_epoch, 4);
}

#[test]
fn gallery_phases_reset_scroll_when_moving_between_steps() {
    let descriptor = descriptor();
    let mut state = EffectGalleryState::new(&descriptor, 4);
    state.next_phase();
    assert_eq!(state.phase, EffectGalleryPhase::Configure);
    assert_eq!(state.scroll_epoch, 5);

    state.next_phase();
    assert_eq!(state.scroll_epoch, 5);

    state.previous_phase();
    assert_eq!(state.phase, EffectGalleryPhase::Choose);
    assert_eq!(state.scroll_epoch, 6);
}

#[test]
fn steps_through_the_gallery_keep_the_choice() {
    let mut state = EffectGalleryState::new(&descriptor(), u32::MAX);
    state.toggle_enabled();
    state.set_parameter("threshold".to_string(), (-10.0f32).to_bits());
    let enabled = state.enabled;
    state.next_phase();
    assert_eq!(state.scroll_epoch, 0);
    state.previous_phase();
    assert_eq!(state.enabled, enabled);
    assert_eq!(state.parameters.get("threshold"), Some(&(-10.0f32).to_bits()));
    assert_eq!(EffectGalleryPhase::Choose.index(), 0);
    assert_eq!(EffectGalleryPhase::Configure.index(), 1);
    assert_eq!(EffectGalleryPhase::default(), EffectGalleryPhase::Choose);
    assert_eq!(
        gallery_message("ready", &state),
        "ready · builtin.noise-gate · step 1/2"
    );
}

#[test]
fn parameters_are_shown_with_their_values() {
    let descriptor = descriptor();
    let mut values = TextTable::new();
    values.insert("threshold".to_string(), (-20.0f32).to_bits());
    let controls = parameter_controls(&descriptor, &values);
    assert_eq!(controls.len(), 2);
    assert_eq!(controls[0].value, (-20.0f32).to_bits());
    assert_eq!(controls[1].value, 1.0f32.to_bits());
    assert_eq!(find_descriptor(&vec![descriptor], "builtin.noise-gate"), Some(0));
    assert_eq!(find_descriptor(&vec![], "x"), None);
}

#[test]
fn effect_names_are_unique() {
    assert_eq!(unique_effect_id(255, 16), "effect-ff-10");
    assert_ne!(unique_effect_id(5, 1), unique_effect_id(5, 2));
    assert_ne!(unique_effect_id(5, 1), unique_effect_id(6, 1));
}

fn instance(id: &str, node: u64) -> EffectInstance {
    EffectInstance {
        config: EffectConfig {
            instance_id: id.to_string(),
            effect_id: "builtin.noise-gate".to_string(),
            module: None,
            enabled: true,
            parameters: TextTable::new(),
            channel_policy: ChannelPolicy::Auto,
        },
        node_id: NodeId(node),
        input_port: PortId(node + 1),
        output_port: PortId(node + 2),
        source: None,
        destination: None,
        error: None,
    }
}

#[test]
fn effect_cards_show_their_controls() {
    let controls = effect_controls(&vec![instance("gate", 7)], &vec![descriptor()]);
    assert_eq!(controls.len(), 1);
    assert_eq!(controls[0].node_id, NodeId(7));
    assert_eq!(controls[0].parameters.len(), 2);
    assert_eq!(
        effect_instance_id(&vec![instance("gate", 7)], NodeId(7)),
        Some("gate".to_string())
    );
    assert_eq!(effect_instance_id(&vec![], NodeId(7)), None);
}

#[test]
fn saved_effects_come_back_once() {
    let mut saved = SavedEffects { effects: Vec::new() };
    let graph = Graph::new();
    saved.persist_effect(&graph, &instance("gate", 7));
    saved.persist_effect(&graph, &instance("gate", 7));
    assert_eq!(saved.effects.len(), 1);
    assert_eq!(
        saved.effects[0].position,
        Position { x: FALLBACK_X, y: FALLBACK_Y }
    );
    let off = EffectUpdate::Enabled(false);
    let refused = Err(BackendError::native("busy"));
    assert_eq!(saved.update_answered("gate", &off, refused), Some("busy".to_string()));
    assert!(saved.effects[0].instance.enabled);
    assert_eq!(saved.update_answered("gate", &off, Ok(())), None);
    assert!(!saved.effects[0].instance.enabled);
    saved.update("other", &EffectUpdate::Enabled(true));
    assert!(!saved.effects[0].instance.enabled);
    saved.update("gate", &EffectUpdate::Parameter { id: "threshold".to_string(), value: 3 });
    assert_eq!(saved.effects[0].instance.parameters.get("threshold"), Some(&3));
    assert_eq!(saved.standalone().len(), 1);
    assert!(saved.inserted().is_empty());
    assert_eq!(restore_plan(&saved.effects[0]), RestorePlan::Standalone);

    let mut placed = Graph::new();
    placed.add_node(Node::new(NodeId(7), "gate", NodeType::Effect)).unwrap();
    let place = Position { x: 1, y: 2 };
    placed.set_position(NodeId(7), place).unwrap();
    saved.keep_positions(&placed, &vec![instance("gate", 7)]);
    assert_eq!(saved.effects[0].position, place);
    assert_eq!(
        saved.removal_answered("gate", Err(BackendError::native("busy"))),
        Some("busy".to_string())
    );
    assert_eq!(saved.effects.len(), 1);
    assert_eq!(saved.removal_answered("gate", Ok(())), None);
    assert!(saved.effects.is_empty());
}

fn screen() -> UiState {
    UiState {
        show_preferences: false,
        show_history: false,
        show_shortcuts: false,
        show_effects: false,
        show_relay: false,
        thumbnail_mode: false,
        minimap_visible: true,
        statusbar: true,
        repel_overlapping_nodes: false,
        connect_through_nodes: false,
        sort_key: SortKey::Name,
        sort_order: SortOrder::Ascending,
        connect_mode: ConnectMode::Easy,
        media_filter: MediaFilter::All,
        gallery: None,
        gallery_epoch: 0,
        relay: RelayPanel::default(),
        status: String::new(),
    }
}

fn open_panels(state: &UiState) -> usize {
    [
        state.show_preferences,
        state.show_history,
        state.show_shortcuts,
        state.show_effects,
        state.show_relay,
    ]
    .iter()
    .filter(|open| **open)
    .count()
}

#[test]
fn actions_have_names() {
    for (name, action) in [
        ("refresh", UiAction::Refresh),
        ("arrange", UiAction::Arrange),
        ("pan-left", UiAction::Pan(PanDirection::Left, PanSpeed::Slow)),
        ("pan-right-medium", UiAction::Pan(PanDirection::Right, PanSpeed::Medium)),
        ("pan-down-fast", UiAction::Pan(PanDirection::Down, PanSpeed::Fast)),
        ("zoom-in", UiAction::ZoomIn),
        ("zoom-out", UiAction::ZoomOut),
        ("toggle-thumbnail", UiAction::ToggleThumbnail),
        ("toggle-minimap", UiAction::ToggleMinimap),
        ("undo", UiAction::Undo),
        ("redo", UiAction::Redo),
        ("save-config", UiAction::SaveConfig),
        ("save-patchbay", UiAction::SavePatchbay),
        ("load-patchbay", UiAction::LoadPatchbay),
        ("disconnect-all", UiAction::DisconnectAll),
        ("snapshot-patchbay", UiAction::SnapshotPatchbay),
        ("activate-patchbay", UiAction::ActivatePatchbay),
        ("reset-audio", UiAction::ResetAudio),
        ("toggle-statusbar", UiAction::ToggleStatusbar),
        ("toggle-repel", UiAction::ToggleRepel),
        ("toggle-connect-through", UiAction::ToggleConnectThrough),
        ("sort-id", UiAction::SortBy(SortKey::Id)),
        ("sort-descending", UiAction::Order(SortOrder::Descending)),
        ("connect-advanced", UiAction::Connect(ConnectMode::Advanced)),
        ("filter-midi", UiAction::Filter(MediaFilter::Midi)),
        ("preferences", UiAction::Preferences),
        ("history", UiAction::History),
        ("shortcuts", UiAction::Shortcuts),
        ("effects", UiAction::Effects),
        ("create-effect", UiAction::CreateEffect),
        ("effect-configure", UiAction::EffectConfigure),
        ("effect-choose", UiAction::EffectChoose),
        ("effect-toggle-enabled", UiAction::EffectToggleEnabled),
        ("relay", UiAction::Relay),
        ("relay-discover", UiAction::RelayDiscover),
        ("relay-refresh", UiAction::RelayRefresh),
        ("relay-connect", UiAction::RelayConnect),
        ("relay-host-start", UiAction::RelayHostStart),
        ("relay-host-stop", UiAction::RelayHostStop),
        ("relay-show-qr", UiAction::RelayShowQr),
        ("escape", UiAction::Escape),
    ] {
        assert_eq!(parse_action(name), Some(action), "{name}");
    }
    assert_eq!(parse_action("no such action"), None);
    assert_eq!(parse_action(""), None);
}

#[test]
fn one_panel_is_open_at_a_time() {
    let mut state = screen();
    for action in [UiAction::Preferences, UiAction::History, UiAction::Shortcuts] {
        state.handle_action(action);
        assert_eq!(open_panels(&state), 1);
    }
    // The relay has a place of its own.
    assert_eq!(state.handle_action(UiAction::Relay), UiCommand::StartDiscovery);
    assert!(state.show_relay && state.show_shortcuts);
    state.handle_action(UiAction::Escape);
    assert_eq!(open_panels(&state), 0);
}

#[test]
fn switches_go_back() {
    for action in [
        UiAction::ToggleThumbnail,
        UiAction::ToggleMinimap,
        UiAction::ToggleStatusbar,
        UiAction::ToggleRepel,
        UiAction::ToggleConnectThrough,
    ] {
        let mut state = screen();
        state.handle_action(action);
        assert_ne!(state, screen());
        state.handle_action(action);
        assert_eq!(state, screen());
    }
}

#[test]
fn actions_become_commands() {
    let mut state = screen();
    assert_eq!(state.handle_action(UiAction::Undo), UiCommand::Undo);
    assert_eq!(state.handle_action(UiAction::SaveConfig), UiCommand::SaveConfig);
    for (direction, speed, x, y) in [
        (PanDirection::Left, PanSpeed::Slow, -48, 0),
        (PanDirection::Right, PanSpeed::Medium, 96, 0),
        (PanDirection::Up, PanSpeed::Fast, 0, -192),
        (PanDirection::Down, PanSpeed::Slow, 0, 48),
    ] {
        assert_eq!(
            state.handle_action(UiAction::Pan(direction, speed)),
            UiCommand::Pan { x, y }
        );
    }
    state.handle_action(UiAction::SortBy(SortKey::Id));
    state.handle_action(UiAction::Order(SortOrder::Descending));
    state.handle_action(UiAction::Connect(ConnectMode::Advanced));
    state.handle_action(UiAction::Filter(MediaFilter::Midi));
    assert_eq!(state.sort_key, SortKey::Id);
    assert_eq!(state.sort_order, SortOrder::Descending);
    assert_eq!(state.connect_mode, ConnectMode::Advanced);
    assert_eq!(state.media_filter, MediaFilter::Midi);
}

#[test]
fn the_gallery_opens_and_closes() {
    let mut state = screen();
    assert_eq!(state.handle_action(UiAction::Effects), UiCommand::OpenGallery);
    assert!(!state.open_effect_gallery(&vec![]));
    assert!(state.open_effect_gallery(&vec![descriptor()]));
    assert!(state.show_effects);
    state.gallery_parameter_changed("threshold".to_string(), 5);
    assert_eq!(
        state.gallery.as_ref().unwrap().parameters.get("threshold"),
        Some(&5)
    );
    state.handle_action(UiAction::EffectConfigure);
    assert_eq!(
        state.gallery.as_ref().unwrap().phase,
        EffectGalleryPhase::Configure
    );
    state.handle_action(UiAction::EffectChoose);
    state.handle_action(UiAction::EffectToggleEnabled);
    assert_eq!(state.effect_answered(false), "effects.create_failed");
    assert!(state.show_effects);
    assert_eq!(state.effect_answered(true), "effects.created");
    assert!(!state.show_effects);
}

fn rows(selected: &[bool]) -> Vec<Row> {
    selected
        .iter()
        .enumerate()
        .map(|(i, selected)| Row { id: i as i32 + 1, selected: *selected })
        .collect()
}

#[test]
fn picks_are_alone_or_toggled() {
    let mut selection = Selection {
        nodes: rows(&[true, true, false]),
        links: rows(&[true]),
    };
    selection.select_node(3, false);
    assert_eq!(selection.nodes, rows(&[false, false, true]));
    assert_eq!(selection.links, rows(&[false]));
    selection.select_node(1, true);
    assert_eq!(selection.nodes, rows(&[true, false, true]));
    selection.select_node(1, true);
    assert_eq!(selection.nodes, rows(&[false, false, true]));
    selection.select_link(1, false);
    assert_eq!(selection.selected_link(), Some(1));
    assert_eq!(selection.nodes, rows(&[false, false, false]));
    selection.select_box(&vec![2, 3], false);
    assert_eq!(selection.nodes, rows(&[false, true, true]));
    selection.clear();
    assert_eq!(selection.nodes, rows(&[false, false, false]));
    assert_eq!(selection.selected_link(), None);
    assert_eq!(
        selected_nodes(&rows(&[true, false, true]), &vec![Some(NodeId(9)), None, Some(NodeId(4))]),
        vec![4, 9]
    );
}

fn wired() -> Graph {
    let mut graph = Graph::new();
    graph.add_node(Node::new(NodeId(1), "mic", NodeType::PipeWire)).unwrap();
    graph.add_node(Node::new(NodeId(2), "speakers", NodeType::PipeWire)).unwrap();
    graph
        .add_port(Port::new(PortId(10), NodeId(1), "out", Direction::Source, PortType::Audio))
        .unwrap();
    graph
        .add_port(Port::new(PortId(20), NodeId(2), "in", Direction::Sink, PortType::Audio))
        .unwrap();
    graph.add_link(LinkId(1), PortId(10), PortId(20)).unwrap();
    graph
}

#[test]
fn gestures_become_actions() {
    let pair = (PortId(1), PortId(2));
    assert_eq!(
        connect_action(vec![pair]),
        CanvasAction::Connect { output: PortId(1), input: PortId(2) }
    );
    assert_eq!(
        connect_action(vec![pair, (PortId(3), PortId(4))]),
        CanvasAction::ConnectMany { pairs: vec![pair, (PortId(3), PortId(4))] }
    );
    assert_eq!(drop_action(vec![]), None);
    assert!(drop_action(vec![pair]).is_some());
    let deletions = delete_actions(vec![LinkId(5)], &vec![7]);
    assert!(deletions.contains(&CanvasAction::DisconnectMany { links: vec![LinkId(5)] }));
    assert!(deletions.contains(&CanvasAction::DisconnectNode { node: NodeId(7) }));
    assert!(delete_actions(vec![], &vec![]).is_empty());
}

#[test]
fn nodes_know_their_links_and_inputs() {
    let graph = wired();
    let links = links_touching_node(&graph, NodeId(2));
    assert_eq!(links.len(), 1);
    assert_eq!(
        stable_link_pairs(&graph, &links),
        vec![(
            graph.port_key(PortId(10)).unwrap(),
            graph.port_key(PortId(20)).unwrap()
        )]
    );
    assert_eq!(input_ports(&graph, NodeId(2)), vec![PortId(20)]);
    assert!(input_ports(&graph, NodeId(1)).is_empty());
}

#[test]
fn drags_are_committed_where_something_moved() {
    let mut graph = wired();
    let here = Position { x: 1.0f32.to_bits(), y: 1.0f32.to_bits() };
    let there = Position { x: 5.0f32.to_bits(), y: 1.0f32.to_bits() };
    graph.set_position(NodeId(1), here).unwrap();
    graph.set_position(NodeId(2), here).unwrap();
    assert!(places_equal(here, here));
    assert!(!places_equal(here, there));
    // Zero has two signs and one place.
    let zero = Position { x: 0.0f32.to_bits(), y: 0.0f32.to_bits() };
    let minus = Position { x: (-0.0f32).to_bits(), y: 0.0f32.to_bits() };
    assert!(places_equal(zero, minus));
    let moved = vec![
        DragRow { id: 1, selected: true, node: Some(NodeId(1)), position: there },
        DragRow { id: 2, selected: true, node: Some(NodeId(2)), position: there },
    ];
    match commit_drag(&graph, &moved, 1, Some(NodeId(1))) {
        DragStep::Commit { before, after } => {
            assert_eq!(before, vec![(NodeId(1), here), (NodeId(2), here)]);
            assert_eq!(after, vec![(NodeId(1), there), (NodeId(2), there)]);
        }
        other => panic!("unexpected step: {other:?}"),
    }
    let still = vec![
        DragRow { id: 1, selected: true, node: Some(NodeId(1)), position: here },
        DragRow { id: 2, selected: true, node: Some(NodeId(2)), position: here },
    ];
    assert_eq!(
        commit_drag(&graph, &still, 1, Some(NodeId(1))),
        DragStep::Place { node: NodeId(1), position: here, moved: false }
    );
    assert_eq!(commit_drag(&graph, &still, 9, None), DragStep::Nothing);
}

#[test]
fn settings_have_words() {
    for key in [SortKey::Name, SortKey::Id] {
        assert_eq!(parse_sort_key(sort_key_text(key)), key);
    }
    for order in [SortOrder::Ascending, SortOrder::Descending] {
        assert_eq!(parse_sort_order(sort_order_text(order)), order);
    }
    assert_eq!(parse_sort_key("nonsense"), SortKey::Name);
    assert_eq!(parse_sort_order("nonsense"), SortOrder::Ascending);
    assert_eq!(sort_key_text(SortKey::Id), "id");
    assert_eq!(sort_order_text(SortOrder::Descending), "descending");
    assert_eq!(connect_mode_text(ConnectMode::Easy), "easy");
    assert_eq!(connect_mode_text(ConnectMode::Advanced), "advanced");
}

#[test]
fn appearances_are_kept_by_unique_names() {
    let keys = vec!["mic".to_string(), "twin".to_string(), "twin".to_string()];
    assert!(is_unique(&keys, 0));
    assert!(!is_unique(&keys, 1));
    let painted = NodeAppearance {
        collapsed: true,
        custom_name: Some("Voice".to_string()),
        color: Some(Rgba { red: 1, green: 2, blue: 3, alpha: 4 }),
    };
    assert!(!painted.is_plain());
    assert!(NodeAppearance::default().is_plain());
    let views = vec![painted.duplicate(), painted.duplicate(), NodeAppearance::default()];
    let saved = views_by_name(&keys, &views);
    assert_eq!(appearance_of(&keys, 0, &saved), painted);
    assert_eq!(appearance_of(&keys, 1, &saved), NodeAppearance::default());
    let places = vec![
        Position { x: 1, y: 1 },
        Position { x: 2, y: 2 },
        Position { x: 3, y: 3 },
    ];
    let kept = positions_by_name(&keys, &places);
    assert_eq!(kept.get("mic"), Some(&Position { x: 1, y: 1 }));
    assert_eq!(kept.get("twin"), None);
    assert_eq!(node_positions(&wired()).len(), 2);
}

#[test]
fn changes_are_saved_after_a_while() {
    let mut autosave = Autosave { dirty_since: None };
    assert!(!autosave.check(false, 0));
    assert!(!autosave.check(true, 100));
    assert!(!autosave.check(true, 100 + AUTOSAVE_DELAY - 1));
    assert!(autosave.check(true, 100 + AUTOSAVE_DELAY));
    autosave.written(true, 700);
    assert_eq!(autosave.dirty_since, None);
    let size = |width: f32, height: f32| WindowSize {
        width: width.to_bits(),
        height: height.to_bits(),
    };
    let mut window = size(800.0, 600.0);
    window.update(1024.0f32.to_bits(), 768.0f32.to_bits());
    assert_eq!(window, size(1024.0, 768.0));
    for wrong in [0.0f32, -1.0, f32::NAN, f32::INFINITY] {
        window.update(wrong.to_bits(), 768.0f32.to_bits());
        assert_eq!(window, size(1024.0, 768.0));
    }
    assert!(graph_refresh_due(100, true));
    assert!(!graph_refresh_due(99, true));
    assert!(!graph_refresh_due(100, false));
    assert!(meter_refresh_due(50));
    assert!(!meter_refresh_due(49));
}

#[test]
fn meters_are_kept_while_they_are_read() {
    let graph = wired();
    let mut table = MeterTable { nodes: BTreeMap::new(), ports: BTreeMap::new(), pinned: None };
    table.refresh(
        &graph,
        Some(vec![AudioMeter {
            node_id: NodeId(1),
            port_id: Some(PortId(10)),
            rms: 3,
            peak: 4,
            age_ms: 5,
            available: true,
        }]),
    );
    assert_eq!(table.nodes.get(&1).map(|reading| reading.peak), Some(4));
    table.reset();
    assert!(table.nodes.is_empty() && table.ports.is_empty());
    assert_eq!(visible_meters(MeterPolicy::Disabled, true, &vec![1]), None);
    assert_eq!(
        visible_meters(MeterPolicy::OnDemand, true, &vec![1, 2]),
        Some(vec![1, 2])
    );
}

#[test]
fn cards_have_rows_for_their_ports() {
    let groups = vec![
        PinGroup {
            pin_id: 4,
            label: "in".to_string(),
            direction: Direction::Sink,
            port_type: PortType::Audio,
            ports: vec![PortId(20), PortId(21)],
        },
        PinGroup {
            pin_id: 5,
            label: "out".to_string(),
            direction: Direction::Source,
            port_type: PortType::Video,
            ports: vec![PortId(10)],
        },
    ];
    let rows = port_rows(&groups, &colors());
    assert_eq!(rows.len(), 2);
    assert_eq!(rows[0].label, "in");
    assert_ne!(rows[0].side, rows[1].side);
    assert_eq!((rows[0].id, rows[0].side, rows[0].y), (4, 0, 0));
    assert_eq!((rows[1].id, rows[1].side, rows[1].y), (5, 1, 22));
    assert_eq!((rows[0].color, rows[1].color), (colors().audio, colors().video));
    assert_eq!(ports_of_pin(&groups, 4, None), vec![PortId(20), PortId(21)]);
    assert_eq!(ports_of_pin(&groups, 9, Some(PortId(7))), vec![PortId(7)]);
    assert!(ports_of_pin(&groups, 9, None).is_empty());
    assert_eq!(node_height(5), 180);
    assert_eq!(minimap_height(5), 210);
    assert_eq!(graph_counts_text(3, 12, 5), "3 nodes · 12 ports · 5 links");
}

#[test]
fn relay_rows_offer_the_next_step() {
    let row = |address: &str, state: RelayDeviceState| RelayDeviceRow {
        name: "phone".to_string(),
        address: address.to_string(),
        state,
    };
    let rows = vec![
        row("a", RelayDeviceState::Available),
        row("b", RelayDeviceState::Connecting),
        row("c", RelayDeviceState::Connected(3)),
    ];
    assert_eq!(relay_row_step(&rows, "a"), RelayRowStep::Connect);
    assert_eq!(relay_row_step(&rows, "b"), RelayRowStep::Cancel);
    assert_eq!(relay_row_step(&rows, "c"), RelayRowStep::Disconnect(3));
    assert_eq!(relay_row_step(&rows, "d"), RelayRowStep::Nothing);
    assert_eq!(relay_state_text(RelayDeviceState::Available), "available");
    assert_eq!(relay_state_text(RelayDeviceState::Connecting), "connecting");
    assert_eq!(relay_state_text(RelayDeviceState::Connected(1)), "connected");
    let mut levels = BTreeMap::new();
    levels.insert(3u64, 9u32);
    assert_eq!(relay_level(RelayDeviceState::Connected(3), &levels), 9);
    assert_eq!(relay_level(RelayDeviceState::Available, &levels), 0);
}

#[test]
fn texts_are_taken_apart() {
    assert_eq!(trim(" \u{2003}x y\t\n"), "x y");
    assert_eq!(trim("   "), "");
    assert_eq!(trim_char("\"\"name\"", '"'), "name");
    assert_eq!(after_prefix("prefix rest", "prefix "), Some("rest".to_string()));
    assert_eq!(after_prefix("rest", "prefix "), None);
    assert_eq!(behind_last("a/b/c", '/'), "c");
    assert_eq!(behind_last("abc", '/'), "abc");
    assert!(text_contains("haystack", "stack"));
    assert!(!text_contains("haystack", "needle"));
    assert!(lower_contains("Audio/SINK", "sink"));
    assert!(eq_ignoring_case("ON-demand", "on-DEMAND"));
    assert!(!eq_ignoring_case("on", "off"));
    assert!(text_eq("ä", "ä"));
    assert_eq!(to_lower_char('Q'), 'q');
    assert_eq!(to_lower_char('-'), '-');
    assert_eq!(chars_of("aä"), vec!['a', 'ä']);
    assert_eq!(text_of(&vec!['a', 'b', 'c'], 1, 3), "bc");
    assert_eq!(concat2("a", "b"), "ab");
    assert_eq!(concat3("a", "b", "c"), "abc");
}

#[test]
fn numbers_are_written_and_read() {
    assert_eq!(decimal_text(0), "0");
    assert_eq!(decimal_text(u64::MAX), "18446744073709551615");
    assert_eq!(number_in_base(255, 16), "ff");
    assert_eq!(parse_u64("18446744073709551615"), Some(u64::MAX));
    assert_eq!(parse_u64("18446744073709551616"), None);
    assert_eq!(parse_u64("+7"), Some(7));
    assert_eq!(parse_u64(""), None);
    assert_eq!(parse_u64("7x"), None);
    assert!(stands_before("a", "b"));
    assert!(!stands_before("b", "a"));
    assert!(stands_before("a", "aa"));
}

#[test]
fn connected_streams_report_their_node() {
    let source = MeterSource {
        node_id: NodeId(1),
        connected: true,
        rms: 0.5f32.to_bits(),
        peak: 3.0f32.to_bits(),
        age_ms: Some(4),
    };
    let meters = audio_meters(&vec![
        MeterSource { connected: false, ..source },
        source,
        MeterSource { age_ms: None, ..source },
    ]);
    assert_eq!(
        meters,
        vec![AudioMeter {
            node_id: NodeId(1),
            port_id: None,
            rms: 0.5f32.to_bits(),
            peak: 1.0f32.to_bits(),
            age_ms: 4,
            available: true,
        }]
    );
}

#[test]
fn a_choice_becomes_a_request() {
    let descriptors = vec![descriptor()];
    let mut gallery = EffectGalleryState::new(&descriptors[0], 0);
    gallery.set_parameter("threshold".to_string(), 7);
    assert_eq!(
        gallery_request(false, &descriptors, &gallery, "a".to_string()),
        Err("effects.backend_unavailable")
    );
    assert_eq!(
        gallery_request(true, &vec![], &gallery, "a".to_string()),
        Err("effects.no_available")
    );
    let config = gallery_request(true, &descriptors, &gallery, "a".to_string()).unwrap();
    assert_eq!(config.instance_id, "a");
    assert_eq!(config.effect_id, "builtin.noise-gate");
    assert_eq!(config.parameters.get("threshold"), Some(&7));
    assert_eq!(policy_change(MeterPolicy::OnDemand, "nonsense"), None);
    assert_eq!(policy_change(MeterPolicy::OnDemand, "off"), Some(MeterPolicy::Disabled));
}

#[test]
fn white_space_is_that_of_unicode() {
    for number in 0..=0x0010_FFFFu32 {
        if let Some(c) = char::from_u32(number) {
            assert_eq!(is_white_space(c), c.is_whitespace());
        }
    }
}

fn gray(level: u8) -> Rgba {
    Rgba { red: level, green: level, blue: level, alpha: 255 }
}

fn colors() -> PortColors {
    PortColors { audio: gray(1), video: gray(2), midi: gray(3), unknown: gray(4) }
}

fn card(id: i32, color: Option<Rgba>) -> NodeShown {
    NodeShown {
        id,
        title: format!("node {id}"),
        node_type: NodeType::AlsaMidi,
        position: Position { x: 5.0f32.to_bits(), y: 6.0f32.to_bits() },
        selected: id == 2,
        appearance: NodeAppearance { collapsed: id == 2, custom_name: None, color },
        ports: vec![PinGroup {
            pin_id: 10 + id,
            label: "midi".to_string(),
            direction: Direction::Source,
            port_type: PortType::MidiJack,
            ports: vec![PortId(1)],
        }],
    }
}

fn scene(nodes: Vec<NodeShown>) -> Scene {
    Scene {
        nodes,
        links: vec![LinkShown {
            id: 3,
            start_pin_id: 11,
            end_pin_id: 12,
            color: gray(9),
            selected: true,
        }],
        colors: colors(),
        devices: vec![RelayDeviceRow {
            name: "desk".to_string(),
            address: "10.0.0.2:4000".to_string(),
            state: RelayDeviceState::Connected(4),
        }],
        levels: BTreeMap::from([(4, 0.5f32.to_bits())]),
        backend: "demo".to_string(),
        node_count: 2,
        port_count: 2,
        link_count: 1,
        search: "mic".to_string(),
        pan: Position { x: 1, y: 2 },
        zoom: 1.0f32.to_bits(),
    }
}

#[test]
fn the_window_is_brought_up_to_date() {
    let mut ui = screen();
    ui.status = "ready".to_string();
    ui.relay.quick_target = "10.0.0.2".to_string();
    let nothing: Vec<EffectDescriptor> = Vec::new();
    let mut window = WindowModels::new(&scene(vec![card(1, None)]), &ui, &nothing);
    assert_eq!(window.nodes.len(), 1);
    let row = &window.nodes[0];
    assert_eq!((row.title.as_str(), row.node_type), ("node 1", "AlsaMidi"));
    assert_eq!((row.width, row.height), (280, 92));
    assert_eq!(row.color, Rgba { red: 63, green: 82, blue: 101, alpha: 255 });
    assert_eq!((row.selected, row.collapsed), (false, false));
    assert_eq!((row.ports[0].id, row.ports[0].color), (11, colors().midi));

    // Nothing is moved under the hand that drags.
    let later = scene(vec![card(1, None), card(2, Some(gray(7)))]);
    ui.status = "later".to_string();
    window.sync(1, &later, &ui, &nothing);
    assert_eq!((window.nodes.len(), window.minimap.len()), (1, 1));
    assert_eq!(window.fields.status, "later");
    window.sync(0, &later, &ui, &nothing);
    assert_eq!(window.nodes.len(), 2);
    assert!(window.nodes[1].selected && window.nodes[1].collapsed);
    assert_eq!(
        window.minimap[1],
        MinimapRow {
            id: 2,
            position: Position { x: 5.0f32.to_bits(), y: 6.0f32.to_bits() },
            width: 280,
            height: 122,
            color: gray(7),
        }
    );
    assert_eq!(
        window.links,
        vec![LinkRow {
            id: 3,
            start_pin_id: 11,
            end_pin_id: 12,
            color: gray(9),
            selected: true,
            line_width: 2,
            status: -1,
        }]
    );
    assert_eq!(window.registered, vec![(3, 11, 12)]);
    assert_eq!(window.relay[0].state, "connected");
    assert_eq!(window.relay[0].level, 0.5f32.to_bits());
    assert_eq!(window.fields.graph_counts, "2 nodes · 2 ports · 1 links");
    assert_eq!(window.fields.backend, "demo");
    assert_eq!(window.fields.relay_target, "10.0.0.2");
    assert_eq!(window.fields.search_text, "mic");
    assert!(window.fields.effect.enabled);
    assert_eq!(window.fields.effect.message, "later");
    assert!(window.fields.effect.parameters.is_empty());
    for (kind, word) in [
        (NodeType::PipeWire, "PipeWire"),
        (NodeType::WindowsAudioEndpoint, "WindowsAudioEndpoint"),
        (NodeType::Recorder, "Recorder"),
    ] {
        assert_eq!(node_type_text(kind), word);
    }
}

#[test]
fn the_gallery_is_shown_where_there_is_one() {
    let descriptor = |id: &str| EffectDescriptor {
        id: id.to_string(),
        name: "Gate".to_string(),
        parameters: vec![ParameterDescriptor {
            id: "threshold".to_string(),
            name: "Threshold".to_string(),
            minimum: 0,
            maximum: 9,
            default: 4,
            unit: "dB".to_string(),
        }],
    };
    let offered = available_descriptors(Vec::new(), vec![descriptor("gate")]);
    assert_eq!(offered, vec![descriptor("gate")]);
    assert_eq!(
        available_descriptors(vec![descriptor("own")], vec![descriptor("gate")]),
        vec![descriptor("own")]
    );
    let mut ui = screen();
    ui.status = "ready".to_string();
    assert!(ui.open_effect_gallery(&offered));
    ui.handle_action(UiAction::EffectToggleEnabled);
    let shown = effect_fields(&ui, &offered);
    assert_eq!(shown.parameters.len(), 1);
    assert_eq!(shown.parameters[0].value, 4);
    assert!(!shown.enabled);
    assert_eq!(shown.message, "ready · gate · step 1/2");
    let unknown = effect_fields(&ui, &vec![descriptor("own")]);
    assert!(unknown.parameters.is_empty());
    assert_eq!(unknown.message, "ready · gate · step 1/2");
}

#[test]
fn relay_actions_change_the_panel() {
    let mut ui = screen();
    ui.relay.quick_target = "10.0.0.9".to_string();
    assert_eq!(ui.handle_action(UiAction::RelayConnect), UiCommand::RelayConnect);
    assert_eq!(ui.relay.client_target, "10.0.0.9");
    assert!(!ui.relay.show_qr);
    assert_eq!(ui.handle_action(UiAction::RelayShowQr), UiCommand::RelayShowQr);
    assert!(ui.relay.show_qr);
    ui.qr_answered(Some("relay://10.0.0.9".to_string()), "no links".to_string());
    assert_eq!(ui.relay.qr_text, "relay://10.0.0.9");
    ui.qr_answered(None, "no links".to_string());
    assert!(ui.relay.show_qr);
    assert_eq!(ui.relay.qr_text, "no links");
    assert_eq!(ui.relay.message, "no links");
    assert_eq!(ui.status, "no links");
}

#[test]
fn the_active_profile_gets_the_file() {
    let mut places = PatchbayPlaces {
        path: None,
        active_profile: "studio".to_string(),
        profiles: TextTable::new(),
    };
    places.profiles.insert("home".to_string(), "home.json".to_string());
    places.keep("studio.json");
    assert_eq!(places.path, Some("studio.json".to_string()));
    assert_eq!(places.profiles.get("studio"), Some(&"studio.json".to_string()));
    assert_eq!(places.profiles.get("home"), Some(&"home.json".to_string()));
}

fn event_scene() -> EventScene {
    let group = |pin_id: i32, ports: Vec<PortId>| PinGroup {
        pin_id,
        label: "group".to_string(),
        direction: Direction::Source,
        port_type: PortType::Audio,
        ports,
    };
    EventScene {
        groups: vec![group(4, vec![PortId(10), PortId(11)]), group(4, vec![PortId(99)])],
        devices: vec![RelayDeviceRow {
            name: "desk".to_string(),
            address: "10.0.0.2".to_string(),
            state: RelayDeviceState::Connecting,
        }],
        rows: vec![DragRow {
            id: 1,
            selected: false,
            node: Some(NodeId(1)),
            position: Position { x: 9, y: 9 },
        }],
        selected_nodes: vec![1, 2],
    }
}

#[test]
fn events_come_to_steps() {
    let mut graph = Graph::new();
    graph.add_node(Node::new(NodeId(1), "speakers", NodeType::PipeWire)).unwrap();
    for (port, direction) in [(20, Direction::Sink), (21, Direction::Source)] {
        graph
            .add_port(Port::new(PortId(port), NodeId(1), "port", direction, PortType::Audio))
            .unwrap();
    }
    let scene = event_scene();
    let mut ui = screen();
    let mut step = |event: UiEvent| process_event(event, &mut ui, &graph, &scene, vec![LinkId(5)]);
    assert_eq!(
        step(UiEvent::Action("undo".to_string())),
        EventStep::Command(UiCommand::Undo)
    );
    assert_eq!(step(UiEvent::Action("unheard-of".to_string())), EventStep::Nothing);
    assert_eq!(
        step(UiEvent::Connect { start: 4, start_port: None, end: 7, end_port: Some(PortId(7)) }),
        EventStep::Pair {
            first: vec![PortId(10), PortId(11)],
            second: vec![PortId(7)],
            dropped: false,
        }
    );
    assert_eq!(
        step(UiEvent::LinkDropped { start: 4, target: Some(NodeId(1)) }),
        EventStep::Pair {
            first: vec![PortId(10), PortId(11)],
            second: vec![PortId(20)],
            dropped: true,
        }
    );
    assert_eq!(step(UiEvent::LinkDropped { start: 4, target: None }), EventStep::Nothing);
    assert_eq!(
        step(UiEvent::LinkDropped { start: 8, target: Some(NodeId(1)) }),
        EventStep::Nothing
    );
    assert_eq!(
        step(UiEvent::RelayRowAction("10.0.0.2".to_string())),
        EventStep::Relay { step: RelayRowStep::Cancel, address: "10.0.0.2".to_string() }
    );
    assert_eq!(
        step(UiEvent::DeleteSelection),
        EventStep::Canvas(vec![
            CanvasAction::DisconnectMany { links: vec![LinkId(5)] },
            CanvasAction::DisconnectNode { node: NodeId(1) },
            CanvasAction::DisconnectNode { node: NodeId(2) },
        ])
    );
    assert_eq!(
        step(UiEvent::CommitDragged { dragged: 1, node: Some(NodeId(1)) }),
        EventStep::Drag(DragStep::Commit {
            before: vec![(NodeId(1), Position { x: 0, y: 0 })],
            after: vec![(NodeId(1), Position { x: 9, y: 9 })],
        })
    );
    assert_eq!(
        step(UiEvent::EffectParameterChanged { id: "threshold".to_string(), value: 1 }),
        EventStep::Nothing
    );
    assert_eq!(paired(Vec::new(), true), None);
    assert_eq!(
        paired(Vec::new(), false),
        Some(CanvasAction::ConnectMany { pairs: Vec::new() })
    );
    assert_eq!(
        paired(vec![(PortId(1), PortId(2))], true),
        Some(CanvasAction::Connect { output: PortId(1), input: PortId(2) })
    );
}

#[test]
fn the_tray_shows_and_hides() {
    let mut minimized = true;
    assert_eq!(tray_step(&mut minimized, TrayCommand::Show), TrayStep::Show);
    assert!(!minimized);
    assert_eq!(tray_step(&mut minimized, TrayCommand::Hide), TrayStep::Hide);
    assert!(minimized);
    assert_eq!(tray_step(&mut minimized, TrayCommand::Quit), TrayStep::Leave);
    assert!(minimized);
}

#[test]
fn the_window_is_read() {
    let mut ui = screen();
    let size = WindowSize { width: 800.0f32.to_bits(), height: 600.0f32.to_bits() };
    let mut view = Viewport {
        pan: Position { x: 0, y: 0 },
        zoom: 1.0f32.to_bits(),
        search: String::new(),
        size,
    };
    let input = WindowInput {
        pan: Position { x: 3, y: 4 },
        zoom: 9.0f32.to_bits(),
        search: "mic".to_string(),
        relay_target: "10.0.0.3".to_string(),
        width: 0,
        height: 600.0f32.to_bits(),
    };
    view.read_window_state(&mut ui, input);
    assert_eq!((view.pan, view.zoom), (Position { x: 3, y: 4 }, LARGEST_ZOOM));
    assert_eq!((view.search.as_str(), view.size), ("mic", size));
    assert_eq!(ui.relay.quick_target, "10.0.0.3");
    for (zoom, held) in [(-1.0f32, 0.35f32), (0.1, 0.35), (1.5, 1.5), (2.5, 2.5), (f32::INFINITY, 2.5)] {
        assert_eq!(hold_zoom(zoom.to_bits()), held.to_bits());
    }
    assert_eq!(SMALLEST_ZOOM, 0.35f32.to_bits());
    assert!(f32::from_bits(hold_zoom(f32::NAN.to_bits())).is_nan());
}

#[test]
fn settings_are_kept_and_come_back() {
    let mut graph = Graph::new();
    for (id, x) in [(1, 10), (2, 20), (3, 30)] {
        graph.add_node(Node::new(NodeId(id), "node", NodeType::Effect)).unwrap();
        graph.set_position(NodeId(id), Position { x, y: x }).unwrap();
    }
    let red = NodeAppearance { collapsed: true, custom_name: None, color: Some(gray(8)) };
    let names = || vec!["mic".to_string(), "twin".to_string(), "twin".to_string()];
    let canvas = Canvas {
        zoom: 7,
        filter: "audio".to_string(),
        search: "mic".to_string(),
        names: names(),
        views: vec![red.duplicate(), red.duplicate(), NodeAppearance::default()],
    };
    let mut settings = Settings {
        zoom: 0,
        sort_type: String::new(),
        sort_order: String::new(),
        thumbnail_view: true,
        minimap_visible: false,
        connect_mode: String::new(),
        media_filter: String::new(),
        graph_search: String::new(),
        node_positions: Vec::new(),
        positions_by_name: TextTable::new(),
        views_by_name: TextTable::new(),
        effects: SavedEffects { effects: Vec::new() },
        patchbay: PatchbayPlaces {
            path: None,
            active_profile: "studio".to_string(),
            profiles: TextTable::new(),
        },
        node_text_scale: 1,
        repel_overlapping_nodes: true,
        connect_through_nodes: true,
    };
    settings.effects.persist_effect(&Graph::new(), &instance("gate", 2));
    let mut ui = screen();
    ui.sort_key = SortKey::Id;
    ui.sort_order = SortOrder::Descending;
    ui.connect_mode = ConnectMode::Advanced;
    settings.sync_config(&ui, &canvas, &graph, &vec![instance("gate", 2)], "bay.json");
    assert_eq!((settings.zoom, settings.sort_type.as_str()), (7, "id"));
    assert_eq!(settings.sort_order, "descending");
    assert_eq!(settings.connect_mode, "advanced");
    assert_eq!(settings.media_filter, "audio");
    assert!(settings.minimap_visible && !settings.thumbnail_view);
    assert_eq!(settings.node_positions.len(), 3);
    assert_eq!(settings.node_positions[1], ("2".to_string(), Position { x: 20, y: 20 }));
    assert_eq!(settings.positions_by_name.len(), 1);
    assert_eq!(settings.positions_by_name.get("mic"), Some(&Position { x: 10, y: 10 }));
    assert_eq!(settings.views_by_name.get("mic"), Some(&red));
    assert_eq!(settings.views_by_name.len(), 1);
    assert_eq!(settings.effects.effects[0].position, Position { x: 20, y: 20 });
    assert_eq!(settings.patchbay.profiles.get("studio"), Some(&"bay.json".to_string()));

    let mut later = screen();
    later.thumbnail_mode = true;
    let views = settings.update_canvas(&mut later, MediaFilter::Audio, &names());
    assert_eq!((later.sort_key, later.sort_order), (SortKey::Id, SortOrder::Descending));
    assert_eq!(later.media_filter, MediaFilter::Audio);
    assert!(later.repel_overlapping_nodes && later.connect_through_nodes);
    assert_eq!(views, vec![red, NodeAppearance::default(), NodeAppearance::default()]);
    assert!(settings.thumbnail_view);
    assert_eq!(settings.connect_mode, "easy");
}

#[test]
fn the_status_line_has_keys() {
    assert_eq!(
        status_note(&StatusEvent::Refreshed(12)),
        StatusNote { key: "status.refreshed", variable: Some(("count", "12".to_string())) }
    );
    assert_eq!(
        status_note(&StatusEvent::EffectUpdateFailed(BackendError::native("busy"))),
        StatusNote { key: "effects.update_failed", variable: Some(("error", "busy".to_string())) }
    );
    assert_eq!(
        status_note(&StatusEvent::ConfigSaveFailed("disk full".to_string())),
        StatusNote {
            key: "status.config_save_failed",
            variable: Some(("error", "disk full".to_string())),
        }
    );
    for (event, key) in [
        (StatusEvent::ConfigSaved, "status.config_saved"),
        (StatusEvent::NodeMoved, "status.node_moved"),
        (StatusEvent::EffectNotFound, "effects.not_found"),
        (StatusEvent::EffectRemoved, "effects.removed"),
        (StatusEvent::NoEffects, "effects.no_available"),
    ] {
        assert_eq!(status_note(&event), StatusNote { key, variable: None });
    }
}
