use qpwgraph::effect_model::{
    check_native_effect, effect_already_exists, unknown_effect_instance, ChannelPolicy, EffectConfig, PreparedEffect,
};
use qpwgraph::effect_request::{
    EffectCreateRequest, EffectEvent, EffectTarget, PreparationEvent,
};
use qpwgraph::graph::Graph;
use qpwgraph::ids::{graph_id, LinkId, NodeId, PortId};
use qpwgraph::model::{BackendError, Direction, Node, NodeType, Port, PortType, Position};
use qpwgraph::native_effects::{
    activated, activation_error, resolve_filter, rollback_error, settle_cancel, switch_step,
    switch_told, topology_channels, unrestored_error, InsertStep, InsertTask, NativeEffect, NativeEffects, ParameterAnswer,
    refuse_immediate, PreparationStep, Resolution, SwitchStep, UNRESOLVED_ID,
};
use qpwgraph::publication::{PublicationStep, PublicationWait};
use qpwgraph::registry::{ObjectKind, Properties, RegistryState};
use qpwgraph::text_table::TextTable;

const NAME: &str = "qpwgraph effect gate";

fn config(id: &str) -> EffectConfig {
    EffectConfig {
        instance_id: id.to_string(),
        effect_id: "builtin.noise-gate".to_string(),
        module: None,
        enabled: true,
        parameters: TextTable::new(),
        channel_policy: ChannelPolicy::Auto,
    }
}

fn gate(id: &str) -> NativeEffect {
    NativeEffect::created(config(id), NAME.to_string(), Position { x: 1, y: 2 }, 2)
}

fn announce(state: &mut RegistryState, id: u32, kind: ObjectKind, entries: &[(&str, &str)]) {
    let props = Properties {
        entries: entries.iter().map(|(k, v)| (k.to_string(), v.to_string())).collect(),
    };
    assert!(state.apply_global(id, kind, Some(&props)));
}

/// The filter as the daemon announces it, with its node at `base`.
fn published(base: u32) -> RegistryState {
    let mut state = RegistryState::new();
    announce(&mut state, base, ObjectKind::Node, &[("node.name", NAME)]);
    let owner = base.to_string();
    announce(
        &mut state,
        base + 1,
        ObjectKind::Port,
        &[("node.id", owner.as_str()), ("port.name", "input_FL"), ("port.direction", "in")],
    );
    announce(
        &mut state,
        base + 2,
        ObjectKind::Port,
        &[("node.id", owner.as_str()), ("port.name", "output_FL"), ("port.direction", "out")],
    );
    state
}

#[test]
fn filters_are_found_by_their_name() {
    assert_eq!(resolve_filter(&RegistryState::new(), NAME, None), None);
    assert_eq!(
        resolve_filter(&published(40), NAME, None),
        Some(Resolution {
            node: NodeId(graph_id(40)),
            input: PortId(graph_id(41)),
            output: PortId(graph_id(42)),
        })
    );
    assert_eq!(resolve_filter(&published(40), "other", None), None);
}

#[test]
fn effects_follow_the_daemon() {
    let mut effects = NativeEffects::new();
    effects.insert_effect(gate("gate"));
    assert!(!gate("gate").resolved());
    assert_eq!(gate("gate").instance.node_id, NodeId(UNRESOLVED_ID));
    effects.reconcile_effects(&published(40), &vec![None]);
    assert!(effects.effects.get("gate").unwrap().resolved());
    assert_eq!(effects.effect_nodes().get(&graph_id(40)), Some(&"gate".to_string()));
    let once = effects.effects.get("gate").unwrap().duplicate();
    effects.reconcile_effects(&published(40), &vec![None]);
    assert_eq!(*effects.effects.get("gate").unwrap(), once);
    // A new number does not move it.
    let place = once.position;
    effects.reconcile_effects(&published(70), &vec![None]);
    let moved = effects.effects.get("gate").unwrap();
    assert_eq!(moved.instance.node_id, NodeId(graph_id(70)));
    assert_eq!(moved.position, place);
    assert_eq!(effects.positions.get(&graph_id(70)), Some(&place));
}

#[test]
fn effect_requests_are_kept_until_they_settle() {
    let mut effects = NativeEffects::new();
    let request = EffectCreateRequest {
        config: config("gate"),
        target: EffectTarget::Standalone { position: Position::origin() },
    };
    assert!(effects.check_create_effect(&request).is_ok());
    effects.effect_pending(3, request);
    assert!(effects.effect_settled(4).is_none());
    assert_eq!(effects.effect_settled(3).unwrap().config.instance_id, "gate");
    assert!(effects.effect_settled(3).is_none());
    effects.insert_effect(gate("gate"));
    assert_eq!(effects.check_new_instance("gate"), Err(effect_already_exists("gate")));
    assert!(effects.check_new_instance("other").is_ok());
}

#[test]
fn native_effects_are_controlled() {
    let mut effects = NativeEffects::new();
    effects.insert_effect(gate("gate"));
    assert!(effects.set_effect_enabled("gate", false).is_ok());
    assert!(!effects.effects.get("gate").unwrap().instance.config.enabled);
    effects.parameter_set("gate", "threshold", 9).unwrap();
    assert_eq!(
        effects.effects.get("gate").unwrap().instance.config.parameters.get("threshold"),
        Some(&9)
    );
    assert_eq!(
        effects.set_effect_enabled("other", true),
        Err(unknown_effect_instance("other"))
    );
    assert!(effects.parameter_set("other", "x", 1).is_err());
    assert!(effects.destroy_effect("other").is_err());
    assert_eq!(effects.destroy_effect("gate").unwrap().config.instance_id, "gate");
    assert!(effects.take_effect("gate").is_none());
}

#[test]
fn a_failed_look_takes_the_effect_down() {
    let mut effects = NativeEffects::new();
    effects.insert_effect(gate("gate"));
    let failed = effects.finish_create("gate", Err(BackendError::native("no daemon")));
    assert!(failed.is_err());
    effects.insert_effect(gate("second"));
    effects.reconcile_effects(&published(40), &vec![None; effects.effects.entries.len()]);
    let made = effects.finish_create("second", Ok(())).unwrap();
    assert_eq!(made.node_id, NodeId(graph_id(40)));
}

/// A microphone that feeds speakers, and a free effect between them.
fn wired() -> Graph {
    let mut graph = Graph::new();
    for (id, name) in [(1u64, "mic"), (2, "speakers"), (3, "gate")] {
        graph.add_node(Node::new(NodeId(id), name, NodeType::PipeWire)).unwrap();
    }
    for (id, node, name, direction) in [
        (10u64, 1u64, "capture", Direction::Source),
        (20, 2, "playback", Direction::Sink),
        (30, 3, "input", Direction::Sink),
        (31, 3, "output", Direction::Source),
    ] {
        graph
            .add_port(Port::new(PortId(id), NodeId(node), name, direction, PortType::Audio))
            .unwrap();
    }
    graph.add_link(LinkId(1), PortId(10), PortId(20)).unwrap();
    graph
}

#[test]
fn inserting_goes_step_by_step() {
    let graph = wired();
    let source = graph.port_key(PortId(10)).unwrap();
    let destination = graph.port_key(PortId(20)).unwrap();
    let mut task =
        InsertTask::begin(&graph, &source, &destination, PortId(30), PortId(31)).unwrap();
    assert_eq!(task.step(), InsertStep::Disconnect(LinkId(1)));
    task.performed_step();
    assert_eq!(task.step(), InsertStep::Connect(PortId(10), PortId(30)));
    task.performed_step();
    assert_eq!(task.step(), InsertStep::Connect(PortId(31), PortId(20)));
    task.performed_step();
    assert_eq!(task.step(), InsertStep::Done);
    let missing = InsertTask::begin(&graph, &destination, &source, PortId(30), PortId(31));
    assert!(missing.is_err());
    let target = EffectTarget::Insert {
        source: source.duplicate(),
        destination: destination.duplicate(),
        position: Position::origin(),
    };
    assert_eq!(topology_channels(&graph, &target), Ok(Some(1)));
    assert_eq!(
        topology_channels(&graph, &EffectTarget::Standalone { position: Position::origin() }),
        Ok(None)
    );
}

#[test]
fn inserted_effects_remember_their_ends() {
    let graph = wired();
    let source = graph.port_key(PortId(10)).unwrap();
    let destination = graph.port_key(PortId(20)).unwrap();
    let mut effects = NativeEffects::new();
    effects.insert_effect(gate("gate"));
    let committed = effects.commit_insert("gate", &source, &destination).unwrap();
    assert_eq!(committed.source, Some(source));
    assert_eq!(committed.destination, Some(destination));
    assert_eq!(
        effects.check_remove_effect(&graph, "gate"),
        Ok(Some((PortId(10), PortId(20))))
    );
    effects.insert_effect(gate("free"));
    assert_eq!(effects.check_remove_effect(&graph, "free"), Ok(None));
    assert!(effects.check_remove_effect(&graph, "other").is_err());
}

#[test]
fn positions_of_effects_are_kept() {
    let mut graph = wired();
    let mut effects = NativeEffects::new();
    let place = Position { x: 8, y: 9 };
    effects.set_node_position(&mut graph, NodeId(3), place).unwrap();
    assert_eq!(graph.node(NodeId(3)).unwrap().position, place);
    assert_eq!(effects.positions.get(&3), Some(&place));
    assert!(effects.set_node_position(&mut graph, NodeId(9), place).is_err());
    assert_eq!(effects.channel_masks(&graph), Vec::<u16>::new());
    assert!(!effects.is_published(&graph, "gate"));
}

#[test]
fn effect_failures_are_worded() {
    let first = BackendError::native("first");
    assert_eq!(
        rollback_error(BackendError::native("first"), Ok(()), Ok(())),
        BackendError::native("first")
    );
    assert_eq!(
        rollback_error(
            BackendError::native("first"),
            Err(BackendError::native("second")),
            Err(BackendError::native("third")),
        )
        .to_text(),
        "first; additionally, failed to restore the original link: second; \
         failed to clean up the effect node: third"
    );
    assert_eq!(
        activation_error(4, &first).to_text(),
        "effect ticket 4 could not be activated: first"
    );
    assert_eq!(
        unrestored_error("gate", &first).to_text(),
        "effect gate was removed but the original direct connection could not be restored: first"
    );
    assert_eq!(settle_cancel(4, true), Ok(()));
    assert_eq!(
        settle_cancel(4, false),
        Err(BackendError::native("unknown or completed effect ticket 4"))
    );
}

#[test]
fn an_effect_is_planned_as_a_whole() {
    let position = Position { x: 1, y: 2 };
    let plan = NativeEffect::plan(config("gate-1"), position, "Noise gate", 1).unwrap();
    assert_eq!(plan.effect.node_name, "Noise gate (gate-1)");
    assert_eq!(plan.effect.instance.config.instance_id, "gate-1");
    assert_eq!(plan.effect.instance.node_id, NodeId(UNRESOLVED_ID));
    assert_eq!(plan.effect.position, position);
    assert_eq!(plan.effect.physical_channels, 1);
    assert_eq!(plan.inputs, vec![("input_MONO".to_string(), "MONO".to_string())]);
    assert_eq!(plan.outputs, vec![("output_MONO".to_string(), "MONO".to_string())]);
    let mut hosted = config("gate-1");
    hosted.module = Some("gate.wasm".to_string());
    assert_eq!(
        NativeEffect::plan(hosted, position, "Noise gate", 2),
        Err(BackendError::Unsupported(
            "WASM/native effect modules are not yet hosted by the PipeWire filter runtime"
                .to_string()
        ))
    );
    assert!(NativeEffect::plan(config(""), position, "Noise gate", 2).is_err());
}

#[test]
fn news_of_preparations_is_taken_on() {
    let request = |id: &str| EffectCreateRequest {
        config: config(id),
        target: EffectTarget::Standalone { position: Position { x: 1, y: 2 } },
    };
    let prepared = || PreparedEffect {
        effect_id: "builtin.noise-gate".to_string(),
        name: "Noise gate".to_string(),
    };
    let mut effects = NativeEffects::new();
    effects.effect_pending(1, request("one"));
    effects.effect_pending(2, request("two"));
    assert_eq!(
        effects.note_preparation(PreparationEvent::Loading { ticket: 1, stage: "a".to_string() }),
        PreparationStep::Report(EffectEvent::Loading { ticket: 1, stage: "a".to_string() })
    );
    assert_eq!(
        effects.note_preparation(PreparationEvent::Ready { ticket: 1, prepared: prepared() }),
        PreparationStep::Activate { ticket: 1, request: request("one"), prepared: prepared() }
    );
    assert_eq!(
        effects.note_preparation(PreparationEvent::Ready { ticket: 1, prepared: prepared() }),
        PreparationStep::Forgotten
    );
    assert_eq!(
        effects.note_preparation(PreparationEvent::Cancelled { ticket: 2 }),
        PreparationStep::Report(EffectEvent::Cancelled { ticket: 2 })
    );
    assert_eq!(
        effects.note_preparation(PreparationEvent::Failed { ticket: 2, error: "b".to_string() }),
        PreparationStep::Report(EffectEvent::Failed { ticket: 2, error: "b".to_string() })
    );
    assert!(effects.pending.is_empty());
    assert_eq!(
        activated(3, Err(BackendError::native("full"))),
        EffectEvent::Failed {
            ticket: 3,
            error: "effect ticket 3 could not be activated: full".to_string(),
        }
    );
}

#[test]
fn a_new_effect_is_looked_for_twice() {
    let mut effects = NativeEffects::new();
    effects.insert_effect(gate("gate"));
    let empty = Graph::new();
    let mut wait = PublicationWait::default();
    assert_eq!(
        effects.publication_looked(&mut wait, &empty, "gate", Ok(())),
        PublicationStep::LookAgain
    );
    assert_eq!(
        effects.publication_looked(&mut wait, &empty, "gate", Ok(())),
        PublicationStep::Settled(Ok(()))
    );
    assert_eq!(wait.looks, 2);

    let mut wait = PublicationWait::default();
    let broken = BackendError::native("no daemon");
    assert_eq!(
        effects.publication_looked(&mut wait, &empty, "gate", Err(broken)),
        PublicationStep::Settled(Err(BackendError::native("no daemon")))
    );

    let state = published(40);
    effects.reconcile_effects(&state, &vec![None; effects.effects.entries.len()]);
    let mut graph = Graph::new();
    let node = NodeId(graph_id(40));
    graph.add_node(Node::new(node, NAME, NodeType::PipeWire)).unwrap();
    for (id, direction) in [(41, Direction::Sink), (42, Direction::Source)] {
        graph
            .add_port(Port::new(PortId(graph_id(id)), node, "port", direction, PortType::Audio))
            .unwrap();
    }
    let mut wait = PublicationWait::default();
    assert_eq!(
        effects.publication_looked(&mut wait, &graph, "gate", Ok(())),
        PublicationStep::Settled(Ok(()))
    );
    assert_eq!(wait.looks, 1);
}

#[test]
fn processors_answer_to_changes() {
    let mut effects = NativeEffects::new();
    effects.insert_effect(gate("gate"));
    let mut set = |id: &str, answer: ParameterAnswer| {
        let answered = effects.parameter_answered(id, "threshold", 3, answer);
        let kept = effects.effects.get("gate").unwrap().instance.config.parameters.get("threshold");
        (answered, kept.copied())
    };
    assert_eq!(
        set("other", ParameterAnswer::Taken),
        (Err(unknown_effect_instance("other")), None)
    );
    assert_eq!(
        set("gate", ParameterAnswer::Poisoned),
        (Err(BackendError::native("effect processor lock was poisoned")), None)
    );
    assert_eq!(
        set("gate", ParameterAnswer::Refused("too loud".to_string())),
        (Err(BackendError::native("too loud")), None)
    );
    assert_eq!(set("gate", ParameterAnswer::Taken), (Ok(()), Some(3)));
    assert_eq!(switch_step(true, false, false), SwitchStep::Tell);
    assert_eq!(switch_step(true, true, false), SwitchStep::Nothing);
    assert_eq!(switch_step(true, false, true), SwitchStep::Nothing);
    assert_eq!(switch_told(true), SwitchStep::Nothing);
    assert_eq!(switch_told(false), SwitchStep::Reset);
    assert_eq!(
        refuse_immediate(true),
        BackendError::unsupported(
            "PipeWire effects must be inserted asynchronously with begin_create_effect"
        )
    );
    assert_ne!(refuse_immediate(true), refuse_immediate(false));
}

#[test]
fn effects_are_checked_before_they_are_made() {
    assert_eq!(check_native_effect("gate", "builtin.gate", false), Ok(()));
    assert_eq!(
        check_native_effect(" ", "builtin.gate", true),
        Err(BackendError::native("effect instance id cannot be empty"))
    );
    assert_eq!(
        check_native_effect("gate", "builtin.gate", true),
        Err(BackendError::unsupported(
            "WASM/native effect modules are not yet hosted by the PipeWire filter runtime"
        ))
    );
}
