//! What happens in the window, and what each event comes to.
use crate::gallery::GalleryView;
use crate::graph::{Graph, GraphView};
use crate::ids::{LinkId, NodeId, PortId};
use crate::lists::{first_in, kept};
use crate::rows::{
    at_pin, group_ports, pin_ports, ports_of_pin, relay_row_step, row_step, PinGroup,
    RelayDeviceRow, RelayRowStep,
};
use crate::selection::{
    commit_drag, connect_action, delete_actions, deletes, drop_action, ends_drag, input_ports,
    is_input, CanvasAction, DragRow, DragStep,
};
use crate::ui_actions::{action_named, parse_action, UiCommand, UiState, UiView};
use vstd::prelude::*;

verus! {

/// What happened in the window.
#[derive(Debug, PartialEq, Eq)]
pub enum UiEvent {
    /// A button, a menu or a key, by the name of its action.
    Action(String),
    /// A link was drawn between two pins. A pin that stands for no group may
    /// be that of a single port.
    Connect { start: i32, start_port: Option<PortId>, end: i32, end_port: Option<PortId> },
    /// A link was let go over a node, or over nothing.
    LinkDropped { start: i32, target: Option<NodeId> },
    /// A device of the relay was picked, by its address.
    RelayRowAction(String),
    /// A control of the gallery was moved.
    EffectParameterChanged { id: String, value: u32 },
    DeleteSelection,
    /// A node was let go. The row stands for the node, if it is known.
    CommitDragged { dragged: i32, node: Option<NodeId> },
}

/// What the window holds when an event comes.
#[derive(Debug, PartialEq, Eq)]
pub struct EventScene {
    /// The groups of ports of all nodes, in the order in which they are shown.
    pub groups: Vec<PinGroup>,
    pub devices: Vec<RelayDeviceRow>,
    pub rows: Vec<DragRow>,
    pub selected_nodes: Vec<u64>,
}

/// What is left to be done about an event.
#[derive(Debug, PartialEq, Eq)]
pub enum EventStep {
    Nothing,
    Command(UiCommand),
    /// Pair the ports of both lists, and join the pairs. `dropped` says that
    /// the link was let go over a node.
    Pair { first: Vec<PortId>, second: Vec<PortId>, dropped: bool },
    /// Do this to the device of the address.
    Relay { step: RelayRowStep, address: String },
    Canvas(Vec<CanvasAction>),
    Drag(DragStep),
}

/// How the window stands after an event.
pub open spec fn ui_after(event: UiEvent, ui: UiView) -> UiView {
    match event {
        UiEvent::Action(name) => match action_named(name@) {
            Some(action) => ui.after(action),
            None => ui,
        },
        UiEvent::EffectParameterChanged { id, value } => ui.with_gallery(
            |g: GalleryView| GalleryView { parameters: g.parameters.insert(id@, value), ..g },
        ),
        _ => ui,
    }
}

/// The step is what an event comes to.
pub open spec fn answers(
    step: EventStep,
    event: UiEvent,
    ui: UiView,
    g: GraphView,
    scene: EventScene,
    links: Vec<LinkId>,
) -> bool {
    match event {
        UiEvent::Action(name) => match action_named(name@) {
            Some(action) => step == EventStep::Command(ui.command(action)),
            None => step is Nothing,
        },
        UiEvent::Connect { start, start_port, end, end_port } => {
            step matches EventStep::Pair { first, second, dropped } && first@ == pin_ports(
                scene.groups@,
                start,
                start_port,
            ) && second@ == pin_ports(scene.groups@, end, end_port) && !dropped
        },
        UiEvent::LinkDropped { start, target } => match (
            first_in(scene.groups@, at_pin(start)),
            target,
        ) {
            (Some(group), Some(node)) if g.has_node(node) => {
                step matches EventStep::Pair { first, second, dropped } && first@ == group.ports@
                    && second@ == kept(g.node(node).ports, is_input(g)) && dropped
            },
            _ => step is Nothing,
        },
        UiEvent::RelayRowAction(address) => {
            step matches EventStep::Relay { step: row, address: at } && row == row_step(
                scene.devices@,
                address@,
            ) && at@ == address@
        },
        UiEvent::EffectParameterChanged { .. } => step is Nothing,
        UiEvent::DeleteSelection => step matches EventStep::Canvas(actions) && deletes(
            actions@,
            links,
            scene.selected_nodes@,
        ),
        UiEvent::CommitDragged { dragged, node } => step matches EventStep::Drag(drag)
            && ends_drag(g, scene.rows@, dragged, node, drag),
    }
}

/// Takes on an event. `selected_links` are the links of the selection.
pub fn process_event(
    event: UiEvent,
    ui: &mut UiState,
    graph: &Graph,
    scene: &EventScene,
    selected_links: Vec<LinkId>,
) -> (r: EventStep)
    requires
        old(ui).wf(),
    ensures
        final(ui).wf(),
        final(ui)@ == ui_after(event, old(ui)@),
        answers(r, event, old(ui)@, graph@, *scene, selected_links),
{
    match event {
        UiEvent::Action(name) => match parse_action(name.as_str()) {
            Some(action) => EventStep::Command(ui.handle_action(action)),
            None => EventStep::Nothing,
        },
        UiEvent::Connect { start, start_port, end, end_port } => EventStep::Pair {
            first: ports_of_pin(&scene.groups, start, start_port),
            second: ports_of_pin(&scene.groups, end, end_port),
            dropped: false,
        },
        UiEvent::LinkDropped { start, target } => match group_ports(&scene.groups, start) {
            None => EventStep::Nothing,
            Some(first) => match target {
                Some(node) => if graph.node(node).is_some() {
                    EventStep::Pair { first, second: input_ports(graph, node), dropped: true }
                } else {
                    EventStep::Nothing
                },
                None => EventStep::Nothing,
            },
        },
        UiEvent::RelayRowAction(address) => {
            let step = relay_row_step(&scene.devices, address.as_str());
            EventStep::Relay { step, address }
        },
        UiEvent::EffectParameterChanged { id, value } => {
            ui.gallery_parameter_changed(id, value);
            EventStep::Nothing
        },
        UiEvent::DeleteSelection => EventStep::Canvas(
            delete_actions(selected_links, &scene.selected_nodes),
        ),
        UiEvent::CommitDragged { dragged, node } => EventStep::Drag(
            commit_drag(graph, &scene.rows, dragged, node),
        ),
    }
}

/// What is asked for at the tray icon.
#[derive(Clone, Copy, Debug, PartialEq, Eq, Structural)]
pub enum TrayCommand {
    Show,
    Hide,
    Quit,
}

/// What becomes of the window then.
#[derive(Clone, Copy, Debug, PartialEq, Eq, Structural)]
pub enum TrayStep {
    /// Show the window, at its full size.
    Show,
    Hide,
    /// Hide the window and leave.
    Leave,
}

/// Does what is asked for at the tray icon. `start_minimized` is whether the
/// program counts as minimized; leaving says nothing of it.
pub fn tray_step(start_minimized: &mut bool, command: TrayCommand) -> (r: TrayStep)
    ensures
        r == (match command {
            TrayCommand::Show => TrayStep::Show,
            TrayCommand::Hide => TrayStep::Hide,
            TrayCommand::Quit => TrayStep::Leave,
        }),
        *final(start_minimized) == (match command {
            TrayCommand::Show => false,
            TrayCommand::Hide => true,
            TrayCommand::Quit => *old(start_minimized),
        }),
{
    match command {
        TrayCommand::Show => {
            *start_minimized = false;
            TrayStep::Show
        },
        TrayCommand::Hide => {
            *start_minimized = true;
            TrayStep::Hide
        },
        TrayCommand::Quit => TrayStep::Leave,
    }
}

/// Joins what was paired. A link that was drawn is always answered, also
/// without a pair; one that was dropped only where there is one.
pub fn paired(pairs: Vec<(PortId, PortId)>, dropped: bool) -> (r: Option<CanvasAction>)
    ensures
        r == (if dropped && pairs@.len() == 0 {
            None
        } else if pairs@.len() == 1 {
            Some(CanvasAction::Connect { output: pairs@[0].0, input: pairs@[0].1 })
        } else {
            Some(CanvasAction::ConnectMany { pairs })
        }),
        match r {
            Some(action) => crate::selection::pairs_joined(action) == pairs@,
            None => dropped && pairs@.len() == 0,
        },
{
    if dropped {
        drop_action(pairs)
    } else {
        Some(connect_action(pairs))
    }
}

/// A link drawn between two pins pairs the ports of the first with those of
/// the second, the start with the start and the end with the end.
pub proof fn law_drawn_links(
    step: EventStep,
    start: i32,
    start_port: Option<PortId>,
    end: i32,
    end_port: Option<PortId>,
    ui: UiView,
    g: GraphView,
    scene: EventScene,
    links: Vec<LinkId>,
    i: int,
    j: int,
)
    requires
        answers(step, UiEvent::Connect { start, start_port, end, end_port }, ui, g, scene, links),
        0 <= i < scene.groups@.len(),
        0 <= j < scene.groups@.len(),
        scene.groups@[i].pin_id == start,
        scene.groups@[j].pin_id == end,
        forall|k: int| 0 <= k < i ==> (#[trigger] scene.groups@[k]).pin_id != start,
        forall|k: int| 0 <= k < j ==> (#[trigger] scene.groups@[k]).pin_id != end,
    ensures
        step matches EventStep::Pair { first, second, dropped } && first@
            == scene.groups@[i].ports@ && second@ == scene.groups@[j].ports@ && !dropped,
{
    crate::rows::law_ports_of_a_pin(scene.groups@, start, start_port, i);
    crate::rows::law_ports_of_a_pin(scene.groups@, end, end_port, j);
}

/// A link let go over a node pairs the ports of its pin with all inputs of the
/// node, and with nothing else; let go over nothing it does nothing.
pub proof fn law_dropped_links(
    step: EventStep,
    start: i32,
    target: Option<NodeId>,
    ui: UiView,
    g: GraphView,
    scene: EventScene,
    links: Vec<LinkId>,
    p: PortId,
)
    requires
        g.wf(),
        answers(step, UiEvent::LinkDropped { start, target }, ui, g, scene, links),
    ensures
        target is None ==> step is Nothing,
        step matches EventStep::Pair { first, second, dropped } ==> {
            &&& dropped
            &&& target matches Some(node)
            &&& g.has_node(node)
            &&& second@.contains(p) <==> g.has_port(p) && g.port(p).node_id == node && g.port(
                p,
            ).direction == crate::model::Direction::Sink
            &&& exists|i: int|
                0 <= i < scene.groups@.len() && (#[trigger] scene.groups@[i]).pin_id == start
                    && first@ == scene.groups@[i].ports@
        },
        step is Pair || step is Nothing,
        target matches Some(node) ==> (g.has_node(node) && (exists|i: int|
            0 <= i < scene.groups@.len() && (#[trigger] scene.groups@[i]).pin_id == start)
            ==> step is Pair),
{
    crate::lists::law_first_in(scene.groups@, at_pin(start));
    if let Some(node) = target {
        if g.has_node(node) {
            crate::selection::law_inputs_of_a_node(g, node, p);
        }
        if exists|i: int| 0 <= i < scene.groups@.len() && (#[trigger] scene.groups@[i]).pin_id
            == start {
            let i = choose|i: int|
                0 <= i < scene.groups@.len() && (#[trigger] scene.groups@[i]).pin_id == start;
            assert(scene.groups@.contains(scene.groups@[i]));
            assert(at_pin(start)(scene.groups@[i]));
        }
    }
}

/// Deleting asks for the disconnection of every selected link and every
/// selected node, and for nothing else.
pub proof fn law_deleted_selection(
    step: EventStep,
    ui: UiView,
    g: GraphView,
    scene: EventScene,
    links: Vec<LinkId>,
)
    requires
        answers(step, UiEvent::DeleteSelection, ui, g, scene, links),
    ensures
        step matches EventStep::Canvas(actions) && {
            &&& links@.len() > 0 ==> actions@.contains(CanvasAction::DisconnectMany { links })
            &&& forall|k: u64| #[trigger]
                scene.selected_nodes@.contains(k) ==> actions@.contains(
                    CanvasAction::DisconnectNode { node: NodeId(k) },
                )
            &&& forall|i: int|
                0 <= i < actions@.len() ==> match #[trigger] actions@[i] {
                    CanvasAction::DisconnectMany { links: gone } => gone == links && links@.len()
                        > 0,
                    CanvasAction::DisconnectNode { node } => scene.selected_nodes@.contains(
                        node.0,
                    ),
                    _ => false,
                }
        },
{
    if let EventStep::Canvas(actions) = step {
        crate::selection::law_deletion_is_complete(actions@, links, scene.selected_nodes@);
    }
}

/// A node that is let go moves with all that is selected where one of them was
/// let go at another place.
pub proof fn law_let_go_nodes(
    step: EventStep,
    dragged: i32,
    node: NodeId,
    ui: UiView,
    g: GraphView,
    scene: EventScene,
    links: Vec<LinkId>,
    i: int,
)
    requires
        answers(step, UiEvent::CommitDragged { dragged, node: Some(node) }, ui, g, scene, links),
        0 <= i < scene.rows@.len(),
        crate::selection::moves_along(g, scene.rows@[i], dragged),
        !crate::selection::same_place(
            g.node(scene.rows@[i].node->0).position,
            scene.rows@[i].position,
        ),
    ensures
        step matches EventStep::Drag(DragStep::Commit { before, after }) && after@.contains(
            (scene.rows@[i].node->0, scene.rows@[i].position),
        ),
{
    if let EventStep::Drag(drag) = step {
        crate::selection::law_drag_moves_the_selection(g, scene.rows@, dragged, node, drag);
        assert(crate::selection::moves_along(g, scene.rows@[i], dragged));
    }
}

/// Events of the graph change nothing of the window's own state; a control of
/// the gallery that was moved sets its value in the gallery.
pub proof fn law_window_state_after_events(ui: UiView, id: String, value: u32, address: String)
    ensures
        ui_after(UiEvent::DeleteSelection, ui) == ui,
        ui_after(UiEvent::RelayRowAction(address), ui) == ui,
        ({
            let after = ui_after(UiEvent::EffectParameterChanged { id, value }, ui);
            &&& ui.gallery is None ==> after == ui
            &&& ui.gallery matches Some(before) ==> {
                &&& after.gallery matches Some(gallery)
                &&& gallery.parameters.contains_key(id@) && gallery.parameters[id@] == value
                &&& gallery.effect_id == before.effect_id
                &&& gallery.enabled == before.enabled
                &&& gallery.phase == before.phase
            }
            &&& after == (UiView { gallery: after.gallery, ..ui })
        }),
{
}

} // verus!
