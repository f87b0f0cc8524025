//! What the relay can be pointed at, and what its events ask for.
use crate::graph::{Graph, GraphView};
use crate::ids::{native_node_id, native_part, NodeId};
use crate::model::{BackendError, NodeView};
use crate::publication::{after_look, next_look, PublicationStep, PublicationWait};
use crate::registry::{NodeRecordView, RegistryState, RegistryView};
use crate::relay_local::{RelayLocalRouterView, RelayMode};
use crate::relay_playback::{RelayPlaybackRouterView, RelayPlaybackShared, RelayPlaybackStateView};
use crate::relay_ports::{
    faces, find_named_node, is_relay_device_node, named_node, node_has_audio_direction, node_keys,
    node_takes_input, relay_name, takes_audio, RELAY_SINK_NAME, RELAY_SOURCE_NAME,
};
use crate::relay_route::{RelayRouters, RelayRoutersView};
use crate::table::{keys_where, lemma_keys_where, lemma_picked_lists, lists_domain, picked};
use crate::text::{concat2, concat3, has_sub, lower, lower_contains};
use vstd::prelude::*;

verus! {

/// An endpoint that a route can be given.
#[derive(Debug, PartialEq, Eq)]
pub struct RelayEndpointInfo {
    pub id: String,
    pub name: String,
    pub description: String,
}

/// The contents of a [`RelayEndpointInfo`].
#[verifier::ext_equal]
pub struct RelayEndpointInfoView {
    pub id: Seq<char>,
    pub name: Seq<char>,
    pub description: Seq<char>,
}

impl View for RelayEndpointInfo {
    type V = RelayEndpointInfoView;

    open spec fn view(&self) -> RelayEndpointInfoView {
        RelayEndpointInfoView {
            id: self.id@,
            name: self.name@,
            description: self.description@,
        }
    }
}

/// The contents of a list of endpoints.
pub open spec fn endpoint_views(list: Seq<RelayEndpointInfo>) -> Seq<RelayEndpointInfoView> {
    list.map_values(|e: RelayEndpointInfo| e@)
}

/// A sink that playback can be sent to.
#[derive(Debug, PartialEq, Eq)]
pub struct RelaySinkInfo {
    pub name: String,
    pub description: String,
    pub serial: Option<u64>,
}

/// The contents of a [`RelaySinkInfo`].
#[verifier::ext_equal]
pub struct RelaySinkInfoView {
    pub name: Seq<char>,
    pub description: Seq<char>,
    pub serial: Option<u64>,
}

impl View for RelaySinkInfo {
    type V = RelaySinkInfoView;

    open spec fn view(&self) -> RelaySinkInfoView {
        RelaySinkInfoView {
            name: self.name@,
            description: self.description@,
            serial: self.serial,
        }
    }
}

/// The number under which the mirror keeps a node.
pub open spec fn record_key(n: NodeView) -> u64 {
    native_part(n.id.0) as u64
}

/// The class of a record fits the kind of endpoint that is asked for. Sources
/// are devices and the streams that applications play.
pub open spec fn class_fits(class: Seq<char>, input_source: bool) -> bool {
    if input_source {
        has_sub(lower(class), "source"@) || has_sub(lower(class), "stream/output"@) || has_sub(
            lower(class),
            "audio/output"@,
        )
    } else {
        has_sub(lower(class), "sink"@)
    }
}

/// The node is an endpoint of the kind that is asked for: an input, the
/// monitor of an output, or an output.
pub open spec fn offered(
    g: GraphView,
    state: RegistryView,
    n: NodeView,
    input_source: bool,
    output_monitor: bool,
) -> bool {
    &&& !relay_name(n.name)
    &&& state.nodes.contains_key(record_key(n))
    &&& class_fits(state.nodes[record_key(n)].media_class, input_source)
    &&& faces(g, n.id, input_source || output_monitor)
}

/// The word before the colon of an endpoint's identifier.
pub open spec fn kind_prefix(input_source: bool, output_monitor: bool) -> Seq<char> {
    if input_source {
        "input:"@
    } else if output_monitor {
        "monitor:"@
    } else {
        "output:"@
    }
}

/// What is shown for an endpoint.
pub open spec fn endpoint_for(
    record: NodeRecordView,
    n: NodeView,
    input_source: bool,
    output_monitor: bool,
) -> RelayEndpointInfoView {
    RelayEndpointInfoView {
        id: kind_prefix(input_source, output_monitor) + n.name,
        name: record.name,
        description: record.name + (" ("@ + n.name + ")"@),
    }
}

/// The endpoints of a kind, in the order of their nodes.
pub open spec fn endpoints(
    g: GraphView,
    state: RegistryView,
    input_source: bool,
    output_monitor: bool,
) -> Seq<RelayEndpointInfoView> {
    keys_where(
        g.nodes,
        |n: NodeView| offered(g, state, n, input_source, output_monitor),
    ).map_values(
        |k: u64|
            endpoint_for(
                state.nodes[record_key(g.nodes[k])],
                g.nodes[k],
                input_source,
                output_monitor,
            ),
    )
}

/// Lists the endpoints of a kind.
pub fn pipewire_relay_endpoint_infos(
    graph: &Graph,
    state: &RegistryState,
    input_source: bool,
    output_monitor: bool,
) -> (r: Vec<RelayEndpointInfo>)
    requires
        graph.wf(),
    ensures
        endpoint_views(r@) == endpoints(graph@, state@, input_source, output_monitor),
{
    let keys = node_keys(graph);
    let ghost p = |n: NodeView| offered(graph@, state@, n, input_source, output_monitor);
    let ghost f = |k: u64|
        endpoint_for(
            state@.nodes[record_key(graph@.nodes[k])],
            graph@.nodes[k],
            input_source,
            output_monitor,
        );
    let mut out: Vec<RelayEndpointInfo> = Vec::new();
    let mut i: usize = 0;
    assert(endpoint_views(out@) =~= picked(keys@, 0, graph@.nodes, p).map_values(f));
    while i < keys.len()
        invariant
            i <= keys.len(),
            graph.wf(),
            lists_domain(keys@, graph@.nodes),
            p == (|n: NodeView| offered(graph@, state@, n, input_source, output_monitor)),
            f == (|k: u64|
                endpoint_for(
                    state@.nodes[record_key(graph@.nodes[k])],
                    graph@.nodes[k],
                    input_source,
                    output_monitor,
                )),
            endpoint_views(out@) == picked(keys@, i as int, graph@.nodes, p).map_values(f),
        decreases keys.len() - i,
    {
        let k: u64 = keys[i];
        let ghost before = out@;
        assert(keys@.contains(k));
        assert(graph@.nodes.contains_key(k));
        if let Some(node) = graph.node(NodeId(k)) {
            if !is_relay_device_node(node.name.as_str()) {
                let native: u64 = native_node_id(node.id) as u64;
                if let Some(record) = state.nodes.get(&native) {
                    let class = record.media_class.as_str();
                    let fits = if input_source {
                        lower_contains(class, "source") || lower_contains(class, "stream/output")
                            || lower_contains(class, "audio/output")
                    } else {
                        lower_contains(class, "sink")
                    };
                    if fits && node_has_audio_direction(
                        graph,
                        node.id,
                        input_source || output_monitor,
                    ) {
                        let prefix = if input_source {
                            "input:"
                        } else if output_monitor {
                            "monitor:"
                        } else {
                            "output:"
                        };
                        let tail = concat3(" (", node.name.as_str(), ")");
                        let info = RelayEndpointInfo {
                            id: concat2(prefix, node.name.as_str()),
                            name: record.name.clone(),
                            description: concat2(record.name.as_str(), tail.as_str()),
                        };
                        assert(info@ == f(k));
                        out.push(info);
                        assert(endpoint_views(out@) =~= endpoint_views(before).push(info@));
                    }
                }
            }
        }
        proof {
            assert(picked(keys@, i + 1, graph@.nodes, p) == if p(graph@.nodes[k]) {
                picked(keys@, i as int, graph@.nodes, p).push(k)
            } else {
                picked(keys@, i as int, graph@.nodes, p)
            });
            assert(picked(keys@, i as int, graph@.nodes, p).push(k).map_values(f) =~= picked(
                keys@,
                i as int,
                graph@.nodes,
                p,
            ).map_values(f).push(f(k)));
        }
        i = i + 1;
    }
    proof {
        lemma_picked_lists(keys@, graph@.nodes, p);
        lemma_keys_where(picked(keys@, keys@.len() as int, graph@.nodes, p), graph@.nodes, p);
    }
    out
}

/// The endpoint that stands for the user's own links.
pub open spec fn manual_endpoint(role: Seq<char>) -> RelayEndpointInfoView {
    RelayEndpointInfoView {
        id: "manual"@,
        name: "Manual graph"@,
        description: role,
    }
}

fn endpoint(id: &str, name: &str, description: &str) -> (r: RelayEndpointInfo)
    ensures
        r@ == (RelayEndpointInfoView { id: id@, name: name@, description: description@ }),
{
    RelayEndpointInfo {
        id: id.to_owned(),
        name: name.to_owned(),
        description: description.to_owned(),
    }
}

fn append_endpoints(list: &mut Vec<RelayEndpointInfo>, more: Vec<RelayEndpointInfo>)
    ensures
        endpoint_views(final(list)@) == endpoint_views(old(list)@) + endpoint_views(more@),
{
    let ghost added = more@;
    let mut rest = more;
    list.append(&mut rest);
    assert(endpoint_views(list@) =~= endpoint_views(old(list)@) + endpoint_views(added));
}

/// Everything that sent audio can come from: the default input, the user's
/// own links, every input, and the monitor of every output.
pub fn relay_send_sources(graph: &Graph, state: &RegistryState) -> (r: Vec<RelayEndpointInfo>)
    requires
        graph.wf(),
    ensures
        endpoint_views(r@) == seq![
            (RelayEndpointInfoView {
                id: "default-input"@,
                name: "Default input"@,
                description: "PipeWire/WirePlumber default.audio.source"@,
            }),
            manual_endpoint("Leave Emitter routing to the PipeWire graph"@),
        ] + endpoints(graph@, state@, true, false) + endpoints(graph@, state@, false, true),
{
    let mut sources: Vec<RelayEndpointInfo> = Vec::new();
    sources.push(
        endpoint("default-input", "Default input", "PipeWire/WirePlumber default.audio.source"),
    );
    sources.push(
        endpoint("manual", "Manual graph", "Leave Emitter routing to the PipeWire graph"),
    );
    assert(endpoint_views(sources@) =~= seq![
        (RelayEndpointInfoView {
            id: "default-input"@,
            name: "Default input"@,
            description: "PipeWire/WirePlumber default.audio.source"@,
        }),
        manual_endpoint("Leave Emitter routing to the PipeWire graph"@),
    ]);
    append_endpoints(
        &mut sources,
        pipewire_relay_endpoint_infos(graph, state, true, false),
    );
    append_endpoints(
        &mut sources,
        pipewire_relay_endpoint_infos(graph, state, false, true),
    );
    sources
}

/// Everything that received audio can go to: the default output, the user's
/// own links, and every output.
pub fn relay_receive_sinks(graph: &Graph, state: &RegistryState) -> (r: Vec<RelayEndpointInfo>)
    requires
        graph.wf(),
    ensures
        endpoint_views(r@) == seq![
            (RelayEndpointInfoView {
                id: "default-output"@,
                name: "Default output"@,
                description: "PipeWire/WirePlumber default.audio.sink"@,
            }),
            manual_endpoint("Leave Receiver routing to the PipeWire graph"@),
        ] + endpoints(graph@, state@, false, false),
{
    let mut sinks: Vec<RelayEndpointInfo> = Vec::new();
    sinks.push(
        endpoint("default-output", "Default output", "PipeWire/WirePlumber default.audio.sink"),
    );
    sinks.push(
        endpoint("manual", "Manual graph", "Leave Receiver routing to the PipeWire graph"),
    );
    assert(endpoint_views(sinks@) =~= seq![
        (RelayEndpointInfoView {
            id: "default-output"@,
            name: "Default output"@,
            description: "PipeWire/WirePlumber default.audio.sink"@,
        }),
        manual_endpoint("Leave Receiver routing to the PipeWire graph"@),
    ]);
    append_endpoints(
        &mut sinks,
        pipewire_relay_endpoint_infos(graph, state, false, false),
    );
    sinks
}

/// What is shown for a playback sink.
pub open spec fn sink_for(n: NodeView) -> RelaySinkInfoView {
    RelaySinkInfoView { name: n.name, description: n.name, serial: n.serial }
}

/// The sinks that playback can be sent to, in the order of their nodes.
pub fn relay_playback_sinks(graph: &Graph) -> (r: Vec<RelaySinkInfo>)
    ensures
        r@.map_values(|s: RelaySinkInfo| s@) == keys_where(
            graph@.nodes,
            |n: NodeView| !relay_name(n.name) && takes_audio(graph@, n),
        ).map_values(|k: u64| sink_for(graph@.nodes[k])),
{
    let keys = node_keys(graph);
    let ghost p = |n: NodeView| !relay_name(n.name) && takes_audio(graph@, n);
    let ghost f = |k: u64| sink_for(graph@.nodes[k]);
    let ghost v = |s: RelaySinkInfo| s@;
    let mut out: Vec<RelaySinkInfo> = Vec::new();
    let mut i: usize = 0;
    assert(out@.map_values(v) =~= picked(keys@, 0, graph@.nodes, p).map_values(f));
    while i < keys.len()
        invariant
            i <= keys.len(),
            lists_domain(keys@, graph@.nodes),
            p == (|n: NodeView| !relay_name(n.name) && takes_audio(graph@, n)),
            f == (|k: u64| sink_for(graph@.nodes[k])),
            v == (|s: RelaySinkInfo| s@),
            out@.map_values(v) == picked(keys@, i as int, graph@.nodes, p).map_values(f),
        decreases keys.len() - i,
    {
        let k: u64 = keys[i];
        let ghost before = out@;
        assert(keys@.contains(k));
        assert(graph@.nodes.contains_key(k));
        if let Some(node) = graph.node(NodeId(k)) {
            if !is_relay_device_node(node.name.as_str()) && node_takes_input(
                graph,
                NodeId(k),
                true,
            ) {
                let info = RelaySinkInfo {
                    name: node.name.clone(),
                    description: node.name.clone(),
                    serial: node.serial,
                };
                out.push(info);
                assert(out@.map_values(v) =~= before.map_values(v).push(info@));
            }
        }
        proof {
            assert(picked(keys@, i as int, graph@.nodes, p).push(k).map_values(f) =~= picked(
                keys@,
                i as int,
                graph@.nodes,
                p,
            ).map_values(f).push(f(k)));
        }
        i = i + 1;
    }
    proof {
        lemma_picked_lists(keys@, graph@.nodes, p);
        lemma_keys_where(picked(keys@, keys@.len() as int, graph@.nodes, p), graph@.nodes, p);
    }
    out
}

/// The serial number of the first node with a name.
pub open spec fn serial_named(g: GraphView, name: Seq<char>) -> Option<u64> {
    match named_node(g, name) {
        Some(id) => g.node(id).serial,
        None => None,
    }
}

/// Finds the serial number of the first node with a name.
pub fn serial_of_named(graph: &Graph, name: &str) -> (r: Option<u64>)
    ensures
        r == serial_named(graph@, name@),
{
    match find_named_node(graph, name) {
        Some(id) => match graph.node(id) {
            Some(node) => node.serial,
            None => None,
        },
        None => None,
    }
}

/// Whether both devices of the relay stand in the graph.
pub open spec fn devices_visible(g: GraphView) -> bool {
    named_node(g, RELAY_SOURCE_NAME@) is Some && named_node(g, RELAY_SINK_NAME@) is Some
}

/// The server was asked once more for the two nodes of the relay. Decides
/// whether the wait for them goes on.
pub fn relay_looked(
    wait: &mut PublicationWait,
    graph: &Graph,
    looked: Result<(), BackendError>,
) -> (r: PublicationStep)
    ensures
        after_look(r, looked, old(wait).looks, devices_visible(graph@)),
        final(wait).looks == next_look(old(wait).looks),
{
    let visible = relay_devices_visible(graph);
    wait.looked(looked, visible)
}

/// Both nodes of the relay stand in the graph.
pub fn relay_devices_visible(graph: &Graph) -> (r: bool)
    ensures
        r == devices_visible(graph@),
{
    find_named_node(graph, RELAY_SOURCE_NAME).is_some() && find_named_node(
        graph,
        RELAY_SINK_NAME,
    ).is_some()
}

/// What an event of the relay engine means for the local route.
#[derive(Clone, Copy, Debug, PartialEq, Eq, Structural)]
pub enum RelaySignal {
    SessionEstablished,
    DirectionResolved,
    FlowResolved(RelayMode),
    Other,
}

/// The event makes the driver read its graph again.
pub open spec fn stirs(signal: RelaySignal) -> bool {
    signal is SessionEstablished || signal is FlowResolved
}

/// The mode of the first resolved flow.
pub open spec fn resolved_mode(signals: Seq<RelaySignal>) -> Option<RelayMode>
    decreases signals.len(),
{
    if signals.len() == 0 {
        None
    } else {
        match signals[0] {
            RelaySignal::FlowResolved(mode) => Some(mode),
            _ => resolved_mode(signals.drop_first()),
        }
    }
}

/// What a batch of events asks for.
#[derive(Clone, Copy, Debug, PartialEq, Eq, Structural)]
pub struct SignalPlan {
    /// The graph has to be read again.
    pub rebuild: bool,
    /// The mode that the router has to take on.
    pub resolved: Option<RelayMode>,
    /// The mode whose route has to be reconciled.
    pub route: Option<RelayMode>,
}

/// Decides what a batch of events asks for. A session that is ready, or a
/// flow that is resolved, makes the graph be read and the route be checked:
/// that of the resolved mode, else that of the mode at hand.
pub fn plan_for_signals(signals: &Vec<RelaySignal>, current: Option<RelayMode>) -> (r: SignalPlan)
    ensures
        r.rebuild <==> exists|i: int|
            0 <= i < signals@.len() && stirs(#[trigger] signals@[i]),
        r.resolved == resolved_mode(signals@),
        r.route == (if !r.rebuild {
            None
        } else if r.resolved is Some {
            r.resolved
        } else {
            current
        }),
{
    let mut rebuild = false;
    let mut resolved: Option<RelayMode> = None;
    let mut i: usize = 0;
    assert(signals@.skip(0) =~= signals@);
    while i < signals.len()
        invariant
            i <= signals.len(),
            rebuild <==> exists|j: int| 0 <= j < i && stirs(#[trigger] signals@[j]),
            resolved_mode(signals@) == (if resolved is Some {
                resolved
            } else {
                resolved_mode(signals@.skip(i as int))
            }),
            resolved is Some ==> rebuild,
        decreases signals.len() - i,
    {
        proof {
            assert(signals@.skip(i as int).drop_first() =~= signals@.skip(i + 1));
            assert(signals@.skip(i as int)[0] == signals@[i as int]);
        }
        match signals[i] {
            RelaySignal::SessionEstablished => {
                rebuild = true;
                assert(stirs(signals@[i as int]));
            },
            RelaySignal::FlowResolved(mode) => {
                rebuild = true;
                assert(stirs(signals@[i as int]));
                if resolved.is_none() {
                    resolved = Some(mode);
                }
            },
            RelaySignal::DirectionResolved => {},
            RelaySignal::Other => {},
        }
        i = i + 1;
    }
    let route = if !rebuild {
        None
    } else if resolved.is_some() {
        resolved
    } else {
        current
    };
    SignalPlan { rebuild, resolved, route }
}

/// The mode whose route a composite has checked after a batch of events, if
/// the batch asks for it: that of the first resolved flow, else that of the
/// first session, else receiving.
pub fn composite_route_mode(signals: &Vec<RelaySignal>, first_session: Option<RelayMode>) -> (r:
    Option<RelayMode>)
    ensures
        r is Some <==> exists|i: int|
            0 <= i < signals@.len() && !(#[trigger] signals@[i] is Other),
        r matches Some(mode) ==> mode == (match (resolved_mode(signals@), first_session) {
            (Some(resolved), _) => resolved,
            (None, Some(session)) => session,
            (None, None) => RelayMode::Receiver,
        }),
{
    let plan = plan_for_signals(signals, None);
    let mut asked = false;
    let mut i: usize = 0;
    while i < signals.len()
        invariant
            i <= signals.len(),
            asked <==> exists|j: int| 0 <= j < i && !(#[trigger] signals@[j] is Other),
        decreases signals.len() - i,
    {
        let other = matches!(signals[i], RelaySignal::Other);
        if !other {
            assert(!(signals@[i as int] is Other));
            asked = true;
        }
        i = i + 1;
    }
    if !asked {
        return None;
    }
    match plan.resolved {
        Some(mode) => Some(mode),
        None => match first_session {
            Some(mode) => Some(mode),
            None => Some(RelayMode::Receiver),
        },
    }
}

impl RelayRouters {
    /// The mode whose route is kept up: the one at hand, else receiving.
    pub fn route_mode(&self) -> (r: RelayMode)
        ensures
            r == (match self@.local.mode {
                Some(mode) => mode,
                None => RelayMode::Receiver,
            }),
    {
        match self.local.mode {
            Some(mode) => mode,
            None => RelayMode::Receiver,
        }
    }

    /// Switches the routes on or off, here and for the audio callback.
    pub fn set_playback_enabled(&mut self, shared: &mut RelayPlaybackShared, enabled: bool)
        ensures
            final(self)@ == switched(old(self)@, enabled),
            *final(shared) == (RelayPlaybackShared { enabled, ..*old(shared) }),
    {
        shared.set_enabled(enabled);
        self.playback.set_enabled(enabled);
        self.local.enabled = enabled;
    }

    /// Selects the playback sink by name, or the default one.
    pub fn set_playback_sink(&mut self, sink: Option<String>, graph: &Graph)
        ensures
            final(self)@ == preferring(old(self)@, graph@, crate::model::opt_text(sink)),
    {
        let serial = match &sink {
            Some(name) => serial_of_named(graph, name.as_str()),
            None => None,
        };
        let copy = crate::model::clone_opt(&sink);
        self.playback.set_preferred_sink(copy, serial);
        self.local.set_receive_sink(crate::relay_local::receive_sink_for(sink));
    }
}

/// A node is offered exactly where it is none of the relay's devices, its class
/// is that of the kind, and it has audio ends in the direction: outputs for a
/// source or a monitor, inputs else.
pub proof fn law_offered_endpoints(
    g: GraphView,
    state: RegistryView,
    n: NodeView,
    input_source: bool,
    output_monitor: bool,
)
    requires
        g.wf(),
    ensures
        offered(g, state, n, input_source, output_monitor) <==> {
            let class = lower(state.nodes[native_part(n.id.0) as u64].media_class);
            &&& n.name != "qpwgraph-rs.relay.source"@
            &&& n.name != "qpwgraph-rs.relay.sink"@
            &&& state.nodes.contains_key(native_part(n.id.0) as u64)
            &&& input_source ==> has_sub(class, "source"@) || has_sub(class, "stream/output"@)
                || has_sub(class, "audio/output"@)
            &&& !input_source ==> has_sub(class, "sink"@)
            &&& crate::relay_ports::has_end(g, n.id, input_source || output_monitor)
        },
{
    crate::relay_ports::law_facing(g, n.id, input_source || output_monitor);
}

/// An endpoint is found again by its identifier: behind the kind it is the
/// name of the node.
pub proof fn law_endpoints_are_found_again(
    record: NodeRecordView,
    n: NodeView,
    input_source: bool,
    output_monitor: bool,
)
    ensures
        ({
            let e = endpoint_for(record, n, input_source, output_monitor);
            &&& crate::relay_ports::bare_selector(e.id) == n.name
            &&& e.name == record.name
            &&& input_source ==> e.id == "input:"@ + n.name
            &&& !input_source && output_monitor ==> e.id == "monitor:"@ + n.name
            &&& !input_source && !output_monitor ==> e.id == "output:"@ + n.name
        }),
{
    crate::relay_ports::law_selectors(n.name, 0);
}

/// The relay's devices are there exactly where the graph has a node of each of
/// the two names.
pub proof fn law_visible_devices(g: GraphView)
    ensures
        devices_visible(g) <==> (exists|k: u64| #[trigger]
            g.nodes.contains_key(k) && g.nodes[k].name == "qpwgraph-rs.relay.source"@) && (exists|
            k: u64,
        | #[trigger] g.nodes.contains_key(k) && g.nodes[k].name == "qpwgraph-rs.relay.sink"@),
{
    crate::relay_ports::law_named_node(g, "qpwgraph-rs.relay.source"@);
    crate::relay_ports::law_named_node(g, "qpwgraph-rs.relay.sink"@);
}

/// The serial of a name is that of the first node that bears it.
pub proof fn law_serials_of_names(g: GraphView, name: Seq<char>, k: u64)
    requires
        g.nodes.contains_key(k),
        g.nodes[k].name == name,
        forall|j: u64| #[trigger] g.nodes.contains_key(j) && g.nodes[j].name == name ==> k <= j,
    ensures
        serial_named(g, name) == g.nodes[k].serial,
{
    crate::relay_ports::law_named_node(g, name);
}

/// The first resolved mode counts, and there is one exactly where a signal
/// resolves one.
pub proof fn law_resolved_modes(signals: Seq<RelaySignal>)
    ensures
        match resolved_mode(signals) {
            Some(mode) => exists|i: int|
                0 <= i < signals.len() && #[trigger] signals[i] == RelaySignal::FlowResolved(mode)
                    && forall|j: int| 0 <= j < i ==> !(#[trigger] signals[j] is FlowResolved),
            None => forall|i: int|
                0 <= i < signals.len() ==> !(#[trigger] signals[i] is FlowResolved),
        },
    decreases signals.len(),
{
    if signals.len() > 0 {
        if let RelaySignal::FlowResolved(mode) = signals[0] {
            assert(signals[0] == RelaySignal::FlowResolved(mode));
        } else {
            let rest = signals.drop_first();
            law_resolved_modes(rest);
            assert forall|j: int| 0 <= j < rest.len() implies #[trigger] rest[j]
                == signals[j + 1] by {}
            match resolved_mode(rest) {
                Some(mode) => {
                    let i = choose|i: int|
                        0 <= i < rest.len() && #[trigger] rest[i] == RelaySignal::FlowResolved(
                            mode,
                        ) && forall|j: int| 0 <= j < i ==> !(#[trigger] rest[j] is FlowResolved);
                    assert(signals[i + 1] == RelaySignal::FlowResolved(mode));
                    assert forall|j: int| 0 <= j < i + 1 implies !(
                    #[trigger] signals[j] is FlowResolved) by {
                        if j > 0 {
                            assert(rest[j - 1] == signals[j]);
                        }
                    }
                },
                None => {
                    assert forall|j: int| 0 <= j < signals.len() implies !(
                    #[trigger] signals[j] is FlowResolved) by {
                        if j > 0 {
                            assert(rest[j - 1] == signals[j]);
                        }
                    }
                },
            }
        }
    }
}

/// A session and a resolved flow stir the routes, and nothing else does.
pub proof fn law_stirring_signals(signal: RelaySignal)
    ensures
        stirs(signal) <==> signal is SessionEstablished || signal is FlowResolved,
{
}

/// The routers after playback was switched.
pub open spec fn switched(routers: RelayRoutersView, enabled: bool) -> RelayRoutersView {
    RelayRoutersView {
        local: RelayLocalRouterView { enabled, ..routers.local },
        playback: RelayPlaybackRouterView {
            enabled,
            state: if enabled {
                routers.playback.state
            } else {
                RelayPlaybackStateView::Disabled
            },
            ..routers.playback
        },
    }
}

/// The routers after a sink was preferred, or none.
pub open spec fn preferring(
    routers: RelayRoutersView,
    g: GraphView,
    sink: Option<Seq<char>>,
) -> RelayRoutersView {
    RelayRoutersView {
        local: RelayLocalRouterView {
            receive_sink: match sink {
                Some(name) => crate::relay_local::RelayReceiveSinkView::OutputDevice(name),
                None => crate::relay_local::RelayReceiveSinkView::DefaultOutput,
            },
            ..routers.local
        },
        playback: RelayPlaybackRouterView {
            preferred_sink_name: sink,
            preferred_sink_serial: match sink {
                Some(name) => serial_named(g, name),
                None => None,
            },
            ..routers.playback
        },
    }
}

/// Preferring a sink makes both routers play to it: by its name, and by the
/// serial of the first node of that name. Preferring none goes back to the
/// default output.
pub proof fn law_preferred_sinks(routers: RelayRoutersView, g: GraphView, name: Seq<char>, k: u64)
    ensures
        ({
            let after = preferring(routers, g, Some(name));
            &&& after.playback.preferred_sink_name == Some(name)
            &&& after.local.receive_sink == crate::relay_local::RelayReceiveSinkView::OutputDevice(
                name,
            )
            &&& g.nodes.contains_key(k) && g.nodes[k].name == name && (forall|j: u64| #[trigger]
                g.nodes.contains_key(j) && g.nodes[j].name == name ==> k <= j)
                ==> after.playback.preferred_sink_serial == g.nodes[k].serial
            &&& after.local.mode == routers.local.mode && after.local.enabled
                == routers.local.enabled
            &&& after.playback.enabled == routers.playback.enabled
        }),
        ({
            let after = preferring(routers, g, None);
            &&& after.playback.preferred_sink_name is None
            &&& after.playback.preferred_sink_serial is None
            &&& after.local.receive_sink is DefaultOutput
        }),
{
    if g.nodes.contains_key(k) && g.nodes[k].name == name && (forall|j: u64| #[trigger]
        g.nodes.contains_key(j) && g.nodes[j].name == name ==> k <= j) {
        law_serials_of_names(g, name, k);
    }
}

/// Switching playback switches both routers; switched off it shows so, and
/// switching changes nothing else.
pub proof fn law_switched_playback(routers: RelayRoutersView, enabled: bool)
    ensures
        ({
            let after = switched(routers, enabled);
            &&& after.local.enabled == enabled
            &&& after.playback.enabled == enabled
            &&& !enabled ==> after.playback.state is Disabled
            &&& enabled ==> after.playback.state == routers.playback.state
            &&& after.local.mode == routers.local.mode
            &&& after.playback.preferred_sink_name == routers.playback.preferred_sink_name
            &&& after.playback.link_ids == routers.playback.link_ids
        }),
{
}

} // verus!
