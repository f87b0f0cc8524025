//! The automatic local route of the relay: from an input into the relay's
//! sink device while it sends, from its source device to an output while it
//! receives.
use crate::graph::{Graph, GraphView};
use crate::ids::{NodeId, PortId};
use crate::model::{opt_text, BackendError, BackendErrorView};
use crate::registry::{RegistryState, RegistryView};
use crate::relay_ports::{
    audio_pair, default_node, find_audio_ports, find_default_node, find_named_node, find_node,
    named_node, selected_node, RELAY_SINK_NAME, RELAY_SOURCE_NAME,
};
use crate::text::concat2;
use vstd::prelude::*;

verus! {

broadcast use vstd::std_specs::btree::group_btree_axioms;

/// Which way audio flows on this side.
#[derive(Clone, Copy, Debug, PartialEq, Eq, Structural)]
pub enum RelayMode {
    Emitter,
    Receiver,
}

/// Which way audio flows between a desktop and a mobile device.
#[derive(Clone, Copy, Debug, PartialEq, Eq, Structural)]
pub enum RelayDirection {
    MobileToDesktop,
    DesktopToMobile,
}

/// What a peer offers to do.
#[derive(Clone, Copy, Debug, PartialEq, Eq, Structural)]
pub struct RelayRoles {
    pub emit: bool,
    pub receive: bool,
}

/// The mode that this side runs in for a direction.
pub open spec fn mode_of(direction: RelayDirection) -> RelayMode {
    match direction {
        RelayDirection::MobileToDesktop => RelayMode::Receiver,
        RelayDirection::DesktopToMobile => RelayMode::Emitter,
    }
}

/// The direction that a mode of this side means.
pub open spec fn direction_of(mode: RelayMode) -> RelayDirection {
    match mode {
        RelayMode::Emitter => RelayDirection::DesktopToMobile,
        RelayMode::Receiver => RelayDirection::MobileToDesktop,
    }
}

/// The roles that a mode stands for.
pub open spec fn roles_of(mode: RelayMode) -> RelayRoles {
    RelayRoles { emit: mode is Emitter, receive: mode is Receiver }
}

pub fn mode_for_direction(direction: RelayDirection) -> (r: RelayMode)
    ensures
        r == mode_of(direction),
{
    match direction {
        RelayDirection::MobileToDesktop => RelayMode::Receiver,
        RelayDirection::DesktopToMobile => RelayMode::Emitter,
    }
}

pub fn direction_for_mode(mode: RelayMode) -> (r: RelayDirection)
    ensures
        r == direction_of(mode),
{
    match mode {
        RelayMode::Emitter => RelayDirection::DesktopToMobile,
        RelayMode::Receiver => RelayDirection::MobileToDesktop,
    }
}

impl RelayRoles {
    pub fn receive_only() -> (r: RelayRoles)
        ensures
            r == (RelayRoles { emit: false, receive: true }),
    {
        RelayRoles { emit: false, receive: true }
    }

    pub fn emit_only() -> (r: RelayRoles)
        ensures
            r == (RelayRoles { emit: true, receive: false }),
    {
        RelayRoles { emit: true, receive: false }
    }
}

impl RelayMode {
    pub fn roles(self) -> (r: RelayRoles)
        ensures
            r == roles_of(self),
    {
        match self {
            RelayMode::Emitter => RelayRoles::emit_only(),
            RelayMode::Receiver => RelayRoles::receive_only(),
        }
    }
}

/// The roles that a desktop client takes for a direction.
pub fn desktop_relay_client_roles(direction: RelayDirection) -> (r: RelayRoles)
    ensures
        r == roles_of(mode_of(direction)),
{
    match direction {
        RelayDirection::MobileToDesktop => RelayRoles::receive_only(),
        RelayDirection::DesktopToMobile => RelayRoles::emit_only(),
    }
}

/// Directions and modes name the same thing.
pub proof fn law_directions_and_modes_agree(direction: RelayDirection, mode: RelayMode)
    ensures
        direction_of(mode_of(direction)) == direction,
        mode_of(direction_of(mode)) == mode,
        roles_of(mode).emit != roles_of(mode).receive,
{
}

/// The part of the engine's configuration that a session request settles.
#[derive(Clone, Copy, Debug, PartialEq, Eq, Structural)]
pub struct SessionSettings {
    pub direction: RelayDirection,
    pub direction_generation: u64,
    pub mode: RelayMode,
    pub mode_generation: u64,
    pub client_roles: RelayRoles,
}

/// The settings for a session that was asked for by direction.
pub open spec fn session_by_direction(direction: RelayDirection, generation: u64) -> SessionSettings {
    SessionSettings {
        direction,
        direction_generation: generation,
        mode: mode_of(direction),
        mode_generation: generation,
        client_roles: roles_of(mode_of(direction)),
    }
}

/// The settings for a session that was asked for by mode.
pub open spec fn session_by_mode(mode: RelayMode, generation: u64) -> SessionSettings {
    SessionSettings {
        direction: direction_of(mode),
        direction_generation: generation,
        mode,
        mode_generation: generation,
        client_roles: roles_of(mode),
    }
}

pub fn settings_for_direction(direction: RelayDirection, generation: u64) -> (r: SessionSettings)
    ensures
        r == session_by_direction(direction, generation),
{
    SessionSettings {
        direction,
        direction_generation: generation,
        mode: mode_for_direction(direction),
        mode_generation: generation,
        client_roles: desktop_relay_client_roles(direction),
    }
}

pub fn settings_for_mode(mode: RelayMode, generation: u64) -> (r: SessionSettings)
    ensures
        r == session_by_mode(mode, generation),
{
    SessionSettings {
        direction: direction_for_mode(mode),
        direction_generation: generation,
        mode,
        mode_generation: generation,
        client_roles: mode.roles(),
    }
}

/// Asking by direction and asking by the mode it means settle the same.
pub proof fn law_direction_and_mode_sessions_agree(direction: RelayDirection, generation: u64)
    ensures
        session_by_direction(direction, generation) == session_by_mode(
            mode_of(direction),
            generation,
        ),
{
}

/// Whether a host may be started in a mode.
pub fn check_host_mode(mode: RelayMode) -> (r: Result<(), BackendError>)
    ensures
        match r {
            Ok(_) => mode is Receiver,
            Err(e) => mode is Emitter && e@ == BackendErrorView::Unsupported(
                "a local relay host must run in Receiver mode"@,
            ),
        },
{
    match mode {
        RelayMode::Receiver => Ok(()),
        RelayMode::Emitter => Err(
            BackendError::unsupported("a local relay host must run in Receiver mode"),
        ),
    }
}

/// Where sent audio comes from.
#[derive(Debug, PartialEq, Eq)]
pub enum RelaySendSource {
    DefaultInput,
    InputDevice(String),
    DefaultOutputMonitor,
    OutputMonitor(String),
    Application(String),
    ManualGraph,
}

/// The contents of a [`RelaySendSource`].
pub enum RelaySendSourceView {
    DefaultInput,
    InputDevice(Seq<char>),
    DefaultOutputMonitor,
    OutputMonitor(Seq<char>),
    Application(Seq<char>),
    ManualGraph,
}

impl View for RelaySendSource {
    type V = RelaySendSourceView;

    open spec fn view(&self) -> RelaySendSourceView {
        match self {
            RelaySendSource::DefaultInput => RelaySendSourceView::DefaultInput,
            RelaySendSource::InputDevice(s) => RelaySendSourceView::InputDevice(s@),
            RelaySendSource::DefaultOutputMonitor => RelaySendSourceView::DefaultOutputMonitor,
            RelaySendSource::OutputMonitor(s) => RelaySendSourceView::OutputMonitor(s@),
            RelaySendSource::Application(s) => RelaySendSourceView::Application(s@),
            RelaySendSource::ManualGraph => RelaySendSourceView::ManualGraph,
        }
    }
}

impl RelaySendSource {
    pub fn duplicate(&self) -> (r: RelaySendSource)
        ensures
            r@ == self@,
    {
        match self {
            RelaySendSource::DefaultInput => RelaySendSource::DefaultInput,
            RelaySendSource::InputDevice(s) => RelaySendSource::InputDevice(s.clone()),
            RelaySendSource::DefaultOutputMonitor => RelaySendSource::DefaultOutputMonitor,
            RelaySendSource::OutputMonitor(s) => RelaySendSource::OutputMonitor(s.clone()),
            RelaySendSource::Application(s) => RelaySendSource::Application(s.clone()),
            RelaySendSource::ManualGraph => RelaySendSource::ManualGraph,
        }
    }
}

/// Where received audio goes.
#[derive(Debug, PartialEq, Eq)]
pub enum RelayReceiveSink {
    DefaultOutput,
    OutputDevice(String),
    VirtualMicrophone,
    ManualGraph,
}

/// The contents of a [`RelayReceiveSink`].
pub enum RelayReceiveSinkView {
    DefaultOutput,
    OutputDevice(Seq<char>),
    VirtualMicrophone,
    ManualGraph,
}

impl View for RelayReceiveSink {
    type V = RelayReceiveSinkView;

    open spec fn view(&self) -> RelayReceiveSinkView {
        match self {
            RelayReceiveSink::DefaultOutput => RelayReceiveSinkView::DefaultOutput,
            RelayReceiveSink::OutputDevice(s) => RelayReceiveSinkView::OutputDevice(s@),
            RelayReceiveSink::VirtualMicrophone => RelayReceiveSinkView::VirtualMicrophone,
            RelayReceiveSink::ManualGraph => RelayReceiveSinkView::ManualGraph,
        }
    }
}

impl RelayReceiveSink {
    pub fn duplicate(&self) -> (r: RelayReceiveSink)
        ensures
            r@ == self@,
    {
        match self {
            RelayReceiveSink::DefaultOutput => RelayReceiveSink::DefaultOutput,
            RelayReceiveSink::OutputDevice(s) => RelayReceiveSink::OutputDevice(s.clone()),
            RelayReceiveSink::VirtualMicrophone => RelayReceiveSink::VirtualMicrophone,
            RelayReceiveSink::ManualGraph => RelayReceiveSink::ManualGraph,
        }
    }
}

/// Whether a source may be selected here.
pub fn check_send_source(source: &RelaySendSource) -> (r: Result<(), BackendError>)
    ensures
        match r {
            Ok(_) => !(source@ is Application),
            Err(e) => source@ is Application && e@ == BackendErrorView::Unsupported(
                "application relay selectors are available only on Windows"@,
            ),
        },
{
    match source {
        RelaySendSource::Application(_) => Err(
            BackendError::unsupported("application relay selectors are available only on Windows"),
        ),
        _ => Ok(()),
    }
}

/// The sink that a playback selection by name means.
pub fn receive_sink_for(name: Option<String>) -> (r: RelayReceiveSink)
    ensures
        r@ == (match opt_text(name) {
            Some(s) => RelayReceiveSinkView::OutputDevice(s),
            None => RelayReceiveSinkView::DefaultOutput,
        }),
{
    match name {
        Some(s) => RelayReceiveSink::OutputDevice(s),
        None => RelayReceiveSink::DefaultOutput,
    }
}

/// How the local route stands.
#[derive(Debug, PartialEq, Eq)]
pub struct RelayLocalRouteState {
    pub mode: Option<RelayMode>,
    pub active: bool,
    pub source_id: Option<String>,
    pub sink_id: Option<String>,
    pub description: String,
}

/// The contents of a [`RelayLocalRouteState`].
#[verifier::ext_equal]
pub struct RelayLocalRouteStateView {
    pub mode: Option<RelayMode>,
    pub active: bool,
    pub source_id: Option<Seq<char>>,
    pub sink_id: Option<Seq<char>>,
    pub description: Seq<char>,
}

impl View for RelayLocalRouteState {
    type V = RelayLocalRouteStateView;

    open spec fn view(&self) -> RelayLocalRouteStateView {
        RelayLocalRouteStateView {
            mode: self.mode,
            active: self.active,
            source_id: opt_text(self.source_id),
            sink_id: opt_text(self.sink_id),
            description: self.description@,
        }
    }
}

impl RelayLocalRouteStateView {
    /// No route was asked for.
    pub open spec fn unset() -> RelayLocalRouteStateView {
        RelayLocalRouteStateView {
            mode: None,
            active: false,
            source_id: None,
            sink_id: None,
            description: ""@,
        }
    }

    /// There is no route, for a reason.
    pub open spec fn idle(mode: RelayMode, description: Seq<char>) -> RelayLocalRouteStateView {
        RelayLocalRouteStateView {
            mode: Some(mode),
            active: false,
            source_id: None,
            sink_id: None,
            description,
        }
    }
}

impl Default for RelayLocalRouteState {
    fn default() -> (r: RelayLocalRouteState)
        ensures
            r@ == RelayLocalRouteStateView::unset(),
    {
        RelayLocalRouteState {
            mode: None,
            active: false,
            source_id: None,
            sink_id: None,
            description: "".to_owned(),
        }
    }
}

impl RelayLocalRouteState {
    pub fn inactive(mode: RelayMode, description: String) -> (r: RelayLocalRouteState)
        ensures
            r@ == RelayLocalRouteStateView::idle(mode, description@),
    {
        RelayLocalRouteState {
            mode: Some(mode),
            active: false,
            source_id: None,
            sink_id: None,
            description,
        }
    }

    pub fn duplicate(&self) -> (r: RelayLocalRouteState)
        ensures
            r@ == self@,
    {
        RelayLocalRouteState {
            mode: self.mode,
            active: self.active,
            source_id: crate::model::clone_opt(&self.source_id),
            sink_id: crate::model::clone_opt(&self.sink_id),
            description: self.description.clone(),
        }
    }
}

/// An automatic route: two pairs of ports, and the names of its ends.
#[derive(Debug, PartialEq, Eq)]
pub struct LocalRoute {
    pub pairs: [(PortId, PortId); 2],
    pub source_id: String,
    pub sink_id: String,
    pub description: String,
}

/// The contents of a [`LocalRoute`].
#[verifier::ext_equal]
pub struct LocalRouteView {
    pub pairs: Seq<(PortId, PortId)>,
    pub source_id: Seq<char>,
    pub sink_id: Seq<char>,
    pub description: Seq<char>,
}

impl View for LocalRoute {
    type V = LocalRouteView;

    open spec fn view(&self) -> LocalRouteView {
        LocalRouteView {
            pairs: self.pairs@,
            source_id: self.source_id@,
            sink_id: self.sink_id@,
            description: self.description@,
        }
    }
}

/// The automatic links of the mode at hand.
#[derive(Debug, PartialEq, Eq)]
pub struct RelayLocalRouter {
    pub mode: Option<RelayMode>,
    pub send_source: RelaySendSource,
    pub receive_sink: RelayReceiveSink,
    pub enabled: bool,
    pub link_ids: Vec<u64>,
    pub state: RelayLocalRouteState,
}

/// The contents of a [`RelayLocalRouter`].
#[verifier::ext_equal]
pub struct RelayLocalRouterView {
    pub mode: Option<RelayMode>,
    pub send_source: RelaySendSourceView,
    pub receive_sink: RelayReceiveSinkView,
    pub enabled: bool,
    pub link_ids: Seq<u64>,
    pub state: RelayLocalRouteStateView,
}

impl View for RelayLocalRouter {
    type V = RelayLocalRouterView;

    open spec fn view(&self) -> RelayLocalRouterView {
        RelayLocalRouterView {
            mode: self.mode,
            send_source: self.send_source@,
            receive_sink: self.receive_sink@,
            enabled: self.enabled,
            link_ids: self.link_ids@,
            state: self.state@,
        }
    }
}

/// The two pairs between a left and right output and a left and right input.
pub open spec fn stereo(from: (PortId, PortId), to: (PortId, PortId)) -> Seq<(PortId, PortId)> {
    seq![(from.0, to.0), (from.1, to.1)]
}

/// The ports of the relay's own devices that a route uses.
pub open spec fn relay_sink_pair(g: GraphView) -> Option<(PortId, PortId)> {
    match named_node(g, RELAY_SINK_NAME@) {
        Some(node) => audio_pair(g, node, false, false),
        None => None,
    }
}

pub open spec fn relay_source_pair(g: GraphView) -> Option<(PortId, PortId)> {
    match named_node(g, RELAY_SOURCE_NAME@) {
        Some(node) => audio_pair(g, node, true, false),
        None => None,
    }
}

/// The node that sent audio comes from.
pub open spec fn send_node(
    g: GraphView,
    state: RegistryView,
    source: RelaySendSourceView,
) -> Option<NodeId> {
    match source {
        RelaySendSourceView::DefaultInput => default_node(g, state, state.default_source, true),
        RelaySendSourceView::InputDevice(s) => selected_node(g, state, s, true),
        RelaySendSourceView::OutputMonitor(s) => selected_node(g, state, s, true),
        RelaySendSourceView::DefaultOutputMonitor => default_node(
            g,
            state,
            state.default_sink,
            true,
        ),
        RelaySendSourceView::Application(_) => None,
        RelaySendSourceView::ManualGraph => None,
    }
}

/// The source is the monitor of an output.
pub open spec fn sends_monitor(source: RelaySendSourceView) -> bool {
    source is DefaultOutputMonitor || source is OutputMonitor
}

/// The node that received audio goes to.
pub open spec fn receive_node(
    g: GraphView,
    state: RegistryView,
    sink: RelayReceiveSinkView,
) -> Option<NodeId> {
    match sink {
        RelayReceiveSinkView::DefaultOutput => default_node(g, state, state.default_sink, false),
        RelayReceiveSinkView::OutputDevice(s) => selected_node(g, state, s, false),
        RelayReceiveSinkView::VirtualMicrophone => None,
        RelayReceiveSinkView::ManualGraph => None,
    }
}

/// The route of a sender.
pub open spec fn emitter_route(
    g: GraphView,
    state: RegistryView,
    source: RelaySendSourceView,
) -> Option<LocalRouteView> {
    match send_node(g, state, source) {
        None => None,
        Some(node) => match (
            audio_pair(g, node, true, sends_monitor(source)),
            relay_sink_pair(g),
        ) {
            (Some(from), Some(to)) => Some(
                LocalRouteView {
                    pairs: stereo(from, to),
                    source_id: g.node(node).name,
                    sink_id: RELAY_SINK_NAME@,
                    description: g.node(node).name + " -> Relay Speaker"@,
                },
            ),
            _ => None,
        },
    }
}

/// The route of a receiver.
pub open spec fn receiver_route(
    g: GraphView,
    state: RegistryView,
    sink: RelayReceiveSinkView,
) -> Option<LocalRouteView> {
    match receive_node(g, state, sink) {
        None => None,
        Some(node) => match (relay_source_pair(g), audio_pair(g, node, false, false)) {
            (Some(from), Some(to)) => Some(
                LocalRouteView {
                    pairs: stereo(from, to),
                    source_id: RELAY_SOURCE_NAME@,
                    sink_id: g.node(node).name,
                    description: "Relay Microphone -> "@ + g.node(node).name,
                },
            ),
            _ => None,
        },
    }
}

impl RelayLocalRouterView {
    /// The only automatic route that the router allows.
    pub open spec fn desired(self, g: GraphView, state: RegistryView) -> Option<LocalRouteView> {
        if !self.enabled {
            None
        } else {
            match self.mode {
                None => None,
                Some(RelayMode::Emitter) => emitter_route(g, state, self.send_source),
                Some(RelayMode::Receiver) => receiver_route(g, state, self.receive_sink),
            }
        }
    }

    /// Routing is left to the user.
    pub open spec fn manual(self, mode: RelayMode) -> bool {
        match mode {
            RelayMode::Emitter => self.send_source is ManualGraph
                || self.send_source is Application,
            RelayMode::Receiver => self.receive_sink is ManualGraph
                || self.receive_sink is VirtualMicrophone,
        }
    }

    /// Why there is no route.
    pub open spec fn idle_reason(self, mode: RelayMode) -> Seq<char> {
        if !self.enabled {
            "local relay route disabled"@
        } else if self.manual(mode) {
            "manual graph routing"@
        } else {
            match mode {
                RelayMode::Emitter => "waiting for an input source"@,
                RelayMode::Receiver => "waiting for an output sink"@,
            }
        }
    }
}

impl Default for RelayLocalRouter {
    fn default() -> (r: RelayLocalRouter)
        ensures
            r@ == (RelayLocalRouterView {
                mode: None,
                send_source: RelaySendSourceView::DefaultInput,
                receive_sink: RelayReceiveSinkView::DefaultOutput,
                enabled: true,
                link_ids: Seq::empty(),
                state: RelayLocalRouteStateView::unset(),
            }),
    {
        RelayLocalRouter {
            mode: None,
            send_source: RelaySendSource::DefaultInput,
            receive_sink: RelayReceiveSink::DefaultOutput,
            enabled: true,
            link_ids: Vec::new(),
            state: RelayLocalRouteState::default(),
        }
    }
}

impl RelayLocalRouter {
    pub fn set_mode(&mut self, mode: RelayMode)
        ensures
            final(self)@ == (RelayLocalRouterView { mode: Some(mode), ..old(self)@ }),
    {
        self.mode = Some(mode);
    }

    pub fn set_send_source(&mut self, source: RelaySendSource)
        ensures
            final(self)@ == (RelayLocalRouterView { send_source: source@, ..old(self)@ }),
    {
        self.send_source = source;
    }

    pub fn set_receive_sink(&mut self, sink: RelayReceiveSink)
        ensures
            final(self)@ == (RelayLocalRouterView { receive_sink: sink@, ..old(self)@ }),
    {
        self.receive_sink = sink;
    }

    /// The ports of the relay's sink device.
    pub fn relay_sink_ports(graph: &Graph) -> (r: Option<(PortId, PortId)>)
        ensures
            r == relay_sink_pair(graph@),
    {
        match find_named_node(graph, RELAY_SINK_NAME) {
            Some(node) => find_audio_ports(graph, node, false, false),
            None => None,
        }
    }

    /// The ports of the relay's source device.
    pub fn relay_source_ports(graph: &Graph) -> (r: Option<(PortId, PortId)>)
        ensures
            r == relay_source_pair(graph@),
    {
        match find_named_node(graph, RELAY_SOURCE_NAME) {
            Some(node) => find_audio_ports(graph, node, true, false),
            None => None,
        }
    }

    fn find_send_node(&self, graph: &Graph, state: &RegistryState) -> (r: Option<NodeId>)
        requires
            graph.wf(),
        ensures
            r == send_node(graph@, state@, self.send_source@),
            r matches Some(id) ==> graph@.has_node(id),
    {
        match &self.send_source {
            RelaySendSource::DefaultInput => find_default_node(
                graph,
                state,
                &state.default_source,
                true,
            ),
            RelaySendSource::InputDevice(s) => find_node(graph, state, s.as_str(), true),
            RelaySendSource::OutputMonitor(s) => find_node(graph, state, s.as_str(), true),
            RelaySendSource::DefaultOutputMonitor => find_default_node(
                graph,
                state,
                &state.default_sink,
                true,
            ),
            RelaySendSource::Application(_) => None,
            RelaySendSource::ManualGraph => None,
        }
    }

    fn find_receive_node(&self, graph: &Graph, state: &RegistryState) -> (r: Option<NodeId>)
        requires
            graph.wf(),
        ensures
            r == receive_node(graph@, state@, self.receive_sink@),
            r matches Some(id) ==> graph@.has_node(id),
    {
        match &self.receive_sink {
            RelayReceiveSink::DefaultOutput => find_default_node(
                graph,
                state,
                &state.default_sink,
                false,
            ),
            RelayReceiveSink::OutputDevice(s) => find_node(graph, state, s.as_str(), false),
            RelayReceiveSink::VirtualMicrophone => None,
            RelayReceiveSink::ManualGraph => None,
        }
    }

    fn desired_emitter(&self, graph: &Graph, state: &RegistryState) -> (r: Option<LocalRoute>)
        requires
            graph.wf(),
        ensures
            match r {
                Some(route) => emitter_route(graph@, state@, self.send_source@) == Some(route@),
                None => emitter_route(graph@, state@, self.send_source@) is None,
            },
    {
        let id = match self.find_send_node(graph, state) {
            Some(id) => id,
            None => {
                return None;
            },
        };
        let monitor = match &self.send_source {
            RelaySendSource::DefaultOutputMonitor => true,
            RelaySendSource::OutputMonitor(_) => true,
            _ => false,
        };
        match (find_audio_ports(graph, id, true, monitor), Self::relay_sink_ports(graph)) {
            (Some(from), Some(to)) => match graph.node(id) {
                Some(node) => {
                    let route = LocalRoute {
                        pairs: [(from.0, to.0), (from.1, to.1)],
                        source_id: node.name.clone(),
                        sink_id: RELAY_SINK_NAME.to_owned(),
                        description: concat2(node.name.as_str(), " -> Relay Speaker"),
                    };
                    assert(route.pairs@ =~= stereo(from, to));
                    Some(route)
                },
                None => None,
            },
            _ => None,
        }
    }

    fn desired_receiver(&self, graph: &Graph, state: &RegistryState) -> (r: Option<LocalRoute>)
        requires
            graph.wf(),
        ensures
            match r {
                Some(route) => receiver_route(graph@, state@, self.receive_sink@) == Some(route@),
                None => receiver_route(graph@, state@, self.receive_sink@) is None,
            },
    {
        let id = match self.find_receive_node(graph, state) {
            Some(id) => id,
            None => {
                return None;
            },
        };
        match (Self::relay_source_ports(graph), find_audio_ports(graph, id, false, false)) {
            (Some(from), Some(to)) => match graph.node(id) {
                Some(node) => {
                    let route = LocalRoute {
                        pairs: [(from.0, to.0), (from.1, to.1)],
                        source_id: RELAY_SOURCE_NAME.to_owned(),
                        sink_id: node.name.clone(),
                        description: concat2("Relay Microphone -> ", node.name.as_str()),
                    };
                    assert(route.pairs@ =~= stereo(from, to));
                    Some(route)
                },
                None => None,
            },
            _ => None,
        }
    }

    /// The only automatic route that the router allows. Manual choices leave
    /// the graph to the user.
    pub fn desired_links(&self, graph: &Graph, state: &RegistryState) -> (r: Option<LocalRoute>)
        requires
            graph.wf(),
        ensures
            match r {
                Some(route) => self@.desired(graph@, state@) == Some(route@),
                None => self@.desired(graph@, state@) is None,
            },
    {
        if !self.enabled {
            return None;
        }
        match self.mode {
            None => None,
            Some(RelayMode::Emitter) => self.desired_emitter(graph, state),
            Some(RelayMode::Receiver) => self.desired_receiver(graph, state),
        }
    }

    fn is_manual(&self, mode: RelayMode) -> (r: bool)
        ensures
            r == self@.manual(mode),
    {
        match mode {
            RelayMode::Emitter => match &self.send_source {
                RelaySendSource::ManualGraph => true,
                RelaySendSource::Application(_) => true,
                _ => false,
            },
            RelayMode::Receiver => match &self.receive_sink {
                RelayReceiveSink::ManualGraph => true,
                RelayReceiveSink::VirtualMicrophone => true,
                _ => false,
            },
        }
    }

    pub fn idle_reason_text(&self, mode: RelayMode) -> (r: String)
        ensures
            r@ == self@.idle_reason(mode),
    {
        if !self.enabled {
            "local relay route disabled".to_owned()
        } else if self.is_manual(mode) {
            "manual graph routing".to_owned()
        } else {
            match mode {
                RelayMode::Emitter => "waiting for an input source".to_owned(),
                RelayMode::Receiver => "waiting for an output sink".to_owned(),
            }
        }
    }
}

/// What goes from the phone to the desktop is received here, what goes from
/// the desktop to the phone is sent; who receives does not send.
pub proof fn law_who_sends(generation: u64)
    ensures
        mode_of(RelayDirection::MobileToDesktop) is Receiver,
        mode_of(RelayDirection::DesktopToMobile) is Emitter,
        direction_of(RelayMode::Receiver) is MobileToDesktop,
        direction_of(RelayMode::Emitter) is DesktopToMobile,
        roles_of(RelayMode::Receiver).receive && !roles_of(RelayMode::Receiver).emit,
        roles_of(RelayMode::Emitter).emit && !roles_of(RelayMode::Emitter).receive,
        ({
            let s = session_by_direction(RelayDirection::MobileToDesktop, generation);
            &&& s.direction is MobileToDesktop
            &&& s.mode is Receiver
            &&& s.client_roles.receive && !s.client_roles.emit
            &&& s.direction_generation == generation && s.mode_generation == generation
        }),
        ({
            let s = session_by_mode(RelayMode::Emitter, generation);
            &&& s.direction is DesktopToMobile
            &&& s.mode is Emitter
            &&& s.client_roles.emit && !s.client_roles.receive
            &&& s.direction_generation == generation && s.mode_generation == generation
        }),
{
}

/// A route joins the left port of its source with the left port of its sink,
/// and the right with the right.
pub proof fn law_stereo(from: (PortId, PortId), to: (PortId, PortId))
    ensures
        stereo(from, to).len() == 2,
        stereo(from, to)[0] == (from.0, to.0),
        stereo(from, to)[1] == (from.1, to.1),
{
}

/// Sending runs from audio outputs of the chosen node, which is none of the
/// relay's devices, to audio inputs of the relay's sink device.
pub proof fn law_sending_routes(g: GraphView, state: RegistryView, source: RelaySendSourceView)
    requires
        g.wf(),
    ensures
        emitter_route(g, state, source) matches Some(route) ==> {
            &&& send_node(g, state, source) matches Some(node)
            &&& named_node(g, "qpwgraph-rs.relay.sink"@) matches Some(device)
            &&& g.has_node(node)
            &&& g.node(node).name != "qpwgraph-rs.relay.source"@
            &&& g.node(node).name != "qpwgraph-rs.relay.sink"@
            &&& route.pairs.len() == 2
            &&& forall|i: int|
                0 <= i < 2 ==> crate::relay_ports::end_of(
                    g,
                    node,
                    (#[trigger] route.pairs[i]).0,
                    true,
                ) && crate::relay_ports::end_of(g, device, route.pairs[i].1, false)
            &&& route.source_id == g.node(node).name
            &&& route.sink_id == "qpwgraph-rs.relay.sink"@
        },
        send_node(g, state, source) is None ==> emitter_route(g, state, source) is None,
        named_node(g, "qpwgraph-rs.relay.sink"@) is None ==> emitter_route(
            g,
            state,
            source,
        ) is None,
{
    if let Some(node) = send_node(g, state, source) {
        lemma_send_node(g, state, source);
        crate::relay_ports::law_audio_pairs(g, node, true, sends_monitor(source), PortId(0));
        if let Some(device) = named_node(g, RELAY_SINK_NAME@) {
            crate::relay_ports::law_audio_pairs(g, device, false, false, PortId(0));
        }
    }
}

proof fn lemma_send_node(g: GraphView, state: RegistryView, source: RelaySendSourceView)
    requires
        g.wf(),
    ensures
        send_node(g, state, source) matches Some(node) ==> g.has_node(node)
            && crate::relay_ports::outer_end(g, g.node(node), true),
{
    match source {
        RelaySendSourceView::DefaultInput => {
            if let Some(device) = state.default_source {
                crate::relay_ports::law_default_node(g, state, device, true);
            }
        },
        RelaySendSourceView::DefaultOutputMonitor => {
            if let Some(device) = state.default_sink {
                crate::relay_ports::law_default_node(g, state, device, true);
            }
        },
        RelaySendSourceView::InputDevice(s) => {
            crate::relay_ports::law_selected_node(g, state, s, true);
        },
        RelaySendSourceView::OutputMonitor(s) => {
            crate::relay_ports::law_selected_node(g, state, s, true);
        },
        _ => {},
    }
}

/// Receiving runs from audio outputs of the relay's source device to audio
/// inputs of the chosen node, which is none of the relay's devices.
pub proof fn law_receiving_routes(g: GraphView, state: RegistryView, sink: RelayReceiveSinkView)
    requires
        g.wf(),
    ensures
        receiver_route(g, state, sink) matches Some(route) ==> {
            &&& receive_node(g, state, sink) matches Some(node)
            &&& named_node(g, "qpwgraph-rs.relay.source"@) matches Some(device)
            &&& g.has_node(node)
            &&& g.node(node).name != "qpwgraph-rs.relay.source"@
            &&& g.node(node).name != "qpwgraph-rs.relay.sink"@
            &&& route.pairs.len() == 2
            &&& forall|i: int|
                0 <= i < 2 ==> crate::relay_ports::end_of(
                    g,
                    device,
                    (#[trigger] route.pairs[i]).0,
                    true,
                ) && crate::relay_ports::end_of(g, node, route.pairs[i].1, false)
            &&& route.source_id == "qpwgraph-rs.relay.source"@
            &&& route.sink_id == g.node(node).name
        },
        receive_node(g, state, sink) is None ==> receiver_route(g, state, sink) is None,
        named_node(g, "qpwgraph-rs.relay.source"@) is None ==> receiver_route(
            g,
            state,
            sink,
        ) is None,
{
    match sink {
        RelayReceiveSinkView::DefaultOutput => {
            if let Some(device) = state.default_sink {
                crate::relay_ports::law_default_node(g, state, device, false);
            }
        },
        RelayReceiveSinkView::OutputDevice(s) => {
            crate::relay_ports::law_selected_node(g, state, s, false);
        },
        _ => {},
    }
    if let Some(node) = receive_node(g, state, sink) {
        crate::relay_ports::law_audio_pairs(g, node, false, false, PortId(0));
        if let Some(device) = named_node(g, RELAY_SOURCE_NAME@) {
            crate::relay_ports::law_audio_pairs(g, device, true, false, PortId(0));
        }
    }
}

/// What is sent is the default input, or the named device, or the monitor of
/// the default output or of the named output; an application and the manual
/// graph name no node. What is received goes to the default output or the
/// named one; the virtual microphone and the manual graph name no node.
pub proof fn law_chosen_ends(g: GraphView, state: RegistryView, name: Seq<char>)
    ensures
        send_node(g, state, RelaySendSourceView::DefaultInput) == crate::relay_ports::default_node(
            g,
            state,
            state.default_source,
            true,
        ),
        send_node(g, state, RelaySendSourceView::DefaultOutputMonitor)
            == crate::relay_ports::default_node(g, state, state.default_sink, true),
        send_node(g, state, RelaySendSourceView::InputDevice(name))
            == crate::relay_ports::selected_node(g, state, name, true),
        send_node(g, state, RelaySendSourceView::OutputMonitor(name))
            == crate::relay_ports::selected_node(g, state, name, true),
        send_node(g, state, RelaySendSourceView::Application(name)) is None,
        send_node(g, state, RelaySendSourceView::ManualGraph) is None,
        receive_node(g, state, RelayReceiveSinkView::DefaultOutput)
            == crate::relay_ports::default_node(g, state, state.default_sink, false),
        receive_node(g, state, RelayReceiveSinkView::OutputDevice(name))
            == crate::relay_ports::selected_node(g, state, name, false),
        receive_node(g, state, RelayReceiveSinkView::VirtualMicrophone) is None,
        receive_node(g, state, RelayReceiveSinkView::ManualGraph) is None,
        sends_monitor(RelaySendSourceView::DefaultOutputMonitor),
        sends_monitor(RelaySendSourceView::OutputMonitor(name)),
        !sends_monitor(RelaySendSourceView::DefaultInput),
        !sends_monitor(RelaySendSourceView::InputDevice(name)),
{
}

/// A router that is switched off or has no mode wants no route, nor one whose
/// mode is routed by hand. An emitter wants the route of its source and a
/// receiver that of its sink.
pub proof fn law_wanted_routes(router: RelayLocalRouterView, g: GraphView, state: RegistryView)
    ensures
        !router.enabled ==> router.desired(g, state) is None,
        router.mode is None ==> router.desired(g, state) is None,
        router.enabled && router.mode == Some(RelayMode::Emitter) ==> router.desired(g, state)
            == emitter_route(g, state, router.send_source),
        router.enabled && router.mode == Some(RelayMode::Receiver) ==> router.desired(g, state)
            == receiver_route(g, state, router.receive_sink),
        router.mode matches Some(mode) ==> (router.manual(mode) ==> router.desired(
            g,
            state,
        ) is None),
{
}

/// Where the sending end and the relay speaker both have a pair, the route
/// runs left to left and right to right, and tells both ends by name.
pub proof fn law_routes_to_the_speaker(
    g: GraphView,
    state: RegistryView,
    source: RelaySendSourceView,
    node: NodeId,
    device: NodeId,
    from: (PortId, PortId),
    to: (PortId, PortId),
)
    requires
        send_node(g, state, source) == Some(node),
        named_node(g, "qpwgraph-rs.relay.sink"@) == Some(device),
        audio_pair(g, node, true, source is DefaultOutputMonitor || source is OutputMonitor)
            == Some(from),
        audio_pair(g, device, false, false) == Some(to),
    ensures
        emitter_route(g, state, source) matches Some(route) && {
            &&& route.pairs.len() == 2
            &&& route.pairs[0].0 == from.0 && route.pairs[0].1 == to.0
            &&& route.pairs[1].0 == from.1 && route.pairs[1].1 == to.1
            &&& route.source_id == g.node(node).name
            &&& route.sink_id == "qpwgraph-rs.relay.sink"@
            &&& route.description == g.node(node).name + " -> Relay Speaker"@
        },
{
}

/// Where the relay microphone and the receiving end both have a pair, the
/// route runs left to left and right to right, and tells both ends by name.
pub proof fn law_routes_from_the_microphone(
    g: GraphView,
    state: RegistryView,
    sink: RelayReceiveSinkView,
    node: NodeId,
    device: NodeId,
    from: (PortId, PortId),
    to: (PortId, PortId),
)
    requires
        receive_node(g, state, sink) == Some(node),
        named_node(g, "qpwgraph-rs.relay.source"@) == Some(device),
        audio_pair(g, device, true, false) == Some(from),
        audio_pair(g, node, false, false) == Some(to),
    ensures
        receiver_route(g, state, sink) matches Some(route) && {
            &&& route.pairs.len() == 2
            &&& route.pairs[0].0 == from.0 && route.pairs[0].1 == to.0
            &&& route.pairs[1].0 == from.1 && route.pairs[1].1 == to.1
            &&& route.source_id == "qpwgraph-rs.relay.source"@
            &&& route.sink_id == g.node(node).name
            &&& route.description == "Relay Microphone -> "@ + g.node(node).name
        },
{
}

/// An idle router says why: it is switched off, it is routed by hand, or it
/// waits for the end that its mode needs.
pub proof fn law_idle_routers(router: RelayLocalRouterView, mode: RelayMode)
    ensures
        !router.enabled ==> router.idle_reason(mode) == "local relay route disabled"@,
        router.enabled && router.manual(mode) ==> router.idle_reason(mode)
            == "manual graph routing"@,
        router.enabled && !router.manual(RelayMode::Emitter) ==> router.idle_reason(
            RelayMode::Emitter,
        ) == "waiting for an input source"@,
        router.enabled && !router.manual(RelayMode::Receiver) ==> router.idle_reason(
            RelayMode::Receiver,
        ) == "waiting for an output sink"@,
        router.send_source is ManualGraph || router.send_source is Application ==> router.manual(
            RelayMode::Emitter,
        ),
        router.send_source is DefaultInput || router.send_source is InputDevice
            || router.send_source is DefaultOutputMonitor || router.send_source is OutputMonitor
            ==> !router.manual(RelayMode::Emitter),
        router.receive_sink is ManualGraph || router.receive_sink is VirtualMicrophone
            ==> router.manual(RelayMode::Receiver),
        router.receive_sink is DefaultOutput || router.receive_sink is OutputDevice
            ==> !router.manual(RelayMode::Receiver),
{
}

} // verus!
