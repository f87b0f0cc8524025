//! Several backends behind one graph: which of them owns an object, and what
//! a request is answered before it reaches one.
//!
//! Ownership is read from the identifier's namespace, never guessed. A pair
//! of objects of two backends is refused.
use crate::graph::{Graph, GraphView};
use crate::ids::{
    backend_for_link, backend_for_node, backend_for_port, owner_of, BackendKind, LinkId, NodeId,
    PortId,
};
use crate::model::{BackendError, BackendErrorView, GraphError, Link, Position};
use crate::text::{concat2, decimal, decimal_text};
use std::collections::BTreeMap;
use vstd::prelude::*;

verus! {

broadcast use vstd::std_specs::btree::group_btree_axioms;

/// The backend that a request goes to.
#[derive(Clone, Copy, Debug, PartialEq, Eq, Structural)]
pub enum CompositeRoute {
    PipeWire,
    AlsaMidi,
    WindowsAudio,
    WindowsMidi,
    Demo,
}

/// The route to a backend.
pub open spec fn route_to(backend: BackendKind) -> CompositeRoute {
    match backend {
        BackendKind::PipeWire => CompositeRoute::PipeWire,
        BackendKind::AlsaMidi => CompositeRoute::AlsaMidi,
        BackendKind::WindowsAudio => CompositeRoute::WindowsAudio,
        BackendKind::WindowsMidi => CompositeRoute::WindowsMidi,
        BackendKind::Demo => CompositeRoute::Demo,
    }
}

impl CompositeRoute {
    pub fn from_backend(backend: BackendKind) -> (r: CompositeRoute)
        ensures
            r == route_to(backend),
    {
        match backend {
            BackendKind::PipeWire => CompositeRoute::PipeWire,
            BackendKind::AlsaMidi => CompositeRoute::AlsaMidi,
            BackendKind::WindowsAudio => CompositeRoute::WindowsAudio,
            BackendKind::WindowsMidi => CompositeRoute::WindowsMidi,
            BackendKind::Demo => CompositeRoute::Demo,
        }
    }
}

/// What is asked of video.
#[derive(Clone, Copy, Debug, PartialEq, Eq, Structural)]
pub enum VideoRequest {
    Filter,
    ScreenCapture,
    VirtualDisplay,
}

/// What is answered where no backend carries video.
pub open spec fn video_need(request: VideoRequest) -> Seq<char> {
    match request {
        VideoRequest::Filter => "video filters need the PipeWire backend"@,
        VideoRequest::ScreenCapture => "screen capture needs the PipeWire backend"@,
        VideoRequest::VirtualDisplay => "virtual displays need the PipeWire backend"@,
    }
}

/// The route of a pair of ports, or why it has none.
pub open spec fn pair_route(src: PortId, dst: PortId) -> Result<CompositeRoute, Seq<char>> {
    match (owner_of(src.0), owner_of(dst.0)) {
        (None, _) => Err("source port has an unknown backend namespace"@),
        (Some(_), None) => Err("destination port has an unknown backend namespace"@),
        (Some(a), Some(b)) => if a == b {
            Ok(route_to(a))
        } else if (a is PipeWire && b is AlsaMidi) || (a is AlsaMidi && b is PipeWire) {
            Err("connections cannot cross PipeWire and ALSA MIDI backends"@)
        } else {
            Err("connections cannot cross native backends"@)
        },
    }
}

/// Classifies a connection without touching any backend.
pub fn route_for_ports(src: PortId, dst: PortId) -> (r: Result<CompositeRoute, &'static str>)
    ensures
        match r {
            Ok(route) => pair_route(src, dst) == Ok::<CompositeRoute, Seq<char>>(route),
            Err(text) => pair_route(src, dst) == Err::<CompositeRoute, Seq<char>>(text@),
        },
{
    let source = match backend_for_port(src) {
        Some(backend) => backend,
        None => {
            return Err("source port has an unknown backend namespace");
        },
    };
    let destination = match backend_for_port(dst) {
        Some(backend) => backend,
        None => {
            return Err("destination port has an unknown backend namespace");
        },
    };
    if source != destination {
        return Err(
            match (source, destination) {
                (BackendKind::PipeWire, BackendKind::AlsaMidi) =>
                    "connections cannot cross PipeWire and ALSA MIDI backends",
                (BackendKind::AlsaMidi, BackendKind::PipeWire) =>
                    "connections cannot cross PipeWire and ALSA MIDI backends",
                _ => "connections cannot cross native backends",
            },
        );
    }
    Ok(CompositeRoute::from_backend(source))
}

/// A connection is routed exactly where both ports belong to one backend.
pub proof fn law_only_pairs_of_one_backend_are_routed(src: PortId, dst: PortId)
    ensures
        pair_route(src, dst) is Ok <==> owner_of(src.0) is Some && owner_of(src.0) == owner_of(
            dst.0,
        ),
        pair_route(src, dst) matches Ok(route) ==> route == route_to(owner_of(src.0)->Some_0),
{
}

/// What a backend offers.
#[derive(Clone, Copy, Debug, PartialEq, Eq, Structural)]
pub struct BackendCapabilities {
    pub topology: bool,
    pub connect: bool,
    pub disconnect: bool,
    pub volume: bool,
    pub mute: bool,
    pub meters: bool,
    pub effects: bool,
    pub relay: bool,
    pub recorders: bool,
}

impl BackendCapabilities {
    /// Nothing at all.
    pub open spec fn none() -> BackendCapabilities {
        BackendCapabilities {
            topology: false,
            connect: false,
            disconnect: false,
            volume: false,
            mute: false,
            meters: false,
            effects: false,
            relay: false,
            recorders: false,
        }
    }

    /// What either side offers.
    pub open spec fn joined(self, other: BackendCapabilities) -> BackendCapabilities {
        BackendCapabilities {
            topology: self.topology || other.topology,
            connect: self.connect || other.connect,
            disconnect: self.disconnect || other.disconnect,
            volume: self.volume || other.volume,
            mute: self.mute || other.mute,
            meters: self.meters || other.meters,
            effects: self.effects || other.effects,
            relay: self.relay || other.relay,
            recorders: self.recorders || other.recorders,
        }
    }

    pub fn union(self, other: BackendCapabilities) -> (r: BackendCapabilities)
        ensures
            r == self.joined(other),
    {
        BackendCapabilities {
            topology: self.topology || other.topology,
            connect: self.connect || other.connect,
            disconnect: self.disconnect || other.disconnect,
            volume: self.volume || other.volume,
            mute: self.mute || other.mute,
            meters: self.meters || other.meters,
            effects: self.effects || other.effects,
            relay: self.relay || other.relay,
            recorders: self.recorders || other.recorders,
        }
    }
}

impl Default for BackendCapabilities {
    fn default() -> (r: BackendCapabilities)
        ensures
            r == BackendCapabilities::none(),
    {
        BackendCapabilities {
            topology: false,
            connect: false,
            disconnect: false,
            volume: false,
            mute: false,
            meters: false,
            effects: false,
            relay: false,
            recorders: false,
        }
    }
}

/// What the PipeWire backend offers; the relay and recorders only where they
/// are built in.
pub fn pipewire_capabilities(relay: bool, recorders: bool) -> (r: BackendCapabilities)
    ensures
        r == (BackendCapabilities {
            topology: true,
            connect: true,
            disconnect: true,
            volume: true,
            mute: true,
            meters: true,
            effects: true,
            relay,
            recorders,
        }),
{
    BackendCapabilities {
        topology: true,
        connect: true,
        disconnect: true,
        volume: true,
        mute: true,
        meters: true,
        effects: true,
        relay,
        recorders,
    }
}

/// Joining capabilities is commutative, associative and idempotent, and
/// joining nothing changes nothing.
pub proof fn law_capabilities_join(
    a: BackendCapabilities,
    b: BackendCapabilities,
    c: BackendCapabilities,
)
    ensures
        a.joined(b) == b.joined(a),
        a.joined(b).joined(c) == a.joined(b.joined(c)),
        a.joined(a) == a,
        BackendCapabilities::none().joined(a) == a,
{
}

/// How a backend stands in this build and session.
#[derive(Clone, Copy, Debug, PartialEq, Eq, Structural)]
pub enum Child {
    /// It is no part of this build.
    Disabled,
    /// It could not be opened, or was not asked for.
    Missing,
    /// It is open and offers this much.
    Open(BackendCapabilities),
}

/// What came of opening the backends. One that is missing does not keep the
/// others from being used.
#[derive(Debug, PartialEq, Eq)]
pub struct BackendAvailability {
    pub pipewire: bool,
    pub alsa: bool,
    pub windows_audio: bool,
    pub windows_midi: bool,
    pub failures: Vec<String>,
}

/// The contents of a [`BackendAvailability`].
#[verifier::ext_equal]
pub struct BackendAvailabilityView {
    pub pipewire: bool,
    pub alsa: bool,
    pub windows_audio: bool,
    pub windows_midi: bool,
    pub failures: Seq<Seq<char>>,
}

impl View for BackendAvailability {
    type V = BackendAvailabilityView;

    open spec fn view(&self) -> BackendAvailabilityView {
        BackendAvailabilityView {
            pipewire: self.pipewire,
            alsa: self.alsa,
            windows_audio: self.windows_audio,
            windows_midi: self.windows_midi,
            failures: self.failures@.map_values(|s: String| s@),
        }
    }
}

impl BackendAvailabilityView {
    /// After opening a backend: it is there, or its failure is kept.
    pub open spec fn recorded(
        self,
        backend: BackendKind,
        failure: Option<Seq<char>>,
    ) -> BackendAvailabilityView {
        match failure {
            Some(text) => BackendAvailabilityView { failures: self.failures.push(text), ..self },
            None => match backend {
                BackendKind::PipeWire => BackendAvailabilityView { pipewire: true, ..self },
                BackendKind::AlsaMidi => BackendAvailabilityView { alsa: true, ..self },
                BackendKind::WindowsAudio => BackendAvailabilityView {
                    windows_audio: true,
                    ..self
                },
                BackendKind::WindowsMidi => BackendAvailabilityView {
                    windows_midi: true,
                    ..self
                },
                BackendKind::Demo => self,
            },
        }
    }
}

impl Default for BackendAvailability {
    fn default() -> (r: BackendAvailability)
        ensures
            r@ == (BackendAvailabilityView {
                pipewire: false,
                alsa: false,
                windows_audio: false,
                windows_midi: false,
                failures: Seq::empty(),
            }),
    {
        let r = BackendAvailability {
            pipewire: false,
            alsa: false,
            windows_audio: false,
            windows_midi: false,
            failures: Vec::new(),
        };
        assert(r@.failures =~= Seq::empty());
        r
    }
}

impl BackendAvailability {
    /// Records that a backend was opened, or why it was not.
    pub fn record(&mut self, backend: BackendKind, failure: Option<String>)
        ensures
            final(self)@ == old(self)@.recorded(backend, crate::model::opt_text(failure)),
    {
        match failure {
            Some(text) => {
                let ghost before = self.failures@;
                self.failures.push(text);
                assert(self@.failures =~= before.map_values(|s: String| s@).push(text@));
            },
            None => match backend {
                BackendKind::PipeWire => {
                    self.pipewire = true;
                },
                BackendKind::AlsaMidi => {
                    self.alsa = true;
                },
                BackendKind::WindowsAudio => {
                    self.windows_audio = true;
                },
                BackendKind::WindowsMidi => {
                    self.windows_midi = true;
                },
                BackendKind::Demo => {},
            },
        }
    }
}

/// Whether a backend is opened at start: those for MIDI are not where MIDI is
/// not wanted, and demo resources are no part of a live composite.
pub fn opens_at_start(backend: BackendKind, no_midi: bool) -> (r: bool)
    ensures
        r == match backend {
            BackendKind::PipeWire => true,
            BackendKind::WindowsAudio => true,
            BackendKind::AlsaMidi => !no_midi,
            BackendKind::WindowsMidi => !no_midi,
            BackendKind::Demo => false,
        },
{
    match backend {
        BackendKind::PipeWire => true,
        BackendKind::WindowsAudio => true,
        BackendKind::AlsaMidi => !no_midi,
        BackendKind::WindowsMidi => !no_midi,
        BackendKind::Demo => false,
    }
}

/// The state of the composite: its backends, the merged graph, and which
/// backend runs which recorder.
#[derive(Debug, PartialEq, Eq)]
pub struct CompositeDriver {
    pub pipewire: Child,
    pub alsa: Child,
    pub windows_audio: Child,
    pub windows_midi: Child,
    pub graph: Graph,
    pub recorder_owners: BTreeMap<u64, CompositeRoute>,
}

/// Why a request to a backend cannot be made, if it cannot.
pub open spec fn child_refusal(c: CompositeDriver, route: CompositeRoute) -> Option<Seq<char>> {
    match route {
        CompositeRoute::PipeWire => match c.pipewire {
            Child::Open(_) => None,
            Child::Missing => Some("PipeWire backend is unavailable"@),
            Child::Disabled => Some("PipeWire backend is disabled"@),
        },
        CompositeRoute::AlsaMidi => match c.alsa {
            Child::Open(_) => None,
            Child::Missing => Some("ALSA MIDI backend is unavailable"@),
            Child::Disabled => Some("ALSA MIDI backend is disabled"@),
        },
        CompositeRoute::WindowsAudio => match c.windows_audio {
            Child::Open(_) => None,
            _ => Some("Windows audio backend is unavailable"@),
        },
        CompositeRoute::WindowsMidi => match c.windows_midi {
            Child::Open(_) => None,
            _ => Some("Windows MIDI backend is unavailable"@),
        },
        CompositeRoute::Demo => Some("demo resources are not part of the live composite"@),
    }
}

/// What a backend offers; one that is not open offers nothing.
pub open spec fn offered_by(c: CompositeDriver, backend: BackendKind) -> BackendCapabilities {
    let child = match backend {
        BackendKind::PipeWire => c.pipewire,
        BackendKind::AlsaMidi => c.alsa,
        BackendKind::WindowsAudio => c.windows_audio,
        BackendKind::WindowsMidi => c.windows_midi,
        BackendKind::Demo => Child::Disabled,
    };
    match child {
        Child::Open(capabilities) => capabilities,
        _ => BackendCapabilities::none(),
    }
}

/// The route by which a link is taken down: that of its own namespace, else
/// that of its ports.
pub open spec fn link_route(link: Link) -> Option<CompositeRoute> {
    match owner_of(link.id.0) {
        Some(backend) => Some(route_to(backend)),
        None => match pair_route(link.output_port, link.input_port) {
            Ok(route) => Some(route),
            Err(_) => None,
        },
    }
}

/// Where a question about a node goes.
#[derive(Clone, Copy, Debug, PartialEq, Eq, Structural)]
pub enum NodeQuery {
    /// The backend behind the route answers.
    Ask(CompositeRoute),
    /// The node is real, and there is nothing to control.
    Nothing,
}

/// Why a change of a node cannot be made, or where it goes.
pub open spec fn control_route(
    c: CompositeDriver,
    node: NodeId,
    control: Seq<char>,
) -> Result<CompositeRoute, BackendErrorView> {
    match owner_of(node.0) {
        None => Err(BackendErrorView::Unsupported("node has an unknown backend namespace"@)),
        Some(BackendKind::AlsaMidi) => Err(
            BackendErrorView::Unsupported("ALSA MIDI nodes do not expose audio "@ + control),
        ),
        Some(BackendKind::WindowsMidi) => Err(
            BackendErrorView::Unsupported("Windows MIDI nodes do not expose audio "@ + control),
        ),
        Some(backend) => match child_refusal(c, route_to(backend)) {
            Some(text) => Err(BackendErrorView::Unsupported(text)),
            None => Ok(route_to(backend)),
        },
    }
}

impl CompositeDriver {
    pub open spec fn wf(&self) -> bool {
        self.graph.wf()
    }

    /// A composite over the given backends, with nothing in its graph yet.
    pub fn new(pipewire: Child, alsa: Child, windows_audio: Child, windows_midi: Child) -> (r:
        CompositeDriver)
        ensures
            r.wf(),
            r.pipewire == pipewire,
            r.alsa == alsa,
            r.windows_audio == windows_audio,
            r.windows_midi == windows_midi,
            r.graph@ == GraphView::empty(),
            r.recorder_owners@ == Map::<u64, CompositeRoute>::empty(),
    {
        CompositeDriver {
            pipewire,
            alsa,
            windows_audio,
            windows_midi,
            graph: Graph::new(),
            recorder_owners: BTreeMap::new(),
        }
    }

    pub fn has_pipewire(&self) -> (r: bool)
        ensures
            r == (self.pipewire is Open),
    {
        matches!(self.pipewire, Child::Open(_))
    }

    pub fn has_alsa(&self) -> (r: bool)
        ensures
            r == (self.alsa is Open),
    {
        matches!(self.alsa, Child::Open(_))
    }

    pub fn has_windows_audio(&self) -> (r: bool)
        ensures
            r == (self.windows_audio is Open),
    {
        matches!(self.windows_audio, Child::Open(_))
    }

    pub fn has_windows_midi(&self) -> (r: bool)
        ensures
            r == (self.windows_midi is Open),
    {
        matches!(self.windows_midi, Child::Open(_))
    }

    /// Whether a backend can be asked, and what is answered where not.
    pub fn child(&self, route: CompositeRoute) -> (r: Result<(), BackendError>)
        ensures
            match r {
                Ok(_) => child_refusal(*self, route) is None,
                Err(e) => child_refusal(*self, route) matches Some(text) && e@
                    == BackendErrorView::Unsupported(text),
            },
    {
        match route {
            CompositeRoute::PipeWire => match self.pipewire {
                Child::Open(_) => Ok(()),
                Child::Missing => Err(BackendError::unsupported("PipeWire backend is unavailable")),
                Child::Disabled => Err(BackendError::unsupported("PipeWire backend is disabled")),
            },
            CompositeRoute::AlsaMidi => match self.alsa {
                Child::Open(_) => Ok(()),
                Child::Missing => Err(BackendError::unsupported("ALSA MIDI backend is unavailable")),
                Child::Disabled => Err(BackendError::unsupported("ALSA MIDI backend is disabled")),
            },
            CompositeRoute::WindowsAudio => match self.windows_audio {
                Child::Open(_) => Ok(()),
                _ => Err(BackendError::unsupported("Windows audio backend is unavailable")),
            },
            CompositeRoute::WindowsMidi => match self.windows_midi {
                Child::Open(_) => Ok(()),
                _ => Err(BackendError::unsupported("Windows MIDI backend is unavailable")),
            },
            CompositeRoute::Demo => Err(
                BackendError::unsupported("demo resources are not part of the live composite"),
            ),
        }
    }

    /// What the backend of a namespace offers.
    pub fn capabilities_for_backend(&self, backend: BackendKind) -> (r: BackendCapabilities)
        ensures
            r == offered_by(*self, backend),
    {
        let child = match backend {
            BackendKind::PipeWire => self.pipewire,
            BackendKind::AlsaMidi => self.alsa,
            BackendKind::WindowsAudio => self.windows_audio,
            BackendKind::WindowsMidi => self.windows_midi,
            BackendKind::Demo => Child::Disabled,
        };
        match child {
            Child::Open(capabilities) => capabilities,
            _ => BackendCapabilities::default(),
        }
    }

    /// What the open backends offer together.
    pub fn capabilities(&self) -> (r: BackendCapabilities)
        ensures
            r == offered_by(*self, BackendKind::PipeWire).joined(
                offered_by(*self, BackendKind::AlsaMidi),
            ).joined(offered_by(*self, BackendKind::WindowsAudio)).joined(
                offered_by(*self, BackendKind::WindowsMidi),
            ),
    {
        let mut all = BackendCapabilities::default();
        all = all.union(self.capabilities_for_backend(BackendKind::PipeWire));
        all = all.union(self.capabilities_for_backend(BackendKind::AlsaMidi));
        all = all.union(self.capabilities_for_backend(BackendKind::WindowsAudio));
        all.union(self.capabilities_for_backend(BackendKind::WindowsMidi))
    }

    /// Whether a node can be routed: where its backend is open, as it says.
    pub fn child_node_supports_routing(&self, backend: BackendKind, native: bool) -> (r: bool)
        ensures
            r == (native && child_refusal(*self, route_to(backend)) is None),
    {
        native && self.child(CompositeRoute::from_backend(backend)).is_ok()
    }

    /// What is offered for a node: what its backend offers, without routing
    /// where the backend says that this node cannot be routed.
    pub fn capabilities_for_node(&self, node: NodeId, native_routing: bool) -> (r:
        BackendCapabilities)
        ensures
            r == (match owner_of(node.0) {
                None => BackendCapabilities::none(),
                Some(backend) => if native_routing && child_refusal(
                    *self,
                    route_to(backend),
                ) is None {
                    offered_by(*self, backend)
                } else {
                    BackendCapabilities {
                        connect: false,
                        disconnect: false,
                        ..offered_by(*self, backend)
                    }
                },
            }),
    {
        match backend_for_node(node) {
            None => BackendCapabilities::default(),
            Some(backend) => {
                let mut capabilities = self.capabilities_for_backend(backend);
                if !self.child_node_supports_routing(backend, native_routing) {
                    capabilities.connect = false;
                    capabilities.disconnect = false;
                }
                capabilities
            },
        }
    }

    /// Decides where a connection is made, before any backend is touched.
    pub fn route_connect(&self, src: PortId, dst: PortId) -> (r: Result<
        CompositeRoute,
        BackendError,
    >)
        ensures
            match pair_route(src, dst) {
                Err(text) => r matches Err(e) && e@ == BackendErrorView::Unsupported(text),
                Ok(route) => match child_refusal(*self, route) {
                    Some(text) => r matches Err(e) && e@ == BackendErrorView::Unsupported(text),
                    None => r == Ok::<CompositeRoute, BackendError>(route),
                },
            },
    {
        match route_for_ports(src, dst) {
            Err(text) => Err(BackendError::unsupported(text)),
            Ok(route) => match self.child(route) {
                Ok(()) => Ok(route),
                Err(e) => Err(e),
            },
        }
    }

    /// Decides where a link is taken down. The link itself is handed back for
    /// the answer.
    pub fn route_disconnect(&self, link: LinkId) -> (r: Result<
        (Link, CompositeRoute),
        BackendError,
    >)
        requires
            self.wf(),
        ensures
            if !self.graph@.has_link(link) {
                r matches Err(e) && e@ == BackendErrorView::Graph(GraphError::MissingLink(link))
            } else {
                match link_route(self.graph@.link(link)) {
                    None => r matches Err(e) && e@ == BackendErrorView::Unsupported(
                        "link has an unknown backend namespace"@,
                    ),
                    Some(route) => match child_refusal(*self, route) {
                        Some(text) => r matches Err(e) && e@ == BackendErrorView::Unsupported(
                            text,
                        ),
                        None => r == Ok::<(Link, CompositeRoute), BackendError>(
                            (self.graph@.link(link), route),
                        ),
                    },
                }
            },
    {
        let existing = match self.graph.link(link) {
            Some(existing) => existing,
            None => {
                return Err(BackendError::Graph(GraphError::MissingLink(link)));
            },
        };
        assert(self.graph@.links.contains_key(link.0));
        let route = match Self::owner_of_link(existing) {
            Some(route) => route,
            None => {
                return Err(BackendError::unsupported("link has an unknown backend namespace"));
            },
        };
        match self.child(route) {
            Ok(()) => Ok((existing, route)),
            Err(e) => Err(e),
        }
    }

    fn owner_of_link(link: Link) -> (r: Option<CompositeRoute>)
        ensures
            r == link_route(link),
    {
        match backend_for_link(link.id) {
            Some(backend) => Some(CompositeRoute::from_backend(backend)),
            None => match route_for_ports(link.output_port, link.input_port) {
                Ok(route) => Some(route),
                Err(_) => None,
            },
        }
    }

    /// Whether a link can be changed: where it exists and its backend is
    /// open, as that backend says.
    pub fn route_is_link_mutable(&self, link: LinkId, native: bool) -> (r: bool)
        requires
            self.wf(),
        ensures
            r == (native && self.graph@.has_link(link) && match link_route(
                self.graph@.link(link),
            ) {
                Some(route) => child_refusal(*self, route) is None,
                None => false,
            }),
    {
        match self.graph.link(link) {
            None => false,
            Some(existing) => {
                assert(self.graph@.links.contains_key(link.0));
                match Self::owner_of_link(existing) {
                    Some(route) => native && self.child(route).is_ok(),
                    None => false,
                }
            },
        }
    }

    /// Decides where a position is set.
    pub fn route_set_node_position(&self, node: NodeId) -> (r: Result<
        CompositeRoute,
        BackendError,
    >)
        ensures
            match owner_of(node.0) {
                None => r matches Err(e) && e@ == BackendErrorView::Unsupported(
                    "node has an unknown backend namespace"@,
                ),
                Some(backend) => match child_refusal(*self, route_to(backend)) {
                    Some(text) => r matches Err(e) && e@ == BackendErrorView::Unsupported(text),
                    None => r == Ok::<CompositeRoute, BackendError>(route_to(backend)),
                },
            },
    {
        match backend_for_node(node) {
            None => Err(BackendError::unsupported("node has an unknown backend namespace")),
            Some(backend) => {
                let route = CompositeRoute::from_backend(backend);
                match self.child(route) {
                    Ok(()) => Ok(route),
                    Err(e) => Err(e),
                }
            },
        }
    }

    /// Keeps the position that a backend took on.
    pub fn position_set(&mut self, node: NodeId, position: Position)
        requires
            old(self).wf(),
        ensures
            final(self).wf(),
            final(self).graph@ == (if old(self).graph@.has_node(node) {
                old(self).graph@.with_position(node, position)
            } else {
                old(self).graph@
            }),
            final(self).pipewire == old(self).pipewire,
            final(self).alsa == old(self).alsa,
            final(self).windows_audio == old(self).windows_audio,
            final(self).windows_midi == old(self).windows_midi,
            final(self).recorder_owners == old(self).recorder_owners,
    {
        let _ = self.graph.set_position(node, position);
    }

    /// Decides who answers for the audio state of a node. Nodes without audio
    /// are no error.
    pub fn route_node_audio_state(&self, node: NodeId) -> (r: Result<NodeQuery, BackendError>)
        ensures
            match owner_of(node.0) {
                None => r matches Err(e) && e@ == BackendErrorView::Unsupported(
                    "node has an unknown backend namespace"@,
                ),
                Some(BackendKind::Demo) => r matches Err(e) && e@
                    == BackendErrorView::Unsupported(
                    "demo resources are not part of the live composite"@,
                ),
                Some(backend) => r == Ok::<NodeQuery, BackendError>(
                    if (backend is PipeWire || backend is WindowsAudio) && child_refusal(
                        *self,
                        route_to(backend),
                    ) is None {
                        NodeQuery::Ask(route_to(backend))
                    } else {
                        NodeQuery::Nothing
                    },
                ),
            },
    {
        match backend_for_node(node) {
            None => Err(BackendError::unsupported("node has an unknown backend namespace")),
            Some(BackendKind::Demo) => Err(
                BackendError::unsupported("demo resources are not part of the live composite"),
            ),
            Some(_) => Ok(self.route_node_capabilities(node)),
        }
    }

    /// Decides who answers for what can be controlled on a node.
    pub fn route_node_capabilities(&self, node: NodeId) -> (r: NodeQuery)
        ensures
            r == match owner_of(node.0) {
                Some(backend) => if (backend is PipeWire || backend is WindowsAudio)
                    && child_refusal(*self, route_to(backend)) is None {
                    NodeQuery::Ask(route_to(backend))
                } else {
                    NodeQuery::Nothing
                },
                None => NodeQuery::Nothing,
            },
    {
        match backend_for_node(node) {
            Some(BackendKind::PipeWire) => if self.has_pipewire() {
                NodeQuery::Ask(CompositeRoute::PipeWire)
            } else {
                NodeQuery::Nothing
            },
            Some(BackendKind::WindowsAudio) => if self.has_windows_audio() {
                NodeQuery::Ask(CompositeRoute::WindowsAudio)
            } else {
                NodeQuery::Nothing
            },
            _ => NodeQuery::Nothing,
        }
    }

    fn route_control(&self, node: NodeId, control: &str) -> (r: Result<
        CompositeRoute,
        BackendError,
    >)
        ensures
            match control_route(*self, node, control@) {
                Ok(route) => r == Ok::<CompositeRoute, BackendError>(route),
                Err(error) => r matches Err(e) && e@ == error,
            },
    {
        match backend_for_node(node) {
            None => Err(BackendError::unsupported("node has an unknown backend namespace")),
            Some(BackendKind::AlsaMidi) => Err(
                BackendError::Unsupported(
                    concat2("ALSA MIDI nodes do not expose audio ", control),
                ),
            ),
            Some(BackendKind::WindowsMidi) => Err(
                BackendError::Unsupported(
                    concat2("Windows MIDI nodes do not expose audio ", control),
                ),
            ),
            Some(backend) => {
                let route = CompositeRoute::from_backend(backend);
                match self.child(route) {
                    Ok(()) => Ok(route),
                    Err(e) => Err(e),
                }
            },
        }
    }

    /// Decides where a node is muted.
    pub fn route_set_node_mute(&self, node: NodeId) -> (r: Result<CompositeRoute, BackendError>)
        ensures
            match control_route(*self, node, "mute"@) {
                Ok(route) => r == Ok::<CompositeRoute, BackendError>(route),
                Err(error) => r matches Err(e) && e@ == error,
            },
    {
        self.route_control(node, "mute")
    }

    /// Decides where the volume of a node is set.
    pub fn route_set_node_volume(&self, node: NodeId) -> (r: Result<CompositeRoute, BackendError>)
        ensures
            match control_route(*self, node, "volume"@) {
                Ok(route) => r == Ok::<CompositeRoute, BackendError>(route),
                Err(error) => r matches Err(e) && e@ == error,
            },
    {
        self.route_control(node, "volume")
    }

    /// The backend whose streams, meters and effects are used, if there is
    /// one: PipeWire, else the Windows one.
    pub fn audio_backend(&self) -> (r: Option<CompositeRoute>)
        ensures
            r == (if self.pipewire is Open {
                Some(CompositeRoute::PipeWire)
            } else if self.windows_audio is Open {
                Some(CompositeRoute::WindowsAudio)
            } else {
                None
            }),
    {
        if self.has_pipewire() {
            Some(CompositeRoute::PipeWire)
        } else if self.has_windows_audio() {
            Some(CompositeRoute::WindowsAudio)
        } else {
            None
        }
    }

    /// Decides where an effect is hosted.
    pub fn effect_backend(&self) -> (r: Result<CompositeRoute, BackendError>)
        ensures
            ({
                let route = if !(self.pipewire is Disabled) {
                    Some(CompositeRoute::PipeWire)
                } else if !(self.windows_audio is Disabled) {
                    Some(CompositeRoute::WindowsAudio)
                } else {
                    None
                };
                match route {
                    None => r matches Err(e) && e@ == BackendErrorView::Unsupported(
                        "effect processing is unavailable"@,
                    ),
                    Some(route) => match child_refusal(*self, route) {
                        Some(text) => r matches Err(e) && e@ == BackendErrorView::Unsupported(
                            text,
                        ),
                        None => r == Ok::<CompositeRoute, BackendError>(route),
                    },
                }
            }),
    {
        let route = if !matches!(self.pipewire, Child::Disabled) {
            CompositeRoute::PipeWire
        } else if !matches!(self.windows_audio, Child::Disabled) {
            CompositeRoute::WindowsAudio
        } else {
            return Err(BackendError::unsupported("effect processing is unavailable"));
        };
        match self.child(route) {
            Ok(()) => Ok(route),
            Err(e) => Err(e),
        }
    }

    /// The backend whose effects are listed, if it is there; without it the
    /// lists are empty and no effect node can be made.
    pub fn effect_list_backend(&self) -> (r: Option<CompositeRoute>)
        ensures
            r == (match self.pipewire {
                Child::Open(_) => Some(CompositeRoute::PipeWire),
                Child::Missing => None,
                Child::Disabled => if self.windows_audio is Open {
                    Some(CompositeRoute::WindowsAudio)
                } else {
                    None
                },
            }),
    {
        match self.pipewire {
            Child::Open(_) => Some(CompositeRoute::PipeWire),
            Child::Missing => None,
            Child::Disabled => if self.has_windows_audio() {
                Some(CompositeRoute::WindowsAudio)
            } else {
                None
            },
        }
    }

    /// Decides whose effects are asked for news. Only a PipeWire backend that
    /// is missing is an error; where there is none otherwise, there is no
    /// news.
    pub fn effect_events_backend(&self) -> (r: Result<Option<CompositeRoute>, BackendError>)
        ensures
            match self.pipewire {
                Child::Open(_) => r == Ok::<Option<CompositeRoute>, BackendError>(
                    Some(CompositeRoute::PipeWire),
                ),
                Child::Missing => r matches Err(e) && e@ == BackendErrorView::Unsupported(
                    "PipeWire backend is unavailable"@,
                ),
                Child::Disabled => r == Ok::<Option<CompositeRoute>, BackendError>(
                    if self.windows_audio is Open {
                        Some(CompositeRoute::WindowsAudio)
                    } else {
                        None
                    },
                ),
            },
    {
        match self.pipewire {
            Child::Missing => Err(BackendError::unsupported("PipeWire backend is unavailable")),
            _ => Ok(self.effect_list_backend()),
        }
    }

    /// Decides whether a video request can be made; only PipeWire carries
    /// video.
    pub fn video_backend(&self, request: VideoRequest) -> (r: Result<(), BackendError>)
        ensures
            match self.pipewire {
                Child::Open(_) => r is Ok,
                Child::Missing => r matches Err(e) && e@ == BackendErrorView::Unsupported(
                    "PipeWire backend is unavailable"@,
                ),
                Child::Disabled => r matches Err(e) && e@ == BackendErrorView::Unsupported(
                    video_need(request),
                ),
            },
    {
        match self.pipewire {
            Child::Open(_) => Ok(()),
            Child::Missing => Err(BackendError::unsupported("PipeWire backend is unavailable")),
            Child::Disabled => Err(
                BackendError::unsupported(
                    match request {
                        VideoRequest::Filter => "video filters need the PipeWire backend",
                        VideoRequest::ScreenCapture => "screen capture needs the PipeWire backend",
                        VideoRequest::VirtualDisplay =>
                            "virtual displays need the PipeWire backend",
                    },
                ),
            ),
        }
    }

    /// Decides whether a relay request can be made.
    pub fn relay_backend(&self) -> (r: Result<CompositeRoute, BackendError>)
        ensures
            match r {
                Ok(route) => (self.pipewire is Open && route is PipeWire) || (!(
                self.pipewire is Open) && self.windows_audio is Open && route is WindowsAudio),
                Err(e) => !(self.pipewire is Open) && !(self.windows_audio is Open) && e@
                    == BackendErrorView::Unsupported(
                    "audio relay is not available for this backend"@,
                ),
            },
    {
        match self.audio_backend() {
            Some(route) => Ok(route),
            None => Err(BackendError::unsupported("audio relay is not available for this backend")),
        }
    }

    /// Decides which backend makes a recorder.
    pub fn route_create_recorder(&self) -> (r: Result<CompositeRoute, BackendError>)
        ensures
            match r {
                Ok(route) => (self.pipewire is Open && route is PipeWire) || (!(
                self.pipewire is Open) && self.windows_audio is Open && route is WindowsAudio),
                Err(e) => !(self.pipewire is Open) && !(self.windows_audio is Open) && e@
                    == BackendErrorView::Unsupported("recorder backend is unavailable"@),
            },
    {
        match self.audio_backend() {
            Some(route) => Ok(route),
            None => Err(BackendError::unsupported("recorder backend is unavailable")),
        }
    }

    /// Remembers which backend made a recorder.
    pub fn recorder_created(&mut self, id: u64, route: CompositeRoute)
        ensures
            final(self).recorder_owners@ == old(self).recorder_owners@.insert(id, route),
            final(self).graph == old(self).graph,
            final(self).pipewire == old(self).pipewire,
            final(self).alsa == old(self).alsa,
            final(self).windows_audio == old(self).windows_audio,
            final(self).windows_midi == old(self).windows_midi,
    {
        self.recorder_owners.insert(id, route);
    }

    /// Decides which backend a recorder request goes to.
    pub fn route_recorder(&self, id: u64) -> (r: Result<CompositeRoute, BackendError>)
        ensures
            match recorder_route(*self, id) {
                Ok(route) => r == Ok::<CompositeRoute, BackendError>(route),
                Err(error) => r matches Err(e) && e@ == error,
            },
    {
        match self.recorder_owners.get(&id) {
            None => Err(
                BackendError::Native(concat2("unknown recorder ", decimal_text(id).as_str())),
            ),
            Some(route) => match *route {
                CompositeRoute::PipeWire => match self.pipewire {
                    Child::Disabled => Err(
                        BackendError::unsupported("recorder backend is unavailable"),
                    ),
                    Child::Missing => Err(
                        BackendError::unsupported("PipeWire backend is unavailable"),
                    ),
                    Child::Open(_) => Ok(CompositeRoute::PipeWire),
                },
                CompositeRoute::WindowsAudio => match self.windows_audio {
                    Child::Disabled => Err(
                        BackendError::unsupported("recorder backend is unavailable"),
                    ),
                    Child::Missing => Err(
                        BackendError::unsupported("Windows audio backend is unavailable"),
                    ),
                    Child::Open(_) => Ok(CompositeRoute::WindowsAudio),
                },
                _ => Err(BackendError::unsupported("recorder backend is unavailable")),
            },
        }
    }

    /// Decides what removing a recorder takes: a request to its backend, or
    /// nothing but forgetting it where that backend is no part of this build.
    pub fn route_remove_recorder(&self, id: u64) -> (r: Result<
        Option<CompositeRoute>,
        BackendError,
    >)
        ensures
            if self.recorder_owners@.contains_key(id) && removal_is_local(*self, id) {
                r == Ok::<Option<CompositeRoute>, BackendError>(None)
            } else {
                match recorder_route(*self, id) {
                    Ok(route) => r == Ok::<Option<CompositeRoute>, BackendError>(Some(route)),
                    Err(error) => r matches Err(e) && e@ == error,
                }
            },
    {
        if let Some(route) = self.recorder_owners.get(&id) {
            let local = match *route {
                CompositeRoute::PipeWire => matches!(self.pipewire, Child::Disabled),
                CompositeRoute::WindowsAudio => matches!(self.windows_audio, Child::Disabled),
                _ => false,
            };
            if local {
                return Ok(None);
            }
        }
        match self.route_recorder(id) {
            Ok(route) => Ok(Some(route)),
            Err(e) => Err(e),
        }
    }

    /// Forgets a recorder that was removed.
    pub fn recorder_removed(&mut self, id: u64)
        ensures
            final(self).recorder_owners@ == old(self).recorder_owners@.remove(id),
            final(self).graph == old(self).graph,
            final(self).pipewire == old(self).pipewire,
            final(self).alsa == old(self).alsa,
            final(self).windows_audio == old(self).windows_audio,
            final(self).windows_midi == old(self).windows_midi,
    {
        let ghost before = self.recorder_owners@;
        self.recorder_owners.remove(&id);
        assert(self.recorder_owners@ =~= before.remove(id));
    }
}

/// Where a recorder request goes, or what it is answered.
pub open spec fn recorder_route(c: CompositeDriver, id: u64) -> Result<
    CompositeRoute,
    BackendErrorView,
> {
    if !c.recorder_owners@.contains_key(id) {
        Err(BackendErrorView::Native("unknown recorder "@ + decimal(id as nat)))
    } else {
        match c.recorder_owners@[id] {
            CompositeRoute::PipeWire => match c.pipewire {
                Child::Disabled => Err(
                    BackendErrorView::Unsupported("recorder backend is unavailable"@),
                ),
                Child::Missing => Err(
                    BackendErrorView::Unsupported("PipeWire backend is unavailable"@),
                ),
                Child::Open(_) => Ok(CompositeRoute::PipeWire),
            },
            CompositeRoute::WindowsAudio => match c.windows_audio {
                Child::Disabled => Err(
                    BackendErrorView::Unsupported("recorder backend is unavailable"@),
                ),
                Child::Missing => Err(
                    BackendErrorView::Unsupported("Windows audio backend is unavailable"@),
                ),
                Child::Open(_) => Ok(CompositeRoute::WindowsAudio),
            },
            _ => Err(BackendErrorView::Unsupported("recorder backend is unavailable"@)),
        }
    }
}

/// The backend that ran the recorder is no part of this build.
pub open spec fn removal_is_local(c: CompositeDriver, id: u64) -> bool {
    match c.recorder_owners@[id] {
        CompositeRoute::PipeWire => c.pipewire is Disabled,
        CompositeRoute::WindowsAudio => c.windows_audio is Disabled,
        _ => false,
    }
}

/// A recorder that was made can be reached by the backend that made it, and
/// is unknown once it was removed.
pub proof fn law_recorders_stay_with_their_backend(c: CompositeDriver, d: CompositeDriver, id: u64)
    requires
        c.pipewire is Open,
        d.pipewire == c.pipewire,
        d.recorder_owners@ == c.recorder_owners@.insert(id, CompositeRoute::PipeWire),
    ensures
        recorder_route(d, id) == Ok::<CompositeRoute, BackendErrorView>(CompositeRoute::PipeWire),
        !d.recorder_owners@.remove(id).contains_key(id),
{
}

/// What each backend answers to a question.
#[derive(Clone, Copy, Debug, PartialEq, Eq, Structural)]
pub struct ChildAnswers {
    pub pipewire: bool,
    pub alsa: bool,
    pub windows_audio: bool,
    pub windows_midi: bool,
}

impl CompositeDriver {
    /// Some open backend says yes.
    pub fn any_child(&self, answers: ChildAnswers) -> (r: bool)
        ensures
            r == ((self.pipewire is Open && answers.pipewire) || (self.alsa is Open && answers.alsa)
                || (self.windows_audio is Open && answers.windows_audio) || (self.windows_midi
                is Open && answers.windows_midi)),
    {
        (self.has_pipewire() && answers.pipewire) || (self.has_alsa() && answers.alsa) || (
        self.has_windows_audio() && answers.windows_audio) || (self.has_windows_midi()
            && answers.windows_midi)
    }

    /// The backend that says how two ports can be connected. Of MIDI ports,
    /// and of ports of two backends, none says.
    pub fn route_connection_support(&self, output: PortId, input: PortId) -> (r: Option<
        CompositeRoute,
    >)
        ensures
            r == (match pair_route(output, input) {
                Ok(CompositeRoute::PipeWire) if self.pipewire is Open => Some(
                    CompositeRoute::PipeWire,
                ),
                Ok(CompositeRoute::WindowsAudio) if self.windows_audio is Open => Some(
                    CompositeRoute::WindowsAudio,
                ),
                _ => None,
            }),
    {
        match route_for_ports(output, input) {
            Ok(CompositeRoute::PipeWire) => if self.has_pipewire() {
                Some(CompositeRoute::PipeWire)
            } else {
                None
            },
            Ok(CompositeRoute::WindowsAudio) => if self.has_windows_audio() {
                Some(CompositeRoute::WindowsAudio)
            } else {
                None
            },
            _ => None,
        }
    }

    /// Whether a node can be routed, given what its backend says.
    pub fn node_supports_routing(&self, node: NodeId, native: bool) -> (r: bool)
        ensures
            r == (match owner_of(node.0) {
                Some(backend) => native && child_refusal(*self, route_to(backend)) is None,
                None => false,
            }),
    {
        match backend_for_node(node) {
            None => false,
            Some(backend) => self.child_node_supports_routing(backend, native),
        }
    }
}

/// Every backend has a route of its own.
pub proof fn law_routes_are_told_apart(a: BackendKind, b: BackendKind)
    ensures
        route_to(a) == route_to(b) ==> a == b,
        route_to(BackendKind::PipeWire) is PipeWire,
        route_to(BackendKind::AlsaMidi) is AlsaMidi,
        route_to(BackendKind::WindowsAudio) is WindowsAudio,
        route_to(BackendKind::WindowsMidi) is WindowsMidi,
        route_to(BackendKind::Demo) is Demo,
{
}

/// A route is open exactly where its own backend is; what a backend offers is
/// what it said when it was opened, and nothing where it is not open.
pub proof fn law_open_backends(c: CompositeDriver)
    ensures
        child_refusal(c, CompositeRoute::PipeWire) is None <==> c.pipewire is Open,
        child_refusal(c, CompositeRoute::AlsaMidi) is None <==> c.alsa is Open,
        child_refusal(c, CompositeRoute::WindowsAudio) is None <==> c.windows_audio is Open,
        child_refusal(c, CompositeRoute::WindowsMidi) is None <==> c.windows_midi is Open,
        child_refusal(c, CompositeRoute::Demo) is Some,
        c.pipewire matches Child::Open(offer) ==> offered_by(c, BackendKind::PipeWire) == offer,
        c.alsa matches Child::Open(offer) ==> offered_by(c, BackendKind::AlsaMidi) == offer,
        c.windows_audio matches Child::Open(offer) ==> offered_by(c, BackendKind::WindowsAudio)
            == offer,
        c.windows_midi matches Child::Open(offer) ==> offered_by(c, BackendKind::WindowsMidi)
            == offer,
        !(c.pipewire is Open) ==> offered_by(c, BackendKind::PipeWire)
            == BackendCapabilities::none(),
        !(c.alsa is Open) ==> offered_by(c, BackendKind::AlsaMidi) == BackendCapabilities::none(),
        offered_by(c, BackendKind::Demo) == BackendCapabilities::none(),
{
}

/// What backends can do together is what one of them can do.
pub proof fn law_joined_capabilities(a: BackendCapabilities, b: BackendCapabilities)
    ensures
        ({
            let both = a.joined(b);
            &&& both.topology <==> a.topology || b.topology
            &&& both.connect <==> a.connect || b.connect
            &&& both.disconnect <==> a.disconnect || b.disconnect
            &&& both.volume <==> a.volume || b.volume
            &&& both.mute <==> a.mute || b.mute
            &&& both.meters <==> a.meters || b.meters
            &&& both.effects <==> a.effects || b.effects
            &&& both.relay <==> a.relay || b.relay
            &&& both.recorders <==> a.recorders || b.recorders
        }),
        !BackendCapabilities::none().connect && !BackendCapabilities::none().topology
            && !BackendCapabilities::none().disconnect && !BackendCapabilities::none().volume
            && !BackendCapabilities::none().mute && !BackendCapabilities::none().meters
            && !BackendCapabilities::none().effects && !BackendCapabilities::none().relay
            && !BackendCapabilities::none().recorders,
{
}

/// A link goes where its number belongs; a number of nobody goes where both of
/// its ports belong, and nowhere where they do not belong together.
pub proof fn law_link_routes(link: Link, backend: BackendKind)
    ensures
        owner_of(link.id.0) == Some(backend) ==> link_route(link) == Some(route_to(backend)),
        owner_of(link.id.0) is None && owner_of(link.output_port.0) == Some(backend) && owner_of(
            link.input_port.0,
        ) == Some(backend) ==> link_route(link) == Some(route_to(backend)),
        owner_of(link.id.0) is None && owner_of(link.output_port.0) != owner_of(link.input_port.0)
            ==> link_route(link) is None,
{
    law_only_pairs_of_one_backend_are_routed(link.output_port, link.input_port);
}

/// Volume and mute go to the open backend of the node; nodes of MIDI have
/// neither.
pub proof fn law_control_routes(c: CompositeDriver, node: NodeId, control: Seq<char>)
    ensures
        match control_route(c, node, control) {
            Ok(route) => {
                &&& owner_of(node.0) matches Some(backend)
                &&& route == route_to(backend)
                &&& !(backend is AlsaMidi) && !(backend is WindowsMidi)
                &&& child_refusal(c, route) is None
            },
            Err(_) => {
                ||| owner_of(node.0) is None
                ||| owner_of(node.0)->Some_0 is AlsaMidi
                ||| owner_of(node.0)->Some_0 is WindowsMidi
                ||| child_refusal(c, route_to(owner_of(node.0)->Some_0)) is Some
            },
        },
{
}

/// A recorder is reached through the backend that owns it, where that is open;
/// it is removed here where its backend is gone.
pub proof fn law_recorder_routes(c: CompositeDriver, id: u64)
    ensures
        recorder_route(c, id) matches Ok(route) ==> c.recorder_owners@.contains_key(id)
            && c.recorder_owners@[id] == route,
        c.recorder_owners@.contains_key(id) && c.recorder_owners@[id] is PipeWire ==> (
        recorder_route(c, id) is Ok <==> c.pipewire is Open) && (removal_is_local(c, id)
            <==> c.pipewire is Disabled),
        c.recorder_owners@.contains_key(id) && c.recorder_owners@[id] is WindowsAudio ==> (
        recorder_route(c, id) is Ok <==> c.windows_audio is Open) && (removal_is_local(c, id)
            <==> c.windows_audio is Disabled),
        !c.recorder_owners@.contains_key(id) ==> recorder_route(c, id) is Err,
{
}

/// A backend that opened counts as there; one that failed leaves its reason,
/// behind those before it, and changes nothing else.
pub proof fn law_recorded_backends(
    a: BackendAvailabilityView,
    backend: BackendKind,
    reason: Seq<char>,
)
    ensures
        ({
            let failed = a.recorded(backend, Some(reason));
            &&& failed.failures == a.failures.push(reason)
            &&& failed.pipewire == a.pipewire && failed.alsa == a.alsa && failed.windows_audio
                == a.windows_audio && failed.windows_midi == a.windows_midi
        }),
        a.recorded(BackendKind::PipeWire, None).pipewire,
        a.recorded(BackendKind::AlsaMidi, None).alsa,
        a.recorded(BackendKind::WindowsAudio, None).windows_audio,
        a.recorded(BackendKind::WindowsMidi, None).windows_midi,
        a.recorded(backend, None).failures == a.failures,
        !(backend is PipeWire) ==> a.recorded(backend, None).pipewire == a.pipewire,
        !(backend is AlsaMidi) ==> a.recorded(backend, None).alsa == a.alsa,
        !(backend is WindowsAudio) ==> a.recorded(backend, None).windows_audio == a.windows_audio,
        !(backend is WindowsMidi) ==> a.recorded(backend, None).windows_midi == a.windows_midi,
{
}

} // verus!
