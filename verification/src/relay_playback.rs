//! The automatic route from the relay's source device to a playback sink.
use crate::graph::{Graph, GraphView};
use crate::ids::{LinkId, NodeId, PortId};
use crate::lists::{kept, lemma_kept_step};
use crate::metering::list_contains;
use crate::model::{opt_text, Link, NodeView};
use crate::registry::{RegistryState, RegistryView};
use crate::relay_ports::{
    find_relay_source_ports, find_sink_input_ports, is_named_class_sink, is_relay_device_node,
    named_class_is_sink, node_keys, node_takes_input, opt_node, relay_name, relay_outputs,
    sink_inputs, takes_audio, takes_input,
};
use crate::samples::{clamp_gain, held, MAX_GAIN, SILENCE, UNITY};
use crate::table::{
    first_key, first_of, keys_of, lemma_first_found, lemma_none_found, lemma_push_contains,
    lists_domain,
};
use crate::text::{concat2, text_eq};
use vstd::prelude::*;

verus! {

broadcast use vstd::std_specs::btree::group_btree_axioms;

/// How far the playback route has come.
#[derive(Debug, PartialEq, Eq)]
pub enum RelayPlaybackState {
    Disabled,
    WaitingForSink,
    Connected,
    Error(String),
}

/// The contents of a [`RelayPlaybackState`].
pub enum RelayPlaybackStateView {
    Disabled,
    WaitingForSink,
    Connected,
    Error(Seq<char>),
}

impl View for RelayPlaybackState {
    type V = RelayPlaybackStateView;

    open spec fn view(&self) -> RelayPlaybackStateView {
        match self {
            RelayPlaybackState::Disabled => RelayPlaybackStateView::Disabled,
            RelayPlaybackState::WaitingForSink => RelayPlaybackStateView::WaitingForSink,
            RelayPlaybackState::Connected => RelayPlaybackStateView::Connected,
            RelayPlaybackState::Error(message) => RelayPlaybackStateView::Error(message@),
        }
    }
}

/// What is shown for a state.
pub open spec fn playback_state_text(state: RelayPlaybackStateView) -> Seq<char> {
    match state {
        RelayPlaybackStateView::Disabled => "Disabled"@,
        RelayPlaybackStateView::WaitingForSink => "Waiting for output device"@,
        RelayPlaybackStateView::Connected => "Connected"@,
        RelayPlaybackStateView::Error(message) => "Error: "@ + message,
    }
}

impl Default for RelayPlaybackState {
    fn default() -> (r: RelayPlaybackState)
        ensures
            r@ == RelayPlaybackStateView::Disabled,
    {
        RelayPlaybackState::Disabled
    }
}

impl RelayPlaybackState {
    /// What is shown for the state.
    pub fn to_text(&self) -> (r: String)
        ensures
            r@ == playback_state_text(self@),
    {
        match self {
            RelayPlaybackState::Disabled => "Disabled".to_owned(),
            RelayPlaybackState::WaitingForSink => "Waiting for output device".to_owned(),
            RelayPlaybackState::Connected => "Connected".to_owned(),
            RelayPlaybackState::Error(message) => concat2("Error: ", message.as_str()),
        }
    }
}

/// Peak and RMS of one side of the gain stage, each as the bit pattern of a
/// 32-bit floating point number.
#[derive(Clone, Copy, Debug, PartialEq, Eq, Structural)]
pub struct LevelBits {
    pub rms: u32,
    pub peak: u32,
}

/// What the control side and the audio callback of the playback route share.
/// The gain and the levels are bit patterns of 32-bit floating point numbers.
#[derive(Clone, Copy, Debug, PartialEq, Eq, Structural)]
pub struct RelayPlaybackShared {
    pub gain_bits: u32,
    pub muted: bool,
    pub enabled: bool,
    pub input: LevelBits,
    pub output: LevelBits,
    pub smoothed_input: LevelBits,
    pub smoothed_output: LevelBits,
}

/// What is noted in the shared state.
pub enum SharedChange {
    Gain(u32),
    Muted(bool),
    Enabled(bool),
    /// The levels before the gain stage: those of the block, and the smoothed
    /// ones.
    Input(LevelBits, LevelBits),
    /// The levels behind the gain stage.
    Output(LevelBits, LevelBits),
}

impl RelayPlaybackShared {
    /// The state after a change.
    pub open spec fn after(self, change: SharedChange) -> RelayPlaybackShared {
        match change {
            SharedChange::Gain(gain) => RelayPlaybackShared {
                gain_bits: held(gain, MAX_GAIN),
                ..self
            },
            SharedChange::Muted(muted) => RelayPlaybackShared { muted, ..self },
            SharedChange::Enabled(enabled) => RelayPlaybackShared { enabled, ..self },
            SharedChange::Input(level, smoothed) => RelayPlaybackShared {
                input: level,
                smoothed_input: smoothed,
                ..self
            },
            SharedChange::Output(level, smoothed) => RelayPlaybackShared {
                output: level,
                smoothed_output: smoothed,
                ..self
            },
        }
    }

    /// The state after changes, one after the other.
    pub open spec fn after_all(self, changes: Seq<SharedChange>) -> RelayPlaybackShared
        decreases changes.len(),
    {
        if changes.len() == 0 {
            self
        } else {
            self.after_all(changes.drop_last()).after(changes.last())
        }
    }

    /// Unity gain, not muted, enabled, silent.
    pub fn new() -> (r: RelayPlaybackShared)
        ensures
            r.gain_bits == UNITY,
            !r.muted,
            r.enabled,
            r.input == (LevelBits { rms: 0, peak: 0 }),
            r.output == (LevelBits { rms: 0, peak: 0 }),
            r.smoothed_input == (LevelBits { rms: 0, peak: 0 }),
            r.smoothed_output == (LevelBits { rms: 0, peak: 0 }),
    {
        let silent = LevelBits { rms: 0, peak: 0 };
        RelayPlaybackShared {
            gain_bits: UNITY,
            muted: false,
            enabled: true,
            input: silent,
            output: silent,
            smoothed_input: silent,
            smoothed_output: silent,
        }
    }

    pub fn muted(&self) -> (r: bool)
        ensures
            r == self.muted,
    {
        self.muted
    }

    pub fn set_muted(&mut self, muted: bool)
        ensures
            *final(self) == old(self).after(SharedChange::Muted(muted)),
    {
        self.muted = muted;
    }

    pub fn enabled(&self) -> (r: bool)
        ensures
            r == self.enabled,
    {
        self.enabled
    }

    pub fn set_enabled(&mut self, enabled: bool)
        ensures
            *final(self) == old(self).after(SharedChange::Enabled(enabled)),
    {
        self.enabled = enabled;
    }

    pub fn gain(&self) -> (r: u32)
        ensures
            r == self.gain_bits,
    {
        self.gain_bits
    }

    /// Stores a gain, held within its range.
    pub fn set_gain(&mut self, gain: u32)
        ensures
            *final(self) == old(self).after(SharedChange::Gain(gain)),
    {
        self.gain_bits = clamp_gain(gain);
    }

    /// The gain that the callback applies: nothing where muted.
    pub fn effective_gain_bits(&self) -> (r: u32)
        ensures
            r == (if self.muted {
                SILENCE
            } else {
                self.gain_bits
            }),
    {
        if self.muted {
            SILENCE
        } else {
            self.gain_bits
        }
    }

    /// Stores the levels before the gain stage.
    pub fn update_input(&mut self, level: LevelBits, smoothed: LevelBits)
        ensures
            *final(self) == old(self).after(SharedChange::Input(level, smoothed)),
    {
        self.input = level;
        self.smoothed_input = smoothed;
    }

    /// Stores the levels behind the gain stage.
    pub fn update_output(&mut self, level: LevelBits, smoothed: LevelBits)
        ensures
            *final(self) == old(self).after(SharedChange::Output(level, smoothed)),
    {
        self.output = level;
        self.smoothed_output = smoothed;
    }
}

/// The route from the relay's source device to the preferred sink, else to a
/// default one.
#[derive(Debug, PartialEq, Eq)]
pub struct RelayPlaybackRouter {
    pub preferred_sink_name: Option<String>,
    pub preferred_sink_serial: Option<u64>,
    pub enabled: bool,
    pub state: RelayPlaybackState,
    pub current_sink_name: Option<String>,
    pub current_sink_serial: Option<u64>,
    /// The links that were made for the route.
    pub link_ids: Vec<u64>,
}

/// The contents of a [`RelayPlaybackRouter`].
#[verifier::ext_equal]
pub struct RelayPlaybackRouterView {
    pub preferred_sink_name: Option<Seq<char>>,
    pub preferred_sink_serial: Option<u64>,
    pub enabled: bool,
    pub state: RelayPlaybackStateView,
    pub current_sink_name: Option<Seq<char>>,
    pub current_sink_serial: Option<u64>,
    pub link_ids: Seq<u64>,
}

impl View for RelayPlaybackRouter {
    type V = RelayPlaybackRouterView;

    open spec fn view(&self) -> RelayPlaybackRouterView {
        RelayPlaybackRouterView {
            preferred_sink_name: opt_text(self.preferred_sink_name),
            preferred_sink_serial: self.preferred_sink_serial,
            enabled: self.enabled,
            state: self.state@,
            current_sink_name: opt_text(self.current_sink_name),
            current_sink_serial: self.current_sink_serial,
            link_ids: self.link_ids@,
        }
    }
}

/// The node with the preferred serial number, where it can take playback.
pub open spec fn preferred_by_serial(
    g: GraphView,
    state: RegistryView,
    serial: Option<u64>,
    n: NodeView,
) -> bool {
    serial is Some && n.serial == serial && !relay_name(n.name) && (named_class_is_sink(
        state,
        n.name,
    ) || takes_input(g, n))
}

/// The node with the preferred name.
pub open spec fn preferred_by_name(name: Option<Seq<char>>, n: NodeView) -> bool {
    Some(n.name) == name && !relay_name(n.name)
}

/// A node that can take playback by its class or by its audio inputs.
pub open spec fn ordinary_sink(g: GraphView, state: RegistryView, n: NodeView) -> bool {
    !relay_name(n.name) && (named_class_is_sink(state, n.name) || takes_audio(g, n))
}

/// A node with any input.
pub open spec fn last_resort(g: GraphView, n: NodeView) -> bool {
    !relay_name(n.name) && takes_input(g, n)
}

/// Two choices, the first of which wins.
pub open spec fn or_choice(a: Option<u64>, b: Option<u64>) -> Option<u64> {
    if a is Some {
        a
    } else {
        b
    }
}

impl RelayPlaybackRouterView {
    /// The sink that the route should end at: the preferred one by serial
    /// number, then by name, else the first ordinary sink, else the first
    /// node with an input. The relay's own devices never qualify.
    pub open spec fn target_sink(self, g: GraphView, state: RegistryView) -> Option<NodeId> {
        opt_node(
            or_choice(
                first_of(
                    g.nodes,
                    |n: NodeView| preferred_by_serial(g, state, self.preferred_sink_serial, n),
                ),
                or_choice(
                    first_of(
                        g.nodes,
                        |n: NodeView| preferred_by_name(self.preferred_sink_name, n),
                    ),
                    or_choice(
                        first_of(g.nodes, |n: NodeView| ordinary_sink(g, state, n)),
                        first_of(g.nodes, |n: NodeView| last_resort(g, n)),
                    ),
                ),
            ),
        )
    }

    /// The router after routing was switched off.
    pub open spec fn switched_off(self) -> RelayPlaybackRouterView {
        RelayPlaybackRouterView {
            link_ids: Seq::empty(),
            state: RelayPlaybackStateView::Disabled,
            current_sink_name: None,
            ..self
        }
    }

    /// The router without a route. Where both ends are there their channels
    /// could not be told apart.
    pub open spec fn stalled(self, ambiguous: bool) -> RelayPlaybackRouterView {
        RelayPlaybackRouterView {
            state: if ambiguous {
                RelayPlaybackStateView::Error(ambiguous_message())
            } else {
                RelayPlaybackStateView::WaitingForSink
            },
            current_sink_name: None,
            current_sink_serial: None,
            ..self
        }
    }

    /// The router after a route was made; `linked` says whether both channels
    /// are.
    pub open spec fn finished(
        self,
        linked: bool,
        ids: Seq<u64>,
        sink_name: Seq<char>,
        sink_serial: Option<u64>,
    ) -> RelayPlaybackRouterView {
        RelayPlaybackRouterView {
            link_ids: ids,
            state: if linked {
                RelayPlaybackStateView::Connected
            } else {
                RelayPlaybackStateView::Error(partial_message())
            },
            current_sink_name: if linked {
                Some(sink_name)
            } else {
                None
            },
            current_sink_serial: if linked {
                sink_serial
            } else {
                None
            },
            ..self
        }
    }

    /// The stereo route that should exist: from the relay's outputs to the
    /// inputs of the target sink.
    pub open spec fn desired(self, g: GraphView, state: RegistryView) -> Option<
        ((PortId, PortId), (PortId, PortId), NodeId),
    > {
        if !self.enabled {
            None
        } else {
            match (relay_outputs(g), self.target_sink(g, state)) {
                (Some(from), Some(sink)) => match sink_inputs(g, sink) {
                    Some(to) => Some((from, to, sink)),
                    None => None,
                },
                _ => None,
            }
        }
    }
}

/// A playback route: left and right outputs, left and right inputs, and the
/// sink's name and serial number.
#[derive(Debug, PartialEq, Eq)]
pub struct PlaybackRoute {
    pub from: (PortId, PortId),
    pub to: (PortId, PortId),
    pub sink_name: String,
    pub sink_serial: Option<u64>,
}

/// The links that the route still has to make, and those it has.
#[derive(Debug, PartialEq, Eq)]
pub struct PlaybackTask {
    /// Left, then right.
    pub pairs: [(PortId, PortId); 2],
    /// Which of the two stood already when the task began.
    pub present: [bool; 2],
    /// How many of the two are dealt with.
    pub next: usize,
    pub link_ids: Vec<u64>,
    pub created: bool,
    pub sink_name: String,
    pub sink_serial: Option<u64>,
}

/// What a reconciliation begins with.
#[derive(Debug, PartialEq, Eq)]
pub enum PlaybackStart {
    /// The route is off: these links have to go, and nothing else is to do.
    Remove(Vec<u64>),
    /// There is nothing to do; the router's state says why.
    Settled,
    /// The route has to be made or checked.
    Connect(PlaybackTask),
}

/// What a task does next.
#[derive(Clone, Copy, Debug, PartialEq, Eq, Structural)]
pub enum PlaybackStep {
    /// Connect the two ports and report the outcome.
    Connect(PortId, PortId),
    /// Every pair is dealt with.
    Linked,
}

/// The message for a sink whose channels cannot be told apart.
pub open spec fn ambiguous_message() -> Seq<char> {
    "Relay playback route failed: stereo channel mapping is ambiguous (missing FL/FR channel metadata)"@
}

/// The message for a route of which a link is missing.
pub open spec fn partial_message() -> Seq<char> {
    "Relay playback route failed: partial stereo route (only one channel linked)"@
}

/// The links of a list that the graph still has, in their order and each of
/// them once: where it first stood.
pub open spec fn alive(g: GraphView, ids: Seq<u64>) -> Seq<u64>
    decreases ids.len(),
{
    if ids.len() == 0 {
        Seq::empty()
    } else {
        let before = alive(g, ids.drop_last());
        if g.links.contains_key(ids.last()) && !before.contains(ids.last()) {
            before.push(ids.last())
        } else {
            before
        }
    }
}

/// Tracked links exist, none of them stands twice, and no link that exists is
/// lost. Tracking them again changes nothing.
pub proof fn law_tracked_links_are_valid(g: GraphView, ids: Seq<u64>)
    ensures
        alive(g, ids).no_duplicates(),
        forall|k: u64| #[trigger]
            alive(g, ids).contains(k) <==> ids.contains(k) && g.links.contains_key(k),
        alive(g, alive(g, ids)) == alive(g, ids),
    decreases ids.len(),
{
    if ids.len() > 0 {
        let rest = ids.drop_last();
        let before = alive(g, rest);
        let last = ids.last();
        law_tracked_links_are_valid(g, rest);
        assert(rest.push(last) =~= ids);
        assert forall|k: u64| #[trigger] alive(g, ids).contains(k) <==> ids.contains(k)
            && g.links.contains_key(k) by {
            lemma_push_contains(rest, last, k);
            lemma_push_contains(before, last, k);
        }
        assert(before.push(last).drop_last() =~= before);
    }
}

/// The first link between two ports.
pub open spec fn joining(g: GraphView, src: PortId, dst: PortId) -> Option<u64> {
    first_of(g.links, |l: Link| l.output_port == src && l.input_port == dst)
}

/// The first link between two ports joins them.
pub proof fn lemma_joining_holds(g: GraphView, src: PortId, dst: PortId)
    ensures
        joining(g, src, dst) matches Some(k) ==> g.links.contains_key(k)
            && g.links[k].output_port == src && g.links[k].input_port == dst,
{
    let p = |l: Link| l.output_port == src && l.input_port == dst;
    if exists|k: u64| first_key(g.links, p, k) {
        let c = choose|k: u64| first_key(g.links, p, k);
        assert(first_key(g.links, p, c));
    }
}

/// Finds the first link between two ports.
pub fn find_joining(graph: &Graph, src: PortId, dst: PortId) -> (r: Option<u64>)
    ensures
        r == joining(graph@, src, dst),
        r is Some <==> graph@.connected(src, dst),
{
    let keys = keys_of(&graph.links);
    let ghost p = |l: Link| l.output_port == src && l.input_port == dst;
    let mut i: usize = 0;
    while i < keys.len()
        invariant
            i <= keys.len(),
            lists_domain(keys@, graph@.links),
            p == (|l: Link| l.output_port == src && l.input_port == dst),
            forall|j: int| 0 <= j < i ==> !p(#[trigger] graph@.links[keys@[j]]),
        decreases keys.len() - i,
    {
        let k: u64 = keys[i];
        assert(keys@.contains(k));
        if let Some(link) = graph.links.get(&k) {
            if link.output_port == src && link.input_port == dst {
                proof {
                    lemma_first_found(keys@, graph@.links, p, i as int);
                    assert(graph@.links.contains_key(k));
                }
                return Some(k);
            }
        }
        i = i + 1;
    }
    proof {
        lemma_none_found(keys@, graph@.links, p);
        if graph@.connected(src, dst) {
            let k = choose|k: u64| #[trigger]
                graph@.links.contains_key(k) && graph@.links[k].output_port == src
                    && graph@.links[k].input_port == dst;
            assert(!p(graph@.links[k]));
        }
    }
    None
}

/// The links of a list that the graph still has, each of them once.
pub fn alive_links(graph: &Graph, ids: &Vec<u64>) -> (r: Vec<u64>)
    ensures
        r@ == alive(graph@, ids@),
        r@.no_duplicates(),
        forall|k: u64| #[trigger]
            r@.contains(k) <==> ids@.contains(k) && graph@.links.contains_key(k),
{
    let mut out: Vec<u64> = Vec::new();
    let mut i: usize = 0;
    while i < ids.len()
        invariant
            i <= ids.len(),
            out@ == alive(graph@, ids@.take(i as int)),
        decreases ids.len() - i,
    {
        proof {
            assert(ids@.take(i + 1).drop_last() =~= ids@.take(i as int));
        }
        let k: u64 = ids[i];
        if graph.links.contains_key(&k) && !list_contains(&out, k) {
            out.push(k);
        }
        i = i + 1;
    }
    assert(ids@.take(ids@.len() as int) == ids@);
    proof {
        law_tracked_links_are_valid(graph@, ids@);
    }
    out
}

impl RelayPlaybackRouter {
    /// An enabled router without a preference.
    pub fn new() -> (r: RelayPlaybackRouter)
        ensures
            r@ == (RelayPlaybackRouterView {
                preferred_sink_name: None,
                preferred_sink_serial: None,
                enabled: true,
                state: RelayPlaybackStateView::Disabled,
                current_sink_name: None,
                current_sink_serial: None,
                link_ids: Seq::empty(),
            }),
    {
        RelayPlaybackRouter {
            preferred_sink_name: None,
            preferred_sink_serial: None,
            enabled: true,
            state: RelayPlaybackState::Disabled,
            current_sink_name: None,
            current_sink_serial: None,
            link_ids: Vec::new(),
        }
    }

    pub fn set_enabled(&mut self, enabled: bool)
        ensures
            final(self)@ == (RelayPlaybackRouterView {
                enabled,
                state: if enabled {
                    old(self)@.state
                } else {
                    RelayPlaybackStateView::Disabled
                },
                ..old(self)@
            }),
    {
        self.enabled = enabled;
        if !enabled {
            self.state = RelayPlaybackState::Disabled;
        }
    }

    pub fn set_preferred_sink(&mut self, name: Option<String>, serial: Option<u64>)
        ensures
            final(self)@ == (RelayPlaybackRouterView {
                preferred_sink_name: opt_text(name),
                preferred_sink_serial: serial,
                ..old(self)@
            }),
    {
        self.preferred_sink_name = name;
        self.preferred_sink_serial = serial;
    }

    /// Finds the stereo outputs of the relay's source device.
    pub fn find_relay_source_ports(graph: &Graph) -> (r: Option<(PortId, PortId)>)
        ensures
            r == relay_outputs(graph@),
    {
        crate::relay_ports::find_relay_source_ports(graph)
    }

    /// Finds the inputs of a playback sink.
    pub fn find_sink_input_ports(graph: &Graph, sink_id: NodeId) -> (r: Option<(PortId, PortId)>)
        ensures
            r == sink_inputs(graph@, sink_id),
    {
        crate::relay_ports::find_sink_input_ports(graph, sink_id)
    }

    fn find_by_serial(&self, graph: &Graph, state: &RegistryState) -> (r: Option<u64>)
        requires
            graph.wf(),
        ensures
            r == first_of(
                graph@.nodes,
                |n: NodeView|
                    preferred_by_serial(graph@, state@, self@.preferred_sink_serial, n),
            ),
            r matches Some(k) ==> graph@.nodes.contains_key(k),
    {
        let keys = node_keys(graph);
        let ghost p = |n: NodeView|
            preferred_by_serial(graph@, state@, self@.preferred_sink_serial, n);
        let mut i: usize = 0;
        while i < keys.len()
            invariant
                i <= keys.len(),
                graph.wf(),
                lists_domain(keys@, graph@.nodes),
                p == (|n: NodeView|
                    preferred_by_serial(graph@, state@, self@.preferred_sink_serial, n)),
                forall|j: int| 0 <= j < i ==> !p(#[trigger] graph@.nodes[keys@[j]]),
            decreases keys.len() - i,
        {
            let k: u64 = keys[i];
            assert(keys@.contains(k));
            assert(graph@.nodes.contains_key(k));
            if let Some(node) = graph.node(NodeId(k)) {
                let same = match (self.preferred_sink_serial, node.serial) {
                    (Some(a), Some(b)) => a == b,
                    _ => false,
                };
                if same && !is_relay_device_node(node.name.as_str()) {
                    if is_named_class_sink(state, node.name.as_str()) || node_takes_input(
                        graph,
                        NodeId(k),
                        false,
                    ) {
                        proof {
                            lemma_first_found(keys@, graph@.nodes, p, i as int);
                        }
                        return Some(k);
                    }
                }
            }
            i = i + 1;
        }
        proof {
            lemma_none_found(keys@, graph@.nodes, p);
        }
        None
    }

    fn find_by_name(&self, graph: &Graph) -> (r: Option<u64>)
        ensures
            r == first_of(
                graph@.nodes,
                |n: NodeView| preferred_by_name(self@.preferred_sink_name, n),
            ),
            r matches Some(k) ==> graph@.nodes.contains_key(k),
    {
        let keys = node_keys(graph);
        let ghost p = |n: NodeView| preferred_by_name(self@.preferred_sink_name, n);
        let mut i: usize = 0;
        while i < keys.len()
            invariant
                i <= keys.len(),
                lists_domain(keys@, graph@.nodes),
                p == (|n: NodeView| preferred_by_name(self@.preferred_sink_name, n)),
                forall|j: int| 0 <= j < i ==> !p(#[trigger] graph@.nodes[keys@[j]]),
            decreases keys.len() - i,
        {
            let k: u64 = keys[i];
            assert(keys@.contains(k));
            if let Some(node) = graph.node(NodeId(k)) {
                let same = match &self.preferred_sink_name {
                    Some(name) => text_eq(node.name.as_str(), name.as_str()),
                    None => false,
                };
                if same && !is_relay_device_node(node.name.as_str()) {
                    proof {
                        lemma_first_found(keys@, graph@.nodes, p, i as int);
                    }
                    return Some(k);
                }
            }
            i = i + 1;
        }
        proof {
            lemma_none_found(keys@, graph@.nodes, p);
        }
        None
    }

    fn find_ordinary(graph: &Graph, state: &RegistryState) -> (r: Option<u64>)
        ensures
            r == first_of(graph@.nodes, |n: NodeView| ordinary_sink(graph@, state@, n)),
            r matches Some(k) ==> graph@.nodes.contains_key(k),
    {
        let keys = node_keys(graph);
        let ghost p = |n: NodeView| ordinary_sink(graph@, state@, n);
        let mut i: usize = 0;
        while i < keys.len()
            invariant
                i <= keys.len(),
                lists_domain(keys@, graph@.nodes),
                p == (|n: NodeView| ordinary_sink(graph@, state@, n)),
                forall|j: int| 0 <= j < i ==> !p(#[trigger] graph@.nodes[keys@[j]]),
            decreases keys.len() - i,
        {
            let k: u64 = keys[i];
            assert(keys@.contains(k));
            if let Some(node) = graph.node(NodeId(k)) {
                if !is_relay_device_node(node.name.as_str()) && (is_named_class_sink(
                    state,
                    node.name.as_str(),
                ) || node_takes_input(graph, NodeId(k), true)) {
                    proof {
                        lemma_first_found(keys@, graph@.nodes, p, i as int);
                    }
                    return Some(k);
                }
            }
            i = i + 1;
        }
        proof {
            lemma_none_found(keys@, graph@.nodes, p);
        }
        None
    }

    fn find_last_resort(graph: &Graph) -> (r: Option<u64>)
        ensures
            r == first_of(graph@.nodes, |n: NodeView| last_resort(graph@, n)),
            r matches Some(k) ==> graph@.nodes.contains_key(k),
    {
        let keys = node_keys(graph);
        let ghost p = |n: NodeView| last_resort(graph@, n);
        let mut i: usize = 0;
        while i < keys.len()
            invariant
                i <= keys.len(),
                lists_domain(keys@, graph@.nodes),
                p == (|n: NodeView| last_resort(graph@, n)),
                forall|j: int| 0 <= j < i ==> !p(#[trigger] graph@.nodes[keys@[j]]),
            decreases keys.len() - i,
        {
            let k: u64 = keys[i];
            assert(keys@.contains(k));
            if let Some(node) = graph.node(NodeId(k)) {
                if !is_relay_device_node(node.name.as_str()) && node_takes_input(
                    graph,
                    NodeId(k),
                    false,
                ) {
                    proof {
                        lemma_first_found(keys@, graph@.nodes, p, i as int);
                    }
                    return Some(k);
                }
            }
            i = i + 1;
        }
        proof {
            lemma_none_found(keys@, graph@.nodes, p);
        }
        None
    }

    /// Finds the sink that the route should end at, with its name and serial
    /// number.
    pub fn find_target_sink(&self, graph: &Graph, state: &RegistryState) -> (r: Option<
        (NodeId, String, Option<u64>),
    >)
        requires
            graph.wf(),
        ensures
            match r {
                Some((id, name, serial)) => self@.target_sink(graph@, state@) == Some(id)
                    && graph@.has_node(id) && name@ == graph@.node(id).name && serial
                    == graph@.node(id).serial,
                None => self@.target_sink(graph@, state@) is None,
            },
    {
        let found = match self.find_by_serial(graph, state) {
            Some(k) => Some(k),
            None => match self.find_by_name(graph) {
                Some(k) => Some(k),
                None => match Self::find_ordinary(graph, state) {
                    Some(k) => Some(k),
                    None => Self::find_last_resort(graph),
                },
            },
        };
        match found {
            None => None,
            Some(k) => match graph.node(NodeId(k)) {
                Some(node) => Some((NodeId(k), node.name.clone(), node.serial)),
                None => None,
            },
        }
    }

    /// Forgets the links that the graph no longer has, and those that are
    /// tracked twice.
    pub fn validate_links(&mut self, graph: &Graph)
        ensures
            final(self)@.link_ids.no_duplicates(),
            final(self)@ == (RelayPlaybackRouterView {
                link_ids: alive(graph@, old(self)@.link_ids),
                ..old(self)@
            }),
    {
        self.link_ids = alive_links(graph, &self.link_ids);
    }

    /// The stereo route that should exist.
    pub fn desired_links(&self, graph: &Graph, state: &RegistryState) -> (r: Option<PlaybackRoute>)
        requires
            graph.wf(),
        ensures
            match r {
                Some(route) => self@.desired(graph@, state@) matches Some((from, to, sink))
                    && route.from == from && route.to == to && graph@.has_node(sink)
                    && route.sink_name@ == graph@.node(sink).name && route.sink_serial
                    == graph@.node(sink).serial,
                None => self@.desired(graph@, state@) is None,
            },
    {
        if !self.enabled {
            return None;
        }
        let from = match find_relay_source_ports(graph) {
            Some(from) => from,
            None => {
                return None;
            },
        };
        match self.find_target_sink(graph, state) {
            None => None,
            Some((sink, sink_name, sink_serial)) => match find_sink_input_ports(graph, sink) {
                Some(to) => Some(PlaybackRoute { from, to, sink_name, sink_serial }),
                None => None,
            },
        }
    }

    /// Begins a reconciliation: forgets dead links, then either takes the
    /// route down, or settles why there is none, or hands out the links to
    /// make.
    pub fn begin_route(
        &mut self,
        graph: &Graph,
        state: &RegistryState,
        shared_enabled: bool,
    ) -> (r: PlaybackStart)
        requires
            graph.wf(),
        ensures
            ({
                let checked = RelayPlaybackRouterView {
                    link_ids: alive(graph@, old(self)@.link_ids),
                    ..old(self)@
                };
                if !old(self)@.enabled || !shared_enabled {
                    &&& r matches PlaybackStart::Remove(ids) && ids@ == checked.link_ids
                    &&& final(self)@ == checked.switched_off()
                } else {
                    match checked.desired(graph@, state@) {
                        None => {
                            &&& r is Settled
                            &&& final(self)@ == checked.stalled(
                                relay_outputs(graph@) is Some && checked.target_sink(
                                    graph@,
                                    state@,
                                ) is Some,
                            )
                        },
                        Some((from, to, sink)) => {
                            &&& r matches PlaybackStart::Connect(task) && task.wf() && task.next
                                == 0 && task.link_ids@ == Seq::<u64>::empty() && !task.created
                                && task.pairs@ == crate::relay_local::stereo(from, to)
                                && task.present@ == joined_pairs(graph@, task.pairs@)
                                && task.sink_name@ == graph@.node(sink).name && task.sink_serial
                                == graph@.node(sink).serial
                            &&& final(self)@ == checked
                        },
                    }
                }
            }),
    {
        self.validate_links(graph);
        if !self.enabled || !shared_enabled {
            let mut gone: Vec<u64> = Vec::new();
            std::mem::swap(&mut gone, &mut self.link_ids);
            self.state = RelayPlaybackState::Disabled;
            self.current_sink_name = None;
            return PlaybackStart::Remove(gone);
        }
        match self.desired_links(graph, state) {
            None => {
                let has_source = find_relay_source_ports(graph).is_some();
                let has_sink = self.find_target_sink(graph, state).is_some();
                if has_source && has_sink {
                    self.state = RelayPlaybackState::Error(
                        "Relay playback route failed: stereo channel mapping is ambiguous (missing FL/FR channel metadata)".to_owned(),
                    );
                } else {
                    self.state = RelayPlaybackState::WaitingForSink;
                }
                self.current_sink_name = None;
                self.current_sink_serial = None;
                PlaybackStart::Settled
            },
            Some(route) => {
                let left = (route.from.0, route.to.0);
                let right = (route.from.1, route.to.1);
                let present = [
                    graph.is_connected(left.0, left.1),
                    graph.is_connected(right.0, right.1),
                ];
                let task = PlaybackTask {
                    pairs: [left, right],
                    present,
                    next: 0,
                    link_ids: Vec::new(),
                    created: false,
                    sink_name: route.sink_name,
                    sink_serial: route.sink_serial,
                };
                assert(task.pairs@ =~= seq![left, right]);
                PlaybackStart::Connect(task)
            },
        }
    }

    /// Ends a task whose links could not be made. The links that the router
    /// knew of stay its own.
    pub fn route_failed(&mut self, error: &str)
        ensures
            final(self)@ == (RelayPlaybackRouterView {
                state: RelayPlaybackStateView::Error(
                    "Unable to create PipeWire link: "@ + error@,
                ),
                ..old(self)@
            }),
    {
        self.state = RelayPlaybackState::Error(concat2("Unable to create PipeWire link: ", error));
    }

    /// The links of an earlier route that are no longer wanted and still
    /// exist.
    pub fn stale_links(&self, graph: &Graph, task: &PlaybackTask) -> (r: Vec<u64>)
        ensures
            r@ == kept(
                self@.link_ids,
                |k: u64| !task.link_ids@.contains(k) && graph@.links.contains_key(k),
            ),
    {
        let ghost p = |k: u64| !task.link_ids@.contains(k) && graph@.links.contains_key(k);
        let mut out: Vec<u64> = Vec::new();
        let mut i: usize = 0;
        while i < self.link_ids.len()
            invariant
                i <= self.link_ids.len(),
                p == (|k: u64| !task.link_ids@.contains(k) && graph@.links.contains_key(k)),
                out@ == kept(self.link_ids@.take(i as int), p),
            decreases self.link_ids.len() - i,
        {
            proof {
                lemma_kept_step(self.link_ids@, p, i as int);
            }
            let k: u64 = self.link_ids[i];
            if !list_contains(&task.link_ids, k) && graph.links.contains_key(&k) {
                out.push(k);
            }
            i = i + 1;
        }
        assert(self.link_ids@.take(self.link_ids@.len() as int) == self.link_ids@);
        out
    }

    /// Ends a task by looking at the graph: only where both links exist is
    /// the route connected.
    pub fn finish_route(&mut self, graph: &Graph, task: PlaybackTask)
        requires
            task.wf(),
        ensures
            ({
                let linked = graph@.connected(task.pairs@[0].0, task.pairs@[0].1)
                    && graph@.connected(task.pairs@[1].0, task.pairs@[1].1);
                final(self)@ == old(self)@.finished(
                    linked,
                    task.link_ids@,
                    task.sink_name@,
                    task.sink_serial,
                )
            }),
    {
        let left = task.pairs[0];
        let right = task.pairs[1];
        let linked = graph.is_connected(left.0, left.1) && graph.is_connected(right.0, right.1);
        self.link_ids = task.link_ids;
        if linked {
            self.state = RelayPlaybackState::Connected;
            self.current_sink_name = Some(task.sink_name);
            self.current_sink_serial = task.sink_serial;
        } else {
            self.state = RelayPlaybackState::Error(
                "Relay playback route failed: partial stereo route (only one channel linked)".to_owned(),
            );
            self.current_sink_name = None;
            self.current_sink_serial = None;
        }
    }
}

/// The links found for the pairs `from..2` that stood when the task began.
pub open spec fn found_links(
    g: GraphView,
    pairs: Seq<(PortId, PortId)>,
    from: int,
    upto: int,
) -> Seq<u64>
    decreases upto - from,
{
    if from >= upto {
        Seq::empty()
    } else {
        let before = found_links(g, pairs, from, upto - 1);
        match joining(g, pairs[upto - 1].0, pairs[upto - 1].1) {
            Some(k) => before.push(k),
            None => before,
        }
    }
}

/// The first pair from `from` on that did not stand when the task began.
pub open spec fn first_missing(present: Seq<bool>, from: int) -> int
    decreases present.len() - from,
{
    if from >= present.len() || !present[from] {
        from
    } else {
        first_missing(present, from + 1)
    }
}

impl PlaybackTask {
    pub open spec fn wf(&self) -> bool {
        self.next <= 2
    }

    /// Goes on to the next pair that has to be connected. Pairs that stood
    /// when the task began are adopted with the link that joins them now.
    pub fn step(&mut self, graph: &Graph) -> (r: PlaybackStep)
        requires
            old(self).wf(),
        ensures
            final(self).wf(),
            final(self).pairs == old(self).pairs,
            final(self).present == old(self).present,
            final(self).created == old(self).created,
            final(self).sink_name == old(self).sink_name,
            final(self).sink_serial == old(self).sink_serial,
            final(self).next == first_missing(old(self).present@, old(self).next as int),
            final(self).link_ids@ == old(self).link_ids@ + found_links(
                graph@,
                old(self).pairs@,
                old(self).next as int,
                final(self).next as int,
            ),
            r == (if final(self).next < 2 {
                PlaybackStep::Connect(
                    old(self).pairs@[final(self).next as int].0,
                    old(self).pairs@[final(self).next as int].1,
                )
            } else {
                PlaybackStep::Linked
            }),
    {
        let ghost start = self.next as int;
        assert(self.link_ids@ =~= old(self).link_ids@ + found_links(
            graph@,
            self.pairs@,
            start,
            start,
        ));
        while self.next < 2 && self.present[self.next]
            invariant
                start == old(self).next,
                start <= self.next <= 2,
                self.pairs == old(self).pairs,
                self.present == old(self).present,
                self.created == old(self).created,
                self.sink_name == old(self).sink_name,
                self.sink_serial == old(self).sink_serial,
                first_missing(self.present@, self.next as int) == first_missing(
                    self.present@,
                    start,
                ),
                self.link_ids@ == old(self).link_ids@ + found_links(
                    graph@,
                    self.pairs@,
                    start,
                    self.next as int,
                ),
            decreases 2 - self.next,
        {
            let pair = self.pairs[self.next];
            let ghost ids = self.link_ids@;
            let ghost found = found_links(graph@, self.pairs@, start, self.next as int);
            if let Some(k) = find_joining(graph, pair.0, pair.1) {
                self.link_ids.push(k);
                assert(ids.push(k) =~= old(self).link_ids@ + found.push(k));
            }
            self.next = self.next + 1;
        }
        if self.next < 2 {
            let pair = self.pairs[self.next];
            PlaybackStep::Connect(pair.0, pair.1)
        } else {
            PlaybackStep::Linked
        }
    }

    /// Records that the pair at hand was connected.
    pub fn connected(&mut self, link: LinkId)
        requires
            old(self).next < 2,
        ensures
            final(self).wf(),
            final(self).pairs == old(self).pairs,
            final(self).present == old(self).present,
            final(self).sink_name == old(self).sink_name,
            final(self).sink_serial == old(self).sink_serial,
            final(self).created,
            final(self).next == old(self).next + 1,
            final(self).link_ids@ == old(self).link_ids@.push(link.0),
    {
        self.link_ids.push(link.0);
        self.created = true;
        self.next = self.next + 1;
    }
}

/// The relay's own devices are never the target of the playback route.
pub proof fn law_route_never_ends_at_the_relay(
    router: RelayPlaybackRouterView,
    g: GraphView,
    state: RegistryView,
)
    ensures
        router.target_sink(g, state) matches Some(id) ==> g.has_node(id) && !relay_name(
            g.node(id).name,
        ),
{
    let p1 = |n: NodeView| preferred_by_serial(g, state, router.preferred_sink_serial, n);
    let p2 = |n: NodeView| preferred_by_name(router.preferred_sink_name, n);
    let p3 = |n: NodeView| ordinary_sink(g, state, n);
    let p4 = |n: NodeView| last_resort(g, n);
    if let Some(k) = first_of(g.nodes, p1) {
        assert(first_key(g.nodes, p1, k));
    } else if let Some(k) = first_of(g.nodes, p2) {
        assert(first_key(g.nodes, p2, k));
    } else if let Some(k) = first_of(g.nodes, p3) {
        assert(first_key(g.nodes, p3, k));
    } else if let Some(k) = first_of(g.nodes, p4) {
        assert(first_key(g.nodes, p4, k));
    }
}

/// Where every desired link stands already, a reconciliation makes none: the
/// task reaches its end at once.
pub proof fn law_connected_route_is_left_alone(present: Seq<bool>, from: int)
    requires
        0 <= from <= present.len(),
        forall|i: int| from <= i < present.len() ==> present[i],
    ensures
        first_missing(present, from) == present.len(),
    decreases present.len() - from,
{
    if from < present.len() {
        law_connected_route_is_left_alone(present, from + 1);
    }
}

/// The node is none of the relay's devices.
pub open spec fn outside_relay(n: NodeView) -> bool {
    n.name != "qpwgraph-rs.relay.source"@ && n.name != "qpwgraph-rs.relay.sink"@
}

/// The node is a sink: the mirror classes it so, or one of its ports takes
/// something in.
pub open spec fn is_sink(g: GraphView, state: RegistryView, n: NodeView) -> bool {
    ||| crate::relay_ports::classed_as_sink(state, n.name)
    ||| exists|p: PortId| #[trigger]
        g.has_port(p) && g.port(p).node_id == n.id && g.port(p).direction
            == crate::model::Direction::Sink
}

/// The node is an ordinary sink: the mirror classes it so, or one of its ports
/// takes audio in.
pub open spec fn is_audio_sink(g: GraphView, state: RegistryView, n: NodeView) -> bool {
    ||| crate::relay_ports::classed_as_sink(state, n.name)
    ||| exists|p: PortId| #[trigger]
        g.has_port(p) && g.port(p).node_id == n.id && g.port(p).direction
            == crate::model::Direction::Sink && g.port(p).port_type
            == crate::model::PortType::Audio
}

proof fn lemma_sinks(g: GraphView, state: RegistryView, k: u64)
    requires
        g.wf(),
        g.nodes.contains_key(k),
    ensures
        (named_class_is_sink(state, g.nodes[k].name) || takes_input(g, g.nodes[k])) == is_sink(
            g,
            state,
            g.nodes[k],
        ),
        (named_class_is_sink(state, g.nodes[k].name) || takes_audio(g, g.nodes[k]))
            == is_audio_sink(g, state, g.nodes[k]),
{
    crate::relay_ports::law_classed_sinks(state, g.nodes[k].name);
    crate::relay_ports::law_taking_nodes(g, NodeId(k));
    assert(g.nodes[k].id == NodeId(k));
}

/// Where a sink outside the relay bears the preferred serial, the target bears
/// it.
pub proof fn law_preferred_serial_goes_first(
    router: RelayPlaybackRouterView,
    g: GraphView,
    state: RegistryView,
    serial: u64,
    k: u64,
)
    requires
        g.wf(),
        router.preferred_sink_serial == Some(serial),
        g.nodes.contains_key(k),
        g.nodes[k].serial == Some(serial),
        outside_relay(g.nodes[k]),
        is_sink(g, state, g.nodes[k]),
    ensures
        router.target_sink(g, state) matches Some(id) && g.has_node(id) && g.node(id).serial
            == Some(serial) && outside_relay(g.node(id)) && is_sink(g, state, g.node(id)) && id.0
            <= k,
{
    let p = |n: NodeView| preferred_by_serial(g, state, router.preferred_sink_serial, n);
    lemma_sinks(g, state, k);
    assert(p(g.nodes[k]));
    crate::table::lemma_first_exists(g.nodes, p, k);
    lemma_sinks(g, state, first_of(g.nodes, p)->Some_0);
}

/// Failing that, where a node outside the relay bears the preferred name, the
/// target bears it.
pub proof fn law_preferred_name_goes_next(
    router: RelayPlaybackRouterView,
    g: GraphView,
    state: RegistryView,
    name: Seq<char>,
    k: u64,
)
    requires
        g.wf(),
        forall|j: u64| #[trigger]
            g.nodes.contains_key(j) && outside_relay(g.nodes[j]) && is_sink(g, state, g.nodes[j])
                ==> router.preferred_sink_serial is None || g.nodes[j].serial
                != router.preferred_sink_serial,
        router.preferred_sink_name == Some(name),
        g.nodes.contains_key(k),
        g.nodes[k].name == name,
        outside_relay(g.nodes[k]),
    ensures
        router.target_sink(g, state) matches Some(id) && g.has_node(id) && g.node(id).name == name
            && id.0 <= k,
{
    let p = |n: NodeView| preferred_by_serial(g, state, router.preferred_sink_serial, n);
    let q = |n: NodeView| preferred_by_name(router.preferred_sink_name, n);
    lemma_no_preferred_serial(router, g, state);
    assert(q(g.nodes[k]));
    crate::table::lemma_first_exists(g.nodes, q, k);
}

proof fn lemma_no_preferred_serial(
    router: RelayPlaybackRouterView,
    g: GraphView,
    state: RegistryView,
)
    requires
        g.wf(),
        forall|j: u64| #[trigger]
            g.nodes.contains_key(j) && outside_relay(g.nodes[j]) && is_sink(g, state, g.nodes[j])
                ==> router.preferred_sink_serial is None || g.nodes[j].serial
                != router.preferred_sink_serial,
    ensures
        first_of(
            g.nodes,
            |n: NodeView| preferred_by_serial(g, state, router.preferred_sink_serial, n),
        ) is None,
{
    let p = |n: NodeView| preferred_by_serial(g, state, router.preferred_sink_serial, n);
    crate::table::law_first_of(g.nodes, p);
    if let Some(j) = first_of(g.nodes, p) {
        lemma_sinks(g, state, j);
        assert(g.nodes.contains_key(j));
    }
}

/// Only where no node outside the relay has the preferred serial or the
/// preferred name is another sink the target: the first that takes audio,
/// failing that the first that takes anything. There is no target just where
/// no node outside the relay is a sink.
pub proof fn law_other_sinks_come_last(
    router: RelayPlaybackRouterView,
    g: GraphView,
    state: RegistryView,
)
    requires
        g.wf(),
    ensures
        match router.target_sink(g, state) {
            Some(id) => {
                let n = g.node(id);
                &&& g.has_node(id)
                &&& outside_relay(n)
                &&& {
                    ||| router.preferred_sink_serial is Some && n.serial
                        == router.preferred_sink_serial && is_sink(g, state, n)
                    ||| router.preferred_sink_name == Some(n.name)
                    ||| is_sink(g, state, n) && forall|j: u64| #[trigger]
                        g.nodes.contains_key(j) && outside_relay(g.nodes[j]) ==> {
                            &&& router.preferred_sink_name != Some(g.nodes[j].name)
                            &&& router.preferred_sink_serial is None || g.nodes[j].serial
                                != router.preferred_sink_serial || !is_sink(g, state, g.nodes[j])
                            &&& is_audio_sink(g, state, g.nodes[j]) ==> is_audio_sink(g, state, n)
                                && id.0 <= j
                        }
                }
            },
            None => forall|j: u64| #[trigger]
                g.nodes.contains_key(j) && outside_relay(g.nodes[j]) ==> !is_sink(
                    g,
                    state,
                    g.nodes[j],
                ) && router.preferred_sink_name != Some(g.nodes[j].name),
        },
{
    let p = |n: NodeView| preferred_by_serial(g, state, router.preferred_sink_serial, n);
    let q = |n: NodeView| preferred_by_name(router.preferred_sink_name, n);
    let r = |n: NodeView| ordinary_sink(g, state, n);
    let s = |n: NodeView| last_resort(g, n);
    crate::table::law_first_of(g.nodes, p);
    crate::table::law_first_of(g.nodes, q);
    crate::table::law_first_of(g.nodes, r);
    crate::table::law_first_of(g.nodes, s);
    assert forall|j: u64| #[trigger] g.nodes.contains_key(j) implies {
        &&& p(g.nodes[j]) == (router.preferred_sink_serial is Some && g.nodes[j].serial
            == router.preferred_sink_serial && outside_relay(g.nodes[j]) && is_sink(
            g,
            state,
            g.nodes[j],
        ))
        &&& q(g.nodes[j]) == (router.preferred_sink_name == Some(g.nodes[j].name) && outside_relay(
            g.nodes[j],
        ))
        &&& r(g.nodes[j]) == (outside_relay(g.nodes[j]) && is_audio_sink(g, state, g.nodes[j]))
        &&& (r(g.nodes[j]) || s(g.nodes[j])) == (outside_relay(g.nodes[j]) && is_sink(
            g,
            state,
            g.nodes[j],
        ))
    } by {
        lemma_sinks(g, state, j);
        crate::relay_ports::law_taking_nodes(g, NodeId(j));
    }
}

/// A route runs from the relay's two source ports to the input ports of the
/// target, left to left and right to right; a router that is switched off
/// wants none, nor one without a target.
pub proof fn law_routes_run_to_the_target(
    router: RelayPlaybackRouterView,
    g: GraphView,
    state: RegistryView,
)
    ensures
        match router.desired(g, state) {
            Some((from, to, sink)) => {
                &&& router.enabled
                &&& router.target_sink(g, state) == Some(sink)
                &&& relay_outputs(g) == Some(from)
                &&& sink_inputs(g, sink) == Some(to)
            },
            None => {
                ||| !router.enabled
                ||| relay_outputs(g) is None
                ||| router.target_sink(g, state) is None
                ||| sink_inputs(g, router.target_sink(g, state)->Some_0) is None
            },
        },
{
}

/// Two ports are joined by a link of the graph from the one to the other, the
/// first such, and by none just where there is none.
pub proof fn law_joining(g: GraphView, src: PortId, dst: PortId)
    ensures
        match joining(g, src, dst) {
            Some(k) => {
                &&& g.links.contains_key(k)
                &&& g.links[k].output_port == src
                &&& g.links[k].input_port == dst
                &&& forall|j: u64| #[trigger]
                    g.links.contains_key(j) && g.links[j].output_port == src
                        && g.links[j].input_port == dst ==> k <= j
            },
            None => forall|j: u64| #[trigger]
                g.links.contains_key(j) ==> g.links[j].output_port != src || g.links[j].input_port
                    != dst,
        },
{
    let p = |l: Link| l.output_port == src && l.input_port == dst;
    crate::table::law_first_of(g.links, p);
    assert forall|j: u64| #[trigger] g.links.contains_key(j) implies p(g.links[j]) == (
    g.links[j].output_port == src && g.links[j].input_port == dst) by {}
}

/// The first missing channel is one that is missing, and all before it are
/// there.
pub proof fn law_first_missing(present: Seq<bool>, from: int)
    requires
        0 <= from <= present.len(),
    ensures
        from <= first_missing(present, from) <= present.len(),
        first_missing(present, from) < present.len() ==> !present[first_missing(present, from)],
        forall|i: int| from <= i < first_missing(present, from) ==> present[i],
    decreases present.len() - from,
{
    if from < present.len() && present[from] {
        law_first_missing(present, from + 1);
    }
}

/// The links found for pairs are the links that join them, one for each pair
/// that is joined, in order.
pub proof fn law_found_links(
    g: GraphView,
    pairs: Seq<(PortId, PortId)>,
    from: int,
    upto: int,
    i: int,
)
    requires
        0 <= from <= upto <= pairs.len(),
        from <= i < upto,
    ensures
        joining(g, pairs[i].0, pairs[i].1) matches Some(k) ==> found_links(
            g,
            pairs,
            from,
            upto,
        ).contains(k),
        forall|k: u64| #[trigger]
            found_links(g, pairs, from, upto).contains(k) ==> exists|j: int|
                from <= j < upto && joining(g, (#[trigger] pairs[j]).0, pairs[j].1) == Some(k),
    decreases upto - from,
{
    let before = found_links(g, pairs, from, upto - 1);
    let last = pairs[upto - 1];
    if let Some(k) = joining(g, last.0, last.1) {
        assert forall|x: u64| #[trigger]
            before.push(k).contains(x) == (before.contains(x) || x == k) by {
            lemma_push_contains(before, k, x);
        }
    }
    if from < upto - 1 {
        law_found_links(
            g,
            pairs,
            from,
            upto - 1,
            if i < upto - 1 {
                i
            } else {
                from
            },
        );
    }
    assert forall|k: u64| #[trigger]
        found_links(g, pairs, from, upto).contains(k) implies exists|j: int|
        from <= j < upto && joining(g, (#[trigger] pairs[j]).0, pairs[j].1) == Some(k) by {
        if before.contains(k) {
            let j = choose|j: int|
                from <= j < upto - 1 && joining(g, (#[trigger] pairs[j]).0, pairs[j].1) == Some(k);
            assert(joining(g, pairs[j].0, pairs[j].1) == Some(k));
        } else {
            assert(joining(g, pairs[upto - 1].0, pairs[upto - 1].1) == Some(k));
        }
    }
}

/// A change of a setting changes that setting and no other; a gain above the
/// largest is held at it.
pub proof fn law_settings_change_alone(
    shared: RelayPlaybackShared,
    gain: u32,
    muted: bool,
    enabled: bool,
)
    ensures
        ({
            let after = shared.after(SharedChange::Muted(muted));
            after.muted == muted && after == (RelayPlaybackShared { muted, ..shared })
        }),
        ({
            let after = shared.after(SharedChange::Enabled(enabled));
            after.enabled == enabled && after == (RelayPlaybackShared { enabled, ..shared })
        }),
        ({
            let after = shared.after(SharedChange::Gain(gain));
            &&& after == (RelayPlaybackShared { gain_bits: after.gain_bits, ..shared })
            &&& gain <= MAX_GAIN ==> after.gain_bits == gain
            &&& MAX_GAIN < gain <= crate::samples::INFINITE ==> after.gain_bits == MAX_GAIN
        }),
{
}

/// A route that is made is connected to its sink; one of which a channel is
/// missing is an error, and connected to none. A router that is switched off
/// owns no link and plays to no sink, nor does one without a route.
pub proof fn law_states_of_a_router(
    router: RelayPlaybackRouterView,
    ids: Seq<u64>,
    name: Seq<char>,
    serial: Option<u64>,
    ambiguous: bool,
)
    ensures
        ({
            let made = router.finished(true, ids, name, serial);
            &&& made.state is Connected
            &&& made.current_sink_name == Some(name)
            &&& made.current_sink_serial == serial
            &&& made.link_ids == ids
            &&& made.enabled == router.enabled
            &&& made.preferred_sink_name == router.preferred_sink_name
            &&& made.preferred_sink_serial == router.preferred_sink_serial
        }),
        ({
            let half = router.finished(false, ids, name, serial);
            &&& half.state is Error
            &&& half.current_sink_name is None
            &&& half.current_sink_serial is None
            &&& half.link_ids == ids
        }),
        ({
            let off = router.switched_off();
            &&& off.state is Disabled
            &&& off.link_ids.len() == 0
            &&& off.current_sink_name is None
            &&& off.preferred_sink_name == router.preferred_sink_name
            &&& off.preferred_sink_serial == router.preferred_sink_serial
        }),
        ({
            let waiting = router.stalled(ambiguous);
            &&& waiting.state is Error <==> ambiguous
            &&& waiting.state is WaitingForSink <==> !ambiguous
            &&& waiting.current_sink_name is None
            &&& waiting.current_sink_serial is None
            &&& waiting.link_ids == router.link_ids
        }),
{
}

/// Which pairs of ports are linked.
pub open spec fn joined_pairs(g: GraphView, pairs: Seq<(PortId, PortId)>) -> Seq<bool> {
    pairs.map_values(|p: (PortId, PortId)| g.connected(p.0, p.1))
}

/// A pair counts as linked where a link runs from its first port to its
/// second.
pub proof fn law_joined_pairs(g: GraphView, pairs: Seq<(PortId, PortId)>, i: int)
    requires
        0 <= i < pairs.len(),
    ensures
        joined_pairs(g, pairs).len() == pairs.len(),
        joined_pairs(g, pairs)[i] <==> exists|k: u64| #[trigger]
            g.links.contains_key(k) && g.links[k].output_port == pairs[i].0
                && g.links[k].input_port == pairs[i].1,
{
}

} // verus!
