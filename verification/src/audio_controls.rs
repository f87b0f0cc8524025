//! Volume and mute of nodes: what is known of them, what can be set, and what
//! a reading of a node's properties changes. Levels are bit patterns of
//! 32-bit floating point numbers.
use crate::graph::{Graph, GraphView};
use crate::ids::NodeId;
use crate::metering::{is_node_measurable, node_measurable};
use crate::model::{BackendError, BackendErrorView, GraphError, NodeType, NodeView};
use crate::registry::RegistryState;
use crate::relay_playback::RelayPlaybackShared;
use crate::relay_ports::{is_relay_device_node, relay_name};
use crate::samples::{
    hold, held, is_nan, magnitude, magnitude_of, INFINITE, MAX_GAIN, MAX_VOLUME, SIGN, UNITY,
};
use crate::table::{keys_of, lemma_picked_lists, lists_domain, lists_keys, picked};
use std::collections::BTreeMap;
use vstd::prelude::*;

verus! {

broadcast use vstd::std_specs::btree::group_btree_axioms;

/// What is known of a node's volume and mute, and what can be done with them.
#[derive(Clone, Copy, Debug, PartialEq, Eq, Structural)]
pub struct NodeAudioState {
    pub volume: Option<u32>,
    pub muted: Option<bool>,
    pub volume_readable: bool,
    pub volume_writable: bool,
    pub mute_readable: bool,
    pub mute_writable: bool,
}

impl NodeAudioState {
    /// Nothing is known and nothing can be set.
    pub open spec fn nothing() -> NodeAudioState {
        NodeAudioState {
            volume: None,
            muted: None,
            volume_readable: false,
            volume_writable: false,
            mute_readable: false,
            mute_writable: false,
        }
    }

    /// Both are known and can be set.
    pub open spec fn full(volume: u32, muted: bool) -> NodeAudioState {
        NodeAudioState {
            volume: Some(volume),
            muted: Some(muted),
            volume_readable: true,
            volume_writable: true,
            mute_readable: true,
            mute_writable: true,
        }
    }

    /// A node without audio controls.
    pub fn unsupported() -> (r: NodeAudioState)
        ensures
            r == NodeAudioState::nothing(),
    {
        NodeAudioState {
            volume: None,
            muted: None,
            volume_readable: false,
            volume_writable: false,
            mute_readable: false,
            mute_writable: false,
        }
    }

    /// A node whose controls are known.
    pub fn readable(volume: u32, muted: bool) -> (r: NodeAudioState)
        ensures
            r == NodeAudioState::full(volume, muted),
    {
        NodeAudioState {
            volume: Some(volume),
            muted: Some(muted),
            volume_readable: true,
            volume_writable: true,
            mute_readable: true,
            mute_writable: true,
        }
    }

    /// Anything about the node can be read or set.
    pub open spec fn supported(self) -> bool {
        self.volume_readable || self.volume_writable || self.mute_readable || self.mute_writable
    }

    pub fn is_supported(&self) -> (r: bool)
        ensures
            r == self.supported(),
    {
        self.volume_readable || self.volume_writable || self.mute_readable || self.mute_writable
    }

    /// What the state lets a user do.
    pub open spec fn controls(self) -> NodeCapabilities {
        NodeCapabilities {
            volume_read: self.volume_readable,
            volume_write: self.volume_writable,
            mute_read: self.mute_readable,
            mute_write: self.mute_writable,
            volume_max: UNITY,
            meter_peak: false,
            meter_rms: false,
        }
    }

    pub fn control_capabilities(&self) -> (r: NodeCapabilities)
        ensures
            r == self.controls(),
    {
        NodeCapabilities {
            volume_read: self.volume_readable,
            volume_write: self.volume_writable,
            mute_read: self.mute_readable,
            mute_write: self.mute_writable,
            volume_max: UNITY,
            meter_peak: false,
            meter_rms: false,
        }
    }
}

/// What can be controlled and measured on a node.
#[derive(Clone, Copy, Debug, PartialEq, Eq, Structural)]
pub struct NodeCapabilities {
    pub volume_read: bool,
    pub volume_write: bool,
    pub mute_read: bool,
    pub mute_write: bool,
    pub volume_max: u32,
    pub meter_peak: bool,
    pub meter_rms: bool,
}

impl NodeCapabilities {
    pub fn none() -> (r: NodeCapabilities)
        ensures
            r == NodeAudioState::nothing().controls(),
    {
        NodeAudioState::unsupported().control_capabilities()
    }

    pub fn has_any_control(&self) -> (r: bool)
        ensures
            r == (self.volume_read || self.volume_write || self.mute_read || self.mute_write),
    {
        self.volume_read || self.volume_write || self.mute_read || self.mute_write
    }

    pub fn has_any_meter(&self) -> (r: bool)
        ensures
            r == (self.meter_peak || self.meter_rms),
    {
        self.meter_peak || self.meter_rms
    }
}

/// What a node reported of its controls.
#[derive(Clone, Copy, Debug, PartialEq, Eq, Structural)]
pub struct PropsReading {
    pub volume: Option<u32>,
    pub muted: Option<bool>,
}

impl Default for PropsReading {
    fn default() -> (r: PropsReading)
        ensures
            r == (PropsReading { volume: None, muted: None }),
    {
        PropsReading { volume: None, muted: None }
    }
}

impl PropsReading {
    /// Nothing was reported.
    pub open spec fn silent(self) -> bool {
        self.volume is None && self.muted is None
    }

    pub fn is_empty(&self) -> (r: bool)
        ensures
            r == self.silent(),
    {
        self.volume.is_none() && self.muted.is_none()
    }
}

/// The state once a reading is merged into it: what was not reported says
/// nothing.
pub open spec fn with_reading(state: NodeAudioState, reading: PropsReading) -> NodeAudioState {
    let voiced = match reading.volume {
        Some(volume) => NodeAudioState {
            volume: Some(held(volume, MAX_VOLUME)),
            volume_readable: true,
            ..state
        },
        None => state,
    };
    match reading.muted {
        Some(muted) => NodeAudioState { muted: Some(muted), mute_readable: true, ..voiced },
        None => voiced,
    }
}

/// Merges what a node reported.
pub fn apply_props_reading(state: &mut NodeAudioState, reading: PropsReading)
    ensures
        *final(state) == with_reading(*old(state), reading),
{
    if let Some(volume) = reading.volume {
        state.volume = Some(hold(volume, MAX_VOLUME));
        state.volume_readable = true;
    }
    if let Some(muted) = reading.muted {
        state.muted = Some(muted);
        state.mute_readable = true;
    }
}

/// A reading without a property leaves what was known of it.
pub proof fn law_omission_says_nothing(state: NodeAudioState, reading: PropsReading)
    ensures
        reading.volume is None ==> with_reading(state, reading).volume == state.volume
            && with_reading(state, reading).volume_readable == state.volume_readable,
        reading.muted is None ==> with_reading(state, reading).muted == state.muted
            && with_reading(state, reading).mute_readable == state.mute_readable,
        with_reading(with_reading(state, reading), reading) == with_reading(state, reading),
{
    if let Some(volume) = reading.volume {
        crate::samples::law_hold(volume, MAX_VOLUME);
    }
}

/// A property of a node, as far as its controls go.
#[derive(Debug, PartialEq, Eq)]
pub enum NodeProperty {
    Volume(u32),
    Mute(bool),
    ChannelVolumes(Vec<u32>),
    Other,
}

/// One value is larger than another, as numbers are.
pub open spec fn louder(a: u32, b: u32) -> bool {
    if a < SIGN && b < SIGN {
        a > b
    } else if a < SIGN {
        true
    } else if b < SIGN {
        false
    } else {
        magnitude(a) < magnitude(b)
    }
}

/// The louder of two values; what is no number loses.
pub open spec fn loudest_of(a: u32, b: u32) -> u32 {
    if is_nan(a) {
        b
    } else if is_nan(b) || !louder(b, a) {
        a
    } else {
        b
    }
}

/// The loudest of some values.
pub open spec fn loudest(values: Seq<u32>) -> Option<u32>
    decreases values.len(),
{
    if values.len() == 0 {
        None
    } else {
        match loudest(values.drop_last()) {
            None => Some(values.last()),
            Some(best) => Some(loudest_of(best, values.last())),
        }
    }
}

/// The louder of two values.
pub fn pick_louder(a: u32, b: u32) -> (r: u32)
    ensures
        r == loudest_of(a, b),
{
    if magnitude_of(a) > INFINITE {
        return b;
    }
    if magnitude_of(b) > INFINITE {
        return a;
    }
    let larger = if a < SIGN && b < SIGN {
        b > a
    } else if b < SIGN {
        true
    } else if a < SIGN {
        false
    } else {
        magnitude_of(b) < magnitude_of(a)
    };
    if larger {
        b
    } else {
        a
    }
}

fn pick_loudest(values: &Vec<u32>) -> (r: Option<u32>)
    ensures
        r == loudest(values@),
{
    let mut best: Option<u32> = None;
    let mut i: usize = 0;
    while i < values.len()
        invariant
            i <= values.len(),
            best == loudest(values@.take(i as int)),
        decreases values.len() - i,
    {
        proof {
            assert(values@.take(i + 1).drop_last() =~= values@.take(i as int));
        }
        best = match best {
            None => Some(values[i]),
            Some(b) => Some(pick_louder(b, values[i])),
        };
        i = i + 1;
    }
    assert(values@.take(values@.len() as int) =~= values@);
    best
}

/// The last volume, mute and channel volumes among some properties.
pub open spec fn last_volume(props: Seq<NodeProperty>) -> Option<u32>
    decreases props.len(),
{
    if props.len() == 0 {
        None
    } else {
        match props.last() {
            NodeProperty::Volume(v) => Some(v),
            _ => last_volume(props.drop_last()),
        }
    }
}

pub open spec fn last_mute(props: Seq<NodeProperty>) -> Option<bool>
    decreases props.len(),
{
    if props.len() == 0 {
        None
    } else {
        match props.last() {
            NodeProperty::Mute(m) => Some(m),
            _ => last_mute(props.drop_last()),
        }
    }
}

pub open spec fn last_channels(props: Seq<NodeProperty>) -> Option<u32>
    decreases props.len(),
{
    if props.len() == 0 {
        None
    } else {
        match props.last() {
            NodeProperty::ChannelVolumes(values) => loudest(values@),
            _ => last_channels(props.drop_last()),
        }
    }
}

/// Reads the controls of a node from its properties. The volumes of its
/// channels win over the single volume, which such a node leaves at unity; a
/// fader shows the loudest of them.
pub fn parse_props(props: &Vec<NodeProperty>) -> (r: PropsReading)
    ensures
        r == (PropsReading {
            volume: match last_channels(props@) {
                Some(v) => Some(v),
                None => last_volume(props@),
            },
            muted: last_mute(props@),
        }),
{
    let mut volume: Option<u32> = None;
    let mut channels: Option<u32> = None;
    let mut muted: Option<bool> = None;
    let mut i: usize = 0;
    while i < props.len()
        invariant
            i <= props.len(),
            volume == last_volume(props@.take(i as int)),
            channels == last_channels(props@.take(i as int)),
            muted == last_mute(props@.take(i as int)),
        decreases props.len() - i,
    {
        proof {
            assert(props@.take(i + 1).drop_last() =~= props@.take(i as int));
        }
        match &props[i] {
            NodeProperty::Volume(v) => {
                volume = Some(*v);
            },
            NodeProperty::Mute(m) => {
                muted = Some(*m);
            },
            NodeProperty::ChannelVolumes(values) => {
                channels = pick_loudest(values);
            },
            NodeProperty::Other => {},
        }
        i = i + 1;
    }
    assert(props@.take(props@.len() as int) =~= props@);
    PropsReading {
        volume: match channels {
            Some(v) => Some(v),
            None => volume,
        },
        muted,
    }
}

/// What is known of a node before anything was read.
pub open spec fn known_of(controls: Map<u64, NodeAudioState>, node: NodeId) -> NodeAudioState {
    if controls.contains_key(node.0) {
        controls[node.0]
    } else {
        NodeAudioState::nothing()
    }
}

/// A node answered with something.
pub open spec fn answered(readings: Map<u64, PropsReading>, k: u64) -> bool {
    readings.contains_key(k) && !readings[k].silent()
}

/// What is known once the answers of the nodes were merged.
pub open spec fn after_readings(
    known: Map<u64, NodeAudioState>,
    readings: Map<u64, PropsReading>,
) -> Map<u64, NodeAudioState> {
    Map::new(
        |k: u64| known.contains_key(k) || answered(readings, k),
        |k: u64|
            if answered(readings, k) {
                with_reading(known_of(known, NodeId(k)), readings[k])
            } else {
                known[k]
            },
    )
}

/// The nodes that are asked for their controls: all but effects, in ascending
/// order. The state of an effect is not kept in the properties of its node.
pub fn nodes_to_read(graph: &Graph) -> (r: Vec<u64>)
    ensures
        lists_keys(r@, graph@.nodes, |n: NodeView| n.node_type != NodeType::Effect),
{
    let keys = keys_of(&graph.nodes);
    let ghost p = |n: NodeView| n.node_type != NodeType::Effect;
    let mut out: Vec<u64> = Vec::new();
    let mut i: usize = 0;
    while i < keys.len()
        invariant
            i <= keys.len(),
            lists_domain(keys@, graph@.nodes),
            p == (|n: NodeView| n.node_type != NodeType::Effect),
            out@ == picked(keys@, i as int, graph@.nodes, p),
        decreases keys.len() - i,
    {
        let k: u64 = keys[i];
        assert(keys@.contains(k));
        if let Some(node) = graph.node(NodeId(k)) {
            if node.node_type != NodeType::Effect {
                out.push(k);
            }
        }
        i = i + 1;
    }
    proof {
        lemma_picked_lists(keys@, graph@.nodes, p);
    }
    out
}

/// Effects are never asked for their controls, and what is known of a node
/// changes only with an answer of its own.
pub proof fn law_only_answers_change_what_is_known(
    graph: GraphView,
    asked: Seq<u64>,
    known: Map<u64, NodeAudioState>,
    readings: Map<u64, PropsReading>,
    k: u64,
)
    requires
        lists_keys(asked, graph.nodes, |n: NodeView| n.node_type != NodeType::Effect),
        forall|j: u64| #[trigger] readings.contains_key(j) ==> asked.contains(j),
    ensures
        graph.nodes.contains_key(k) && graph.nodes[k].node_type == NodeType::Effect
            ==> !asked.contains(k) && known_of(after_readings(known, readings), NodeId(k))
            == known_of(known, NodeId(k)),
        !answered(readings, k) ==> known_of(after_readings(known, readings), NodeId(k))
            == known_of(known, NodeId(k)),
{
}

/// The audio state that is reported for a node. Effects have none; a device
/// of the relay has the gain of the relay, while it runs.
pub open spec fn reported_state(
    n: NodeView,
    relay: Option<RelayPlaybackShared>,
    known: NodeAudioState,
) -> NodeAudioState {
    if n.node_type == NodeType::Effect {
        NodeAudioState::nothing()
    } else if relay_name(n.name) {
        match relay {
            Some(shared) => NodeAudioState::full(shared.gain_bits, shared.muted),
            None => NodeAudioState::nothing(),
        }
    } else {
        NodeAudioState { volume_writable: true, mute_writable: true, ..known }
    }
}

/// What a request to mute a node or to set its volume comes to.
#[derive(Clone, Copy, Debug, PartialEq, Eq, Structural)]
pub enum ControlRoute {
    /// The relay's own gain stage takes it; nothing is left to do.
    Relay,
    /// The node's properties have to be written.
    Properties,
}

/// The controls of the nodes that a backend keeps.
#[derive(Debug, PartialEq, Eq)]
pub struct AudioControls {
    pub known: BTreeMap<u64, NodeAudioState>,
}

impl AudioControls {
    pub fn new() -> (r: AudioControls)
        ensures
            r.known@ == Map::<u64, NodeAudioState>::empty(),
    {
        AudioControls { known: BTreeMap::new() }
    }

    fn get(&self, node: NodeId) -> (r: NodeAudioState)
        ensures
            r == known_of(self.known@, node),
    {
        match self.known.get(&node.0) {
            Some(state) => *state,
            None => NodeAudioState::unsupported(),
        }
    }

    /// Merges what a node reported. A reading without anything in it is left
    /// out.
    pub fn read(&mut self, node: NodeId, reading: PropsReading)
        ensures
            final(self).known@ == (if reading.silent() {
                old(self).known@
            } else {
                old(self).known@.insert(
                    node.0,
                    with_reading(known_of(old(self).known@, node), reading),
                )
            }),
    {
        if reading.is_empty() {
            return ;
        }
        let mut state = self.get(node);
        apply_props_reading(&mut state, reading);
        self.known.insert(node.0, state);
    }

    /// Merges what the nodes that answered reported. A node that did not
    /// answer, or reported nothing, keeps what was known of it.
    pub fn read_all(&mut self, readings: &BTreeMap<u64, PropsReading>)
        ensures
            final(self).known@ == after_readings(old(self).known@, readings@),
    {
        let keys = keys_of(readings);
        let ghost before = self.known@;
        let mut i: usize = 0;
        while i < keys.len()
            invariant
                i <= keys.len(),
                lists_domain(keys@, readings@),
                forall|k: u64| #[trigger]
                    self.known@.contains_key(k) <==> before.contains_key(k) || (keys@.take(
                        i as int,
                    ).contains(k) && !readings@[k].silent()),
                forall|k: u64| #[trigger]
                    self.known@.contains_key(k) ==> self.known@[k] == (if keys@.take(
                        i as int,
                    ).contains(k) && !readings@[k].silent() {
                        with_reading(known_of(before, NodeId(k)), readings@[k])
                    } else {
                        before[k]
                    }),
            decreases keys.len() - i,
        {
            let k: u64 = keys[i];
            let ghost head = keys@.take(i as int);
            let ghost was = self.known@;
            proof {
                assert(keys@.contains(k));
                assert(keys@.take(i + 1) =~= head.push(k));
                assert(!head.contains(k)) by {
                    if head.contains(k) {
                        let x = choose|x: int| 0 <= x < head.len() && head[x] == k;
                        assert(keys@[x] < keys@[i as int]);
                    }
                }
                assert(was.contains_key(k) == before.contains_key(k));
            }
            if let Some(reading) = readings.get(&k) {
                self.read(NodeId(k), *reading);
            }
            proof {
                assert forall|x: u64| keys@.take(i + 1).contains(x) <==> (head.contains(x) || x
                    == k) by {
                    crate::table::lemma_push_contains(head, k, x);
                }
                assert forall|x: u64| #[trigger] self.known@.contains_key(x)
                    <==> before.contains_key(x) || (keys@.take(i + 1).contains(x)
                    && !readings@[x].silent()) by {
                    assert(was.contains_key(x) <==> before.contains_key(x) || (head.contains(x)
                        && !readings@[x].silent()));
                }
                assert forall|x: u64| #[trigger] self.known@.contains_key(x) implies self.known@[x]
                    == (if keys@.take(i + 1).contains(x) && !readings@[x].silent() {
                    with_reading(known_of(before, NodeId(x)), readings@[x])
                } else {
                    before[x]
                }) by {
                    if x != k {
                        assert(was.contains_key(x));
                    }
                }
            }
            i = i + 1;
        }
        proof {
            assert(keys@.take(keys@.len() as int) =~= keys@);
            assert forall|k: u64| keys@.contains(k) <==> readings@.contains_key(k) by {}
            assert(self.known@ =~= after_readings(before, readings@));
        }
    }

    /// Keeps a mute that was written.
    pub fn mute_written(&mut self, node: NodeId, muted: bool)
        ensures
            final(self).known@ == old(self).known@.insert(
                node.0,
                NodeAudioState {
                    muted: Some(muted),
                    mute_readable: true,
                    ..known_of(old(self).known@, node)
                },
            ),
    {
        let mut state = self.get(node);
        state.muted = Some(muted);
        state.mute_readable = true;
        self.known.insert(node.0, state);
    }

    /// Keeps a volume that was written.
    pub fn volume_written(&mut self, node: NodeId, volume: u32)
        ensures
            final(self).known@ == old(self).known@.insert(
                node.0,
                NodeAudioState {
                    volume: Some(volume),
                    volume_readable: true,
                    ..known_of(old(self).known@, node)
                },
            ),
    {
        let mut state = self.get(node);
        state.volume = Some(volume);
        state.volume_readable = true;
        self.known.insert(node.0, state);
    }

    /// Answers for the audio state of a node.
    pub fn node_audio_state(
        &self,
        graph: &Graph,
        relay: Option<RelayPlaybackShared>,
        node: NodeId,
    ) -> (r: Result<NodeAudioState, BackendError>)
        ensures
            if graph@.has_node(node) {
                r == Ok::<NodeAudioState, BackendError>(
                    reported_state(graph@.node(node), relay, known_of(self.known@, node)),
                )
            } else {
                r matches Err(e) && e@ == BackendErrorView::Graph(GraphError::MissingNode(node))
            },
    {
        let record = match graph.node(node) {
            Some(record) => record,
            None => {
                return Err(BackendError::Graph(GraphError::MissingNode(node)));
            },
        };
        if record.node_type == NodeType::Effect {
            return Ok(NodeAudioState::unsupported());
        }
        if is_relay_device_node(record.name.as_str()) {
            return Ok(
                match relay {
                    Some(shared) => NodeAudioState::readable(shared.gain_bits, shared.muted),
                    None => NodeAudioState::unsupported(),
                },
            );
        }
        let mut state = self.get(node);
        state.volume_writable = true;
        state.mute_writable = true;
        Ok(state)
    }

    /// Answers for what can be controlled and measured on a node.
    pub fn node_capabilities(
        &self,
        graph: &Graph,
        state: &RegistryState,
        relay: Option<RelayPlaybackShared>,
        node: NodeId,
    ) -> (r: NodeCapabilities)
        requires
            graph.wf(),
        ensures
            r == reported_capabilities(
                graph@,
                node_measurable(graph@, state@, node),
                relay,
                known_of(self.known@, node),
                node,
            ),
    {
        let shown = match self.node_audio_state(graph, relay, node) {
            Ok(shown) => shown,
            Err(_) => {
                return NodeCapabilities::none();
            },
        };
        let mut capabilities = shown.control_capabilities();
        let of_relay = match graph.node(node) {
            Some(record) => is_relay_device_node(record.name.as_str()),
            None => false,
        };
        if of_relay {
            capabilities.volume_max = MAX_GAIN;
            capabilities.meter_peak = true;
            capabilities.meter_rms = true;
            return capabilities;
        }
        if is_node_measurable(graph, state, node) {
            capabilities.volume_max = MAX_VOLUME;
            capabilities.meter_peak = true;
            capabilities.meter_rms = true;
        }
        capabilities
    }
}

/// Mutes a node, or decides that its properties have to be written.
pub fn set_node_mute(
    graph: &Graph,
    relay: &mut Option<RelayPlaybackShared>,
    node: NodeId,
    muted: bool,
) -> (r: Result<ControlRoute, BackendError>)
    ensures
        if !graph@.has_node(node) {
            &&& r matches Err(e) && e@ == BackendErrorView::Graph(GraphError::MissingNode(node))
            &&& *final(relay) == *old(relay)
        } else {
            &&& r == Ok::<ControlRoute, BackendError>(
                control_route(graph@.node(node), *old(relay)),
            )
            &&& *final(relay) == relay_muted(graph@.node(node), *old(relay), muted)
        },
{
    match graph.node(node) {
        None => Err(BackendError::Graph(GraphError::MissingNode(node))),
        Some(record) => {
            if is_relay_device_node(record.name.as_str()) {
                if let Some(shared) = *relay {
                    let mut next = shared;
                    next.set_muted(muted);
                    *relay = Some(next);
                    return Ok(ControlRoute::Relay);
                }
            }
            Ok(ControlRoute::Properties)
        },
    }
}

/// Sets the volume of a node, or decides that its properties have to be
/// written, and to which volume. The relay's gain goes up to two, the volume
/// of other nodes up to one and a half.
pub fn set_node_volume(
    graph: &Graph,
    relay: &mut Option<RelayPlaybackShared>,
    node: NodeId,
    volume: u32,
) -> (r: Result<(ControlRoute, u32), BackendError>)
    ensures
        if !graph@.has_node(node) {
            &&& r matches Err(e) && e@ == BackendErrorView::Graph(GraphError::MissingNode(node))
            &&& *final(relay) == *old(relay)
        } else {
            let route = control_route(graph@.node(node), *old(relay));
            &&& r == Ok::<(ControlRoute, u32), BackendError>((route, volume_for(route, volume)))
            &&& *final(relay) == relay_turned(graph@.node(node), *old(relay), volume)
        },
{
    match graph.node(node) {
        None => Err(BackendError::Graph(GraphError::MissingNode(node))),
        Some(record) => {
            if is_relay_device_node(record.name.as_str()) {
                if let Some(shared) = *relay {
                    let mut next = shared;
                    next.set_gain(volume);
                    *relay = Some(next);
                    return Ok((ControlRoute::Relay, next.gain()));
                }
            }
            Ok((ControlRoute::Properties, hold(volume, MAX_VOLUME)))
        },
    }
}

/// What a node offers to control and to measure.
pub open spec fn reported_capabilities(
    g: GraphView,
    measurable: bool,
    relay: Option<RelayPlaybackShared>,
    known: NodeAudioState,
    node: NodeId,
) -> NodeCapabilities {
    if !g.has_node(node) {
        NodeAudioState::nothing().controls()
    } else {
        let shown = reported_state(g.node(node), relay, known).controls();
        if relay_name(g.node(node).name) {
            NodeCapabilities { volume_max: MAX_GAIN, meter_peak: true, meter_rms: true, ..shown }
        } else if measurable {
            NodeCapabilities {
                volume_max: MAX_VOLUME,
                meter_peak: true,
                meter_rms: true,
                ..shown
            }
        } else {
            shown
        }
    }
}

/// A node outside the graph offers nothing, nor does an effect offer controls.
/// The relay's devices show the relay's own gain and go up to its limit; other
/// nodes can be written, and are measured exactly where they are measurable.
pub proof fn law_reported_capabilities(
    g: GraphView,
    measurable: bool,
    relay: Option<RelayPlaybackShared>,
    known: NodeAudioState,
    node: NodeId,
)
    ensures
        ({
            let c = reported_capabilities(g, measurable, relay, known, node);
            let device = g.node(node).name == "qpwgraph-rs.relay.source"@ || g.node(node).name
                == "qpwgraph-rs.relay.sink"@;
            let effect = g.node(node).node_type == NodeType::Effect;
            &&& !g.has_node(node) ==> !c.volume_read && !c.volume_write && !c.mute_read
                && !c.mute_write && !c.meter_peak && !c.meter_rms
            &&& g.has_node(node) && effect ==> !c.volume_read && !c.volume_write && !c.mute_read
                && !c.mute_write
            &&& g.has_node(node) && !effect && device && relay is Some ==> c.volume_read
                && c.volume_write && c.mute_read && c.mute_write && c.volume_max == MAX_GAIN
            &&& g.has_node(node) && !effect && device && relay is None ==> !c.volume_write
                && !c.mute_write
            &&& g.has_node(node) && !effect && !device ==> c.volume_write && c.mute_write
                && c.volume_read == known.volume_readable && c.mute_read == known.mute_readable
            &&& g.has_node(node) ==> (c.meter_peak <==> device || measurable) && (c.meter_rms
                <==> device || measurable)
            &&& g.has_node(node) && !device && measurable ==> c.volume_max == MAX_VOLUME
        }),
{
}

/// The state that is shown of a node is what is known of it; a relay device
/// shows the relay's gain and mute, and an effect shows nothing.
pub proof fn law_reported_states(
    n: NodeView,
    shared: RelayPlaybackShared,
    known: NodeAudioState,
)
    ensures
        n.node_type == NodeType::Effect ==> reported_state(n, Some(shared), known)
            == NodeAudioState::nothing(),
        n.node_type != NodeType::Effect && (n.name == "qpwgraph-rs.relay.source"@ || n.name
            == "qpwgraph-rs.relay.sink"@) ==> {
            let s = reported_state(n, Some(shared), known);
            s.volume == Some(shared.gain_bits) && s.muted == Some(shared.muted)
                && s.volume_writable && s.mute_writable
        },
        n.node_type != NodeType::Effect && n.name != "qpwgraph-rs.relay.source"@ && n.name
            != "qpwgraph-rs.relay.sink"@ ==> {
            let s = reported_state(n, Some(shared), known);
            s.volume == known.volume && s.muted == known.muted && s.volume_writable
                && s.mute_writable
        },
{
}

/// A reading becomes what is known: the volume, held at the largest, and the
/// mute that it holds.
pub proof fn law_readings_are_noted(state: NodeAudioState, volume: u32, muted: bool)
    ensures
        ({
            let after = with_reading(
                state,
                PropsReading { volume: Some(volume), muted: Some(muted) },
            );
            &&& after.volume_readable && after.mute_readable
            &&& after.muted == Some(muted)
            &&& volume <= MAX_VOLUME ==> after.volume == Some(volume)
            &&& MAX_VOLUME < volume <= crate::samples::INFINITE ==> after.volume == Some(
                MAX_VOLUME,
            )
            &&& after.volume_writable == state.volume_writable
            &&& after.mute_writable == state.mute_writable
        }),
{
}

/// Of positive volumes the loudest is one of them, and none is greater.
pub proof fn law_loudest(values: Seq<u32>)
    requires
        forall|i: int| 0 <= i < values.len() ==> #[trigger] values[i] <= crate::samples::INFINITE,
    ensures
        match loudest(values) {
            None => values.len() == 0,
            Some(best) => values.contains(best) && forall|i: int|
                0 <= i < values.len() ==> #[trigger] values[i] <= best,
        },
    decreases values.len(),
{
    if values.len() > 0 {
        let rest = values.drop_last();
        law_loudest(rest);
        assert(values[values.len() - 1] == values.last());
        if let Some(best) = loudest(rest) {
            let i = choose|i: int| 0 <= i < rest.len() && rest[i] == best;
            assert(values[i] == best);
            assert forall|j: int| 0 <= j < values.len() implies #[trigger] values[j] <= loudest(
                values,
            )->Some_0 by {
                if j < rest.len() {
                    assert(rest[j] == values[j]);
                }
            }
        }
    }
}

/// The last property of a kind counts.
pub proof fn law_last_properties(props: Seq<NodeProperty>, i: int)
    requires
        0 <= i < props.len(),
    ensures
        props[i] matches NodeProperty::Volume(v) ==> ((forall|j: int|
            i < j < props.len() ==> !(#[trigger] props[j] is Volume)) ==> last_volume(props)
            == Some(v)),
        props[i] matches NodeProperty::Mute(m) ==> ((forall|j: int|
            i < j < props.len() ==> !(#[trigger] props[j] is Mute)) ==> last_mute(props) == Some(
            m,
        )),
        props[i] matches NodeProperty::ChannelVolumes(values) ==> ((forall|j: int|
            i < j < props.len() ==> !(#[trigger] props[j] is ChannelVolumes)) ==> last_channels(
            props,
        ) == loudest(values@)),
    decreases props.len(),
{
    if i < props.len() - 1 {
        let rest = props.drop_last();
        law_last_properties(rest, i);
        assert(props[props.len() - 1] == props.last());
        if forall|j: int| i < j < props.len() ==> !(#[trigger] props[j] is Volume) {
            assert forall|j: int| i < j < rest.len() implies !(#[trigger] rest[j] is Volume) by {
                assert(rest[j] == props[j]);
            }
        }
        if forall|j: int| i < j < props.len() ==> !(#[trigger] props[j] is Mute) {
            assert forall|j: int| i < j < rest.len() implies !(#[trigger] rest[j] is Mute) by {
                assert(rest[j] == props[j]);
            }
        }
        if forall|j: int| i < j < props.len() ==> !(#[trigger] props[j] is ChannelVolumes) {
            assert forall|j: int| i < j < rest.len() implies !(
            #[trigger] rest[j] is ChannelVolumes) by {
                assert(rest[j] == props[j]);
            }
        }
    }
}

/// Without a property of a kind nothing is read of it.
pub proof fn law_missing_properties(props: Seq<NodeProperty>)
    ensures
        (forall|j: int| 0 <= j < props.len() ==> !(#[trigger] props[j] is Volume)) ==> last_volume(
            props,
        ) is None,
        (forall|j: int| 0 <= j < props.len() ==> !(#[trigger] props[j] is Mute)) ==> last_mute(
            props,
        ) is None,
        (forall|j: int| 0 <= j < props.len() ==> !(#[trigger] props[j] is ChannelVolumes))
            ==> last_channels(props) is None,
    decreases props.len(),
{
    if props.len() > 0 {
        let rest = props.drop_last();
        law_missing_properties(rest);
        assert(props[props.len() - 1] == props.last());
        assert forall|j: int| 0 <= j < rest.len() implies #[trigger] rest[j] == props[j] by {}
    }
}

/// Where a control of a node is set: at the relay for the relay's own devices
/// while it runs, else at the node.
pub open spec fn control_route(n: NodeView, relay: Option<RelayPlaybackShared>) -> ControlRoute {
    if relay_name(n.name) && relay is Some {
        ControlRoute::Relay
    } else {
        ControlRoute::Properties
    }
}

/// The volume as it is set: held at what the route allows.
pub open spec fn volume_for(route: ControlRoute, volume: u32) -> u32 {
    match route {
        ControlRoute::Relay => held(volume, MAX_GAIN),
        ControlRoute::Properties => held(volume, MAX_VOLUME),
    }
}

/// The relay after a node was muted or not.
pub open spec fn relay_muted(
    n: NodeView,
    relay: Option<RelayPlaybackShared>,
    muted: bool,
) -> Option<RelayPlaybackShared> {
    match control_route(n, relay) {
        ControlRoute::Relay => Some(RelayPlaybackShared { muted, ..relay->Some_0 }),
        ControlRoute::Properties => relay,
    }
}

/// The relay after the volume of a node was set.
pub open spec fn relay_turned(
    n: NodeView,
    relay: Option<RelayPlaybackShared>,
    volume: u32,
) -> Option<RelayPlaybackShared> {
    match control_route(n, relay) {
        ControlRoute::Relay => Some(
            RelayPlaybackShared { gain_bits: held(volume, MAX_GAIN), ..relay->Some_0 },
        ),
        ControlRoute::Properties => relay,
    }
}

/// Controls of the relay's devices reach the relay while it runs: the mute and
/// the volume become what was set, and nothing else of it changes. Controls of
/// other nodes never reach it.
pub proof fn law_controls_reach_their_node(
    n: NodeView,
    shared: RelayPlaybackShared,
    muted: bool,
    volume: u32,
)
    ensures
        ({
            let device = n.name == "qpwgraph-rs.relay.source"@ || n.name
                == "qpwgraph-rs.relay.sink"@;
            let quiet = relay_muted(n, Some(shared), muted);
            let turned = relay_turned(n, Some(shared), volume);
            &&& control_route(n, Some(shared)) is Relay <==> device
            &&& control_route(n, None) is Properties
            &&& device ==> quiet == Some(RelayPlaybackShared { muted, ..shared })
            &&& device && volume <= MAX_GAIN ==> turned == Some(
                RelayPlaybackShared { gain_bits: volume, ..shared },
            )
            &&& !device ==> quiet == Some(shared) && turned == Some(shared)
        }),
        volume <= MAX_VOLUME ==> volume_for(ControlRoute::Properties, volume) == volume,
        volume <= MAX_GAIN ==> volume_for(ControlRoute::Relay, volume) == volume,
        MAX_GAIN < volume <= crate::samples::INFINITE ==> volume_for(ControlRoute::Relay, volume)
            == MAX_GAIN,
        MAX_VOLUME < volume <= crate::samples::INFINITE ==> volume_for(
            ControlRoute::Properties,
            volume,
        ) == MAX_VOLUME,
{
}

} // verus!
