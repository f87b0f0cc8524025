//! A backend without a daemon behind it: a graph in memory that takes every
//! request at once. It can be told to refuse single requests, so that what a
//! caller does about a refusal can be tried out.
use crate::audio_controls::{NodeAudioState, NodeCapabilities};
use crate::composite::BackendCapabilities;
use crate::graph::{Graph, GraphView};
use crate::ids::{LinkId, NodeId, PortId};
use crate::effect_model::{EffectInstance, EffectInstanceView};
use crate::insertion::node_fits;
use crate::lists::{kept, lemma_kept_step};
use crate::metering::list_contains;
use crate::model::{
    fresh_node, BackendError, BackendErrorView, Direction, GraphError, Link, Node, NodeType,
    NodeView, Port, PortKey, PortKeyView, PortType, PortView, Position,
};
use crate::effect_request::{EffectCreateRequest, EffectCreateRequestView};
use crate::recorder::{DemoRecorder, DemoRecorderView};
use crate::relay_route::has_pair;
use crate::samples::{hold, held, MAX_VOLUME, UNITY};
use crate::table::{keys_of, lemma_push_contains};
use crate::text_table::TextTable;
use std::collections::BTreeMap;
use vstd::prelude::*;

verus! {

broadcast use vstd::std_specs::btree::group_btree_axioms;

/// The controls of one node.
#[derive(Clone, Copy, Debug, PartialEq, Eq, Structural)]
pub struct NodeAudioControl {
    pub volume: u32,
    pub muted: bool,
}

impl NodeAudioControl {
    /// Full volume, not muted.
    pub open spec fn initial() -> NodeAudioControl {
        NodeAudioControl { volume: UNITY, muted: false }
    }
}

impl Default for NodeAudioControl {
    fn default() -> (r: NodeAudioControl)
        ensures
            r == NodeAudioControl::initial(),
    {
        NodeAudioControl { volume: UNITY, muted: false }
    }
}

/// Requests that are refused.
#[derive(Debug, PartialEq, Eq)]
pub struct ForcedFailures {
    pub connects: Vec<(PortId, PortId)>,
    pub disconnects: Vec<u64>,
    pub disconnect_pairs: Vec<(PortId, PortId)>,
    pub positions: Vec<(NodeId, Position)>,
}

/// The contents of [`ForcedFailures`].
#[verifier::ext_equal]
pub struct ForcedFailuresView {
    pub connects: Seq<(PortId, PortId)>,
    pub disconnects: Seq<u64>,
    pub disconnect_pairs: Seq<(PortId, PortId)>,
    pub positions: Seq<(NodeId, Position)>,
}

impl View for ForcedFailures {
    type V = ForcedFailuresView;

    open spec fn view(&self) -> ForcedFailuresView {
        ForcedFailuresView {
            connects: self.connects@,
            disconnects: self.disconnects@,
            disconnect_pairs: self.disconnect_pairs@,
            positions: self.positions@,
        }
    }
}

/// The list with one more member, unless it has it.
pub open spec fn joined_by<A>(list: Seq<A>, member: A) -> Seq<A> {
    if list.contains(member) {
        list
    } else {
        list.push(member)
    }
}

/// A backend in memory.
#[derive(Debug, PartialEq, Eq)]
pub struct DemoDriver {
    pub graph: Graph,
    pub next_link_id: u64,
    pub audio_controls: BTreeMap<u64, NodeAudioControl>,
    pub observed_links: Vec<u64>,
    pub effects: TextTable<EffectInstance>,
    pub pending_effects: BTreeMap<u64, EffectCreateRequest>,
    pub next_effect_id: u64,
    pub recorders: BTreeMap<u64, DemoRecorder>,
    pub next_recorder_id: u64,
    pub suppressed_connections: Vec<(PortKey, PortKey)>,
    pub forced_failures: ForcedFailures,
}

/// The contents of a [`DemoDriver`].
#[verifier::ext_equal]
pub struct DemoView {
    pub graph: GraphView,
    pub next_link_id: u64,
    pub audio_controls: Map<u64, NodeAudioControl>,
    pub observed_links: Seq<u64>,
    pub effects: Map<Seq<char>, EffectInstanceView>,
    pub pending_effects: Map<u64, EffectCreateRequestView>,
    pub next_effect_id: u64,
    pub recorders: Map<u64, DemoRecorderView>,
    pub next_recorder_id: u64,
    pub suppressed_connections: Seq<(PortKeyView, PortKeyView)>,
    pub forced_failures: ForcedFailuresView,
}

/// The contents of a pair of keys.
pub open spec fn key_pair(pair: (PortKey, PortKey)) -> (PortKeyView, PortKeyView) {
    (pair.0@, pair.1@)
}

impl View for DemoDriver {
    type V = DemoView;

    open spec fn view(&self) -> DemoView {
        DemoView {
            graph: self.graph@,
            next_link_id: self.next_link_id,
            audio_controls: self.audio_controls@,
            observed_links: self.observed_links@,
            effects: self.effects@.map_values(|e: EffectInstance| e@),
            pending_effects: self.pending_effects@.map_values(|p: EffectCreateRequest| p@),
            next_effect_id: self.next_effect_id,
            recorders: self.recorders@.map_values(|d: DemoRecorder| d@),
            next_recorder_id: self.next_recorder_id,
            suppressed_connections: self.suppressed_connections@.map_values(
                |p: (PortKey, PortKey)| key_pair(p),
            ),
            forced_failures: self.forced_failures@,
        }
    }
}

/// The recorder's node stands with exactly its input.
pub open spec fn recorder_fits(g: GraphView, node: NodeId, input: PortId) -> bool {
    &&& g.has_node(node)
    &&& g.node(node).ports == seq![input]
    &&& g.port(input).direction == Direction::Sink
}

impl DemoView {
    /// The tables agree: links have numbers below the next one, every effect
    /// and recorder has its own name and its own node, their numbers lie below
    /// the next one, and the nodes of recorders stand.
    pub open spec fn wf(self) -> bool {
        &&& self.graph.wf()
        &&& forall|k: u64| #[trigger] self.graph.links.contains_key(k) ==> k < self.next_link_id
        &&& forall|id: Seq<char>| #[trigger]
            self.effects.contains_key(id) ==> self.effects[id].config.instance_id == id
                && self.effects[id].node_id.0 < self.next_effect_id
                && self.effects[id].input_port.0 < self.next_effect_id
                && self.effects[id].output_port.0 < self.next_effect_id
        &&& forall|a: Seq<char>, b: Seq<char>|
            #![trigger self.effects.contains_key(a), self.effects.contains_key(b)]
            self.effects.contains_key(a) && self.effects.contains_key(b) && a != b
                ==> self.effects[a].node_id != self.effects[b].node_id
        &&& forall|k: u64| #[trigger]
            self.recorders.contains_key(k) ==> self.recorders[k].node_id.0 < self.next_effect_id
                && recorder_fits(self.graph, self.recorders[k].node_id, self.recorders[k].input_port)
        &&& forall|a: u64, b: u64|
            #![trigger self.recorders.contains_key(a), self.recorders.contains_key(b)]
            self.recorders.contains_key(a) && self.recorders.contains_key(b) && a != b
                ==> self.recorders[a].node_id != self.recorders[b].node_id
        &&& forall|a: Seq<char>, k: u64|
            #![trigger self.effects.contains_key(a), self.recorders.contains_key(k)]
            self.effects.contains_key(a) && self.recorders.contains_key(k)
                ==> self.effects[a].node_id != self.recorders[k].node_id
        &&& forall|k: u64| #[trigger]
            self.recorders.contains_key(k) ==> k < self.next_recorder_id
    }

    /// Every effect stands in the graph with exactly its ports, or nothing of
    /// it does.
    pub open spec fn effects_fit(self) -> bool {
        forall|id: Seq<char>| #[trigger] self.effects.contains_key(id) ==> self.effect_fits(id)
    }

    /// An effect stands in the graph with exactly its ports, or nothing of it
    /// does.
    pub open spec fn effect_fits(self, id: Seq<char>) -> bool {
        node_fits(
            self.graph,
            self.effects[id].node_id,
            self.effects[id].input_port,
            self.effects[id].output_port,
        )
    }
}

/// One above the largest number of a link.
pub open spec fn above_links(g: GraphView, n: u64) -> bool {
    &&& forall|k: u64| #[trigger] g.links.contains_key(k) ==> k < n
    &&& n == 1 || (n > 0 && g.links.contains_key((n - 1) as u64))
}

fn next_above(graph: &Graph) -> (r: u64)
    requires
        forall|k: u64| #[trigger] graph@.links.contains_key(k) ==> k < u64::MAX,
    ensures
        above_links(graph@, r),
{
    let keys = keys_of(&graph.links);
    if keys.len() == 0 {
        assert forall|k: u64| #[trigger] graph@.links.contains_key(k) implies k < 1 by {
            assert(keys@.contains(k));
        }
        return 1;
    }
    let last: u64 = keys[keys.len() - 1];
    proof {
        assert(keys@.contains(last));
        assert(graph@.links.contains_key(last));
        assert forall|k: u64| #[trigger] graph@.links.contains_key(k) implies k <= last by {
            assert(keys@.contains(k));
            let i = choose|i: int| 0 <= i < keys@.len() && keys@[i] == k;
            if i < keys@.len() - 1 {
                assert(keys@[i] < keys@[keys@.len() - 1]);
            }
        }
    }
    last + 1
}

/// The keys of two pairs have the same contents.
fn same_pair(a: &(PortKey, PortKey), output: &PortKey, input: &PortKey) -> (r: bool)
    ensures
        r == (key_pair(*a) == (output@, input@)),
{
    a.0.same_as(output) && a.1.same_as(input)
}

impl DemoDriver {
    pub open spec fn wf(&self) -> bool {
        &&& self@.wf()
        &&& self.effects.wf()
        &&& forall|id: Seq<char>| #[trigger]
            self.effects@.contains_key(id) ==> self.effects@[id].config.wf()
        &&& forall|k: u64| #[trigger]
            self.pending_effects@.contains_key(k) ==> self.pending_effects@[k].wf()
    }

    /// A backend for a graph.
    pub fn new(graph: Graph) -> (r: DemoDriver)
        requires
            graph.wf(),
            forall|k: u64| #[trigger] graph@.links.contains_key(k) ==> k < u64::MAX,
        ensures
            r.wf(),
            above_links(graph@, r@.next_link_id),
            r@ == (DemoView {
                graph: graph@,
                next_link_id: r@.next_link_id,
                audio_controls: Map::empty(),
                observed_links: Seq::empty(),
                effects: Map::empty(),
                pending_effects: Map::empty(),
                next_effect_id: 1000,
                recorders: Map::empty(),
                next_recorder_id: 1,
                suppressed_connections: Seq::empty(),
                forced_failures: ForcedFailuresView {
                    connects: Seq::empty(),
                    disconnects: Seq::empty(),
                    disconnect_pairs: Seq::empty(),
                    positions: Seq::empty(),
                },
            }),
    {
        let next_link_id = next_above(&graph);
        let r = DemoDriver {
            graph,
            next_link_id,
            audio_controls: BTreeMap::new(),
            observed_links: Vec::new(),
            effects: TextTable::new(),
            pending_effects: BTreeMap::new(),
            next_effect_id: 1000,
            recorders: BTreeMap::new(),
            next_recorder_id: 1,
            suppressed_connections: Vec::new(),
            forced_failures: ForcedFailures {
                connects: Vec::new(),
                disconnects: Vec::new(),
                disconnect_pairs: Vec::new(),
                positions: Vec::new(),
            },
        };
        assert(r@.effects =~= Map::empty());
        assert(r@.pending_effects =~= Map::empty());
        assert(r@.recorders =~= Map::empty());
        assert(r@.suppressed_connections =~= Seq::empty());
        r
    }

    /// Takes on another graph, as a backend does whose daemon was restarted.
    /// Recorders are gone with it; effects are kept, whether they stand in it
    /// or not.
    pub fn replace_graph(&mut self, graph: Graph)
        requires
            old(self).wf(),
            graph.wf(),
            forall|k: u64| #[trigger] graph@.links.contains_key(k) ==> k < u64::MAX,
        ensures
            final(self).wf(),
            above_links(graph@, final(self)@.next_link_id),
            final(self)@ == (DemoView {
                graph: graph@,
                next_link_id: final(self)@.next_link_id,
                recorders: Map::empty(),
                observed_links: Seq::empty(),
                ..old(self)@
            }),
    {
        self.next_link_id = next_above(&graph);
        self.graph = graph;
        self.recorders = BTreeMap::new();
        self.observed_links = Vec::new();
        assert(self@.recorders =~= Map::empty());
    }

    pub fn graph(&self) -> (r: &Graph)
        ensures
            r@ == self@.graph,
    {
        &self.graph
    }

    pub fn into_graph(self) -> (r: Graph)
        ensures
            r@ == self@.graph,
    {
        self.graph
    }

    /// Marks a link as one that cannot be changed.
    pub fn mark_link_observed(&mut self, link: LinkId)
        requires
            old(self).wf(),
        ensures
            final(self).wf(),
            final(self)@ == (DemoView {
                observed_links: joined_by(old(self)@.observed_links, link.0),
                ..old(self)@
            }),
    {
        if !list_contains(&self.observed_links, link.0) {
            self.observed_links.push(link.0);
        }
    }

    /// Makes every connection of two ports fail from now on.
    pub fn fail_connect_of(&mut self, src: PortId, dst: PortId)
        requires
            old(self).wf(),
        ensures
            final(self).wf(),
            final(self)@ == (DemoView {
                forced_failures: ForcedFailuresView {
                    connects: joined_by(old(self)@.forced_failures.connects, (src, dst)),
                    ..old(self)@.forced_failures
                },
                ..old(self)@
            }),
    {
        if !has_pair(&self.forced_failures.connects, (src, dst)) {
            self.forced_failures.connects.push((src, dst));
        }
    }

    /// Makes every removal of a link fail from now on.
    pub fn fail_disconnect_of(&mut self, link: LinkId)
        requires
            old(self).wf(),
        ensures
            final(self).wf(),
            final(self)@ == (DemoView {
                forced_failures: ForcedFailuresView {
                    disconnects: joined_by(old(self)@.forced_failures.disconnects, link.0),
                    ..old(self)@.forced_failures
                },
                ..old(self)@
            }),
    {
        if !list_contains(&self.forced_failures.disconnects, link.0) {
            self.forced_failures.disconnects.push(link.0);
        }
    }

    /// Makes every removal of a link between two ports fail from now on, also
    /// of one that does not exist yet.
    pub fn fail_disconnect_of_pair(&mut self, src: PortId, dst: PortId)
        requires
            old(self).wf(),
        ensures
            final(self).wf(),
            final(self)@ == (DemoView {
                forced_failures: ForcedFailuresView {
                    disconnect_pairs: joined_by(
                        old(self)@.forced_failures.disconnect_pairs,
                        (src, dst),
                    ),
                    ..old(self)@.forced_failures
                },
                ..old(self)@
            }),
    {
        if !has_pair(&self.forced_failures.disconnect_pairs, (src, dst)) {
            self.forced_failures.disconnect_pairs.push((src, dst));
        }
    }

    /// Lets connections of two ports succeed again.
    pub fn allow_connect_of(&mut self, src: PortId, dst: PortId)
        requires
            old(self).wf(),
        ensures
            final(self).wf(),
            final(self)@ == (DemoView {
                forced_failures: ForcedFailuresView {
                    connects: kept(
                        old(self)@.forced_failures.connects,
                        |p: (PortId, PortId)| p != (src, dst),
                    ),
                    ..old(self)@.forced_failures
                },
                ..old(self)@
            }),
    {
        let ghost pred = |p: (PortId, PortId)| p != (src, dst);
        let mut out: Vec<(PortId, PortId)> = Vec::new();
        let mut i: usize = 0;
        while i < self.forced_failures.connects.len()
            invariant
                i <= self.forced_failures.connects.len(),
                pred == (|p: (PortId, PortId)| p != (src, dst)),
                out@ == kept(self.forced_failures.connects@.take(i as int), pred),
            decreases self.forced_failures.connects.len() - i,
        {
            let pair = self.forced_failures.connects[i];
            proof {
                lemma_kept_step(self.forced_failures.connects@, pred, i as int);
            }
            if !(pair.0 == src && pair.1 == dst) {
                out.push(pair);
            }
            i = i + 1;
        }
        assert(self.forced_failures.connects@.take(self.forced_failures.connects@.len() as int)
            =~= self.forced_failures.connects@);
        self.forced_failures.connects = out;
    }

    /// Makes a node refuse a position from now on.
    pub fn fail_position_at(&mut self, node: NodeId, position: Position)
        requires
            old(self).wf(),
        ensures
            final(self).wf(),
            final(self)@ == (DemoView {
                forced_failures: ForcedFailuresView {
                    positions: joined_by(old(self)@.forced_failures.positions, (node, position)),
                    ..old(self)@.forced_failures
                },
                ..old(self)@
            }),
    {
        if !self.refuses_position(node, position) {
            self.forced_failures.positions.push((node, position));
        }
    }

    fn refuses_position(&self, node: NodeId, position: Position) -> (r: bool)
        ensures
            r == self@.forced_failures.positions.contains((node, position)),
    {
        let list = &self.forced_failures.positions;
        let mut i: usize = 0;
        while i < list.len()
            invariant
                i <= list.len(),
                list@ == self@.forced_failures.positions,
                forall|j: int| 0 <= j < i ==> list@[j] != (node, position),
            decreases list.len() - i,
        {
            if list[i].0 == node && list[i].1 == position {
                assert(list@[i as int] == (node, position));
                return true;
            }
            i = i + 1;
        }
        false
    }

    /// Whether a pair of ports is remembered as one that was disconnected.
    pub fn is_connection_suppressed(&self, output: &PortKey, input: &PortKey) -> (r: bool)
        ensures
            r == self@.suppressed_connections.contains((output@, input@)),
    {
        let list = &self.suppressed_connections;
        let ghost views = self@.suppressed_connections;
        let mut i: usize = 0;
        while i < list.len()
            invariant
                i <= list.len(),
                views == self@.suppressed_connections,
                views == list@.map_values(|p: (PortKey, PortKey)| key_pair(p)),
                forall|j: int| 0 <= j < i ==> views[j] != (output@, input@),
            decreases list.len() - i,
        {
            if same_pair(&list[i], output, input) {
                assert(views[i as int] == (output@, input@));
                return true;
            }
            i = i + 1;
        }
        false
    }

    /// Remembers a pair of ports as one that was disconnected.
    pub fn suppress_connection(&mut self, output: &PortKey, input: &PortKey)
        requires
            old(self).wf(),
        ensures
            final(self).wf(),
            final(self)@ == (DemoView {
                suppressed_connections: joined_by(
                    old(self)@.suppressed_connections,
                    (output@, input@),
                ),
                ..old(self)@
            }),
    {
        if !self.is_connection_suppressed(output, input) {
            let ghost before = self@.suppressed_connections;
            self.suppressed_connections.push((output.duplicate(), input.duplicate()));
            assert(self@.suppressed_connections =~= before.push((output@, input@)));
        }
    }

    /// Remembers a pair of ports as one that was disconnected.
    pub fn mark_connection_suppressed(&mut self, output: PortKey, input: PortKey)
        requires
            old(self).wf(),
        ensures
            final(self).wf(),
            final(self)@ == (DemoView {
                suppressed_connections: joined_by(
                    old(self)@.suppressed_connections,
                    (output@, input@),
                ),
                ..old(self)@
            }),
    {
        self.suppress_connection(&output, &input);
    }

    /// Forgets that a pair of ports was disconnected.
    pub fn allow_connection(&mut self, output: &PortKey, input: &PortKey)
        requires
            old(self).wf(),
        ensures
            final(self).wf(),
            final(self)@ == (DemoView {
                suppressed_connections: kept(
                    old(self)@.suppressed_connections,
                    |p: (PortKeyView, PortKeyView)| p != (output@, input@),
                ),
                ..old(self)@
            }),
    {
        let ghost pred = |p: (PortKeyView, PortKeyView)| p != (output@, input@);
        let ghost views = self@.suppressed_connections;
        let ghost v = |p: (PortKey, PortKey)| key_pair(p);
        let mut out: Vec<(PortKey, PortKey)> = Vec::new();
        let mut i: usize = 0;
        assert(out@.map_values(v) =~= kept(views.take(0), pred));
        while i < self.suppressed_connections.len()
            invariant
                i <= self.suppressed_connections.len(),
                v == (|p: (PortKey, PortKey)| key_pair(p)),
                views == self.suppressed_connections@.map_values(v),
                pred == (|p: (PortKeyView, PortKeyView)| p != (output@, input@)),
                out@.map_values(v) == kept(views.take(i as int), pred),
            decreases self.suppressed_connections.len() - i,
        {
            let pair = &self.suppressed_connections[i];
            let ghost before = out@;
            proof {
                lemma_kept_step(views, pred, i as int);
            }
            if !same_pair(pair, output, input) {
                let copy = (pair.0.duplicate(), pair.1.duplicate());
                out.push(copy);
                assert(out@.map_values(v) =~= before.map_values(v).push(views[i as int]));
            }
            i = i + 1;
        }
        assert(views.take(views.len() as int) =~= views);
        self.suppressed_connections = out;
    }

    pub fn capabilities(&self) -> (r: BackendCapabilities)
        ensures
            r == (BackendCapabilities {
                topology: true,
                connect: true,
                disconnect: true,
                volume: true,
                mute: true,
                meters: true,
                effects: true,
                relay: false,
                recorders: true,
            }),
    {
        BackendCapabilities {
            topology: true,
            connect: true,
            disconnect: true,
            volume: true,
            mute: true,
            meters: true,
            effects: true,
            relay: false,
            recorders: true,
        }
    }

    /// Connects two ports. The number of a refused link is not used again.
    pub fn connect(&mut self, src: PortId, dst: PortId) -> (r: Result<Link, BackendError>)
        requires
            old(self).wf(),
            old(self)@.next_link_id < u64::MAX,
        ensures
            final(self).wf(),
            final(self)@ == old(self)@.connecting(src, dst).0,
            match old(self)@.connecting(src, dst).1 {
                Ok(link) => r == Ok::<Link, BackendError>(link),
                Err(error) => r matches Err(e) && e@ == error,
            },
    {
        if has_pair(&self.forced_failures.connects, (src, dst)) {
            return Err(BackendError::native("connect refused by the test driver"));
        }
        let id = LinkId(self.next_link_id);
        self.next_link_id = self.next_link_id + 1;
        let ghost before = self@;
        match self.graph.add_link(id, src, dst) {
            Ok(link) => {
                proof {
                    lemma_links_leave_nodes(before, self@);
                }
                Ok(link)
            },
            Err(error) => Err(BackendError::Graph(error)),
        }
    }

    /// Takes down a link.
    pub fn disconnect(&mut self, link: LinkId) -> (r: Result<Link, BackendError>)
        requires
            old(self).wf(),
        ensures
            final(self).wf(),
            final(self)@ == old(self)@.disconnecting(link).0,
            match old(self)@.disconnecting(link).1 {
                Ok(gone) => r == Ok::<Link, BackendError>(gone),
                Err(error) => r matches Err(e) && e@ == error,
            },
    {
        let by_pair = match self.graph.link(link) {
            Some(existing) => has_pair(
                &self.forced_failures.disconnect_pairs,
                (existing.output_port, existing.input_port),
            ),
            None => false,
        };
        if list_contains(&self.forced_failures.disconnects, link.0) || by_pair {
            return Err(BackendError::native("disconnect refused by the test driver"));
        }
        let ghost before = self@;
        match self.graph.remove_link(link) {
            Ok(removed) => {
                proof {
                    lemma_links_leave_nodes(before, self@);
                }
                Ok(removed)
            },
            Err(error) => Err(BackendError::Graph(error)),
        }
    }

    /// Whether a link can be changed.
    pub fn is_link_mutable(&self, link: LinkId) -> (r: bool)
        ensures
            r == (self@.graph.has_link(link) && !self@.observed_links.contains(link.0)),
    {
        self.graph.link(link).is_some() && !list_contains(&self.observed_links, link.0)
    }

    /// Moves a node.
    pub fn set_node_position(&mut self, node: NodeId, position: Position) -> (r: Result<
        (),
        BackendError,
    >)
        requires
            old(self).wf(),
        ensures
            final(self).wf(),
            if old(self)@.forced_failures.positions.contains((node, position)) {
                &&& r matches Err(e) && e@ == BackendErrorView::Native(
                    "node position refused by the test driver"@,
                )
                &&& final(self)@ == old(self)@
            } else if old(self)@.graph.has_node(node) {
                &&& r is Ok
                &&& final(self)@ == (DemoView {
                    graph: old(self)@.graph.with_position(node, position),
                    ..old(self)@
                })
            } else {
                &&& r matches Err(e) && e@ == BackendErrorView::Graph(
                    GraphError::MissingNode(node),
                )
                &&& final(self)@ == old(self)@
            },
    {
        if self.refuses_position(node, position) {
            return Err(BackendError::native("node position refused by the test driver"));
        }
        let ghost before = self@;
        match self.graph.set_position(node, position) {
            Ok(()) => {
                proof {
                    lemma_positions_leave_ports(before, self@, node, position);
                }
                Ok(())
            },
            Err(error) => Err(BackendError::Graph(error)),
        }
    }

    fn control_of(&self, node: NodeId) -> (r: NodeAudioControl)
        ensures
            r == self@.control(node),
    {
        match self.audio_controls.get(&node.0) {
            Some(control) => *control,
            None => NodeAudioControl::default(),
        }
    }

    /// Mutes a node.
    pub fn set_node_mute(&mut self, node: NodeId, muted: bool) -> (r: Result<(), BackendError>)
        requires
            old(self).wf(),
        ensures
            final(self).wf(),
            if old(self)@.graph.has_node(node) {
                &&& r is Ok
                &&& final(self)@ == old(self)@.muting(node, muted)
            } else {
                &&& r matches Err(e) && e@ == BackendErrorView::Graph(
                    GraphError::MissingNode(node),
                )
                &&& final(self)@ == old(self)@
            },
    {
        if self.graph.node(node).is_none() {
            return Err(BackendError::Graph(GraphError::MissingNode(node)));
        }
        let mut control = self.control_of(node);
        control.muted = muted;
        self.audio_controls.insert(node.0, control);
        Ok(())
    }

    /// Sets the volume of a node, held within its range.
    pub fn set_node_volume(&mut self, node: NodeId, volume: u32) -> (r: Result<(), BackendError>)
        requires
            old(self).wf(),
        ensures
            final(self).wf(),
            if old(self)@.graph.has_node(node) {
                &&& r is Ok
                &&& final(self)@ == old(self)@.turning(node, volume)
            } else {
                &&& r matches Err(e) && e@ == BackendErrorView::Graph(
                    GraphError::MissingNode(node),
                )
                &&& final(self)@ == old(self)@
            },
    {
        if self.graph.node(node).is_none() {
            return Err(BackendError::Graph(GraphError::MissingNode(node)));
        }
        let mut control = self.control_of(node);
        control.volume = hold(volume, MAX_VOLUME);
        self.audio_controls.insert(node.0, control);
        Ok(())
    }

    /// The audio state of a node. Effects and recorders have none.
    pub fn node_audio_state(&self, node: NodeId) -> (r: Result<NodeAudioState, BackendError>)
        ensures
            if self@.graph.has_node(node) {
                r == Ok::<NodeAudioState, BackendError>(self@.audio_state(node))
            } else {
                r matches Err(e) && e@ == BackendErrorView::Graph(GraphError::MissingNode(node))
            },
    {
        match self.graph.node(node) {
            None => Err(BackendError::Graph(GraphError::MissingNode(node))),
            Some(record) => {
                if record.node_type == NodeType::Effect || record.node_type == NodeType::Recorder {
                    return Ok(NodeAudioState::unsupported());
                }
                let control = self.control_of(node);
                Ok(NodeAudioState::readable(control.volume, control.muted))
            },
        }
    }

    /// What can be controlled and measured on a node.
    pub fn node_capabilities(&self, node: NodeId) -> (r: NodeCapabilities)
        ensures
            r == (if !self@.graph.has_node(node) {
                NodeAudioState::nothing().controls()
            } else if self@.audio_state(node).supported() {
                NodeCapabilities {
                    volume_max: MAX_VOLUME,
                    meter_peak: true,
                    meter_rms: true,
                    ..self@.audio_state(node).controls()
                }
            } else {
                self@.audio_state(node).controls()
            }),
    {
        match self.node_audio_state(node) {
            Err(_) => NodeCapabilities::none(),
            Ok(state) => {
                let mut capabilities = state.control_capabilities();
                if state.is_supported() {
                    capabilities.volume_max = MAX_VOLUME;
                    capabilities.meter_peak = true;
                    capabilities.meter_rms = true;
                }
                capabilities
            },
        }
    }

    /// Whether the backend has nodes of a type.
    pub fn is_node_type(&self, node_type: NodeType) -> (r: bool)
        ensures
            r == (node_type == NodeType::PipeWire || node_type == NodeType::Effect || node_type
                == NodeType::Recorder),
    {
        node_type == NodeType::PipeWire || node_type == NodeType::Effect || node_type
            == NodeType::Recorder
    }
}

impl DemoView {
    /// The controls of a node; those that were never set are initial.
    pub open spec fn control(self, node: NodeId) -> NodeAudioControl {
        if self.audio_controls.contains_key(node.0) {
            self.audio_controls[node.0]
        } else {
            NodeAudioControl::initial()
        }
    }

    /// The driver after a node was muted or not.
    pub open spec fn muting(self, node: NodeId, muted: bool) -> DemoView {
        DemoView {
            audio_controls: self.audio_controls.insert(
                node.0,
                NodeAudioControl { muted, ..self.control(node) },
            ),
            ..self
        }
    }

    /// The driver after the volume of a node was set.
    pub open spec fn turning(self, node: NodeId, volume: u32) -> DemoView {
        DemoView {
            audio_controls: self.audio_controls.insert(
                node.0,
                NodeAudioControl { volume: held(volume, MAX_VOLUME), ..self.control(node) },
            ),
            ..self
        }
    }

    /// Connecting two ports: the driver afterwards and the answer.
    pub open spec fn connecting(self, src: PortId, dst: PortId) -> (
        DemoView,
        Result<Link, BackendErrorView>,
    ) {
        let link = Link { id: LinkId(self.next_link_id), output_port: src, input_port: dst };
        let counted = DemoView { next_link_id: (self.next_link_id + 1) as u64, ..self };
        if self.forced_failures.connects.contains((src, dst)) {
            (self, Err(BackendErrorView::Native("connect refused by the test driver"@)))
        } else {
            match self.graph.add_link_error(link) {
                Some(error) => (counted, Err(BackendErrorView::Graph(error))),
                None => (DemoView { graph: self.graph.with_link(link), ..counted }, Ok(link)),
            }
        }
    }

    /// Taking a link away: the driver afterwards and the answer.
    pub open spec fn disconnecting(self, link: LinkId) -> (
        DemoView,
        Result<Link, BackendErrorView>,
    ) {
        let g = self.graph;
        let refused = self.forced_failures.disconnects.contains(link.0) || (g.has_link(link)
            && self.forced_failures.disconnect_pairs.contains(
            (g.link(link).output_port, g.link(link).input_port),
        ));
        if refused {
            (self, Err(BackendErrorView::Native("disconnect refused by the test driver"@)))
        } else if g.has_link(link) {
            (DemoView { graph: g.without_link(link), ..self }, Ok(g.link(link)))
        } else {
            (self, Err(BackendErrorView::Graph(GraphError::MissingLink(link))))
        }
    }

    /// The audio state of a node of the graph.
    pub open spec fn audio_state(self, node: NodeId) -> NodeAudioState {
        let node_type = self.graph.node(node).node_type;
        if node_type == NodeType::Effect || node_type == NodeType::Recorder {
            NodeAudioState::nothing()
        } else {
            NodeAudioState::full(self.control(node).volume, self.control(node).muted)
        }
    }
}

proof fn lemma_links_leave_nodes(before: DemoView, after: DemoView)
    requires
        before.wf(),
        after.graph.wf(),
        after.graph.nodes == before.graph.nodes,
        after.graph.ports == before.graph.ports,
        after.effects == before.effects,
        after.recorders == before.recorders,
        after.next_effect_id == before.next_effect_id,
        after.next_recorder_id == before.next_recorder_id,
        forall|k: u64| #[trigger] after.graph.links.contains_key(k) ==> k < after.next_link_id,
    ensures
        after.wf(),
{
    assert forall|id: Seq<char>| #[trigger] after.effects.contains_key(
        id,
    ) implies after.effects[id].config.instance_id == id && after.effects[id].node_id.0
        < after.next_effect_id && after.effects[id].input_port.0 < after.next_effect_id
        && after.effects[id].output_port.0 < after.next_effect_id by {
        assert(before.effects.contains_key(id));
    }
    assert forall|k: u64| #[trigger] after.recorders.contains_key(k) implies recorder_fits(
        after.graph,
        after.recorders[k].node_id,
        after.recorders[k].input_port,
    ) && after.recorders[k].node_id.0 < after.next_effect_id by {
        assert(before.recorders.contains_key(k));
    }
    assert forall|a: Seq<char>, b: Seq<char>|
        #![trigger after.effects.contains_key(a), after.effects.contains_key(b)]
        after.effects.contains_key(a) && after.effects.contains_key(b) && a
            != b implies after.effects[a].node_id != after.effects[b].node_id by {
        assert(before.effects.contains_key(a));
        assert(before.effects.contains_key(b));
    }
    assert forall|a: u64, b: u64|
        #![trigger after.recorders.contains_key(a), after.recorders.contains_key(b)]
        after.recorders.contains_key(a) && after.recorders.contains_key(b) && a
            != b implies after.recorders[a].node_id != after.recorders[b].node_id by {
        assert(before.recorders.contains_key(a));
        assert(before.recorders.contains_key(b));
    }
    assert forall|a: Seq<char>, k: u64|
        #![trigger after.effects.contains_key(a), after.recorders.contains_key(k)]
        after.effects.contains_key(a) && after.recorders.contains_key(
            k,
        ) implies after.effects[a].node_id != after.recorders[k].node_id by {
        assert(before.effects.contains_key(a));
        assert(before.recorders.contains_key(k));
    }
}

proof fn lemma_positions_leave_ports(
    before: DemoView,
    after: DemoView,
    node: NodeId,
    position: Position,
)
    requires
        before.wf(),
        before.graph.has_node(node),
        after == (DemoView {
            graph: before.graph.with_position(node, position),
            ..before
        }),
        after.graph.wf(),
    ensures
        after.wf(),
{
    assert forall|id: Seq<char>| #[trigger] after.effects.contains_key(
        id,
    ) implies after.effects[id].config.instance_id == id && after.effects[id].node_id.0
        < after.next_effect_id && after.effects[id].input_port.0 < after.next_effect_id
        && after.effects[id].output_port.0 < after.next_effect_id by {
        assert(before.effects.contains_key(id));
    }
    assert forall|k: u64| #[trigger] after.recorders.contains_key(k) implies recorder_fits(
        after.graph,
        after.recorders[k].node_id,
        after.recorders[k].input_port,
    ) && after.recorders[k].node_id.0 < after.next_effect_id by {
        assert(before.recorders.contains_key(k));
    }
    assert forall|k: u64| #[trigger] after.graph.links.contains_key(k) implies k
        < after.next_link_id by {
        assert(before.graph.links.contains_key(k));
    }
    assert forall|a: Seq<char>, b: Seq<char>|
        #![trigger after.effects.contains_key(a), after.effects.contains_key(b)]
        after.effects.contains_key(a) && after.effects.contains_key(b) && a
            != b implies after.effects[a].node_id != after.effects[b].node_id by {
        assert(before.effects.contains_key(a));
        assert(before.effects.contains_key(b));
    }
    assert forall|a: u64, b: u64|
        #![trigger after.recorders.contains_key(a), after.recorders.contains_key(b)]
        after.recorders.contains_key(a) && after.recorders.contains_key(b) && a
            != b implies after.recorders[a].node_id != after.recorders[b].node_id by {
        assert(before.recorders.contains_key(a));
        assert(before.recorders.contains_key(b));
    }
    assert forall|a: Seq<char>, k: u64|
        #![trigger after.effects.contains_key(a), after.recorders.contains_key(k)]
        after.effects.contains_key(a) && after.recorders.contains_key(
            k,
        ) implies after.effects[a].node_id != after.recorders[k].node_id by {
        assert(before.effects.contains_key(a));
        assert(before.recorders.contains_key(k));
    }
}

/// The name under which tests know the backend.
pub type InMemoryDriver = DemoDriver;

/// A node of the graph that is shown without a daemon.
pub open spec fn demo_node(id: u64, name: Seq<char>, x: u32, y: u32, ports: Seq<PortId>) -> NodeView {
    NodeView {
        position: Position { x, y },
        ports,
        ..fresh_node(NodeId(id), name, NodeType::PipeWire)
    }
}

/// A port of the graph that is shown without a daemon.
pub open spec fn demo_port(
    id: u64,
    node: u64,
    name: Seq<char>,
    direction: Direction,
    port_type: PortType,
) -> PortView {
    PortView {
        id: PortId(id),
        node_id: NodeId(node),
        name,
        direction,
        port_type,
        channel: None,
    }
}

/// Eighty, the left column.
pub const DEMO_LEFT: u32 = 0x42A0_0000;

/// Five hundred and twenty, the right column.
pub const DEMO_RIGHT: u32 = 0x4402_0000;

/// One hundred, the row of the audio nodes.
pub const DEMO_TOP: u32 = 0x42C8_0000;

/// Three hundred and sixty, the row of the MIDI nodes.
pub const DEMO_BOTTOM: u32 = 0x43B4_0000;

/// The graph that is shown without a daemon: a capture and a playback device
/// with two channels each, and two MIDI devices, nothing connected.
pub open spec fn demo_graph() -> GraphView {
    GraphView {
        nodes: map![
            1u64 => demo_node(
                1,
                "Audio Capture"@,
                DEMO_LEFT,
                DEMO_TOP,
                seq![PortId(1), PortId(2)],
            ),
            2u64 => demo_node(
                2,
                "Audio Playback"@,
                DEMO_RIGHT,
                DEMO_TOP,
                seq![PortId(3), PortId(4)],
            ),
            3u64 => demo_node(3, "MIDI Controller"@, DEMO_LEFT, DEMO_BOTTOM, seq![PortId(5)]),
            4u64 => demo_node(4, "MIDI Monitor"@, DEMO_RIGHT, DEMO_BOTTOM, seq![PortId(6)]),
        ],
        ports: map![
            1u64 => demo_port(1, 1, "capture_FL"@, Direction::Source, PortType::Audio),
            2u64 => demo_port(2, 1, "capture_FR"@, Direction::Source, PortType::Audio),
            3u64 => demo_port(3, 2, "playback_FL"@, Direction::Sink, PortType::Audio),
            4u64 => demo_port(4, 2, "playback_FR"@, Direction::Sink, PortType::Audio),
            5u64 => demo_port(5, 3, "midi_out"@, Direction::Source, PortType::MidiJack),
            6u64 => demo_port(6, 4, "midi_in"@, Direction::Sink, PortType::MidiJack),
        ],
        links: Map::empty(),
    }
}

fn placed_node(id: u64, name: &str, x: u32, y: u32) -> (r: Node)
    ensures
        r@ == demo_node(id, name@, x, y, Seq::empty()),
{
    let mut node = Node::new(NodeId(id), name, NodeType::PipeWire);
    node.position = Position { x, y };
    node
}

fn add_demo_port(
    graph: &mut Graph,
    id: u64,
    node: u64,
    name: &str,
    direction: Direction,
    port_type: PortType,
)
    requires
        old(graph).wf(),
        !old(graph)@.ports.contains_key(id),
        old(graph)@.nodes.contains_key(node),
    ensures
        final(graph).wf(),
        old(graph)@.add_port_result(demo_port(id, node, name@, direction, port_type)) == Ok::<
            GraphView,
            GraphError,
        >(final(graph)@),
{
    let _ = graph.add_port(Port::new(PortId(id), NodeId(node), name, direction, port_type));
}

impl DemoDriver {
    /// The backend that is shown without a daemon.
    pub fn demo() -> (r: DemoDriver)
        ensures
            r.wf(),
            r@.graph == demo_graph(),
            r@.next_link_id == 1,
            r@.next_effect_id == 1000,
            r@.effects == Map::<Seq<char>, EffectInstanceView>::empty(),
            r@.forced_failures.connects == Seq::<(PortId, PortId)>::empty(),
    {
        let mut graph = Graph::new();
        let _ = graph.add_node(placed_node(1, "Audio Capture", DEMO_LEFT, DEMO_TOP));
        let _ = graph.add_node(placed_node(2, "Audio Playback", DEMO_RIGHT, DEMO_TOP));
        let _ = graph.add_node(placed_node(3, "MIDI Controller", DEMO_LEFT, DEMO_BOTTOM));
        let _ = graph.add_node(placed_node(4, "MIDI Monitor", DEMO_RIGHT, DEMO_BOTTOM));
        add_demo_port(&mut graph, 1, 1, "capture_FL", Direction::Source, PortType::Audio);
        add_demo_port(&mut graph, 2, 1, "capture_FR", Direction::Source, PortType::Audio);
        add_demo_port(&mut graph, 3, 2, "playback_FL", Direction::Sink, PortType::Audio);
        add_demo_port(&mut graph, 4, 2, "playback_FR", Direction::Sink, PortType::Audio);
        add_demo_port(&mut graph, 5, 3, "midi_out", Direction::Source, PortType::MidiJack);
        add_demo_port(&mut graph, 6, 4, "midi_in", Direction::Sink, PortType::MidiJack);
        proof {
            let g = graph@;
            assert(g.nodes[1].ports =~= seq![PortId(1), PortId(2)]);
            assert(g.nodes[2].ports =~= seq![PortId(3), PortId(4)]);
            assert(g.nodes[3].ports =~= seq![PortId(5)]);
            assert(g.nodes[4].ports =~= seq![PortId(6)]);
            assert(g.nodes =~= demo_graph().nodes);
            assert(g.ports =~= demo_graph().ports);
            assert(g.links =~= demo_graph().links);
            assert(g =~= demo_graph());
        }
        DemoDriver::new(graph)
    }
}

/// Taking down a link that was just made gives back the graph.
pub proof fn law_connect_disconnect_restores(g: GraphView, link: Link)
    requires
        g.wf(),
        g.add_link_error(link) is None,
    ensures
        g.with_link(link).has_link(link.id),
        g.with_link(link).link(link.id) == link,
        g.with_link(link).without_link(link.id) == g,
{
    crate::graph::law_link_add_remove_is_identity(g, link);
}

/// Allowing a connection that was suppressed, and was not before, leaves the
/// suppressed ones as they were; others are never touched.
pub proof fn law_suppress_allow_restores(
    list: Seq<(PortKeyView, PortKeyView)>,
    pair: (PortKeyView, PortKeyView),
)
    ensures
        joined_by(list, pair).contains(pair),
        !kept(list, |p: (PortKeyView, PortKeyView)| p != pair).contains(pair),
        !list.contains(pair) ==> kept(
            joined_by(list, pair),
            |p: (PortKeyView, PortKeyView)| p != pair,
        ) == list,
        forall|other: (PortKeyView, PortKeyView)|
            other != pair ==> (#[trigger] joined_by(list, pair).contains(other) == list.contains(
                other,
            )),
{
    let p = |p: (PortKeyView, PortKeyView)| p != pair;
    lemma_push_contains(list, pair, pair);
    crate::lists::lemma_kept_members(list, p, pair);
    if !list.contains(pair) {
        let more = list.push(pair);
        assert(more.drop_last() =~= list);
        assert(more.last() == pair);
        lemma_kept_all(list, p);
    }
    assert forall|other: (PortKeyView, PortKeyView)| other != pair implies (#[trigger] joined_by(
        list,
        pair,
    ).contains(other) == list.contains(other)) by {
        lemma_push_contains(list, pair, other);
    }
}

proof fn lemma_kept_all<A>(s: Seq<A>, p: spec_fn(A) -> bool)
    requires
        forall|x: A| #[trigger] s.contains(x) ==> p(x),
    ensures
        kept(s, p) == s,
    decreases s.len(),
{
    if s.len() > 0 {
        assert(s.contains(s.last()));
        assert forall|x: A| #[trigger] s.drop_last().contains(x) implies p(x) by {
            lemma_push_contains(s.drop_last(), s.last(), x);
            assert(s.drop_last().push(s.last()) =~= s);
            assert(s.contains(x));
        }
        lemma_kept_all(s.drop_last(), p);
        assert(s.drop_last().push(s.last()) =~= s);
    } else {
        assert(kept(s, p) =~= s);
    }
}

/// Connecting two ports connects them by one new link from the first to the
/// second; a refusal leaves the graph as it is, and two ports that fit and are
/// not connected yet are not refused unless that was asked for.
pub proof fn law_connecting(v: DemoView, src: PortId, dst: PortId, k: u64)
    requires
        v.wf(),
        v.next_link_id < u64::MAX,
    ensures
        ({
            let (after, answer) = v.connecting(src, dst);
            &&& match answer {
                Ok(link) => {
                    &&& link.output_port == src
                    &&& link.input_port == dst
                    &&& !v.graph.has_link(link.id)
                    &&& after.graph.has_link(link.id)
                    &&& after.graph.link(link.id) == link
                    &&& after.graph.connected(src, dst)
                    &&& k != link.id.0 ==> (after.graph.links.contains_key(k)
                        <==> v.graph.links.contains_key(k)) && (v.graph.links.contains_key(k)
                        ==> after.graph.links[k] == v.graph.links[k])
                    &&& after.graph.nodes == v.graph.nodes
                    &&& after.graph.ports == v.graph.ports
                },
                Err(_) => after.graph == v.graph,
            }
            &&& v.graph.has_port(src) && v.graph.has_port(dst) && v.graph.port(src).direction
                == Direction::Source && v.graph.port(dst).direction == Direction::Sink
                && v.graph.port(src).port_type == v.graph.port(dst).port_type
                && !v.graph.connected(src, dst) && !v.forced_failures.connects.contains((src, dst))
                ==> answer is Ok
            &&& after.effects == v.effects
            &&& after.recorders == v.recorders
            &&& after.audio_controls == v.audio_controls
        }),
{
    let (after, answer) = v.connecting(src, dst);
    if answer is Ok {
        assert(after.graph.links.contains_key(v.next_link_id));
    }
}

/// Taking a link away takes that link away and answers which it was; a refusal
/// leaves everything as it is, and a link that is there is not refused unless
/// that was asked for.
pub proof fn law_disconnecting(v: DemoView, link: LinkId, k: u64)
    ensures
        ({
            let (after, answer) = v.disconnecting(link);
            &&& match answer {
                Ok(gone) => {
                    &&& v.graph.has_link(link)
                    &&& gone == v.graph.link(link)
                    &&& !after.graph.has_link(link)
                    &&& k != link.0 ==> (after.graph.links.contains_key(k)
                        <==> v.graph.links.contains_key(k)) && (v.graph.links.contains_key(k)
                        ==> after.graph.links[k] == v.graph.links[k])
                    &&& after == (DemoView { graph: after.graph, ..v })
                    &&& after.graph.nodes == v.graph.nodes
                    &&& after.graph.ports == v.graph.ports
                },
                Err(_) => after == v,
            }
            &&& v.graph.has_link(link) && !v.forced_failures.disconnects.contains(link.0)
                && !v.forced_failures.disconnect_pairs.contains(
                (v.graph.link(link).output_port, v.graph.link(link).input_port),
            ) ==> answer is Ok
        }),
{
}

/// Taking away what was just connected leaves the graph as it was.
pub proof fn law_connect_and_disconnect(v: DemoView, src: PortId, dst: PortId)
    requires
        v.wf(),
        v.next_link_id < u64::MAX,
        v.connecting(src, dst).1 is Ok,
        v.connecting(src, dst).0.disconnecting(LinkId(v.next_link_id)).1 is Ok,
    ensures
        v.connecting(src, dst).0.disconnecting(LinkId(v.next_link_id)).0.graph == v.graph,
{
    let link = v.connecting(src, dst).1->Ok_0;
    law_connect_disconnect_restores(v.graph, link);
}

/// Muting a node keeps its volume and turning it keeps whether it is muted;
/// neither touches another node. A volume above the largest is held at it.
pub proof fn law_node_controls(v: DemoView, node: NodeId, other: NodeId, muted: bool, volume: u32)
    ensures
        v.muting(node, muted).control(node).muted == muted,
        v.muting(node, muted).control(node).volume == v.control(node).volume,
        v.turning(node, volume).control(node).muted == v.control(node).muted,
        volume <= MAX_VOLUME ==> v.turning(node, volume).control(node).volume == volume,
        MAX_VOLUME < volume <= crate::samples::INFINITE ==> v.turning(node, volume).control(
            node,
        ).volume == MAX_VOLUME,
        other != node ==> v.muting(node, muted).control(other) == v.control(other)
            && v.turning(node, volume).control(other) == v.control(other),
        v.muting(node, muted).graph == v.graph,
        v.turning(node, volume).graph == v.graph,
        !v.audio_controls.contains_key(node.0) ==> v.control(node).volume == UNITY && !v.control(
            node,
        ).muted,
{
}

/// A pair of keys is read in its order.
pub proof fn law_key_pairs(pair: (PortKey, PortKey), other: (PortKey, PortKey))
    ensures
        key_pair(pair).0 == pair.0@,
        key_pair(pair).1 == pair.1@,
        key_pair(pair) == key_pair(other) <==> pair.0@ == other.0@ && pair.1@ == other.1@,
{
}

} // verus!
