//! Which nodes are metered, and for how long.
use crate::graph::{Graph, GraphView};
use crate::ids::{native_node_id, native_part, NodeId, PortId};
use crate::lists::{kept, lemma_kept_ascending, lemma_kept_step, lemma_none_in, some_in};
use crate::model::{Direction, PortType};
use crate::registry::{NodeRecord, NodeRecordView, RegistryState, RegistryView};
use crate::snapshot::METER_NODE_PREFIX;
use crate::table::{
    ascending, insert_ascending, keys_of, lemma_picked_lists, lemma_push_contains, lists_domain,
    picked,
};
use crate::text::{
    concat2, concat3, decimal, decimal_text, eq_ignoring_case, has_sub, lower, lower_contains,
    same_ignoring_case,
};
use std::collections::BTreeMap;
use vstd::prelude::*;

verus! {

broadcast use vstd::std_specs::btree::group_btree_axioms;

/// When metering streams are opened.
#[derive(Clone, Copy, Debug, PartialEq, Eq, Structural)]
pub enum MeterPolicy {
    Disabled,
    OnDemand,
    Always,
}

/// The policy that a setting names, in any case; an unknown setting means on
/// demand.
pub open spec fn policy_named(s: Seq<char>) -> MeterPolicy {
    if same_ignoring_case(s, "off"@) {
        MeterPolicy::Disabled
    } else if same_ignoring_case(s, "all"@) {
        MeterPolicy::Always
    } else {
        MeterPolicy::OnDemand
    }
}

/// The setting for a policy.
pub open spec fn policy_name(policy: MeterPolicy) -> Seq<char> {
    match policy {
        MeterPolicy::Disabled => "off"@,
        MeterPolicy::OnDemand => "on-demand"@,
        MeterPolicy::Always => "all"@,
    }
}

impl Default for MeterPolicy {
    fn default() -> (r: MeterPolicy)
        ensures
            r == MeterPolicy::OnDemand,
    {
        MeterPolicy::OnDemand
    }
}

impl MeterPolicy {
    /// Every policy.
    pub fn all() -> (r: [MeterPolicy; 3])
        ensures
            r@ == seq![MeterPolicy::Disabled, MeterPolicy::OnDemand, MeterPolicy::Always],
    {
        [MeterPolicy::Disabled, MeterPolicy::OnDemand, MeterPolicy::Always]
    }

    pub fn parse(value: &str) -> (r: MeterPolicy)
        ensures
            r == policy_named(value@),
    {
        if eq_ignoring_case(value, "off") {
            MeterPolicy::Disabled
        } else if eq_ignoring_case(value, "all") {
            MeterPolicy::Always
        } else {
            MeterPolicy::OnDemand
        }
    }

    pub fn as_str(&self) -> (r: &'static str)
        ensures
            r@ == policy_name(*self),
    {
        match self {
            MeterPolicy::Disabled => "off",
            MeterPolicy::OnDemand => "on-demand",
            MeterPolicy::Always => "all",
        }
    }
}

/// The policy that a setting asks for, where it is not the one in force.
pub fn policy_change(current: MeterPolicy, setting: &str) -> (r: Option<MeterPolicy>)
    ensures
        r == (if policy_named(setting@) == current {
            None
        } else {
            Some(policy_named(setting@))
        }),
{
    let policy = MeterPolicy::parse(setting);
    if policy == current {
        None
    } else {
        Some(policy)
    }
}

/// A policy survives being written down and read back.
pub proof fn law_policy_round_trips(policy: MeterPolicy)
    ensures
        policy_named(policy_name(policy)) == policy,
{
    reveal_strlit("off");
    reveal_strlit("all");
    reveal_strlit("on-demand");
    assert(lower("on-demand"@)[0] == 'o');
    assert(lower("on-demand"@).len() == 9);
    assert(lower("off"@).len() == 3);
    assert(lower("all"@).len() == 3);
    assert(lower("all"@)[0] == 'a');
    assert(lower("off"@)[0] == 'o');
}

/// A media class that names a playback sink, whatever the case.
pub open spec fn class_is_sink(media_class: Seq<char>) -> bool {
    has_sub(lower(media_class), "sink"@)
}

pub fn media_class_is_playback_sink(media_class: &str) -> (r: bool)
    ensures
        r == class_is_sink(media_class@),
{
    lower_contains(media_class, "sink")
}

/// A node can be measured where it has an audio source port, and a playback
/// sink with an audio sink port can be measured through its monitor.
pub open spec fn measurable(media_class: Seq<char>, has_source: bool, has_sink: bool) -> bool {
    has_source || (class_is_sink(media_class) && has_sink)
}

pub fn is_measurable_audio_node(media_class: &str, has_source: bool, has_sink: bool) -> (r: bool)
    ensures
        r == measurable(media_class@, has_source, has_sink),
{
    has_source || (media_class_is_playback_sink(media_class) && has_sink)
}

/// The port exists, carries audio and has the given direction.
pub open spec fn audio_port(g: GraphView, p: PortId, direction: Direction) -> bool {
    g.has_port(p) && g.port(p).port_type == PortType::Audio && g.port(p).direction == direction
}

/// The node has an audio port with the given direction.
pub open spec fn has_audio(g: GraphView, node: NodeId, direction: Direction) -> bool {
    g.has_node(node) && some_in(g.node(node).ports, |p: PortId| audio_port(g, p, direction))
}

/// Whether the node has an audio port with the given direction.
pub fn node_has_audio(graph: &Graph, node: NodeId, direction: Direction) -> (r: bool)
    ensures
        r == has_audio(graph@, node, direction),
{
    match graph.node(node) {
        None => false,
        Some(record) => {
            let ghost p = |p: PortId| audio_port(graph@, p, direction);
            let mut i: usize = 0;
            while i < record.ports.len()
                invariant
                    i <= record.ports.len(),
                    graph@.has_node(node),
                    record@ == graph@.node(node),
                    p == (|p: PortId| audio_port(graph@, p, direction)),
                    forall|j: int| 0 <= j < i ==> !p(#[trigger] record.ports@[j]),
                decreases record.ports.len() - i,
            {
                if let Some(port) = graph.port(record.ports[i]) {
                    if port.port_type == PortType::Audio && port.direction == direction {
                        assert(p(record.ports@[i as int]));
                        return true;
                    }
                }
                i = i + 1;
            }
            proof {
                lemma_none_in(record.ports@, p);
            }
            false
        },
    }
}

/// The media class that the mirror holds for a node; blank where it holds
/// none.
pub open spec fn class_of(state: RegistryView, node: NodeId) -> Seq<char> {
    if state.nodes.contains_key(native_part(node.0) as u64) {
        state.nodes[native_part(node.0) as u64].media_class
    } else {
        ""@
    }
}

/// The node can be measured.
pub open spec fn node_measurable(g: GraphView, state: RegistryView, node: NodeId) -> bool {
    g.has_node(node) && measurable(
        class_of(state, node),
        has_audio(g, node, Direction::Source),
        has_audio(g, node, Direction::Sink),
    )
}

/// Whether one node can be measured.
pub fn is_node_measurable(graph: &Graph, state: &RegistryState, node: NodeId) -> (r: bool)
    ensures
        r == node_measurable(graph@, state@, node),
{
    if graph.node(node).is_none() {
        return false;
    }
    let has_source = node_has_audio(graph, node, Direction::Source);
    let has_sink = node_has_audio(graph, node, Direction::Sink);
    match state.nodes.get(&(native_node_id(node) as u64)) {
        Some(record) => is_measurable_audio_node(
            record.media_class.as_str(),
            has_source,
            has_sink,
        ),
        None => is_measurable_audio_node("", has_source, has_sink),
    }
}

/// `keys` lists the nodes of the graph that can be measured, in the order of
/// their identifiers.
pub open spec fn lists_measurable(keys: Seq<u64>, g: GraphView, state: RegistryView) -> bool {
    &&& ascending(keys)
    &&& forall|k: u64| #[trigger]
        keys.contains(k) <==> g.nodes.contains_key(k) && node_measurable(g, state, NodeId(k))
}

/// The nodes that can be measured.
pub fn measurable_nodes(graph: &Graph, state: &RegistryState) -> (r: Vec<u64>)
    requires
        graph.wf(),
    ensures
        lists_measurable(r@, graph@, state@),
{
    let keys = keys_of(&graph.nodes);
    let ghost p = |n: crate::model::NodeView| node_measurable(graph@, state@, n.id);
    assert(lists_domain(keys@, graph@.nodes)) by {
        assert forall|k: u64| #[trigger] keys@.contains(k) <==> graph@.nodes.contains_key(k) by {
            assert(keys@.contains(k) <==> graph.nodes@.contains_key(k));
        }
    }
    let mut out: Vec<u64> = Vec::new();
    let mut i: usize = 0;
    while i < keys.len()
        invariant
            i <= keys.len(),
            graph.wf(),
            lists_domain(keys@, graph@.nodes),
            p == (|n: crate::model::NodeView| node_measurable(graph@, state@, n.id)),
            out@ == picked(keys@, i as int, graph@.nodes, p),
        decreases keys.len() - i,
    {
        let k: u64 = keys[i];
        assert(keys@.contains(k));
        assert(graph@.nodes.contains_key(k));
        assert(graph@.nodes[k].id == NodeId(k));
        if is_node_measurable(graph, state, NodeId(k)) {
            out.push(k);
        }
        i = i + 1;
    }
    proof {
        lemma_picked_lists(keys@, graph@.nodes, p);
        assert forall|k: u64| #[trigger] out@.contains(k) <==> graph@.nodes.contains_key(k)
            && node_measurable(graph@, state@, NodeId(k)) by {
            if graph@.nodes.contains_key(k) {
                assert(graph@.nodes[k].id == NodeId(k));
            }
        }
    }
    out
}

/// A node gets a stream under a policy: never, always where it can be
/// measured, or where it can be measured and was asked for.
pub open spec fn wants_meter(
    policy: MeterPolicy,
    measurable: Seq<u64>,
    requested: Map<u64, u64>,
    k: u64,
) -> bool {
    match policy {
        MeterPolicy::Disabled => false,
        MeterPolicy::Always => measurable.contains(k),
        MeterPolicy::OnDemand => measurable.contains(k) && requested.contains_key(k),
    }
}

/// The nodes that should own a stream, in the order of `measurable`.
pub fn nodes_to_meter(
    policy: MeterPolicy,
    measurable: &Vec<u64>,
    requested: &BTreeMap<u64, u64>,
) -> (r: Vec<u64>)
    requires
        ascending(measurable@),
    ensures
        ascending(r@),
        forall|k: u64| #[trigger]
            r@.contains(k) <==> wants_meter(policy, measurable@, requested@, k),
{
    let mut out: Vec<u64> = Vec::new();
    let mut i: usize = 0;
    while i < measurable.len()
        invariant
            i <= measurable.len(),
            ascending(measurable@),
            ascending(out@),
            forall|k: u64| #[trigger]
                out@.contains(k) <==> measurable@.take(i as int).contains(k) && wants_meter(
                    policy,
                    measurable@,
                    requested@,
                    k,
                ),
        decreases measurable.len() - i,
    {
        let k: u64 = measurable[i];
        let ghost head = measurable@.take(i as int);
        let ghost before = out@;
        assert(measurable@.contains(k));
        let wanted = match policy {
            MeterPolicy::Disabled => false,
            MeterPolicy::Always => true,
            MeterPolicy::OnDemand => requested.contains_key(&k),
        };
        if wanted {
            out.push(k);
        }
        proof {
            assert(measurable@.take(i + 1) == head.push(k));
            assert forall|x: u64| #[trigger] before.contains(x) implies x < k by {
                assert(head.contains(x));
                let y = choose|y: int| 0 <= y < head.len() && head[y] == x;
                assert(measurable@[y] < measurable@[i as int]);
            }
            assert forall|j: int| 0 <= j < before.len() implies before[j] < k by {
                assert(before.contains(before[j]));
            }
            assert forall|x: u64| #[trigger] out@.contains(x) <==> measurable@.take(i + 1).contains(
                x,
            ) && wants_meter(policy, measurable@, requested@, x) by {
                lemma_push_contains(head, k, x);
                lemma_push_contains(before, k, x);
                assert(before.contains(x) <==> head.contains(x) && wants_meter(
                    policy,
                    measurable@,
                    requested@,
                    x,
                ));
            }
        }
        i = i + 1;
    }
    assert(measurable@.take(measurable@.len() as int) == measurable@);
    out
}

/// How long a stream outlives the last request for it, in nanoseconds.
pub const METER_LINGER_NANOS: u64 = 5_000_000_000;

/// A request made at `at` still holds at `now`.
pub open spec fn still_wanted(at: u64, now: u64) -> bool {
    (if now >= at {
        now - at
    } else {
        0
    }) < METER_LINGER_NANOS
}

/// The requests that still hold.
pub open spec fn live_requests(requests: Map<u64, u64>, now: u64) -> Map<u64, u64> {
    Map::new(
        |k: u64| requests.contains_key(k) && still_wanted(requests[k], now),
        |k: u64| requests[k],
    )
}

/// Requests with the given nodes asked for again at `now`.
pub open spec fn renewed(requests: Map<u64, u64>, nodes: Seq<u64>, now: u64) -> Map<u64, u64> {
    Map::new(
        |k: u64| requests.contains_key(k) || nodes.contains(k),
        |k: u64|
            if nodes.contains(k) {
                now
            } else {
                requests[k]
            },
    )
}

/// The metering side of a backend: its policy, the nodes that were asked for
/// with the time of the last request, and the nodes that own a stream, in
/// ascending order.
#[derive(Debug, PartialEq, Eq)]
pub struct MeterBoard {
    pub policy: MeterPolicy,
    pub requests: BTreeMap<u64, u64>,
    pub active: Vec<u64>,
}

/// What has to be done to the streams.
#[derive(Debug, PartialEq, Eq)]
pub struct MeterPlan {
    /// Nodes whose stream ends.
    pub release: Vec<u64>,
    /// Nodes that need a new stream.
    pub open: Vec<u64>,
}

impl MeterBoard {
    /// The nodes that own a stream are listed in order, each of them once.
    pub open spec fn wf(&self) -> bool {
        ascending(self.active@)
    }

    /// On demand, with nothing asked for and no stream open.
    pub fn new() -> (r: MeterBoard)
        ensures
            r.wf(),
            r.policy == MeterPolicy::OnDemand,
            r.requests@ == Map::<u64, u64>::empty(),
            r.active@ == Seq::<u64>::empty(),
    {
        MeterBoard { policy: MeterPolicy::OnDemand, requests: BTreeMap::new(), active: Vec::new() }
    }

    /// Changes the policy. Requests survive only a change to on demand.
    /// Returns whether the streams have to be looked at.
    pub fn set_meter_policy(&mut self, policy: MeterPolicy) -> (r: bool)
        ensures
            r == (old(self).policy != policy),
            final(self).policy == policy,
            final(self).active == old(self).active,
            final(self).requests@ == (if r && policy != MeterPolicy::OnDemand {
                Map::<u64, u64>::empty()
            } else {
                old(self).requests@
            }),
    {
        if self.policy == policy {
            return false;
        }
        self.policy = policy;
        if policy != MeterPolicy::OnDemand {
            self.requests.clear();
        }
        true
    }

    /// Drops the requests that have outlived the linger period.
    pub fn expire_meter_requests(&mut self, now: u64)
        ensures
            final(self).policy == old(self).policy,
            final(self).active == old(self).active,
            final(self).requests@ == live_requests(old(self).requests@, now),
    {
        let keys = keys_of(&self.requests);
        let ghost all = self.requests@;
        let mut i: usize = 0;
        while i < keys.len()
            invariant
                i <= keys.len(),
                lists_domain(keys@, all),
                all == old(self).requests@,
                self.policy == old(self).policy,
                self.active == old(self).active,
                forall|k: u64| #[trigger]
                    self.requests@.contains_key(k) <==> all.contains_key(k) && (still_wanted(
                        all[k],
                        now,
                    ) || !keys@.take(i as int).contains(k)),
                forall|k: u64| #[trigger]
                    self.requests@.contains_key(k) ==> self.requests@[k] == all[k],
            decreases keys.len() - i,
        {
            let k: u64 = keys[i];
            proof {
                assert(keys@.contains(k));
                assert(keys@.take(i + 1) == keys@.take(i as int).push(k));
                assert forall|x: u64| keys@.take(i + 1).contains(x) <==> (keys@.take(
                    i as int,
                ).contains(x) || x == k) by {
                    lemma_push_contains(keys@.take(i as int), k, x);
                }
                assert(!keys@.take(i as int).contains(k)) by {
                    let head = keys@.take(i as int);
                    if head.contains(k) {
                        let x = choose|x: int| 0 <= x < head.len() && head[x] == k;
                        assert(keys@[x] < keys@[i as int]);
                    }
                }
                assert(self.requests@.contains_key(k));
            }
            let keep = match self.requests.get(&k) {
                Some(at) => {
                    let age: u64 = if now >= *at {
                        now - *at
                    } else {
                        0
                    };
                    age < METER_LINGER_NANOS
                },
                None => true,
            };
            if !keep {
                self.requests.remove(&k);
            }
            i = i + 1;
        }
        proof {
            assert(keys@.take(keys@.len() as int) == keys@);
            assert forall|k: u64| all.contains_key(k) implies keys@.contains(k) by {}
            assert(self.requests@ =~= live_requests(all, now));
        }
    }

    /// The nodes that should own a stream.
    pub fn wanted_meter_nodes(&self, measurable: &Vec<u64>) -> (r: Vec<u64>)
        requires
            ascending(measurable@),
        ensures
            ascending(r@),
            forall|k: u64| #[trigger]
                r@.contains(k) <==> wants_meter(self.policy, measurable@, self.requests@, k),
    {
        nodes_to_meter(self.policy, measurable, &self.requests)
    }

    /// Asks for the given nodes. Nothing happens unless metering is on demand;
    /// an empty list releases every request at once, and otherwise the nodes
    /// are asked for again and outlived requests are dropped. Returns whether
    /// the streams have to be looked at.
    pub fn request_meters(&mut self, nodes: &Vec<u64>, now: u64, measurable: &Vec<u64>) -> (r: bool)
        requires
            old(self).wf(),
            ascending(measurable@),
        ensures
            final(self).wf(),
            final(self).policy == old(self).policy,
            final(self).active == old(self).active,
            final(self).requests@ == (if old(self).policy != MeterPolicy::OnDemand {
                old(self).requests@
            } else if nodes@.len() == 0 {
                Map::<u64, u64>::empty()
            } else {
                live_requests(renewed(old(self).requests@, nodes@, now), now)
            }),
            r == (old(self).policy == MeterPolicy::OnDemand && (nodes@.len() == 0 || !(forall|
                k: u64,
            | #[trigger]
                old(self).active@.contains(k) <==> wants_meter(
                    old(self).policy,
                    measurable@,
                    final(self).requests@,
                    k,
                )))),
    {
        if self.policy != MeterPolicy::OnDemand {
            return false;
        }
        if nodes.is_empty() {
            self.requests.clear();
            return true;
        }
        let ghost start = self.requests@;
        let mut i: usize = 0;
        while i < nodes.len()
            invariant
                i <= nodes.len(),
                self.policy == old(self).policy,
                self.active == old(self).active,
                self.requests@ =~= renewed(start, nodes@.take(i as int), now),
            decreases nodes.len() - i,
        {
            let k: u64 = nodes[i];
            self.requests.insert(k, now);
            proof {
                assert(nodes@.take(i + 1) == nodes@.take(i as int).push(k));
                assert forall|x: u64| nodes@.take(i + 1).contains(x) <==> (nodes@.take(
                    i as int,
                ).contains(x) || x == k) by {
                    lemma_push_contains(nodes@.take(i as int), k, x);
                }
            }
            i = i + 1;
        }
        assert(nodes@.take(nodes@.len() as int) == nodes@);
        self.expire_meter_requests(now);
        let wanted = self.wanted_meter_nodes(measurable);
        let same = same_list(&wanted, &self.active);
        proof {
            if same {
                assert(wanted@ == self.active@);
            } else {
                if forall|k: u64| #[trigger]
                    self.active@.contains(k) <==> wants_meter(
                        self.policy,
                        measurable@,
                        self.requests@,
                        k,
                    ) {
                    let ones = Map::new(|k: u64| wanted@.contains(k), |k: u64| true);
                    crate::table::lemma_lists_unique(
                        wanted@,
                        self.active@,
                        ones,
                        |b: bool| true,
                    );
                }
            }
        }
        !same
    }

    /// Ends all metering.
    pub fn reset_audio_config(&mut self)
        ensures
            final(self).policy == old(self).policy,
            final(self).wf(),
            final(self).requests@ == Map::<u64, u64>::empty(),
            final(self).active@ == Seq::<u64>::empty(),
    {
        self.requests.clear();
        self.active.clear();
    }

    /// Decides which streams end and which have to be opened: outlived
    /// requests are dropped, streams that are no longer wanted end, and a
    /// wanted node without a stream that the mirror still holds gets one.
    pub fn ensure_meters(&mut self, now: u64, measurable: &Vec<u64>, state: &RegistryState) -> (r:
        MeterPlan)
        requires
            old(self).wf(),
            ascending(measurable@),
        ensures
            final(self).wf(),
            final(self).policy == old(self).policy,
            final(self).requests@ == live_requests(old(self).requests@, now),
            final(self).active@ == kept(
                old(self).active@,
                |k: u64|
                    wants_meter(final(self).policy, measurable@, final(self).requests@, k),
            ),
            r.release@ == kept(
                old(self).active@,
                |k: u64|
                    !wants_meter(final(self).policy, measurable@, final(self).requests@, k),
            ),
            ascending(r.open@),
            forall|k: u64| #[trigger]
                r.open@.contains(k) <==> wants_meter(
                    final(self).policy,
                    measurable@,
                    final(self).requests@,
                    k,
                ) && !old(self).active@.contains(k) && state@.nodes.contains_key(
                    native_part(k) as u64,
                ),
    {
        self.expire_meter_requests(now);
        let wanted = self.wanted_meter_nodes(measurable);
        let ghost before = self.active@;
        let ghost stays = |k: u64| wants_meter(self.policy, measurable@, self.requests@, k);
        let ghost goes = |k: u64| !wants_meter(self.policy, measurable@, self.requests@, k);
        let mut stay: Vec<u64> = Vec::new();
        let mut release: Vec<u64> = Vec::new();
        let mut i: usize = 0;
        while i < self.active.len()
            invariant
                i <= self.active.len(),
                self.active@ == before,
                before == old(self).active@,
                self.policy == old(self).policy,
                self.requests@ == live_requests(old(self).requests@, now),
                forall|k: u64| #[trigger] wanted@.contains(k) == stays(k),
                forall|k: u64| #[trigger] wanted@.contains(k) == !goes(k),
                stay@ == kept(before.take(i as int), stays),
                release@ == kept(before.take(i as int), goes),
            decreases self.active.len() - i,
        {
            let k: u64 = self.active[i];
            proof {
                lemma_kept_step(before, stays, i as int);
                lemma_kept_step(before, goes, i as int);
            }
            if list_contains(&wanted, k) {
                stay.push(k);
            } else {
                release.push(k);
            }
            i = i + 1;
        }
        proof {
            assert(before.take(before.len() as int) == before);
            lemma_kept_ascending(before, stays);
        }
        let mut open: Vec<u64> = Vec::new();
        let mut j: usize = 0;
        while j < wanted.len()
            invariant
                j <= wanted.len(),
                ascending(wanted@),
                ascending(open@),
                self.active@ == before,
                before == old(self).active@,
                self.policy == old(self).policy,
                self.requests@ == live_requests(old(self).requests@, now),
                forall|k: u64| #[trigger]
                    open@.contains(k) <==> wanted@.take(j as int).contains(k) && !before.contains(k)
                        && state@.nodes.contains_key(native_part(k) as u64),
            decreases wanted.len() - j,
        {
            let k: u64 = wanted[j];
            let ghost head = wanted@.take(j as int);
            let ghost open0 = open@;
            if !list_contains(&self.active, k) && state.nodes.contains_key(
                &(native_node_id(NodeId(k)) as u64),
            ) {
                open.push(k);
            }
            proof {
                assert(wanted@.take(j + 1) == head.push(k));
                assert forall|y: int| 0 <= y < open0.len() implies open0[y] < k by {
                    assert(open0.contains(open0[y]));
                    assert(head.contains(open0[y]));
                    let z = choose|z: int| 0 <= z < head.len() && head[z] == open0[y];
                    assert(wanted@[z] < wanted@[j as int]);
                }
                assert forall|x: u64| #[trigger] open@.contains(x) <==> wanted@.take(
                    j + 1,
                ).contains(x) && !before.contains(x) && state@.nodes.contains_key(
                    native_part(x) as u64,
                ) by {
                    lemma_push_contains(head, k, x);
                    lemma_push_contains(open0, k, x);
                    assert(open0.contains(x) <==> head.contains(x) && !before.contains(x)
                        && state@.nodes.contains_key(native_part(x) as u64));
                }
            }
            j = j + 1;
        }
        assert(wanted@.take(wanted@.len() as int) == wanted@);
        self.active = stay;
        MeterPlan { release, open }
    }

    /// Notes that a stream was opened for a node.
    pub fn meter_opened(&mut self, node: u64)
        requires
            old(self).wf(),
        ensures
            final(self).wf(),
            final(self).policy == old(self).policy,
            final(self).requests == old(self).requests,
            forall|k: u64| #[trigger]
                final(self).active@.contains(k) <==> old(self).active@.contains(k) || k == node,
    {
        insert_ascending(&mut self.active, node);
    }
}

/// Whether a list holds a number.
pub fn list_contains(list: &Vec<u64>, k: u64) -> (r: bool)
    ensures
        r == list@.contains(k),
{
    let mut i: usize = 0;
    while i < list.len()
        invariant
            i <= list.len(),
            forall|j: int| 0 <= j < i ==> list@[j] != k,
        decreases list.len() - i,
    {
        if list[i] == k {
            assert(list@[i as int] == k);
            return true;
        }
        i = i + 1;
    }
    false
}

/// Whether two lists are equal.
pub fn same_list(a: &Vec<u64>, b: &Vec<u64>) -> (r: bool)
    ensures
        r == (a@ == b@),
{
    if a.len() != b.len() {
        return false;
    }
    let mut i: usize = 0;
    while i < a.len()
        invariant
            i <= a.len(),
            a.len() == b.len(),
            forall|j: int| 0 <= j < i ==> a@[j] == b@[j],
        decreases a.len() - i,
    {
        if a[i] != b[i] {
            return false;
        }
        i = i + 1;
    }
    assert(a@ == b@);
    true
}

/// The object that a stream is aimed at: the serial number, which is unique,
/// else the name.
pub open spec fn target_of(record: NodeRecordView) -> Seq<char> {
    match record.serial {
        Some(serial) => decimal(serial as nat),
        None => record.name,
    }
}

/// The object that a stream for a node is aimed at.
pub fn stream_target(record: &NodeRecord) -> (r: String)
    ensures
        r@ == target_of(record@),
{
    match record.serial {
        Some(serial) => decimal_text(serial),
        None => record.name.clone(),
    }
}

/// How a metering stream presents itself.
#[derive(Debug, PartialEq, Eq)]
pub struct MeterStream {
    pub name: String,
    pub description: String,
    pub target: String,
    /// Read the target's monitor instead of an input.
    pub capture_sink: bool,
}

/// Decides how the metering stream of a node presents itself.
pub fn meter_stream(node: NodeId, record: &NodeRecord) -> (r: MeterStream)
    ensures
        r.name@ == METER_NODE_PREFIX@ + " "@ + decimal(node.0 as nat),
        r.description@ == "Level meter: "@ + record@.name,
        r.target@ == target_of(record@),
        r.capture_sink == class_is_sink(record@.media_class),
{
    MeterStream {
        name: concat3(METER_NODE_PREFIX, " ", decimal_text(node.0).as_str()),
        description: concat2("Level meter: ", record.name.as_str()),
        target: stream_target(record),
        capture_sink: media_class_is_playback_sink(record.media_class.as_str()),
    }
}

/// A metering stream never shows in the graph that is built from the mirror.
pub proof fn law_meter_streams_are_hidden(state: RegistryView, n: u64, node: NodeId)
    requires
        state.nodes.contains_key(n),
        state.nodes[n].name == METER_NODE_PREFIX@ + " "@ + decimal(node.0 as nat),
    ensures
        !state.shows_node(n),
{
    let name = state.nodes[n].name;
    assert(name.subrange(0, METER_NODE_PREFIX@.len() as int) == METER_NODE_PREFIX@);
}

/// A policy is told by its name, whatever the case; any other word asks for
/// meters on demand.
pub proof fn law_policy_names(s: Seq<char>)
    ensures
        lower(s) == "off"@ <==> policy_named(s) == MeterPolicy::Disabled,
        lower(s) == "all"@ <==> policy_named(s) == MeterPolicy::Always,
{
    reveal_strlit("off");
    reveal_strlit("all");
    assert(lower("off"@) =~= "off"@);
    assert(lower("all"@) =~= "all"@);
    assert("off"@[0] != "all"@[0]);
}

/// A node can be measured exactly where it gives audio, or takes audio and is
/// classed as a sink.
pub proof fn law_measurable_nodes(g: GraphView, state: RegistryView, node: NodeId)
    requires
        g.wf(),
    ensures
        node_measurable(g, state, node) <==> g.has_node(node) && ((exists|p: PortId| #[trigger]
            g.has_port(p) && g.port(p).node_id == node && g.port(p).direction == Direction::Source
                && g.port(p).port_type == PortType::Audio) || ((exists|p: PortId| #[trigger]
            g.has_port(p) && g.port(p).node_id == node && g.port(p).direction == Direction::Sink
                && g.port(p).port_type == PortType::Audio) && state.nodes.contains_key(
            native_part(node.0) as u64,
        ) && has_sub(lower(state.nodes[native_part(node.0) as u64].media_class), "sink"@))),
{
    law_audio_of_a_node(g, node, Direction::Source);
    law_audio_of_a_node(g, node, Direction::Sink);
    if !state.nodes.contains_key(native_part(node.0) as u64) {
        reveal_strlit("");
        reveal_strlit("sink");
        assert(lower(""@) =~= ""@);
        assert(!has_sub(lower(""@), "sink"@)) by {
            if has_sub(lower(""@), "sink"@) {
                let at = choose|at: int| #[trigger]
                    crate::text::occurs_at(lower(""@), "sink"@, at);
            }
        }
    }
}

/// A node has audio in a direction exactly where one of its ports does.
pub proof fn law_audio_of_a_node(g: GraphView, node: NodeId, direction: Direction)
    requires
        g.wf(),
    ensures
        has_audio(g, node, direction) <==> exists|p: PortId| #[trigger]
            g.has_port(p) && g.port(p).node_id == node && g.port(p).direction == direction
                && g.port(p).port_type == PortType::Audio,
{
    let q = |p: PortId| audio_port(g, p, direction);
    let ports = g.node(node).ports;
    if has_audio(g, node, direction) {
        let i = choose|i: int| 0 <= i < ports.len() && q(#[trigger] ports[i]);
        assert(ports.contains(ports[i]));
        crate::graph::law_ports_of_a_node(g, node, ports[i]);
        assert(g.has_port(ports[i]));
    }
    if exists|p: PortId| #[trigger]
        g.has_port(p) && g.port(p).node_id == node && g.port(p).direction == direction && g.port(
            p,
        ).port_type == PortType::Audio {
        let p = choose|p: PortId| #[trigger]
            g.has_port(p) && g.port(p).node_id == node && g.port(p).direction == direction
                && g.port(p).port_type == PortType::Audio;
        crate::graph::law_ports_of_a_node(g, node, p);
        let i = choose|i: int| 0 <= i < ports.len() && ports[i] == p;
        assert(q(ports[i]));
    }
}

/// No meter runs where meters are off; where they are always on every
/// measurable node has one; on demand those have one that were asked for.
pub proof fn law_wanted_meters(measurable: Seq<u64>, requested: Map<u64, u64>, k: u64)
    ensures
        !wants_meter(MeterPolicy::Disabled, measurable, requested, k),
        wants_meter(MeterPolicy::Always, measurable, requested, k) <==> measurable.contains(k),
        wants_meter(MeterPolicy::OnDemand, measurable, requested, k) <==> measurable.contains(k)
            && requested.contains_key(k),
{
}

/// A request lives from when it was made until it has lingered; asking again
/// renews it, and the other requests keep their time.
pub proof fn law_requests_linger(
    requests: Map<u64, u64>,
    nodes: Seq<u64>,
    k: u64,
    now: u64,
)
    ensures
        live_requests(requests, now).contains_key(k) <==> requests.contains_key(k) && now
            < requests[k] + METER_LINGER_NANOS,
        live_requests(requests, now).contains_key(k) ==> live_requests(requests, now)[k]
            == requests[k],
        nodes.contains(k) ==> renewed(requests, nodes, now).contains_key(k) && renewed(
            requests,
            nodes,
            now,
        )[k] == now,
        !nodes.contains(k) ==> (renewed(requests, nodes, now).contains_key(k)
            <==> requests.contains_key(k)) && (requests.contains_key(k) ==> renewed(
            requests,
            nodes,
            now,
        )[k] == requests[k]),
{
}

/// A stream is aimed at a node by its serial, failing that by its name.
pub proof fn law_stream_targets(record: NodeRecordView, serial: u64)
    ensures
        record.serial == Some(serial) ==> target_of(record) == decimal(serial as nat),
        record.serial is None ==> target_of(record) == record.name,
{
}

} // verus!
