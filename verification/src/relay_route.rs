//! Reconciliation of the relay's local route with the graph, and the lists of
//! endpoints it can be given.
use crate::graph::{Graph, GraphView};
use crate::ids::{LinkId, NodeId, PortId};
use crate::lists::{kept, lemma_first_is_member, lemma_kept_members};
use crate::model::{BackendError, BackendErrorView, NodeView};
use crate::registry::{RegistryState, RegistryView};
use crate::relay_local::{
    emitter_route, receive_node, receiver_route, LocalRoute, LocalRouteView, RelayLocalRouteState,
    RelayLocalRouteStateView, RelayLocalRouter, RelayLocalRouterView, RelayMode, RelayReceiveSink,
    RelayReceiveSinkView, RelaySendSource, RelaySendSourceView,
};
use crate::relay_playback::{
    find_joining, joining, RelayPlaybackRouter, RelayPlaybackRouterView, RelayPlaybackState,
    RelayPlaybackStateView,
};
use crate::relay_ports::{
    answers_to, audio_end, audio_pair, bare_selector, named_node, monitor_port, relay_name,
    routable, selector_serial, stereo_pair, RELAY_SINK_NAME,
};
use crate::table::{ascending, first_key, first_of, keys_of, lemma_push_contains};
use crate::text::{concat2, has_sub};
use std::collections::BTreeMap;
use vstd::prelude::*;

verus! {

broadcast use vstd::std_specs::btree::group_btree_axioms;

/// Both routers of the relay: the local one, and the playback one whose state
/// it keeps up to date.
#[derive(Debug, PartialEq, Eq)]
pub struct RelayRouters {
    pub local: RelayLocalRouter,
    pub playback: RelayPlaybackRouter,
}

/// The contents of [`RelayRouters`].
#[verifier::ext_equal]
pub struct RelayRoutersView {
    pub local: RelayLocalRouterView,
    pub playback: RelayPlaybackRouterView,
}

impl View for RelayRouters {
    type V = RelayRoutersView;

    open spec fn view(&self) -> RelayRoutersView {
        RelayRoutersView { local: self.local@, playback: self.playback@ }
    }
}

/// `ids` lists, in ascending order and once each, what stands in `a` or `b`.
pub open spec fn merges(ids: Seq<u64>, a: Seq<u64>, b: Seq<u64>) -> bool {
    &&& ascending(ids)
    &&& forall|k: u64| #[trigger] ids.contains(k) <==> a.contains(k) || b.contains(k)
}

/// The link with an identifier joins a pair of ports.
pub open spec fn joins(g: GraphView, k: u64, pair: (PortId, PortId)) -> bool {
    g.links.contains_key(k) && (g.links[k].output_port, g.links[k].input_port) == pair
}

/// One of the links joins a pair of ports.
pub open spec fn pair_owned(g: GraphView, ids: Seq<u64>, pair: (PortId, PortId)) -> bool {
    exists|k: u64| #[trigger] ids.contains(k) && joins(g, k, pair)
}

/// How many different pairs a route has.
pub open spec fn distinct_pairs(pairs: Seq<(PortId, PortId)>) -> nat {
    if pairs[0] == pairs[1] {
        1
    } else {
        2
    }
}

/// The links are exactly those of a route.
pub open spec fn already_routed(
    g: GraphView,
    ids: Seq<u64>,
    pairs: Seq<(PortId, PortId)>,
) -> bool {
    &&& ids.len() == distinct_pairs(pairs)
    &&& forall|pair: (PortId, PortId)| #[trigger] pairs.contains(pair) <==> pair_owned(g, ids, pair)
}

/// What a reconciliation begins with.
#[derive(Debug, PartialEq, Eq)]
pub enum LocalStart {
    /// The route stands; nothing is to do.
    Settled,
    /// Links have to go, and a route may have to be made.
    Change(LocalTask),
}

/// A change of the local route.
#[derive(Debug, PartialEq, Eq)]
pub struct LocalTask {
    pub mode: RelayMode,
    /// The links that were made for the earlier route.
    pub previous: Vec<u64>,
    /// How many of them are dealt with.
    pub removed: usize,
    /// The pairs that they joined when the task began.
    pub owned_pairs: Vec<(PortId, PortId)>,
    /// The route to make, if there is one.
    pub route: Option<LocalRoute>,
    /// How many of its two pairs are dealt with.
    pub next: usize,
    /// The links that were made for it.
    pub owned: Vec<u64>,
}

/// What a task does next.
#[derive(Clone, Copy, Debug, PartialEq, Eq, Structural)]
pub enum LocalStep {
    /// Disconnect a link of the earlier route, whatever comes of it.
    Disconnect(LinkId),
    /// Connect the two ports and report the outcome.
    Connect(PortId, PortId),
    /// Nothing is left.
    Done,
}

/// The endpoints of the links of a list that exist, in its order.
pub open spec fn pairs_of(g: GraphView, ids: Seq<u64>) -> Seq<(PortId, PortId)>
    decreases ids.len(),
{
    if ids.len() == 0 {
        Seq::empty()
    } else if g.links.contains_key(ids.last()) {
        pairs_of(g, ids.drop_last()).push(
            (g.links[ids.last()].output_port, g.links[ids.last()].input_port),
        )
    } else {
        pairs_of(g, ids.drop_last())
    }
}

proof fn lemma_pairs_of(g: GraphView, ids: Seq<u64>, pair: (PortId, PortId))
    ensures
        pairs_of(g, ids).contains(pair) <==> pair_owned(g, ids, pair),
    decreases ids.len(),
{
    if ids.len() == 0 {
        assert(!pair_owned(g, ids, pair));
    } else {
        let front = ids.drop_last();
        let last = ids.last();
        lemma_pairs_of(g, front, pair);
        assert(front.push(last) =~= ids);
        assert forall|k: u64| #[trigger] ids.contains(k) <==> front.contains(k) || k == last by {
            lemma_push_contains(front, last, k);
        }
        if g.links.contains_key(last) {
            let e = (g.links[last].output_port, g.links[last].input_port);
            lemma_push_contains(pairs_of(g, front), e, pair);
        }
        if pair_owned(g, front, pair) {
            let k = choose|k: u64| #[trigger] front.contains(k) && joins(g, k, pair);
            assert(ids.contains(k));
        }
        if pair_owned(g, ids, pair) {
            let k = choose|k: u64| #[trigger] ids.contains(k) && joins(g, k, pair);
            if k != last {
                assert(front.contains(k));
            }
        }
        assert(ids.contains(last));
    }
}

fn collect_pairs(graph: &Graph, ids: &Vec<u64>) -> (r: Vec<(PortId, PortId)>)
    ensures
        r@ == pairs_of(graph@, ids@),
{
    let mut out: Vec<(PortId, PortId)> = Vec::new();
    let mut i: usize = 0;
    while i < ids.len()
        invariant
            i <= ids.len(),
            out@ == pairs_of(graph@, ids@.take(i as int)),
        decreases ids.len() - i,
    {
        proof {
            assert(ids@.take(i + 1).drop_last() =~= ids@.take(i as int));
            assert(ids@.take(i + 1).last() == ids@[i as int]);
        }
        if let Some(link) = graph.link(LinkId(ids[i])) {
            out.push((link.output_port, link.input_port));
        }
        i = i + 1;
    }
    assert(ids@.take(ids@.len() as int) == ids@);
    out
}

pub fn has_pair(pairs: &Vec<(PortId, PortId)>, pair: (PortId, PortId)) -> (r: bool)
    ensures
        r == pairs@.contains(pair),
{
    let mut i: usize = 0;
    while i < pairs.len()
        invariant
            i <= pairs.len(),
            forall|j: int| 0 <= j < i ==> pairs@[j] != pair,
        decreases pairs.len() - i,
    {
        if pairs[i].0 == pair.0 && pairs[i].1 == pair.1 {
            assert(pairs@[i as int] == pair);
            return true;
        }
        i = i + 1;
    }
    false
}

/// Merges two lists of links into one ascending list without repetition.
pub fn merge_ids(a: &Vec<u64>, b: &Vec<u64>) -> (r: Vec<u64>)
    ensures
        merges(r@, a@, b@),
{
    let mut seen: BTreeMap<u64, bool> = BTreeMap::new();
    let mut i: usize = 0;
    while i < a.len()
        invariant
            i <= a.len(),
            forall|k: u64| #[trigger]
                seen@.contains_key(k) <==> a@.take(i as int).contains(k),
        decreases a.len() - i,
    {
        let ghost before = seen@;
        seen.insert(a[i], true);
        proof {
            assert(a@.take(i + 1) =~= a@.take(i as int).push(a@[i as int]));
            assert forall|k: u64| #[trigger]
                seen@.contains_key(k) <==> a@.take(i + 1).contains(k) by {
                lemma_push_contains(a@.take(i as int), a@[i as int], k);
                assert(before.contains_key(k) <==> a@.take(i as int).contains(k));
            }
        }
        i = i + 1;
    }
    assert(a@.take(a@.len() as int) =~= a@);
    let mut j: usize = 0;
    assert(b@.take(0) =~= Seq::empty());
    while j < b.len()
        invariant
            j <= b.len(),
            forall|k: u64| #[trigger]
                seen@.contains_key(k) <==> a@.contains(k) || b@.take(j as int).contains(k),
        decreases b.len() - j,
    {
        let ghost before = seen@;
        seen.insert(b[j], true);
        proof {
            assert(b@.take(j + 1) =~= b@.take(j as int).push(b@[j as int]));
            assert forall|k: u64| #[trigger]
                seen@.contains_key(k) <==> a@.contains(k) || b@.take(j + 1).contains(k) by {
                lemma_push_contains(b@.take(j as int), b@[j as int], k);
                assert(before.contains_key(k) <==> a@.contains(k) || b@.take(j as int).contains(k));
            }
        }
        j = j + 1;
    }
    assert(b@.take(b@.len() as int) =~= b@);
    let out = keys_of(&seen);
    proof {
        assert forall|k: u64| #[trigger] out@.contains(k) <==> a@.contains(k) || b@.contains(k) by {
            assert(out@.contains(k) <==> seen@.contains_key(k));
        }
    }
    out
}

fn same_route(graph: &Graph, ids: &Vec<u64>, owned: &Vec<(PortId, PortId)>, route: &LocalRoute) -> (r:
    bool)
    requires
        owned@ == pairs_of(graph@, ids@),
    ensures
        r == already_routed(graph@, ids@, route@.pairs),
{
    let first = route.pairs[0];
    let second = route.pairs[1];
    let ghost pairs = route@.pairs;
    assert(pairs =~= seq![first, second]);
    proof {
        assert forall|pair: (PortId, PortId)| #[trigger] pairs.contains(pair) <==> (pair == first
            || pair == second) by {
            assert(pairs[0] == first);
            assert(pairs[1] == second);
        }
        assert forall|pair: (PortId, PortId)|
            owned@.contains(pair) == #[trigger] pair_owned(graph@, ids@, pair) by {
            lemma_pairs_of(graph@, ids@, pair);
        }
    }
    let count: usize = if first.0 == second.0 && first.1 == second.1 {
        1
    } else {
        2
    };
    assert(count == distinct_pairs(pairs));
    if ids.len() != count {
        return false;
    }
    if !has_pair(owned, first) || !has_pair(owned, second) {
        proof {
            assert(pairs.contains(first));
            assert(pairs.contains(second));
        }
        return false;
    }
    let mut i: usize = 0;
    while i < owned.len()
        invariant
            i <= owned.len(),
            owned@ == pairs_of(graph@, ids@),
            pairs == route@.pairs,
            pairs == seq![first, second],
            forall|j: int| 0 <= j < i ==> owned@[j] == first || owned@[j] == second,
        decreases owned.len() - i,
    {
        let here = owned[i];
        if !(here.0 == first.0 && here.1 == first.1) && !(here.0 == second.0 && here.1
            == second.1) {
            proof {
                assert(owned@[i as int] == here);
                assert(owned@.contains(here));
                lemma_pairs_of(graph@, ids@, here);
                assert(!pairs.contains(here));
            }
            return false;
        }
        i = i + 1;
    }
    proof {
        assert forall|pair: (PortId, PortId)| #[trigger] pairs.contains(pair) <==> pair_owned(
            graph@,
            ids@,
            pair,
        ) by {
            if owned@.contains(pair) {
                let j = choose|j: int| 0 <= j < owned@.len() && owned@[j] == pair;
                assert(owned@[j] == first || owned@[j] == second);
            }
        }
    }
    true
}

/// The state of a route that stands.
pub open spec fn active_state(mode: RelayMode, route: LocalRouteView) -> RelayLocalRouteStateView {
    RelayLocalRouteStateView {
        mode: Some(mode),
        active: true,
        source_id: Some(route.source_id),
        sink_id: Some(route.sink_id),
        description: route.description,
    }
}

fn route_state(mode: RelayMode, route: &LocalRoute) -> (r: RelayLocalRouteState)
    ensures
        r@ == active_state(mode, route@),
{
    RelayLocalRouteState {
        mode: Some(mode),
        active: true,
        source_id: Some(route.source_id.clone()),
        sink_id: Some(route.sink_id.clone()),
        description: route.description.clone(),
    }
}

/// What the playback router shows while the local router has no route.
pub open spec fn idle_playback(enabled: bool, mode: RelayMode) -> RelayPlaybackStateView {
    if enabled && mode is Receiver {
        RelayPlaybackStateView::WaitingForSink
    } else {
        RelayPlaybackStateView::Disabled
    }
}

impl RelayRoutersView {
    /// The routers with a mode and the selected ends.
    pub open spec fn configured(
        self,
        mode: RelayMode,
        source: RelaySendSourceView,
        sink: RelayReceiveSinkView,
    ) -> RelayRoutersView {
        RelayRoutersView {
            local: RelayLocalRouterView {
                mode: Some(mode),
                send_source: source,
                receive_sink: sink,
                ..self.local
            },
            ..self
        }
    }

    /// The routers without links.
    pub open spec fn released(self) -> RelayRoutersView {
        RelayRoutersView {
            local: RelayLocalRouterView { link_ids: Seq::empty(), ..self.local },
            playback: RelayPlaybackRouterView {
                link_ids: Seq::empty(),
                current_sink_name: None,
                current_sink_serial: None,
                ..self.playback
            },
        }
    }

    /// The routers once it is known that there is no route to make.
    pub open spec fn idled(self, mode: RelayMode) -> RelayRoutersView {
        RelayRoutersView {
            local: RelayLocalRouterView {
                state: RelayLocalRouteStateView::idle(mode, self.local.idle_reason(mode)),
                ..self.local
            },
            playback: RelayPlaybackRouterView {
                state: idle_playback(self.local.enabled, mode),
                ..self.playback
            },
        }
    }

    /// The routers once a route stands.
    pub open spec fn routed(
        self,
        mode: RelayMode,
        route: LocalRouteView,
        owned: Seq<u64>,
    ) -> RelayRoutersView {
        RelayRoutersView {
            local: RelayLocalRouterView {
                link_ids: owned,
                state: active_state(mode, route),
                ..self.local
            },
            playback: match mode {
                RelayMode::Receiver => RelayPlaybackRouterView {
                    link_ids: owned,
                    state: RelayPlaybackStateView::Connected,
                    current_sink_name: Some(route.sink_id),
                    ..self.playback
                },
                RelayMode::Emitter => RelayPlaybackRouterView {
                    state: RelayPlaybackStateView::Disabled,
                    current_sink_name: None,
                    ..self.playback
                },
            },
        }
    }
}

impl RelayRouters {
    /// Fresh routers for the selected ends.
    pub fn new(source: RelaySendSource, sink: RelayReceiveSink) -> (r: RelayRouters)
        ensures
            r@.local == (RelayLocalRouterView {
                mode: None,
                send_source: source@,
                receive_sink: sink@,
                enabled: true,
                link_ids: Seq::empty(),
                state: RelayLocalRouteStateView::unset(),
            }),
            r@.playback == (RelayPlaybackRouterView {
                preferred_sink_name: None,
                preferred_sink_serial: None,
                enabled: true,
                state: RelayPlaybackStateView::Disabled,
                current_sink_name: None,
                current_sink_serial: None,
                link_ids: Seq::empty(),
            }),
    {
        let mut local = RelayLocalRouter::default();
        local.set_send_source(source);
        local.set_receive_sink(sink);
        RelayRouters { local, playback: RelayPlaybackRouter::new() }
    }

    /// Begins a reconciliation of the local route for a mode.
    ///
    /// Where the links that the routers made are exactly the desired route,
    /// nothing is to do. Otherwise the routers let go of every link they made
    /// before a new one is created, so the routes of the two modes never stand
    /// at once.
    pub fn begin_local_route(
        &mut self,
        mode: RelayMode,
        source: &RelaySendSource,
        sink: &RelayReceiveSink,
        graph: &Graph,
        state: &RegistryState,
    ) -> (r: LocalStart)
        requires
            graph.wf(),
        ensures
            ({
                let ready = old(self)@.configured(mode, source@, sink@);
                let desired = ready.local.desired(graph@, state@);
                match r {
                    LocalStart::Settled => {
                        &&& desired matches Some(route) && final(self)@ == (RelayRoutersView {
                            local: RelayLocalRouterView {
                                state: active_state(mode, route),
                                ..ready.local
                            },
                            ..ready
                        }) && exists|ids: Seq<u64>|
                            merges(ids, ready.local.link_ids, ready.playback.link_ids)
                                && already_routed(graph@, ids, route.pairs)
                    },
                    LocalStart::Change(task) => {
                        &&& task.wf()
                        &&& task.mode == mode
                        &&& merges(
                            task.previous@,
                            ready.local.link_ids,
                            ready.playback.link_ids,
                        )
                        &&& task.removed == 0
                        &&& task.owned_pairs@ == pairs_of(graph@, task.previous@)
                        &&& task.route_view() == desired
                        &&& desired matches Some(route) ==> !already_routed(
                            graph@,
                            task.previous@,
                            route.pairs,
                        )
                        &&& task.next == 0
                        &&& task.owned@ == Seq::<u64>::empty()
                        &&& final(self)@ == (match desired {
                            Some(_) => ready.released(),
                            None => ready.released().idled(mode),
                        })
                    },
                }
            }),
    {
        self.local.set_mode(mode);
        self.local.set_send_source(source.duplicate());
        self.local.set_receive_sink(sink.duplicate());
        let ghost ready = self@;
        assert(ready == old(self)@.configured(mode, source@, sink@));
        let previous = merge_ids(&self.local.link_ids, &self.playback.link_ids);
        let owned_pairs = collect_pairs(graph, &previous);
        let route = self.local.desired_links(graph, state);
        if let Some(wanted) = &route {
            if same_route(graph, &previous, &owned_pairs, wanted) {
                self.local.state = route_state(mode, wanted);
                assert(merges(previous@, ready.local.link_ids, ready.playback.link_ids)
                    && already_routed(graph@, previous@, wanted@.pairs));
                return LocalStart::Settled;
            }
        }
        self.local.link_ids = Vec::new();
        self.playback.link_ids = Vec::new();
        self.playback.current_sink_name = None;
        self.playback.current_sink_serial = None;
        assert(self@ == ready.released());
        if route.is_none() {
            let enabled = self.local.enabled;
            let text = self.local.idle_reason_text(mode);
            self.local.state = RelayLocalRouteState::inactive(mode, text);
            self.playback.state = match mode {
                RelayMode::Receiver => if enabled {
                    RelayPlaybackState::WaitingForSink
                } else {
                    RelayPlaybackState::Disabled
                },
                RelayMode::Emitter => RelayPlaybackState::Disabled,
            };
            assert(self@ == ready.released().idled(mode));
        }
        LocalStart::Change(
            LocalTask { mode, previous, removed: 0, owned_pairs, route, next: 0, owned: Vec::new() },
        )
    }

    /// Ends a task whose link could not be made. The result lists the links to
    /// take back, and the error to report.
    pub fn local_route_failed(&mut self, task: LocalTask, error: &str) -> (r: (
        Vec<u64>,
        BackendError,
    ))
        ensures
            r.0@ == task.owned@,
            r.1@ == BackendErrorView::Native("could not create local relay route: "@ + error@),
            final(self)@ == (RelayRoutersView {
                local: RelayLocalRouterView {
                    state: RelayLocalRouteStateView::idle(
                        task.mode,
                        "local relay route failed: "@ + error@,
                    ),
                    ..old(self)@.local
                },
                ..old(self)@
            }),
    {
        self.local.state = RelayLocalRouteState::inactive(
            task.mode,
            concat2("local relay route failed: ", error),
        );
        let text = concat2("could not create local relay route: ", error);
        (task.owned, BackendError::native(text.as_str()))
    }

    /// Ends a task that is done.
    pub fn finish_local_route(&mut self, task: LocalTask)
        ensures
            final(self)@ == (match task.route_view() {
                Some(route) => old(self)@.routed(task.mode, route, task.owned@),
                None => old(self)@,
            }),
    {
        match task.route {
            None => {},
            Some(route) => {
                self.local.state = route_state(task.mode, &route);
                match task.mode {
                    RelayMode::Receiver => {
                        let ids = copy_ids(&task.owned);
                        self.playback.link_ids = ids;
                        self.playback.state = RelayPlaybackState::Connected;
                        self.playback.current_sink_name = Some(route.sink_id);
                    },
                    RelayMode::Emitter => {
                        self.playback.state = RelayPlaybackState::Disabled;
                        self.playback.current_sink_name = None;
                    },
                }
                self.local.link_ids = task.owned;
            },
        }
    }
}

pub fn copy_ids(ids: &Vec<u64>) -> (r: Vec<u64>)
    ensures
        r@ == ids@,
{
    let mut out: Vec<u64> = Vec::new();
    let mut i: usize = 0;
    while i < ids.len()
        invariant
            i <= ids.len(),
            out@ == ids@.take(i as int),
        decreases ids.len() - i,
    {
        out.push(ids[i]);
        assert(ids@.take(i + 1) =~= ids@.take(i as int).push(ids@[i as int]));
        i = i + 1;
    }
    assert(ids@.take(ids@.len() as int) =~= ids@);
    out
}

/// The first position from `from` on whose link exists.
pub open spec fn next_alive(g: GraphView, ids: Seq<u64>, from: int) -> int
    decreases ids.len() - from,
{
    if from >= ids.len() || g.links.contains_key(ids[from]) {
        from
    } else {
        next_alive(g, ids, from + 1)
    }
}

/// The first pair from `from` on that no link joins.
pub open spec fn next_unjoined(g: GraphView, pairs: Seq<(PortId, PortId)>, from: int) -> int
    decreases pairs.len() - from,
{
    if from >= pairs.len() || joining(g, pairs[from].0, pairs[from].1) is None {
        from
    } else {
        next_unjoined(g, pairs, from + 1)
    }
}

/// The links that join the pairs `from..upto` and that were made here. A link
/// that a user made is left out.
pub open spec fn adopted(
    g: GraphView,
    pairs: Seq<(PortId, PortId)>,
    owned_pairs: Seq<(PortId, PortId)>,
    from: int,
    upto: int,
) -> Seq<u64>
    decreases upto - from,
{
    if from >= upto {
        Seq::empty()
    } else {
        let before = adopted(g, pairs, owned_pairs, from, upto - 1);
        let pair = pairs[upto - 1];
        match joining(g, pair.0, pair.1) {
            Some(k) => if owned_pairs.contains(pair) {
                before.push(k)
            } else {
                before
            },
            None => before,
        }
    }
}

impl LocalTask {
    pub open spec fn wf(&self) -> bool {
        self.removed <= self.previous@.len() && self.next <= 2
    }

    pub open spec fn route_view(&self) -> Option<LocalRouteView> {
        match self.route {
            Some(route) => Some(route@),
            None => None,
        }
    }

    /// Goes on: first the links of the earlier route that still exist are
    /// disconnected one by one, then the pairs of the new route that no link
    /// joins are connected.
    pub fn step(&mut self, graph: &Graph) -> (r: LocalStep)
        requires
            old(self).wf(),
        ensures
            final(self).wf(),
            final(self).mode == old(self).mode,
            final(self).previous == old(self).previous,
            final(self).owned_pairs == old(self).owned_pairs,
            final(self).route == old(self).route,
            ({
                let at = next_alive(graph@, old(self).previous@, old(self).removed as int);
                if at < old(self).previous@.len() {
                    &&& r == LocalStep::Disconnect(LinkId(old(self).previous@[at]))
                    &&& final(self).removed == at + 1
                    &&& final(self).next == old(self).next
                    &&& final(self).owned == old(self).owned
                } else {
                    &&& final(self).removed == old(self).previous@.len()
                    &&& match old(self).route_view() {
                        None => r == LocalStep::Done && final(self).next == old(self).next
                            && final(self).owned == old(self).owned,
                        Some(route) => {
                            let to = next_unjoined(graph@, route.pairs, old(self).next as int);
                            &&& final(self).next == to
                            &&& final(self).owned@ == old(self).owned@ + adopted(
                                graph@,
                                route.pairs,
                                old(self).owned_pairs@,
                                old(self).next as int,
                                to,
                            )
                            &&& r == (if to < 2 {
                                LocalStep::Connect(route.pairs[to].0, route.pairs[to].1)
                            } else {
                                LocalStep::Done
                            })
                        },
                    }
                }
            }),
    {
        let ghost start = self.removed as int;
        while self.removed < self.previous.len()
            invariant
                start == old(self).removed,
                start <= self.removed <= self.previous@.len(),
                self.mode == old(self).mode,
                self.previous == old(self).previous,
                self.owned_pairs == old(self).owned_pairs,
                self.route == old(self).route,
                self.next == old(self).next,
                self.next <= 2,
                self.owned == old(self).owned,
                next_alive(graph@, self.previous@, start) == next_alive(
                    graph@,
                    self.previous@,
                    self.removed as int,
                ),
            decreases self.previous.len() - self.removed,
        {
            let k: u64 = self.previous[self.removed];
            let alive = graph.links.contains_key(&k);
            self.removed = self.removed + 1;
            if alive {
                return LocalStep::Disconnect(LinkId(k));
            }
        }
        let pairs = match &self.route {
            None => {
                return LocalStep::Done;
            },
            Some(route) => route.pairs,
        };
        let ghost from = self.next as int;
        let ghost route = old(self).route_view()->Some_0;
        assert(route.pairs == pairs@);
        assert(self.owned@ =~= old(self).owned@ + adopted(
            graph@,
            pairs@,
            self.owned_pairs@,
            from,
            from,
        ));
        while self.next < 2
            invariant_except_break
                next_unjoined(graph@, pairs@, from) == next_unjoined(
                    graph@,
                    pairs@,
                    self.next as int,
                ),
            invariant
                from == old(self).next,
                from <= self.next <= 2,
                self.removed == self.previous@.len(),
                self.mode == old(self).mode,
                self.previous == old(self).previous,
                self.owned_pairs == old(self).owned_pairs,
                self.route == old(self).route,
                self.owned@ == old(self).owned@ + adopted(
                    graph@,
                    pairs@,
                    self.owned_pairs@,
                    from,
                    self.next as int,
                ),
            ensures
                next_unjoined(graph@, pairs@, from) == self.next,
            decreases 2 - self.next,
        {
            let pair = pairs[self.next];
            let ghost ids = self.owned@;
            let ghost before = adopted(
                graph@,
                pairs@,
                self.owned_pairs@,
                from,
                self.next as int,
            );
            match find_joining(graph, pair.0, pair.1) {
                None => {
                    break;
                },
                Some(k) => {
                    if has_pair(&self.owned_pairs, pair) {
                        self.owned.push(k);
                        assert(ids.push(k) =~= old(self).owned@ + before.push(k));
                    }
                },
            }
            self.next = self.next + 1;
        }
        if self.next < 2 {
            let pair = pairs[self.next];
            LocalStep::Connect(pair.0, pair.1)
        } else {
            LocalStep::Done
        }
    }

    /// Records that the pair at hand was connected.
    pub fn connected(&mut self, link: LinkId)
        requires
            old(self).wf(),
            old(self).next < 2,
        ensures
            final(self).wf(),
            final(self).mode == old(self).mode,
            final(self).previous == old(self).previous,
            final(self).removed == old(self).removed,
            final(self).owned_pairs == old(self).owned_pairs,
            final(self).route == old(self).route,
            final(self).next == old(self).next + 1,
            final(self).owned@ == old(self).owned@.push(link.0),
    {
        self.owned.push(link.0);
        self.next = self.next + 1;
    }
}

/// The links were made for a route: each joins one of its pairs, each pair is
/// joined, and no pair is joined twice. A link may be listed more than once.
pub open spec fn made_for(g: GraphView, made: Seq<u64>, pairs: Seq<(PortId, PortId)>) -> bool {
    &&& forall|k: u64| #[trigger]
        made.contains(k) ==> joins(g, k, pairs[0]) || joins(g, k, pairs[1])
    &&& pair_owned(g, made, pairs[0])
    &&& pair_owned(g, made, pairs[1])
    &&& forall|a: u64, b: u64| #[trigger]
        made.contains(a) && #[trigger] made.contains(b) && g.links[a].output_port
            == g.links[b].output_port && g.links[a].input_port == g.links[b].input_port ==> a == b
}

/// The links of a route that was just made are recognised as that route, also
/// where both its pairs are the same: the next reconciliation for it changes
/// nothing. The playback router remembers the same links, or none.
pub proof fn law_made_route_is_recognised(
    g: GraphView,
    made: Seq<u64>,
    playback: Seq<u64>,
    ids: Seq<u64>,
    pairs: Seq<(PortId, PortId)>,
)
    requires
        pairs.len() == 2,
        made_for(g, made, pairs),
        playback == made || playback.len() == 0,
        merges(ids, made, playback),
    ensures
        already_routed(g, ids, pairs),
{
    let a = choose|k: u64| #[trigger] made.contains(k) && joins(g, k, pairs[0]);
    let b = choose|k: u64| #[trigger] made.contains(k) && joins(g, k, pairs[1]);
    assert forall|k: u64| #[trigger] ids.contains(k) <==> k == a || k == b by {
        if made.contains(k) {
            assert(made.contains(a) && made.contains(b));
        }
    }
    assert(ids.no_duplicates());
    ids.unique_seq_to_set();
    if a == b {
        assert(ids.to_set() =~= set![a]);
    } else {
        assert(pairs[0] != pairs[1]);
        assert(ids.to_set() =~= set![a, b]);
    }
    assert(pairs.contains(pairs[0]));
    assert(pairs.contains(pairs[1]));
    assert forall|pair: (PortId, PortId)| #[trigger] pairs.contains(pair) <==> pair_owned(
        g,
        ids,
        pair,
    ) by {
        if pairs.contains(pair) {
            let i = choose|i: int| 0 <= i < pairs.len() && pairs[i] == pair;
            assert(ids.contains(a) && ids.contains(b));
            assert(i == 0 || i == 1);
            assert(joins(g, if i == 0 { a } else { b }, pair));
        }
        if pair_owned(g, ids, pair) {
            let k = choose|k: u64| #[trigger] ids.contains(k) && joins(g, k, pair);
            assert(k == a || k == b);
        }
    }
}

proof fn lemma_stereo_members(g: GraphView, ports: Seq<PortId>)
    ensures
        stereo_pair(g, ports) matches Some(pair) ==> ports.contains(pair.0) && ports.contains(
            pair.1,
        ),
{
    if ports.len() == 1 {
        assert(ports.contains(ports[0]));
    } else if ports.len() > 1 {
        lemma_first_is_member(
            ports,
            |p: PortId| g.port(p).channel == Some("FL"@) || has_sub(g.port(p).name, "FL"@),
        );
        lemma_first_is_member(
            ports,
            |p: PortId| g.port(p).channel == Some("FR"@) || has_sub(g.port(p).name, "FR"@),
        );
    }
}

/// The ports of the pair that a node offers belong to the node.
proof fn lemma_pair_belongs(g: GraphView, node: NodeId, source: bool, monitor: bool)
    requires
        g.wf(),
    ensures
        audio_pair(g, node, source, monitor) matches Some(pair) ==> g.has_node(node) && g.port(
            pair.0,
        ).node_id == node && g.port(pair.1).node_id == node,
{
    if g.has_node(node) {
        let ports = g.node(node).ports;
        let p_all = |p: PortId| audio_end(g, p, source);
        let p_tapped = |p: PortId| audio_end(g, p, source) && monitor_port(g, p);
        lemma_stereo_members(g, kept(ports, p_all));
        lemma_stereo_members(g, kept(ports, p_tapped));
        if let Some(pair) = audio_pair(g, node, source, monitor) {
            lemma_kept_members(ports, p_all, pair.0);
            lemma_kept_members(ports, p_all, pair.1);
            lemma_kept_members(ports, p_tapped, pair.0);
            lemma_kept_members(ports, p_tapped, pair.1);
            assert(g.lists(node.0, pair.0));
            assert(g.lists(node.0, pair.1));
        }
    }
}

proof fn lemma_first_of_holds<V>(m: Map<u64, V>, p: spec_fn(V) -> bool)
    ensures
        first_of(m, p) matches Some(k) ==> m.contains_key(k) && p(m[k]),
{
    if exists|k: u64| first_key(m, p, k) {
        let c = choose|k: u64| first_key(m, p, k);
        assert(first_key(m, p, c));
    }
}

/// A receiver never plays into a device of the relay.
proof fn lemma_receive_node(g: GraphView, state: RegistryView, sink: RelayReceiveSinkView)
    ensures
        receive_node(g, state, sink) matches Some(id) ==> g.has_node(id) && !relay_name(
            g.node(id).name,
        ),
{
    match sink {
        RelayReceiveSinkView::DefaultOutput => {
            if let Some(device) = state.default_sink {
                lemma_first_of_holds(
                    g.nodes,
                    |n: NodeView|
                        routable(g, n, false) && answers_to(state, n, device.name, device.serial),
                );
            }
        },
        RelayReceiveSinkView::OutputDevice(s) => {
            let bare = bare_selector(s);
            lemma_first_of_holds(
                g.nodes,
                |n: NodeView|
                    routable(g, n, false) && answers_to(state, n, bare, selector_serial(bare)),
            );
        },
        _ => {},
    }
}

/// The routes of the two modes have no pair in common, whatever ends were
/// selected: what a sender feeds into is the relay's own sink, and what a
/// receiver feeds into is not.
pub proof fn law_modes_share_no_pair(
    g: GraphView,
    state: RegistryView,
    source: RelaySendSourceView,
    sink: RelayReceiveSinkView,
)
    requires
        g.wf(),
    ensures
        match (emitter_route(g, state, source), receiver_route(g, state, sink)) {
            (Some(e), Some(r)) => forall|pair: (PortId, PortId)|
                !(#[trigger] e.pairs.contains(pair) && r.pairs.contains(pair)),
            _ => true,
        },
{
    if let (Some(e), Some(r)) = (emitter_route(g, state, source), receiver_route(g, state, sink)) {
        let relay = named_node(g, RELAY_SINK_NAME@)->Some_0;
        let out = receive_node(g, state, sink)->Some_0;
        lemma_pair_belongs(g, relay, false, false);
        lemma_pair_belongs(g, out, false, false);
        lemma_first_of_holds(g.nodes, |n: NodeView| n.name == RELAY_SINK_NAME@);
        lemma_receive_node(g, state, sink);
        assert forall|pair: (PortId, PortId)|
            !(#[trigger] e.pairs.contains(pair) && r.pairs.contains(pair)) by {
            if e.pairs.contains(pair) && r.pairs.contains(pair) {
                let i = choose|i: int| 0 <= i < e.pairs.len() && e.pairs[i] == pair;
                let j = choose|j: int| 0 <= j < r.pairs.len() && r.pairs[j] == pair;
                assert(g.port(pair.1).node_id == relay);
                assert(g.port(pair.1).node_id == out);
            }
        }
    }
}

/// A pair is owned exactly where one of the links joins its ports, and those
/// are the pairs that are collected.
pub proof fn law_owned_pairs(g: GraphView, ids: Seq<u64>, src: PortId, dst: PortId)
    ensures
        pairs_of(g, ids).contains((src, dst)) <==> exists|k: u64| #[trigger]
            ids.contains(k) && g.links.contains_key(k) && g.links[k].output_port == src
                && g.links[k].input_port == dst,
{
    lemma_pairs_of(g, ids, (src, dst));
    if exists|k: u64| #[trigger]
        ids.contains(k) && g.links.contains_key(k) && g.links[k].output_port == src
            && g.links[k].input_port == dst {
        let k = choose|k: u64| #[trigger]
            ids.contains(k) && g.links.contains_key(k) && g.links[k].output_port == src
                && g.links[k].input_port == dst;
        assert(ids.contains(k) && joins(g, k, (src, dst)));
    }
}

/// The next link to take away is one that is still there, and every one before
/// it is gone.
pub proof fn law_next_alive(g: GraphView, ids: Seq<u64>, from: int)
    requires
        0 <= from <= ids.len(),
    ensures
        from <= next_alive(g, ids, from) <= ids.len(),
        next_alive(g, ids, from) < ids.len() ==> g.links.contains_key(
            ids[next_alive(g, ids, from)],
        ),
        forall|i: int|
            from <= i < next_alive(g, ids, from) ==> !g.links.contains_key(#[trigger] ids[i]),
    decreases ids.len() - from,
{
    if from < ids.len() && !g.links.contains_key(ids[from]) {
        law_next_alive(g, ids, from + 1);
    }
}

/// The next pair to join is one that nothing joins, and every one before it is
/// joined.
pub proof fn law_next_unjoined(g: GraphView, pairs: Seq<(PortId, PortId)>, from: int)
    requires
        0 <= from <= pairs.len(),
    ensures
        from <= next_unjoined(g, pairs, from) <= pairs.len(),
        next_unjoined(g, pairs, from) < pairs.len() ==> !g.connected(
            pairs[next_unjoined(g, pairs, from)].0,
            pairs[next_unjoined(g, pairs, from)].1,
        ),
        forall|i: int|
            from <= i < next_unjoined(g, pairs, from) ==> g.connected(
                (#[trigger] pairs[i]).0,
                pairs[i].1,
            ),
    decreases pairs.len() - from,
{
    if from < pairs.len() {
        crate::relay_playback::law_joining(g, pairs[from].0, pairs[from].1);
        if let Some(k) = joining(g, pairs[from].0, pairs[from].1) {
            assert(g.links.contains_key(k));
            law_next_unjoined(g, pairs, from + 1);
        }
    }
}

/// A link that is there already is taken over exactly where its pair was owned
/// before; a link that someone else made stays theirs.
pub proof fn law_adopted_links(
    g: GraphView,
    pairs: Seq<(PortId, PortId)>,
    owned_pairs: Seq<(PortId, PortId)>,
    from: int,
    upto: int,
    k: u64,
)
    requires
        0 <= from <= upto <= pairs.len(),
    ensures
        adopted(g, pairs, owned_pairs, from, upto).contains(k) <==> exists|i: int|
            from <= i < upto && owned_pairs.contains(#[trigger] pairs[i]) && joining(
                g,
                pairs[i].0,
                pairs[i].1,
            ) == Some(k),
    decreases upto - from,
{
    if from < upto {
        let before = adopted(g, pairs, owned_pairs, from, upto - 1);
        law_adopted_links(g, pairs, owned_pairs, from, upto - 1, k);
        let last = pairs[upto - 1];
        if let Some(j) = joining(g, last.0, last.1) {
            lemma_push_contains(before, j, k);
        }
        if before.contains(k) {
            let i = choose|i: int|
                from <= i < upto - 1 && owned_pairs.contains(#[trigger] pairs[i]) && joining(
                    g,
                    pairs[i].0,
                    pairs[i].1,
                ) == Some(k);
            assert(owned_pairs.contains(pairs[i]));
        }
        if exists|i: int|
            from <= i < upto && owned_pairs.contains(#[trigger] pairs[i]) && joining(
                g,
                pairs[i].0,
                pairs[i].1,
            ) == Some(k) {
            let i = choose|i: int|
                from <= i < upto && owned_pairs.contains(#[trigger] pairs[i]) && joining(
                    g,
                    pairs[i].0,
                    pairs[i].1,
                ) == Some(k);
            if i < upto - 1 {
                assert(owned_pairs.contains(pairs[i]));
            }
        }
    }
}

/// A route stands exactly where the links own the two pairs of the route, each
/// once, and no other pair.
pub proof fn law_standing_routes(
    g: GraphView,
    ids: Seq<u64>,
    pairs: Seq<(PortId, PortId)>,
    i: int,
)
    requires
        pairs.len() == 2,
        already_routed(g, ids, pairs),
        0 <= i < 2,
    ensures
        g.connected(pairs[i].0, pairs[i].1),
        forall|k: u64| #[trigger]
            ids.contains(k) && g.links.contains_key(k) ==> pairs.contains(
                (g.links[k].output_port, g.links[k].input_port),
            ),
        pairs[0] != pairs[1] ==> ids.len() == 2,
        pairs[0] == pairs[1] ==> ids.len() == 1,
{
    assert(pairs.contains(pairs[i]));
    let k = choose|k: u64| #[trigger] ids.contains(k) && joins(g, k, pairs[i]);
    assert(g.links.contains_key(k));
    assert forall|k: u64| #[trigger]
        ids.contains(k) && g.links.contains_key(k) implies pairs.contains(
        (g.links[k].output_port, g.links[k].input_port),
    ) by {
        let pair = (g.links[k].output_port, g.links[k].input_port);
        assert(joins(g, k, pair));
        assert(pair_owned(g, ids, pair));
    }
}

/// Configuring sets the mode, the source and the sink, and nothing else.
/// Releasing a route owns no link any more. A route that was made is active
/// and names its ends; only a receiver plays to a sink.
pub proof fn law_states_of_the_routers(
    routers: RelayRoutersView,
    mode: RelayMode,
    source: RelaySendSourceView,
    sink: RelayReceiveSinkView,
    route: LocalRouteView,
    owned: Seq<u64>,
)
    ensures
        ({
            let ready = routers.configured(mode, source, sink);
            &&& ready.local.mode == Some(mode)
            &&& ready.local.send_source == source
            &&& ready.local.receive_sink == sink
            &&& ready.local.enabled == routers.local.enabled
            &&& ready.local.link_ids == routers.local.link_ids
            &&& ready.playback == routers.playback
        }),
        ({
            let free = routers.released();
            &&& free.local.link_ids.len() == 0
            &&& free.playback.link_ids.len() == 0
            &&& free.playback.current_sink_name is None
            &&& free.playback.current_sink_serial is None
            &&& free.local.mode == routers.local.mode
            &&& free.local.enabled == routers.local.enabled
        }),
        ({
            let idle = routers.idled(mode);
            &&& !idle.local.state.active
            &&& idle.local.state.mode == Some(mode)
            &&& idle.local.state.source_id is None
            &&& idle.local.state.sink_id is None
            &&& idle.local.link_ids == routers.local.link_ids
            &&& idle.playback.state is WaitingForSink <==> routers.local.enabled
                && mode is Receiver
            &&& idle.playback.state is Disabled <==> !(routers.local.enabled && mode is Receiver)
        }),
        ({
            let on = routers.routed(mode, route, owned);
            &&& on.local.state.active
            &&& on.local.state.mode == Some(mode)
            &&& on.local.state.source_id == Some(route.source_id)
            &&& on.local.state.sink_id == Some(route.sink_id)
            &&& on.local.state.description == route.description
            &&& on.local.link_ids == owned
            &&& mode is Receiver ==> on.playback.state is Connected
                && on.playback.current_sink_name == Some(route.sink_id) && on.playback.link_ids
                == owned
            &&& mode is Emitter ==> on.playback.state is Disabled
                && on.playback.current_sink_name is None && on.playback.link_ids
                == routers.playback.link_ids
        }),
{
}

} // verus!
