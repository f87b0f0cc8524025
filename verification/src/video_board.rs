//! The video filters of a driver and the links between them. A link to a
//! filter is no link of the media server: it aims the filter's capture at its
//! source. A link from a filter stands for one from the filter's stream.
use crate::graph::{Graph, GraphView};
use crate::ids::{graph_id, LinkId, NodeId, PortId};
use crate::model::{
    opt_text, BackendError, BackendErrorView, Direction, GraphError, PortType, Position,
};
use crate::effect_model::is_blank;
use crate::registry::{
    classify_port_type, port_type_of, NodeRecordView, PortRecordView, RegistryState, RegistryView,
};
use crate::snapshot::gid;
use crate::table::{
    first_of, keys_of, keys_where, lemma_first_found, lemma_keys_where, lemma_none_found,
    lemma_picked_lists, lists_domain, lists_keys, picked,
};
use crate::text::{concat2, concat3, decimal, decimal_text, text_eq, trimmed};
use crate::text_table::TextTable;
use crate::video_bridge::{
    VideoBridge, VideoBridgeView, VideoFilterInstance, VideoFilterInstanceView,
};
use crate::video_names::{
    following, output_name, video_id, video_output_stream_name, VideoIds,
};
use std::collections::BTreeMap;
use vstd::prelude::*;

verus! {

broadcast use vstd::std_specs::btree::group_btree_axioms;

/// How a shown link maps onto the media server.
#[derive(Debug, PartialEq, Eq)]
pub struct VideoLinkProjection {
    pub output: PortId,
    pub input: PortId,
    pub real_link: Option<LinkId>,
    pub capture_bridge: Option<String>,
}

/// The contents of a [`VideoLinkProjection`].
pub struct ProjectionView {
    pub output: PortId,
    pub input: PortId,
    pub real_link: Option<LinkId>,
    pub capture_bridge: Option<Seq<char>>,
}

impl View for VideoLinkProjection {
    type V = ProjectionView;

    open spec fn view(&self) -> ProjectionView {
        ProjectionView {
            output: self.output,
            input: self.input,
            real_link: self.real_link,
            capture_bridge: opt_text(self.capture_bridge),
        }
    }
}

/// The filters and links of a driver.
#[derive(Debug, PartialEq, Eq)]
pub struct VideoBoard {
    pub bridges: TextTable<VideoBridge>,
    pub links: BTreeMap<u64, VideoLinkProjection>,
    pub positions: BTreeMap<u64, Position>,
    pub ids: VideoIds,
}

/// The contents of a [`VideoBoard`].
#[verifier::ext_equal]
pub struct VideoBoardView {
    pub bridges: Map<Seq<char>, VideoBridgeView>,
    pub links: Map<u64, ProjectionView>,
    pub positions: Map<u64, Position>,
    pub sequence: u64,
}

impl View for VideoBoard {
    type V = VideoBoardView;

    open spec fn view(&self) -> VideoBoardView {
        VideoBoardView {
            bridges: self.bridges@.map_values(|b: VideoBridge| b@),
            links: self.links@.map_values(|p: VideoLinkProjection| p@),
            positions: self.positions@,
            sequence: self.ids.sequence,
        }
    }
}

/// The error for a filter that does not exist.
pub open spec fn unknown_filter(id: Seq<char>) -> BackendErrorView {
    BackendErrorView::Native("unknown video filter instance "@ + id)
}

pub fn unknown_video_filter(id: &str) -> (r: BackendError)
    ensures
        r@ == unknown_filter(id@),
{
    BackendError::Native(concat2("unknown video filter instance ", id))
}

/// A port of a filter.
pub open spec fn is_bridge_port(bridge: VideoBridgeView, port: PortId) -> bool {
    bridge.instance.input_port == port || bridge.instance.output_port == port
}

/// The first filter, in the order of their names, that has a port.
pub open spec fn owner_at(entries: Seq<(String, VideoBridge)>, port: PortId, i: int) -> bool {
    &&& 0 <= i < entries.len()
    &&& is_bridge_port(entries[i].1@, port)
    &&& forall|j: int| 0 <= j < i ==> !is_bridge_port((#[trigger] entries[j]).1@, port)
}

/// The name of the filter that has a port.
pub open spec fn owner_of_port(entries: Seq<(String, VideoBridge)>, port: PortId) -> Option<
    Seq<char>,
> {
    if exists|i: int| owner_at(entries, port, i) {
        Some(entries[choose|i: int| owner_at(entries, port, i)].0@)
    } else {
        None
    }
}

/// Why a filter cannot be made.
pub open spec fn filter_refusal(
    bridges: Map<Seq<char>, VideoBridgeView>,
    id: Seq<char>,
) -> Option<BackendErrorView> {
    if trimmed(id).len() == 0 {
        Some(BackendErrorView::Native("video filter instance id is empty"@))
    } else if bridges.contains_key(id) {
        Some(BackendErrorView::Native("video filter instance "@ + id + " already exists"@))
    } else {
        None
    }
}

/// What a capture aims at to see a node: its serial, or its name where it has
/// none.
pub open spec fn target_of_node(g: GraphView, node: NodeId) -> Result<
    Seq<char>,
    BackendErrorView,
> {
    if !g.has_node(node) {
        Err(BackendErrorView::Graph(GraphError::MissingNode(node)))
    } else {
        match g.node(node).serial {
            Some(serial) => Ok(decimal(serial as nat)),
            None => if trimmed(g.node(node).name).len() == 0 {
                Err(BackendErrorView::Native("capture target node has no identity"@))
            } else {
                Ok(g.node(node).name)
            },
        }
    }
}

pub fn target_for_node(graph: &Graph, node: NodeId) -> (r: Result<String, BackendError>)
    ensures
        match target_of_node(graph@, node) {
            Ok(text) => r matches Ok(target) && target@ == text,
            Err(error) => r matches Err(e) && e@ == error,
        },
{
    match graph.node(node) {
        None => Err(BackendError::Graph(GraphError::MissingNode(node))),
        Some(found) => match found.serial {
            Some(serial) => Ok(decimal_text(serial)),
            None => if is_blank(found.name.as_str()) {
                Err(BackendError::native("capture target node has no identity"))
            } else {
                Ok(found.name.clone())
            },
        },
    }
}

/// A node has the name of a stream.
pub open spec fn named(name: Seq<char>) -> spec_fn(NodeRecordView) -> bool {
    |record: NodeRecordView| record.name == name
}

/// A video output of a node.
pub open spec fn video_source(node: u64, media_class: Seq<char>) -> spec_fn(PortRecordView) -> bool {
    |port: PortRecordView|
        port.node_id == node && port.direction == Direction::Source && port_type_of(
            port.media_type,
            media_class,
        ) == PortType::Video
}

/// The port and the node of the stream that gives out a filter's frames, once
/// they are published.
pub open spec fn published_output(state: RegistryView, id: Seq<char>) -> Option<(PortId, u64)> {
    match first_of(state.nodes, named(output_name(id))) {
        None => None,
        Some(node) => match first_of(
            state.ports,
            video_source(node, state.nodes[node].media_class),
        ) {
            None => None,
            Some(port) => Some((PortId(gid(port)), node)),
        },
    }
}

pub fn bridge_output_source_port(state: &RegistryState, id: &str) -> (r: Option<(PortId, u64)>)
    ensures
        r == published_output(state@, id@),
{
    let name = video_output_stream_name(id);
    let keys = keys_of(&state.nodes);
    assert(lists_domain(keys@, state@.nodes)) by {
        assert forall|k: u64| #[trigger] keys@.contains(k) <==> state@.nodes.contains_key(k) by {
            assert(keys@.contains(k) <==> state.nodes@.contains_key(k));
        }
    }
    let mut i: usize = 0;
    while i < keys.len()
        invariant
            i <= keys.len(),
            name@ == output_name(id@),
            lists_domain(keys@, state@.nodes),
            forall|j: int| 0 <= j < i ==> !named(name@)(#[trigger] state@.nodes[keys@[j]]),
        decreases keys.len() - i,
    {
        let k: u64 = keys[i];
        assert(keys@.contains(k));
        assert(state@.nodes.contains_key(k));
        if let Some(record) = state.nodes.get(&k) {
            if text_eq(record.name.as_str(), name.as_str()) {
                proof {
                    lemma_first_found(keys@, state@.nodes, named(name@), i as int);
                }
                return match find_video_source(state, k, record.media_class.as_str()) {
                    None => None,
                    Some(port) => Some((PortId(graph_id(port)), k)),
                };
            }
        }
        i = i + 1;
    }
    proof {
        lemma_none_found(keys@, state@.nodes, named(name@));
    }
    None
}

fn find_video_source(state: &RegistryState, node: u64, media_class: &str) -> (r: Option<u64>)
    ensures
        r == first_of(state@.ports, video_source(node, media_class@)),
{
    let keys = keys_of(&state.ports);
    assert(lists_domain(keys@, state@.ports)) by {
        assert forall|k: u64| #[trigger] keys@.contains(k) <==> state@.ports.contains_key(k) by {
            assert(keys@.contains(k) <==> state.ports@.contains_key(k));
        }
    }
    let mut i: usize = 0;
    while i < keys.len()
        invariant
            i <= keys.len(),
            lists_domain(keys@, state@.ports),
            forall|j: int|
                0 <= j < i ==> !video_source(node, media_class@)(#[trigger] state@.ports[keys@[j]]),
        decreases keys.len() - i,
    {
        let k: u64 = keys[i];
        assert(keys@.contains(k));
        assert(state@.ports.contains_key(k));
        if let Some(port) = state.ports.get(&k) {
            let kind = classify_port_type(port.media_type.as_str(), Some(media_class));
            if port.node_id as u64 == node && port.direction.is_source() && kind
                == PortType::Video {
                proof {
                    lemma_first_found(
                        keys@,
                        state@.ports,
                        video_source(node, media_class@),
                        i as int,
                    );
                }
                return Some(k);
            }
        }
        i = i + 1;
    }
    proof {
        lemma_none_found(keys@, state@.ports, video_source(node, media_class@));
    }
    None
}

/// A projection of a filter: one that begins at its output or ends at its
/// input.
pub open spec fn belongs(p: ProjectionView, bridge: VideoBridgeView) -> bool {
    p.output == bridge.instance.output_port || p.input == bridge.instance.input_port
}

impl VideoBoardView {
    /// The next filter to be made.
    pub open spec fn next_filter(self, id: Seq<char>, filter_id: Seq<char>) -> VideoFilterInstanceView {
        VideoFilterInstanceView {
            instance_id: id,
            node_id: NodeId(video_id(self.sequence)),
            input_port: PortId(video_id(following(self.sequence))),
            output_port: PortId(video_id(following(following(self.sequence)))),
            filter_id,
        }
    }

    /// With one more filter.
    pub open spec fn with_filter(
        self,
        id: Seq<char>,
        filter_id: Seq<char>,
        position: Position,
    ) -> VideoBoardView {
        let instance = self.next_filter(id, filter_id);
        VideoBoardView {
            bridges: self.bridges.insert(id, VideoBridgeView::fresh(instance).started()),
            positions: self.positions.insert(instance.node_id.0, position),
            sequence: following(following(following(self.sequence))),
            ..self
        }
    }

    /// Without a filter and its links.
    pub open spec fn without_filter(self, id: Seq<char>) -> VideoBoardView {
        let bridge = self.bridges[id];
        VideoBoardView {
            bridges: self.bridges.remove(id),
            links: self.links.restrict(
                self.links.dom().filter(|k: u64| !belongs(self.links[k], bridge)),
            ),
            positions: self.positions.remove(bridge.instance.node_id.0),
            ..self
        }
    }
}

impl VideoBoard {
    /// Every filter stands under its own name.
    pub open spec fn wf(&self) -> bool {
        self.bridges.wf()
    }

    pub fn new() -> (r: VideoBoard)
        ensures
            r.wf(),
            r@ == (VideoBoardView {
                bridges: Map::empty(),
                links: Map::empty(),
                positions: Map::empty(),
                sequence: 0,
            }),
    {
        let r = VideoBoard {
            bridges: TextTable::new(),
            links: BTreeMap::new(),
            positions: BTreeMap::new(),
            ids: VideoIds::new(),
        };
        assert(r@.bridges =~= Map::<Seq<char>, VideoBridgeView>::empty());
        assert(r@.links =~= Map::<u64, ProjectionView>::empty());
        r
    }

    /// The filter that has a port, and whether the port is its input.
    pub fn video_bridge_for_port(&self, port: PortId) -> (r: Option<(String, bool)>)
        ensures
            match r {
                Some((id, is_input)) => owner_of_port(self.bridges.entries@, port) == Some(id@)
                    && exists|i: int|
                    owner_at(self.bridges.entries@, port, i) && #[trigger] self.bridges.entries@[i].0@
                        == id@ && is_input == (self.bridges.entries@[i].1@.instance.input_port
                        == port),
                None => owner_of_port(self.bridges.entries@, port) is None,
            },
    {
        let mut i: usize = 0;
        while i < self.bridges.entries.len()
            invariant
                i <= self.bridges.entries.len(),
                forall|j: int|
                    0 <= j < i ==> !is_bridge_port(
                        (#[trigger] self.bridges.entries@[j]).1@,
                        port,
                    ),
            decreases self.bridges.entries.len() - i,
        {
            let bridge = &self.bridges.entries[i].1;
            let is_input: bool = bridge.instance.input_port == port;
            if is_input || bridge.instance.output_port == port {
                proof {
                    assert(owner_at(self.bridges.entries@, port, i as int));
                    let found = choose|k: int| owner_at(self.bridges.entries@, port, k);
                    assert(owner_at(self.bridges.entries@, port, found));
                    if found < i {
                        assert(!is_bridge_port(self.bridges.entries@[found].1@, port));
                    }
                    if found > i {
                        assert(!is_bridge_port(self.bridges.entries@[i as int].1@, port));
                    }
                }
                return Some((self.bridges.entries[i].0.clone(), is_input));
            }
            i = i + 1;
        }
        proof {
            if exists|k: int| owner_at(self.bridges.entries@, port, k) {
                let found = choose|k: int| owner_at(self.bridges.entries@, port, k);
                assert(!is_bridge_port(self.bridges.entries@[found].1@, port));
            }
        }
        None
    }

    /// Checks that a filter may be made under a name.
    pub fn check_create_filter(&self, id: &str) -> (r: Result<(), BackendError>)
        requires
            self.wf(),
        ensures
            match filter_refusal(self@.bridges, id@) {
                Some(error) => r matches Err(e) && e@ == error,
                None => r is Ok,
            },
    {
        if is_blank(id) {
            return Err(BackendError::native("video filter instance id is empty"));
        }
        if self.bridges.contains_key(id) {
            return Err(
                BackendError::Native(concat3("video filter instance ", id, " already exists")),
            );
        }
        Ok(())
    }

    /// Makes a filter, with its worker.
    pub fn create_filter(&mut self, id: &str, filter_id: &str, position: Position) -> (r:
        VideoFilterInstance)
        requires
            old(self).wf(),
        ensures
            final(self).wf(),
            r@ == old(self)@.next_filter(id@, filter_id@),
            final(self)@ == old(self)@.with_filter(id@, filter_id@, position),
    {
        let ghost before = self@;
        let node_id = NodeId(self.ids.alloc_video_id());
        let input_port = PortId(self.ids.alloc_video_id());
        let output_port = PortId(self.ids.alloc_video_id());
        let instance = VideoFilterInstance {
            instance_id: id.to_owned(),
            node_id,
            input_port,
            output_port,
            filter_id: filter_id.to_owned(),
        };
        let mut bridge = VideoBridge::new(instance.duplicate());
        let _ = bridge.ensure_worker();
        self.positions.insert(node_id.0, position);
        self.bridges.insert(id.to_owned(), bridge);
        assert(self@.bridges =~= before.bridges.insert(id@, bridge@));
        instance
    }

    /// Removes a filter. The result lists the links of the media server that
    /// have to be destroyed.
    pub fn remove_filter(&mut self, id: &str) -> (r: Result<Vec<LinkId>, BackendError>)
        requires
            old(self).wf(),
        ensures
            final(self).wf(),
            if old(self)@.bridges.contains_key(id@) {
                let bridge = old(self)@.bridges[id@];
                &&& r matches Ok(links) && links@ == real_links(
                    old(self)@.links,
                    keys_where(old(self)@.links, |p: ProjectionView| belongs(p, bridge)),
                )
                &&& final(self)@ == old(self)@.without_filter(id@)
            } else {
                &&& r matches Err(e) && e@ == unknown_filter(id@)
                &&& final(self)@ == old(self)@
            },
    {
        let ghost before = self@;
        let bridge = match self.bridges.get(id) {
            None => {
                return Err(unknown_video_filter(id));
            },
            Some(bridge) => bridge.duplicate(),
        };
        let ghost p = |p: ProjectionView| belongs(p, bridge@);
        let keys = self.links_of(bridge.input_port(), bridge.output_port());
        assert((|p: ProjectionView|
            p.output == bridge@.instance.output_port || p.input == bridge@.instance.input_port)
            =~= p);
        let mut doomed: Vec<LinkId> = Vec::new();
        let mut i: usize = 0;
        while i < keys.len()
            invariant
                i <= keys.len(),
                self.wf(),
                p == (|p: ProjectionView| belongs(p, bridge@)),
                keys@ == keys_where(before.links, p),
                lists_keys(keys@, before.links, p),
                self@.bridges == before.bridges,
                self@.positions == before.positions,
                self@.sequence == before.sequence,
                forall|k: u64| #[trigger]
                    self@.links.contains_key(k) <==> before.links.contains_key(k)
                        && !keys@.take(i as int).contains(k),
                forall|k: u64| #[trigger]
                    self@.links.contains_key(k) ==> self@.links[k] == before.links[k],
                doomed@ == real_links(before.links, keys@.take(i as int)),
            decreases keys.len() - i,
        {
            let k: u64 = keys[i];
            let ghost links = self@.links;
            proof {
                assert(keys@.contains(k));
                assert(before.links.contains_key(k));
                assert(!keys@.take(i as int).contains(k)) by {
                    if keys@.take(i as int).contains(k) {
                        let j = choose|j: int| 0 <= j < i && keys@.take(i as int)[j] == k;
                        assert(keys@[j] == k);
                    }
                }
                assert(self@.links.contains_key(k));
                assert(keys@.take(i + 1) =~= keys@.take(i as int).push(k));
                assert(keys@.take(i + 1).drop_last() =~= keys@.take(i as int));
                assert forall|x: u64| keys@.take(i + 1).contains(x) <==> (keys@.take(
                    i as int,
                ).contains(x) || x == k) by {
                    crate::table::lemma_push_contains(keys@.take(i as int), k, x);
                }
            }
            if let Some(projection) = self.links.remove(&k) {
                assert(self@.links =~= links.remove(k));
                if let Some(link) = projection.real_link {
                    doomed.push(link);
                }
            }
            i = i + 1;
        }
        let ghost links = self@.links;
        let _ = self.bridges.remove(id);
        let _ = self.positions.remove(&bridge.node_id().0);
        proof {
            assert(keys@.take(i as int) =~= keys@);
            assert(self@.bridges =~= before.bridges.remove(id@));
            let rest = before.without_filter(id@);
            assert forall|k: u64| #[trigger] links.contains_key(k)
                <==> rest.links.contains_key(k) by {
                let free = before.links.dom().filter(
                    |k: u64| !belongs(before.links[k], before.bridges[id@]),
                );
                assert(rest.links.contains_key(k) <==> before.links.contains_key(k)
                    && free.contains(k));
                if before.links.contains_key(k) {
                    assert(keys@.contains(k) <==> p(before.links[k]));
                }
            }
            assert(links =~= rest.links);
        }
        Ok(doomed)
    }

    fn links_of(&self, input: PortId, output: PortId) -> (r: Vec<u64>)
        ensures
            r@ == keys_where(
                self@.links,
                |p: ProjectionView| p.output == output || p.input == input,
            ),
            lists_keys(
                r@,
                self@.links,
                |p: ProjectionView| p.output == output || p.input == input,
            ),
    {
        let keys = keys_of(&self.links);
        assert(lists_domain(keys@, self@.links)) by {
            assert forall|k: u64| #[trigger] keys@.contains(k) <==> self@.links.contains_key(k) by {
                assert(keys@.contains(k) <==> self.links@.contains_key(k));
            }
        }
        let ghost p = |p: ProjectionView| p.output == output || p.input == input;
        let mut found: Vec<u64> = Vec::new();
        let mut i: usize = 0;
        while i < keys.len()
            invariant
                i <= keys.len(),
                lists_domain(keys@, self@.links),
                p == (|p: ProjectionView| p.output == output || p.input == input),
                found@ == picked(keys@, i as int, self@.links, p),
            decreases keys.len() - i,
        {
            let k: u64 = keys[i];
            assert(keys@.contains(k));
            assert(self@.links.contains_key(k));
            if let Some(projection) = self.links.get(&k) {
                if projection.output == output || projection.input == input {
                    found.push(k);
                }
            }
            i = i + 1;
        }
        proof {
            lemma_picked_lists(keys@, self@.links, p);
            lemma_keys_where(found@, self@.links, p);
        }
        found
    }
}

/// The links of the media server behind some projections, in their order.
pub open spec fn real_links(links: Map<u64, ProjectionView>, keys: Seq<u64>) -> Seq<LinkId>
    decreases keys.len(),
{
    if keys.len() == 0 {
        Seq::empty()
    } else {
        let rest = real_links(links, keys.drop_last());
        match links[keys.last()].real_link {
            Some(link) => rest.push(link),
            None => rest,
        }
    }
}

/// Removing a filter leaves no link to it.
pub proof fn law_removed_filters_leave_no_link(board: VideoBoardView, id: Seq<char>, k: u64)
    requires
        board.bridges.contains_key(id),
        board.without_filter(id).links.contains_key(k),
    ensures
        !belongs(board.without_filter(id).links[k], board.bridges[id]),
        board.links.contains_key(k),
        board.without_filter(id).links[k] == board.links[k],
        !board.without_filter(id).bridges.contains_key(id),
{
}

/// A filter that was made and removed again has left nothing but used
/// numbers.
pub proof fn law_make_remove_filter(
    board: VideoBoardView,
    id: Seq<char>,
    filter_id: Seq<char>,
    position: Position,
)
    requires
        !board.bridges.contains_key(id),
        !board.positions.contains_key(video_id(board.sequence)),
        forall|k: u64| #[trigger]
            board.links.contains_key(k) ==> !belongs(
                board.links[k],
                VideoBridgeView::fresh(board.next_filter(id, filter_id)).started(),
            ),
    ensures
        ({
            let after = board.with_filter(id, filter_id, position).without_filter(id);
            &&& after.bridges == board.bridges
            &&& after.links == board.links
            &&& after.positions == board.positions
        }),
{
    let made = board.with_filter(id, filter_id, position);
    let after = made.without_filter(id);
    assert(after.bridges =~= board.bridges);
    assert(after.positions =~= board.positions);
    assert forall|k: u64| #[trigger] after.links.contains_key(k) <==> board.links.contains_key(k) by {
        if board.links.contains_key(k) {
            assert(!belongs(board.links[k], made.bridges[id]));
        }
    }
    assert(after.links =~= board.links);
}

/// A filter owns a port exactly where the port is its input or its output,
/// and no filter before it has that port.
pub proof fn law_owner_of_port(entries: Seq<(String, VideoBridge)>, port: PortId)
    ensures
        match owner_of_port(entries, port) {
            Some(id) => exists|i: int|
                0 <= i < entries.len() && (#[trigger] entries[i]).0@ == id && (
                entries[i].1@.instance.input_port == port || entries[i].1@.instance.output_port
                    == port) && forall|j: int|
                    0 <= j < i ==> (#[trigger] entries[j]).1@.instance.input_port != port
                        && entries[j].1@.instance.output_port != port,
            None => forall|i: int|
                0 <= i < entries.len() ==> (#[trigger] entries[i]).1@.instance.input_port != port
                    && entries[i].1@.instance.output_port != port,
        },
{
    if exists|i: int| owner_at(entries, port, i) {
        let i = choose|i: int| owner_at(entries, port, i);
        assert(owner_at(entries, port, i));
        assert(entries[i].0@ == owner_of_port(entries, port)->Some_0);
        assert forall|j: int| 0 <= j < i implies (#[trigger] entries[j]).1@.instance.input_port
            != port && entries[j].1@.instance.output_port != port by {
            assert(!is_bridge_port(entries[j].1@, port));
        }
    } else {
        assert forall|i: int| 0 <= i < entries.len() implies (
        #[trigger] entries[i]).1@.instance.input_port != port
            && entries[i].1@.instance.output_port != port by {
            if is_bridge_port(entries[i].1@, port) {
                lemma_owner_exists(entries, port, i);
            }
        }
    }
}

proof fn lemma_owner_exists(entries: Seq<(String, VideoBridge)>, port: PortId, i: int)
    requires
        0 <= i < entries.len(),
        is_bridge_port(entries[i].1@, port),
    ensures
        exists|j: int| owner_at(entries, port, j),
    decreases i,
{
    if !owner_at(entries, port, i) {
        let j = choose|j: int| 0 <= j < i && is_bridge_port((#[trigger] entries[j]).1@, port);
        lemma_owner_exists(entries, port, j);
    }
}

/// The port of a single filter is owned by that filter.
pub proof fn law_single_owner(entries: Seq<(String, VideoBridge)>, port: PortId, i: int)
    requires
        0 <= i < entries.len(),
        entries[i].1@.instance.input_port == port || entries[i].1@.instance.output_port == port,
        forall|j: int|
            0 <= j < entries.len() && j != i ==> (#[trigger] entries[j]).1@.instance.input_port
                != port && entries[j].1@.instance.output_port != port,
    ensures
        owner_of_port(entries, port) == Some(entries[i].0@),
{
    law_owner_of_port(entries, port);
}

/// A node is captured by its serial, failing that by its name; without either,
/// or outside the graph, it cannot be captured.
pub proof fn law_capture_targets(g: GraphView, node: NodeId, serial: u64)
    ensures
        g.has_node(node) && g.node(node).serial == Some(serial) ==> target_of_node(g, node) == Ok::<
            Seq<char>,
            BackendErrorView,
        >(decimal(serial as nat)),
        g.has_node(node) && g.node(node).serial is None && !crate::text::all_white(
            g.node(node).name,
        ) ==> target_of_node(g, node) == Ok::<Seq<char>, BackendErrorView>(g.node(node).name),
        g.has_node(node) && g.node(node).serial is None && crate::text::all_white(
            g.node(node).name,
        ) ==> target_of_node(g, node) is Err,
        !g.has_node(node) ==> target_of_node(g, node) == Err::<Seq<char>, BackendErrorView>(
            BackendErrorView::Graph(GraphError::MissingNode(node)),
        ),
{
    crate::text::law_trimmed(g.node(node).name);
}

/// The output of a filter is the first video source port of the node that
/// bears the name of the filter's output stream; it is missing exactly where
/// there is no such node or the node has no such port.
pub proof fn law_published_output(state: RegistryView, id: Seq<char>)
    ensures
        match published_output(state, id) {
            Some((port, node)) => {
                &&& state.nodes.contains_key(node)
                &&& state.nodes[node].name == "qpwgraph-video-stream-"@ + "out-"@ + id
                &&& exists|k: u64|
                    port == PortId(gid(k)) && #[trigger] state.ports.contains_key(k)
                        && state.ports[k].node_id == node && state.ports[k].direction
                        == Direction::Source && port_type_of(
                        state.ports[k].media_type,
                        state.nodes[node].media_class,
                    ) == PortType::Video && forall|j: u64| #[trigger]
                        state.ports.contains_key(j) && state.ports[j].node_id == node
                            && state.ports[j].direction == Direction::Source && port_type_of(
                            state.ports[j].media_type,
                            state.nodes[node].media_class,
                        ) == PortType::Video ==> k <= j
                &&& forall|m: u64| #[trigger]
                    state.nodes.contains_key(m) && state.nodes[m].name == "qpwgraph-video-stream-"@
                        + "out-"@ + id ==> node <= m
            },
            None => forall|m: u64| #[trigger]
                state.nodes.contains_key(m) && state.nodes[m].name == "qpwgraph-video-stream-"@
                    + "out-"@ + id ==> exists|first: u64| #[trigger]
                    state.nodes.contains_key(first) && first <= m && state.nodes[first].name
                        == "qpwgraph-video-stream-"@ + "out-"@ + id && forall|k: u64| #[trigger]
                        state.ports.contains_key(k) && state.ports[k].node_id == first
                            && state.ports[k].direction == Direction::Source ==> port_type_of(
                            state.ports[k].media_type,
                            state.nodes[first].media_class,
                        ) != PortType::Video,
        },
{
    let p = named(output_name(id));
    crate::table::law_first_of(state.nodes, p);
    if let Some(node) = first_of(state.nodes, p) {
        let q = video_source(node, state.nodes[node].media_class);
        crate::table::law_first_of(state.ports, q);
        if let Some(k) = first_of(state.ports, q) {
            assert(state.ports.contains_key(k));
            assert forall|j: u64| #[trigger]
                state.ports.contains_key(j) && state.ports[j].node_id == node
                    && state.ports[j].direction == Direction::Source && port_type_of(
                    state.ports[j].media_type,
                    state.nodes[node].media_class,
                ) == PortType::Video implies k <= j by {
                assert(q(state.ports[j]));
            }
        } else {
            assert forall|m: u64| #[trigger]
                state.nodes.contains_key(m) && state.nodes[m].name == "qpwgraph-video-stream-"@
                    + "out-"@ + id implies exists|first: u64| #[trigger]
                state.nodes.contains_key(first) && first <= m && state.nodes[first].name
                    == "qpwgraph-video-stream-"@ + "out-"@ + id && forall|k: u64| #[trigger]
                    state.ports.contains_key(k) && state.ports[k].node_id == first
                        && state.ports[k].direction == Direction::Source ==> port_type_of(
                        state.ports[k].media_type,
                        state.nodes[first].media_class,
                    ) != PortType::Video by {
                assert(p(state.nodes[m]));
                assert(state.nodes.contains_key(node));
                assert forall|k: u64| #[trigger]
                    state.ports.contains_key(k) && state.ports[k].node_id == node
                        && state.ports[k].direction == Direction::Source implies port_type_of(
                    state.ports[k].media_type,
                    state.nodes[node].media_class,
                ) != PortType::Video by {
                    assert(!q(state.ports[k]));
                }
            }
        }
        assert forall|m: u64| #[trigger]
            state.nodes.contains_key(m) && state.nodes[m].name == "qpwgraph-video-stream-"@
                + "out-"@ + id implies node <= m by {
            assert(p(state.nodes[m]));
        }
    } else {
        assert forall|m: u64| #[trigger] state.nodes.contains_key(m) implies state.nodes[m].name
            != "qpwgraph-video-stream-"@ + "out-"@ + id by {
            assert(!p(state.nodes[m]));
        }
    }
}

/// A new filter runs, has a node and two ports of its own that the media
/// server does not know, and is where it was put. The other filters and the
/// links stay.
pub proof fn law_new_filters(
    board: VideoBoardView,
    id: Seq<char>,
    filter_id: Seq<char>,
    position: Position,
    other: Seq<char>,
)
    requires
        board.sequence <= u64::MAX - 3,
    ensures
        ({
            let after = board.with_filter(id, filter_id, position);
            let made = after.bridges[id];
            let i = made.instance;
            &&& after.bridges.contains_key(id)
            &&& i == board.next_filter(id, filter_id)
            &&& i.instance_id == id
            &&& i.filter_id == filter_id
            &&& i.input_port != i.output_port
            &&& i.node_id.0 != i.input_port.0
            &&& i.node_id.0 != i.output_port.0
            &&& crate::video_names::is_synthetic(i.node_id.0)
            &&& crate::video_names::is_synthetic(i.input_port.0)
            &&& crate::video_names::is_synthetic(i.output_port.0)
            &&& made.worker
            &&& made.state == crate::video_bridge::VideoNodeState::Live
            &&& !made.capture_attached && !made.output_attached
            &&& made.last_error is None
            &&& after.positions.contains_key(i.node_id.0)
            &&& after.positions[i.node_id.0] == position
            &&& after.links == board.links
            &&& other != id ==> (after.bridges.contains_key(other) <==> board.bridges.contains_key(
                other,
            )) && (board.bridges.contains_key(other) ==> after.bridges[other]
                == board.bridges[other])
            &&& forall|s: u64|
                board.sequence > s && board.sequence + 2 - s
                    < crate::video_names::VIDEO_SYNTHETIC_SPAN ==> {
                    &&& #[trigger] video_id(s) != i.node_id.0
                    &&& video_id(s) != i.input_port.0
                    &&& video_id(s) != i.output_port.0
                }
            &&& after.sequence == board.sequence + 3
        }),
{
    let s = board.sequence;
    crate::video_names::law_video_ids_differ(s, (s + 1) as u64);
    crate::video_names::law_video_ids_differ(s, (s + 2) as u64);
    crate::video_names::law_video_ids_differ((s + 1) as u64, (s + 2) as u64);
    crate::video_names::law_video_ids_differ((s + 2) as u64, (s + 3) as u64);
    assert forall|t: u64|
        board.sequence > t && board.sequence + 2 - t
            < crate::video_names::VIDEO_SYNTHETIC_SPAN implies {
        &&& #[trigger] video_id(t) != video_id(s)
        &&& video_id(t) != video_id((s + 1) as u64)
        &&& video_id(t) != video_id((s + 2) as u64)
    } by {
        crate::video_names::law_video_ids_differ(t, s);
        crate::video_names::law_video_ids_differ(t, (s + 1) as u64);
        crate::video_names::law_video_ids_differ(t, (s + 2) as u64);
    }
}

/// Removing a filter removes it, its place and the links at its ports, and
/// nothing else.
pub proof fn law_removed_filters(board: VideoBoardView, id: Seq<char>, other: Seq<char>, k: u64)
    requires
        board.bridges.contains_key(id),
    ensures
        ({
            let after = board.without_filter(id);
            let i = board.bridges[id].instance;
            &&& !after.bridges.contains_key(id)
            &&& other != id ==> (after.bridges.contains_key(other) <==> board.bridges.contains_key(
                other,
            )) && (board.bridges.contains_key(other) ==> after.bridges[other]
                == board.bridges[other])
            &&& !after.positions.contains_key(i.node_id.0)
            &&& k != i.node_id.0 ==> (after.positions.contains_key(k)
                <==> board.positions.contains_key(k))
            &&& after.links.contains_key(k) <==> board.links.contains_key(k)
                && board.links[k].output != i.output_port && board.links[k].input != i.input_port
            &&& after.links.contains_key(k) ==> after.links[k] == board.links[k]
            &&& after.sequence == board.sequence
        }),
{
}

/// The links of the media server that stand for links of filters are exactly
/// those that the links name.
pub proof fn law_real_links(links: Map<u64, ProjectionView>, keys: Seq<u64>, link: LinkId)
    ensures
        real_links(links, keys).contains(link) <==> exists|i: int|
            0 <= i < keys.len() && links[#[trigger] keys[i]].real_link == Some(link),
    decreases keys.len(),
{
    if keys.len() > 0 {
        let rest = keys.drop_last();
        law_real_links(links, rest, link);
        if let Some(last) = links[keys.last()].real_link {
            crate::table::lemma_push_contains(real_links(links, rest), last, link);
        }
        if exists|i: int| 0 <= i < rest.len() && links[#[trigger] rest[i]].real_link == Some(link) {
            let i = choose|i: int|
                0 <= i < rest.len() && links[#[trigger] rest[i]].real_link == Some(link);
            assert(keys[i] == rest[i]);
        }
        if exists|i: int| 0 <= i < keys.len() && links[#[trigger] keys[i]].real_link == Some(link) {
            let i = choose|i: int|
                0 <= i < keys.len() && links[#[trigger] keys[i]].real_link == Some(link);
            if i < rest.len() {
                assert(rest[i] == keys[i]);
            } else {
                assert(keys[i] == keys.last());
            }
        }
        if links[keys.last()].real_link == Some(link) {
            assert(keys[keys.len() - 1] == keys.last());
        }
    }
}

/// A filter is refused exactly where its name is blank or taken.
pub proof fn law_filter_refusals(bridges: Map<Seq<char>, VideoBridgeView>, id: Seq<char>)
    ensures
        filter_refusal(bridges, id) is None <==> !crate::text::all_white(id)
            && !bridges.contains_key(id),
{
    crate::text::law_trimmed(id);
}

} // verus!
