//! Connecting and disconnecting video filters.
use crate::graph::{Graph, GraphView};
use crate::ids::{graph_id, native_node_id, native_part, native_port_id, LinkId, PortId};
use crate::model::{
    opt_text, port_types_compatible, types_compatible, BackendError, BackendErrorView, Direction,
    GraphError, Link,
};
use crate::registry::{LinkRecord, RegistryState, RegistryView};
use crate::snapshot::gid;
use crate::table::{first_of, keys_of, lemma_first_found, lemma_none_found, lists_domain};
use crate::text::{concat3, text_eq};
use crate::video_board::{
    bridge_output_source_port, owner_of_port, published_output, target_for_node, target_of_node,
    unknown_filter, unknown_video_filter, ProjectionView, VideoBoard, VideoBoardView,
    VideoLinkProjection,
};
use crate::video_bridge::{VideoBridge, VideoBridgeView};
use crate::video_names::{following, output_name, video_id, video_output_stream_name};
use vstd::prelude::*;

verus! {

broadcast use vstd::std_specs::btree::group_btree_axioms;

/// A link of a filter from `src` to `dst`.
pub open spec fn projection(
    src: PortId,
    dst: PortId,
    real_link: Option<LinkId>,
    capture_bridge: Option<Seq<char>>,
) -> ProjectionView {
    ProjectionView { output: src, input: dst, real_link, capture_bridge }
}

impl VideoBoardView {
    /// The board with one more link.
    pub open spec fn projecting(self, p: ProjectionView) -> VideoBoardView {
        VideoBoardView {
            links: self.links.insert(video_id(self.sequence), p),
            sequence: following(self.sequence),
            ..self
        }
    }

    /// The board after a filter's capture was opened.
    pub open spec fn captured(self, id: Seq<char>) -> VideoBoardView {
        VideoBoardView {
            bridges: self.bridges.insert(
                id,
                VideoBridgeView { capture_attached: true, ..self.bridges[id].cleared() },
            ),
            ..self
        }
    }

    /// The board after a filter's capture was let go.
    pub open spec fn uncaptured(self, id: Seq<char>) -> VideoBoardView {
        VideoBoardView {
            bridges: self.bridges.insert(
                id,
                VideoBridgeView { capture_attached: false, ..self.bridges[id] },
            ),
            ..self
        }
    }

    /// The board without a link. Where the link aimed a filter's capture, the
    /// filter has no source any more.
    pub open spec fn disconnecting(self, link: LinkId) -> VideoBoardView {
        VideoBoardView {
            links: self.links.remove(link.0),
            bridges: match self.links[link.0].capture_bridge {
                Some(id) if self.bridges.contains_key(id) => self.bridges.insert(
                    id,
                    VideoBridgeView { capture_attached: false, ..self.bridges[id].detached() },
                ),
                _ => self.bridges,
            },
            ..self
        }
    }
}

/// What a connection at a filter takes.
#[derive(Debug, PartialEq, Eq)]
pub enum ConnectPlan {
    /// Aim the capture of the filter at a target.
    Retarget { bridge: String, target: String },
    /// Join the filter's stream with a port of the media server. A link that
    /// does so already is taken over.
    Join { bridge: String, node: u64, port: u32, to_node: u32, to_port: u32, existing: Option<u64> },
}

/// The contents of a [`ConnectPlan`].
pub enum ConnectPlanView {
    Retarget { bridge: Seq<char>, target: Seq<char> },
    Join {
        bridge: Seq<char>,
        node: u64,
        port: u32,
        to_node: u32,
        to_port: u32,
        existing: Option<u64>,
    },
}

impl View for ConnectPlan {
    type V = ConnectPlanView;

    open spec fn view(&self) -> ConnectPlanView {
        match self {
            ConnectPlan::Retarget { bridge, target } => ConnectPlanView::Retarget {
                bridge: bridge@,
                target: target@,
            },
            ConnectPlan::Join {
                bridge,
                node,
                port,
                to_node,
                to_port,
                existing,
            } => ConnectPlanView::Join {
                bridge: bridge@,
                node: *node,
                port: *port,
                to_node: *to_node,
                to_port: *to_port,
                existing: *existing,
            },
        }
    }
}

/// Some projection joins the two ports.
pub open spec fn projected(links: Map<u64, ProjectionView>, src: PortId, dst: PortId) -> bool {
    exists|k: u64| #[trigger]
        links.contains_key(k) && links[k].output == src && links[k].input == dst
}

/// Why two ports cannot be joined.
pub open spec fn pair_refusal(
    g: GraphView,
    links: Map<u64, ProjectionView>,
    src: PortId,
    dst: PortId,
) -> Option<GraphError> {
    if !g.has_port(src) {
        Some(GraphError::MissingPort(src))
    } else if !g.has_port(dst) {
        Some(GraphError::MissingPort(dst))
    } else if g.port(src).direction != Direction::Source {
        Some(GraphError::NotSource(src))
    } else if g.port(dst).direction != Direction::Sink {
        Some(GraphError::NotSink(dst))
    } else if !types_compatible(g.port(src).port_type, g.port(dst).port_type) {
        Some(GraphError::IncompatiblePorts(src, dst))
    } else if projected(links, src, dst) || g.connected(src, dst) {
        Some(GraphError::DuplicateConnection(src, dst))
    } else {
        None
    }
}

/// A link of the media server joins two of its ports.
pub open spec fn joins(output: u32, input: u32) -> spec_fn(LinkRecord) -> bool {
    |link: LinkRecord| link.output_port == output && link.input_port == input
}

/// What a connection takes, where the ends may be joined: `from` and `to` are
/// the filters that have them.
pub open spec fn plan_between(
    g: GraphView,
    state: RegistryView,
    src: PortId,
    dst: PortId,
    from: Option<Seq<char>>,
    to: Option<Seq<char>>,
) -> Result<ConnectPlanView, BackendErrorView> {
    match (from, to) {
        (Some(a), Some(b)) if a == b => Err(
            BackendErrorView::Native("a video filter cannot feed its own input"@),
        ),
        (Some(a), Some(b)) => if published_output(state, a) is None {
            Err(
                BackendErrorView::Native(
                    "upstream filter "@ + a
                        + " has no output stream yet; link its input and wait for negotiation"@,
                ),
            )
        } else {
            Ok(ConnectPlanView::Retarget { bridge: b, target: output_name(a) })
        },
        (None, Some(b)) => match target_of_node(g, g.port(src).node_id) {
            Err(error) => Err(error),
            Ok(target) => Ok(ConnectPlanView::Retarget { bridge: b, target }),
        },
        (Some(a), None) => match published_output(state, a) {
            None => Err(
                BackendErrorView::Native(
                    "filter "@ + a
                        + " has no negotiated output yet; link its input and wait for negotiation"@,
                ),
            ),
            Some((port, node)) => Ok(
                ConnectPlanView::Join {
                    bridge: a,
                    node,
                    port: native_part(port.0),
                    to_node: native_part(g.port(dst).node_id.0),
                    to_port: native_part(dst.0),
                    existing: first_of(state.links, joins(native_part(port.0), native_part(dst.0))),
                },
            ),
        },
        (None, None) => Err(
            BackendErrorView::Native("video connect reached without a filter endpoint"@),
        ),
    }
}

fn find_daemon_link(state: &RegistryState, output: u32, input: u32) -> (r: Option<u64>)
    ensures
        r == first_of(state@.links, joins(output, input)),
{
    let keys = keys_of(&state.links);
    let mut i: usize = 0;
    while i < keys.len()
        invariant
            i <= keys.len(),
            lists_domain(keys@, state@.links),
            forall|j: int| 0 <= j < i ==> !joins(output, input)(#[trigger] state@.links[keys@[j]]),
        decreases keys.len() - i,
    {
        let k: u64 = keys[i];
        assert(keys@.contains(k));
        assert(state@.links.contains_key(k));
        if let Some(link) = state.links.get(&k) {
            if link.output_port == output && link.input_port == input {
                proof {
                    lemma_first_found(keys@, state@.links, joins(output, input), i as int);
                }
                return Some(k);
            }
        }
        i = i + 1;
    }
    proof {
        lemma_none_found(keys@, state@.links, joins(output, input));
    }
    None
}

impl VideoBoard {
    fn is_projected(&self, src: PortId, dst: PortId) -> (r: bool)
        ensures
            r == projected(self@.links, src, dst),
    {
        let keys = keys_of(&self.links);
        let mut i: usize = 0;
        while i < keys.len()
            invariant
                i <= keys.len(),
                lists_domain(keys@, self.links@),
                forall|j: int|
                    0 <= j < i ==> !(self@.links[#[trigger] keys@[j]].output == src
                        && self@.links[keys@[j]].input == dst),
            decreases keys.len() - i,
        {
            let k: u64 = keys[i];
            assert(keys@.contains(k));
            assert(self.links@.contains_key(k));
            assert(self@.links.contains_key(k));
            if let Some(projection) = self.links.get(&k) {
                if projection.output == src && projection.input == dst {
                    return true;
                }
            }
            i = i + 1;
        }
        proof {
            if projected(self@.links, src, dst) {
                let k = choose|k: u64| #[trigger]
                    self@.links.contains_key(k) && self@.links[k].output == src
                        && self@.links[k].input == dst;
                assert(self.links@.contains_key(k));
                assert(keys@.contains(k));
            }
        }
        false
    }

    fn check_pair(&self, graph: &Graph, src: PortId, dst: PortId) -> (r: Result<(), GraphError>)
        ensures
            match pair_refusal(graph@, self@.links, src, dst) {
                Some(error) => r == Err::<(), GraphError>(error),
                None => r is Ok,
            },
    {
        let output = match graph.port(src) {
            None => {
                return Err(GraphError::MissingPort(src));
            },
            Some(port) => port,
        };
        let input = match graph.port(dst) {
            None => {
                return Err(GraphError::MissingPort(dst));
            },
            Some(port) => port,
        };
        if !output.direction.is_source() {
            return Err(GraphError::NotSource(src));
        }
        if !input.direction.is_sink() {
            return Err(GraphError::NotSink(dst));
        }
        if !port_types_compatible(output.port_type, input.port_type) {
            return Err(GraphError::IncompatiblePorts(src, dst));
        }
        if self.is_projected(src, dst) || graph.is_connected(src, dst) {
            return Err(GraphError::DuplicateConnection(src, dst));
        }
        Ok(())
    }

    /// Plans a connection of which at least one end belongs to a filter.
    pub fn plan_connect(&self, graph: &Graph, state: &RegistryState, src: PortId, dst: PortId) -> (r:
        Result<ConnectPlan, BackendError>)
        ensures
            match pair_refusal(graph@, self@.links, src, dst) {
                Some(error) => r matches Err(e) && e@ == BackendErrorView::Graph(error),
                None => match plan_between(
                    graph@,
                    state@,
                    src,
                    dst,
                    owner_of_port(self.bridges.entries@, src),
                    owner_of_port(self.bridges.entries@, dst),
                ) {
                    Ok(plan) => r matches Ok(p) && p@ == plan,
                    Err(error) => r matches Err(e) && e@ == error,
                },
            },
    {
        match self.check_pair(graph, src, dst) {
            Err(error) => {
                return Err(BackendError::Graph(error));
            },
            Ok(()) => {},
        }
        let from = self.video_bridge_for_port(src);
        let to = self.video_bridge_for_port(dst);
        match (from, to) {
            (Some((a, _)), Some((b, _))) => {
                if text_eq(a.as_str(), b.as_str()) {
                    return Err(BackendError::native("a video filter cannot feed its own input"));
                }
                if bridge_output_source_port(state, a.as_str()).is_none() {
                    return Err(
                        BackendError::Native(
                            concat3(
                                "upstream filter ",
                                a.as_str(),
                                " has no output stream yet; link its input and wait for negotiation",
                            ),
                        ),
                    );
                }
                Ok(
                    ConnectPlan::Retarget {
                        bridge: b,
                        target: video_output_stream_name(a.as_str()),
                    },
                )
            },
            (None, Some((b, _))) => {
                let node = match graph.port(src) {
                    Some(port) => port.node_id,
                    None => {
                        return Err(BackendError::Graph(GraphError::MissingPort(src)));
                    },
                };
                match target_for_node(graph, node) {
                    Err(error) => Err(error),
                    Ok(target) => Ok(ConnectPlan::Retarget { bridge: b, target }),
                }
            },
            (Some((a, _)), None) => {
                let to_node = match graph.port(dst) {
                    Some(port) => native_node_id(port.node_id),
                    None => {
                        return Err(BackendError::Graph(GraphError::MissingPort(dst)));
                    },
                };
                match bridge_output_source_port(state, a.as_str()) {
                    None => Err(
                        BackendError::Native(
                            concat3(
                                "filter ",
                                a.as_str(),
                                " has no negotiated output yet; link its input and wait for negotiation",
                            ),
                        ),
                    ),
                    Some((real_port, node)) => {
                        let port: u32 = native_port_id(real_port);
                        let to_port: u32 = native_port_id(dst);
                        let existing = find_daemon_link(state, port, to_port);
                        Ok(ConnectPlan::Join { bridge: a, node, port, to_node, to_port, existing })
                    },
                }
            },
            (None, None) => Err(
                BackendError::native("video connect reached without a filter endpoint"),
            ),
        }
    }

    /// Notes a link, and gives it a number.
    pub fn project(
        &mut self,
        src: PortId,
        dst: PortId,
        real_link: Option<LinkId>,
        capture_bridge: Option<String>,
    ) -> (r: LinkId)
        requires
            old(self).wf(),
        ensures
            final(self).wf(),
            r == LinkId(video_id(old(self)@.sequence)),
            final(self)@ == old(self)@.projecting(
                projection(src, dst, real_link, opt_text(capture_bridge)),
            ),
    {
        let ghost before = self@;
        let id: u64 = self.ids.alloc_video_id();
        let projection = VideoLinkProjection { output: src, input: dst, real_link, capture_bridge };
        self.links.insert(id, projection);
        assert(self@.links =~= before.links.insert(id, projection@));
        assert(self@.bridges =~= before.bridges);
        LinkId(id)
    }

    /// Settles a connection from a filter's stream, once the media server was
    /// asked for a link: its number is noted, or nothing is kept but a used
    /// number.
    pub fn joined(&mut self, src: PortId, dst: PortId, made: Result<u64, BackendError>) -> (r: Result<
        LinkId,
        BackendError,
    >)
        requires
            old(self).wf(),
        ensures
            final(self).wf(),
            match made {
                Ok(native) => {
                    &&& r == Ok::<LinkId, BackendError>(LinkId(video_id(old(self)@.sequence)))
                    &&& final(self)@ == old(self)@.projecting(
                        projection(src, dst, Some(LinkId(gid(native))), None),
                    )
                },
                Err(error) => {
                    &&& r == Err::<LinkId, BackendError>(error)
                    &&& final(self)@ == (VideoBoardView {
                        links: old(self)@.links.remove(video_id(old(self)@.sequence)),
                        sequence: following(old(self)@.sequence),
                        ..old(self)@
                    })
                },
            },
    {
        let ghost before = self@;
        match made {
            Ok(native) => Ok(self.project(src, dst, Some(LinkId(graph_id(native))), None)),
            Err(error) => {
                let id: u64 = self.ids.alloc_video_id();
                let _ = self.links.remove(&id);
                assert(self@.links =~= before.links.remove(id));
                assert(self@.bridges =~= before.bridges);
                Err(error)
            },
        }
    }

    fn change_bridge(&mut self, id: &str, bridge: VideoBridge)
        requires
            old(self).wf(),
        ensures
            final(self).wf(),
            final(self)@ == (VideoBoardView {
                bridges: old(self)@.bridges.insert(id@, bridge@),
                ..old(self)@
            }),
    {
        let ghost before = self@;
        self.bridges.insert(id.to_owned(), bridge);
        assert(self@.bridges =~= before.bridges.insert(id@, bridge@));
        assert(self@.links =~= before.links);
    }

    /// Lets go of the stream that brings frames to a filter, so that another
    /// can be opened.
    pub fn release_capture(&mut self, id: &str) -> (r: Result<(), BackendError>)
        requires
            old(self).wf(),
        ensures
            final(self).wf(),
            if old(self)@.bridges.contains_key(id@) {
                &&& r is Ok
                &&& final(self)@ == old(self)@.uncaptured(id@)
            } else {
                &&& r matches Err(e) && e@ == unknown_filter(id@)
                &&& final(self)@ == old(self)@
            },
    {
        match self.bridges.get(id) {
            None => Err(unknown_video_filter(id)),
            Some(found) => {
                let mut bridge = found.duplicate();
                bridge.capture_attached = false;
                self.change_bridge(id, bridge);
                Ok(())
            },
        }
    }

    /// Notes that a stream brings frames to a filter.
    pub fn capture_opened(&mut self, id: &str)
        requires
            old(self).wf(),
        ensures
            final(self).wf(),
            final(self)@ == (if old(self)@.bridges.contains_key(id@) {
                old(self)@.captured(id@)
            } else {
                old(self)@
            }),
    {
        match self.bridges.get(id) {
            None => {},
            Some(found) => {
                let mut bridge = found.duplicate();
                bridge.clear_failure();
                bridge.capture_attached = true;
                self.change_bridge(id, bridge);
            },
        }
    }

    /// Takes a link away. The result holds the link, and the link of the
    /// media server that has to be destroyed. A filter that loses its source
    /// is idle.
    pub fn disconnect(&mut self, link: LinkId) -> (r: Result<(Link, Option<LinkId>), BackendError>)
        requires
            old(self).wf(),
        ensures
            final(self).wf(),
            if old(self)@.links.contains_key(link.0) {
                let p = old(self)@.links[link.0];
                &&& r matches Ok((gone, doomed)) && gone == crate::video_inject::shown_link(
                    link.0,
                    p,
                ) && doomed == p.real_link
                &&& final(self)@ == old(self)@.disconnecting(link)
            } else {
                &&& r matches Err(e) && e@ == BackendErrorView::Graph(GraphError::MissingLink(link))
                &&& final(self)@ == old(self)@
            },
    {
        let ghost before = self@;
        match self.links.remove(&link.0) {
            None => {
                assert(self@.links =~= before.links);
                Err(BackendError::Graph(GraphError::MissingLink(link)))
            },
            Some(projection) => {
                assert(self@.links =~= before.links.remove(link.0));
                assert(before.links[link.0] == projection@);
                if let Some(id) = &projection.capture_bridge {
                    if let Some(found) = self.bridges.get(id.as_str()) {
                        let mut bridge = found.duplicate();
                        bridge.note_input_detached();
                        bridge.capture_attached = false;
                        self.change_bridge(id.as_str(), bridge);
                    }
                }
                Ok(
                    (
                        Link {
                            id: link,
                            output_port: projection.output,
                            input_port: projection.input,
                        },
                        projection.real_link,
                    ),
                )
            },
        }
    }
}

/// The link that a connection at a filter came to, once it was noted: it has to
/// stand in the graph by then.
pub fn connected_link(graph: &Graph, link: LinkId) -> (r: Result<Link, BackendError>)
    ensures
        if graph@.links.contains_key(link.0) {
            r == Ok::<Link, BackendError>(graph@.links[link.0])
        } else {
            r matches Err(e) && e@ == BackendErrorView::Native("video link projection failed"@)
        },
{
    match graph.link(link) {
        Some(found) => Ok(found),
        None => Err(BackendError::native("video link projection failed")),
    }
}

/// No filter is ever fed by itself.
pub proof fn law_no_filter_feeds_itself(
    g: GraphView,
    state: RegistryView,
    src: PortId,
    dst: PortId,
    id: Seq<char>,
)
    ensures
        plan_between(g, state, src, dst, Some(id), Some(id)) is Err,
{
}

/// A link that was noted and taken away again leaves the other links as they
/// were.
pub proof fn law_project_disconnect(
    board: VideoBoardView,
    p: ProjectionView,
)
    requires
        !board.links.contains_key(video_id(board.sequence)),
    ensures
        board.links.insert(video_id(board.sequence), p).remove(video_id(board.sequence))
            == board.links,
{
    let k = video_id(board.sequence);
    assert(board.links.insert(k, p).remove(k) =~= board.links);
}

/// A connection between two filters aims the capture of the filter that owns
/// the destination at the output stream of the filter that owns the source.
/// It never aims a filter at its own output, and waits until the output
/// stream is there.
pub proof fn law_filters_are_chained(
    g: GraphView,
    state: RegistryView,
    src: PortId,
    dst: PortId,
    a: Seq<char>,
    b: Seq<char>,
)
    requires
        a != b,
    ensures
        match plan_between(g, state, src, dst, Some(a), Some(b)) {
            Ok(plan) => {
                &&& plan == (ConnectPlanView::Retarget {
                    bridge: b,
                    target: "qpwgraph-video-stream-"@ + "out-"@ + a,
                })
                &&& plan->target != "qpwgraph-video-stream-"@ + "out-"@ + b
                &&& published_output(state, a) is Some
            },
            Err(_) => published_output(state, a) is None,
        },
{
    crate::video_names::law_streams_are_told_apart(a, b);
}

/// The same for the filters of a board: where the source is a port of the one
/// and the destination a port of the other, the other captures the one.
pub proof fn law_chained_filters_own_the_ports(
    g: GraphView,
    state: RegistryView,
    entries: Seq<(String, VideoBridge)>,
    src: PortId,
    dst: PortId,
    i: int,
    j: int,
)
    requires
        0 <= i < entries.len(),
        0 <= j < entries.len(),
        entries[i].0@ != entries[j].0@,
        entries[i].1@.instance.input_port == src || entries[i].1@.instance.output_port == src,
        entries[j].1@.instance.input_port == dst || entries[j].1@.instance.output_port == dst,
        forall|k: int|
            0 <= k < entries.len() && k != i ==> (#[trigger] entries[k]).1@.instance.input_port
                != src && entries[k].1@.instance.output_port != src,
        forall|k: int|
            0 <= k < entries.len() && k != j ==> (#[trigger] entries[k]).1@.instance.input_port
                != dst && entries[k].1@.instance.output_port != dst,
    ensures
        plan_between(
            g,
            state,
            src,
            dst,
            owner_of_port(entries, src),
            owner_of_port(entries, dst),
        ) matches Ok(plan) ==> plan == (ConnectPlanView::Retarget {
            bridge: entries[j].0@,
            target: "qpwgraph-video-stream-"@ + "out-"@ + entries[i].0@,
        }),
{
    crate::video_board::law_single_owner(entries, src, i);
    crate::video_board::law_single_owner(entries, dst, j);
}

/// A connection from outside to a filter aims the capture of the filter at the
/// node of the source: by its serial, failing that by its name.
pub proof fn law_filters_capture_nodes(
    g: GraphView,
    state: RegistryView,
    src: PortId,
    dst: PortId,
    b: Seq<char>,
    serial: u64,
)
    ensures
        ({
            let node = g.port(src).node_id;
            let plan = plan_between(g, state, src, dst, None, Some(b));
            &&& g.has_node(node) && g.node(node).serial == Some(serial) ==> plan == Ok::<
                ConnectPlanView,
                BackendErrorView,
            >(
                ConnectPlanView::Retarget {
                    bridge: b,
                    target: crate::text::decimal(serial as nat),
                },
            )
            &&& g.has_node(node) && g.node(node).serial is None && !crate::text::all_white(
                g.node(node).name,
            ) ==> plan == Ok::<ConnectPlanView, BackendErrorView>(
                ConnectPlanView::Retarget { bridge: b, target: g.node(node).name },
            )
            &&& !g.has_node(node) ==> plan is Err
        }),
        plan_between(g, state, src, dst, None, None) is Err,
{
    crate::video_board::law_capture_targets(g, g.port(src).node_id, serial);
}

/// A connection from a filter to the outside joins a video source port of the
/// filter's output stream with the destination, and takes a link that is
/// there already instead of making one.
pub proof fn law_filters_feed_ports(
    g: GraphView,
    state: RegistryView,
    src: PortId,
    dst: PortId,
    a: Seq<char>,
)
    requires
        state.wf(),
    ensures
        match plan_between(g, state, src, dst, Some(a), None) {
            Ok(plan) => {
                &&& plan matches ConnectPlanView::Join {
                    bridge,
                    node,
                    port,
                    to_node,
                    to_port,
                    existing,
                }
                &&& bridge == a
                &&& state.nodes.contains_key(node)
                &&& state.nodes[node].name == "qpwgraph-video-stream-"@ + "out-"@ + a
                &&& state.ports.contains_key(port as u64)
                &&& state.ports[port as u64].node_id == node
                &&& state.ports[port as u64].direction == Direction::Source
                &&& to_node == native_part(g.port(dst).node_id.0)
                &&& to_port == native_part(dst.0)
                &&& match existing {
                    Some(k) => state.links.contains_key(k) && state.links[k].output_port == port
                        && state.links[k].input_port == to_port,
                    None => forall|k: u64| #[trigger]
                        state.links.contains_key(k) ==> state.links[k].output_port != port
                            || state.links[k].input_port != to_port,
                }
            },
            Err(_) => published_output(state, a) is None,
        },
{
    crate::video_board::law_published_output(state, a);
    if let Some((port, node)) = published_output(state, a) {
        let k = choose|k: u64|
            port == PortId(gid(k)) && #[trigger] state.ports.contains_key(k)
                && state.ports[k].node_id == node && state.ports[k].direction
                == Direction::Source;
        crate::snapshot::law_native_numbers(k as u32, k as u32);
        let p = joins(native_part(port.0), native_part(dst.0));
        crate::table::law_first_of(state.links, p);
        if first_of(state.links, p) is None {
            assert forall|k: u64| #[trigger] state.links.contains_key(k) implies (
            state.links[k].output_port != native_part(port.0) || state.links[k].input_port
                != native_part(dst.0)) by {
                assert(!p(state.links[k]));
            }
        }
    }
}

/// Two ports can be connected exactly where both are there, the first gives
/// and the second takes, what they carry fits, and nothing connects them yet.
pub proof fn law_connectable_pairs(
    g: GraphView,
    links: Map<u64, ProjectionView>,
    src: PortId,
    dst: PortId,
)
    ensures
        pair_refusal(g, links, src, dst) is None <==> {
            &&& g.has_port(src) && g.has_port(dst)
            &&& g.port(src).direction == Direction::Source
            &&& g.port(dst).direction == Direction::Sink
            &&& g.port(src).port_type == g.port(dst).port_type || g.port(src).port_type
                == crate::model::PortType::Unknown || g.port(dst).port_type
                == crate::model::PortType::Unknown
            &&& forall|k: u64| #[trigger]
                links.contains_key(k) ==> links[k].output != src || links[k].input != dst
            &&& forall|k: u64| #[trigger]
                g.links.contains_key(k) ==> g.links[k].output_port != src || g.links[k].input_port
                    != dst
        },
{
}

/// A new link of a filter goes from the source to the destination, under a
/// number of its own; the others stay.
pub proof fn law_new_links_are_shown(board: VideoBoardView, p: ProjectionView, k: u64)
    ensures
        ({
            let after = board.projecting(p);
            let id = video_id(board.sequence);
            &&& after.links.contains_key(id)
            &&& after.links[id] == p
            &&& k != id ==> (after.links.contains_key(k) <==> board.links.contains_key(k)) && (
            board.links.contains_key(k) ==> after.links[k] == board.links[k])
            &&& after.bridges == board.bridges
            &&& after.positions == board.positions
            &&& board.sequence < u64::MAX ==> after.sequence == board.sequence + 1
            &&& crate::video_names::is_synthetic(id)
        }),
{
    if board.sequence < u64::MAX {
        crate::video_names::law_video_ids_differ(board.sequence, (board.sequence + 1) as u64);
    } else {
        crate::snapshot::law_native_numbers(0, 0);
        let n = (crate::video_names::VIDEO_SYNTHETIC_BASE + board.sequence
            % crate::video_names::VIDEO_SYNTHETIC_SPAN) as u64;
        crate::ids::law_encoding_round_trips(crate::ids::BackendNamespace::PipeWire, n);
    }
}

/// Taking a link away takes that link away and no other. The filter whose
/// capture it aimed has no source, no error and no output format any more;
/// every other filter stays as it is.
pub proof fn law_disconnecting_a_filter(
    board: VideoBoardView,
    link: LinkId,
    k: u64,
    id: Seq<char>,
)
    requires
        board.links.contains_key(link.0),
        board.bridges.contains_key(id),
    ensures
        ({
            let after = board.disconnecting(link);
            let filter = after.bridges[id];
            &&& !after.links.contains_key(link.0)
            &&& k != link.0 ==> (after.links.contains_key(k) <==> board.links.contains_key(k)) && (
            board.links.contains_key(k) ==> after.links[k] == board.links[k])
            &&& after.bridges.dom() == board.bridges.dom()
            &&& after.positions == board.positions
            &&& after.sequence == board.sequence
            &&& board.links[link.0].capture_bridge != Some(id) ==> filter == board.bridges[id]
            &&& board.links[link.0].capture_bridge == Some(id) ==> {
                &&& !filter.capture_attached
                &&& filter.state == crate::video_bridge::VideoNodeState::Idle
                &&& filter.last_error is None
                &&& filter.output_spec is None
                &&& filter.instance == board.bridges[id].instance
                &&& filter.worker == board.bridges[id].worker
            }
        }),
{
    assert(board.disconnecting(link).bridges.dom() =~= board.bridges.dom());
}

/// Opening and letting go the capture of a filter changes that filter alone,
/// and letting go undoes opening a capture.
pub proof fn law_captures_of_a_filter(board: VideoBoardView, id: Seq<char>, other: Seq<char>)
    requires
        board.bridges.contains_key(id),
    ensures
        board.captured(id).bridges[id].capture_attached,
        board.captured(id).bridges[id].last_error is None,
        !board.uncaptured(id).bridges[id].capture_attached,
        !board.captured(id).uncaptured(id).bridges[id].capture_attached,
        board.captured(id).bridges[id].instance == board.bridges[id].instance,
        board.uncaptured(id).bridges[id].instance == board.bridges[id].instance,
        board.captured(id).links == board.links,
        board.uncaptured(id).links == board.links,
        other != id ==> (board.captured(id).bridges.contains_key(other)
            <==> board.bridges.contains_key(other)),
        other != id && board.bridges.contains_key(other) ==> board.captured(id).bridges[other]
            == board.bridges[other] && board.uncaptured(id).bridges[other] == board.bridges[other],
        board.bridges[id].state == crate::video_bridge::VideoNodeState::Bypassed
            ==> board.captured(id).bridges[id].state == crate::video_bridge::VideoNodeState::Live,
{
}

/// A link of a filter goes from its source to its destination, and stands for
/// the link and aims the filter that were given. It is shown as it goes.
pub proof fn law_projections(
    src: PortId,
    dst: PortId,
    real_link: Option<LinkId>,
    capture: Option<Seq<char>>,
    k: u64,
)
    ensures
        ({
            let p = projection(src, dst, real_link, capture);
            let shown = crate::video_inject::shown_link(k, p);
            &&& p.output == src && p.input == dst
            &&& p.real_link == real_link && p.capture_bridge == capture
            &&& shown.id == LinkId(k)
            &&& shown.output_port == src && shown.input_port == dst
        }),
{
}

/// A refused pair is refused for what is wrong with it, and the refusal names
/// what is wrong, the two ports in their order.
pub proof fn law_refused_pairs(
    g: GraphView,
    links: Map<u64, ProjectionView>,
    src: PortId,
    dst: PortId,
)
    ensures
        match pair_refusal(g, links, src, dst) {
            Some(GraphError::MissingPort(p)) => !g.has_port(p) && (p == src || (p == dst
                && g.has_port(src))),
            Some(GraphError::NotSource(p)) => p == src && g.has_port(p) && g.port(p).direction
                == Direction::Sink,
            Some(GraphError::NotSink(p)) => p == dst && g.has_port(p) && g.port(p).direction
                == Direction::Source,
            Some(GraphError::IncompatiblePorts(a, b)) => {
                &&& a == src && b == dst
                &&& g.port(a).port_type != g.port(b).port_type
                &&& g.port(a).port_type != crate::model::PortType::Unknown
                &&& g.port(b).port_type != crate::model::PortType::Unknown
            },
            Some(GraphError::DuplicateConnection(a, b)) => a == src && b == dst && (g.connected(
                src,
                dst,
            ) || exists|k: u64| #[trigger]
                links.contains_key(k) && links[k].output == src && links[k].input == dst),
            Some(_) => false,
            None => true,
        },
{
}

} // verus!
