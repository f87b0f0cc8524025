//! Showing video filters and their links in a graph that was just built, and
//! forgetting the links whose ends are gone.
use crate::graph::{Graph, GraphView};
use crate::ids::{native_link_id, native_part, LinkId, PortId};
use crate::model::{
    fresh_node, Direction, Link, Node, NodeType, NodeView, Port, PortType, PortView, Position,
};
use crate::registry::LinkRecord;
use crate::table::{keys_of, lists_domain};
use crate::video_board::{ProjectionView, VideoBoard, VideoLinkProjection};
use crate::video_bridge::{VideoBridge, VideoBridgeView};
use crate::video_names::{hash_of, node_name_for, video_node_name, video_serial};
use std::collections::BTreeMap;
use vstd::prelude::*;
use vstd::utf8::encode_utf8;

verus! {

broadcast use vstd::std_specs::btree::group_btree_axioms;

/// The node of a filter.
pub open spec fn bridge_node(bridge: VideoBridgeView, positions: Map<u64, Position>) -> NodeView {
    let id = bridge.instance.instance_id;
    let node = bridge.instance.node_id;
    NodeView {
        serial: Some(hash_of(encode_utf8(id), encode_utf8(id).len() as int)),
        position: if positions.contains_key(node.0) {
            positions[node.0]
        } else {
            Position::spec_origin()
        },
        ports: seq![bridge.instance.input_port, bridge.instance.output_port],
        ..fresh_node(node, node_name_for(bridge.instance.filter_id, id), NodeType::Effect)
    }
}

/// A port of a filter.
pub open spec fn bridge_port(
    bridge: VideoBridgeView,
    id: PortId,
    name: Seq<char>,
    direction: Direction,
) -> PortView {
    PortView {
        id,
        node_id: bridge.instance.node_id,
        name,
        direction,
        port_type: PortType::Video,
        channel: None,
    }
}

/// The graph with a filter, unless one of its numbers is taken.
pub open spec fn with_bridge(
    g: GraphView,
    bridge: VideoBridgeView,
    positions: Map<u64, Position>,
) -> GraphView {
    let i = bridge.instance;
    if g.has_node(i.node_id) || g.has_port(i.input_port) || g.has_port(i.output_port)
        || i.input_port == i.output_port {
        g
    } else {
        GraphView {
            nodes: g.nodes.insert(i.node_id.0, bridge_node(bridge, positions)),
            ports: g.ports.insert(
                i.input_port.0,
                bridge_port(bridge, i.input_port, "video_in"@, Direction::Sink),
            ).insert(
                i.output_port.0,
                bridge_port(bridge, i.output_port, "video_out"@, Direction::Source),
            ),
            links: g.links,
        }
    }
}

/// The graph with the first filters of a list.
pub open spec fn with_bridges(
    g: GraphView,
    entries: Seq<(String, VideoBridge)>,
    positions: Map<u64, Position>,
    n: int,
) -> GraphView
    decreases n,
{
    if n <= 0 {
        g
    } else {
        with_bridge(with_bridges(g, entries, positions, n - 1), entries[n - 1].1@, positions)
    }
}

/// A projection still stands: both of its ports are shown, and the link of
/// the media server behind it, if there is one, exists.
pub open spec fn stands(g: GraphView, daemon: Map<u64, LinkRecord>, p: ProjectionView) -> bool {
    g.has_port(p.output) && g.has_port(p.input) && match p.real_link {
        Some(link) => daemon.contains_key(native_part(link.0) as u64),
        None => true,
    }
}

/// Some projection that fell brought frames to the filter.
pub open spec fn lost_source(
    g: GraphView,
    daemon: Map<u64, LinkRecord>,
    links: Map<u64, ProjectionView>,
    id: Seq<char>,
) -> bool {
    exists|k: u64| #[trigger]
        links.contains_key(k) && !stands(g, daemon, links[k]) && links[k].capture_bridge == Some(id)
}

/// The link that is shown for a projection.
pub open spec fn shown_link(k: u64, p: ProjectionView) -> Link {
    Link { id: LinkId(k), output_port: p.output, input_port: p.input }
}

/// The graph with the links of the first keys, as far as they fit.
pub open spec fn with_links(
    g: GraphView,
    links: Map<u64, ProjectionView>,
    keys: Seq<u64>,
    n: int,
) -> GraphView
    decreases n,
{
    if n <= 0 {
        g
    } else {
        let before = with_links(g, links, keys, n - 1);
        let link = shown_link(keys[n - 1], links[keys[n - 1]]);
        if before.add_link_error(link) is None {
            before.with_link(link)
        } else {
            before
        }
    }
}

fn show_bridge(graph: &mut Graph, bridge: &VideoBridge, positions: &BTreeMap<u64, Position>)
    requires
        old(graph).wf(),
    ensures
        final(graph).wf(),
        final(graph)@ == with_bridge(old(graph)@, bridge@, positions@),
{
    let ghost before = graph@;
    let instance = &bridge.instance;
    if graph.node(instance.node_id).is_some() || graph.port(instance.input_port).is_some()
        || graph.port(instance.output_port).is_some() || instance.input_port
        == instance.output_port {
        return;
    }
    let name = video_node_name(instance.filter_id.as_str(), instance.instance_id.as_str());
    let mut node = Node::new(instance.node_id, name.as_str(), NodeType::Effect).with_serial(
        video_serial(instance.instance_id.as_str()),
    );
    if let Some(position) = positions.get(&instance.node_id.0) {
        node.position = *position;
    }
    let _ = graph.add_node(node);
    let _ = graph.add_port(
        Port::new(
            instance.input_port,
            instance.node_id,
            "video_in",
            Direction::Sink,
            PortType::Video,
        ),
    );
    let _ = graph.add_port(
        Port::new(
            instance.output_port,
            instance.node_id,
            "video_out",
            Direction::Source,
            PortType::Video,
        ),
    );
    proof {
        let k = instance.node_id.0;
        assert(graph@.nodes[k].ports =~= bridge_node(bridge@, positions@).ports);
        assert(graph@.nodes[k] =~= bridge_node(bridge@, positions@));
        assert(graph@.nodes =~= before.nodes.insert(k, bridge_node(bridge@, positions@)));
        assert(graph@ =~= with_bridge(before, bridge@, positions@));
    }
}

impl VideoBoard {
    /// Shows the filters of a board.
    fn show_bridges(&self, graph: &mut Graph)
        requires
            old(graph).wf(),
        ensures
            final(graph).wf(),
            final(graph)@ == with_bridges(
                old(graph)@,
                self.bridges.entries@,
                self.positions@,
                self.bridges.entries@.len() as int,
            ),
    {
        let ghost before = graph@;
        let mut i: usize = 0;
        while i < self.bridges.entries.len()
            invariant
                i <= self.bridges.entries.len(),
                graph.wf(),
                graph@ == with_bridges(
                    before,
                    self.bridges.entries@,
                    self.positions@,
                    i as int,
                ),
            decreases self.bridges.entries.len() - i,
        {
            show_bridge(graph, &self.bridges.entries[i].1, &self.positions);
            i = i + 1;
        }
    }

    /// Forgets the projections that do not stand, and marks the filters that
    /// lost their source.
    fn prune(&mut self, graph: &Graph, daemon_links: &BTreeMap<u64, LinkRecord>)
        requires
            old(self).wf(),
        ensures
            final(self).wf(),
            final(self)@.positions == old(self)@.positions,
            final(self)@.sequence == old(self)@.sequence,
            forall|k: u64| #[trigger]
                final(self)@.links.contains_key(k) <==> old(self)@.links.contains_key(k) && stands(
                    graph@,
                    daemon_links@,
                    old(self)@.links[k],
                ),
            forall|k: u64| #[trigger]
                final(self)@.links.contains_key(k) ==> final(self)@.links[k] == old(
                    self,
                )@.links[k],
            final(self)@.bridges.dom() == old(self)@.bridges.dom(),
            forall|id: Seq<char>| #[trigger]
                old(self)@.bridges.contains_key(id) ==> final(self)@.bridges[id] == (
                if lost_source(graph@, daemon_links@, old(self)@.links, id) {
                    old(self)@.bridges[id].bypassed("video source disappeared"@)
                } else {
                    old(self)@.bridges[id]
                }),
    {
        let ghost before = self@;
        let keys = keys_of(&self.links);
        let ghost lost = |links: Map<u64, ProjectionView>, n: int, id: Seq<char>|
            exists|j: int|
                0 <= j < n && !stands(graph@, daemon_links@, links[#[trigger] keys@[j]])
                    && links[keys@[j]].capture_bridge == Some(id);
        assert(lists_domain(keys@, before.links)) by {
            assert forall|k: u64| #[trigger] keys@.contains(k) <==> before.links.contains_key(k) by {
                assert(keys@.contains(k) <==> self.links@.contains_key(k));
            }
        }
        assert forall|j: int| 0 <= j < keys@.len() implies self@.links.contains_key(
            #[trigger] keys@[j],
        ) by {
            assert(keys@.contains(keys@[j]));
        }
        let mut i: usize = 0;
        while i < keys.len()
            invariant
                i <= keys.len(),
                self.wf(),
                lists_domain(keys@, before.links),
                lost == (|links: Map<u64, ProjectionView>, n: int, id: Seq<char>|
                    exists|j: int|
                        0 <= j < n && !stands(graph@, daemon_links@, links[#[trigger] keys@[j]])
                            && links[keys@[j]].capture_bridge == Some(id)),
                self@.positions == before.positions,
                self@.sequence == before.sequence,
                forall|k: u64| #[trigger]
                    self@.links.contains_key(k) ==> before.links.contains_key(k)
                        && self@.links[k] == before.links[k],
                forall|j: int|
                    0 <= j < i ==> (self@.links.contains_key(#[trigger] keys@[j]) <==> stands(
                        graph@,
                        daemon_links@,
                        before.links[keys@[j]],
                    )),
                forall|j: int| i <= j < keys@.len() ==> self@.links.contains_key(#[trigger] keys@[j]),
                self@.bridges.dom() == before.bridges.dom(),
                forall|id: Seq<char>| #[trigger]
                    before.bridges.contains_key(id) ==> self@.bridges[id] == (if lost(
                        before.links,
                        i as int,
                        id,
                    ) {
                        before.bridges[id].bypassed("video source disappeared"@)
                    } else {
                        before.bridges[id]
                    }),
            decreases keys.len() - i,
        {
            let k: u64 = keys[i];
            let ghost here = self@;
            proof {
                assert(keys@.contains(k));
                assert(before.links.contains_key(k));
                assert(self@.links.contains_key(keys@[i as int]));
            }
            let mut fallen: Option<VideoLinkProjection> = None;
            if let Some(projection) = self.links.get(&k) {
                let real_live = match projection.real_link {
                    Some(link) => daemon_links.contains_key(&(native_link_id(link) as u64)),
                    None => true,
                };
                let live = graph.port(projection.output).is_some() && graph.port(
                    projection.input,
                ).is_some() && real_live;
                assert(live == stands(graph@, daemon_links@, before.links[k]));
                if !live {
                    fallen = self.links.remove(&k);
                    assert(self@.links =~= here.links.remove(k));
                }
            }
            assert forall|id: Seq<char>|
                lost(before.links, i + 1, id) == (lost(before.links, i as int, id) || (!stands(
                    graph@,
                    daemon_links@,
                    before.links[k],
                ) && before.links[k].capture_bridge == Some(id))) by {
                if !stands(graph@, daemon_links@, before.links[k])
                    && before.links[k].capture_bridge == Some(id) {
                    assert(keys@[i as int] == k);
                }
            }
            let ghost middle = self@;
            assert(middle.bridges =~= here.bridges);
            match fallen {
                None => {},
                Some(projection) => {
                    if let Some(id) = &projection.capture_bridge {
                        if let Some(found) = self.bridges.get(id.as_str()) {
                            let mut bridge = found.duplicate();
                            bridge.mark_bypassed("video source disappeared");
                            self.bridges.insert(id.clone(), bridge);
                            assert(self@.bridges =~= middle.bridges.insert(id@, bridge@));
                            assert(self@.links =~= middle.links);
                        }
                    }
                },
            }
            proof {
                assert forall|j: int| 0 <= j < i + 1 implies (self@.links.contains_key(
                    #[trigger] keys@[j],
                ) <==> stands(graph@, daemon_links@, before.links[keys@[j]])) by {
                    if j < i {
                        assert(keys@[j] < keys@[i as int]);
                    }
                }
                assert forall|j: int| i + 1 <= j < keys@.len() implies self@.links.contains_key(
                    #[trigger] keys@[j],
                ) by {
                    assert(keys@[i as int] < keys@[j]);
                    assert(here.links.contains_key(keys@[j]));
                }
            }
            i = i + 1;
        }
        proof {
            assert forall|k: u64| #[trigger] self@.links.contains_key(k)
                <==> before.links.contains_key(k) && stands(
                graph@,
                daemon_links@,
                before.links[k],
            ) by {
                if before.links.contains_key(k) {
                    assert(keys@.contains(k));
                    let j = choose|j: int| 0 <= j < keys@.len() && keys@[j] == k;
                    assert(keys@[j] == k);
                }
            }
            assert forall|id: Seq<char>| #[trigger] before.bridges.contains_key(id) implies lost(
                before.links,
                keys@.len() as int,
                id,
            ) == lost_source(graph@, daemon_links@, before.links, id) by {
                if lost(before.links, keys@.len() as int, id) {
                    let j = choose|j: int|
                        0 <= j < keys@.len() && !stands(
                            graph@,
                            daemon_links@,
                            before.links[#[trigger] keys@[j]],
                        ) && before.links[keys@[j]].capture_bridge == Some(id);
                    assert(keys@.contains(keys@[j]));
                    assert(before.links.contains_key(keys@[j]));
                }
                if lost_source(graph@, daemon_links@, before.links, id) {
                    let k = choose|k: u64| #[trigger]
                        before.links.contains_key(k) && !stands(
                            graph@,
                            daemon_links@,
                            before.links[k],
                        ) && before.links[k].capture_bridge == Some(id);
                    assert(keys@.contains(k));
                    let j = choose|j: int| 0 <= j < keys@.len() && keys@[j] == k;
                    assert(keys@[j] == k);
                }
            }
        }
    }

    /// Shows filters and links in a graph that was just built from what the
    /// media server has published.
    pub fn inject_video_nodes(
        &mut self,
        graph: &mut Graph,
        daemon_links: &BTreeMap<u64, LinkRecord>,
    )
        requires
            old(self).wf(),
            old(graph).wf(),
        ensures
            final(self).wf(),
            final(graph).wf(),
            ({
                let nodes = with_bridges(
                    old(graph)@,
                    old(self).bridges.entries@,
                    old(self)@.positions,
                    old(self).bridges.entries@.len() as int,
                );
                &&& final(self)@.positions == old(self)@.positions
                &&& final(self)@.sequence == old(self)@.sequence
                &&& forall|k: u64| #[trigger]
                    final(self)@.links.contains_key(k) <==> old(self)@.links.contains_key(k)
                        && stands(nodes, daemon_links@, old(self)@.links[k])
                &&& forall|k: u64| #[trigger]
                    final(self)@.links.contains_key(k) ==> final(self)@.links[k] == old(
                        self,
                    )@.links[k]
                &&& final(self)@.bridges.dom() == old(self)@.bridges.dom()
                &&& forall|id: Seq<char>| #[trigger]
                    old(self)@.bridges.contains_key(id) ==> final(self)@.bridges[id] == (
                    if lost_source(nodes, daemon_links@, old(self)@.links, id) {
                        old(self)@.bridges[id].bypassed("video source disappeared"@)
                    } else {
                        old(self)@.bridges[id]
                    })
                &&& exists|keys: Seq<u64>| #[trigger]
                    lists_domain(keys, final(self)@.links) && final(graph)@ == with_links(
                        nodes,
                        final(self)@.links,
                        keys,
                        keys.len() as int,
                    )
            }),
    {
        self.show_bridges(graph);
        let ghost nodes = graph@;
        self.prune(graph, daemon_links);
        let keys = keys_of(&self.links);
        assert(lists_domain(keys@, self@.links)) by {
            assert forall|k: u64| #[trigger] keys@.contains(k) <==> self@.links.contains_key(k) by {
                assert(keys@.contains(k) <==> self.links@.contains_key(k));
            }
        }
        let mut i: usize = 0;
        while i < keys.len()
            invariant
                i <= keys.len(),
                graph.wf(),
                lists_domain(keys@, self@.links),
                graph@ == with_links(nodes, self@.links, keys@, i as int),
            decreases keys.len() - i,
        {
            let k: u64 = keys[i];
            assert(keys@.contains(k));
            assert(self@.links.contains_key(k));
            if let Some(projection) = self.links.get(&k) {
                let _ = graph.insert_existing_link(
                    Link {
                        id: LinkId(k),
                        output_port: projection.output,
                        input_port: projection.input,
                    },
                );
            }
            i = i + 1;
        }
        assert(lists_domain(keys@, self@.links) && graph@ == with_links(
            nodes,
            self@.links,
            keys@,
            keys@.len() as int,
        ));
    }
}

/// Showing filters takes nothing away from a graph.
pub proof fn law_filters_only_add(
    g: GraphView,
    entries: Seq<(String, VideoBridge)>,
    positions: Map<u64, Position>,
    n: int,
)
    ensures
        ({
            let after = with_bridges(g, entries, positions, n);
            &&& forall|k: u64| #[trigger]
                g.nodes.contains_key(k) ==> after.nodes.contains_key(k) && after.nodes[k]
                    == g.nodes[k]
            &&& forall|k: u64| #[trigger]
                g.ports.contains_key(k) ==> after.ports.contains_key(k) && after.ports[k]
                    == g.ports[k]
            &&& after.links == g.links
        }),
    decreases n,
{
    if n > 0 {
        law_filters_only_add(g, entries, positions, n - 1);
    }
}

/// A filter whose node and ports are not in the graph yet is shown as an
/// effect with one video input and one video output, where it was put. The
/// rest of the graph stays as it is.
pub proof fn law_filters_are_shown(
    g: GraphView,
    bridge: VideoBridgeView,
    positions: Map<u64, Position>,
    k: u64,
)
    requires
        !g.has_node(bridge.instance.node_id),
        !g.has_port(bridge.instance.input_port),
        !g.has_port(bridge.instance.output_port),
        bridge.instance.input_port != bridge.instance.output_port,
    ensures
        ({
            let after = with_bridge(g, bridge, positions);
            let i = bridge.instance;
            let node = after.node(i.node_id);
            let input = after.port(i.input_port);
            let output = after.port(i.output_port);
            &&& after.has_node(i.node_id)
            &&& node.id == i.node_id
            &&& node.node_type == NodeType::Effect
            &&& node.name == "qpwgraph-video-"@ + i.filter_id + "-"@ + i.instance_id
            &&& node.ports == seq![i.input_port, i.output_port]
            &&& positions.contains_key(i.node_id.0) ==> node.position == positions[i.node_id.0]
            &&& !positions.contains_key(i.node_id.0) ==> node.position.x == 0 && node.position.y
                == 0
            &&& after.has_port(i.input_port)
            &&& input.id == i.input_port
            &&& input.node_id == i.node_id
            &&& input.direction == Direction::Sink
            &&& input.port_type == PortType::Video
            &&& after.has_port(i.output_port)
            &&& output.id == i.output_port
            &&& output.node_id == i.node_id
            &&& output.direction == Direction::Source
            &&& output.port_type == PortType::Video
            &&& input.name != output.name
            &&& after.links == g.links
            &&& k != i.node_id.0 ==> (after.nodes.contains_key(k) <==> g.nodes.contains_key(k)) && (
            g.nodes.contains_key(k) ==> after.nodes[k] == g.nodes[k])
            &&& k != i.input_port.0 && k != i.output_port.0 ==> (after.ports.contains_key(k)
                <==> g.ports.contains_key(k)) && (g.ports.contains_key(k) ==> after.ports[k]
                == g.ports[k])
        }),
{
    reveal_strlit("video_in");
    reveal_strlit("video_out");
    assert("video_in"@.len() != "video_out"@.len());
}

/// A filter whose node or port is in the graph already changes nothing.
pub proof fn law_shown_filters_are_not_shown_again(
    g: GraphView,
    bridge: VideoBridgeView,
    positions: Map<u64, Position>,
)
    ensures
        g.has_node(bridge.instance.node_id) ==> with_bridge(g, bridge, positions) == g,
        g.has_port(bridge.instance.input_port) ==> with_bridge(g, bridge, positions) == g,
        g.has_port(bridge.instance.output_port) ==> with_bridge(g, bridge, positions) == g,
        with_bridge(with_bridge(g, bridge, positions), bridge, positions) == with_bridge(
            g,
            bridge,
            positions,
        ),
{
}

/// Every filter of the board with a node and ports of its own is in the graph
/// afterwards.
pub proof fn law_all_filters_are_shown(
    g: GraphView,
    entries: Seq<(String, VideoBridge)>,
    positions: Map<u64, Position>,
    n: int,
    i: int,
)
    requires
        0 <= i < n <= entries.len(),
    ensures
        ({
            let after = with_bridges(g, entries, positions, n);
            let made = entries[i].1@.instance;
            made.input_port == made.output_port || after.has_node(made.node_id) || after.has_port(
                made.input_port,
            ) || after.has_port(made.output_port)
        }),
    decreases n,
{
    let before = with_bridges(g, entries, positions, n - 1);
    if i == n - 1 {
    } else {
        law_all_filters_are_shown(g, entries, positions, n - 1, i);
    }
}

/// A link of filters lasts exactly as long as both of its ports are in the
/// graph and the link of the media server that it stands for is there.
pub proof fn law_links_last(
    g: GraphView,
    daemon: Map<u64, LinkRecord>,
    p: ProjectionView,
    native: u32,
)
    ensures
        !g.has_port(p.output) ==> !stands(g, daemon, p),
        !g.has_port(p.input) ==> !stands(g, daemon, p),
        p.real_link is None ==> (stands(g, daemon, p) <==> g.has_port(p.output) && g.has_port(
            p.input,
        )),
        p.real_link == Some(LinkId(crate::snapshot::gid(native as u64))) ==> (stands(g, daemon, p)
            <==> g.has_port(p.output) && g.has_port(p.input) && daemon.contains_key(
            native as u64,
        )),
{
    crate::snapshot::law_native_numbers(native, native);
}

/// A filter lost its source exactly where a link that aimed its capture does
/// not last.
pub proof fn law_lost_sources(
    g: GraphView,
    daemon: Map<u64, LinkRecord>,
    links: Map<u64, ProjectionView>,
    id: Seq<char>,
    k: u64,
)
    ensures
        links.contains_key(k) && links[k].capture_bridge == Some(id) && !g.has_port(links[k].output)
            ==> lost_source(g, daemon, links, id),
        (forall|j: u64| #[trigger]
            links.contains_key(j) && links[j].capture_bridge == Some(id) ==> stands(
                g,
                daemon,
                links[j],
            )) ==> !lost_source(g, daemon, links, id),
{
}

/// Showing the links of filters adds links from the output to the input of
/// each, under its own number, and nothing else.
pub proof fn law_filter_links_only_add(
    g: GraphView,
    links: Map<u64, ProjectionView>,
    keys: Seq<u64>,
    n: int,
)
    requires
        0 <= n <= keys.len(),
    ensures
        ({
            let after = with_links(g, links, keys, n);
            &&& after.nodes == g.nodes
            &&& after.ports == g.ports
            &&& forall|k: u64| #[trigger]
                g.links.contains_key(k) ==> after.links.contains_key(k) && after.links[k]
                    == g.links[k]
            &&& forall|k: u64| #[trigger]
                after.links.contains_key(k) && !g.links.contains_key(k) ==> keys.contains(k)
                    && after.links[k].id == LinkId(k) && after.links[k].output_port
                    == links[k].output && after.links[k].input_port == links[k].input
        }),
    decreases n,
{
    if n > 0 {
        law_filter_links_only_add(g, links, keys, n - 1);
        assert(keys.contains(keys[n - 1]));
    }
}

/// The ports of every link of filters that fits are connected afterwards.
pub proof fn law_filter_links_connect(
    g: GraphView,
    links: Map<u64, ProjectionView>,
    keys: Seq<u64>,
    n: int,
    i: int,
)
    requires
        0 <= i < n <= keys.len(),
        forall|a: int, b: int| 0 <= a < b < keys.len() ==> keys[a] != keys[b],
        forall|j: int| 0 <= j < keys.len() ==> !g.links.contains_key(#[trigger] keys[j]),
        g.has_port(links[keys[i]].output),
        g.has_port(links[keys[i]].input),
        g.port(links[keys[i]].output).direction == Direction::Source,
        g.port(links[keys[i]].input).direction == Direction::Sink,
        g.port(links[keys[i]].output).port_type == g.port(links[keys[i]].input).port_type,
    ensures
        with_links(g, links, keys, n).connected(links[keys[i]].output, links[keys[i]].input),
    decreases n,
{
    let before = with_links(g, links, keys, n - 1);
    let after = with_links(g, links, keys, n);
    law_filter_links_only_add(g, links, keys, n - 1);
    if i == n - 1 {
        let link = shown_link(keys[i], links[keys[i]]);
        if before.links.contains_key(keys[i]) {
            lemma_shown_before(g, links, keys, n - 1, keys[i]);
        }
        if before.add_link_error(link) is None {
            assert(after.links.contains_key(keys[i]));
        }
    } else {
        law_filter_links_connect(g, links, keys, n - 1, i);
        let k = choose|k: u64| #[trigger]
            before.links.contains_key(k) && before.links[k].output_port == links[keys[i]].output
                && before.links[k].input_port == links[keys[i]].input;
        assert(after.links.contains_key(k));
    }
}

proof fn lemma_shown_before(
    g: GraphView,
    links: Map<u64, ProjectionView>,
    keys: Seq<u64>,
    n: int,
    k: u64,
)
    requires
        0 <= n <= keys.len(),
        with_links(g, links, keys, n).links.contains_key(k),
        !g.links.contains_key(k),
    ensures
        exists|j: int| 0 <= j < n && #[trigger] keys[j] == k,
    decreases n,
{
    if n > 0 {
        if keys[n - 1] == k {
        } else {
            lemma_shown_before(g, links, keys, n - 1, k);
        }
    }
}

} // verus!
