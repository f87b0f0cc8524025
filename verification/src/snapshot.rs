//! Building the graph from the mirror of the registry.
use crate::graph::{Graph, GraphView};
use crate::ids::{encoded, graph_id, local_part, namespace_of, BackendNamespace, LinkId, NodeId, PortId};
use crate::model::{
    clone_opt, opt_text, Link, Node, NodeIdentity, NodeIdentityView, NodeType, NodeView, Port,
    PortView, Position,
};
use crate::registry::{
    classify_port_type, either, port_type_of, ClientRecord, ClientRecordView, NodeRecord,
    NodeRecordView, RegistryState, RegistryView,
};
use crate::table::{ascending, keys_of, lemma_push_contains, lists_domain};
use crate::text::{after_prefix, begins_with};
use std::collections::BTreeMap;
use vstd::prelude::*;

verus! {

broadcast use vstd::std_specs::btree::group_btree_axioms;

/// The name that metering streams begin with. They are helper objects and do
/// not show in the graph.
pub const METER_NODE_PREFIX: &'static str = "qpwgraph-rs meter";

/// The graph identifier of a native object.
pub open spec fn gid(native: u64) -> u64 {
    encoded(BackendNamespace::PipeWire, native)
}

/// The identifier belongs to a native object of the daemon.
pub open spec fn is_gid(k: u64) -> bool {
    namespace_of(k) == Some(BackendNamespace::PipeWire)
}

pub proof fn lemma_gid(n: u64)
    requires
        n <= u32::MAX,
    ensures
        is_gid(gid(n)),
        local_part(gid(n)) == n,
{
}

pub proof fn lemma_gid_back(k: u64)
    requires
        is_gid(k),
    ensures
        gid(local_part(k)) == k,
{
}

impl RegistryView {
    /// The node with this number appears in the graph.
    pub open spec fn shows_node(self, n: u64) -> bool {
        self.nodes.contains_key(n) && !begins_with(self.nodes[n].name, METER_NODE_PREFIX@)
    }

    /// The port with this number appears in the graph.
    pub open spec fn shows_port(self, n: u64) -> bool {
        self.ports.contains_key(n) && self.shows_node(self.ports[n].node_id as u64)
    }

    /// The client that a node belongs to.
    pub open spec fn client_of(self, record: NodeRecordView) -> Option<ClientRecordView> {
        match record.client_id {
            Some(id) => if self.clients.contains_key(id as u64) {
                Some(self.clients[id as u64])
            } else {
                None
            },
            None => None,
        }
    }
}

/// A text of the node's own record, else of its client's.
pub open spec fn inherited(own: Option<Seq<char>>, client: Option<Option<Seq<char>>>) -> Option<
    Seq<char>,
> {
    either(
        own,
        match client {
            Some(text) => text,
            None => None,
        },
    )
}

/// What is known about the program behind a node: its own record first, then
/// the record of its client.
pub open spec fn identity_of(
    record: NodeRecordView,
    client: Option<ClientRecordView>,
    effect: Option<Seq<char>>,
) -> NodeIdentityView {
    NodeIdentityView {
        application_id: inherited(
            record.application_id,
            match client {
                Some(c) => Some(c.application_id),
                None => None,
            },
        ),
        application_name: inherited(
            record.application_name,
            match client {
                Some(c) => Some(c.application_name),
                None => None,
            },
        ),
        process_binary: inherited(
            record.process_binary,
            match client {
                Some(c) => Some(c.process_binary),
                None => None,
            },
        ),
        node_name: record.name,
        description: record.description,
        media_role: record.media_role,
        media_name: record.media_name,
        client_name: inherited(
            record.client_name,
            match client {
                Some(c) => Some(c.client_name),
                None => None,
            },
        ),
        client_api: inherited(
            record.client_api,
            match client {
                Some(c) => Some(c.client_api),
                None => None,
            },
        ),
        client_id: record.client_id,
        object_path: record.object_path,
        object_serial: record.serial,
        effect_instance_id: effect,
    }
}

/// The instance that a node hosts.
pub open spec fn effect_at(effects: Map<u64, String>, k: u64) -> Option<Seq<char>> {
    if effects.contains_key(k) {
        Some(effects[k]@)
    } else {
        None
    }
}

/// The node for a record, with the given ports.
pub open spec fn node_for(
    state: RegistryView,
    effects: Map<u64, String>,
    positions: Map<u64, Position>,
    n: u64,
    ports: Seq<PortId>,
) -> NodeView {
    let record = state.nodes[n];
    let effect = effect_at(effects, gid(n));
    NodeView {
        id: NodeId(gid(n)),
        name: record.name,
        node_type: if effect is Some {
            NodeType::Effect
        } else {
            NodeType::PipeWire
        },
        position: if positions.contains_key(gid(n)) {
            positions[gid(n)]
        } else {
            Position::spec_origin()
        },
        ports,
        serial: record.serial,
        effect_instance_id: effect,
        identity: identity_of(record, state.client_of(record), effect),
    }
}

/// The port for a record.
pub open spec fn port_for(state: RegistryView, n: u64) -> PortView {
    let record = state.ports[n];
    PortView {
        id: PortId(gid(n)),
        node_id: NodeId(gid(record.node_id as u64)),
        name: record.name,
        direction: record.direction,
        port_type: port_type_of(
            record.media_type,
            crate::text::lower(state.nodes[record.node_id as u64].media_class),
        ),
        channel: record.channel,
    }
}

/// The link for a record.
pub open spec fn link_for(state: RegistryView, n: u64) -> Link {
    Link {
        id: LinkId(gid(n)),
        output_port: PortId(gid(state.links[n].output_port as u64)),
        input_port: PortId(gid(state.links[n].input_port as u64)),
    }
}

/// The nodes of `g` are those that the mirror shows, apart from the ports that
/// they list.
pub open spec fn nodes_built(
    g: GraphView,
    state: RegistryView,
    effects: Map<u64, String>,
    positions: Map<u64, Position>,
) -> bool {
    &&& forall|k: u64| #[trigger]
        g.nodes.contains_key(k) <==> is_gid(k) && state.shows_node(local_part(k))
    &&& forall|k: u64| #[trigger]
        g.nodes.contains_key(k) ==> g.nodes[k] == node_for(
            state,
            effects,
            positions,
            local_part(k),
            g.nodes[k].ports,
        )
}

/// The ports of `g` are those that the mirror shows.
pub open spec fn ports_built(g: GraphView, state: RegistryView) -> bool {
    &&& forall|k: u64| #[trigger]
        g.ports.contains_key(k) <==> is_gid(k) && state.shows_port(local_part(k))
    &&& forall|k: u64| #[trigger]
        g.ports.contains_key(k) ==> g.ports[k] == port_for(state, local_part(k))
}

/// Every node lists its ports in the order of their identifiers.
pub open spec fn ports_in_order(g: GraphView) -> bool {
    forall|k: u64, i: int, j: int|
        #![trigger g.nodes[k].ports[i], g.nodes[k].ports[j]]
        g.nodes.contains_key(k) && 0 <= i < j < g.nodes[k].ports.len() ==> g.nodes[k].ports[i].0
            < g.nodes[k].ports[j].0
}

/// A recorded link appears in the graph: its ports do and fit, and no link
/// with a smaller number joins the same ports.
pub open spec fn link_shown(g: GraphView, state: RegistryView, n: u64) -> bool {
    &&& state.links.contains_key(n)
    &&& g.link_fits(link_for(state, n))
    &&& forall|m: u64| #[trigger]
        state.links.contains_key(m) && m < n ==> state.links[m] != state.links[n]
}

/// The links of `g` are those that the mirror shows.
pub open spec fn links_built(g: GraphView, state: RegistryView) -> bool {
    &&& forall|k: u64| #[trigger]
        g.links.contains_key(k) <==> is_gid(k) && link_shown(g, state, local_part(k))
    &&& forall|k: u64| #[trigger]
        g.links.contains_key(k) ==> g.links[k] == link_for(state, local_part(k))
}

fn inherit(own: &Option<String>, client: Option<&Option<String>>) -> (r: Option<String>)
    ensures
        opt_text(r) == inherited(
            opt_text(*own),
            match client {
                Some(text) => Some(opt_text(*text)),
                None => None,
            },
        ),
{
    match own {
        Some(s) => Some(s.clone()),
        None => match client {
            Some(text) => clone_opt(text),
            None => None,
        },
    }
}

fn identity_from(
    record: &NodeRecord,
    client: Option<&ClientRecord>,
    effect: Option<&String>,
) -> (r: NodeIdentity)
    ensures
        r@ == identity_of(
            record@,
            match client {
                Some(c) => Some(c@),
                None => None,
            },
            match effect {
                Some(e) => Some(e@),
                None => None,
            },
        ),
{
    let (id, name, binary, client_name, client_api) = match client {
        Some(c) => (
            Some(&c.application_id),
            Some(&c.application_name),
            Some(&c.process_binary),
            Some(&c.client_name),
            Some(&c.client_api),
        ),
        None => (None, None, None, None, None),
    };
    NodeIdentity {
        application_id: inherit(&record.application_id, id),
        application_name: inherit(&record.application_name, name),
        process_binary: inherit(&record.process_binary, binary),
        node_name: record.name.clone(),
        description: clone_opt(&record.description),
        media_role: clone_opt(&record.media_role),
        media_name: clone_opt(&record.media_name),
        client_name: inherit(&record.client_name, client_name),
        client_api: inherit(&record.client_api, client_api),
        client_id: record.client_id,
        object_path: clone_opt(&record.object_path),
        object_serial: record.serial,
        effect_instance_id: match effect {
            Some(e) => Some(e.clone()),
            None => None,
        },
    }
}

fn node_from_record(
    state: &RegistryState,
    effects: &BTreeMap<u64, String>,
    positions: &BTreeMap<u64, Position>,
    n: u64,
    record: &NodeRecord,
) -> (r: Node)
    requires
        state@.nodes.contains_key(n),
        state@.nodes[n] == record@,
    ensures
        r@ == node_for(state@, effects@, positions@, n, Seq::empty()),
{
    let id: u64 = graph_id(n);
    let effect = effects.get(&id);
    let client = match record.client_id {
        Some(client_id) => state.clients.get(&(client_id as u64)),
        None => None,
    };
    let position = match positions.get(&id) {
        Some(p) => *p,
        None => Position::origin(),
    };
    let node_type = if effect.is_some() {
        NodeType::Effect
    } else {
        NodeType::PipeWire
    };
    Node {
        id: NodeId(id),
        name: record.name.clone(),
        node_type,
        position,
        ports: Vec::new(),
        serial: record.serial,
        effect_instance_id: match effect {
            Some(e) => Some(e.clone()),
            None => None,
        },
        identity: identity_from(record, client, effect),
    }
}

/// Adds a node for every record that shows.
fn build_nodes(
    state: &RegistryState,
    effects: &BTreeMap<u64, String>,
    positions: &BTreeMap<u64, Position>,
) -> (r: Graph)
    requires
        state@.wf(),
    ensures
        r.wf(),
        nodes_built(r@, state@, effects@, positions@),
        r@.ports == Map::<u64, PortView>::empty(),
        r@.links == Map::<u64, Link>::empty(),
        forall|k: u64| #[trigger] r@.nodes.contains_key(k) ==> r@.nodes[k].ports.len() == 0,
{
    let keys = keys_of(&state.nodes);
    let mut graph = Graph::new();
    let mut i: usize = 0;
    while i < keys.len()
        invariant
            i <= keys.len(),
            state@.wf(),
            lists_domain(keys@, state.nodes@),
            graph.wf(),
            graph@.ports == Map::<u64, PortView>::empty(),
            graph@.links == Map::<u64, Link>::empty(),
            forall|k: u64| #[trigger]
                graph@.nodes.contains_key(k) <==> is_gid(k) && keys@.take(i as int).contains(
                    local_part(k),
                ) && state@.shows_node(local_part(k)),
            forall|k: u64| #[trigger]
                graph@.nodes.contains_key(k) ==> graph@.nodes[k] == node_for(
                    state@,
                    effects@,
                    positions@,
                    local_part(k),
                    Seq::empty(),
                ),
        decreases keys.len() - i,
    {
        let n: u64 = keys[i];
        let ghost before = graph@;
        proof {
            assert(keys@.contains(n));
            assert(state@.nodes.contains_key(n));
            lemma_gid(n);
            assert(keys@.take(i + 1) == keys@.take(i as int).push(n));
            assert forall|x: u64| keys@.take(i + 1).contains(x) <==> (keys@.take(i as int).contains(
                x,
            ) || x == n) by {
                lemma_push_contains(keys@.take(i as int), n, x);
            }
            assert(!keys@.take(i as int).contains(n)) by {
                let head = keys@.take(i as int);
                if head.contains(n) {
                    let x = choose|x: int| 0 <= x < head.len() && head[x] == n;
                    assert(keys@[x] < keys@[i as int]);
                }
            }
        }
        if let Some(record) = state.nodes.get(&n) {
            if after_prefix(record.name.as_str(), METER_NODE_PREFIX).is_none() {
                let node = node_from_record(state, effects, positions, n, record);
                let ghost view = node@;
                assert(!before.has_node(view.id));
                let added = graph.add_node(node);
                assert(added is Ok);
                assert(graph@.nodes == before.nodes.insert(gid(n), view));
            }
        }
        i = i + 1;
        assert forall|k: u64| #[trigger] graph@.nodes.contains_key(k) <==> is_gid(k)
            && keys@.take(i as int).contains(local_part(k)) && state@.shows_node(local_part(k)) by {
            if is_gid(k) {
                lemma_gid_back(k);
            }
        }
    }
    assert(keys@.take(keys@.len() as int) == keys@);
    assert forall|k: u64| #[trigger] graph@.nodes.contains_key(k) <==> is_gid(k)
        && state@.shows_node(local_part(k)) by {
        assert(state@.shows_node(local_part(k)) ==> keys@.contains(local_part(k)));
    }
    graph
}

/// Adds a port for every record that shows.
fn build_ports(
    graph: &mut Graph,
    state: &RegistryState,
    Ghost(effects): Ghost<Map<u64, String>>,
    Ghost(positions): Ghost<Map<u64, Position>>,
)
    requires
        old(graph).wf(),
        state@.wf(),
        nodes_built(old(graph)@, state@, effects, positions),
        old(graph)@.ports == Map::<u64, PortView>::empty(),
        forall|k: u64| #[trigger]
            old(graph)@.nodes.contains_key(k) ==> old(graph)@.nodes[k].ports.len() == 0,
    ensures
        final(graph).wf(),
        nodes_built(final(graph)@, state@, effects, positions),
        ports_built(final(graph)@, state@),
        ports_in_order(final(graph)@),
        final(graph)@.links == old(graph)@.links,
{
    let keys = keys_of(&state.ports);
    let mut i: usize = 0;
    while i < keys.len()
        invariant
            i <= keys.len(),
            state@.wf(),
            lists_domain(keys@, state.ports@),
            graph.wf(),
            nodes_built(graph@, state@, effects, positions),
            graph@.links == old(graph)@.links,
            forall|k: u64| #[trigger]
                graph@.ports.contains_key(k) <==> is_gid(k) && keys@.take(i as int).contains(
                    local_part(k),
                ) && state@.shows_port(local_part(k)),
            forall|k: u64| #[trigger]
                graph@.ports.contains_key(k) ==> graph@.ports[k] == port_for(state@, local_part(k)),
            ports_in_order(graph@),
        decreases keys.len() - i,
    {
        let n: u64 = keys[i];
        let ghost before = graph@;
        proof {
            assert(keys@.contains(n));
            assert(state@.ports.contains_key(n));
            lemma_gid(n);
            assert(keys@.take(i + 1) == keys@.take(i as int).push(n));
            assert forall|x: u64| keys@.take(i + 1).contains(x) <==> (keys@.take(i as int).contains(
                x,
            ) || x == n) by {
                lemma_push_contains(keys@.take(i as int), n, x);
            }
            assert forall|x: u64| keys@.take(i as int).contains(x) implies x < n by {
                let head = keys@.take(i as int);
                let y = choose|y: int| 0 <= y < head.len() && head[y] == x;
                assert(keys@[y] < keys@[i as int]);
            }
        }
        if let Some(record) = state.ports.get(&n) {
            let node_key: u64 = record.node_id as u64;
            let node_id = NodeId(graph_id(node_key));
            proof {
                lemma_gid(node_key);
            }
            if graph.node(node_id).is_some() {
                assert(state@.shows_node(node_key));
                if let Some(owner) = state.nodes.get(&node_key) {
                    let class = lowered(owner.media_class.as_str());
                    let port_type = classify_port_type(
                        record.media_type.as_str(),
                        Some(class.as_str()),
                    );
                    let port = Port {
                        id: PortId(graph_id(n)),
                        node_id,
                        name: record.name.clone(),
                        direction: record.direction,
                        port_type,
                        channel: clone_opt(&record.channel),
                    };
                    let ghost view = port@;
                    assert(view == port_for(state@, n));
                    assert(!before.has_port(view.id));
                    let added = graph.add_port(port);
                    assert(added is Ok);
                    proof {
                        assert(graph@ == before.add_port_result(view)->Ok_0);
                        lemma_port_appended(before, view, state@, effects, positions);
                    }
                }
            } else {
                assert(!state@.shows_port(n));
            }
        }
        i = i + 1;
        assert forall|k: u64| #[trigger] graph@.ports.contains_key(k) <==> is_gid(k)
            && keys@.take(i as int).contains(local_part(k)) && state@.shows_port(local_part(k)) by {
            if is_gid(k) {
                lemma_gid_back(k);
            }
        }
    }
    assert(keys@.take(keys@.len() as int) == keys@);
    assert forall|k: u64| #[trigger] graph@.ports.contains_key(k) <==> is_gid(k)
        && state@.shows_port(local_part(k)) by {
        assert(state@.shows_port(local_part(k)) ==> keys@.contains(local_part(k)));
    }
}

/// The ASCII lower case of a text.
fn lowered(s: &str) -> (r: String)
    ensures
        r@ == crate::text::lower(s@),
{
    let chars = crate::text::lower_chars(s);
    let r = crate::text::text_of(&chars, 0, chars.len());
    assert(chars@.subrange(0, chars@.len() as int) == chars@);
    r
}

/// Appending a port with the largest identifier keeps every list in order.
proof fn lemma_port_appended(
    before: GraphView,
    port: PortView,
    state: RegistryView,
    effects: Map<u64, String>,
    positions: Map<u64, Position>,
)
    requires
        before.wf(),
        ports_in_order(before),
        nodes_built(before, state, effects, positions),
        before.add_port_result(port) is Ok,
        forall|k: u64| #[trigger] before.ports.contains_key(k) ==> k < port.id.0,
    ensures
        ports_in_order(before.add_port_result(port)->Ok_0),
        nodes_built(before.add_port_result(port)->Ok_0, state, effects, positions),
{
    let after = before.add_port_result(port)->Ok_0;
    let owner = port.node_id.0;
    let old_ports = before.nodes[owner].ports;
    assert(after.nodes[owner].ports == old_ports.push(port.id));
    assert forall|k: u64, i: int, j: int|
        #![trigger after.nodes[k].ports[i], after.nodes[k].ports[j]]
        after.nodes.contains_key(k) && 0 <= i < j
            < after.nodes[k].ports.len() implies after.nodes[k].ports[i].0
        < after.nodes[k].ports[j].0 by {
        if k == owner {
            if j < old_ports.len() {
                assert(before.nodes[k].ports[i].0 < before.nodes[k].ports[j].0);
            } else {
                assert(old_ports.contains(old_ports[i]));
                assert(before.lists(k, old_ports[i]));
                assert(before.ports.contains_key(old_ports[i].0));
            }
        } else {
            assert(before.nodes[k].ports[i].0 < before.nodes[k].ports[j].0);
        }
    }
}

/// The nodes and ports that the mirror shows, without links.
pub fn graph_objects(
    state: &RegistryState,
    effects: &BTreeMap<u64, String>,
    positions: &BTreeMap<u64, Position>,
) -> (r: Graph)
    requires
        state@.wf(),
    ensures
        r.wf(),
        nodes_built(r@, state@, effects@, positions@),
        ports_built(r@, state@),
        ports_in_order(r@),
        r@.links == Map::<u64, Link>::empty(),
{
    let mut graph = build_nodes(state, effects, positions);
    build_ports(&mut graph, state, Ghost(effects@), Ghost(positions@));
    graph
}

/// Where a node of the graph ends up: at its remembered position, else at its
/// default position, else where it is.
pub open spec fn settled(
    positions: Map<u64, Position>,
    defaults: Map<u64, Position>,
    k: u64,
    current: Position,
) -> Position {
    if positions.contains_key(k) {
        positions[k]
    } else if defaults.contains_key(k) {
        defaults[k]
    } else {
        current
    }
}

/// The graph with every node at its settled position.
pub open spec fn placed(
    g: GraphView,
    positions: Map<u64, Position>,
    defaults: Map<u64, Position>,
) -> GraphView {
    GraphView {
        nodes: Map::new(
            |k: u64| g.nodes.contains_key(k),
            |k: u64|
                NodeView {
                    position: settled(positions, defaults, k, g.nodes[k].position),
                    ..g.nodes[k]
                },
        ),
        ..g
    }
}

/// The remembered positions with those of newly placed nodes.
pub open spec fn remembered(
    g: GraphView,
    positions: Map<u64, Position>,
    defaults: Map<u64, Position>,
) -> Map<u64, Position> {
    Map::new(
        |k: u64|
            positions.contains_key(k) || (g.nodes.contains_key(k) && defaults.contains_key(k)),
        |k: u64|
            if positions.contains_key(k) {
                positions[k]
            } else {
                defaults[k]
            },
    )
}

/// Placing keeps the tables in agreement.
pub proof fn law_placing_keeps_wf(
    g: GraphView,
    positions: Map<u64, Position>,
    defaults: Map<u64, Position>,
)
    requires
        g.wf(),
    ensures
        placed(g, positions, defaults).wf(),
{
    let h = placed(g, positions, defaults);
    assert forall|k: u64| #[trigger] h.nodes.contains_key(k) implies h.nodes[k].id.0 == k
        && h.nodes[k].ports.no_duplicates() by {
        assert(g.nodes.contains_key(k));
    }
    assert forall|k: u64, p: PortId| #[trigger] h.lists(k, p) implies h.has_port(p) && h.port(
        p,
    ).node_id.0 == k by {
        assert(g.lists(k, p));
    }
    assert forall|k: u64| #[trigger] h.ports.contains_key(k) implies h.ports[k].id.0 == k
        && h.lists(h.ports[k].node_id.0, h.ports[k].id) by {
        assert(g.ports.contains_key(k));
        assert(g.lists(g.ports[k].node_id.0, g.ports[k].id));
    }
    assert forall|k: u64| #[trigger] h.links.contains_key(k) implies h.links[k].id.0 == k
        && h.link_fits(h.links[k]) by {
        assert(g.links.contains_key(k));
    }
}

/// Settles every node and remembers the positions that were given out.
pub fn place_nodes(
    graph: &mut Graph,
    positions: &mut BTreeMap<u64, Position>,
    defaults: &BTreeMap<u64, Position>,
)
    requires
        old(graph).wf(),
    ensures
        final(graph).wf(),
        final(graph)@ == placed(old(graph)@, old(positions)@, defaults@),
        final(positions)@ == remembered(old(graph)@, old(positions)@, defaults@),
{
    let keys = keys_of(&graph.nodes);
    let ghost g0 = graph@;
    let ghost p0 = positions@;
    let mut i: usize = 0;
    while i < keys.len()
        invariant
            i <= keys.len(),
            graph.wf(),
            g0 == old(graph)@,
            p0 == old(positions)@,
            forall|k: u64| #[trigger] keys@.contains(k) <==> g0.nodes.contains_key(k),
            ascending(keys@),
            graph@.ports == g0.ports,
            graph@.links == g0.links,
            graph@.nodes.dom() == g0.nodes.dom(),
            forall|k: u64| #[trigger]
                g0.nodes.contains_key(k) ==> graph@.nodes[k] == (if keys@.take(i as int).contains(
                    k,
                ) {
                    NodeView {
                        position: settled(p0, defaults@, k, g0.nodes[k].position),
                        ..g0.nodes[k]
                    }
                } else {
                    g0.nodes[k]
                }),
            forall|k: u64| #[trigger]
                positions@.contains_key(k) <==> p0.contains_key(k) || (keys@.take(
                    i as int,
                ).contains(k) && defaults@.contains_key(k)),
            forall|k: u64| #[trigger]
                positions@.contains_key(k) ==> positions@[k] == (if p0.contains_key(k) {
                    p0[k]
                } else {
                    defaults@[k]
                }),
        decreases keys.len() - i,
    {
        let n: u64 = keys[i];
        let ghost before = graph@;
        proof {
            assert(keys@.contains(n));
            assert(g0.nodes.contains_key(n));
            assert(graph@.nodes.dom().contains(n));
            assert(keys@.take(i + 1) == keys@.take(i as int).push(n));
            assert forall|x: u64| keys@.take(i + 1).contains(x) <==> (keys@.take(i as int).contains(
                x,
            ) || x == n) by {
                lemma_push_contains(keys@.take(i as int), n, x);
            }
            assert(!keys@.take(i as int).contains(n)) by {
                let head = keys@.take(i as int);
                if head.contains(n) {
                    let x = choose|x: int| 0 <= x < head.len() && head[x] == n;
                    assert(keys@[x] < keys@[i as int]);
                }
            }
            assert(graph@.nodes[n] == g0.nodes[n]);
        }
        let known: Option<Position> = match positions.get(&n) {
            Some(p) => Some(*p),
            None => None,
        };
        match known {
            Some(position) => {
                let moved = graph.set_position(NodeId(n), position);
                assert(moved is Ok);
            },
            None => {
                let given: Option<Position> = match defaults.get(&n) {
                    Some(p) => Some(*p),
                    None => None,
                };
                if let Some(position) = given {
                    let moved = graph.set_position(NodeId(n), position);
                    assert(moved is Ok);
                    positions.insert(n, position);
                }
            },
        }
        i = i + 1;
        assert(graph@.nodes.dom() =~= g0.nodes.dom());
    }
    proof {
        assert(keys@.take(keys@.len() as int) == keys@);
        assert(graph@.nodes =~= placed(g0, p0, defaults@).nodes);
        assert(graph@ =~= placed(g0, p0, defaults@));
        assert(positions@ =~= remembered(g0, p0, defaults@));
    }
}

/// Adds a link for every record that shows.
pub fn connect_links(graph: &mut Graph, state: &RegistryState)
    requires
        old(graph).wf(),
        old(graph)@.links == Map::<u64, Link>::empty(),
        state@.wf(),
    ensures
        final(graph).wf(),
        final(graph)@.nodes == old(graph)@.nodes,
        final(graph)@.ports == old(graph)@.ports,
        links_built(final(graph)@, state@),
{
    let keys = keys_of(&state.links);
    let ghost g0 = graph@;
    let mut i: usize = 0;
    while i < keys.len()
        invariant
            i <= keys.len(),
            state@.wf(),
            lists_domain(keys@, state.links@),
            graph.wf(),
            g0 == old(graph)@,
            graph@.nodes == g0.nodes,
            graph@.ports == g0.ports,
            forall|k: u64| #[trigger]
                graph@.links.contains_key(k) <==> is_gid(k) && keys@.take(i as int).contains(
                    local_part(k),
                ) && link_shown(g0, state@, local_part(k)),
            forall|k: u64| #[trigger]
                graph@.links.contains_key(k) ==> graph@.links[k] == link_for(state@, local_part(k)),
        decreases keys.len() - i,
    {
        let n: u64 = keys[i];
        let ghost before = graph@;
        let ghost head = keys@.take(i as int);
        proof {
            assert(keys@.contains(n));
            assert(state@.links.contains_key(n));
            lemma_gid(n);
            assert(keys@.take(i + 1) == head.push(n));
            assert forall|x: u64| keys@.take(i + 1).contains(x) <==> (head.contains(x) || x == n) by {
                lemma_push_contains(head, n, x);
            }
            assert forall|x: u64| head.contains(x) implies x < n by {
                let y = choose|y: int| 0 <= y < head.len() && head[y] == x;
                assert(keys@[y] < keys@[i as int]);
            }
        }
        if let Some(record) = state.links.get(&n) {
            let link = Link {
                id: LinkId(graph_id(n)),
                output_port: PortId(graph_id(record.output_port as u64)),
                input_port: PortId(graph_id(record.input_port as u64)),
            };
            assert(link == link_for(state@, n));
            proof {
                lemma_link_accepted(before, g0, state@, keys@, i as int);
            }
            let _ = graph.insert_existing_link(link);
        }
        i = i + 1;
        assert forall|k: u64| #[trigger] graph@.links.contains_key(k) <==> is_gid(k)
            && keys@.take(i as int).contains(local_part(k)) && link_shown(
            g0,
            state@,
            local_part(k),
        ) by {
            if is_gid(k) {
                lemma_gid_back(k);
            }
        }
    }
    proof {
        assert(keys@.take(keys@.len() as int) == keys@);
        assert forall|k: u64| #[trigger] graph@.links.contains_key(k) <==> is_gid(k)
            && link_shown(graph@, state@, local_part(k)) by {
            assert(link_shown(graph@, state@, local_part(k)) == link_shown(
                g0,
                state@,
                local_part(k),
            ));
            assert(link_shown(g0, state@, local_part(k)) ==> keys@.contains(local_part(k)));
        }
    }
}

/// A walk in ascending order accepts a recorded link exactly when it shows.
proof fn lemma_link_accepted(
    now: GraphView,
    g0: GraphView,
    state: RegistryView,
    keys: Seq<u64>,
    i: int,
)
    requires
        now.wf(),
        state.wf(),
        0 <= i < keys.len(),
        lists_domain(keys, state.links),
        now.nodes == g0.nodes,
        now.ports == g0.ports,
        forall|k: u64| #[trigger]
            now.links.contains_key(k) <==> is_gid(k) && keys.take(i).contains(local_part(k))
                && link_shown(g0, state, local_part(k)),
        forall|k: u64| #[trigger]
            now.links.contains_key(k) ==> now.links[k] == link_for(state, local_part(k)),
    ensures
        now.add_link_error(link_for(state, keys[i])) is None <==> link_shown(g0, state, keys[i]),
{
    let n = keys[i];
    let link = link_for(state, n);
    let head = keys.take(i);
    assert(keys.contains(n));
    lemma_gid(n);
    assert forall|x: u64| head.contains(x) implies x < n by {
        let y = choose|y: int| 0 <= y < head.len() && head[y] == x;
        assert(keys[y] < keys[i]);
    }
    if g0.link_fits(link) {
        if link_shown(g0, state, n) {
            assert(!now.connected(link.output_port, link.input_port)) by {
                if now.connected(link.output_port, link.input_port) {
                    let k = choose|k: u64| #[trigger]
                        now.links.contains_key(k) && now.links[k].output_port == link.output_port
                            && now.links[k].input_port == link.input_port;
                    let m = local_part(k);
                    assert(now.links[k] == link_for(state, m));
                    assert(head.contains(m));
                    lemma_same_record(state, m, n);
                    assert(state.links.contains_key(m));
                }
            }
            assert(!now.has_link(link.id));
        } else {
            let m = choose|m: u64| #[trigger]
                state.links.contains_key(m) && m < n && state.links[m] == state.links[n];
            let least = lemma_least_twin(state, m, n);
            assert(keys.contains(least));
            let x = choose|x: int| 0 <= x < keys.len() && keys[x] == least;
            assert(x < i);
            assert(head[x] == least);
            assert(head.contains(least));
            lemma_gid(least);
            assert(link_shown(g0, state, least)) by {
                assert(link_for(state, least).output_port == link.output_port);
            }
            assert(now.links.contains_key(gid(least)));
            assert(now.connected(link.output_port, link.input_port));
        }
    }
}

/// Links between the same ports come from equal records.
proof fn lemma_same_record(state: RegistryView, m: u64, n: u64)
    requires
        link_for(state, m).output_port == link_for(state, n).output_port,
        link_for(state, m).input_port == link_for(state, n).input_port,
    ensures
        state.links[m] == state.links[n],
{
    lemma_gid(state.links[m].output_port as u64);
    lemma_gid(state.links[n].output_port as u64);
    lemma_gid(state.links[m].input_port as u64);
    lemma_gid(state.links[n].input_port as u64);
}

/// Among the records equal to that of `n` there is one with the smallest
/// number.
proof fn lemma_least_twin(state: RegistryView, m: u64, n: u64) -> (least: u64)
    requires
        state.links.contains_key(m),
        m < n,
        state.links[m] == state.links[n],
    ensures
        state.links.contains_key(least),
        least < n,
        state.links[least] == state.links[n],
        forall|x: u64| #[trigger]
            state.links.contains_key(x) && x < least ==> state.links[x] != state.links[least],
    decreases m,
{
    if exists|x: u64| #[trigger]
        state.links.contains_key(x) && x < m && state.links[x] == state.links[m] {
        let x = choose|x: u64| #[trigger]
            state.links.contains_key(x) && x < m && state.links[x] == state.links[m];
        lemma_least_twin(state, x, n)
    } else {
        m
    }
}

/// The graph that the mirror shows: nodes at their settled positions, their
/// ports, and the links between them.
pub fn build_graph_from_state(
    state: &RegistryState,
    effects: &BTreeMap<u64, String>,
    positions: &mut BTreeMap<u64, Position>,
    defaults: &BTreeMap<u64, Position>,
) -> (r: Graph)
    requires
        state@.wf(),
    ensures
        r.wf(),
        nodes_built(r@, state@, effects@, final(positions)@),
        ports_built(r@, state@),
        ports_in_order(r@),
        links_built(r@, state@),
        forall|k: u64| #[trigger]
            final(positions)@.contains_key(k) <==> old(positions)@.contains_key(k) || (is_gid(k)
                && state@.shows_node(local_part(k)) && defaults@.contains_key(k)),
        forall|k: u64| #[trigger]
            final(positions)@.contains_key(k) ==> final(positions)@[k] == (if old(
                positions,
            )@.contains_key(k) {
                old(positions)@[k]
            } else {
                defaults@[k]
            }),
{
    let mut graph = graph_objects(state, effects, positions);
    let ghost g1 = graph@;
    let ghost p0 = positions@;
    place_nodes(&mut graph, positions, defaults);
    let ghost g2 = graph@;
    proof {
        assert forall|k: u64| #[trigger] g2.nodes.contains_key(k) implies g2.nodes[k] == node_for(
            state@,
            effects@,
            positions@,
            local_part(k),
            g2.nodes[k].ports,
        ) by {
            assert(g1.nodes.contains_key(k));
            lemma_gid_back(k);
        }
        assert(ports_in_order(g2)) by {
            assert forall|k: u64, i: int, j: int|
                #![trigger g2.nodes[k].ports[i], g2.nodes[k].ports[j]]
                g2.nodes.contains_key(k) && 0 <= i < j
                    < g2.nodes[k].ports.len() implies g2.nodes[k].ports[i].0
                < g2.nodes[k].ports[j].0 by {
                assert(g1.nodes.contains_key(k));
                assert(g1.nodes[k].ports[i].0 < g1.nodes[k].ports[j].0);
            }
        }
        assert forall|k: u64| #[trigger] g2.nodes.contains_key(k) <==> is_gid(k)
            && state@.shows_node(local_part(k)) by {
            assert(g1.nodes.contains_key(k) <==> is_gid(k) && state@.shows_node(local_part(k)));
        }
        assert forall|k: u64| #[trigger] g2.ports.contains_key(k) <==> is_gid(k)
            && state@.shows_port(local_part(k)) by {
            assert(g1.ports.contains_key(k) <==> is_gid(k) && state@.shows_port(local_part(k)));
        }
    }
    connect_links(&mut graph, state);
    graph
}

/// Native numbers and graph identifiers stand for each other.
pub proof fn law_native_numbers(n: u32, m: u32)
    ensures
        crate::ids::native_part(gid(n as u64)) == n,
        namespace_of(gid(n as u64)) == Some(BackendNamespace::PipeWire),
        gid(n as u64) == gid(m as u64) ==> n == m,
{
    crate::ids::law_native_ids_round_trip(n);
    crate::ids::law_native_ids_round_trip(m);
    lemma_gid(n as u64);
}

/// A mirrored port whose node shows is in the graph under its own number, as
/// a port of that node, with the name, the direction and the channel that were
/// mirrored. What the mirror does not hold is not in the graph.
pub proof fn law_graph_has_the_mirrored_ports(g: GraphView, state: RegistryView, n: u32)
    requires
        ports_built(g, state),
        state.wf(),
    ensures
        ({
            let id = PortId(gid(n as u64));
            let record = state.ports[n as u64];
            let owner = record.node_id as u64;
            &&& g.has_port(id) <==> state.ports.contains_key(n as u64) && state.nodes.contains_key(
                owner,
            ) && !exists|rest: Seq<char>|
                state.nodes[owner].name == #[trigger] ("qpwgraph-rs meter"@ + rest)
            &&& g.has_port(id) ==> {
                &&& g.port(id).id == id
                &&& g.port(id).node_id == NodeId(gid(owner))
                &&& g.port(id).name == record.name
                &&& g.port(id).direction == record.direction
                &&& g.port(id).channel == record.channel
                &&& g.port(id).port_type == port_type_of(
                    record.media_type,
                    state.nodes[owner].media_class,
                )
            }
        }),
        forall|k: u64| #[trigger]
            g.ports.contains_key(k) ==> exists|m: u32|
                k == gid(m as u64) && #[trigger] state.ports.contains_key(m as u64),
{
    lemma_gid(n as u64);
    let owner = state.ports[n as u64].node_id as u64;
    crate::text::law_begins_with(state.nodes[owner].name, METER_NODE_PREFIX@);
    let class = state.nodes[owner].media_class;
    if class.len() > 0 {
        crate::text::law_lower(class, 0);
    }
    assert(crate::text::lower(crate::text::lower(class)) =~= crate::text::lower(class));
    assert forall|k: u64| #[trigger] g.ports.contains_key(k) implies exists|m: u32|
        k == gid(m as u64) && #[trigger] state.ports.contains_key(m as u64) by {
        lemma_gid_back(k);
        let m = local_part(k) as u32;
        assert(state.ports.contains_key(local_part(k)));
        assert(m as u64 == local_part(k));
    }
}

/// A port that was announced with a channel has that channel in the graph,
/// and has none there just where the properties hold none.
pub proof fn law_channels_reach_the_graph(
    state: RegistryView,
    id: u32,
    props: crate::registry::Properties,
    g: GraphView,
    channel: Option<Seq<char>>,
    name: Option<Seq<char>>,
    direction: Option<Seq<char>>,
)
    requires
        state.wf(),
        ports_built(g, state.announced(id, crate::registry::ObjectKind::Port, props)),
        g.has_port(PortId(gid(id as u64))),
        crate::registry::holds(props.entries@, "audio.channel"@, channel),
        crate::registry::holds(props.entries@, "port.name"@, name),
        crate::registry::holds(props.entries@, "port.direction"@, direction),
    ensures
        ({
            let port = g.port(PortId(gid(id as u64)));
            &&& port.channel == channel
            &&& name is Some ==> Some(port.name) == name
            &&& port.direction == crate::model::Direction::Source <==> direction == Some("out"@)
        }),
{
    let after = state.announced(id, crate::registry::ObjectKind::Port, props);
    let e = props.entries@;
    crate::registry::law_lookup(e, "node.id"@);
    crate::registry::law_lookup(e, "media.type"@);
    crate::registry::law_lookup(e, "format.dsp"@);
    crate::registry::law_ports_are_mirrored(
        state,
        id,
        props,
        props.spec_get("node.id"@),
        name,
        direction,
        props.spec_get("media.type"@),
        props.spec_get("format.dsp"@),
    );
    crate::registry::lemma_holds_one(
        e,
        "audio.channel"@,
        channel,
        after.ports[id as u64].channel,
    );
    law_graph_has_the_mirrored_ports(g, after, id);
}

/// A mirrored node is in the graph under its own number unless it is a
/// metering stream, with the name, the serial and the description that were
/// mirrored, as an effect just where an effect has its number, and where it
/// was put. What the node leaves open its client says.
pub proof fn law_graph_has_the_mirrored_nodes(
    g: GraphView,
    state: RegistryView,
    effects: Map<u64, String>,
    positions: Map<u64, Position>,
    n: u32,
)
    requires
        nodes_built(g, state, effects, positions),
        state.wf(),
    ensures
        ({
            let id = NodeId(gid(n as u64));
            let record = state.nodes[n as u64];
            let node = g.node(id);
            &&& g.has_node(id) <==> state.nodes.contains_key(n as u64) && !exists|rest: Seq<char>|
                record.name == #[trigger] ("qpwgraph-rs meter"@ + rest)
            &&& g.has_node(id) ==> {
                &&& node.id == id
                &&& node.name == record.name
                &&& node.serial == record.serial
                &&& node.identity.node_name == record.name
                &&& node.identity.description == record.description
                &&& node.identity.object_serial == record.serial
                &&& node.identity.media_name == record.media_name
                &&& node.identity.media_role == record.media_role
                &&& node.identity.object_path == record.object_path
                &&& node.identity.client_id == record.client_id
                &&& node.identity.effect_instance_id == node.effect_instance_id
                &&& effects.contains_key(id.0) ==> node.node_type == NodeType::Effect
                    && node.effect_instance_id == Some(effects[id.0]@)
                &&& !effects.contains_key(id.0) ==> node.node_type == NodeType::PipeWire
                    && node.effect_instance_id is None
                &&& positions.contains_key(id.0) ==> node.position == positions[id.0]
                &&& !positions.contains_key(id.0) ==> node.position.x == 0 && node.position.y == 0
            }
        }),
        forall|k: u64| #[trigger]
            g.nodes.contains_key(k) ==> exists|m: u32|
                k == gid(m as u64) && #[trigger] state.nodes.contains_key(m as u64),
{
    lemma_gid(n as u64);
    crate::text::law_begins_with(state.nodes[n as u64].name, METER_NODE_PREFIX@);
    assert forall|k: u64| #[trigger] g.nodes.contains_key(k) implies exists|m: u32|
        k == gid(m as u64) && #[trigger] state.nodes.contains_key(m as u64) by {
        lemma_gid_back(k);
        let m = local_part(k) as u32;
        assert(state.nodes.contains_key(local_part(k)));
        assert(m as u64 == local_part(k));
    }
}

/// What a node says of itself goes before what its client says, and a client
/// speaks only for its own nodes.
pub proof fn law_clients_fill_in(state: RegistryView, n: u32, effect: Option<Seq<char>>)
    ensures
        ({
            let record = state.nodes[n as u64];
            let identity = identity_of(record, state.client_of(record), effect);
            &&& record.application_id is Some ==> identity.application_id == record.application_id
            &&& record.application_name is Some ==> identity.application_name
                == record.application_name
            &&& record.process_binary is Some ==> identity.process_binary == record.process_binary
            &&& record.client_name is Some ==> identity.client_name == record.client_name
            &&& record.client_api is Some ==> identity.client_api == record.client_api
            &&& forall|c: u32|
                record.client_id == Some(c) && #[trigger] state.clients.contains_key(c as u64)
                    ==> {
                    let client = state.clients[c as u64];
                    &&& record.application_id is None ==> identity.application_id
                        == client.application_id
                    &&& record.application_name is None ==> identity.application_name
                        == client.application_name
                    &&& record.process_binary is None ==> identity.process_binary
                        == client.process_binary
                    &&& record.client_name is None ==> identity.client_name == client.client_name
                    &&& record.client_api is None ==> identity.client_api == client.client_api
                }
            &&& (record.client_id matches Some(c) ==> !state.clients.contains_key(c as u64)) ==> {
                &&& identity.application_id == record.application_id
                &&& identity.application_name == record.application_name
                &&& identity.process_binary == record.process_binary
                &&& identity.client_name == record.client_name
                &&& identity.client_api == record.client_api
            }
        }),
{
}

/// A mirrored link is in the graph where its ports are, from the first to the
/// second and not the other way round, and no other mirrored link with a
/// smaller number joins the same ports.
pub proof fn law_graph_has_the_mirrored_links(g: GraphView, state: RegistryView, n: u32)
    requires
        links_built(g, state),
        state.wf(),
    ensures
        ({
            let id = LinkId(gid(n as u64));
            let record = state.links[n as u64];
            let output = PortId(gid(record.output_port as u64));
            let input = PortId(gid(record.input_port as u64));
            &&& g.has_link(id) ==> {
                &&& state.links.contains_key(n as u64)
                &&& g.link(id).id == id
                &&& g.link(id).output_port == output
                &&& g.link(id).input_port == input
                &&& g.has_port(output) && g.port(output).direction
                    == crate::model::Direction::Source
                &&& g.has_port(input) && g.port(input).direction == crate::model::Direction::Sink
            }
            &&& state.links.contains_key(n as u64) && g.has_port(output) && g.has_port(input)
                && g.port(output).direction == crate::model::Direction::Source && g.port(
                input,
            ).direction == crate::model::Direction::Sink && g.port(output).port_type == g.port(
                input,
            ).port_type && (forall|m: u64| #[trigger]
                state.links.contains_key(m) && m < n ==> state.links[m].output_port
                    != record.output_port || state.links[m].input_port != record.input_port)
                ==> g.has_link(id)
        }),
        forall|k: u64| #[trigger]
            g.links.contains_key(k) ==> exists|m: u32|
                k == gid(m as u64) && #[trigger] state.links.contains_key(m as u64),
{
    lemma_gid(n as u64);
    assert forall|k: u64| #[trigger] g.links.contains_key(k) implies exists|m: u32|
        k == gid(m as u64) && #[trigger] state.links.contains_key(m as u64) by {
        lemma_gid_back(k);
        let m = local_part(k) as u32;
        assert(link_shown(g, state, local_part(k)));
        assert(m as u64 == local_part(k));
    }
}

/// Placing moves a node to where it was put, failing that to its default
/// place, and else leaves it; it changes nothing else, and remembers the
/// default places that it used.
pub proof fn law_placing(
    g: GraphView,
    positions: Map<u64, Position>,
    defaults: Map<u64, Position>,
    k: u64,
)
    ensures
        ({
            let after = placed(g, positions, defaults);
            let kept = remembered(g, positions, defaults);
            &&& after.ports == g.ports
            &&& after.links == g.links
            &&& after.nodes.contains_key(k) <==> g.nodes.contains_key(k)
            &&& g.nodes.contains_key(k) ==> {
                &&& after.nodes[k] == (NodeView { position: after.nodes[k].position, ..g.nodes[k] })
                &&& positions.contains_key(k) ==> after.nodes[k].position == positions[k]
                &&& !positions.contains_key(k) && defaults.contains_key(k)
                    ==> after.nodes[k].position == defaults[k]
                &&& !positions.contains_key(k) && !defaults.contains_key(k)
                    ==> after.nodes[k].position == g.nodes[k].position
                &&& kept.contains_key(k) ==> kept[k] == after.nodes[k].position
            }
            &&& positions.contains_key(k) ==> kept.contains_key(k) && kept[k] == positions[k]
            &&& kept.contains_key(k) ==> positions.contains_key(k) || g.nodes.contains_key(k)
            &&& placed(after, kept, defaults) == after
        }),
{
    let after = placed(g, positions, defaults);
    let kept = remembered(g, positions, defaults);
    assert(placed(after, kept, defaults).nodes =~= after.nodes);
}

} // verus!
