//! The graph: nodes, their ports, and the links between ports.
use crate::ids::{LinkId, NodeId, PortId};
use crate::model::{
    keys_match, port_keys_equal, port_types_compatible, types_compatible, Direction, GraphError,
    Link, Node, NodeView, Port, PortKey, PortKeyView, PortType, PortView, Position,
};
use crate::table::{
    first_key, first_of, keys_of, lemma_first_found, lemma_none_found, lemma_picked_lists,
    lists_domain, lists_keys, picked,
};
use std::collections::BTreeMap;
use vstd::prelude::*;

verus! {

broadcast use vstd::std_specs::btree::group_btree_axioms;

/// Three tables, each keyed by the number of its objects' identifiers.
#[derive(Debug, PartialEq, Eq)]
pub struct Graph {
    pub nodes: BTreeMap<u64, Node>,
    pub ports: BTreeMap<u64, Port>,
    pub links: BTreeMap<u64, Link>,
}

/// The contents of a [`Graph`].
#[verifier::ext_equal]
pub struct GraphView {
    pub nodes: Map<u64, NodeView>,
    pub ports: Map<u64, PortView>,
    pub links: Map<u64, Link>,
}

impl View for Graph {
    type V = GraphView;

    open spec fn view(&self) -> GraphView {
        GraphView {
            nodes: self.nodes@.map_values(|n: Node| n@),
            ports: self.ports@.map_values(|p: Port| p@),
            links: self.links@,
        }
    }
}

impl GraphView {
    pub open spec fn empty() -> GraphView {
        GraphView { nodes: Map::empty(), ports: Map::empty(), links: Map::empty() }
    }

    pub open spec fn has_node(self, id: NodeId) -> bool {
        self.nodes.contains_key(id.0)
    }

    pub open spec fn has_port(self, id: PortId) -> bool {
        self.ports.contains_key(id.0)
    }

    pub open spec fn has_link(self, id: LinkId) -> bool {
        self.links.contains_key(id.0)
    }

    pub open spec fn node(self, id: NodeId) -> NodeView {
        self.nodes[id.0]
    }

    pub open spec fn port(self, id: PortId) -> PortView {
        self.ports[id.0]
    }

    pub open spec fn link(self, id: LinkId) -> Link {
        self.links[id.0]
    }

    /// Some link joins the two ports.
    pub open spec fn connected(self, src: PortId, dst: PortId) -> bool {
        exists|k: u64| #[trigger]
            self.links.contains_key(k) && self.links[k].output_port == src
                && self.links[k].input_port == dst
    }

    /// The endpoints of a link exist, point the right way and carry
    /// compatible media.
    pub open spec fn link_fits(self, link: Link) -> bool {
        &&& self.has_port(link.output_port)
        &&& self.has_port(link.input_port)
        &&& self.port(link.output_port).direction == Direction::Source
        &&& self.port(link.input_port).direction == Direction::Sink
        &&& types_compatible(
            self.port(link.output_port).port_type,
            self.port(link.input_port).port_type,
        )
    }

    /// The tables agree: every object stands under its own identifier, a
    /// node lists exactly its ports and each of them once, every link fits,
    /// and no two links join the same pair of ports.
    pub open spec fn wf(self) -> bool {
        &&& forall|k: u64| #[trigger]
            self.nodes.contains_key(k) ==> self.nodes[k].id.0 == k
                && self.nodes[k].ports.no_duplicates()
        &&& forall|k: u64, p: PortId| #[trigger]
            self.lists(k, p) ==> self.has_port(p) && self.port(p).node_id.0 == k
        &&& forall|k: u64| #[trigger]
            self.ports.contains_key(k) ==> self.ports[k].id.0 == k && self.lists(
                self.ports[k].node_id.0,
                self.ports[k].id,
            )
        &&& forall|k: u64| #[trigger]
            self.links.contains_key(k) ==> self.links[k].id.0 == k && self.link_fits(
                self.links[k],
            )
        &&& forall|a: u64, b: u64|
            #![trigger self.links.contains_key(a), self.links.contains_key(b)]
            self.links.contains_key(a) && self.links.contains_key(b) && self.links[a].output_port
                == self.links[b].output_port && self.links[a].input_port
                == self.links[b].input_port ==> a == b
    }

    /// The node with number `k` exists and lists the port.
    pub open spec fn lists(self, k: u64, p: PortId) -> bool {
        self.nodes.contains_key(k) && self.nodes[k].ports.contains(p)
    }

    /// Adding a node: refused where its identifier is taken; a node enters
    /// without ports.
    pub open spec fn add_node_result(self, node: NodeView) -> Result<GraphView, GraphError> {
        if self.has_node(node.id) {
            Err(GraphError::DuplicateNode(node.id))
        } else {
            Ok(
                GraphView {
                    nodes: self.nodes.insert(
                        node.id.0,
                        NodeView { ports: Seq::empty(), ..node },
                    ),
                    ..self
                },
            )
        }
    }

    /// Adding a port: refused where its identifier is taken or its node is
    /// missing; the node lists it last.
    pub open spec fn add_port_result(self, port: PortView) -> Result<GraphView, GraphError> {
        if self.has_port(port.id) {
            Err(GraphError::DuplicatePort(port.id))
        } else if !self.has_node(port.node_id) {
            Err(GraphError::MissingNode(port.node_id))
        } else {
            let node = self.node(port.node_id);
            Ok(
                GraphView {
                    nodes: self.nodes.insert(
                        port.node_id.0,
                        NodeView { ports: node.ports.push(port.id), ..node },
                    ),
                    ports: self.ports.insert(port.id.0, port),
                    ..self
                },
            )
        }
    }

    /// Adding a link: both ports exist, the first is a source, the second a
    /// sink, their media are compatible, they are not connected yet and the
    /// link's identifier is free, tested in this order.
    pub open spec fn add_link_error(self, link: Link) -> Option<GraphError> {
        let src = link.output_port;
        let dst = link.input_port;
        if !self.has_port(src) {
            Some(GraphError::MissingPort(src))
        } else if !self.has_port(dst) {
            Some(GraphError::MissingPort(dst))
        } else if self.port(src).direction != Direction::Source {
            Some(GraphError::NotSource(src))
        } else if self.port(dst).direction != Direction::Sink {
            Some(GraphError::NotSink(dst))
        } else if !types_compatible(self.port(src).port_type, self.port(dst).port_type) {
            Some(GraphError::IncompatiblePorts(src, dst))
        } else if self.connected(src, dst) {
            Some(GraphError::DuplicateConnection(src, dst))
        } else if self.has_link(link.id) {
            Some(GraphError::DuplicateLink(link.id))
        } else {
            None
        }
    }

    pub open spec fn with_link(self, link: Link) -> GraphView {
        GraphView { links: self.links.insert(link.id.0, link), ..self }
    }

    pub open spec fn without_link(self, id: LinkId) -> GraphView {
        GraphView { links: self.links.remove(id.0), ..self }
    }

    /// The link begins or ends at a port of the node.
    pub open spec fn link_touches(self, link: Link, node: NodeId) -> bool {
        self.port(link.output_port).node_id == node || self.port(link.input_port).node_id == node
    }

    /// The graph without a node, its ports and the links at them.
    pub open spec fn without_node(self, id: NodeId) -> GraphView {
        GraphView {
            nodes: self.nodes.remove(id.0),
            ports: Map::new(
                |k: u64| self.ports.contains_key(k) && self.ports[k].node_id != id,
                |k: u64| self.ports[k],
            ),
            links: Map::new(
                |k: u64| self.links.contains_key(k) && !self.link_touches(self.links[k], id),
                |k: u64| self.links[k],
            ),
        }
    }

    pub open spec fn with_position(self, id: NodeId, position: Position) -> GraphView {
        GraphView {
            nodes: self.nodes.insert(id.0, NodeView { position, ..self.node(id) }),
            ..self
        }
    }

    /// What names a port of the graph across sessions.
    pub open spec fn key_of(self, id: PortId) -> Option<PortKeyView> {
        if self.has_port(id) && self.has_node(self.port(id).node_id) {
            let port = self.port(id);
            let node = self.node(port.node_id);
            Some(
                PortKeyView {
                    node_name: node.name,
                    node_type: node.node_type,
                    port_name: port.name,
                    channel: port.channel,
                    direction: port.direction,
                    port_type: port.port_type,
                },
            )
        } else {
            None
        }
    }

    /// The port that a key names: the one with the smallest identifier whose
    /// own key matches.
    pub open spec fn resolved(self, key: PortKeyView) -> Option<PortId> {
        match first_of(
            self.ports,
            |p: PortView|
                match self.key_of(p.id) {
                    Some(own) => keys_match(own, key),
                    None => false,
                },
        ) {
            Some(k) => Some(PortId(k)),
            None => None,
        }
    }
}

/// A graph keeps its tables in agreement when a node is added.
pub proof fn law_add_node_keeps_wf(g: GraphView, node: NodeView)
    requires
        g.wf(),
    ensures
        g.add_node_result(node) matches Ok(h) ==> h.wf(),
{
    if let Ok(h) = g.add_node_result(node) {
        assert forall|k: u64, p: PortId| #[trigger] h.lists(k, p) implies h.has_port(p) && h.port(
            p,
        ).node_id.0 == k by {
            assert(g.lists(k, p));
        }
        assert forall|k: u64| #[trigger] h.ports.contains_key(k) implies h.ports[k].id.0 == k
            && h.lists(h.ports[k].node_id.0, h.ports[k].id) by {
            assert(g.ports.contains_key(k));
            assert(g.lists(g.ports[k].node_id.0, g.ports[k].id));
        }
        assert forall|k: u64| #[trigger] h.links.contains_key(k) implies h.links[k].id.0 == k
            && h.link_fits(h.links[k]) by {
            assert(g.links.contains_key(k));
        }
    }
}

/// A graph keeps its tables in agreement when a port is added.
pub proof fn law_add_port_keeps_wf(g: GraphView, port: PortView)
    requires
        g.wf(),
    ensures
        g.add_port_result(port) matches Ok(h) ==> h.wf(),
{
    if let Ok(h) = g.add_port_result(port) {
        let owner = port.node_id.0;
        let old_ports = g.nodes[owner].ports;
        assert(!old_ports.contains(port.id)) by {
            if old_ports.contains(port.id) {
                assert(g.lists(owner, port.id));
            }
        }
        assert forall|p: PortId| #[trigger] h.nodes[owner].ports.contains(p) <==> (
        old_ports.contains(p) || p == port.id) by {
            crate::table::lemma_push_contains(old_ports, port.id, p);
        }
        assert forall|k: u64, p: PortId| #[trigger] h.lists(k, p) implies h.has_port(p) && h.port(
            p,
        ).node_id.0 == k by {
            if k == owner && p == port.id {
            } else {
                assert(g.lists(k, p));
            }
        }
        assert forall|k: u64| #[trigger] h.ports.contains_key(k) implies h.ports[k].id.0 == k
            && h.lists(h.ports[k].node_id.0, h.ports[k].id) by {
            if k != port.id.0 {
                assert(g.ports.contains_key(k));
                assert(g.lists(g.ports[k].node_id.0, g.ports[k].id));
            }
        }
        assert forall|k: u64| #[trigger] h.links.contains_key(k) implies h.links[k].id.0 == k
            && h.link_fits(h.links[k]) by {
            assert(g.links.contains_key(k));
        }
    }
}

/// A graph keeps its tables in agreement when an accepted link is added.
pub proof fn law_with_link_keeps_wf(g: GraphView, link: Link)
    requires
        g.wf(),
        g.add_link_error(link) is None,
    ensures
        g.with_link(link).wf(),
{
    let h = g.with_link(link);
    assert forall|k: u64, p: PortId| #[trigger] h.lists(k, p) implies h.has_port(p) && h.port(
        p,
    ).node_id.0 == k by {
        assert(g.lists(k, p));
    }
    assert forall|k: u64| #[trigger] h.ports.contains_key(k) implies h.ports[k].id.0 == k
        && h.lists(h.ports[k].node_id.0, h.ports[k].id) by {
        assert(g.ports.contains_key(k));
        assert(g.lists(g.ports[k].node_id.0, g.ports[k].id));
    }
    assert forall|k: u64| #[trigger] h.links.contains_key(k) implies h.links[k].id.0 == k
        && h.link_fits(h.links[k]) by {
        if k != link.id.0 {
            assert(g.links.contains_key(k));
        }
    }
    assert forall|a: u64, b: u64|
        #![trigger h.links.contains_key(a), h.links.contains_key(b)]
        h.links.contains_key(a) && h.links.contains_key(b) && h.links[a].output_port
            == h.links[b].output_port && h.links[a].input_port == h.links[b].input_port implies a
        == b by {
        if a != link.id.0 {
            assert(g.links.contains_key(a));
        }
        if b != link.id.0 {
            assert(g.links.contains_key(b));
        }
    }
}

/// A graph keeps its tables in agreement when a link is removed.
pub proof fn law_without_link_keeps_wf(g: GraphView, id: LinkId)
    requires
        g.wf(),
    ensures
        g.without_link(id).wf(),
{
    let h = g.without_link(id);
    assert forall|k: u64, p: PortId| #[trigger] h.lists(k, p) implies h.has_port(p) && h.port(
        p,
    ).node_id.0 == k by {
        assert(g.lists(k, p));
    }
    assert forall|k: u64| #[trigger] h.ports.contains_key(k) implies h.ports[k].id.0 == k
        && h.lists(h.ports[k].node_id.0, h.ports[k].id) by {
        assert(g.ports.contains_key(k));
        assert(g.lists(g.ports[k].node_id.0, g.ports[k].id));
    }
    assert forall|k: u64| #[trigger] h.links.contains_key(k) implies h.links[k].id.0 == k
        && h.link_fits(h.links[k]) by {
        assert(g.links.contains_key(k));
    }
    assert forall|a: u64, b: u64|
        #![trigger h.links.contains_key(a), h.links.contains_key(b)]
        h.links.contains_key(a) && h.links.contains_key(b) && h.links[a].output_port
            == h.links[b].output_port && h.links[a].input_port == h.links[b].input_port implies a
        == b by {
        assert(g.links.contains_key(a));
        assert(g.links.contains_key(b));
    }
}

/// A graph keeps its tables in agreement when a node is removed with its
/// ports and their links.
pub proof fn law_without_node_keeps_wf(g: GraphView, id: NodeId)
    requires
        g.wf(),
    ensures
        g.without_node(id).wf(),
{
    let h = g.without_node(id);
    assert forall|k: u64| #[trigger] h.nodes.contains_key(k) implies h.nodes[k].id.0 == k
        && h.nodes[k].ports.no_duplicates() by {
        assert(g.nodes.contains_key(k));
    }
    assert forall|k: u64, p: PortId| #[trigger] h.lists(k, p) implies h.has_port(p) && h.port(
        p,
    ).node_id.0 == k by {
        assert(g.lists(k, p));
        assert(g.port(p).node_id != id);
    }
    assert forall|k: u64| #[trigger] h.ports.contains_key(k) implies h.ports[k].id.0 == k
        && h.lists(h.ports[k].node_id.0, h.ports[k].id) by {
        assert(g.ports.contains_key(k));
        assert(g.lists(g.ports[k].node_id.0, g.ports[k].id));
    }
    assert forall|k: u64| #[trigger] h.links.contains_key(k) implies h.links[k].id.0 == k
        && h.link_fits(h.links[k]) by {
        assert(g.links.contains_key(k));
        assert(!g.link_touches(g.links[k], id));
    }
    assert forall|a: u64, b: u64|
        #![trigger h.links.contains_key(a), h.links.contains_key(b)]
        h.links.contains_key(a) && h.links.contains_key(b) && h.links[a].output_port
            == h.links[b].output_port && h.links[a].input_port == h.links[b].input_port implies a
        == b by {
        assert(g.links.contains_key(a));
        assert(g.links.contains_key(b));
    }
}

/// A graph keeps its tables in agreement when a node moves.
pub proof fn law_with_position_keeps_wf(g: GraphView, id: NodeId, position: Position)
    requires
        g.wf(),
        g.has_node(id),
    ensures
        g.with_position(id, position).wf(),
{
    let h = g.with_position(id, position);
    assert forall|k: u64, p: PortId| #[trigger] h.lists(k, p) implies h.has_port(p) && h.port(
        p,
    ).node_id.0 == k by {
        assert(g.lists(k, p));
    }
    assert forall|k: u64| #[trigger] h.ports.contains_key(k) implies h.ports[k].id.0 == k
        && h.lists(h.ports[k].node_id.0, h.ports[k].id) by {
        assert(g.ports.contains_key(k));
        assert(g.lists(g.ports[k].node_id.0, g.ports[k].id));
    }
    assert forall|k: u64| #[trigger] h.links.contains_key(k) implies h.links[k].id.0 == k
        && h.link_fits(h.links[k]) by {
        assert(g.links.contains_key(k));
    }
}

/// Removing a link that was just added gives back the graph.
pub proof fn law_link_add_remove_is_identity(g: GraphView, link: Link)
    requires
        g.wf(),
        g.add_link_error(link) is None,
    ensures
        g.with_link(link).without_link(link.id) == g,
{
    assert(g.with_link(link).without_link(link.id) =~= g);
}

/// Adding a removed link again is accepted and gives back the graph.
pub proof fn law_link_remove_add_is_identity(g: GraphView, id: LinkId)
    requires
        g.wf(),
        g.has_link(id),
    ensures
        g.without_link(id).add_link_error(g.link(id)) is None,
        g.without_link(id).with_link(g.link(id)) == g,
{
    let link = g.link(id);
    let h = g.without_link(id);
    assert(g.links.contains_key(id.0));
    assert(!h.connected(link.output_port, link.input_port)) by {
        if h.connected(link.output_port, link.input_port) {
            let k = choose|k: u64| #[trigger]
                h.links.contains_key(k) && h.links[k].output_port == link.output_port
                    && h.links[k].input_port == link.input_port;
            assert(g.links.contains_key(k));
        }
    }
    assert(h.with_link(link) =~= g);
}

/// A resolved key names a port of the graph whose own key matches.
pub proof fn lemma_resolved_exists(g: GraphView, key: PortKeyView)
    requires
        g.wf(),
    ensures
        g.resolved(key) matches Some(p) ==> g.has_port(p) && (g.key_of(p) matches Some(own)
            && keys_match(own, key)),
{
    let p = |p: PortView|
        match g.key_of(p.id) {
            Some(own) => keys_match(own, key),
            None => false,
        };
    if exists|k: u64| first_key(g.ports, p, k) {
        let c = choose|k: u64| first_key(g.ports, p, k);
        assert(first_key(g.ports, p, c));
        assert(g.ports.contains_key(c));
    }
}

impl Graph {
    pub open spec fn wf(&self) -> bool {
        self@.wf()
    }

    /// A graph without objects.
    pub fn new() -> (r: Graph)
        ensures
            r@ == GraphView::empty(),
            r.wf(),
    {
        let r = Graph { nodes: BTreeMap::new(), ports: BTreeMap::new(), links: BTreeMap::new() };
        assert(r@ =~= GraphView::empty());
        r
    }

    pub fn node(&self, id: NodeId) -> (r: Option<&Node>)
        ensures
            match r {
                Some(node) => self@.has_node(id) && node@ == self@.node(id),
                None => !self@.has_node(id),
            },
    {
        self.nodes.get(&id.0)
    }

    pub fn port(&self, id: PortId) -> (r: Option<&Port>)
        ensures
            match r {
                Some(port) => self@.has_port(id) && port@ == self@.port(id),
                None => !self@.has_port(id),
            },
    {
        self.ports.get(&id.0)
    }

    pub fn link(&self, id: LinkId) -> (r: Option<Link>)
        ensures
            r == (if self@.has_link(id) {
                Some(self@.link(id))
            } else {
                None
            }),
    {
        match self.links.get(&id.0) {
            Some(link) => Some(*link),
            None => None,
        }
    }

    pub fn add_node(&mut self, node: Node) -> (r: Result<(), GraphError>)
        requires
            old(self).wf(),
        ensures
            final(self).wf(),
            match old(self)@.add_node_result(node@) {
                Ok(next) => r is Ok && final(self)@ == next,
                Err(error) => r == Err::<(), GraphError>(error) && final(self)@ == old(self)@,
            },
    {
        let id = node.id;
        if self.nodes.contains_key(&id.0) {
            return Err(GraphError::DuplicateNode(id));
        }
        proof {
            law_add_node_keeps_wf(self@, node@);
        }
        let ghost before = self@;
        let ghost given = node@;
        let mut stored = node;
        stored.ports = Vec::new();
        self.nodes.insert(id.0, stored);
        assert(self@ =~= before.add_node_result(given)->Ok_0);
        Ok(())
    }

    pub fn add_port(&mut self, port: Port) -> (r: Result<(), GraphError>)
        requires
            old(self).wf(),
        ensures
            final(self).wf(),
            match old(self)@.add_port_result(port@) {
                Ok(next) => r is Ok && final(self)@ == next,
                Err(error) => r == Err::<(), GraphError>(error) && final(self)@ == old(self)@,
            },
    {
        let id = port.id;
        let node_id = port.node_id;
        if self.ports.contains_key(&id.0) {
            return Err(GraphError::DuplicatePort(id));
        }
        let ghost before = self@;
        let ghost raw = self.nodes@;
        proof {
            law_add_port_keeps_wf(self@, port@);
        }
        match self.nodes.remove(&node_id.0) {
            None => {
                assert(self.nodes@ =~= raw);
                assert(self@ =~= before);
                Err(GraphError::MissingNode(node_id))
            },
            Some(taken) => {
                let mut node = taken;
                node.ports.push(id);
                self.nodes.insert(node_id.0, node);
                self.ports.insert(id.0, port);
                assert(self@ =~= before.add_port_result(port@)->Ok_0);
                Ok(())
            },
        }
    }

    /// Whether some link joins the two ports.
    pub fn is_connected(&self, src: PortId, dst: PortId) -> (r: bool)
        ensures
            r == self@.connected(src, dst),
    {
        let keys = keys_of(&self.links);
        let mut i: usize = 0;
        while i < keys.len()
            invariant
                i <= keys.len(),
                lists_domain(keys@, self.links@),
                forall|j: int|
                    0 <= j < i ==> !(self.links@[#[trigger] keys@[j]].output_port == src
                        && self.links@[keys@[j]].input_port == dst),
            decreases keys.len() - i,
        {
            assert(keys@.contains(keys@[i as int]));
            if let Some(link) = self.links.get(&keys[i]) {
                if link.output_port == src && link.input_port == dst {
                    assert(self@.links.contains_key(keys@[i as int]));
                    return true;
                }
            }
            i = i + 1;
        }
        assert(!self@.connected(src, dst)) by {
            if self@.connected(src, dst) {
                let k = choose|k: u64| #[trigger]
                    self@.links.contains_key(k) && self@.links[k].output_port == src
                        && self@.links[k].input_port == dst;
                assert(keys@.contains(k));
            }
        }
        false
    }

    /// Adds a link under an identifier of its own choice.
    pub fn insert_existing_link(&mut self, link: Link) -> (r: Result<(), GraphError>)
        requires
            old(self).wf(),
        ensures
            final(self).wf(),
            match old(self)@.add_link_error(link) {
                None => r is Ok && final(self)@ == old(self)@.with_link(link),
                Some(error) => r == Err::<(), GraphError>(error) && final(self)@ == old(self)@,
            },
    {
        let src = link.output_port;
        let dst = link.input_port;
        let output = match self.ports.get(&src.0) {
            Some(port) => (port.direction, port.port_type),
            None => {
                return Err(GraphError::MissingPort(src));
            },
        };
        let input = match self.ports.get(&dst.0) {
            Some(port) => (port.direction, port.port_type),
            None => {
                return Err(GraphError::MissingPort(dst));
            },
        };
        if output.0 != Direction::Source {
            return Err(GraphError::NotSource(src));
        }
        if input.0 != Direction::Sink {
            return Err(GraphError::NotSink(dst));
        }
        if !port_types_compatible(output.1, input.1) {
            return Err(GraphError::IncompatiblePorts(src, dst));
        }
        if self.is_connected(src, dst) {
            return Err(GraphError::DuplicateConnection(src, dst));
        }
        if self.links.contains_key(&link.id.0) {
            return Err(GraphError::DuplicateLink(link.id));
        }
        proof {
            law_with_link_keeps_wf(self@, link);
        }
        let ghost before = self@;
        self.links.insert(link.id.0, link);
        assert(self@ =~= before.with_link(link));
        Ok(())
    }

    /// Connects two ports under the given link identifier.
    pub fn add_link(&mut self, id: LinkId, src: PortId, dst: PortId) -> (r: Result<
        Link,
        GraphError,
    >)
        requires
            old(self).wf(),
        ensures
            final(self).wf(),
            ({
                let link = Link { id, output_port: src, input_port: dst };
                match old(self)@.add_link_error(link) {
                    None => r == Ok::<Link, GraphError>(link) && final(self)@
                        == old(self)@.with_link(link),
                    Some(error) => r == Err::<Link, GraphError>(error) && final(self)@
                        == old(self)@,
                }
            }),
    {
        let link = Link { id, output_port: src, input_port: dst };
        match self.insert_existing_link(link) {
            Ok(()) => Ok(link),
            Err(error) => Err(error),
        }
    }

    pub fn remove_link(&mut self, id: LinkId) -> (r: Result<Link, GraphError>)
        requires
            old(self).wf(),
        ensures
            final(self).wf(),
            if old(self)@.has_link(id) {
                r == Ok::<Link, GraphError>(old(self)@.link(id)) && final(self)@
                    == old(self)@.without_link(id)
            } else {
                r == Err::<Link, GraphError>(GraphError::MissingLink(id)) && final(self)@
                    == old(self)@
            },
    {
        let ghost before = self@;
        proof {
            law_without_link_keeps_wf(self@, id);
        }
        match self.links.remove(&id.0) {
            Some(link) => {
                assert(self@ =~= before.without_link(id));
                Ok(link)
            },
            None => {
                assert(self@ =~= before);
                Err(GraphError::MissingLink(id))
            },
        }
    }

    /// The identifiers of the links at a node's ports, in ascending order.
    pub fn links_at_node(&self, id: NodeId) -> (r: Vec<u64>)
        requires
            self.wf(),
        ensures
            lists_keys(r@, self@.links, |l: Link| self@.link_touches(l, id)),
    {
        let keys = keys_of(&self.links);
        let ghost p = |l: Link| self@.link_touches(l, id);
        let mut out: Vec<u64> = Vec::new();
        let mut i: usize = 0;
        while i < keys.len()
            invariant
                i <= keys.len(),
                self.wf(),
                lists_domain(keys@, self.links@),
                p == (|l: Link| self@.link_touches(l, id)),
                out@ == picked(keys@, i as int, self.links@, p),
            decreases keys.len() - i,
        {
            let k: u64 = keys[i];
            assert(keys@.contains(k));
            assert(self@.links.contains_key(k));
            let mut touches = false;
            if let Some(link) = self.links.get(&k) {
                if let Some(port) = self.ports.get(&link.output_port.0) {
                    touches = touches || port.node_id == id;
                }
                if let Some(port) = self.ports.get(&link.input_port.0) {
                    touches = touches || port.node_id == id;
                }
            }
            assert(touches == p(self.links@[k]));
            if touches {
                out.push(k);
            }
            i = i + 1;
        }
        proof {
            lemma_picked_lists(keys@, self.links@, p);
        }
        out
    }

    /// Removes a node with its ports and the links at them.
    pub fn remove_node(&mut self, id: NodeId) -> (r: Result<(), GraphError>)
        requires
            old(self).wf(),
        ensures
            final(self).wf(),
            if old(self)@.has_node(id) {
                r is Ok && final(self)@ == old(self)@.without_node(id)
            } else {
                r == Err::<(), GraphError>(GraphError::MissingNode(id)) && final(self)@
                    == old(self)@
            },
    {
        if !self.nodes.contains_key(&id.0) {
            return Err(GraphError::MissingNode(id));
        }
        let ghost before = self@;
        let doomed = self.links_at_node(id);
        let mut i: usize = 0;
        while i < doomed.len()
            invariant
                i <= doomed.len(),
                before.wf(),
                lists_keys(doomed@, before.links, |l: Link| before.link_touches(l, id)),
                self@.nodes == before.nodes,
                self@.ports == before.ports,
                forall|k: u64| #[trigger]
                    self.links@.contains_key(k) <==> before.links.contains_key(k)
                        && !doomed@.take(i as int).contains(k),
                forall|k: u64| #[trigger]
                    self.links@.contains_key(k) ==> self.links@[k] == before.links[k],
            decreases doomed.len() - i,
        {
            self.links.remove(&doomed[i]);
            assert(doomed@.take(i + 1) == doomed@.take(i as int).push(doomed@[i as int]));
            assert forall|k: u64| doomed@.take(i + 1).contains(k) <==> (doomed@.take(
                i as int,
            ).contains(k) || k == doomed@[i as int]) by {
                crate::table::lemma_push_contains(doomed@.take(i as int), doomed@[i as int], k);
            }
            i = i + 1;
        }
        assert(doomed@.take(doomed@.len() as int) == doomed@);
        assert(self@.links =~= before.without_node(id).links) by {
            assert forall|k: u64| self.links@.contains_key(k) <==> before.without_node(
                id,
            ).links.contains_key(k) by {
                let p = |l: Link| before.link_touches(l, id);
                assert(doomed@.contains(k) <==> before.links.contains_key(k) && p(before.links[k]));
            }
        }
        let ports = keys_of(&self.ports);
        let ghost all_ports = self.ports@;
        let mut j: usize = 0;
        while j < ports.len()
            invariant
                j <= ports.len(),
                self@.nodes == before.nodes,
                self@.links == before.without_node(id).links,
                all_ports.map_values(|p: Port| p@) == before.ports,
                lists_domain(ports@, all_ports),
                forall|k: u64| #[trigger]
                    self.ports@.contains_key(k) <==> all_ports.contains_key(k) && !(
                    ports@.take(j as int).contains(k) && all_ports[k].node_id == id),
                forall|k: u64| #[trigger]
                    self.ports@.contains_key(k) ==> self.ports@[k] == all_ports[k],
            decreases ports.len() - j,
        {
            let k: u64 = ports[j];
            assert(ports@.contains(k));
            assert(ports@.take(j + 1) == ports@.take(j as int).push(k));
            assert forall|x: u64| ports@.take(j + 1).contains(x) <==> (ports@.take(
                j as int,
            ).contains(x) || x == k) by {
                crate::table::lemma_push_contains(ports@.take(j as int), k, x);
            }
            assert(!ports@.take(j as int).contains(k)) by {
                let head = ports@.take(j as int);
                if head.contains(k) {
                    let x = choose|x: int| 0 <= x < head.len() && head[x] == k;
                    assert(ports@[x] < ports@[j as int]);
                }
            }
            assert(self.ports@.contains_key(k));
            let belongs = match self.ports.get(&k) {
                Some(port) => port.node_id == id,
                None => false,
            };
            if belongs {
                self.ports.remove(&k);
            }
            j = j + 1;
        }
        assert(ports@.take(ports@.len() as int) == ports@);
        self.nodes.remove(&id.0);
        proof {
            law_without_node_keeps_wf(before, id);
            let target = before.without_node(id);
            assert(self@.ports =~= target.ports) by {
                assert forall|k: u64| self.ports@.contains_key(k) <==> target.ports.contains_key(
                    k,
                ) by {
                    assert(all_ports.contains_key(k) <==> before.ports.contains_key(k));
                    assert(all_ports.contains_key(k) ==> ports@.contains(k));
                }
            }
            assert(self@.nodes =~= target.nodes);
            assert(self@ =~= target);
        }
        Ok(())
    }

    pub fn set_position(&mut self, id: NodeId, position: Position) -> (r: Result<(), GraphError>)
        requires
            old(self).wf(),
        ensures
            final(self).wf(),
            if old(self)@.has_node(id) {
                r is Ok && final(self)@ == old(self)@.with_position(id, position)
            } else {
                r == Err::<(), GraphError>(GraphError::MissingNode(id)) && final(self)@
                    == old(self)@
            },
    {
        let ghost before = self@;
        match self.nodes.remove(&id.0) {
            None => {
                assert(self@ =~= before);
                Err(GraphError::MissingNode(id))
            },
            Some(taken) => {
                let mut node = taken;
                node.position = position;
                self.nodes.insert(id.0, node);
                proof {
                    law_with_position_keeps_wf(before, id, position);
                    assert(self@ =~= before.with_position(id, position));
                }
                Ok(())
            },
        }
    }

    /// What names a port across sessions.
    pub fn port_key(&self, id: PortId) -> (r: Option<PortKey>)
        ensures
            match r {
                Some(key) => self@.key_of(id) == Some(key@),
                None => self@.key_of(id) is None,
            },
    {
        match self.ports.get(&id.0) {
            None => None,
            Some(port) => match self.nodes.get(&port.node_id.0) {
                None => None,
                Some(node) => {
                    Some(
                        PortKey {
                            node_name: node.name.clone(),
                            node_type: node.node_type,
                            port_name: port.name.clone(),
                            channel: crate::model::clone_opt(&port.channel),
                            direction: port.direction,
                            port_type: port.port_type,
                        },
                    )
                },
            },
        }
    }

    /// The port that a key names.
    pub fn resolve_port_key(&self, key: &PortKey) -> (r: Option<PortId>)
        requires
            self.wf(),
        ensures
            r == self@.resolved(key@),
    {
        let keys = keys_of(&self.ports);
        let ghost p = |p: PortView|
            match self@.key_of(p.id) {
                Some(own) => keys_match(own, key@),
                None => false,
            };
        assert(lists_domain(keys@, self@.ports)) by {
            assert forall|k: u64| #[trigger] keys@.contains(k) <==> self@.ports.contains_key(k) by {
                assert(keys@.contains(k) <==> self.ports@.contains_key(k));
            }
        }
        let mut i: usize = 0;
        while i < keys.len()
            invariant
                i <= keys.len(),
                self.wf(),
                lists_domain(keys@, self@.ports),
                p == (|p: PortView|
                    match self@.key_of(p.id) {
                        Some(own) => keys_match(own, key@),
                        None => false,
                    }),
                forall|j: int| 0 <= j < i ==> !p(#[trigger] self@.ports[keys@[j]]),
            decreases keys.len() - i,
        {
            let id = PortId(keys[i]);
            assert(keys@.contains(id.0));
            assert(self@.ports.contains_key(id.0));
            if let Some(own) = self.port_key(id) {
                if port_keys_equal(&own, key) {
                    proof {
                        lemma_first_found(keys@, self@.ports, p, i as int);
                    }
                    return Some(id);
                }
            }
            i = i + 1;
        }
        proof {
            lemma_none_found(keys@, self@.ports, p);
        }
        None
    }

    /// A copy with the same contents.
    pub fn duplicate(&self) -> (r: Graph)
        ensures
            r@ == self@,
    {
        let mut out = Graph {
            nodes: BTreeMap::new(),
            ports: BTreeMap::new(),
            links: BTreeMap::new(),
        };
        let node_keys = keys_of(&self.nodes);
        let mut i: usize = 0;
        while i < node_keys.len()
            invariant
                i <= node_keys.len(),
                lists_domain(node_keys@, self.nodes@),
                out.ports@ == Map::<u64, Port>::empty(),
                out.links@ == Map::<u64, Link>::empty(),
                forall|k: u64| #[trigger]
                    out.nodes@.contains_key(k) <==> node_keys@.take(i as int).contains(k),
                forall|k: u64| #[trigger]
                    out.nodes@.contains_key(k) ==> self.nodes@.contains_key(k) && out.nodes@[k]@
                        == self.nodes@[k]@,
            decreases node_keys.len() - i,
        {
            let k: u64 = node_keys[i];
            assert(node_keys@.contains(k));
            assert(node_keys@.take(i + 1) == node_keys@.take(i as int).push(k));
            assert forall|x: u64| node_keys@.take(i + 1).contains(x) <==> (node_keys@.take(
                i as int,
            ).contains(x) || x == k) by {
                crate::table::lemma_push_contains(node_keys@.take(i as int), k, x);
            }
            if let Some(node) = self.nodes.get(&k) {
                out.nodes.insert(k, node.duplicate());
            }
            i = i + 1;
        }
        assert(node_keys@.take(node_keys@.len() as int) == node_keys@);
        assert(out@.nodes =~= self@.nodes) by {
            assert forall|k: u64| out@.nodes.contains_key(k) <==> self@.nodes.contains_key(k) by {
                assert(out.nodes@.contains_key(k) <==> node_keys@.contains(k));
            }
        }
        let port_keys = keys_of(&self.ports);
        let mut j: usize = 0;
        while j < port_keys.len()
            invariant
                j <= port_keys.len(),
                lists_domain(port_keys@, self.ports@),
                out@.nodes == self@.nodes,
                out.links@ == Map::<u64, Link>::empty(),
                forall|k: u64| #[trigger]
                    out.ports@.contains_key(k) <==> port_keys@.take(j as int).contains(k),
                forall|k: u64| #[trigger]
                    out.ports@.contains_key(k) ==> self.ports@.contains_key(k) && out.ports@[k]
                        == self.ports@[k],
            decreases port_keys.len() - j,
        {
            let k: u64 = port_keys[j];
            assert(port_keys@.contains(k));
            assert(port_keys@.take(j + 1) == port_keys@.take(j as int).push(k));
            assert forall|x: u64| port_keys@.take(j + 1).contains(x) <==> (port_keys@.take(
                j as int,
            ).contains(x) || x == k) by {
                crate::table::lemma_push_contains(port_keys@.take(j as int), k, x);
            }
            if let Some(port) = self.ports.get(&k) {
                out.ports.insert(k, port.duplicate());
            }
            j = j + 1;
        }
        assert(port_keys@.take(port_keys@.len() as int) == port_keys@);
        assert(out@.ports =~= self@.ports) by {
            assert forall|k: u64| out@.ports.contains_key(k) <==> self@.ports.contains_key(k) by {
                assert(out.ports@.contains_key(k) <==> port_keys@.contains(k));
            }
        }
        out.links = self.links.clone();
        out
    }
}

/// A node lists exactly the ports that name it as their node.
pub proof fn law_ports_of_a_node(g: GraphView, node: NodeId, p: PortId)
    requires
        g.wf(),
    ensures
        g.has_port(p) ==> g.has_node(g.port(p).node_id) && g.port(p).id == p,
        g.has_node(node) ==> (g.node(node).ports.contains(p) <==> g.has_port(p) && g.port(
            p,
        ).node_id == node),
{
    if g.has_port(p) {
        assert(g.lists(g.port(p).node_id.0, g.port(p).id));
    }
    if g.has_node(node) && g.node(node).ports.contains(p) {
        assert(g.lists(node.0, p));
    }
}

/// The key of a port holds the port's name, direction, type and channel, and
/// the name and the type of its node. Only a port of the graph has one.
pub proof fn law_key_of(g: GraphView, p: PortId)
    requires
        g.wf(),
    ensures
        match g.key_of(p) {
            Some(key) => {
                &&& g.has_port(p)
                &&& key.node_name == g.node(g.port(p).node_id).name
                &&& key.node_type == g.node(g.port(p).node_id).node_type
                &&& key.port_name == g.port(p).name
                &&& key.channel == g.port(p).channel
                &&& key.direction == g.port(p).direction
                &&& key.port_type == g.port(p).port_type
            },
            None => !g.has_port(p),
        },
{
    if g.has_port(p) {
        law_ports_of_a_node(g, g.port(p).node_id, p);
    }
}

/// The port bears the key: names, types and directions agree, and so does the
/// channel where both have one.
pub open spec fn bears_key(g: GraphView, p: PortId, key: PortKeyView) -> bool {
    let port = g.port(p);
    let node = g.node(port.node_id);
    &&& g.has_port(p)
    &&& node.name == key.node_name
    &&& node.node_type == key.node_type
    &&& port.name == key.port_name
    &&& port.direction == key.direction
    &&& port.port_type == key.port_type
    &&& port.channel is None || key.channel is None || port.channel == key.channel
}

/// A key leads to the first port that bears it, and to none just where no
/// port bears it.
pub proof fn law_resolution(g: GraphView, key: PortKeyView)
    requires
        g.wf(),
    ensures
        match g.resolved(key) {
            Some(p) => bears_key(g, p, key) && forall|q: PortId| #[trigger]
                bears_key(g, q, key) ==> p.0 <= q.0,
            None => forall|q: PortId| !#[trigger] bears_key(g, q, key),
        },
{
    let p = |p: PortView|
        match g.key_of(p.id) {
            Some(own) => keys_match(own, key),
            None => false,
        };
    crate::table::law_first_of(g.ports, p);
    assert forall|q: PortId| #[trigger] bears_key(g, q, key) implies p(g.port(q)) by {
        law_ports_of_a_node(g, g.port(q).node_id, q);
    }
    if let Some(k) = first_of(g.ports, p) {
        law_ports_of_a_node(g, g.ports[k].node_id, PortId(k));
        assert(bears_key(g, PortId(k), key));
        assert forall|q: PortId| #[trigger] bears_key(g, q, key) implies k <= q.0 by {
            assert(p(g.ports[q.0]));
        }
    } else {
        assert forall|q: PortId| !#[trigger] bears_key(g, q, key) by {
            if bears_key(g, q, key) {
                assert(p(g.ports[q.0]));
            }
        }
    }
}

/// A port that alone bears its key is found again by it.
pub proof fn law_keys_lead_back(g: GraphView, p: PortId)
    requires
        g.wf(),
        g.has_port(p),
        forall|q: PortId| #[trigger] bears_key(g, q, g.key_of(p)->Some_0) ==> q == p,
    ensures
        g.key_of(p) is Some,
        g.resolved(g.key_of(p)->Some_0) == Some(p),
{
    law_key_of(g, p);
    law_resolution(g, g.key_of(p)->Some_0);
    assert(bears_key(g, p, g.key_of(p)->Some_0));
}

/// A link is taken exactly where both ports are there, the first gives and the
/// second takes, what they carry fits, nothing connects them yet and the
/// number is free.
pub proof fn law_accepted_links(g: GraphView, link: Link)
    ensures
        g.add_link_error(link) is None <==> {
            &&& g.has_port(link.output_port) && g.has_port(link.input_port)
            &&& g.port(link.output_port).direction == Direction::Source
            &&& g.port(link.input_port).direction == Direction::Sink
            &&& g.port(link.output_port).port_type == g.port(link.input_port).port_type || g.port(
                link.output_port,
            ).port_type == PortType::Unknown || g.port(link.input_port).port_type
                == PortType::Unknown
            &&& forall|k: u64| #[trigger]
                g.links.contains_key(k) ==> g.links[k].output_port != link.output_port
                    || g.links[k].input_port != link.input_port
            &&& !g.links.contains_key(link.id.0)
        },
        g.add_link_error(link) matches Some(GraphError::MissingPort(p)) ==> !g.has_port(p) && (p
            == link.output_port || p == link.input_port),
        g.add_link_error(link) matches Some(GraphError::DuplicateConnection(a, b)) ==> a
            == link.output_port && b == link.input_port && g.connected(a, b),
{
}

/// Adding a link adds that link; taking one away takes that one away. Nothing
/// else changes.
pub proof fn law_links_come_and_go(g: GraphView, link: Link, k: u64)
    ensures
        ({
            let with = g.with_link(link);
            let without = g.without_link(link.id);
            &&& with.has_link(link.id) && with.link(link.id) == link
            &&& !without.has_link(link.id)
            &&& k != link.id.0 ==> (with.links.contains_key(k) <==> g.links.contains_key(k)) && (
            without.links.contains_key(k) <==> g.links.contains_key(k))
            &&& k != link.id.0 && g.links.contains_key(k) ==> with.links[k] == g.links[k]
                && without.links[k] == g.links[k]
            &&& with.nodes == g.nodes && with.ports == g.ports
            &&& without.nodes == g.nodes && without.ports == g.ports
        }),
{
}

/// Removing a node removes it, its ports and the links at them, and nothing
/// else.
pub proof fn law_removed_nodes(g: GraphView, id: NodeId, k: u64)
    requires
        g.wf(),
    ensures
        ({
            let after = g.without_node(id);
            &&& after.nodes.contains_key(k) <==> g.nodes.contains_key(k) && k != id.0
            &&& after.nodes.contains_key(k) ==> after.nodes[k] == g.nodes[k]
            &&& after.ports.contains_key(k) <==> g.ports.contains_key(k) && g.ports[k].node_id != id
            &&& after.ports.contains_key(k) ==> after.ports[k] == g.ports[k]
            &&& after.links.contains_key(k) <==> g.links.contains_key(k) && g.port(
                g.links[k].output_port,
            ).node_id != id && g.port(g.links[k].input_port).node_id != id
            &&& after.links.contains_key(k) ==> after.links[k] == g.links[k]
        }),
{
}

/// A node is added without ports; a port is added at the end of its node.
/// Nothing else changes.
pub proof fn law_added_objects(g: GraphView, node: NodeView, port: PortView, k: u64)
    ensures
        match g.add_node_result(node) {
            Ok(h) => {
                &&& !g.has_node(node.id)
                &&& h.has_node(node.id)
                &&& h.node(node.id) == (NodeView { ports: Seq::empty(), ..node })
                &&& h.ports == g.ports && h.links == g.links
                &&& k != node.id.0 ==> (h.nodes.contains_key(k) <==> g.nodes.contains_key(k)) && (
                g.nodes.contains_key(k) ==> h.nodes[k] == g.nodes[k])
            },
            Err(error) => g.has_node(node.id) && error == GraphError::DuplicateNode(node.id),
        },
        match g.add_port_result(port) {
            Ok(h) => {
                &&& !g.has_port(port.id)
                &&& g.has_node(port.node_id)
                &&& h.has_port(port.id)
                &&& h.port(port.id) == port
                &&& h.node(port.node_id).ports == g.node(port.node_id).ports.push(port.id)
                &&& h.node(port.node_id) == (NodeView {
                    ports: h.node(port.node_id).ports,
                    ..g.node(port.node_id)
                })
                &&& h.links == g.links
                &&& k != port.id.0 ==> (h.ports.contains_key(k) <==> g.ports.contains_key(k)) && (
                g.ports.contains_key(k) ==> h.ports[k] == g.ports[k])
                &&& k != port.node_id.0 ==> (h.nodes.contains_key(k) <==> g.nodes.contains_key(k))
                    && (g.nodes.contains_key(k) ==> h.nodes[k] == g.nodes[k])
            },
            Err(error) => {
                ||| g.has_port(port.id) && error == GraphError::DuplicatePort(port.id)
                ||| !g.has_port(port.id) && !g.has_node(port.node_id) && error
                    == GraphError::MissingNode(port.node_id)
            },
        },
{
}

/// Moving a node moves that node and changes nothing else.
pub proof fn law_moved_nodes(g: GraphView, id: NodeId, position: Position, k: u64)
    requires
        g.has_node(id),
    ensures
        ({
            let after = g.with_position(id, position);
            &&& after.node(id) == (NodeView { position, ..g.node(id) })
            &&& after.nodes.contains_key(k) <==> g.nodes.contains_key(k)
            &&& k != id.0 && g.nodes.contains_key(k) ==> after.nodes[k] == g.nodes[k]
            &&& after.ports == g.ports && after.links == g.links
            &&& after.with_position(id, g.node(id).position) == g
        }),
{
    let back = g.with_position(id, position).with_position(id, g.node(id).position);
    assert(back.nodes =~= g.nodes);
}

/// A refused link is refused for what is wrong with it, and the refusal names
/// what is wrong: the missing port, the port that points the wrong way, the
/// two ports in their order, or the link.
pub proof fn law_refused_links(g: GraphView, link: Link)
    ensures
        match g.add_link_error(link) {
            Some(GraphError::MissingPort(p)) => !g.has_port(p) && (p == link.output_port || (p
                == link.input_port && g.has_port(link.output_port))),
            Some(GraphError::NotSource(p)) => p == link.output_port && g.has_port(p)
                && g.port(p).direction == Direction::Sink,
            Some(GraphError::NotSink(p)) => p == link.input_port && g.has_port(p)
                && g.port(p).direction == Direction::Source,
            Some(GraphError::IncompatiblePorts(a, b)) => {
                &&& a == link.output_port && b == link.input_port
                &&& g.port(a).port_type != g.port(b).port_type
                &&& g.port(a).port_type != PortType::Unknown
                &&& g.port(b).port_type != PortType::Unknown
            },
            Some(GraphError::DuplicateConnection(a, b)) => a == link.output_port && b
                == link.input_port && exists|k: u64| #[trigger]
                g.links.contains_key(k) && g.links[k].output_port == a && g.links[k].input_port
                    == b,
            Some(GraphError::DuplicateLink(id)) => id == link.id && g.links.contains_key(id.0),
            Some(_) => false,
            None => true,
        },
{
}

} // verus!
