//! Putting a processing node into a connection and taking it out again, as
//! changes that happen as a whole or not at all.
use crate::effect_model::{ends_of, insertion_point};
use crate::graph::{
    law_link_remove_add_is_identity, law_with_link_keeps_wf, law_without_link_keeps_wf,
    lemma_resolved_exists, Graph, GraphView,
};
use crate::ids::{LinkId, NodeId, PortId};
use crate::model::{
    keys_match, types_compatible, Direction, GraphError, Link, Node, NodeView, Port, PortKeyView,
    PortType, PortView,
};
use crate::relay_playback::{joining, lemma_joining_holds};
use crate::table::{
    first_key, first_of, keys_of, lemma_picked_lists, lemma_push_contains, lists_domain,
    lists_keys, picked,
};
use vstd::prelude::*;

verus! {

broadcast use vstd::std_specs::btree::group_btree_axioms;

/// The input of a processing node.
pub open spec fn input_of(node: NodeId, id: PortId) -> PortView {
    PortView {
        id,
        node_id: node,
        name: "input"@,
        direction: Direction::Sink,
        port_type: PortType::Audio,
        channel: None,
    }
}

/// The output of a processing node.
pub open spec fn output_of(node: NodeId, id: PortId) -> PortView {
    PortView {
        id,
        node_id: node,
        name: "output"@,
        direction: Direction::Source,
        port_type: PortType::Audio,
        channel: None,
    }
}

/// A graph with one more node that has an audio input and an audio output.
pub open spec fn hosted(g: GraphView, node: NodeView, input: PortId, output: PortId) -> GraphView {
    GraphView {
        nodes: g.nodes.insert(node.id.0, NodeView { ports: seq![input, output], ..node }),
        ports: g.ports.insert(input.0, input_of(node.id, input)).insert(
            output.0,
            output_of(node.id, output),
        ),
        links: g.links,
    }
}

/// Why a processing node cannot be added.
pub open spec fn host_error(g: GraphView, node: NodeId, input: PortId, output: PortId) -> Option<
    GraphError,
> {
    if g.has_node(node) {
        Some(GraphError::DuplicateNode(node))
    } else if g.has_port(input) {
        Some(GraphError::DuplicatePort(input))
    } else if g.has_port(output) {
        Some(GraphError::DuplicatePort(output))
    } else {
        None
    }
}

/// The node stands with exactly this input and output, or nothing of it does.
pub open spec fn node_fits(g: GraphView, node: NodeId, input: PortId, output: PortId) -> bool {
    ||| {
        &&& g.has_node(node)
        &&& g.node(node).ports == seq![input, output]
        &&& g.port(input).direction == Direction::Sink
        &&& g.port(output).direction == Direction::Source
    }
    ||| {
        &&& !g.has_node(node)
        &&& !g.has_port(input)
        &&& !g.has_port(output)
    }
}

proof fn lemma_hosted_steps(g: GraphView, node: NodeView, input: PortId, output: PortId)
    requires
        g.wf(),
        node.ports == Seq::<PortId>::empty(),
        input != output,
        host_error(g, node.id, input, output) is None,
    ensures
        ({
            let a = g.add_node_result(node)->Ok_0;
            let b = a.add_port_result(input_of(node.id, input))->Ok_0;
            let c = b.add_port_result(output_of(node.id, output))->Ok_0;
            &&& g.add_node_result(node) is Ok
            &&& a.add_port_result(input_of(node.id, input)) is Ok
            &&& b.add_port_result(output_of(node.id, output)) is Ok
            &&& c == hosted(g, node, input, output)
        }),
{
    let a = g.add_node_result(node)->Ok_0;
    let b = a.add_port_result(input_of(node.id, input))->Ok_0;
    let c = b.add_port_result(output_of(node.id, output))->Ok_0;
    assert(b.nodes[node.id.0].ports =~= seq![input]);
    assert(c.nodes[node.id.0].ports =~= seq![input, output]);
    assert(c =~= hosted(g, node, input, output));
}

/// Adding a processing node keeps the tables in agreement, and the node fits.
pub proof fn lemma_hosted_wf(g: GraphView, node: NodeView, input: PortId, output: PortId)
    requires
        g.wf(),
        node.ports == Seq::<PortId>::empty(),
        input != output,
        host_error(g, node.id, input, output) is None,
    ensures
        hosted(g, node, input, output).wf(),
        node_fits(hosted(g, node, input, output), node.id, input, output),
{
    lemma_hosted_steps(g, node, input, output);
    let a = g.add_node_result(node)->Ok_0;
    let b = a.add_port_result(input_of(node.id, input))->Ok_0;
    crate::graph::law_add_node_keeps_wf(g, node);
    crate::graph::law_add_port_keeps_wf(a, input_of(node.id, input));
    crate::graph::law_add_port_keeps_wf(b, output_of(node.id, output));
}

/// No link of a graph ends at a port that the graph does not have.
proof fn lemma_no_link_at(g: GraphView, p: PortId, k: u64)
    requires
        g.wf(),
        !g.has_port(p),
        g.links.contains_key(k),
    ensures
        g.links[k].output_port != p,
        g.links[k].input_port != p,
{
    assert(g.link_fits(g.links[k]));
}

/// Taking out a processing node that was just added gives back the graph.
pub proof fn law_host_remove_is_identity(
    g: GraphView,
    node: NodeView,
    input: PortId,
    output: PortId,
)
    requires
        g.wf(),
        input != output,
        host_error(g, node.id, input, output) is None,
    ensures
        hosted(g, node, input, output).without_node(node.id) == g,
{
    let h = hosted(g, node, input, output);
    let w = h.without_node(node.id);
    assert forall|k: u64| #[trigger] g.ports.contains_key(k) implies g.ports[k].node_id
        != node.id by {
        assert(g.lists(g.ports[k].node_id.0, g.ports[k].id));
    }
    assert(w.nodes =~= g.nodes);
    assert(w.ports =~= g.ports);
    assert forall|k: u64| #[trigger] g.links.contains_key(k) implies !h.link_touches(
        g.links[k],
        node.id,
    ) by {
        lemma_no_link_at(g, input, k);
        lemma_no_link_at(g, output, k);
        let l = g.links[k];
        assert(g.link_fits(l));
        assert(g.ports.contains_key(l.output_port.0));
        assert(g.ports.contains_key(l.input_port.0));
    }
    assert(w.links =~= g.links);
    assert(w =~= g);
}

/// Adds a node with an audio input and an audio output, or nothing.
pub fn host_node(graph: &mut Graph, node: Node, input: PortId, output: PortId) -> (r: Result<
    (),
    GraphError,
>)
    requires
        old(graph).wf(),
        node@.ports == Seq::<PortId>::empty(),
        input != output,
    ensures
        final(graph).wf(),
        match host_error(old(graph)@, node@.id, input, output) {
            Some(error) => r == Err::<(), GraphError>(error) && final(graph)@ == old(graph)@,
            None => r is Ok && final(graph)@ == hosted(old(graph)@, node@, input, output),
        },
{
    let id = node.id;
    if graph.nodes.contains_key(&id.0) {
        return Err(GraphError::DuplicateNode(id));
    }
    if graph.ports.contains_key(&input.0) {
        return Err(GraphError::DuplicatePort(input));
    }
    if graph.ports.contains_key(&output.0) {
        return Err(GraphError::DuplicatePort(output));
    }
    proof {
        lemma_hosted_steps(graph@, node@, input, output);
    }
    let _ = graph.add_node(node);
    let _ = graph.add_port(Port::new(input, id, "input", Direction::Sink, PortType::Audio));
    let _ = graph.add_port(Port::new(output, id, "output", Direction::Source, PortType::Audio));
    Ok(())
}

/// The graph with a link replaced by two links through a processing node.
pub open spec fn spliced(
    g: GraphView,
    original: Link,
    first: LinkId,
    second: LinkId,
    input: PortId,
    output: PortId,
) -> GraphView {
    g.without_link(original.id).with_link(
        Link { id: first, output_port: original.output_port, input_port: input },
    ).with_link(Link { id: second, output_port: output, input_port: original.input_port })
}

/// Why a processing node cannot be put into a link: what the link carries is
/// not audio.
pub open spec fn splice_error(
    g: GraphView,
    original: Link,
    input: PortId,
    output: PortId,
) -> Option<GraphError> {
    if !types_compatible(g.port(original.output_port).port_type, PortType::Audio) {
        Some(GraphError::IncompatiblePorts(original.output_port, input))
    } else if !types_compatible(PortType::Audio, g.port(original.input_port).port_type) {
        Some(GraphError::IncompatiblePorts(output, original.input_port))
    } else {
        None
    }
}

/// The node stands with an audio input and output to which nothing is linked.
pub open spec fn node_is_free(g: GraphView, node: NodeId, input: PortId, output: PortId) -> bool {
    &&& g.has_port(input)
    &&& g.has_port(output)
    &&& g.port(input) == input_of(node, input)
    &&& g.port(output) == output_of(node, output)
    &&& forall|k: u64| #[trigger]
        g.links.contains_key(k) ==> g.links[k].output_port != output && g.links[k].input_port
            != input
}

/// A node that was just added is free.
pub proof fn lemma_hosted_is_free(g: GraphView, node: NodeView, input: PortId, output: PortId)
    requires
        g.wf(),
        input != output,
        host_error(g, node.id, input, output) is None,
    ensures
        node_is_free(hosted(g, node, input, output), node.id, input, output),
{
    let h = hosted(g, node, input, output);
    assert forall|k: u64| #[trigger] h.links.contains_key(k) implies h.links[k].output_port
        != output && h.links[k].input_port != input by {
        assert(g.links.contains_key(k));
        lemma_no_link_at(g, input, k);
        lemma_no_link_at(g, output, k);
    }
}

proof fn lemma_splice_steps(
    g: GraphView,
    node: NodeId,
    original: Link,
    first: LinkId,
    second: LinkId,
    input: PortId,
    output: PortId,
)
    requires
        g.wf(),
        input != output,
        node_is_free(g, node, input, output),
        g.has_link(original.id),
        g.link(original.id) == original,
        first != second,
        !g.has_link(first),
        !g.has_link(second),
    ensures
        ({
            let a = g.without_link(original.id);
            let one = Link { id: first, output_port: original.output_port, input_port: input };
            let b = a.with_link(one);
            let two = Link { id: second, output_port: output, input_port: original.input_port };
            &&& a.add_link_error(one) == (if types_compatible(
                g.port(original.output_port).port_type,
                PortType::Audio,
            ) {
                None::<GraphError>
            } else {
                Some(GraphError::IncompatiblePorts(original.output_port, input))
            })
            &&& b.add_link_error(two) == (if types_compatible(
                PortType::Audio,
                g.port(original.input_port).port_type,
            ) {
                None::<GraphError>
            } else {
                Some(GraphError::IncompatiblePorts(output, original.input_port))
            })
        }),
{
    let a = g.without_link(original.id);
    let one = Link { id: first, output_port: original.output_port, input_port: input };
    let b = a.with_link(one);
    let two = Link { id: second, output_port: output, input_port: original.input_port };
    assert(g.links.contains_key(original.id.0));
    assert(g.link_fits(original));
    assert(!a.connected(one.output_port, one.input_port)) by {
        if a.connected(one.output_port, one.input_port) {
            let k = choose|k: u64| #[trigger]
                a.links.contains_key(k) && a.links[k].output_port == one.output_port
                    && a.links[k].input_port == one.input_port;
            assert(g.links.contains_key(k));
        }
    }
    assert(!b.connected(two.output_port, two.input_port)) by {
        if b.connected(two.output_port, two.input_port) {
            let k = choose|k: u64| #[trigger]
                b.links.contains_key(k) && b.links[k].output_port == two.output_port
                    && b.links[k].input_port == two.input_port;
            if k == first.0 {
                assert(g.port(output).direction == Direction::Source);
                assert(original.output_port == output);
            } else {
                assert(g.links.contains_key(k));
            }
        }
    }
}

/// Replaces a link by two links through a free processing node, or changes
/// nothing.
pub fn splice(
    graph: &mut Graph,
    node: NodeId,
    original: Link,
    first: LinkId,
    second: LinkId,
    input: PortId,
    output: PortId,
) -> (r: Result<(), GraphError>)
    requires
        old(graph).wf(),
        input != output,
        node_is_free(old(graph)@, node, input, output),
        old(graph)@.has_link(original.id),
        old(graph)@.link(original.id) == original,
        first != second,
        !old(graph)@.has_link(first),
        !old(graph)@.has_link(second),
    ensures
        final(graph).wf(),
        match splice_error(old(graph)@, original, input, output) {
            Some(error) => r == Err::<(), GraphError>(error) && final(graph)@ == old(graph)@,
            None => r is Ok && final(graph)@ == spliced(
                old(graph)@,
                original,
                first,
                second,
                input,
                output,
            ),
        },
{
    let ghost g = graph@;
    proof {
        lemma_splice_steps(g, node, original, first, second, input, output);
        law_link_remove_add_is_identity(g, original.id);
    }
    let _ = graph.remove_link(original.id);
    let ghost a = graph@;
    if let Err(error) = graph.add_link(first, original.output_port, input) {
        let _ = graph.insert_existing_link(original);
        return Err(error);
    }
    if let Err(error) = graph.add_link(second, output, original.input_port) {
        proof {
            let one = Link { id: first, output_port: original.output_port, input_port: input };
            crate::graph::law_link_add_remove_is_identity(a, one);
        }
        let _ = graph.remove_link(first);
        let _ = graph.insert_existing_link(original);
        return Err(error);
    }
    Ok(())
}

/// The link begins or ends at the node's ports.
pub open spec fn uses_ports(link: Link, input: PortId, output: PortId) -> bool {
    link.output_port == output || link.input_port == input
}

/// The graph without the links at a processing node.
pub open spec fn unlinked(g: GraphView, input: PortId, output: PortId) -> GraphView {
    GraphView {
        links: Map::new(
            |k: u64| g.links.contains_key(k) && !uses_ports(g.links[k], input, output),
            |k: u64| g.links[k],
        ),
        ..g
    }
}

/// The links at a processing node, in ascending order.
pub fn links_touching(graph: &Graph, input: PortId, output: PortId) -> (r: Vec<u64>)
    ensures
        lists_keys(r@, graph@.links, |l: Link| uses_ports(l, input, output)),
{
    let keys = keys_of(&graph.links);
    let ghost p = |l: Link| uses_ports(l, input, output);
    let mut out: Vec<u64> = Vec::new();
    let mut i: usize = 0;
    while i < keys.len()
        invariant
            i <= keys.len(),
            lists_domain(keys@, graph@.links),
            p == (|l: Link| uses_ports(l, input, output)),
            out@ == picked(keys@, i as int, graph@.links, p),
        decreases keys.len() - i,
    {
        let k: u64 = keys[i];
        assert(keys@.contains(k));
        if let Some(link) = graph.links.get(&k) {
            if link.output_port == output || link.input_port == input {
                out.push(k);
            }
        }
        i = i + 1;
    }
    proof {
        lemma_picked_lists(keys@, graph@.links, p);
    }
    out
}

fn remove_links_touching(graph: &mut Graph, input: PortId, output: PortId)
    requires
        old(graph).wf(),
    ensures
        final(graph).wf(),
        final(graph)@ == unlinked(old(graph)@, input, output),
{
    let ghost before = graph@;
    let doomed = links_touching(graph, input, output);
    let mut i: usize = 0;
    while i < doomed.len()
        invariant
            i <= doomed.len(),
            graph.wf(),
            graph@.nodes == before.nodes,
            graph@.ports == before.ports,
            forall|k: u64| #[trigger]
                graph@.links.contains_key(k) <==> before.links.contains_key(k) && !doomed@.take(
                    i as int,
                ).contains(k),
            forall|k: u64| #[trigger]
                graph@.links.contains_key(k) ==> graph@.links[k] == before.links[k],
        decreases doomed.len() - i,
    {
        let ghost was = graph@;
        let _ = graph.remove_link(LinkId(doomed[i]));
        proof {
            assert(doomed@.take(i + 1) =~= doomed@.take(i as int).push(doomed@[i as int]));
            assert forall|k: u64| #[trigger]
                graph@.links.contains_key(k) <==> before.links.contains_key(k) && !doomed@.take(
                    i + 1,
                ).contains(k) by {
                lemma_push_contains(doomed@.take(i as int), doomed@[i as int], k);
                assert(was.links.contains_key(k) <==> before.links.contains_key(k)
                    && !doomed@.take(i as int).contains(k));
            }
            assert forall|k: u64| #[trigger] graph@.links.contains_key(k) implies graph@.links[k]
                == before.links[k] by {
                assert(was.links.contains_key(k));
            }
        }
        i = i + 1;
    }
    proof {
        assert(doomed@.take(doomed@.len() as int) =~= doomed@);
        let p = |l: Link| uses_ports(l, input, output);
        let target = unlinked(before, input, output);
        assert(graph@.links =~= target.links) by {
            assert forall|k: u64| graph@.links.contains_key(k) <==> target.links.contains_key(k) by {
                assert(doomed@.contains(k) <==> before.links.contains_key(k) && p(before.links[k]));
            }
        }
        assert(graph@ =~= target);
    }
}

/// The graph with the links that are left once those at a processing node are
/// gone and, where it stood in a connection, the connection is back.
pub open spec fn bypassed(
    g: GraphView,
    input: PortId,
    output: PortId,
    restore: Option<Link>,
) -> GraphView {
    let cut = unlinked(g, input, output);
    match restore {
        Some(link) => cut.with_link(link),
        None => cut,
    }
}

/// The graph once a processing node is gone and, where it stood in a
/// connection, the connection is back: exactly the node, the two ports and
/// the links at them are taken out of the tables.
pub open spec fn retired(
    g: GraphView,
    node: NodeId,
    input: PortId,
    output: PortId,
    restore: Option<Link>,
) -> GraphView {
    GraphView {
        nodes: g.nodes.remove(node.0),
        ports: g.ports.remove(input.0).remove(output.0),
        links: unlinked(bypassed(g, input, output, restore), input, output).links,
    }
}

/// Why a processing node cannot be taken out: the connection cannot be
/// restored.
pub open spec fn retire_error(
    g: GraphView,
    input: PortId,
    output: PortId,
    restore: Option<Link>,
) -> Option<GraphError> {
    match restore {
        Some(link) => unlinked(g, input, output).add_link_error(link),
        None => None,
    }
}

/// Takes out a processing node with its links and restores a connection, or
/// changes nothing. The tables stay in agreement where the node stands with
/// exactly its two ports; of another node that has its number, or of ports of
/// other nodes, nothing else is touched.
pub fn retire(
    graph: &mut Graph,
    node: NodeId,
    input: PortId,
    output: PortId,
    restore: Option<Link>,
) -> (r: Result<(), GraphError>)
    requires
        old(graph).wf(),
    ensures
        r is Err || node_fits(old(graph)@, node, input, output) ==> final(graph).wf(),
        match retire_error(old(graph)@, input, output, restore) {
            Some(error) => r == Err::<(), GraphError>(error) && final(graph)@ == old(graph)@,
            None => r is Ok && final(graph)@ == retired(old(graph)@, node, input, output, restore),
        },
{
    let ghost g = graph@;
    let mut next = graph.duplicate();
    remove_links_touching(&mut next, input, output);
    if let Some(link) = restore {
        if let Err(error) = next.insert_existing_link(link) {
            return Err(error);
        }
    }
    assert(next@ =~= bypassed(g, input, output, restore));
    remove_links_touching(&mut next, input, output);
    let ghost cut = next@;
    next.nodes.remove(&node.0);
    next.ports.remove(&input.0);
    next.ports.remove(&output.0);
    proof {
        assert(next@.nodes =~= cut.nodes.remove(node.0));
        assert(next@.ports =~= cut.ports.remove(input.0).remove(output.0));
        assert(next@ =~= retired(g, node, input, output, restore));
        if node_fits(g, node, input, output) {
            lemma_retired_fits(g, node, input, output, restore);
        }
    }
    *graph = next;
    Ok(())
}

/// Where a processing node stands with exactly its ports, taking it out is
/// taking out a node as any other.
pub proof fn lemma_retired_fits(
    g: GraphView,
    node: NodeId,
    input: PortId,
    output: PortId,
    restore: Option<Link>,
)
    requires
        g.wf(),
        node_fits(g, node, input, output),
        retire_error(g, input, output, restore) is None,
    ensures
        retired(g, node, input, output, restore) == (if g.has_node(node) {
            bypassed(g, input, output, restore).without_node(node)
        } else {
            bypassed(g, input, output, restore)
        }),
        retired(g, node, input, output, restore).wf(),
        bypassed(g, input, output, restore).wf(),
{
    let cut = unlinked(g, input, output);
    let joined = bypassed(g, input, output, restore);
    let out = retired(g, node, input, output, restore);
    assert(cut.wf()) by {
        assert forall|k: u64, p: PortId| #[trigger] cut.lists(k, p) implies cut.has_port(p)
            && cut.port(p).node_id.0 == k by {
            assert(g.lists(k, p));
        }
        assert forall|k: u64| #[trigger] cut.ports.contains_key(k) implies cut.ports[k].id.0 == k
            && cut.lists(cut.ports[k].node_id.0, cut.ports[k].id) by {
            assert(g.ports.contains_key(k));
            assert(g.lists(g.ports[k].node_id.0, g.ports[k].id));
        }
        assert forall|k: u64| #[trigger] cut.links.contains_key(k) implies cut.links[k].id.0 == k
            && cut.link_fits(cut.links[k]) by {
            assert(g.links.contains_key(k));
            assert(g.link_fits(g.links[k]));
        }
        assert forall|a: u64, b: u64|
            #![trigger cut.links.contains_key(a), cut.links.contains_key(b)]
            cut.links.contains_key(a) && cut.links.contains_key(b) && cut.links[a].output_port
                == cut.links[b].output_port && cut.links[a].input_port
                == cut.links[b].input_port implies a == b by {
            assert(g.links.contains_key(a) && g.links.contains_key(b));
        }
    }
    if let Some(link) = restore {
        law_with_link_keeps_wf(cut, link);
    }
    if g.has_node(node) {
        let ports = g.node(node).ports;
        assert(ports[0] == input && ports[1] == output);
        assert forall|k: u64| #[trigger] joined.links.contains_key(k) implies uses_ports(
            joined.links[k],
            input,
            output,
        ) == joined.link_touches(joined.links[k], node) by {
            let l = joined.links[k];
            assert(joined.link_fits(l));
            lemma_port_of_node(joined, node, input, output, l.output_port);
            lemma_port_of_node(joined, node, input, output, l.input_port);
        }
        assert forall|k: u64| #[trigger] joined.ports.contains_key(k) implies (
        joined.ports[k].node_id == node <==> k == input.0 || k == output.0) by {
            lemma_port_of_node(joined, node, input, output, joined.ports[k].id);
        }
        assert(out.ports =~= joined.without_node(node).ports);
        assert(out.links =~= joined.without_node(node).links);
        assert(out =~= joined.without_node(node));
        crate::graph::law_without_node_keeps_wf(joined, node);
    } else {
        assert forall|k: u64| #[trigger] joined.links.contains_key(k) implies !uses_ports(
            joined.links[k],
            input,
            output,
        ) by {
            lemma_no_link_at(joined, input, k);
            lemma_no_link_at(joined, output, k);
        }
        assert(out =~= joined);
    }
}

/// Without a connection to restore, taking out a processing node leaves the
/// graph without the node, its ports and their links.
pub proof fn law_retiring_removes_the_node(
    g: GraphView,
    node: NodeId,
    input: PortId,
    output: PortId,
)
    requires
        g.wf(),
        node_fits(g, node, input, output),
    ensures
        retired(g, node, input, output, None) == (if g.has_node(node) {
            g.without_node(node)
        } else {
            g
        }),
{
    let cut = unlinked(g, input, output);
    lemma_retired_fits(g, node, input, output, None);
    if g.has_node(node) {
        let ports = g.node(node).ports;
        assert(ports[0] == input && ports[1] == output);
        assert forall|k: u64| #[trigger] g.links.contains_key(k) implies uses_ports(
            g.links[k],
            input,
            output,
        ) == g.link_touches(g.links[k], node) by {
            let l = g.links[k];
            assert(g.link_fits(l));
            lemma_port_of_node(g, node, input, output, l.output_port);
            lemma_port_of_node(g, node, input, output, l.input_port);
        }
        assert(cut.without_node(node) =~= g.without_node(node));
    } else {
        assert forall|k: u64| #[trigger] g.links.contains_key(k) implies !uses_ports(
            g.links[k],
            input,
            output,
        ) by {
            lemma_no_link_at(g, input, k);
            lemma_no_link_at(g, output, k);
        }
        assert(cut =~= g);
    }
}

proof fn lemma_port_of_node(g: GraphView, node: NodeId, input: PortId, output: PortId, p: PortId)
    requires
        g.wf(),
        g.has_node(node),
        g.node(node).ports == seq![input, output],
        g.has_port(p),
    ensures
        g.port(p).node_id == node <==> (p == input || p == output),
{
    assert(g.ports.contains_key(p.0));
    assert(g.lists(g.port(p).node_id.0, p));
    let ports = g.node(node).ports;
    assert(ports[0] == input && ports[1] == output);
    assert(g.lists(node.0, input)) by {
        assert(ports.contains(ports[0]));
    }
    assert(g.lists(node.0, output)) by {
        assert(ports.contains(ports[1]));
    }
}

/// What a key names does not change with the links of a graph.
pub proof fn lemma_resolution_ignores_links(g: GraphView, h: GraphView, key: PortKeyView)
    requires
        g.nodes == h.nodes,
        g.ports == h.ports,
    ensures
        g.resolved(key) == h.resolved(key),
{
    let p = |p: PortView|
        match g.key_of(p.id) {
            Some(own) => keys_match(own, key),
            None => false,
        };
    let q = |p: PortView|
        match h.key_of(p.id) {
            Some(own) => keys_match(own, key),
            None => false,
        };
    assert(p =~= q) by {
        assert forall|x: PortView| #[trigger] p(x) == q(x) by {
            assert(g.key_of(x.id) == h.key_of(x.id));
        }
    }
}

/// What a key of another node's port names does not change when a processing
/// node is added.
pub proof fn lemma_resolution_ignores_hosted(
    g: GraphView,
    node: NodeView,
    input: PortId,
    output: PortId,
    key: PortKeyView,
)
    requires
        g.wf(),
        input != output,
        host_error(g, node.id, input, output) is None,
        key.node_name != node.name,
    ensures
        hosted(g, node, input, output).resolved(key) == g.resolved(key),
{
    let h = hosted(g, node, input, output);
    let p = |p: PortView|
        match g.key_of(p.id) {
            Some(own) => keys_match(own, key),
            None => false,
        };
    let q = |p: PortView|
        match h.key_of(p.id) {
            Some(own) => keys_match(own, key),
            None => false,
        };
    assert forall|k: u64| #[trigger] g.ports.contains_key(k) implies h.ports.contains_key(k)
        && h.ports[k] == g.ports[k] && p(g.ports[k]) == q(h.ports[k]) by {
        let own = g.ports[k];
        assert(g.lists(own.node_id.0, own.id));
        assert(own.node_id != node.id);
        assert(h.key_of(own.id) == g.key_of(own.id));
    }
    assert forall|k: u64| #[trigger] h.ports.contains_key(k) && q(h.ports[k]) implies
        g.ports.contains_key(k) by {
        if k == input.0 || k == output.0 {
            assert(h.key_of(h.ports[k].id) matches Some(own) && own.node_name == node.name);
        }
    }
    assert forall|k: u64| first_key(g.ports, p, k) <==> first_key(h.ports, q, k) by {
        if first_key(g.ports, p, k) {
            assert(h.ports.contains_key(k));
            assert forall|j: u64| #[trigger] h.ports.contains_key(j) && q(h.ports[j]) implies k
                <= j by {
                assert(g.ports.contains_key(j));
            }
        }
        if first_key(h.ports, q, k) {
            assert(g.ports.contains_key(k));
            assert forall|j: u64| #[trigger] g.ports.contains_key(j) && p(g.ports[j]) implies k
                <= j by {
                assert(h.ports.contains_key(j));
            }
        }
    }
    lemma_same_first(g.ports, p, h.ports, q);
}

proof fn lemma_same_first<V>(
    a: Map<u64, V>,
    p: spec_fn(V) -> bool,
    b: Map<u64, V>,
    q: spec_fn(V) -> bool,
)
    requires
        forall|k: u64| first_key(a, p, k) <==> first_key(b, q, k),
    ensures
        first_of(a, p) == first_of(b, q),
{
    if exists|k: u64| first_key(a, p, k) {
        let x = choose|k: u64| first_key(a, p, k);
        assert(first_key(b, q, x));
        let y = choose|k: u64| first_key(b, q, k);
        assert(first_key(a, p, y));
        assert(x == y);
    }
    if exists|k: u64| first_key(b, q, k) {
        let y = choose|k: u64| first_key(b, q, k);
        assert(first_key(a, p, y));
    }
}

/// Putting a processing node into a connection and taking it out again gives
/// back the graph, but for the number of the connection's link.
///
/// The node's name is one that no other node has, as the names of effects
/// are.
pub proof fn law_insert_remove_restores(
    g: GraphView,
    node: NodeView,
    input: PortId,
    output: PortId,
    source: PortKeyView,
    destination: PortKeyView,
    first: LinkId,
    second: LinkId,
    third: LinkId,
)
    requires
        g.wf(),
        node.ports == Seq::<PortId>::empty(),
        input != output,
        host_error(g, node.id, input, output) is None,
        forall|k: u64| #[trigger] g.nodes.contains_key(k) ==> g.nodes[k].name != node.name,
        insertion_point(g, source, destination) is Ok,
        splice_error(
            hosted(g, node, input, output),
            insertion_point(g, source, destination)->Ok_0.2,
            input,
            output,
        ) is None,
        first != second,
        !g.has_link(first),
        !g.has_link(second),
        !g.has_link(third),
    ensures
        ({
            let original = insertion_point(g, source, destination)->Ok_0.2;
            let inside = spliced(
                hosted(g, node, input, output),
                original,
                first,
                second,
                input,
                output,
            );
            let back = Link { id: third, ..original };
            &&& ends_of(inside, source, destination) == Ok::<
                (PortId, PortId),
                crate::model::BackendErrorView,
            >((original.output_port, original.input_port))
            &&& retire_error(inside, input, output, Some(back)) is None
            &&& retired(inside, node.id, input, output, Some(back)) == g.without_link(
                original.id,
            ).with_link(back)
        }),
{
    let point = insertion_point(g, source, destination)->Ok_0;
    let original = point.2;
    let h = hosted(g, node, input, output);
    let inside = spliced(h, original, first, second, input, output);
    let back = Link { id: third, ..original };
    // The keys name ports of other nodes, and still do.
    lemma_resolved_exists(g, source);
    lemma_resolved_exists(g, destination);
    assert(g.nodes.contains_key(g.port(point.0).node_id.0));
    assert(g.nodes.contains_key(g.port(point.1).node_id.0));
    lemma_resolution_ignores_hosted(g, node, input, output, source);
    lemma_resolution_ignores_hosted(g, node, input, output, destination);
    lemma_resolution_ignores_links(h, inside, source);
    lemma_resolution_ignores_links(h, inside, destination);
    lemma_joining_holds(g, point.0, point.1);
    assert(g.links.contains_key(original.id.0)) by {
        let k = joining(g, point.0, point.1)->Some_0;
        assert(g.links.contains_key(k));
    }
    assert(g.link_fits(original));
    assert(original.output_port != input && original.output_port != output);
    assert(original.input_port != input && original.input_port != output);
    // Without its links the node is as free as it was when it was added.
    let cut = unlinked(inside, input, output);
    assert(cut.links =~= g.links.remove(original.id.0)) by {
        assert forall|k: u64|
            cut.links.contains_key(k) <==> g.links.remove(original.id.0).contains_key(k) by {
            if g.links.contains_key(k) {
                lemma_no_link_at(g, input, k);
                lemma_no_link_at(g, output, k);
            }
        }
    }
    assert(!cut.connected(back.output_port, back.input_port)) by {
        if cut.connected(back.output_port, back.input_port) {
            let k = choose|k: u64| #[trigger]
                cut.links.contains_key(k) && cut.links[k].output_port == back.output_port
                    && cut.links[k].input_port == back.input_port;
            assert(g.links.contains_key(k));
            assert(g.links.contains_key(original.id.0));
        }
    }
    assert(cut.add_link_error(back) is None);
    // What is left is the graph before, with the link back in it.
    let without = g.without_link(original.id);
    law_without_link_keeps_wf(g, original.id);
    assert(without.add_link_error(back) is None) by {
        assert(!without.connected(back.output_port, back.input_port)) by {
            if without.connected(back.output_port, back.input_port) {
                let k = choose|k: u64| #[trigger]
                    without.links.contains_key(k) && without.links[k].output_port
                        == back.output_port && without.links[k].input_port == back.input_port;
                assert(cut.links.contains_key(k));
            }
        }
    }
    law_with_link_keeps_wf(without, back);
    let target = without.with_link(back);
    assert(host_error(target, node.id, input, output) is None);
    law_host_remove_is_identity(target, node, input, output);
    assert(cut.with_link(back) =~= hosted(target, node, input, output));
    let out = retired(inside, node.id, input, output, Some(back));
    assert forall|k: u64| #[trigger] target.links.contains_key(k) implies !uses_ports(
        target.links[k],
        input,
        output,
    ) by {
        lemma_no_link_at(target, input, k);
        lemma_no_link_at(target, output, k);
    }
    assert(bypassed(inside, input, output, Some(back)) =~= hosted(target, node, input, output));
    assert(out.nodes =~= target.nodes);
    assert(out.ports =~= target.ports);
    assert(out.links =~= target.links);
}

/// An effect is hosted as a node with one audio input and one audio output;
/// nothing else changes. It cannot be hosted just where its number or one of
/// its ports is taken.
pub proof fn law_hosted_effects(
    g: GraphView,
    node: NodeView,
    input: PortId,
    output: PortId,
    k: u64,
)
    requires
        input != output,
    ensures
        ({
            let after = hosted(g, node, input, output);
            &&& after.has_node(node.id)
            &&& after.node(node.id) == (NodeView { ports: seq![input, output], ..node })
            &&& after.has_port(input) && after.port(input).node_id == node.id && after.port(
                input,
            ).direction == Direction::Sink && after.port(input).port_type == PortType::Audio
            &&& after.has_port(output) && after.port(output).node_id == node.id && after.port(
                output,
            ).direction == Direction::Source && after.port(output).port_type == PortType::Audio
            &&& after.port(input).id == input && after.port(output).id == output
            &&& after.links == g.links
            &&& k != node.id.0 ==> (after.nodes.contains_key(k) <==> g.nodes.contains_key(k)) && (
            g.nodes.contains_key(k) ==> after.nodes[k] == g.nodes[k])
            &&& k != input.0 && k != output.0 ==> (after.ports.contains_key(k)
                <==> g.ports.contains_key(k)) && (g.ports.contains_key(k) ==> after.ports[k]
                == g.ports[k])
        }),
        host_error(g, node.id, input, output) is None <==> !g.has_node(node.id) && !g.has_port(
            input,
        ) && !g.has_port(output),
{
}

/// Putting an effect into a link leads the source of the link into the effect
/// and the effect on to the destination. The direct link is gone; every other
/// link, every node and every port stays.
pub proof fn law_spliced_effects(
    g: GraphView,
    original: Link,
    first: LinkId,
    second: LinkId,
    input: PortId,
    output: PortId,
    k: u64,
)
    requires
        g.wf(),
        g.has_link(original.id),
        g.link(original.id) == original,
        first != second,
        !g.has_link(first),
        !g.has_link(second),
        input != original.input_port,
        output != original.output_port,
    ensures
        ({
            let after = spliced(g, original, first, second, input, output);
            &&& after.nodes == g.nodes
            &&& after.ports == g.ports
            &&& after.connected(original.output_port, input)
            &&& after.connected(output, original.input_port)
            &&& !after.connected(original.output_port, original.input_port)
            &&& !after.has_link(original.id)
            &&& after.has_link(first) && after.link(first) == (Link {
                id: first,
                output_port: original.output_port,
                input_port: input,
            })
            &&& after.has_link(second) && after.link(second) == (Link {
                id: second,
                output_port: output,
                input_port: original.input_port,
            })
            &&& k != original.id.0 && k != first.0 && k != second.0 ==> (after.links.contains_key(k)
                <==> g.links.contains_key(k)) && (g.links.contains_key(k) ==> after.links[k]
                == g.links[k])
        }),
{
    let after = spliced(g, original, first, second, input, output);
    assert(after.links.contains_key(first.0));
    assert(after.links.contains_key(second.0));
    if after.connected(original.output_port, original.input_port) {
        let j = choose|j: u64| #[trigger]
            after.links.contains_key(j) && after.links[j].output_port == original.output_port
                && after.links[j].input_port == original.input_port;
        assert(g.links.contains_key(j));
        assert(g.links.contains_key(original.id.0));
    }
}

/// Only a link of audio, or of what is not known, takes an effect.
pub proof fn law_refused_splices(g: GraphView, original: Link, input: PortId, output: PortId)
    ensures
        splice_error(g, original, input, output) is None <==> {
            &&& g.port(original.output_port).port_type == PortType::Audio || g.port(
                original.output_port,
            ).port_type == PortType::Unknown
            &&& g.port(original.input_port).port_type == PortType::Audio || g.port(
                original.input_port,
            ).port_type == PortType::Unknown
        },
{
}

/// Taking an effect out takes out its node, its ports and the links at them,
/// and puts the connection back that it stood in. Every other link stays.
pub proof fn law_retired_effects(
    g: GraphView,
    node: NodeId,
    input: PortId,
    output: PortId,
    back: Link,
    k: u64,
)
    requires
        back.input_port != input,
        back.output_port != output,
    ensures
        ({
            let after = retired(g, node, input, output, Some(back));
            &&& !after.has_node(node)
            &&& !after.has_port(input)
            &&& !after.has_port(output)
            &&& after.has_link(back.id) && after.link(back.id) == back
            &&& after.connected(back.output_port, back.input_port)
            &&& forall|j: u64| #[trigger]
                after.links.contains_key(j) ==> after.links[j].input_port != input
                    && after.links[j].output_port != output
            &&& k != back.id.0 ==> (after.links.contains_key(k) <==> g.links.contains_key(k)
                && g.links[k].input_port != input && g.links[k].output_port != output)
            &&& k != back.id.0 && after.links.contains_key(k) ==> after.links[k] == g.links[k]
            &&& k != node.0 ==> (after.nodes.contains_key(k) <==> g.nodes.contains_key(k)) && (
            g.nodes.contains_key(k) ==> after.nodes[k] == g.nodes[k])
            &&& k != input.0 && k != output.0 ==> (after.ports.contains_key(k)
                <==> g.ports.contains_key(k)) && (g.ports.contains_key(k) ==> after.ports[k]
                == g.ports[k])
        }),
        ({
            let after = retired(g, node, input, output, None);
            &&& !after.has_node(node)
            &&& !after.has_port(input)
            &&& !after.has_port(output)
            &&& after.links.contains_key(k) <==> g.links.contains_key(k) && g.links[k].input_port
                != input && g.links[k].output_port != output
        }),
{
    let after = retired(g, node, input, output, Some(back));
    assert(after.links.contains_key(back.id.0));
}

} // verus!
