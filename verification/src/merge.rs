//! One merged graph over several backends with disjoint identifiers, and the
//! clock by which each of them is read again.
use crate::graph::{Graph, GraphView};
use crate::ids::{namespace_of, BackendNamespace, LinkId, NodeId, PortId};
use crate::model::GraphError;
use crate::table::{keys_of, lemma_push_contains, lists_domain};
use std::collections::BTreeMap;
use vstd::prelude::*;

verus! {

broadcast use vstd::std_specs::btree::group_btree_axioms;

/// The smallest key that two tables share.
pub open spec fn first_shared<A, B>(a: Map<u64, A>, b: Map<u64, B>) -> Option<u64> {
    if exists|k: u64| smallest_shared(a, b, k) {
        Some(choose|k: u64| smallest_shared(a, b, k))
    } else {
        None
    }
}

pub open spec fn smallest_shared<A, B>(a: Map<u64, A>, b: Map<u64, B>, k: u64) -> bool {
    &&& a.contains_key(k)
    &&& b.contains_key(k)
    &&& forall|j: u64| #[trigger] a.contains_key(j) && b.contains_key(j) ==> k <= j
}

/// No identifier of a kind stands in both graphs.
pub open spec fn disjoint(a: GraphView, b: GraphView) -> bool {
    &&& forall|k: u64| #[trigger] a.nodes.contains_key(k) ==> !b.nodes.contains_key(k)
    &&& forall|k: u64| #[trigger] a.ports.contains_key(k) ==> !b.ports.contains_key(k)
    &&& forall|k: u64| #[trigger] a.links.contains_key(k) ==> !b.links.contains_key(k)
}

/// Both graphs side by side.
pub open spec fn side_by_side(a: GraphView, b: GraphView) -> GraphView {
    GraphView {
        nodes: a.nodes.union_prefer_right(b.nodes),
        ports: a.ports.union_prefer_right(b.ports),
        links: a.links.union_prefer_right(b.links),
    }
}

/// What a merge is refused for: the first node that both graphs have, else
/// the first port, else the first link.
pub open spec fn merge_error(a: GraphView, b: GraphView) -> Option<GraphError> {
    match (
        first_shared(b.nodes, a.nodes),
        first_shared(b.ports, a.ports),
        first_shared(b.links, a.links),
    ) {
        (Some(k), _, _) => Some(GraphError::DuplicateNode(NodeId(k))),
        (None, Some(k), _) => Some(GraphError::DuplicatePort(PortId(k))),
        (None, None, Some(k)) => Some(GraphError::DuplicateLink(LinkId(k))),
        (None, None, None) => None,
    }
}

fn find_shared<A, B>(a: &BTreeMap<u64, A>, b: &BTreeMap<u64, B>) -> (r: Option<u64>)
    ensures
        r == first_shared(a@, b@),
        r is None ==> forall|k: u64| #[trigger] a@.contains_key(k) ==> !b@.contains_key(k),
{
    let keys = keys_of(a);
    let mut i: usize = 0;
    while i < keys.len()
        invariant
            i <= keys.len(),
            lists_domain(keys@, a@),
            forall|j: int| 0 <= j < i ==> !b@.contains_key(#[trigger] keys@[j]),
        decreases keys.len() - i,
    {
        let k: u64 = keys[i];
        assert(keys@.contains(k));
        if b.contains_key(&k) {
            proof {
                assert forall|j: u64| #[trigger] a@.contains_key(j) && b@.contains_key(j) implies k
                    <= j by {
                    assert(keys@.contains(j));
                    let x = choose|x: int| 0 <= x < keys@.len() && keys@[x] == j;
                    if x < i {
                        assert(!b@.contains_key(keys@[x]));
                    }
                }
                assert(smallest_shared(a@, b@, k));
                let c = choose|c: u64| smallest_shared(a@, b@, c);
                assert(smallest_shared(a@, b@, c));
            }
            return Some(k);
        }
        i = i + 1;
    }
    assert forall|k: u64| #[trigger] a@.contains_key(k) implies !b@.contains_key(k) by {
        assert(keys@.contains(k));
        let x = choose|x: int| 0 <= x < keys@.len() && keys@[x] == k;
        assert(!b@.contains_key(keys@[x]));
    }
    None
}

/// A table with the first `n` of `keys` taken over from another.
spec fn taken_over<V>(dst: Map<u64, V>, src: Map<u64, V>, keys: Seq<u64>, n: int) -> Map<u64, V>
    decreases n,
{
    if n <= 0 {
        dst
    } else {
        taken_over(dst, src, keys, n - 1).insert(keys[n - 1], src[keys[n - 1]])
    }
}

proof fn lemma_taken_over<V>(dst: Map<u64, V>, src: Map<u64, V>, keys: Seq<u64>, n: int)
    requires
        0 <= n <= keys.len(),
    ensures
        forall|k: u64| #[trigger]
            taken_over(dst, src, keys, n).contains_key(k) <==> dst.contains_key(k) || keys.take(
                n,
            ).contains(k),
        forall|k: u64| #[trigger]
            taken_over(dst, src, keys, n).contains_key(k) ==> taken_over(dst, src, keys, n)[k]
                == (if keys.take(n).contains(k) {
                src[k]
            } else {
                dst[k]
            }),
    decreases n,
{
    let out = taken_over(dst, src, keys, n);
    if n == 0 {
        assert forall|k: u64| #[trigger] out.contains_key(k) <==> dst.contains_key(k) || keys.take(
            n,
        ).contains(k) by {}
    } else {
        lemma_taken_over(dst, src, keys, n - 1);
        let prev = taken_over(dst, src, keys, n - 1);
        let last = keys[n - 1];
        assert(keys.take(n) =~= keys.take(n - 1).push(last));
        assert forall|k: u64| #[trigger] out.contains_key(k) <==> dst.contains_key(k) || keys.take(
            n,
        ).contains(k) by {
            lemma_push_contains(keys.take(n - 1), last, k);
            assert(prev.contains_key(k) <==> dst.contains_key(k) || keys.take(n - 1).contains(k));
        }
        assert forall|k: u64| #[trigger] out.contains_key(k) implies out[k] == (if keys.take(
            n,
        ).contains(k) {
            src[k]
        } else {
            dst[k]
        }) by {
            lemma_push_contains(keys.take(n - 1), last, k);
            if k != last {
                assert(prev.contains_key(k));
            }
        }
    }
}

proof fn lemma_all_taken<V>(dst: Map<u64, V>, src: Map<u64, V>, keys: Seq<u64>)
    requires
        lists_domain(keys, src),
    ensures
        taken_over(dst, src, keys, keys.len() as int) == dst.union_prefer_right(src),
{
    lemma_taken_over(dst, src, keys, keys.len() as int);
    assert(keys.take(keys.len() as int) =~= keys);
    assert(taken_over(dst, src, keys, keys.len() as int) =~= dst.union_prefer_right(src)) by {
        assert forall|k: u64|
            taken_over(dst, src, keys, keys.len() as int).contains_key(k)
                <==> dst.union_prefer_right(src).contains_key(k) by {
            assert(keys.contains(k) <==> src.contains_key(k));
        }
    }
}

fn take_nodes(graph: &mut Graph, source: &Graph)
    ensures
        final(graph)@ == (GraphView {
            nodes: old(graph)@.nodes.union_prefer_right(source@.nodes),
            ..old(graph)@
        }),
{
    let keys = keys_of(&source.nodes);
    let ghost before = graph@;
    assert(lists_domain(keys@, source@.nodes)) by {
        assert forall|k: u64| #[trigger] keys@.contains(k) <==> source@.nodes.contains_key(k) by {
            assert(keys@.contains(k) <==> source.nodes@.contains_key(k));
        }
    }
    let mut i: usize = 0;
    while i < keys.len()
        invariant
            i <= keys.len(),
            lists_domain(keys@, source@.nodes),
            graph@.nodes == taken_over(before.nodes, source@.nodes, keys@, i as int),
            graph@.ports == before.ports,
            graph@.links == before.links,
        decreases keys.len() - i,
    {
        let k: u64 = keys[i];
        assert(keys@.contains(k));
        assert(source@.nodes.contains_key(k));
        if let Some(node) = source.nodes.get(&k) {
            let ghost was = graph@.nodes;
            graph.nodes.insert(k, node.duplicate());
            assert(graph@.nodes =~= was.insert(k, source@.nodes[k]));
        }
        i = i + 1;
    }
    proof {
        lemma_all_taken(before.nodes, source@.nodes, keys@);
    }
}

fn take_ports(graph: &mut Graph, source: &Graph)
    ensures
        final(graph)@ == (GraphView {
            ports: old(graph)@.ports.union_prefer_right(source@.ports),
            ..old(graph)@
        }),
{
    let keys = keys_of(&source.ports);
    let ghost before = graph@;
    assert(lists_domain(keys@, source@.ports)) by {
        assert forall|k: u64| #[trigger] keys@.contains(k) <==> source@.ports.contains_key(k) by {
            assert(keys@.contains(k) <==> source.ports@.contains_key(k));
        }
    }
    let mut i: usize = 0;
    while i < keys.len()
        invariant
            i <= keys.len(),
            lists_domain(keys@, source@.ports),
            graph@.ports == taken_over(before.ports, source@.ports, keys@, i as int),
            graph@.nodes == before.nodes,
            graph@.links == before.links,
        decreases keys.len() - i,
    {
        let k: u64 = keys[i];
        assert(keys@.contains(k));
        assert(source@.ports.contains_key(k));
        if let Some(port) = source.ports.get(&k) {
            let ghost was = graph@.ports;
            graph.ports.insert(k, port.duplicate());
            assert(graph@.ports =~= was.insert(k, source@.ports[k]));
        }
        i = i + 1;
    }
    proof {
        lemma_all_taken(before.ports, source@.ports, keys@);
    }
}

fn take_links(graph: &mut Graph, source: &Graph)
    ensures
        final(graph)@ == (GraphView {
            links: old(graph)@.links.union_prefer_right(source@.links),
            ..old(graph)@
        }),
{
    let keys = keys_of(&source.links);
    let ghost before = graph@;
    let mut i: usize = 0;
    while i < keys.len()
        invariant
            i <= keys.len(),
            lists_domain(keys@, source@.links),
            graph@.links == taken_over(before.links, source@.links, keys@, i as int),
            graph@.nodes == before.nodes,
            graph@.ports == before.ports,
        decreases keys.len() - i,
    {
        let k: u64 = keys[i];
        assert(keys@.contains(k));
        assert(source@.links.contains_key(k));
        if let Some(link) = source.links.get(&k) {
            let ghost was = graph@.links;
            graph.links.insert(k, *link);
            assert(graph@.links =~= was.insert(k, source@.links[k]));
        }
        i = i + 1;
    }
    proof {
        lemma_all_taken(before.links, source@.links, keys@);
    }
}

/// Merges a backend's graph into the common one. Every node keeps its own
/// list of ports, so each port is listed once. A shared identifier refuses
/// the merge and leaves the common graph as it was.
pub fn merge_graph_into(target: &mut Graph, source: &Graph) -> (r: Result<(), GraphError>)
    requires
        old(target).wf(),
        source.wf(),
    ensures
        final(target).wf(),
        match merge_error(old(target)@, source@) {
            None => r is Ok && final(target)@ == side_by_side(old(target)@, source@),
            Some(error) => r == Err::<(), GraphError>(error) && final(target)@ == old(target)@,
        },
{
    let ghost a = target@;
    let ghost b = source@;
    proof {
        lemma_shared_views(*target, *source);
    }
    if let Some(k) = find_shared(&source.nodes, &target.nodes) {
        return Err(GraphError::DuplicateNode(NodeId(k)));
    }
    if let Some(k) = find_shared(&source.ports, &target.ports) {
        return Err(GraphError::DuplicatePort(PortId(k)));
    }
    if let Some(k) = find_shared(&source.links, &target.links) {
        return Err(GraphError::DuplicateLink(LinkId(k)));
    }
    proof {
        assert forall|k: u64| #[trigger] a.nodes.contains_key(k) implies !b.nodes.contains_key(
            k,
        ) by {
            assert(target.nodes@.contains_key(k));
            if b.nodes.contains_key(k) {
                assert(source.nodes@.contains_key(k));
            }
        }
        assert forall|k: u64| #[trigger] a.ports.contains_key(k) implies !b.ports.contains_key(
            k,
        ) by {
            if b.ports.contains_key(k) {
                assert(source.ports@.contains_key(k));
            }
        }
        assert forall|k: u64| #[trigger] a.links.contains_key(k) implies !b.links.contains_key(
            k,
        ) by {
            if b.links.contains_key(k) {
                assert(source.links@.contains_key(k));
            }
        }
        law_merge_keeps_wf(a, b);
    }
    take_nodes(target, source);
    take_ports(target, source);
    take_links(target, source);
    assert(target@ == side_by_side(a, b));
    Ok(())
}

proof fn lemma_shared_views(target: Graph, source: Graph)
    ensures
        first_shared(source.nodes@, target.nodes@) == first_shared(
            source@.nodes,
            target@.nodes,
        ),
        first_shared(source.ports@, target.ports@) == first_shared(
            source@.ports,
            target@.ports,
        ),
{
    lemma_shared_maps(source.nodes@, target.nodes@, source@.nodes, target@.nodes);
    lemma_shared_maps(source.ports@, target.ports@, source@.ports, target@.ports);
}

proof fn lemma_shared_maps<A, B, C, D>(
    a: Map<u64, A>,
    b: Map<u64, B>,
    c: Map<u64, C>,
    d: Map<u64, D>,
)
    requires
        forall|k: u64| #[trigger] a.contains_key(k) <==> c.contains_key(k),
        forall|k: u64| #[trigger] b.contains_key(k) <==> d.contains_key(k),
    ensures
        first_shared(a, b) == first_shared(c, d),
{
    assert forall|k: u64| smallest_shared(a, b, k) <==> smallest_shared(c, d, k) by {
        if smallest_shared(a, b, k) {
            assert forall|j: u64| #[trigger] c.contains_key(j) && d.contains_key(j) implies k
                <= j by {
                assert(a.contains_key(j));
                assert(b.contains_key(j));
            }
        }
        if smallest_shared(c, d, k) {
            assert forall|j: u64| #[trigger] a.contains_key(j) && b.contains_key(j) implies k
                <= j by {
                assert(c.contains_key(j));
            }
        }
    }
    if exists|k: u64| smallest_shared(a, b, k) {
        let x = choose|k: u64| smallest_shared(a, b, k);
        assert(smallest_shared(c, d, x));
        let y = choose|k: u64| smallest_shared(c, d, k);
        assert(smallest_shared(a, b, y));
        assert(x == y);
    }
    if exists|k: u64| smallest_shared(c, d, k) {
        let y = choose|k: u64| smallest_shared(c, d, k);
        assert(smallest_shared(a, b, y));
    }
}

/// Two well-formed graphs without a shared identifier make a well-formed one:
/// in particular every port is still listed exactly once.
pub proof fn law_merge_keeps_wf(a: GraphView, b: GraphView)
    requires
        a.wf(),
        b.wf(),
        disjoint(a, b),
    ensures
        side_by_side(a, b).wf(),
{
    let m = side_by_side(a, b);
    assert forall|k: u64, p: PortId| #[trigger] m.lists(k, p) implies m.has_port(p) && m.port(
        p,
    ).node_id.0 == k by {
        if b.nodes.contains_key(k) {
            assert(b.lists(k, p));
        } else {
            assert(a.lists(k, p));
            assert(a.ports.contains_key(p.0));
        }
    }
    assert forall|k: u64| #[trigger] m.ports.contains_key(k) implies m.ports[k].id.0 == k
        && m.lists(m.ports[k].node_id.0, m.ports[k].id) by {
        if b.ports.contains_key(k) {
            assert(b.lists(b.ports[k].node_id.0, b.ports[k].id));
        } else {
            assert(a.ports.contains_key(k));
            assert(a.lists(a.ports[k].node_id.0, a.ports[k].id));
            assert(a.nodes.contains_key(a.ports[k].node_id.0));
        }
    }
    assert forall|k: u64| #[trigger] m.links.contains_key(k) implies m.links[k].id.0 == k
        && m.link_fits(m.links[k]) by {
        if b.links.contains_key(k) {
            assert(b.link_fits(b.links[k]));
        } else {
            assert(a.links.contains_key(k));
            assert(a.link_fits(a.links[k]));
            assert(a.ports.contains_key(a.links[k].output_port.0));
            assert(a.ports.contains_key(a.links[k].input_port.0));
        }
    }
    assert forall|x: u64, y: u64|
        #![trigger m.links.contains_key(x), m.links.contains_key(y)]
        m.links.contains_key(x) && m.links.contains_key(y) && m.links[x].output_port
            == m.links[y].output_port && m.links[x].input_port
            == m.links[y].input_port implies x == y by {
        if b.links.contains_key(x) && !b.links.contains_key(y) {
            assert(a.links.contains_key(y));
            assert(a.ports.contains_key(a.links[y].output_port.0));
            assert(b.link_fits(b.links[x]));
        }
        if !b.links.contains_key(x) && b.links.contains_key(y) {
            assert(a.links.contains_key(x));
            assert(a.ports.contains_key(a.links[x].output_port.0));
            assert(b.link_fits(b.links[y]));
        }
        if !b.links.contains_key(x) && !b.links.contains_key(y) {
            assert(a.links.contains_key(x));
            assert(a.links.contains_key(y));
        }
    }
}

/// Every identifier of the graph belongs to a namespace.
pub open spec fn within(g: GraphView, namespace: BackendNamespace) -> bool {
    &&& forall|k: u64| #[trigger]
        g.nodes.contains_key(k) ==> namespace_of(k) == Some(namespace)
    &&& forall|k: u64| #[trigger]
        g.ports.contains_key(k) ==> namespace_of(k) == Some(namespace)
    &&& forall|k: u64| #[trigger]
        g.links.contains_key(k) ==> namespace_of(k) == Some(namespace)
}

/// Graphs of different namespaces never refuse to be merged.
pub proof fn law_namespaces_merge(
    a: GraphView,
    b: GraphView,
    first: BackendNamespace,
    second: BackendNamespace,
)
    requires
        within(a, first),
        within(b, second),
        first != second,
    ensures
        disjoint(a, b),
        merge_error(a, b) is None,
{
    assert forall|k: u64| #[trigger] b.nodes.contains_key(k) implies !a.nodes.contains_key(k) by {}
    assert(first_shared(b.nodes, a.nodes) is None);
    assert(first_shared(b.ports, a.ports) is None);
    assert(first_shared(b.links, a.links) is None);
}

/// Whether a backend has to be read again: it said that it changed, it was
/// never read, or its deadline has come.
pub fn refresh_due(deadline: Option<u64>, dirty: bool, now: u64) -> (r: bool)
    ensures
        r == (dirty || deadline is None || deadline->Some_0 <= now),
{
    if dirty {
        return true;
    }
    match deadline {
        None => true,
        Some(at) => at <= now,
    }
}

/// Graphs side by side hold what either holds, and nothing else; where they
/// share no number everything is as it was.
pub proof fn law_side_by_side(a: GraphView, b: GraphView, k: u64)
    requires
        disjoint(a, b),
    ensures
        ({
            let both = side_by_side(a, b);
            &&& both.nodes.contains_key(k) <==> a.nodes.contains_key(k) || b.nodes.contains_key(k)
            &&& both.ports.contains_key(k) <==> a.ports.contains_key(k) || b.ports.contains_key(k)
            &&& both.links.contains_key(k) <==> a.links.contains_key(k) || b.links.contains_key(k)
            &&& a.nodes.contains_key(k) ==> both.nodes[k] == a.nodes[k]
            &&& b.nodes.contains_key(k) ==> both.nodes[k] == b.nodes[k]
            &&& a.ports.contains_key(k) ==> both.ports[k] == a.ports[k]
            &&& b.ports.contains_key(k) ==> both.ports[k] == b.ports[k]
            &&& a.links.contains_key(k) ==> both.links[k] == a.links[k]
            &&& b.links.contains_key(k) ==> both.links[k] == b.links[k]
        }),
        side_by_side(a, b) == side_by_side(b, a),
{
    assert(side_by_side(a, b).nodes =~= side_by_side(b, a).nodes);
    assert(side_by_side(a, b).ports =~= side_by_side(b, a).ports);
    assert(side_by_side(a, b).links =~= side_by_side(b, a).links);
}

proof fn lemma_shared_found<A, B>(a: Map<u64, A>, b: Map<u64, B>, k: u64)
    requires
        a.contains_key(k),
        b.contains_key(k),
    ensures
        first_shared(a, b) matches Some(j) && smallest_shared(a, b, j) && j <= k,
    decreases k,
{
    if smallest_shared(a, b, k) {
        let c = choose|c: u64| smallest_shared(a, b, c);
        assert(smallest_shared(a, b, c));
    } else {
        let j = choose|j: u64| #[trigger] a.contains_key(j) && b.contains_key(j) && j < k;
        lemma_shared_found(a, b, j);
    }
}

/// Merging is refused exactly where the graphs share a number, and the refusal
/// names a number that they share.
pub proof fn law_refused_merges(a: GraphView, b: GraphView)
    ensures
        merge_error(a, b) is None <==> disjoint(a, b),
        match merge_error(a, b) {
            Some(GraphError::DuplicateNode(id)) => a.has_node(id) && b.has_node(id),
            Some(GraphError::DuplicatePort(id)) => a.has_port(id) && b.has_port(id),
            Some(GraphError::DuplicateLink(id)) => a.has_link(id) && b.has_link(id),
            Some(_) => false,
            None => true,
        },
{
    if first_shared(b.nodes, a.nodes) is Some {
        let c = choose|k: u64| smallest_shared(b.nodes, a.nodes, k);
        assert(smallest_shared(b.nodes, a.nodes, c));
    }
    if first_shared(b.ports, a.ports) is Some {
        let c = choose|k: u64| smallest_shared(b.ports, a.ports, k);
        assert(smallest_shared(b.ports, a.ports, c));
    }
    if first_shared(b.links, a.links) is Some {
        let c = choose|k: u64| smallest_shared(b.links, a.links, k);
        assert(smallest_shared(b.links, a.links, c));
    }
    if merge_error(a, b) is None {
        assert forall|k: u64| #[trigger] a.nodes.contains_key(k) implies !b.nodes.contains_key(
            k,
        ) by {
            if b.nodes.contains_key(k) {
                lemma_shared_found(b.nodes, a.nodes, k);
            }
        }
        assert forall|k: u64| #[trigger] a.ports.contains_key(k) implies !b.ports.contains_key(
            k,
        ) by {
            if b.ports.contains_key(k) {
                lemma_shared_found(b.ports, a.ports, k);
            }
        }
        assert forall|k: u64| #[trigger] a.links.contains_key(k) implies !b.links.contains_key(
            k,
        ) by {
            if b.links.contains_key(k) {
                lemma_shared_found(b.links, a.links, k);
            }
        }
    }
}

} // verus!
