//! Connections that must not come back. A session manager may recreate a link
//! that was deleted by hand; each snapshot of the graph drops such links
//! again, in a bounded number of passes.
use crate::demo::key_pair;
use crate::graph::{Graph, GraphView};
use crate::ids::{LinkId, PortId};
use crate::lists::{kept, lemma_kept_members, lemma_kept_step};
use crate::model::{keys_match, port_keys_equal, Link, PortKey, PortKeyView};
use crate::table::{
    keys_of, keys_where, lemma_keys_where, lemma_picked_lists, lists_domain, picked,
};
use vstd::prelude::*;

verus! {

broadcast use vstd::std_specs::btree::group_btree_axioms;

/// Pairs of port keys, the output first.
#[derive(Debug, PartialEq, Eq)]
pub struct BlockedConnections {
    pub pairs: Vec<(PortKey, PortKey)>,
}

impl View for BlockedConnections {
    type V = Seq<(PortKeyView, PortKeyView)>;

    open spec fn view(&self) -> Seq<(PortKeyView, PortKeyView)> {
        self.pairs@.map_values(|pair: (PortKey, PortKey)| key_pair(pair))
    }
}

/// A pair names the same two ports.
pub open spec fn same_ends(
    pair: (PortKeyView, PortKeyView),
    output: PortKeyView,
    input: PortKeyView,
) -> bool {
    keys_match(pair.0, output) && keys_match(pair.1, input)
}

/// Some pair names the two ports.
pub open spec fn blocks(
    pairs: Seq<(PortKeyView, PortKeyView)>,
    output: PortKeyView,
    input: PortKeyView,
) -> bool {
    exists|i: int| 0 <= i < pairs.len() && same_ends(#[trigger] pairs[i], output, input)
}

/// The link joins a pair that is blocked.
pub open spec fn link_blocked(
    g: GraphView,
    pairs: Seq<(PortKeyView, PortKeyView)>,
    link: Link,
) -> bool {
    match (g.key_of(link.output_port), g.key_of(link.input_port)) {
        (Some(output), Some(input)) => blocks(pairs, output, input),
        _ => false,
    }
}

/// The pairs with one more, unless it is there.
pub open spec fn blocking(
    pairs: Seq<(PortKeyView, PortKeyView)>,
    output: PortKeyView,
    input: PortKeyView,
) -> Seq<(PortKeyView, PortKeyView)> {
    if blocks(pairs, output, input) {
        pairs
    } else {
        pairs.push((output, input))
    }
}

/// The pairs without those that name the two ports.
pub open spec fn allowing(
    pairs: Seq<(PortKeyView, PortKeyView)>,
    output: PortKeyView,
    input: PortKeyView,
) -> Seq<(PortKeyView, PortKeyView)> {
    kept(pairs, |pair: (PortKeyView, PortKeyView)| !same_ends(pair, output, input))
}

impl BlockedConnections {
    pub fn new() -> (r: BlockedConnections)
        ensures
            r@ == Seq::<(PortKeyView, PortKeyView)>::empty(),
    {
        let r = BlockedConnections { pairs: Vec::new() };
        assert(r@ =~= Seq::<(PortKeyView, PortKeyView)>::empty());
        r
    }

    pub fn is_blocked_pair(&self, output: &PortKey, input: &PortKey) -> (r: bool)
        ensures
            r == blocks(self@, output@, input@),
    {
        let mut i: usize = 0;
        while i < self.pairs.len()
            invariant
                i <= self.pairs.len(),
                forall|j: int| 0 <= j < i ==> !same_ends(#[trigger] self@[j], output@, input@),
            decreases self.pairs.len() - i,
        {
            assert(self@[i as int] == key_pair(self.pairs@[i as int]));
            if port_keys_equal(&self.pairs[i].0, output) && port_keys_equal(
                &self.pairs[i].1,
                input,
            ) {
                return true;
            }
            i = i + 1;
        }
        false
    }

    pub fn connection_is_blocked(&self, graph: &Graph, link: &Link) -> (r: bool)
        ensures
            r == link_blocked(graph@, self@, *link),
    {
        match (graph.port_key(link.output_port), graph.port_key(link.input_port)) {
            (Some(output), Some(input)) => self.is_blocked_pair(&output, &input),
            _ => false,
        }
    }

    /// Forgets that a pair is blocked.
    pub fn allow_connection(&mut self, output: &PortKey, input: &PortKey)
        ensures
            final(self)@ == allowing(old(self)@, output@, input@),
    {
        let ghost before = self@;
        let ghost p = |pair: (PortKeyView, PortKeyView)| !same_ends(pair, output@, input@);
        let mut rest: Vec<(PortKey, PortKey)> = Vec::new();
        let mut i: usize = 0;
        while i < self.pairs.len()
            invariant
                i <= self.pairs.len(),
                self@ == before,
                p == (|pair: (PortKeyView, PortKeyView)| !same_ends(pair, output@, input@)),
                rest@.map_values(|pair: (PortKey, PortKey)| key_pair(pair)) == kept(
                    before.take(i as int),
                    p,
                ),
            decreases self.pairs.len() - i,
        {
            let pair = &self.pairs[i];
            proof {
                assert(before[i as int] == key_pair(*pair));
                lemma_kept_step(before, p, i as int);
            }
            let ghost sofar = rest@;
            if !(port_keys_equal(&pair.0, output) && port_keys_equal(&pair.1, input)) {
                rest.push((pair.0.duplicate(), pair.1.duplicate()));
                assert(rest@.map_values(|pair: (PortKey, PortKey)| key_pair(pair))
                    =~= sofar.map_values(|pair: (PortKey, PortKey)| key_pair(pair)).push(
                    before[i as int],
                ));
            }
            i = i + 1;
        }
        assert(before.take(i as int) =~= before);
        self.pairs = rest;
    }

    /// Blocks a pair.
    pub fn suppress_connection(&mut self, output: &PortKey, input: &PortKey)
        ensures
            final(self)@ == blocking(old(self)@, output@, input@),
    {
        let ghost before = self@;
        if !self.is_blocked_pair(output, input) {
            self.pairs.push((output.duplicate(), input.duplicate()));
            assert(self@ =~= before.push((output@, input@)));
        }
    }

    /// Blocks what a link joins.
    pub fn block_connection(&mut self, graph: &Graph, link: &Link)
        ensures
            final(self)@ == (match (
                graph@.key_of(link.output_port),
                graph@.key_of(link.input_port),
            ) {
                (Some(output), Some(input)) => blocking(old(self)@, output, input),
                _ => old(self)@,
            }),
    {
        match (graph.port_key(link.output_port), graph.port_key(link.input_port)) {
            (Some(output), Some(input)) => {
                self.suppress_connection(&output, &input);
            },
            _ => {},
        }
    }

    /// The links of a graph that are blocked, in ascending order.
    pub fn suppressed_links(&self, graph: &Graph) -> (r: Vec<u64>)
        ensures
            r@ == keys_where(graph@.links, |link: Link| link_blocked(graph@, self@, link)),
    {
        let keys = keys_of(&graph.links);
        let ghost p = |link: Link| link_blocked(graph@, self@, link);
        let mut found: Vec<u64> = Vec::new();
        let mut i: usize = 0;
        while i < keys.len()
            invariant
                i <= keys.len(),
                lists_domain(keys@, graph@.links),
                p == (|link: Link| link_blocked(graph@, self@, link)),
                found@ == picked(keys@, i as int, graph@.links, p),
            decreases keys.len() - i,
        {
            let k: u64 = keys[i];
            assert(keys@.contains(k));
            assert(graph@.links.contains_key(k));
            if let Some(link) = graph.link(LinkId(k)) {
                if self.connection_is_blocked(graph, &link) {
                    found.push(k);
                }
            }
            i = i + 1;
        }
        proof {
            lemma_picked_lists(keys@, graph@.links, p);
            lemma_keys_where(found@, graph@.links, p);
        }
        found
    }

    /// Makes sure that two ports may be joined. The result says whether they
    /// already are, in which case the pair is no longer blocked; otherwise
    /// the connection has to be made.
    pub fn keep_direct_connection(&mut self, graph: &Graph, output: PortId, input: PortId) -> (r:
        bool)
        ensures
            r == graph@.connected(output, input),
            final(self)@ == (match (r, graph@.key_of(output), graph@.key_of(input)) {
                (true, Some(from), Some(to)) => allowing(old(self)@, from, to),
                _ => old(self)@,
            }),
    {
        if graph.is_connected(output, input) {
            if let (Some(from), Some(to)) = (graph.port_key(output), graph.port_key(input)) {
                self.allow_connection(&from, &to);
            }
            true
        } else {
            false
        }
    }
}

/// How many snapshots a rebuild takes at most.
pub const REBUILD_PASSES: u8 = 3;

/// A rebuild of the graph. Each pass looks at a fresh snapshot.
#[derive(Debug, PartialEq, Eq)]
pub struct Rebuild {
    pub pass: u8,
}

/// What a rebuild asks for.
#[derive(Debug, PartialEq, Eq)]
pub enum RebuildStep {
    /// The snapshot stands.
    Done,
    /// These links have to be destroyed, and another snapshot taken.
    Destroy(Vec<u64>),
}

impl Rebuild {
    pub open spec fn wf(&self) -> bool {
        self.pass < REBUILD_PASSES
    }

    pub fn new() -> (r: Rebuild)
        ensures
            r.wf(),
            r.pass == 0,
    {
        Rebuild { pass: 0 }
    }

    /// Looks at a snapshot. The last pass takes it as it is, so that a policy
    /// that never gives in cannot keep the rebuild going.
    pub fn step(&mut self, graph: &Graph, blocked: &BlockedConnections) -> (r: RebuildStep)
        requires
            old(self).wf(),
        ensures
            final(self).wf(),
            ({
                let bad = keys_where(
                    graph@.links,
                    |link: Link| link_blocked(graph@, blocked@, link),
                );
                if bad.len() == 0 || old(self).pass + 1 == REBUILD_PASSES {
                    r is Done && *final(self) == *old(self)
                } else {
                    r matches RebuildStep::Destroy(links) && links@ == bad && final(self).pass
                        == old(self).pass + 1
                }
            }),
    {
        let bad = blocked.suppressed_links(graph);
        if bad.len() == 0 || self.pass + 1 == REBUILD_PASSES {
            RebuildStep::Done
        } else {
            self.pass = self.pass + 1;
            RebuildStep::Destroy(bad)
        }
    }
}

/// A key names its own port.
proof fn lemma_key_matches_itself(key: PortKeyView)
    ensures
        keys_match(key, key),
{
}

/// A pair that was blocked is blocked, and one that was allowed is not.
pub proof fn law_blocking_and_allowing(
    pairs: Seq<(PortKeyView, PortKeyView)>,
    output: PortKeyView,
    input: PortKeyView,
)
    ensures
        blocks(blocking(pairs, output, input), output, input),
        !blocks(allowing(pairs, output, input), output, input),
{
    lemma_key_matches_itself(output);
    lemma_key_matches_itself(input);
    if !blocks(pairs, output, input) {
        let longer = pairs.push((output, input));
        assert(same_ends(longer[pairs.len() as int], output, input));
    }
    let p = |pair: (PortKeyView, PortKeyView)| !same_ends(pair, output, input);
    let rest = allowing(pairs, output, input);
    if blocks(rest, output, input) {
        let i = choose|i: int| 0 <= i < rest.len() && same_ends(#[trigger] rest[i], output, input);
        assert(rest.contains(rest[i]));
        lemma_kept_members(pairs, p, rest[i]);
    }
}

/// Allowing a pair that was not blocked before it was blocked forgets just
/// that.
pub proof fn law_allowing_undoes_blocking(
    pairs: Seq<(PortKeyView, PortKeyView)>,
    output: PortKeyView,
    input: PortKeyView,
)
    requires
        !blocks(pairs, output, input),
    ensures
        allowing(blocking(pairs, output, input), output, input) == pairs,
{
    let p = |pair: (PortKeyView, PortKeyView)| !same_ends(pair, output, input);
    let longer = pairs.push((output, input));
    lemma_key_matches_itself(output);
    lemma_key_matches_itself(input);
    lemma_kept_step(longer, p, pairs.len() as int);
    assert(longer.take(pairs.len() as int + 1) =~= longer);
    assert(longer.take(pairs.len() as int) =~= pairs);
    lemma_all_kept(pairs, p);
}

proof fn lemma_all_kept<A>(s: Seq<A>, p: spec_fn(A) -> bool)
    requires
        forall|i: int| 0 <= i < s.len() ==> p(#[trigger] s[i]),
    ensures
        kept(s, p) == s,
    decreases s.len(),
{
    if s.len() > 0 {
        let shorter = s.drop_last();
        assert forall|i: int| 0 <= i < shorter.len() implies p(#[trigger] shorter[i]) by {
            assert(shorter[i] == s[i]);
        }
        lemma_all_kept(shorter, p);
        lemma_kept_step(s, p, s.len() - 1);
        assert(s.take(s.len() as int) =~= s);
        assert(s.take(s.len() - 1) =~= shorter);
        assert(s =~= shorter.push(s.last()));
        assert(p(s[s.len() - 1]));
    }
}

/// A link is blocked exactly where the keys of both of its ends are those of a
/// blocked pair, output for output and input for input.
pub proof fn law_blocked_links(
    g: GraphView,
    pairs: Seq<(PortKeyView, PortKeyView)>,
    link: Link,
)
    requires
        g.wf(),
    ensures
        link_blocked(g, pairs, link) <==> exists|i: int|
            0 <= i < pairs.len() && crate::graph::bears_key(
                g,
                link.output_port,
                (#[trigger] pairs[i]).0,
            ) && crate::graph::bears_key(g, link.input_port, pairs[i].1),
{
    crate::graph::law_key_of(g, link.output_port);
    crate::graph::law_key_of(g, link.input_port);
    if let (Some(output), Some(input)) = (g.key_of(link.output_port), g.key_of(link.input_port)) {
        assert forall|i: int| 0 <= i < pairs.len() implies same_ends(
            #[trigger] pairs[i],
            output,
            input,
        ) == (crate::graph::bears_key(g, link.output_port, pairs[i].0) && crate::graph::bears_key(
            g,
            link.input_port,
            pairs[i].1,
        )) by {}
    }
}

/// Blocking a pair blocks no other than before but those that it matches, and
/// keeps every pair that was blocked; allowing one keeps every pair that it
/// does not match.
pub proof fn law_blocking_adds_and_allowing_removes(
    pairs: Seq<(PortKeyView, PortKeyView)>,
    output: PortKeyView,
    input: PortKeyView,
    other: (PortKeyView, PortKeyView),
)
    ensures
        pairs.contains(other) ==> blocking(pairs, output, input).contains(other),
        blocking(pairs, output, input).contains(other) ==> pairs.contains(other) || other == (
            output,
            input,
        ),
        allowing(pairs, output, input).contains(other) <==> pairs.contains(other) && !(keys_match(
            other.0,
            output,
        ) && keys_match(other.1, input)),
{
    crate::table::lemma_push_contains(pairs, (output, input), other);
    crate::lists::lemma_kept_members(
        pairs,
        |pair: (PortKeyView, PortKeyView)| !same_ends(pair, output, input),
        other,
    );
}

} // verus!
