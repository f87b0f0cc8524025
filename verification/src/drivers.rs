//! What the application asks of a backend, whichever it is.
use crate::composite::BackendCapabilities;
use crate::demo::{DemoDriver, DemoView};
use crate::graph::{Graph, GraphView};
use crate::ids::{LinkId, PortId};
use crate::model::{BackendError, BackendErrorView, GraphError, Link};
use crate::table::{keys_of, lists_domain};
use vstd::prelude::*;

verus! {

broadcast use vstd::std_specs::btree::group_btree_axioms;

/// A backend with a graph.
pub trait GraphDriver {
    /// The graph that the backend shows.
    spec fn shown(&self) -> GraphView;

    /// The backend is in order and can take on another link.
    spec fn ready(&self) -> bool;

    fn graph(&self) -> (r: &Graph)
        ensures
            r@ == self.shown(),
    ;

    fn capabilities(&self) -> (r: BackendCapabilities);

    /// Joins two ports. A refused connection changes nothing that is shown.
    fn connect(&mut self, src: PortId, dst: PortId) -> (r: Result<Link, BackendError>)
        requires
            old(self).ready(),
        ensures
            match r {
                Ok(link) => {
                    &&& link.output_port == src
                    &&& link.input_port == dst
                    &&& old(self).shown().add_link_error(link) is None
                    &&& final(self).shown() == old(self).shown().with_link(link)
                },
                Err(_) => final(self).shown() == old(self).shown(),
            },
    ;

    /// Takes a link down. A refused request changes nothing that is shown.
    fn disconnect(&mut self, link: LinkId) -> (r: Result<Link, BackendError>)
        requires
            old(self).ready(),
        ensures
            match r {
                Ok(gone) => {
                    &&& old(self).shown().has_link(link)
                    &&& gone == old(self).shown().link(link)
                    &&& final(self).shown() == old(self).shown().without_link(link)
                },
                Err(_) => final(self).shown() == old(self).shown(),
            },
    ;
}

/// A backend that may have recorders.
pub trait RecorderDriver {
    fn supports_recorders(&self) -> (r: bool);
}

/// A backend that the application can work with.
pub trait ApplicationDriver: GraphDriver + RecorderDriver {

}

impl<T: GraphDriver + RecorderDriver> ApplicationDriver for T {

}

impl GraphDriver for DemoDriver {
    open spec fn shown(&self) -> GraphView {
        self@.graph
    }

    open spec fn ready(&self) -> bool {
        self.wf() && self@.next_link_id < u64::MAX
    }

    fn graph(&self) -> (r: &Graph) {
        &self.graph
    }

    fn capabilities(&self) -> (r: BackendCapabilities)
        ensures
            r == (BackendCapabilities {
                topology: true,
                connect: true,
                disconnect: true,
                volume: true,
                mute: true,
                meters: true,
                effects: true,
                relay: false,
                recorders: true,
            }),
    {
        DemoDriver::capabilities(self)
    }

    fn connect(&mut self, src: PortId, dst: PortId) -> (r: Result<Link, BackendError>)
        ensures
            final(self).wf(),
            final(self)@ == old(self)@.connecting(src, dst).0,
            match old(self)@.connecting(src, dst).1 {
                Ok(link) => r == Ok::<Link, BackendError>(link),
                Err(error) => r matches Err(e) && e@ == error,
            },
    {
        DemoDriver::connect(self, src, dst)
    }

    fn disconnect(&mut self, link: LinkId) -> (r: Result<Link, BackendError>)
        ensures
            final(self).wf(),
            final(self)@ == old(self)@.disconnecting(link).0,
            match old(self)@.disconnecting(link).1 {
                Ok(gone) => r == Ok::<Link, BackendError>(gone),
                Err(error) => r matches Err(e) && e@ == error,
            },
    {
        DemoDriver::disconnect(self, link)
    }
}

impl RecorderDriver for DemoDriver {
    fn supports_recorders(&self) -> (r: bool)
        ensures
            r,
    {
        true
    }
}

/// The order of pairs: by the first port, then by the second.
pub open spec fn pair_before(a: (PortId, PortId), b: (PortId, PortId)) -> bool {
    a.0.0 < b.0.0 || (a.0.0 == b.0.0 && a.1.0 < b.1.0)
}

/// Pairs in order, each of them once.
pub open spec fn pairs_in_order(pairs: Seq<(PortId, PortId)>) -> bool {
    forall|i: int, j: int|
        0 <= i < j < pairs.len() ==> pair_before(#[trigger] pairs[i], #[trigger] pairs[j])
}

fn stands_before(a: (PortId, PortId), b: (PortId, PortId)) -> (r: bool)
    ensures
        r == pair_before(a, b),
{
    a.0.0 < b.0.0 || (a.0.0 == b.0.0 && a.1.0 < b.1.0)
}

fn insert_pair(pairs: &mut Vec<(PortId, PortId)>, pair: (PortId, PortId))
    requires
        pairs_in_order(old(pairs)@),
    ensures
        pairs_in_order(final(pairs)@),
        forall|x: (PortId, PortId)| #[trigger]
            final(pairs)@.contains(x) <==> old(pairs)@.contains(x) || x == pair,
{
    let ghost before = pairs@;
    let mut i: usize = 0;
    while i < pairs.len() && stands_before(pairs[i], pair)
        invariant
            i <= pairs.len(),
            pairs@ == before,
            forall|j: int| 0 <= j < i ==> pair_before(#[trigger] before[j], pair),
        decreases pairs.len() - i,
    {
        i = i + 1;
    }
    if i < pairs.len() && !stands_before(pair, pairs[i]) {
        assert(before[i as int] == pair);
        assert(before.contains(before[i as int]));
        return;
    }
    pairs.insert(i, pair);
    proof {
        assert(pairs@ =~= before.insert(i as int, pair));
        assert forall|a: int, b: int| 0 <= a < b < pairs@.len() implies pair_before(
            #[trigger] pairs@[a],
            #[trigger] pairs@[b],
        ) by {
            if b < i {
                assert(pair_before(before[a], before[b]));
            } else if b == i {
                assert(pair_before(before[a], pair));
            } else if a < i {
                assert(pair_before(before[a], before[b - 1]));
            } else if a == i {
                if b - 1 > i {
                    assert(pair_before(before[i as int], before[b - 1]));
                }
            } else {
                assert(pair_before(before[a - 1], before[b - 1]));
            }
        }
        assert forall|x: (PortId, PortId)| #[trigger] pairs@.contains(x) <==> before.contains(x)
            || x == pair by {
            if pairs@.contains(x) {
                let j = choose|j: int| 0 <= j < pairs@.len() && pairs@[j] == x;
                if j < i {
                    assert(before[j] == x);
                } else if j > i {
                    assert(before[j - 1] == x);
                }
            }
            if before.contains(x) {
                let j = choose|j: int| 0 <= j < before.len() && before[j] == x;
                if j < i {
                    assert(pairs@[j] == x);
                } else {
                    assert(pairs@[j + 1] == x);
                }
            }
            if x == pair {
                assert(pairs@[i as int] == pair);
            }
        }
    }
}

/// The pairs of ports that are joined, in order.
pub fn existing_connections<D: GraphDriver>(driver: &D) -> (r: Vec<(PortId, PortId)>)
    ensures
        pairs_in_order(r@),
        forall|pair: (PortId, PortId)| #[trigger]
            r@.contains(pair) <==> driver.shown().connected(pair.0, pair.1),
{
    let graph = driver.graph();
    let keys = keys_of(&graph.links);
    let mut pairs: Vec<(PortId, PortId)> = Vec::new();
    let mut i: usize = 0;
    while i < keys.len()
        invariant
            i <= keys.len(),
            lists_domain(keys@, graph@.links),
            pairs_in_order(pairs@),
            forall|pair: (PortId, PortId)| #[trigger]
                pairs@.contains(pair) <==> exists|j: int|
                    0 <= j < i && graph@.links[#[trigger] keys@[j]].output_port == pair.0
                        && graph@.links[keys@[j]].input_port == pair.1,
        decreases keys.len() - i,
    {
        let k: u64 = keys[i];
        assert(keys@.contains(k));
        assert(graph@.links.contains_key(k));
        let ghost before = pairs@;
        if let Some(link) = graph.link(LinkId(k)) {
            insert_pair(&mut pairs, (link.output_port, link.input_port));
            assert forall|pair: (PortId, PortId)| #[trigger] pairs@.contains(pair)
                <==> exists|j: int|
                0 <= j < i + 1 && graph@.links[#[trigger] keys@[j]].output_port == pair.0
                    && graph@.links[keys@[j]].input_port == pair.1 by {
                if pair == (link.output_port, link.input_port) {
                    assert(keys@[i as int] == k);
                }
                if before.contains(pair) {
                    let j = choose|j: int|
                        0 <= j < i && graph@.links[#[trigger] keys@[j]].output_port == pair.0
                            && graph@.links[keys@[j]].input_port == pair.1;
                    assert(keys@[j] == keys@[j]);
                }
                if exists|j: int|
                    0 <= j < i + 1 && graph@.links[#[trigger] keys@[j]].output_port == pair.0
                        && graph@.links[keys@[j]].input_port == pair.1 {
                    let j = choose|j: int|
                        0 <= j < i + 1 && graph@.links[#[trigger] keys@[j]].output_port == pair.0
                            && graph@.links[keys@[j]].input_port == pair.1;
                    if j < i {
                        assert(before.contains(pair));
                    }
                }
            }
        }
        i = i + 1;
    }
    proof {
        assert forall|pair: (PortId, PortId)| #[trigger] pairs@.contains(pair)
            <==> graph@.connected(pair.0, pair.1) by {
            if pairs@.contains(pair) {
                let j = choose|j: int|
                    0 <= j < keys@.len() && graph@.links[#[trigger] keys@[j]].output_port == pair.0
                        && graph@.links[keys@[j]].input_port == pair.1;
                assert(keys@.contains(keys@[j]));
                assert(graph@.links.contains_key(keys@[j]));
            }
            if graph@.connected(pair.0, pair.1) {
                let k = choose|k: u64| #[trigger]
                    graph@.links.contains_key(k) && graph@.links[k].output_port == pair.0
                        && graph@.links[k].input_port == pair.1;
                assert(keys@.contains(k));
                let j = choose|j: int| 0 <= j < keys@.len() && keys@[j] == k;
                assert(keys@[j] == k);
            }
        }
    }
    pairs
}

/// Pairs are ordered by their source, and by their destination where the
/// source is the same; two different pairs are never level.
pub proof fn law_order_of_pairs(a: (PortId, PortId), b: (PortId, PortId))
    ensures
        a.0.0 < b.0.0 ==> pair_before(a, b),
        a.0 == b.0 ==> (pair_before(a, b) <==> a.1.0 < b.1.0),
        a != b ==> pair_before(a, b) != pair_before(b, a),
        !pair_before(a, a),
{
}

/// A list of pairs in order holds each pair once.
pub proof fn law_pairs_in_order_differ(pairs: Seq<(PortId, PortId)>)
    requires
        pairs_in_order(pairs),
    ensures
        pairs.no_duplicates(),
{
    assert forall|i: int, j: int|
        0 <= i < pairs.len() && 0 <= j < pairs.len() && i != j implies pairs[i] != pairs[j] by {
        if i < j {
            assert(pair_before(pairs[i], pairs[j]));
        } else {
            assert(pair_before(pairs[j], pairs[i]));
        }
    }
}

} // verus!
