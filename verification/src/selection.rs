//! What is selected in the window, and what follows from it.
use crate::graph::{Graph, GraphView};
use crate::ids::{LinkId, NodeId, PortId};
use crate::lists::{kept, lemma_kept_step};
use crate::model::{Direction, Link, PortKey, Position};
use crate::samples::{is_nan, magnitude, magnitude_of, INFINITE};
use crate::table::{ascending, insert_ascending, keys_where, lists_keys};
use vstd::prelude::*;

verus! {

/// A node or a link in the window.
#[derive(Clone, Copy, Debug, PartialEq, Eq, Structural)]
pub struct Row {
    pub id: i32,
    pub selected: bool,
}

/// A row after one was picked. With shift the pick is switched and the others
/// stay; without, it is the only one.
pub open spec fn picked_row(row: Row, id: i32, shift: bool) -> Row {
    Row {
        selected: if row.id == id {
            if shift {
                !row.selected
            } else {
                true
            }
        } else {
            shift && row.selected
        },
        ..row
    }
}

/// A row after a box was drawn. With shift the box adds to the selection.
pub open spec fn boxed_row(row: Row, hits: Seq<i32>, shift: bool) -> Row {
    Row {
        selected: if shift {
            row.selected || hits.contains(row.id)
        } else {
            hits.contains(row.id)
        },
        ..row
    }
}

/// Rows of which none is selected.
pub open spec fn unselected(rows: Seq<Row>) -> Seq<Row> {
    rows.map_values(|row: Row| Row { selected: false, ..row })
}

/// Rows of the other kind than what was picked: with shift they stay.
pub open spec fn left_rows(rows: Seq<Row>, shift: bool) -> Seq<Row> {
    if shift {
        rows
    } else {
        unselected(rows)
    }
}

fn clear_rows(rows: &mut Vec<Row>)
    ensures
        final(rows)@ == unselected(old(rows)@),
{
    let ghost before = rows@;
    let mut i: usize = 0;
    while i < rows.len()
        invariant
            i <= rows.len(),
            rows@.len() == before.len(),
            forall|j: int|
                0 <= j < i ==> #[trigger] rows@[j] == (Row { selected: false, ..before[j] }),
            forall|j: int| i <= j < rows@.len() ==> #[trigger] rows@[j] == before[j],
        decreases rows.len() - i,
    {
        let row: Row = rows[i];
        rows.set(i, Row { id: row.id, selected: false });
        i = i + 1;
    }
    assert(rows@ =~= unselected(before));
}

fn pick_row(rows: &mut Vec<Row>, id: i32, shift: bool)
    ensures
        final(rows)@ == old(rows)@.map_values(|row: Row| picked_row(row, id, shift)),
{
    let ghost before = rows@;
    let mut i: usize = 0;
    while i < rows.len()
        invariant
            i <= rows.len(),
            rows@.len() == before.len(),
            forall|j: int| 0 <= j < i ==> #[trigger] rows@[j] == picked_row(before[j], id, shift),
            forall|j: int| i <= j < rows@.len() ==> #[trigger] rows@[j] == before[j],
        decreases rows.len() - i,
    {
        let row: Row = rows[i];
        let selected = if row.id == id {
            if shift {
                !row.selected
            } else {
                true
            }
        } else {
            shift && row.selected
        };
        rows.set(i, Row { id: row.id, selected });
        i = i + 1;
    }
    assert(rows@ =~= before.map_values(|row: Row| picked_row(row, id, shift)));
}

fn hit(hits: &Vec<i32>, id: i32) -> (r: bool)
    ensures
        r == hits@.contains(id),
{
    let mut i: usize = 0;
    while i < hits.len()
        invariant
            i <= hits.len(),
            forall|j: int| 0 <= j < i ==> hits@[j] != id,
        decreases hits.len() - i,
    {
        if hits[i] == id {
            assert(hits@.contains(hits@[i as int]));
            return true;
        }
        i = i + 1;
    }
    false
}

fn box_rows(rows: &mut Vec<Row>, hits: &Vec<i32>, shift: bool)
    ensures
        final(rows)@ == old(rows)@.map_values(|row: Row| boxed_row(row, hits@, shift)),
{
    let ghost before = rows@;
    let mut i: usize = 0;
    while i < rows.len()
        invariant
            i <= rows.len(),
            rows@.len() == before.len(),
            forall|j: int| 0 <= j < i ==> #[trigger] rows@[j] == boxed_row(before[j], hits@, shift),
            forall|j: int| i <= j < rows@.len() ==> #[trigger] rows@[j] == before[j],
        decreases rows.len() - i,
    {
        let row: Row = rows[i];
        let found = hit(hits, row.id);
        let selected = if shift {
            row.selected || found
        } else {
            found
        };
        rows.set(i, Row { id: row.id, selected });
        i = i + 1;
    }
    assert(rows@ =~= before.map_values(|row: Row| boxed_row(row, hits@, shift)));
}

/// The rows of the window.
#[derive(Debug, PartialEq, Eq)]
pub struct Selection {
    pub nodes: Vec<Row>,
    pub links: Vec<Row>,
}

impl Selection {
    /// Picks a node. Without shift no link stays selected.
    pub fn select_node(&mut self, id: i32, shift: bool)
        ensures
            final(self).nodes@ == old(self).nodes@.map_values(
                |row: Row| picked_row(row, id, shift),
            ),
            final(self).links@ == left_rows(old(self).links@, shift),
    {
        pick_row(&mut self.nodes, id, shift);
        if !shift {
            clear_rows(&mut self.links);
        }
    }

    /// Picks a link. Without shift no node stays selected.
    pub fn select_link(&mut self, id: i32, shift: bool)
        ensures
            final(self).nodes@ == left_rows(old(self).nodes@, shift),
            final(self).links@ == old(self).links@.map_values(
                |row: Row| picked_row(row, id, shift),
            ),
    {
        if !shift {
            clear_rows(&mut self.nodes);
        }
        pick_row(&mut self.links, id, shift);
    }

    /// Picks the nodes in a box.
    pub fn select_box(&mut self, hits: &Vec<i32>, shift: bool)
        ensures
            final(self).nodes@ == old(self).nodes@.map_values(
                |row: Row| boxed_row(row, hits@, shift),
            ),
            final(self).links@ == left_rows(old(self).links@, shift),
    {
        box_rows(&mut self.nodes, hits, shift);
        if !shift {
            clear_rows(&mut self.links);
        }
    }

    pub fn clear(&mut self)
        ensures
            final(self).nodes@ == unselected(old(self).nodes@),
            final(self).links@ == unselected(old(self).links@),
    {
        clear_rows(&mut self.nodes);
        clear_rows(&mut self.links);
    }

    /// The link that counts as selected: the first.
    pub fn selected_link(&self) -> (r: Option<i32>)
        ensures
            match r {
                Some(id) => exists|i: int|
                    0 <= i < self.links@.len() && (#[trigger] self.links@[i]).selected
                        && self.links@[i].id == id && forall|j: int|
                        0 <= j < i ==> !(#[trigger] self.links@[j]).selected,
                None => forall|i: int|
                    0 <= i < self.links@.len() ==> !(#[trigger] self.links@[i]).selected,
            },
    {
        let mut i: usize = 0;
        while i < self.links.len()
            invariant
                i <= self.links.len(),
                forall|j: int| 0 <= j < i ==> !(#[trigger] self.links@[j]).selected,
            decreases self.links.len() - i,
        {
            if self.links[i].selected {
                return Some(self.links[i].id);
            }
            i = i + 1;
        }
        None
    }
}

/// Picking without shift selects just what was picked.
pub proof fn law_plain_pick_is_alone(row: Row, id: i32)
    ensures
        picked_row(row, id, false).selected == (row.id == id),
{
}

/// Picking twice with shift changes nothing.
pub proof fn law_shift_pick_twice(row: Row, id: i32)
    ensures
        picked_row(picked_row(row, id, true), id, true) == row,
{
}

/// A selected row stands for the node.
pub open spec fn row_selects(rows: Seq<Row>, nodes: Seq<Option<NodeId>>, i: int, k: u64) -> bool {
    rows[i].selected && nodes[i] == Some(NodeId(k))
}

/// The nodes of the selected rows, in ascending order. `nodes` says for which
/// node each row stands.
pub fn selected_nodes(rows: &Vec<Row>, nodes: &Vec<Option<NodeId>>) -> (r: Vec<u64>)
    requires
        rows@.len() == nodes@.len(),
    ensures
        ascending(r@),
        forall|k: u64| #[trigger]
            r@.contains(k) <==> exists|i: int|
                0 <= i < rows@.len() && #[trigger] row_selects(rows@, nodes@, i, k),
{
    let mut found: Vec<u64> = Vec::new();
    let mut i: usize = 0;
    while i < rows.len()
        invariant
            i <= rows.len(),
            rows@.len() == nodes@.len(),
            ascending(found@),
            forall|k: u64| #[trigger]
                found@.contains(k) <==> exists|j: int|
                    0 <= j < i && #[trigger] row_selects(rows@, nodes@, j, k),
        decreases rows.len() - i,
    {
        let ghost before = found@;
        if rows[i].selected {
            if let Some(node) = nodes[i] {
                insert_ascending(&mut found, node.0);
                assert(row_selects(rows@, nodes@, i as int, node.0));
            }
        }
        assert forall|k: u64| #[trigger] found@.contains(k) <==> exists|j: int|
            0 <= j < i + 1 && #[trigger] row_selects(rows@, nodes@, j, k) by {
            if before.contains(k) {
                let j = choose|j: int| 0 <= j < i && #[trigger] row_selects(rows@, nodes@, j, k);
                assert(row_selects(rows@, nodes@, j, k));
            }
            if exists|j: int| 0 <= j < i + 1 && #[trigger] row_selects(rows@, nodes@, j, k) {
                let j = choose|j: int|
                    0 <= j < i + 1 && #[trigger] row_selects(rows@, nodes@, j, k);
                if j < i {
                    assert(before.contains(k));
                }
            }
        }
        i = i + 1;
    }
    found
}

/// What the window asks of the graph.
#[derive(Debug, PartialEq, Eq)]
pub enum CanvasAction {
    Connect { output: PortId, input: PortId },
    ConnectMany { pairs: Vec<(PortId, PortId)> },
    DisconnectMany { links: Vec<LinkId> },
    DisconnectNode { node: NodeId },
    CommitNodeMove { before: Vec<(NodeId, Position)>, after: Vec<(NodeId, Position)> },
}

/// The pairs of ports that an action joins.
pub open spec fn pairs_joined(action: CanvasAction) -> Seq<(PortId, PortId)> {
    match action {
        CanvasAction::Connect { output, input } => seq![(output, input)],
        CanvasAction::ConnectMany { pairs } => pairs@,
        _ => Seq::empty(),
    }
}

/// Joining the pairs: one of them by itself, any other number together.
pub fn connect_action(pairs: Vec<(PortId, PortId)>) -> (r: CanvasAction)
    ensures
        pairs_joined(r) == pairs@,
        if pairs@.len() == 1 {
            r == (CanvasAction::Connect { output: pairs@[0].0, input: pairs@[0].1 })
        } else {
            r == (CanvasAction::ConnectMany { pairs })
        },
{
    if pairs.len() == 1 {
        assert(pairs@ =~= seq![(pairs@[0].0, pairs@[0].1)]);
        CanvasAction::Connect { output: pairs[0].0, input: pairs[0].1 }
    } else {
        CanvasAction::ConnectMany { pairs }
    }
}

/// Joining the pairs of a link that was dropped on a node. Without a pair
/// there is nothing to do.
pub fn drop_action(pairs: Vec<(PortId, PortId)>) -> (r: Option<CanvasAction>)
    ensures
        match r {
            Some(action) => pairs@.len() > 0 && pairs_joined(action) == pairs@,
            None => pairs@.len() == 0,
        },
        if pairs@.len() == 0 {
            r is None
        } else if pairs@.len() == 1 {
            r == Some(CanvasAction::Connect { output: pairs@[0].0, input: pairs@[0].1 })
        } else {
            r == Some(CanvasAction::ConnectMany { pairs })
        },
{
    if pairs.len() == 0 {
        None
    } else {
        Some(connect_action(pairs))
    }
}

/// The actions delete what is selected: the links together, then each node.
pub open spec fn deletes(actions: Seq<CanvasAction>, links: Vec<LinkId>, nodes: Seq<u64>) -> bool {
    let first = if links@.len() > 0 {
        1int
    } else {
        0int
    };
    &&& actions.len() == first + nodes.len()
    &&& links@.len() > 0 ==> actions[0] == (CanvasAction::DisconnectMany { links })
    &&& forall|k: int|
        first <= k < actions.len() ==> #[trigger] actions[k] == (CanvasAction::DisconnectNode {
            node: NodeId(nodes[k - first]),
        })
}

/// Deletes what is selected.
pub fn delete_actions(links: Vec<LinkId>, nodes: &Vec<u64>) -> (r: Vec<CanvasAction>)
    ensures
        deletes(r@, links, nodes@),
{
    let mut actions: Vec<CanvasAction> = Vec::new();
    let some = links.len() > 0;
    if some {
        actions.push(CanvasAction::DisconnectMany { links });
    }
    let ghost first = actions@.len() as int;
    let ghost start = actions@;
    assert(some ==> first == 1 && start[0] == (CanvasAction::DisconnectMany { links }));
    assert(!some ==> first == 0);
    let mut i: usize = 0;
    while i < nodes.len()
        invariant
            i <= nodes.len(),
            actions@.len() == first + i,
            start.len() == first,
            forall|j: int| 0 <= j < first ==> actions@[j] == start[j],
            forall|k: int|
                first <= k < actions@.len() ==> #[trigger] actions@[k] == (
                CanvasAction::DisconnectNode { node: NodeId(nodes@[k - first]) }),
        decreases nodes.len() - i,
    {
        actions.push(CanvasAction::DisconnectNode { node: NodeId(nodes[i]) });
        i = i + 1;
    }
    assert(some ==> actions@[0] == start[0]);
    actions
}

/// The links at the ports of a node, in ascending order.
pub fn links_touching_node(graph: &Graph, node: NodeId) -> (r: Vec<Link>)
    requires
        graph.wf(),
    ensures
        ({
            let keys = keys_where(graph@.links, |link: Link| graph@.link_touches(link, node));
            &&& r@.len() == keys.len()
            &&& forall|i: int| 0 <= i < r@.len() ==> #[trigger] r@[i] == graph@.links[keys[i]]
        }),
        forall|i: int|
            0 <= i < r@.len() ==> {
                let link = #[trigger] r@[i];
                &&& graph@.has_link(link.id)
                &&& graph@.link(link.id) == link
                &&& graph@.port(link.output_port).node_id == node || graph@.port(
                    link.input_port,
                ).node_id == node
            },
        forall|k: u64| #[trigger]
            graph@.links.contains_key(k) && (graph@.port(graph@.links[k].output_port).node_id
                == node || graph@.port(graph@.links[k].input_port).node_id == node)
                ==> r@.contains(graph@.links[k]),
{
    let keys = graph.links_at_node(node);
    let ghost p = |link: Link| graph@.link_touches(link, node);
    proof {
        crate::table::lemma_keys_where(keys@, graph@.links, p);
    }
    let mut links: Vec<Link> = Vec::new();
    let mut i: usize = 0;
    while i < keys.len()
        invariant
            i <= keys.len(),
            lists_keys(keys@, graph@.links, p),
            links@.len() == i,
            forall|j: int| 0 <= j < i ==> #[trigger] links@[j] == graph@.links[keys@[j]],
        decreases keys.len() - i,
    {
        assert(keys@.contains(keys@[i as int]));
        assert(graph@.links.contains_key(keys@[i as int]));
        if let Some(link) = graph.link(LinkId(keys[i])) {
            links.push(link);
        }
        i = i + 1;
    }
    proof {
        assert forall|j: int| 0 <= j < links@.len() implies {
            let link = #[trigger] links@[j];
            &&& graph@.has_link(link.id)
            &&& graph@.link(link.id) == link
            &&& graph@.link_touches(link, node)
        } by {
            assert(keys@.contains(keys@[j]));
        }
        assert forall|k: u64| #[trigger]
            graph@.links.contains_key(k) && graph@.link_touches(
                graph@.links[k],
                node,
            ) implies links@.contains(graph@.links[k]) by {
            assert(p(graph@.links[k]));
            assert(keys@.contains(k));
            let j = choose|j: int| 0 <= j < keys@.len() && keys@[j] == k;
            assert(links@[j] == graph@.links[k]);
        }
    }
    links
}

/// Both ends of a link are named.
pub open spec fn has_keys(g: GraphView) -> spec_fn(Link) -> bool {
    |link: Link| g.key_of(link.output_port) is Some && g.key_of(link.input_port) is Some
}

/// What names the ends of links across sessions.
pub fn stable_link_pairs(graph: &Graph, links: &Vec<Link>) -> (r: Vec<(PortKey, PortKey)>)
    ensures
        ({
            let shown = kept(links@, has_keys(graph@));
            &&& r@.len() == shown.len()
            &&& forall|i: int|
                0 <= i < r@.len() ==> {
                    &&& graph@.key_of(shown[i].output_port) == Some((#[trigger] r@[i]).0@)
                    &&& graph@.key_of(shown[i].input_port) == Some(r@[i].1@)
                }
        }),
{
    let mut pairs: Vec<(PortKey, PortKey)> = Vec::new();
    let mut i: usize = 0;
    while i < links.len()
        invariant
            i <= links.len(),
            pairs@.len() == kept(links@.take(i as int), has_keys(graph@)).len(),
            forall|j: int|
                0 <= j < pairs@.len() ==> {
                    let shown = kept(links@.take(i as int), has_keys(graph@));
                    &&& graph@.key_of(shown[j].output_port) == Some((#[trigger] pairs@[j]).0@)
                    &&& graph@.key_of(shown[j].input_port) == Some(pairs@[j].1@)
                },
        decreases links.len() - i,
    {
        proof {
            lemma_kept_step(links@, has_keys(graph@), i as int);
        }
        match (graph.port_key(links[i].output_port), graph.port_key(links[i].input_port)) {
            (Some(output), Some(input)) => {
                pairs.push((output, input));
            },
            _ => {},
        }
        i = i + 1;
    }
    assert(links@.take(i as int) =~= links@);
    pairs
}

/// The port takes something in.
pub open spec fn is_input(g: GraphView) -> spec_fn(PortId) -> bool {
    |p: PortId| g.has_port(p) && g.port(p).direction == Direction::Sink
}

/// The inputs of a node.
pub fn input_ports(graph: &Graph, node: NodeId) -> (r: Vec<PortId>)
    ensures
        r@ == (if graph@.has_node(node) {
            kept(graph@.node(node).ports, is_input(graph@))
        } else {
            Seq::empty()
        }),
{
    let mut inputs: Vec<PortId> = Vec::new();
    if let Some(found) = graph.node(node) {
        let mut i: usize = 0;
        while i < found.ports.len()
            invariant
                i <= found.ports.len(),
                inputs@ == kept(found.ports@.take(i as int), is_input(graph@)),
            decreases found.ports.len() - i,
        {
            let id = found.ports[i];
            proof {
                lemma_kept_step(found.ports@, is_input(graph@), i as int);
            }
            if let Some(port) = graph.port(id) {
                if port.direction.is_sink() {
                    inputs.push(id);
                }
            }
            i = i + 1;
        }
        assert(found.ports@.take(i as int) =~= found.ports@);
    }
    inputs
}

/// Two coordinates are the same number.
pub open spec fn same_number(a: u32, b: u32) -> bool {
    !is_nan(a) && !is_nan(b) && (a == b || (magnitude(a) == 0 && magnitude(b) == 0))
}

/// Two positions are the same place.
pub open spec fn same_place(a: Position, b: Position) -> bool {
    same_number(a.x, b.x) && same_number(a.y, b.y)
}

fn numbers_equal(a: u32, b: u32) -> (r: bool)
    ensures
        r == same_number(a, b),
{
    let x = magnitude_of(a);
    let y = magnitude_of(b);
    x <= INFINITE && y <= INFINITE && (a == b || (x == 0 && y == 0))
}

pub fn places_equal(a: Position, b: Position) -> (r: bool)
    ensures
        r == same_place(a, b),
{
    numbers_equal(a.x, b.x) && numbers_equal(a.y, b.y)
}

/// A node's row when a drag ends: which node it stands for, and where it was
/// let go.
#[derive(Clone, Copy, Debug, PartialEq, Eq)]
pub struct DragRow {
    pub id: i32,
    pub selected: bool,
    pub node: Option<NodeId>,
    pub position: Position,
}

/// The row moves with the drag: it is the dragged one or selected, and its
/// node is in the graph.
pub open spec fn drags(g: GraphView, dragged: i32) -> spec_fn(DragRow) -> bool {
    |row: DragRow|
        (row.selected || row.id == dragged) && row.node is Some && g.has_node(row.node->0)
}

/// What the end of a drag comes to.
#[derive(Debug, PartialEq, Eq)]
pub enum DragStep {
    Nothing,
    /// Move these nodes, as a step that can be undone.
    Commit { before: Vec<(NodeId, Position)>, after: Vec<(NodeId, Position)> },
    /// Nothing was moved; put the node where it is shown.
    Place { node: NodeId, position: Position, moved: bool },
}

/// Some row was let go at another place than its node has.
pub open spec fn some_moved(g: GraphView, rows: Seq<DragRow>) -> bool {
    exists|i: int|
        0 <= i < rows.len() && !same_place(
            g.node((#[trigger] rows[i]).node->0).position,
            rows[i].position,
        )
}

/// Where the nodes of rows are.
pub open spec fn places_before(g: GraphView, rows: Seq<DragRow>) -> Seq<(NodeId, Position)> {
    rows.map_values(|row: DragRow| (row.node->0, g.node(row.node->0).position))
}

/// Where the rows were let go.
pub open spec fn places_after(rows: Seq<DragRow>) -> Seq<(NodeId, Position)> {
    rows.map_values(|row: DragRow| (row.node->0, row.position))
}

/// The first row of a number.
pub open spec fn row_at(rows: Seq<DragRow>, id: i32, i: int) -> bool {
    &&& 0 <= i < rows.len()
    &&& rows[i].id == id
    &&& forall|j: int| 0 <= j < i ==> (#[trigger] rows[j]).id != id
}

/// The step ends a drag of the node in row `dragged`, which stands for
/// `dragged_node`.
pub open spec fn ends_drag(
    g: GraphView,
    rows: Seq<DragRow>,
    dragged: i32,
    dragged_node: Option<NodeId>,
    step: DragStep,
) -> bool {
    match dragged_node {
        None => step is Nothing,
        Some(node) => {
            let moving = kept(rows, drags(g, dragged));
            if some_moved(g, moving) {
                &&& step matches DragStep::Commit { before, after }
                &&& before@ == places_before(g, moving)
                &&& after@ == places_after(moving)
            } else if g.has_node(node) && exists|i: int| row_at(rows, dragged, i) {
                &&& step matches DragStep::Place { node: n, position, moved }
                &&& n == node
                &&& exists|i: int| #[trigger]
                    row_at(rows, dragged, i) && position == rows[i].position
                &&& moved == !same_place(g.node(node).position, position)
            } else {
                step is Nothing
            }
        },
    }
}

/// Ends a drag.
pub fn commit_drag(
    graph: &Graph,
    rows: &Vec<DragRow>,
    dragged: i32,
    dragged_node: Option<NodeId>,
) -> (r: DragStep)
    ensures
        ends_drag(graph@, rows@, dragged, dragged_node, r),
{
    let node = match dragged_node {
        None => {
            return DragStep::Nothing;
        },
        Some(node) => node,
    };
    let ghost p = drags(graph@, dragged);
    let mut before: Vec<(NodeId, Position)> = Vec::new();
    let mut after: Vec<(NodeId, Position)> = Vec::new();
    let mut moved_any = false;
    let mut i: usize = 0;
    while i < rows.len()
        invariant
            i <= rows.len(),
            p == drags(graph@, dragged),
            before@ == places_before(graph@, kept(rows@.take(i as int), p)),
            after@ == places_after(kept(rows@.take(i as int), p)),
            moved_any == some_moved(graph@, kept(rows@.take(i as int), p)),
        decreases rows.len() - i,
    {
        let row: DragRow = rows[i];
        let ghost sofar = kept(rows@.take(i as int), p);
        proof {
            lemma_kept_step(rows@, p, i as int);
        }
        if row.selected || row.id == dragged {
            if let Some(id) = row.node {
                if let Some(found) = graph.node(id) {
                    let old_place: Position = found.position;
                    before.push((id, old_place));
                    after.push((id, row.position));
                    let same = places_equal(old_place, row.position);
                    proof {
                        let now = sofar.push(row);
                        assert(before@ =~= places_before(graph@, now));
                        assert(after@ =~= places_after(now));
                        assert(now[sofar.len() as int] == row);
                        assert forall|j: int| 0 <= j < sofar.len() implies #[trigger] now[j]
                            == sofar[j] by {}
                        if some_moved(graph@, sofar) {
                            let j = choose|j: int|
                                0 <= j < sofar.len() && !same_place(
                                    graph@.node((#[trigger] sofar[j]).node->0).position,
                                    sofar[j].position,
                                );
                            assert(now[j] == sofar[j]);
                        }
                        assert(some_moved(graph@, now) == (some_moved(graph@, sofar) || !same));
                    }
                    if !same {
                        moved_any = true;
                    }
                }
            }
        }
        i = i + 1;
    }
    assert(rows@.take(i as int) =~= rows@);
    if moved_any {
        return DragStep::Commit { before, after };
    }
    match graph.node(node) {
        None => DragStep::Nothing,
        Some(found) => {
            let mut k: usize = 0;
            while k < rows.len()
                invariant
                    k <= rows.len(),
                    graph@.has_node(node),
                    found@ == graph@.node(node),
                    dragged_node == Some(node),
                    !some_moved(graph@, kept(rows@, drags(graph@, dragged))),
                    forall|j: int| 0 <= j < k ==> (#[trigger] rows@[j]).id != dragged,
                decreases rows.len() - k,
            {
                if rows[k].id == dragged {
                    assert(row_at(rows@, dragged, k as int));
                    let position: Position = rows[k].position;
                    return DragStep::Place {
                        node,
                        position,
                        moved: !places_equal(found.position, position),
                    };
                }
                k = k + 1;
            }
            DragStep::Nothing
        },
    }
}

/// A box selects every node in it, with shift or without. With shift what was
/// selected stays so. Nothing else is selected, and no row changes its number.
pub proof fn law_box_selects(rows: Seq<Row>, hits: Seq<i32>, shift: bool, i: int)
    requires
        0 <= i < rows.len(),
    ensures
        ({
            let after = rows.map_values(|row: Row| boxed_row(row, hits, shift));
            &&& after.len() == rows.len()
            &&& after[i].id == rows[i].id
            &&& hits.contains(rows[i].id) ==> after[i].selected
            &&& shift && rows[i].selected ==> after[i].selected
            &&& after[i].selected ==> hits.contains(rows[i].id) || (shift && rows[i].selected)
        }),
{
}

/// A click selects what was clicked and nothing else. With shift it switches
/// what was clicked and leaves the others as they were.
pub proof fn law_click_selects(rows: Seq<Row>, id: i32, shift: bool, i: int)
    requires
        0 <= i < rows.len(),
    ensures
        ({
            let after = rows.map_values(|row: Row| picked_row(row, id, shift));
            &&& after.len() == rows.len()
            &&& after[i].id == rows[i].id
            &&& !shift && rows[i].id == id ==> after[i].selected
            &&& !shift && rows[i].id != id ==> !after[i].selected
            &&& shift && rows[i].id == id ==> after[i].selected != rows[i].selected
            &&& shift && rows[i].id != id ==> after[i].selected == rows[i].selected
        }),
{
}

/// Clicking with shift from nothing selected, one node after the other,
/// selects both, in either order.
pub proof fn law_shift_clicks_commute(rows: Seq<Row>, a: i32, b: i32)
    ensures
        rows.map_values(|row: Row| picked_row(row, a, true)).map_values(
            |row: Row| picked_row(row, b, true),
        ) == rows.map_values(|row: Row| picked_row(row, b, true)).map_values(
            |row: Row| picked_row(row, a, true),
        ),
{
    assert(rows.map_values(|row: Row| picked_row(row, a, true)).map_values(
        |row: Row| picked_row(row, b, true),
    ) =~= rows.map_values(|row: Row| picked_row(row, b, true)).map_values(
        |row: Row| picked_row(row, a, true),
    ));
}

/// Two boxes with shift select what one box around both would.
pub proof fn law_boxes_add_up(rows: Seq<Row>, a: Seq<i32>, b: Seq<i32>)
    ensures
        rows.map_values(|row: Row| boxed_row(row, a, true)).map_values(
            |row: Row| boxed_row(row, b, true),
        ) == rows.map_values(|row: Row| boxed_row(row, a + b, true)),
{
    assert forall|x: i32| (a + b).contains(x) == (a.contains(x) || b.contains(x)) by {
        if a.contains(x) {
            let i = choose|i: int| 0 <= i < a.len() && a[i] == x;
            assert((a + b)[i] == x);
        }
        if b.contains(x) {
            let i = choose|i: int| 0 <= i < b.len() && b[i] == x;
            assert((a + b)[a.len() + i] == x);
        }
    }
    assert(rows.map_values(|row: Row| boxed_row(row, a, true)).map_values(
        |row: Row| boxed_row(row, b, true),
    ) =~= rows.map_values(|row: Row| boxed_row(row, a + b, true)));
}

/// Picking a node leaves the links selected with shift, and none of them
/// without; so does picking a link with the nodes. Clearing selects nothing.
pub proof fn law_other_rows(rows: Seq<Row>, i: int)
    requires
        0 <= i < rows.len(),
    ensures
        left_rows(rows, true) == rows,
        left_rows(rows, false).len() == rows.len(),
        left_rows(rows, false)[i].id == rows[i].id,
        !left_rows(rows, false)[i].selected,
        unselected(rows).len() == rows.len(),
        unselected(rows)[i].id == rows[i].id,
        !unselected(rows)[i].selected,
{
}

/// A row names a node as selected exactly where it is selected and stands for
/// that node.
pub proof fn law_rows_name_their_nodes(
    rows: Seq<Row>,
    nodes: Seq<Option<NodeId>>,
    i: int,
    node: NodeId,
    other: NodeId,
)
    requires
        0 <= i < rows.len(),
        rows.len() == nodes.len(),
        nodes[i] == Some(node),
    ensures
        row_selects(rows, nodes, i, node.0) == rows[i].selected,
        other != node ==> !row_selects(rows, nodes, i, other.0),
{
}

/// Deleting disconnects every selected link and every selected node, and
/// does nothing else.
pub proof fn law_deletion_is_complete(
    actions: Seq<CanvasAction>,
    links: Vec<LinkId>,
    nodes: Seq<u64>,
)
    requires
        deletes(actions, links, nodes),
    ensures
        links@.len() > 0 ==> actions.contains(CanvasAction::DisconnectMany { links }),
        forall|k: u64| #[trigger]
            nodes.contains(k) ==> actions.contains(
                CanvasAction::DisconnectNode { node: NodeId(k) },
            ),
        forall|i: int|
            0 <= i < actions.len() ==> match #[trigger] actions[i] {
                CanvasAction::DisconnectMany { links: gone } => gone == links && links@.len() > 0,
                CanvasAction::DisconnectNode { node } => nodes.contains(node.0),
                _ => false,
            },
{
    let first = if links@.len() > 0 {
        1int
    } else {
        0int
    };
    if links@.len() > 0 {
        assert(actions.contains(actions[0]));
    }
    assert forall|k: u64| #[trigger] nodes.contains(k) implies actions.contains(
        CanvasAction::DisconnectNode { node: NodeId(k) },
    ) by {
        let i = choose|i: int| 0 <= i < nodes.len() && nodes[i] == k;
        assert(actions[first + i] == (CanvasAction::DisconnectNode { node: NodeId(k) }));
        assert(actions.contains(actions[first + i]));
    }
    assert forall|i: int| 0 <= i < actions.len() implies match #[trigger] actions[i] {
        CanvasAction::DisconnectMany { links: gone } => gone == links && links@.len() > 0,
        CanvasAction::DisconnectNode { node } => nodes.contains(node.0),
        _ => false,
    } by {
        if i >= first {
            assert(nodes.contains(nodes[i - first]));
        }
    }
}

/// What names the ends of links is kept for every link whose ends are in the
/// graph, each with its node, and for no other.
pub proof fn law_named_links(g: GraphView, links: Seq<Link>, link: Link)
    ensures
        kept(links, has_keys(g)).contains(link) <==> {
            &&& links.contains(link)
            &&& g.has_port(link.output_port) && g.has_node(g.port(link.output_port).node_id)
            &&& g.has_port(link.input_port) && g.has_node(g.port(link.input_port).node_id)
        },
{
    crate::lists::lemma_kept_members(links, has_keys(g), link);
}

/// The inputs of a node are its ports that take something in.
pub proof fn law_inputs_of_a_node(g: GraphView, node: NodeId, p: PortId)
    requires
        g.wf(),
        g.has_node(node),
    ensures
        kept(g.node(node).ports, is_input(g)).contains(p) <==> {
            &&& g.has_port(p)
            &&& g.port(p).node_id == node
            &&& g.port(p).direction == Direction::Sink
        },
{
    crate::lists::lemma_kept_members(g.node(node).ports, is_input(g), p);
    if g.has_port(p) && g.port(p).node_id == node {
        assert(g.lists(node.0, g.port(p).id));
        assert(g.port(p).id == p);
    }
    if g.node(node).ports.contains(p) {
        assert(g.lists(node.0, p));
    }
}

/// The row moves with a drag: it is selected or the dragged one, and stands
/// for a node of the graph.
pub open spec fn moves_along(g: GraphView, row: DragRow, dragged: i32) -> bool {
    &&& row.selected || row.id == dragged
    &&& row.node is Some
    &&& g.has_node(row.node->0)
}

/// A drag moves the dragged node and every selected one from where it was to
/// where it was let go, and no other node, where one of them was let go at
/// another place; else it moves nothing.
pub proof fn law_drag_moves_the_selection(
    g: GraphView,
    rows: Seq<DragRow>,
    dragged: i32,
    node: NodeId,
    step: DragStep,
)
    requires
        ends_drag(g, rows, dragged, Some(node), step),
    ensures
        step is Commit <==> exists|i: int|
            0 <= i < rows.len() && moves_along(g, #[trigger] rows[i], dragged) && !same_place(
                g.node(rows[i].node->0).position,
                rows[i].position,
            ),
        step matches DragStep::Commit { before, after } ==> {
            &&& before@.len() == after@.len()
            &&& forall|j: int|
                0 <= j < before@.len() ==> (#[trigger] before@[j]).0 == after@[j].0
                    && before@[j].1 == g.node(before@[j].0).position
            &&& forall|i: int|
                0 <= i < rows.len() && moves_along(g, #[trigger] rows[i], dragged)
                    ==> after@.contains((rows[i].node->0, rows[i].position))
            &&& forall|j: int|
                0 <= j < after@.len() ==> exists|i: int|
                    0 <= i < rows.len() && moves_along(g, #[trigger] rows[i], dragged)
                        && #[trigger] after@[j] == (rows[i].node->0, rows[i].position)
        },
{
    let p = drags(g, dragged);
    let moving = kept(rows, p);
    assert forall|i: int| 0 <= i < rows.len() && moves_along(g, #[trigger] rows[i], dragged) implies
        exists|j: int| 0 <= j < moving.len() && #[trigger] moving[j] == rows[i] by {
        crate::lists::lemma_kept_members(rows, p, rows[i]);
        assert(rows.contains(rows[i]));
        assert(moving.contains(rows[i]));
    }
    assert forall|j: int| #![trigger moving[j]] 0 <= j < moving.len() implies exists|i: int|
        0 <= i < rows.len() && #[trigger] rows[i] == moving[j] && moves_along(
            g,
            rows[i],
            dragged,
        ) by {
        crate::lists::lemma_kept_members(rows, p, moving[j]);
        assert(moving.contains(moving[j]));
        let i = choose|i: int| 0 <= i < rows.len() && rows[i] == moving[j];
        assert(rows[i] == moving[j]);
    }
    if exists|i: int|
        0 <= i < rows.len() && moves_along(g, #[trigger] rows[i], dragged) && !same_place(
            g.node(rows[i].node->0).position,
            rows[i].position,
        ) {
        let i = choose|i: int|
            0 <= i < rows.len() && moves_along(g, #[trigger] rows[i], dragged) && !same_place(
                g.node(rows[i].node->0).position,
                rows[i].position,
            );
        let j = choose|j: int| 0 <= j < moving.len() && #[trigger] moving[j] == rows[i];
        assert(some_moved(g, moving));
    }
    if let DragStep::Commit { before, after } = step {
        assert forall|i: int|
            0 <= i < rows.len() && moves_along(g, #[trigger] rows[i], dragged) implies after@.contains(
            (rows[i].node->0, rows[i].position),
        ) by {
            let j = choose|j: int| 0 <= j < moving.len() && #[trigger] moving[j] == rows[i];
            assert(after@[j] == (rows[i].node->0, rows[i].position));
        }
    }
}

/// A drag that moved nothing shows the dragged node where its row is.
pub proof fn law_still_drag_keeps_the_place(
    g: GraphView,
    rows: Seq<DragRow>,
    dragged: i32,
    node: NodeId,
    step: DragStep,
    i: int,
)
    requires
        ends_drag(g, rows, dragged, Some(node), step),
        !(step is Commit),
        g.has_node(node),
        0 <= i < rows.len(),
        rows[i].id == dragged,
        forall|j: int| 0 <= j < i ==> (#[trigger] rows[j]).id != dragged,
    ensures
        step == (DragStep::Place {
            node,
            position: rows[i].position,
            moved: !same_place(g.node(node).position, rows[i].position),
        }),
{
    assert(row_at(rows, dragged, i));
    let position = step->position;
    let j = choose|j: int| #[trigger] row_at(rows, dragged, j) && position == rows[j].position;
    if j < i {
        assert(rows[j].id != dragged);
    }
    if i < j {
        assert(rows[i].id != dragged);
    }
}

/// Places are the same where the coordinates are the same numbers: nothing is
/// at the place of what is not a number, zero has no sign, and else the bits
/// decide.
pub proof fn law_same_place(a: Position, b: Position)
    ensures
        same_place(a, b) == same_place(b, a),
        same_place(a, b) ==> !is_nan(a.x) && !is_nan(a.y) && !is_nan(b.x) && !is_nan(b.y),
        !is_nan(a.x) && !is_nan(a.y) ==> same_place(a, a),
        same_place(a, b) && magnitude(a.x) != 0 ==> a.x == b.x,
        same_place(a, b) && magnitude(a.y) != 0 ==> a.y == b.y,
        same_place(a, b) ==> magnitude(a.x) == magnitude(b.x) && magnitude(a.y) == magnitude(b.y),
{
}

} // verus!
