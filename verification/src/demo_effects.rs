//! Effects of the backend in memory. Every change happens as a whole or not
//! at all.
use crate::demo::{DemoDriver, DemoView};
use crate::effect_model::{
    already_exists, copy_key, demo_channels, effect_already_exists, effect_link_endpoints,
    effect_node_name, effect_restore_endpoints, effect_routing_incomplete, ends_of,
    incomplete_routing, inferred_audio_channels, insertion_point, is_blank, node_name_of,
    unknown_effect_instance, unknown_instance, EffectConfig, EffectConfigView, EffectInstance,
    EffectInstanceView, PreparedEffect, PreparedEffectView,
};
use crate::effect_request::{
    event_views, news_views, opt_event, report_of, reported, EffectCreateRequest,
    EffectCreateRequestView, EffectEvent, EffectEventView, EffectTarget, EffectTargetView,
    PreparationEvent, PreparationEventView,
};
use crate::graph::{Graph, GraphView};
use crate::ids::{LinkId, NodeId, PortId};
use crate::insertion::{
    host_error, host_node, hosted, law_host_remove_is_identity, lemma_hosted_is_free,
    lemma_hosted_wf, lemma_retired_fits, node_fits, retire, retire_error, retired, splice, splice_error, spliced,
};
use crate::model::{
    fresh_node, BackendError, BackendErrorView, Link, Node, NodeType, NodeView, PortKey,
    PortKeyView, Position,
};
use crate::text::{concat2, concat3, text_eq, trimmed};
use vstd::prelude::*;

verus! {

broadcast use vstd::std_specs::btree::group_btree_axioms;

/// The error for a prepared effect of another kind.
pub open spec fn mismatch(prepared: Seq<char>, requested: Seq<char>) -> BackendErrorView {
    BackendErrorView::Native(
        "prepared effect "@ + prepared + " does not match requested effect "@ + requested,
    )
}

fn mismatch_error(prepared: &str, requested: &str) -> (r: BackendError)
    ensures
        r@ == mismatch(prepared@, requested@),
{
    BackendError::Native(
        concat2(
            concat3("prepared effect ", prepared, " does not match requested effect ").as_str(),
            requested,
        ),
    )
}

impl DemoView {
    /// The node of an effect that is made next.
    pub open spec fn effect_node(
        self,
        config: EffectConfigView,
        name: Seq<char>,
        position: Position,
    ) -> NodeView {
        NodeView {
            position,
            effect_instance_id: Some(config.instance_id),
            ..fresh_node(
                NodeId(self.next_effect_id),
                node_name_of(name, config.instance_id),
                NodeType::Effect,
            )
        }
    }

    /// The input of an effect that is made next.
    pub open spec fn effect_input(self) -> PortId {
        PortId((self.next_effect_id + 1) as u64)
    }

    /// The output of an effect that is made next.
    pub open spec fn effect_output(self) -> PortId {
        PortId((self.next_effect_id + 2) as u64)
    }

    /// An effect that is made next.
    pub open spec fn next_effect(self, config: EffectConfigView) -> EffectInstanceView {
        EffectInstanceView {
            config,
            node_id: NodeId(self.next_effect_id),
            input_port: self.effect_input(),
            output_port: self.effect_output(),
            source: None,
            destination: None,
            error: None,
        }
    }

    /// The backend after numbers were used up.
    pub open spec fn numbered(self, objects: int, links: int) -> DemoView {
        DemoView {
            next_effect_id: (self.next_effect_id + objects) as u64,
            next_link_id: (self.next_link_id + links) as u64,
            ..self
        }
    }

    /// Why an effect is refused before anything is touched.
    pub open spec fn creation_refusal(
        self,
        config: EffectConfigView,
        prepared: Seq<char>,
    ) -> Option<BackendErrorView> {
        if self.effects.contains_key(config.instance_id) {
            Some(already_exists(config.instance_id))
        } else if prepared != config.effect_id {
            Some(mismatch(prepared, config.effect_id))
        } else {
            None
        }
    }

    /// Why the node of an effect cannot be made.
    pub open spec fn node_refusal(self) -> Option<BackendErrorView> {
        match host_error(
            self.graph,
            NodeId(self.next_effect_id),
            self.effect_input(),
            self.effect_output(),
        ) {
            Some(error) => Some(BackendErrorView::Graph(error)),
            None => None,
        }
    }

    /// The graph with the node of an effect.
    pub open spec fn effect_graph(
        self,
        config: EffectConfigView,
        name: Seq<char>,
        position: Position,
    ) -> GraphView {
        hosted(
            self.graph,
            self.effect_node(config, name, position),
            self.effect_input(),
            self.effect_output(),
        )
    }
}

/// What a request came to: what was made, or why nothing was.
pub open spec fn answers(
    r: Result<EffectInstance, BackendError>,
    outcome: Result<EffectInstanceView, BackendErrorView>,
) -> bool {
    match outcome {
        Ok(instance) => r matches Ok(made) && made@ == instance,
        Err(error) => r matches Err(e) && e@ == error,
    }
}

impl DemoView {
    /// Putting a prepared effect into the graph on its own: the backend
    /// afterwards, and the answer.
    pub open spec fn creation(
        self,
        config: EffectConfigView,
        position: Position,
        prepared: Seq<char>,
        name: Seq<char>,
    ) -> (DemoView, Result<EffectInstanceView, BackendErrorView>) {
        match self.creation_refusal(config, prepared) {
            Some(error) => (self, Err(error)),
            None => match self.node_refusal() {
                Some(error) => (self.numbered(3, 0), Err(error)),
                None => (
                    DemoView {
                        graph: self.effect_graph(config, name, position),
                        effects: self.effects.insert(
                            config.instance_id,
                            self.next_effect(config),
                        ),
                        ..self.numbered(3, 0)
                    },
                    Ok(self.next_effect(config)),
                ),
            },
        }
    }

    /// Putting a prepared effect into the connection between two ports: the
    /// backend afterwards, and the answer.
    pub open spec fn insertion(
        self,
        config: EffectConfigView,
        source: PortKeyView,
        destination: PortKeyView,
        position: Position,
        prepared: Seq<char>,
        name: Seq<char>,
    ) -> (DemoView, Result<EffectInstanceView, BackendErrorView>) {
        match insertion_point(self.graph, source, destination) {
            Err(error) => (self, Err(error)),
            Ok((output, input, original)) => match self.creation_refusal(config, prepared) {
                Some(error) => (self, Err(error)),
                None => match self.node_refusal() {
                    Some(error) => (self.numbered(3, 0), Err(error)),
                    None => {
                        let inside = self.effect_graph(config, name, position);
                        let made = EffectInstanceView {
                            source: Some(source),
                            destination: Some(destination),
                            ..self.next_effect(config)
                        };
                        match splice_error(
                            inside,
                            original,
                            self.effect_input(),
                            self.effect_output(),
                        ) {
                            Some(error) => (
                                self.numbered(3, 2),
                                Err(BackendErrorView::Graph(error)),
                            ),
                            None => (
                                DemoView {
                                    graph: spliced(
                                        inside,
                                        original,
                                        LinkId(self.next_link_id),
                                        LinkId((self.next_link_id + 1) as u64),
                                        self.effect_input(),
                                        self.effect_output(),
                                    ),
                                    effects: self.effects.insert(config.instance_id, made),
                                    ..self.numbered(3, 2)
                                },
                                Ok(made),
                            ),
                        }
                    },
                },
            },
        }
    }
}

/// The backend is sound after an effect was added to it.
proof fn lemma_effect_added(
    before: DemoView,
    after: DemoView,
    node: NodeView,
    instance: EffectInstanceView,
    id: Seq<char>,
)
    requires
        before.wf(),
        before.next_effect_id <= u64::MAX - 3,
        node.id == NodeId(before.next_effect_id),
        node.ports == Seq::<PortId>::empty(),
        host_error(
            before.graph,
            node.id,
            before.effect_input(),
            before.effect_output(),
        ) is None,
        after.graph.wf(),
        after.graph.nodes == hosted(
            before.graph,
            node,
            before.effect_input(),
            before.effect_output(),
        ).nodes,
        after.graph.ports == hosted(
            before.graph,
            node,
            before.effect_input(),
            before.effect_output(),
        ).ports,
        forall|k: u64| #[trigger] after.graph.links.contains_key(k) ==> k < after.next_link_id,
        instance.config.instance_id == id,
        instance.node_id == node.id,
        instance.input_port == before.effect_input(),
        instance.output_port == before.effect_output(),
        !before.effects.contains_key(id),
        after.effects == before.effects.insert(id, instance),
        after.recorders == before.recorders,
        after.next_effect_id == before.next_effect_id + 3,
        after.next_recorder_id == before.next_recorder_id,
    ensures
        after.wf(),
{
    assert forall|x: Seq<char>| #[trigger] after.effects.contains_key(
        x,
    ) implies after.effects[x].config.instance_id == x && after.effects[x].node_id.0
        < after.next_effect_id && after.effects[x].input_port.0 < after.next_effect_id
        && after.effects[x].output_port.0 < after.next_effect_id by {
        if x != id {
            assert(before.effects.contains_key(x));
        }
    }
    assert forall|k: u64| #[trigger] after.recorders.contains_key(k) implies
        crate::demo::recorder_fits(
        after.graph,
        after.recorders[k].node_id,
        after.recorders[k].input_port,
    ) && after.recorders[k].node_id.0 < after.next_effect_id by {
        assert(before.recorders.contains_key(k));
        let ports = before.graph.node(before.recorders[k].node_id).ports;
        assert(ports[0] == before.recorders[k].input_port);
        assert(ports.contains(ports[0]));
        assert(before.graph.lists(
            before.recorders[k].node_id.0,
            before.recorders[k].input_port,
        ));
    }
    assert forall|a: Seq<char>, b: Seq<char>|
        #![trigger after.effects.contains_key(a), after.effects.contains_key(b)]
        after.effects.contains_key(a) && after.effects.contains_key(b) && a
            != b implies after.effects[a].node_id != after.effects[b].node_id by {
        if a != id {
            assert(before.effects.contains_key(a));
        }
        if b != id {
            assert(before.effects.contains_key(b));
        }
    }
    assert forall|a: u64, b: u64|
        #![trigger after.recorders.contains_key(a), after.recorders.contains_key(b)]
        after.recorders.contains_key(a) && after.recorders.contains_key(b) && a
            != b implies after.recorders[a].node_id != after.recorders[b].node_id by {
        assert(before.recorders.contains_key(a));
        assert(before.recorders.contains_key(b));
    }
    assert forall|a: Seq<char>, k: u64|
        #![trigger after.effects.contains_key(a), after.recorders.contains_key(k)]
        after.effects.contains_key(a) && after.recorders.contains_key(
            k,
        ) implies after.effects[a].node_id != after.recorders[k].node_id by {
        assert(before.recorders.contains_key(k));
        if a != id {
            assert(before.effects.contains_key(a));
        }
    }
}

proof fn lemma_fits_elsewhere(
    g: GraphView,
    node: NodeView,
    input: PortId,
    output: PortId,
    h: GraphView,
    e: EffectInstanceView,
)
    requires
        g.wf(),
        input != output,
        host_error(g, node.id, input, output) is None,
        h.nodes == hosted(g, node, input, output).nodes,
        h.ports == hosted(g, node, input, output).ports,
        node_fits(g, e.node_id, e.input_port, e.output_port),
        e.node_id != node.id,
        e.input_port != input,
        e.input_port != output,
        e.output_port != input,
        e.output_port != output,
    ensures
        node_fits(h, e.node_id, e.input_port, e.output_port),
{
}

/// The backend is sound after an effect's node was taken out of it.
proof fn lemma_effect_gone(before: DemoView, after: DemoView, id: Seq<char>)
    requires
        before.wf(),
        before.effects.contains_key(id),
        after.graph.wf(),
        ({
            let node = before.effects[id].node_id;
            if before.graph.has_node(node) {
                &&& after.graph.nodes == before.graph.without_node(node).nodes
                &&& after.graph.ports == before.graph.without_node(node).ports
            } else {
                &&& after.graph.nodes == before.graph.nodes
                &&& after.graph.ports == before.graph.ports
            }
        }),
        forall|k: u64| #[trigger] after.graph.links.contains_key(k) ==> k < after.next_link_id,
        after.effects == before.effects.remove(id),
        after.recorders == before.recorders,
        after.next_effect_id == before.next_effect_id,
        after.next_recorder_id == before.next_recorder_id,
    ensures
        after.wf(),
{
    let g = before.graph;
    assert forall|x: Seq<char>| #[trigger] after.effects.contains_key(
        x,
    ) implies after.effects[x].config.instance_id == x && after.effects[x].node_id.0
        < after.next_effect_id && after.effects[x].input_port.0 < after.next_effect_id
        && after.effects[x].output_port.0 < after.next_effect_id by {
        assert(before.effects.contains_key(x));
    }
    assert forall|k: u64| #[trigger] after.recorders.contains_key(k) implies
        crate::demo::recorder_fits(
        after.graph,
        after.recorders[k].node_id,
        after.recorders[k].input_port,
    ) && after.recorders[k].node_id.0 < after.next_effect_id by {
        assert(before.recorders.contains_key(k));
        assert(before.effects.contains_key(id));
        let d = before.recorders[k];
        let ports = g.node(d.node_id).ports;
        assert(ports[0] == d.input_port);
        assert(ports.contains(ports[0]));
        assert(g.lists(d.node_id.0, d.input_port));
    }
    assert forall|a: Seq<char>, b: Seq<char>|
        #![trigger after.effects.contains_key(a), after.effects.contains_key(b)]
        after.effects.contains_key(a) && after.effects.contains_key(b) && a
            != b implies after.effects[a].node_id != after.effects[b].node_id by {
        assert(before.effects.contains_key(a));
        assert(before.effects.contains_key(b));
    }
    assert forall|a: u64, b: u64|
        #![trigger after.recorders.contains_key(a), after.recorders.contains_key(b)]
        after.recorders.contains_key(a) && after.recorders.contains_key(b) && a
            != b implies after.recorders[a].node_id != after.recorders[b].node_id by {
        assert(before.recorders.contains_key(a));
        assert(before.recorders.contains_key(b));
    }
    assert forall|a: Seq<char>, k: u64|
        #![trigger after.effects.contains_key(a), after.recorders.contains_key(k)]
        after.effects.contains_key(a) && after.recorders.contains_key(
            k,
        ) implies after.effects[a].node_id != after.recorders[k].node_id by {
        assert(before.effects.contains_key(a));
        assert(before.recorders.contains_key(k));
    }
}

/// The backend is sound after numbers were used up.
proof fn lemma_numbered(before: DemoView, objects: int, links: int)
    requires
        before.wf(),
        0 <= objects,
        0 <= links,
        before.next_effect_id + objects <= u64::MAX,
        before.next_link_id + links <= u64::MAX,
    ensures
        before.numbered(objects, links).wf(),
{
}

fn made_instance(config: EffectConfig, node_id: NodeId, input_port: PortId, output_port: PortId) -> (r:
    EffectInstance)
    ensures
        r.config == config,
        r@ == (EffectInstanceView {
            config: config@,
            node_id,
            input_port,
            output_port,
            source: None,
            destination: None,
            error: None,
        }),
{
    EffectInstance {
        config,
        node_id,
        input_port,
        output_port,
        source: None,
        destination: None,
        error: None,
    }
}

/// The view of a table of effects follows a change of one of them.
proof fn lemma_effects_inserted(
    before: Map<Seq<char>, EffectInstance>,
    id: Seq<char>,
    e: EffectInstance,
)
    ensures
        before.insert(id, e).map_values(|e: EffectInstance| e@) == before.map_values(
            |e: EffectInstance| e@,
        ).insert(id, e@),
{
    assert(before.insert(id, e).map_values(|e: EffectInstance| e@) =~= before.map_values(
        |e: EffectInstance| e@,
    ).insert(id, e@));
}

proof fn lemma_effects_removed(before: Map<Seq<char>, EffectInstance>, id: Seq<char>)
    ensures
        before.remove(id).map_values(|e: EffectInstance| e@) == before.map_values(
            |e: EffectInstance| e@,
        ).remove(id),
{
    assert(before.remove(id).map_values(|e: EffectInstance| e@) =~= before.map_values(
        |e: EffectInstance| e@,
    ).remove(id));
}

impl DemoDriver {
    fn refuse_creation(&self, config: &EffectConfig, prepared: &PreparedEffect) -> (r: Option<
        BackendError,
    >)
        requires
            self.wf(),
        ensures
            match self@.creation_refusal(config@, prepared.effect_id@) {
                Some(error) => r matches Some(e) && e@ == error,
                None => r is None,
            },
    {
        if self.effects.contains_key(config.instance_id.as_str()) {
            return Some(effect_already_exists(config.instance_id.as_str()));
        }
        if !text_eq(prepared.effect_id.as_str(), config.effect_id.as_str()) {
            return Some(
                mismatch_error(prepared.effect_id.as_str(), config.effect_id.as_str()),
            );
        }
        None
    }

    fn next_effect_node(&self, config: &EffectConfig, name: &str, position: Position) -> (r: Node)
        ensures
            r@ == self@.effect_node(config@, name@, position),
    {
        let node_name = effect_node_name(name, config.instance_id.as_str());
        let mut node = Node::new(
            NodeId(self.next_effect_id),
            node_name.as_str(),
            NodeType::Effect,
        ).with_effect_instance(config.instance_id.as_str());
        node.position = position;
        node
    }

    /// Puts a prepared effect into the graph on its own.
    pub fn create_effect_node_prepared(
        &mut self,
        config: EffectConfig,
        position: Position,
        prepared: &PreparedEffect,
    ) -> (r: Result<EffectInstance, BackendError>)
        requires
            old(self).wf(),
            config.wf(),
            old(self)@.next_effect_id <= u64::MAX - 3,
        ensures
            final(self).wf(),
            ({
                let (after, outcome) = old(self)@.creation(
                    config@,
                    position,
                    prepared.effect_id@,
                    prepared.name@,
                );
                final(self)@ == after && answers(r, outcome)
            }),
    {
        if let Some(error) = self.refuse_creation(&config, prepared) {
            return Err(error);
        }
        let ghost before = self@;
        let node = self.next_effect_node(&config, prepared.name.as_str(), position);
        let ghost node_view = node@;
        let node_id = NodeId(self.next_effect_id);
        let input = PortId(self.next_effect_id + 1);
        let output = PortId(self.next_effect_id + 2);
        self.next_effect_id = self.next_effect_id + 3;
        proof {
            lemma_numbered(before, 3, 0);
            assert(self@ =~= before.numbered(3, 0));
        }
        if let Err(error) = host_node(&mut self.graph, node, input, output) {
            return Err(BackendError::Graph(error));
        }
        let instance = made_instance(config, node_id, input, output);
        let copy = instance.duplicate();
        let key = instance.config.instance_id.clone();
        let ghost table = self.effects@;
        self.effects.insert(key, copy);
        proof {
            lemma_hosted_wf(before.graph, node_view, input, output);
            lemma_effects_inserted(table, key@, copy);
            lemma_effect_added(before, self@, node_view, instance@, key@);
            assert forall|id: Seq<char>| #[trigger] self.effects@.contains_key(
                id,
            ) implies self.effects@[id].config.wf() by {
                if id != key@ {
                    assert(table.contains_key(id));
                }
            }
        }
        Ok(instance)
    }

    /// Puts a prepared effect into the connection between two ports.
    pub fn insert_effect_prepared(
        &mut self,
        config: EffectConfig,
        source: &PortKey,
        destination: &PortKey,
        position: Position,
        prepared: &PreparedEffect,
    ) -> (r: Result<EffectInstance, BackendError>)
        requires
            old(self).wf(),
            config.wf(),
            old(self)@.next_effect_id <= u64::MAX - 3,
            old(self)@.next_link_id <= u64::MAX - 2,
        ensures
            final(self).wf(),
            ({
                let (after, outcome) = old(self)@.insertion(
                    config@,
                    source@,
                    destination@,
                    position,
                    prepared.effect_id@,
                    prepared.name@,
                );
                final(self)@ == after && answers(r, outcome)
            }),
    {
        let point = match effect_link_endpoints(&self.graph, source, destination) {
            Ok(point) => point,
            Err(error) => {
                return Err(error);
            },
        };
        let original = point.2;
        if let Some(error) = self.refuse_creation(&config, prepared) {
            return Err(error);
        }
        let ghost before = self@;
        let node = self.next_effect_node(&config, prepared.name.as_str(), position);
        let ghost node_view = node@;
        let node_id = NodeId(self.next_effect_id);
        let input = PortId(self.next_effect_id + 1);
        let output = PortId(self.next_effect_id + 2);
        self.next_effect_id = self.next_effect_id + 3;
        proof {
            lemma_numbered(before, 3, 0);
            lemma_numbered(before, 3, 2);
            assert(self@ =~= before.numbered(3, 0));
        }
        if let Err(error) = host_node(&mut self.graph, node, input, output) {
            return Err(BackendError::Graph(error));
        }
        proof {
            lemma_hosted_wf(before.graph, node_view, input, output);
            lemma_hosted_is_free(before.graph, node_view, input, output);
            law_host_remove_is_identity(before.graph, node_view, input, output);
            assert(!before.graph.links.contains_key(before.next_link_id));
            assert(!before.graph.links.contains_key((before.next_link_id + 1) as u64));
        }
        let first = LinkId(self.next_link_id);
        let second = LinkId(self.next_link_id + 1);
        self.next_link_id = self.next_link_id + 2;
        let outcome = splice(&mut self.graph, node_id, original, first, second, input, output);
        if let Err(error) = outcome {
            let _ = self.graph.remove_node(node_id);
            assert(self@ =~= before.numbered(3, 2));
            return Err(BackendError::Graph(error));
        }
        let mut instance = made_instance(config, node_id, input, output);
        instance.source = Some(source.duplicate());
        instance.destination = Some(destination.duplicate());
        let copy = instance.duplicate();
        let key = instance.config.instance_id.clone();
        let ghost table = self.effects@;
        self.effects.insert(key, copy);
        proof {
            lemma_effects_inserted(table, key@, copy);
            assert forall|k: u64| #[trigger] self@.graph.links.contains_key(k) implies k
                < self@.next_link_id by {
                if k != first.0 && k != second.0 {
                    assert(before.graph.links.contains_key(k));
                }
            }
            lemma_effect_added(before, self@, node_view, instance@, key@);
            assert forall|id: Seq<char>| #[trigger] self.effects@.contains_key(
                id,
            ) implies self.effects@[id].config.wf() by {
                if id != key@ {
                    assert(table.contains_key(id));
                }
            }
        }
        Ok(instance)
    }

    /// Takes an effect out of the graph. One that stands in a connection
    /// leaves the connection behind, under a new number. Exactly the node and
    /// the two ports with the effect's numbers go. In a graph that was replaced
    /// these may be those of others, whose nodes and ports may then be left
    /// behind; the backend stays sound where the effect stands as it should, or
    /// not at all.
    pub fn remove_effect(&mut self, instance_id: &str) -> (r: Result<(), BackendError>)
        requires
            old(self).wf(),
            old(self)@.next_link_id < u64::MAX,
        ensures
            r is Err || old(self)@.effect_fits(instance_id@) ==> final(self).wf(),
            final(self)@ == old(self)@.removing(instance_id@).0,
            match old(self)@.removing(instance_id@).1 {
                None => r is Ok,
                Some(error) => r matches Err(e) && e@ == error,
            },
    {
        let ghost before = self@;
        let (node_id, input_port, output_port, source, destination) = match self.effects.get(
            instance_id,
        ) {
            None => {
                return Err(unknown_effect_instance(instance_id));
            },
            Some(e) => (
                e.node_id,
                e.input_port,
                e.output_port,
                copy_key(&e.source),
                copy_key(&e.destination),
            ),
        };
        let mut back: Option<Link> = None;
        match (&source, &destination) {
            (Some(source), Some(destination)) => {
                match effect_restore_endpoints(&self.graph, source, destination) {
                    Err(error) => {
                        return Err(error);
                    },
                    Ok(ends) => {
                        back =
                        Some(
                            Link {
                                id: LinkId(self.next_link_id),
                                output_port: ends.0,
                                input_port: ends.1,
                            },
                        );
                        self.next_link_id = self.next_link_id + 1;
                    },
                }
            },
            (None, None) => {},
            _ => {
                return Err(effect_routing_incomplete());
            },
        }
        proof {
            lemma_numbered(before, 0, 1);
            lemma_numbered(before, 0, 0);
        }
        let outcome = retire(&mut self.graph, node_id, input_port, output_port, back);
        if let Err(error) = outcome {
            assert(self@ =~= before.numbered(0, 1));
            return Err(BackendError::Graph(error));
        }
        let ghost table = self.effects@;
        let _ = self.effects.remove(instance_id);
        proof {
            lemma_effects_removed(table, instance_id@);
            let g = before.graph;
            let h = self@.graph;
            assert forall|k: u64| #[trigger] h.links.contains_key(k) implies k
                < self@.next_link_id by {
                if back is None || k != back->Some_0.id.0 {
                    assert(g.links.contains_key(k));
                }
            }
            if before.effect_fits(instance_id@) {
                lemma_retired_fits(g, node_id, input_port, output_port, back);
                if g.has_node(node_id) {
                    assert(h.nodes =~= g.without_node(node_id).nodes);
                    assert(h.ports =~= g.without_node(node_id).ports);
                }
                lemma_effect_gone(before, self@, instance_id@);
            }
        }
        Ok(())
    }

    /// Switches an effect on or off. The result says whether that is a
    /// change, of which the processor has to learn.
    pub fn set_effect_enabled(&mut self, instance_id: &str, enabled: bool) -> (r: Result<
        bool,
        BackendError,
    >)
        requires
            old(self).wf(),
        ensures
            final(self).wf(),
            if old(self)@.effects.contains_key(instance_id@) {
                let e = old(self)@.effects[instance_id@];
                &&& r == Ok::<bool, BackendError>(e.config.enabled != enabled)
                &&& final(self)@ == old(self)@.switching(instance_id@, enabled)
            } else {
                &&& r matches Err(e) && e@ == unknown_instance(instance_id@)
                &&& final(self)@ == old(self)@
            },
    {
        let ghost before = self@;
        let ghost table = self.effects@;
        match self.effects.remove(instance_id) {
            None => {
                assert(self.effects@ =~= table);
                Err(unknown_effect_instance(instance_id))
            },
            Some(taken) => {
                let mut e = taken;
                let changed = e.config.enabled != enabled;
                e.config.enabled = enabled;
                self.effects.insert(instance_id.to_owned(), e);
                proof {
                    assert(self.effects@ =~= table.insert(instance_id@, e));
                    lemma_effects_inserted(table, instance_id@, e);
                    lemma_effect_changed(before, self@, instance_id@);
                    assert forall|id: Seq<char>| #[trigger] self.effects@.contains_key(
                        id,
                    ) implies self.effects@[id].config.wf() by {
                        assert(table.contains_key(id));
                    }
                }
                Ok(changed)
            },
        }
    }

    /// Keeps a parameter that the processor of an effect took on.
    pub fn effect_parameter_set(&mut self, instance_id: &str, parameter: &str, value: u32) -> (r:
        Result<(), BackendError>)
        requires
            old(self).wf(),
        ensures
            final(self).wf(),
            if old(self)@.effects.contains_key(instance_id@) {
                &&& r is Ok
                &&& final(self)@ == old(self)@.setting(instance_id@, parameter@, value)
            } else {
                &&& r matches Err(e) && e@ == unknown_instance(instance_id@)
                &&& final(self)@ == old(self)@
            },
    {
        let ghost before = self@;
        let ghost table = self.effects@;
        match self.effects.remove(instance_id) {
            None => {
                assert(self.effects@ =~= table);
                Err(unknown_effect_instance(instance_id))
            },
            Some(taken) => {
                let mut e = taken;
                assert(table[instance_id@].config.wf());
                e.config.parameters.insert(parameter.to_owned(), value);
                self.effects.insert(instance_id.to_owned(), e);
                proof {
                    assert(self.effects@ =~= table.insert(instance_id@, e));
                    lemma_effects_inserted(table, instance_id@, e);
                    lemma_effect_changed(before, self@, instance_id@);
                    assert forall|id: Seq<char>| #[trigger] self.effects@.contains_key(
                        id,
                    ) implies self.effects@[id].config.wf() by {
                        assert(table.contains_key(id));
                    }
                }
                Ok(())
            },
        }
    }

    /// The effects, in the order of their names.
    pub fn effect_instances(&self) -> (r: Vec<EffectInstance>)
        requires
            self.wf(),
        ensures
            r@.len() == self.effects.entries@.len(),
            forall|i: int|
                0 <= i < r@.len() ==> (#[trigger] r@[i])@ == self.effects.entries@[i].1@,
    {
        let mut out: Vec<EffectInstance> = Vec::new();
        let mut i: usize = 0;
        while i < self.effects.entries.len()
            invariant
                i <= self.effects.entries.len(),
                self.wf(),
                out@.len() == i,
                forall|j: int|
                    0 <= j < i ==> (#[trigger] out@[j])@ == self.effects.entries@[j].1@,
            decreases self.effects.entries.len() - i,
        {
            proof {
                let key = self.effects.entries@[i as int].0@;
                assert(crate::text_table::key_at(self.effects.entries@, key, i as int));
                self.effects.lemma_position(key, i as int);
            }
            out.push(self.effects.entries[i].1.duplicate());
            i = i + 1;
        }
        out
    }

    /// Checks a request for an effect that is prepared in the background, and
    /// infers its channels where it goes into a connection.
    pub fn check_create_effect(&self, request: &EffectCreateRequest) -> (r: Result<
        Option<u16>,
        BackendError,
    >)
        requires
            self.wf(),
        ensures
            match self@.request_refusal(request@) {
                Some(error) => r matches Err(e) && e@ == error,
                None => r == Ok::<Option<u16>, BackendError>(
                    demo_width(self@.graph, request@.target),
                ),
            },
    {
        if is_blank(request.config.instance_id.as_str()) || is_blank(
            request.config.effect_id.as_str(),
        ) {
            return Err(BackendError::native("effect instance and effect IDs cannot be empty"));
        }
        if self.effects.contains_key(request.config.instance_id.as_str()) || self.is_pending(
            request.config.instance_id.as_str(),
        ) {
            return Err(effect_already_exists(request.config.instance_id.as_str()));
        }
        match &request.target {
            EffectTarget::Standalone { position } => Ok(None),
            EffectTarget::Insert { source, destination, position } => {
                match effect_link_endpoints(&self.graph, source, destination) {
                    Err(error) => Err(error),
                    Ok(_) => Ok(inferred_audio_channels(&self.graph, source)),
                }
            },
        }
    }

    fn is_pending(&self, instance_id: &str) -> (r: bool)
        ensures
            r == self@.awaits(instance_id@),
    {
        let keys = crate::table::keys_of(&self.pending_effects);
        let mut i: usize = 0;
        while i < keys.len()
            invariant
                i <= keys.len(),
                crate::table::lists_domain(keys@, self.pending_effects@),
                forall|j: int|
                    0 <= j < i ==> self.pending_effects@[#[trigger] keys@[j]]@.config.instance_id
                        != instance_id@,
            decreases keys.len() - i,
        {
            let k: u64 = keys[i];
            assert(keys@.contains(k));
            if let Some(request) = self.pending_effects.get(&k) {
                if text_eq(request.config.instance_id.as_str(), instance_id) {
                    assert(self@.pending_effects.contains_key(k));
                    return true;
                }
            }
            i = i + 1;
        }
        proof {
            if self@.awaits(instance_id@) {
                let k = choose|k: u64| #[trigger]
                    self@.pending_effects.contains_key(k)
                        && self@.pending_effects[k].config.instance_id == instance_id@;
                assert(self.pending_effects@.contains_key(k));
                assert(keys@.contains(k));
            }
        }
        false
    }

    /// Keeps a request until its effect is prepared.
    pub fn effect_pending(&mut self, ticket: u64, request: EffectCreateRequest)
        requires
            old(self).wf(),
            request.wf(),
        ensures
            final(self).wf(),
            final(self)@ == (DemoView {
                pending_effects: old(self)@.pending_effects.insert(ticket, request@),
                ..old(self)@
            }),
    {
        let ghost table = self.pending_effects@;
        self.pending_effects.insert(ticket, request);
        assert(self@.pending_effects =~= old(self)@.pending_effects.insert(ticket, request@));
        assert forall|k: u64| #[trigger] self.pending_effects@.contains_key(
            k,
        ) implies self.pending_effects@[k].wf() by {
            if k != ticket {
                assert(table.contains_key(k));
            }
        }
    }

    /// Forgets a request whose effect could not be prepared or was cancelled.
    pub fn effect_dropped(&mut self, ticket: u64)
        requires
            old(self).wf(),
        ensures
            final(self).wf(),
            final(self)@ == (DemoView {
                pending_effects: old(self)@.pending_effects.remove(ticket),
                ..old(self)@
            }),
    {
        let ghost table = self.pending_effects@;
        let _ = self.pending_effects.remove(&ticket);
        assert(self@.pending_effects =~= old(self)@.pending_effects.remove(ticket));
        assert forall|k: u64| #[trigger] self.pending_effects@.contains_key(
            k,
        ) implies self.pending_effects@[k].wf() by {
            assert(table.contains_key(k));
        }
    }

    /// Puts an effect that was prepared into the graph. A ticket that is not
    /// known any more changes nothing.
    pub fn effect_ready(&mut self, ticket: u64, prepared: &PreparedEffect) -> (r: Option<
        Result<EffectInstance, BackendError>,
    >)
        requires
            old(self).wf(),
            old(self)@.next_effect_id <= u64::MAX - 3,
            old(self)@.next_link_id <= u64::MAX - 2,
        ensures
            final(self).wf(),
            if old(self)@.pending_effects.contains_key(ticket) {
                let request = old(self)@.pending_effects[ticket];
                let taken = DemoView {
                    pending_effects: old(self)@.pending_effects.remove(ticket),
                    ..old(self)@
                };
                let (after, outcome) = taken.activation(request, prepared@);
                final(self)@ == after && (r matches Some(answer) && answers(answer, outcome))
            } else {
                &&& r is None
                &&& final(self)@ == old(self)@
            },
    {
        let ghost before = self@;
        let ghost table = self.pending_effects@;
        match self.pending_effects.remove(&ticket) {
            None => {
                assert(self@.pending_effects =~= before.pending_effects);
                None
            },
            Some(request) => {
                assert(self@.pending_effects =~= before.pending_effects.remove(ticket));
                assert(table.contains_key(ticket));
                assert forall|k: u64| #[trigger] self.pending_effects@.contains_key(
                    k,
                ) implies self.pending_effects@[k].wf() by {
                    assert(table.contains_key(k));
                }
                assert(self@ =~= DemoView {
                    pending_effects: before.pending_effects.remove(ticket),
                    ..before
                });
                let config = request.config;
                match request.target {
                    EffectTarget::Standalone { position } => Some(
                        self.create_effect_node_prepared(config, position, prepared),
                    ),
                    EffectTarget::Insert { source, destination, position } => Some(
                        self.insert_effect_prepared(
                            config,
                            &source,
                            &destination,
                            position,
                            prepared,
                        ),
                    ),
                }
            },
        }
    }

    /// Takes on what happened to the preparation of one effect.
    fn note_preparation(&mut self, news: PreparationEvent) -> (r: Option<EffectEvent>)
        requires
            old(self).wf(),
            old(self)@.next_effect_id <= u64::MAX - 3,
            old(self)@.next_link_id <= u64::MAX - 2,
        ensures
            final(self).wf(),
            final(self)@ == old(self)@.after_news(news@).0,
            opt_event(r) == old(self)@.after_news(news@).1,
            final(self)@.next_effect_id <= old(self)@.next_effect_id + 3,
            final(self)@.next_link_id <= old(self)@.next_link_id + 2,
    {
        match news {
            PreparationEvent::Loading { ticket, stage } => Some(
                EffectEvent::Loading { ticket, stage },
            ),
            PreparationEvent::Ready { ticket, prepared } => match self.effect_ready(
                ticket,
                &prepared,
            ) {
                None => None,
                Some(outcome) => Some(report_of(ticket, outcome)),
            },
            PreparationEvent::Failed { ticket, error } => {
                self.effect_dropped(ticket);
                Some(EffectEvent::Failed { ticket, error })
            },
            PreparationEvent::Cancelled { ticket } => {
                self.effect_dropped(ticket);
                Some(EffectEvent::Cancelled { ticket })
            },
        }
    }

    /// Takes on what happened to the effects that are being prepared, and
    /// reports it: effects that are ready go into the graph, and a ticket that
    /// is not known any more gives nothing.
    pub fn poll_effect_lifecycle(&mut self, events: Vec<PreparationEvent>) -> (r: Vec<EffectEvent>)
        requires
            old(self).wf(),
            old(self)@.next_effect_id + 3 * events@.len() <= u64::MAX,
            old(self)@.next_link_id + 2 * events@.len() <= u64::MAX,
        ensures
            final(self).wf(),
            final(self)@ == old(self)@.after_all_news(news_views(events@)),
            event_views(r@) == old(self)@.reports(news_views(events@)),
    {
        let ghost all = news_views(events@);
        let ghost count = events@.len();
        let mut rest = events;
        let mut out: Vec<EffectEvent> = Vec::new();
        let ghost mut done: int = 0;
        assert(all.take(0) =~= Seq::<PreparationEventView>::empty());
        assert(event_views(out@) =~= Seq::<EffectEventView>::empty());
        while rest.len() > 0
            invariant
                self.wf(),
                0 <= done,
                done + rest@.len() == count,
                count == events@.len(),
                all == news_views(events@),
                rest@ == events@.skip(done),
                old(self)@.next_effect_id + 3 * count <= u64::MAX,
                old(self)@.next_link_id + 2 * count <= u64::MAX,
                self@.next_effect_id <= old(self)@.next_effect_id + 3 * done,
                self@.next_link_id <= old(self)@.next_link_id + 2 * done,
                self@ == old(self)@.after_all_news(all.take(done)),
                event_views(out@) == old(self)@.reports(all.take(done)),
            decreases rest.len(),
        {
            let news = rest.remove(0);
            proof {
                assert(news == events@[done]);
                assert(all[done] == news@);
                assert(all.take(done + 1).drop_last() =~= all.take(done));
                assert(rest@ =~= events@.skip(done + 1));
            }
            let ghost before = out@;
            if let Some(event) = self.note_preparation(news) {
                out.push(event);
                assert(event_views(out@) =~= event_views(before).push(event@));
            }
            proof {
                done = done + 1;
            }
        }
        assert(all.take(done) =~= all);
        out
    }
}

impl DemoView {
    /// Removing an effect: the driver afterwards, and the refusal if there is
    /// one. What stood between two ports puts their connection back.
    pub open spec fn removing(self, id: Seq<char>) -> (DemoView, Option<BackendErrorView>) {
        let e = self.effects[id];
        if !self.effects.contains_key(id) {
            (self, Some(unknown_instance(id)))
        } else {
            match (e.source, e.destination) {
                (Some(source), Some(destination)) => match ends_of(
                    self.graph,
                    source,
                    destination,
                ) {
                    Err(error) => (self, Some(error)),
                    Ok((output, input)) => {
                        let back = Link {
                            id: LinkId(self.next_link_id),
                            output_port: output,
                            input_port: input,
                        };
                        match retire_error(
                            self.graph,
                            e.input_port,
                            e.output_port,
                            Some(back),
                        ) {
                            Some(error) => (
                                self.numbered(0, 1),
                                Some(BackendErrorView::Graph(error)),
                            ),
                            None => (
                                DemoView {
                                    graph: retired(
                                        self.graph,
                                        e.node_id,
                                        e.input_port,
                                        e.output_port,
                                        Some(back),
                                    ),
                                    effects: self.effects.remove(id),
                                    ..self.numbered(0, 1)
                                },
                                None,
                            ),
                        }
                    },
                },
                (None, None) => (
                    DemoView {
                        graph: retired(
                            self.graph,
                            e.node_id,
                            e.input_port,
                            e.output_port,
                            None,
                        ),
                        effects: self.effects.remove(id),
                        ..self
                    },
                    None,
                ),
                _ => (self, Some(incomplete_routing())),
            }
        }
    }

    /// The driver after an effect was switched.
    pub open spec fn switching(self, id: Seq<char>, enabled: bool) -> DemoView {
        let e = self.effects[id];
        DemoView {
            effects: self.effects.insert(
                id,
                EffectInstanceView { config: EffectConfigView { enabled, ..e.config }, ..e },
            ),
            ..self
        }
    }

    /// The driver after a parameter of an effect was set.
    pub open spec fn setting(self, id: Seq<char>, parameter: Seq<char>, value: u32) -> DemoView {
        let e = self.effects[id];
        DemoView {
            effects: self.effects.insert(
                id,
                EffectInstanceView {
                    config: EffectConfigView {
                        parameters: e.config.parameters.insert(parameter, value),
                        ..e.config
                    },
                    ..e
                },
            ),
            ..self
        }
    }

    /// Putting an effect that was asked for and is prepared into the graph:
    /// the backend afterwards, and the answer.
    pub open spec fn activation(
        self,
        request: EffectCreateRequestView,
        prepared: PreparedEffectView,
    ) -> (DemoView, Result<EffectInstanceView, BackendErrorView>) {
        match request.target {
            EffectTargetView::Standalone { position } => self.creation(
                request.config,
                position,
                prepared.effect_id,
                prepared.name,
            ),
            EffectTargetView::Insert { source, destination, position } => self.insertion(
                request.config,
                source,
                destination,
                position,
                prepared.effect_id,
                prepared.name,
            ),
        }
    }

    /// The backend after news of a preparation, and what is reported of it.
    /// An effect that is ready goes into the graph; of a ticket that is not
    /// known any more nothing is reported.
    pub open spec fn after_news(self, news: PreparationEventView) -> (
        DemoView,
        Option<EffectEventView>,
    ) {
        let dropped = DemoView {
            pending_effects: self.pending_effects.remove(news.ticket()),
            ..self
        };
        match news {
            PreparationEventView::Loading { ticket, stage } => (
                self,
                Some(EffectEventView::Loading { ticket, stage }),
            ),
            PreparationEventView::Ready { ticket, prepared } => if self.pending_effects.contains_key(
                ticket,
            ) {
                let (after, outcome) = dropped.activation(self.pending_effects[ticket], prepared);
                (after, Some(reported(ticket, outcome)))
            } else {
                (self, None)
            },
            PreparationEventView::Failed { ticket, error } => (
                dropped,
                Some(EffectEventView::Failed { ticket, error }),
            ),
            PreparationEventView::Cancelled { ticket } => (
                dropped,
                Some(EffectEventView::Cancelled { ticket }),
            ),
        }
    }

    /// The backend after all news, one after the other.
    pub open spec fn after_all_news(self, news: Seq<PreparationEventView>) -> DemoView
        decreases news.len(),
    {
        if news.len() == 0 {
            self
        } else {
            self.after_all_news(news.drop_last()).after_news(news.last()).0
        }
    }

    /// What is reported of all news, in their order.
    pub open spec fn reports(self, news: Seq<PreparationEventView>) -> Seq<EffectEventView>
        decreases news.len(),
    {
        if news.len() == 0 {
            Seq::empty()
        } else {
            let before = self.reports(news.drop_last());
            match self.after_all_news(news.drop_last()).after_news(news.last()).1 {
                Some(event) => before.push(event),
                None => before,
            }
        }
    }

    /// A request for an instance waits for its effect.
    pub open spec fn awaits(self, instance_id: Seq<char>) -> bool {
        exists|k: u64| #[trigger]
            self.pending_effects.contains_key(k) && self.pending_effects[k].config.instance_id
                == instance_id
    }

    /// Why a request for an effect is refused.
    pub open spec fn request_refusal(self, request: EffectCreateRequestView) -> Option<
        BackendErrorView,
    > {
        if trimmed(request.config.instance_id).len() == 0 || trimmed(
            request.config.effect_id,
        ).len() == 0 {
            Some(BackendErrorView::Native("effect instance and effect IDs cannot be empty"@))
        } else if self.effects.contains_key(request.config.instance_id) || self.awaits(
            request.config.instance_id,
        ) {
            Some(already_exists(request.config.instance_id))
        } else {
            match request.target {
                EffectTargetView::Standalone { position } => None,
                EffectTargetView::Insert { source, destination, position } => match insertion_point(
                    self.graph,
                    source,
                    destination,
                ) {
                    Err(error) => Some(error),
                    Ok(_) => None,
                },
            }
        }
    }
}

/// The backend is sound after something about an effect changed that is not
/// its name or its node.
proof fn lemma_effect_changed(before: DemoView, after: DemoView, id: Seq<char>)
    requires
        before.wf(),
        before.effects.contains_key(id),
        after.effects.contains_key(id),
        after.effects == before.effects.insert(id, after.effects[id]),
        after.effects[id].config.instance_id == before.effects[id].config.instance_id,
        after.effects[id].node_id == before.effects[id].node_id,
        after.effects[id].input_port == before.effects[id].input_port,
        after.effects[id].output_port == before.effects[id].output_port,
        after == (DemoView { effects: after.effects, ..before }),
    ensures
        after.wf(),
{
    assert forall|x: Seq<char>| #[trigger] after.effects.contains_key(
        x,
    ) implies after.effects[x].config.instance_id == x && after.effects[x].node_id.0
        < after.next_effect_id && after.effects[x].input_port.0 < after.next_effect_id
        && after.effects[x].output_port.0 < after.next_effect_id by {
        assert(before.effects.contains_key(x));
    }
    assert forall|a: Seq<char>, b: Seq<char>|
        #![trigger after.effects.contains_key(a), after.effects.contains_key(b)]
        after.effects.contains_key(a) && after.effects.contains_key(b) && a
            != b implies after.effects[a].node_id != after.effects[b].node_id by {
        assert(before.effects.contains_key(a));
        assert(before.effects.contains_key(b));
    }
    assert forall|a: Seq<char>, k: u64|
        #![trigger after.effects.contains_key(a), after.recorders.contains_key(k)]
        after.effects.contains_key(a) && after.recorders.contains_key(
            k,
        ) implies after.effects[a].node_id != after.recorders[k].node_id by {
        assert(before.effects.contains_key(a));
        assert(before.recorders.contains_key(k));
    }
}

/// A request for an effect that is refused leaves the graph, the effects and
/// everything else as they were; only numbers may be used up.
pub proof fn law_refused_effects_leave_no_trace(
    v: DemoView,
    config: EffectConfigView,
    source: PortKeyView,
    destination: PortKeyView,
    position: Position,
    prepared: Seq<char>,
    name: Seq<char>,
)
    ensures
        v.creation(config, position, prepared, name).1 is Err ==> exists|n: int|
            v.creation(config, position, prepared, name).0 == #[trigger] v.numbered(n, 0),
        v.insertion(config, source, destination, position, prepared, name).1 is Err ==> exists|
            n: int,
            m: int,
        |
            v.insertion(config, source, destination, position, prepared, name).0
                == #[trigger] v.numbered(n, m),
{
    assert(v.numbered(0, 0) =~= v);
}

/// Inserting an effect into a connection and removing it again gives back the
/// graph, but for the number of the connection's link, where no other node
/// has the effect's name.
pub proof fn law_insert_remove_effect_restores(
    v: DemoView,
    config: EffectConfigView,
    source: PortKeyView,
    destination: PortKeyView,
    position: Position,
    prepared: Seq<char>,
    name: Seq<char>,
)
    requires
        v.wf(),
        v.next_effect_id <= u64::MAX - 3,
        v.next_link_id <= u64::MAX - 3,
        forall|k: u64| #[trigger]
            v.graph.nodes.contains_key(k) ==> v.graph.nodes[k].name != node_name_of(
                name,
                config.instance_id,
            ),
        v.insertion(config, source, destination, position, prepared, name).1 is Ok,
    ensures
        ({
            let inside = v.insertion(config, source, destination, position, prepared, name).0;
            let made = inside.effects[config.instance_id];
            let original = insertion_point(v.graph, source, destination)->Ok_0.2;
            let back = Link { id: LinkId(inside.next_link_id), ..original };
            &&& inside.effects.contains_key(config.instance_id)
            &&& made.source == Some(source)
            &&& made.destination == Some(destination)
            &&& ends_of(inside.graph, source, destination) == Ok::<
                (PortId, PortId),
                BackendErrorView,
            >((original.output_port, original.input_port))
            &&& retire_error(
                inside.graph,
                made.input_port,
                made.output_port,
                Some(back),
            ) is None
            &&& retired(
                inside.graph,
                made.node_id,
                made.input_port,
                made.output_port,
                Some(back),
            ) == v.graph.without_link(original.id).with_link(back)
            &&& inside.effects.remove(config.instance_id) == v.effects
        }),
{
    let node = v.effect_node(config, name, position);
    let inside = v.insertion(config, source, destination, position, prepared, name).0;
    assert(!v.graph.links.contains_key(v.next_link_id));
    assert(!v.graph.links.contains_key((v.next_link_id + 1) as u64));
    assert(!v.graph.links.contains_key((v.next_link_id + 2) as u64));
    crate::insertion::law_insert_remove_restores(
        v.graph,
        node,
        v.effect_input(),
        v.effect_output(),
        source,
        destination,
        LinkId(v.next_link_id),
        LinkId((v.next_link_id + 1) as u64),
        LinkId((v.next_link_id + 2) as u64),
    );
    assert(inside.effects.remove(config.instance_id) =~= v.effects);
}

/// Where every effect stands as it should, this stays so: when an effect is
/// created or inserted, also in vain, when one is removed, and when links come
/// and go.
pub proof fn law_effects_keep_their_ports(
    v: DemoView,
    config: EffectConfigView,
    source: PortKeyView,
    destination: PortKeyView,
    position: Position,
    prepared: Seq<char>,
    name: Seq<char>,
    id: Seq<char>,
    restore: Option<Link>,
    link: Link,
)
    requires
        v.wf(),
        v.effects_fit(),
        v.next_effect_id <= u64::MAX - 3,
    ensures
        v.creation(config, position, prepared, name).0.effects_fit(),
        v.insertion(config, source, destination, position, prepared, name).0.effects_fit(),
        v.effects.contains_key(id) ==> (DemoView {
            graph: retired(
                v.graph,
                v.effects[id].node_id,
                v.effects[id].input_port,
                v.effects[id].output_port,
                restore,
            ),
            effects: v.effects.remove(id),
            ..v
        }).effects_fit(),
        (DemoView { graph: v.graph.with_link(link), ..v }).effects_fit(),
        (DemoView { graph: v.graph.without_link(link.id), ..v }).effects_fit(),
{
    let created = v.creation(config, position, prepared, name).0;
    let inserted = v.insertion(config, source, destination, position, prepared, name).0;
    let node = v.effect_node(config, name, position);
    if created.effects != v.effects {
        lemma_added_effect_fits(v, created, node, config.instance_id);
    }
    if inserted.effects != v.effects {
        lemma_added_effect_fits(v, inserted, node, config.instance_id);
    }
    if v.effects.contains_key(id) {
        let gone = v.effects[id];
        let g = v.graph;
        let h = retired(g, gone.node_id, gone.input_port, gone.output_port, restore);
        let after = DemoView { graph: h, effects: v.effects.remove(id), ..v };
        assert forall|x: Seq<char>| #[trigger] after.effects.contains_key(x) implies node_fits(
            h,
            after.effects[x].node_id,
            after.effects[x].input_port,
            after.effects[x].output_port,
        ) by {
            assert(v.effects.contains_key(x) && v.effects.contains_key(id));
            assert(v.effect_fits(x) && v.effect_fits(id));
            let e = v.effects[x];
            assert(e.node_id != gone.node_id);
            if g.has_node(e.node_id) {
                let ports = g.node(e.node_id).ports;
                assert(ports[0] == e.input_port && ports[1] == e.output_port);
                assert(ports.contains(ports[0]) && ports.contains(ports[1]));
                assert(g.lists(e.node_id.0, e.input_port));
                assert(g.lists(e.node_id.0, e.output_port));
            }
            if g.has_node(gone.node_id) {
                let ports = g.node(gone.node_id).ports;
                assert(ports[0] == gone.input_port && ports[1] == gone.output_port);
                assert(ports.contains(ports[0]) && ports.contains(ports[1]));
                assert(g.lists(gone.node_id.0, gone.input_port));
                assert(g.lists(gone.node_id.0, gone.output_port));
            }
        }
    }
}

proof fn lemma_added_effect_fits(
    before: DemoView,
    after: DemoView,
    node: NodeView,
    id: Seq<char>,
)
    requires
        before.wf(),
        before.effects_fit(),
        before.next_effect_id <= u64::MAX - 3,
        node.id == NodeId(before.next_effect_id),
        node.ports == Seq::<PortId>::empty(),
        before.node_refusal() is None,
        after.graph.nodes == hosted(
            before.graph,
            node,
            before.effect_input(),
            before.effect_output(),
        ).nodes,
        after.graph.ports == hosted(
            before.graph,
            node,
            before.effect_input(),
            before.effect_output(),
        ).ports,
        after.effects.contains_key(id),
        after.effects[id].node_id == node.id,
        after.effects[id].input_port == before.effect_input(),
        after.effects[id].output_port == before.effect_output(),
        after.effects == before.effects.insert(id, after.effects[id]),
    ensures
        after.effects_fit(),
{
    lemma_hosted_wf(before.graph, node, before.effect_input(), before.effect_output());
    assert forall|x: Seq<char>| #[trigger] after.effects.contains_key(x) implies node_fits(
        after.graph,
        after.effects[x].node_id,
        after.effects[x].input_port,
        after.effects[x].output_port,
    ) by {
        if x != id {
            assert(before.effects.contains_key(x));
            lemma_fits_elsewhere(
                before.graph,
                node,
                before.effect_input(),
                before.effect_output(),
                after.graph,
                before.effects[x],
            );
        }
    }
}

/// The width that the target of an effect suggests: that of its source.
pub open spec fn demo_width(g: GraphView, target: EffectTargetView) -> Option<u16> {
    match target {
        EffectTargetView::Standalone { position } => None,
        EffectTargetView::Insert { source, destination, position } => demo_channels(g, source),
    }
}

/// An effect that stands alone has no suggested width; one that goes into a
/// link is as wide as its source has audio ports, `all` of them.
pub proof fn law_demo_widths(
    g: GraphView,
    source: PortKeyView,
    destination: PortKeyView,
    position: Position,
    all: Seq<PortId>,
)
    requires
        g.wf(),
        source.port_type == crate::model::PortType::Audio,
        source.direction == crate::model::Direction::Source,
        g.resolved(source) is Some,
        all.no_duplicates(),
        forall|q: PortId| #[trigger]
            all.contains(q) <==> crate::effect_model::audio_source_of(
                g,
                g.port(g.resolved(source)->Some_0).node_id,
                q,
            ),
        1 <= all.len() <= 65535,
        !crate::effect_model::in_the_middle(g.port(g.resolved(source)->Some_0).channel),
    ensures
        demo_width(g, EffectTargetView::Standalone { position }) is None,
        demo_width(g, EffectTargetView::Insert { source, destination, position }) == Some(
            all.len() as u16,
        ),
{
    crate::effect_model::law_demo_width_counts_ports(g, source, all);
}

/// An effect that is created stands in the graph as a node of its own, with
/// one audio input and one audio output and no link, where it was put. The
/// other effects and the rest of the graph stay.
pub proof fn law_created_effects_stand(
    v: DemoView,
    config: EffectConfigView,
    position: Position,
    prepared: Seq<char>,
    name: Seq<char>,
    other: Seq<char>,
    k: u64,
)
    requires
        v.wf(),
        v.next_effect_id <= u64::MAX - 3,
    ensures
        ({
            let (after, answer) = v.creation(config, position, prepared, name);
            answer matches Ok(made) ==> {
                &&& made.config == config
                &&& made.source is None && made.destination is None
                &&& after.effects.contains_key(config.instance_id)
                &&& after.effects[config.instance_id] == made
                &&& !v.effects.contains_key(config.instance_id)
                &&& prepared == config.effect_id
                &&& other != config.instance_id ==> (after.effects.contains_key(other)
                    <==> v.effects.contains_key(other)) && (v.effects.contains_key(other)
                    ==> after.effects[other] == v.effects[other])
                &&& !v.graph.has_node(made.node_id)
                &&& after.graph.has_node(made.node_id)
                &&& after.graph.node(made.node_id).node_type == NodeType::Effect
                &&& after.graph.node(made.node_id).name == name + " ("@ + config.instance_id
                    + ")"@
                &&& after.graph.node(made.node_id).position == position
                &&& after.graph.node(made.node_id).effect_instance_id == Some(config.instance_id)
                &&& after.graph.node(made.node_id).ports == seq![made.input_port, made.output_port]
                &&& after.graph.port(made.input_port).direction == crate::model::Direction::Sink
                &&& after.graph.port(made.output_port).direction
                    == crate::model::Direction::Source
                &&& after.graph.port(made.input_port).node_id == made.node_id
                &&& after.graph.port(made.output_port).node_id == made.node_id
                &&& after.graph.links == v.graph.links
                &&& v.graph.nodes.contains_key(k) ==> after.graph.nodes.contains_key(k)
                    && after.graph.nodes[k] == v.graph.nodes[k]
                &&& v.graph.ports.contains_key(k) ==> after.graph.ports.contains_key(k)
                    && after.graph.ports[k] == v.graph.ports[k]
            }
        }),
{
    let node = v.effect_node(config, name, position);
    crate::insertion::law_hosted_effects(v.graph, node, v.effect_input(), v.effect_output(), k);
}

/// An effect that is inserted stands in the connection from the source to the
/// destination: the source leads into it and it leads on to the destination,
/// and nothing joins them directly any more. Every other link stays.
pub proof fn law_inserted_effects_stand(
    v: DemoView,
    config: EffectConfigView,
    source: PortKeyView,
    destination: PortKeyView,
    position: Position,
    prepared: Seq<char>,
    name: Seq<char>,
    k: u64,
)
    requires
        v.wf(),
        v.next_effect_id <= u64::MAX - 3,
        v.next_link_id <= u64::MAX - 2,
    ensures
        ({
            let (after, answer) = v.insertion(
                config,
                source,
                destination,
                position,
                prepared,
                name,
            );
            answer matches Ok(made) ==> {
                &&& insertion_point(v.graph, source, destination) matches Ok((from, to, link))
                &&& crate::graph::bears_key(v.graph, from, source)
                &&& crate::graph::bears_key(v.graph, to, destination)
                &&& made.config == config
                &&& made.source == Some(source)
                &&& made.destination == Some(destination)
                &&& after.effects.contains_key(config.instance_id)
                &&& after.effects[config.instance_id] == made
                &&& after.graph.has_node(made.node_id)
                &&& after.graph.node(made.node_id).name == name + " ("@ + config.instance_id
                    + ")"@
                &&& after.graph.node(made.node_id).position == position
                &&& after.graph.connected(from, made.input_port)
                &&& after.graph.connected(made.output_port, to)
                &&& !after.graph.connected(from, to)
                &&& k != link.id.0 && v.graph.links.contains_key(k)
                    ==> after.graph.links.contains_key(k) && after.graph.links[k]
                    == v.graph.links[k]
                &&& v.graph.nodes.contains_key(k) ==> after.graph.nodes.contains_key(k)
                    && after.graph.nodes[k] == v.graph.nodes[k]
            }
        }),
{
    let (after, answer) = v.insertion(config, source, destination, position, prepared, name);
    if answer is Ok {
        crate::effect_model::law_insertion_points(v.graph, source, destination);
        let (from, to, link) = insertion_point(v.graph, source, destination)->Ok_0;
        let node = v.effect_node(config, name, position);
        let inside = v.effect_graph(config, name, position);
        crate::insertion::law_hosted_effects(
            v.graph,
            node,
            v.effect_input(),
            v.effect_output(),
            k,
        );
        crate::insertion::lemma_hosted_wf(v.graph, node, v.effect_input(), v.effect_output());
        crate::insertion::law_spliced_effects(
            inside,
            link,
            LinkId(v.next_link_id),
            LinkId((v.next_link_id + 1) as u64),
            v.effect_input(),
            v.effect_output(),
            k,
        );
    }
}

/// Removing an effect that stands between two ports removes it from the graph
/// and connects the two ports again; one that stands alone is removed with
/// its links. The other effects stay. A refusal removes nothing.
pub proof fn law_removed_effects_are_gone(v: DemoView, id: Seq<char>, other: Seq<char>, k: u64)
    requires
        v.wf(),
        v.effects_fit(),
        v.next_link_id < u64::MAX,
    ensures
        ({
            let (after, refused) = v.removing(id);
            &&& refused is Some ==> after.effects == v.effects && after.graph == v.graph
            &&& refused is None ==> {
                let e = v.effects[id];
                &&& v.effects.contains_key(id)
                &&& !after.effects.contains_key(id)
                &&& other != id ==> (after.effects.contains_key(other) <==> v.effects.contains_key(
                    other,
                )) && (v.effects.contains_key(other) ==> after.effects[other]
                    == v.effects[other])
                &&& !after.graph.has_node(e.node_id)
                &&& !after.graph.has_port(e.input_port)
                &&& !after.graph.has_port(e.output_port)
                &&& k != e.node_id.0 && v.graph.nodes.contains_key(k)
                    ==> after.graph.nodes.contains_key(k) && after.graph.nodes[k]
                    == v.graph.nodes[k]
                &&& v.graph.links.contains_key(k) && v.graph.links[k].input_port != e.input_port
                    && v.graph.links[k].output_port != e.output_port
                    ==> after.graph.links.contains_key(k) && after.graph.links[k]
                    == v.graph.links[k]
                &&& match (e.source, e.destination) {
                    (Some(source), Some(destination)) => {
                        &&& ends_of(v.graph, source, destination) matches Ok((from, to))
                        &&& crate::graph::bears_key(v.graph, from, source)
                        &&& crate::graph::bears_key(v.graph, to, destination)
                        &&& after.graph.connected(from, to) || from == e.output_port || to
                            == e.input_port
                    },
                    (None, None) => true,
                    _ => false,
                }
            }
        }),
{
    let (after, refused) = v.removing(id);
    if refused is None {
        let e = v.effects[id];
        match (e.source, e.destination) {
            (Some(source), Some(destination)) => {
                crate::effect_model::law_ends_of_an_effect(v.graph, source, destination);
                let (from, to) = ends_of(v.graph, source, destination)->Ok_0;
                let back = Link {
                    id: LinkId(v.next_link_id),
                    output_port: from,
                    input_port: to,
                };
                if from != e.output_port && to != e.input_port {
                    crate::insertion::law_retired_effects(
                        v.graph,
                        e.node_id,
                        e.input_port,
                        e.output_port,
                        back,
                        k,
                    );
                }
            },
            _ => {},
        }
    }
}

/// Inserting an effect and removing it again leaves nodes, ports and effects
/// as they were, and the source connected to the destination.
pub proof fn law_inserting_and_removing(
    v: DemoView,
    config: EffectConfigView,
    source: PortKeyView,
    destination: PortKeyView,
    position: Position,
    prepared: Seq<char>,
    name: Seq<char>,
    k: u64,
)
    requires
        v.wf(),
        v.next_effect_id <= u64::MAX - 3,
        v.next_link_id <= u64::MAX - 3,
        forall|k: u64| #[trigger]
            v.graph.nodes.contains_key(k) ==> v.graph.nodes[k].name != node_name_of(
                name,
                config.instance_id,
            ),
        v.insertion(config, source, destination, position, prepared, name).1 is Ok,
    ensures
        ({
            let inside = v.insertion(config, source, destination, position, prepared, name).0;
            let (after, refused) = inside.removing(config.instance_id);
            let (from, to, link) = insertion_point(v.graph, source, destination)->Ok_0;
            &&& refused is None
            &&& after.effects == v.effects
            &&& after.graph.nodes == v.graph.nodes
            &&& after.graph.ports == v.graph.ports
            &&& after.graph.connected(from, to)
            &&& k != link.id.0 && v.graph.links.contains_key(k)
                ==> after.graph.links.contains_key(k) && after.graph.links[k] == v.graph.links[k]
        }),
{
    law_insert_remove_effect_restores(v, config, source, destination, position, prepared, name);
    crate::effect_model::law_insertion_points(v.graph, source, destination);
    let inside = v.insertion(config, source, destination, position, prepared, name).0;
    let (after, refused) = inside.removing(config.instance_id);
    assert(after.graph.links.contains_key(inside.next_link_id));
    assert(!v.graph.links.contains_key(inside.next_link_id));
}

/// Switching and setting an effect changes that and nothing else.
pub proof fn law_demo_effects_change_alone(
    v: DemoView,
    id: Seq<char>,
    other: Seq<char>,
    enabled: bool,
    parameter: Seq<char>,
    value: u32,
)
    requires
        v.effects.contains_key(id),
    ensures
        ({
            let on = v.switching(id, enabled);
            let set = v.setting(id, parameter, value);
            &&& on.effects[id].config.enabled == enabled
            &&& on.effects[id].config.parameters == v.effects[id].config.parameters
            &&& on.effects[id].node_id == v.effects[id].node_id
            &&& set.effects[id].config.parameters.contains_key(parameter)
            &&& set.effects[id].config.parameters[parameter] == value
            &&& set.effects[id].config.enabled == v.effects[id].config.enabled
            &&& other != id && v.effects.contains_key(other) ==> on.effects.contains_key(other)
                && on.effects[other] == v.effects[other] && set.effects.contains_key(other)
                && set.effects[other] == v.effects[other]
            &&& on.graph == v.graph && set.graph == v.graph
        }),
{
}

/// A request is refused exactly where a name is blank, the effect's name is
/// taken by one that stands or is awaited, or nothing joins its two ends.
pub proof fn law_refused_demo_effects(v: DemoView, request: EffectCreateRequestView)
    ensures
        v.request_refusal(request) is None <==> {
            &&& !crate::text::all_white(request.config.instance_id)
            &&& !crate::text::all_white(request.config.effect_id)
            &&& !v.effects.contains_key(request.config.instance_id)
            &&& forall|k: u64| #[trigger]
                v.pending_effects.contains_key(k) ==> v.pending_effects[k].config.instance_id
                    != request.config.instance_id
            &&& match request.target {
                EffectTargetView::Standalone { position } => true,
                EffectTargetView::Insert { source, destination, position } => insertion_point(
                    v.graph,
                    source,
                    destination,
                ) is Ok,
            }
        },
{
    crate::text::law_trimmed(request.config.instance_id);
    crate::text::law_trimmed(request.config.effect_id);
}

/// News of an effect that nobody asked for changes nothing. An effect that is
/// ready is made as it was asked for and reported under its ticket; one that
/// failed or was given up is forgotten and reported; in either case it is no
/// longer awaited.
pub proof fn law_news_of_effects(v: DemoView, ticket: u64, prepared: PreparedEffectView, error: Seq<char>)
    ensures
        ({
            let (after, event) = v.after_news(PreparationEventView::Ready { ticket, prepared });
            &&& !v.pending_effects.contains_key(ticket) ==> after == v && event is None
            &&& v.pending_effects.contains_key(ticket) ==> {
                let waiting = DemoView {
                    pending_effects: v.pending_effects.remove(ticket),
                    ..v
                };
                let (made, outcome) = waiting.activation(v.pending_effects[ticket], prepared);
                &&& after == made
                &&& event == Some(reported(ticket, outcome))
                &&& !after.pending_effects.contains_key(ticket)
            }
        }),
        ({
            let (after, event) = v.after_news(PreparationEventView::Failed { ticket, error });
            &&& event == Some(EffectEventView::Failed { ticket, error })
            &&& !after.pending_effects.contains_key(ticket)
            &&& after.graph == v.graph && after.effects == v.effects
        }),
        ({
            let (after, event) = v.after_news(PreparationEventView::Cancelled { ticket });
            &&& event == Some(EffectEventView::Cancelled { ticket })
            &&& !after.pending_effects.contains_key(ticket)
            &&& after.graph == v.graph && after.effects == v.effects
        }),
{
    if v.pending_effects.contains_key(ticket) {
        let waiting = DemoView { pending_effects: v.pending_effects.remove(ticket), ..v };
        let request = v.pending_effects[ticket];
        assert(waiting.activation(request, prepared).0.pending_effects
            == waiting.pending_effects);
    }
}

} // verus!
