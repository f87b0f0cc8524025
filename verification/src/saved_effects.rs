//! The effects that are kept across sessions.
use crate::effect_model::{
    copy_key, effect_routing_incomplete, incomplete_routing, opt_key, EffectConfig,
    EffectConfigView, EffectInstance,
};
use crate::graph::{Graph, GraphView};
use crate::ids::NodeId;
use crate::lists::{kept, lemma_kept_step};
use crate::model::{
    backend_error_text, opt_text, BackendError, PortKey, PortKeyView, Position,
};
use crate::text::text_eq;
use vstd::prelude::*;

verus! {

/// Where an effect is drawn whose node is not in the graph: at 260, 180.
pub const FALLBACK_X: u32 = 0x4382_0000;

pub const FALLBACK_Y: u32 = 0x4334_0000;

/// An effect as it is kept.
#[derive(Debug, PartialEq, Eq)]
pub struct PersistedEffect {
    pub instance: EffectConfig,
    pub source: Option<PortKey>,
    pub destination: Option<PortKey>,
    pub position: Position,
}

/// The contents of a [`PersistedEffect`].
#[verifier::ext_equal]
pub struct PersistedView {
    pub instance: EffectConfigView,
    pub source: Option<PortKeyView>,
    pub destination: Option<PortKeyView>,
    pub position: Position,
}

impl View for PersistedEffect {
    type V = PersistedView;

    open spec fn view(&self) -> PersistedView {
        PersistedView {
            instance: self.instance@,
            source: opt_key(self.source),
            destination: opt_key(self.destination),
            position: self.position,
        }
    }
}

impl PersistedEffect {
    /// A copy with the same contents.
    pub fn duplicate(&self) -> (r: PersistedEffect)
        requires
            self.instance.wf(),
        ensures
            r.instance.wf(),
            r@ == self@,
    {
        PersistedEffect {
            instance: self.instance.duplicate(),
            source: copy_key(&self.source),
            destination: copy_key(&self.destination),
            position: self.position,
        }
    }
}

/// The effects that are kept.
#[derive(Debug, PartialEq, Eq)]
pub struct SavedEffects {
    pub effects: Vec<PersistedEffect>,
}

impl View for SavedEffects {
    type V = Seq<PersistedView>;

    open spec fn view(&self) -> Seq<PersistedView> {
        self.effects@.map_values(|e: PersistedEffect| e@)
    }
}

/// An effect that is not the named one.
pub open spec fn is_other(id: Seq<char>) -> spec_fn(PersistedView) -> bool {
    |e: PersistedView| e.instance.instance_id != id
}

/// The first effect of a name.
pub open spec fn saved_at(list: Seq<PersistedView>, id: Seq<char>, i: int) -> bool {
    &&& 0 <= i < list.len()
    &&& list[i].instance.instance_id == id
    &&& forall|j: int| 0 <= j < i ==> (#[trigger] list[j]).instance.instance_id != id
}

/// A change of an effect.
#[derive(Debug, PartialEq, Eq)]
pub enum EffectUpdate {
    Enabled(bool),
    Parameter { id: String, value: u32 },
}

/// The effect with a change.
pub open spec fn with_update(config: EffectConfigView, update: EffectUpdate) -> EffectConfigView {
    match update {
        EffectUpdate::Enabled(enabled) => EffectConfigView { enabled, ..config },
        EffectUpdate::Parameter { id, value } => EffectConfigView {
            parameters: config.parameters.insert(id@, value),
            ..config
        },
    }
}

/// The effects with a change of the first one of a name, if there is one.
pub open spec fn updated(list: Seq<PersistedView>, name: Seq<char>, update: EffectUpdate) -> Seq<
    PersistedView,
> {
    Seq::new(
        list.len(),
        |i: int|
            if saved_at(list, name, i) {
                PersistedView { instance: with_update(list[i].instance, update), ..list[i] }
            } else {
                list[i]
            },
    )
}

/// How an effect comes back.
#[derive(Debug, PartialEq, Eq)]
pub enum RestorePlan {
    /// Join its ends where they are not, then insert it.
    Insert,
    /// Make it on its own.
    Standalone,
    /// Only one end is known.
    Incomplete(BackendError),
}

impl SavedEffects {
    pub open spec fn wf(&self) -> bool {
        forall|i: int|
            0 <= i < self.effects@.len() ==> (#[trigger] self.effects@[i]).instance.wf()
    }

    /// Forgets an effect.
    pub fn remove(&mut self, id: &str)
        requires
            old(self).wf(),
        ensures
            final(self).wf(),
            final(self)@ == kept(old(self)@, is_other(id@)),
    {
        let ghost before = self@;
        let mut rest: Vec<PersistedEffect> = Vec::new();
        let mut i: usize = 0;
        while i < self.effects.len()
            invariant
                i <= self.effects.len(),
                self.wf(),
                self@ == before,
                forall|j: int| 0 <= j < rest@.len() ==> (#[trigger] rest@[j]).instance.wf(),
                rest@.map_values(|e: PersistedEffect| e@) == kept(
                    before.take(i as int),
                    is_other(id@),
                ),
            decreases self.effects.len() - i,
        {
            let effect = &self.effects[i];
            proof {
                assert(before[i as int] == effect@);
                lemma_kept_step(before, is_other(id@), i as int);
            }
            let ghost sofar = rest@;
            if !text_eq(effect.instance.instance_id.as_str(), id) {
                rest.push(effect.duplicate());
                assert(rest@.map_values(|e: PersistedEffect| e@) =~= sofar.map_values(
                    |e: PersistedEffect| e@,
                ).push(before[i as int]));
            }
            i = i + 1;
        }
        assert(before.take(i as int) =~= before);
        self.effects = rest;
    }

    /// Keeps an effect, in place of an earlier one of its name.
    pub fn persist_effect(&mut self, graph: &Graph, instance: &EffectInstance)
        requires
            old(self).wf(),
            instance.config.wf(),
        ensures
            final(self).wf(),
            final(self)@ == persisted(old(self)@, graph@, instance@),
    {
        let position = match graph.node(instance.node_id) {
            Some(node) => node.position,
            None => Position { x: FALLBACK_X, y: FALLBACK_Y },
        };
        self.remove(instance.config.instance_id.as_str());
        let ghost rest = self@;
        let effect = PersistedEffect {
            instance: instance.config.duplicate(),
            source: copy_key(&instance.source),
            destination: copy_key(&instance.destination),
            position,
        };
        self.effects.push(effect);
        assert(self@ =~= rest.push(effect@));
    }

    fn find(&self, id: &str) -> (r: Option<usize>)
        ensures
            match r {
                Some(i) => saved_at(self@, id@, i as int),
                None => forall|j: int|
                    0 <= j < self@.len() ==> (#[trigger] self@[j]).instance.instance_id != id@,
            },
    {
        let mut i: usize = 0;
        while i < self.effects.len()
            invariant
                i <= self.effects.len(),
                forall|j: int|
                    0 <= j < i ==> (#[trigger] self@[j]).instance.instance_id != id@,
            decreases self.effects.len() - i,
        {
            assert(self@[i as int] == self.effects@[i as int]@);
            if text_eq(self.effects[i].instance.instance_id.as_str(), id) {
                return Some(i);
            }
            i = i + 1;
        }
        assert(i == self@.len());
        None
    }

    /// Keeps a change of an effect.
    pub fn update(&mut self, name: &str, update: &EffectUpdate)
        requires
            old(self).wf(),
        ensures
            final(self).wf(),
            final(self)@ == updated(old(self)@, name@, *update),
    {
        let ghost before = *self;
        match self.find(name) {
            None => {
                assert(self@ =~= updated(before@, name@, *update));
            },
            Some(i) => {
                let mut effect = self.effects[i].duplicate();
                match update {
                    EffectUpdate::Enabled(enabled) => {
                        effect.instance.enabled = *enabled;
                    },
                    EffectUpdate::Parameter { id, value } => {
                        effect.instance.parameters.insert(id.clone(), *value);
                    },
                }
                self.effects.set(i, effect);
                proof {
                    assert(before@[i as int] == before.effects@[i as int]@);
                    assert forall|j: int| 0 <= j < before@.len() implies #[trigger] self@[j]
                        == updated(before@, name@, *update)[j] by {
                        if j != i {
                            assert(self.effects@[j] == before.effects@[j]);
                            if saved_at(before@, name@, j) {
                                assert(before@[i as int].instance.instance_id == name@);
                                assert(before@[j].instance.instance_id == name@);
                            }
                        }
                    }
                    assert(self@ =~= updated(before@, name@, *update));
                }
            },
        }
    }

    /// Settles a change that a driver was asked for. Only one that it made is
    /// kept; the result is why it did not.
    pub fn update_answered(
        &mut self,
        name: &str,
        update: &EffectUpdate,
        answer: Result<(), BackendError>,
    ) -> (r: Option<String>)
        requires
            old(self).wf(),
        ensures
            final(self).wf(),
            match answer {
                Ok(_) => r is None && final(self)@ == updated(old(self)@, name@, *update),
                Err(error) => opt_text(r) == Some(backend_error_text(error@)) && final(self)@
                    == old(self)@,
            },
    {
        match answer {
            Ok(()) => {
                self.update(name, update);
                None
            },
            Err(error) => Some(error.to_text()),
        }
    }

    /// Settles a removal that a driver was asked for. Only an effect that is
    /// gone is forgotten; the result is why it is not.
    pub fn removal_answered(&mut self, name: &str, answer: Result<(), BackendError>) -> (r: Option<
        String,
    >)
        requires
            old(self).wf(),
        ensures
            final(self).wf(),
            match answer {
                Ok(_) => r is None && final(self)@ == kept(old(self)@, is_other(name@)),
                Err(error) => opt_text(r) == Some(backend_error_text(error@)) && final(self)@
                    == old(self)@,
            },
    {
        match answer {
            Ok(()) => {
                self.remove(name);
                None
            },
            Err(error) => Some(error.to_text()),
        }
    }

    /// The effects to bring back before the saved connections are made: those
    /// that stand on their own.
    pub fn standalone(&self) -> (r: Vec<PersistedEffect>)
        requires
            self.wf(),
        ensures
            forall|i: int| 0 <= i < r@.len() ==> (#[trigger] r@[i]).instance.wf(),
            r@.map_values(|e: PersistedEffect| e@) == kept(self@, stands_alone()),
    {
        self.select(true)
    }

    /// The effects to bring back after that: an insertion replaces a
    /// connection, which must not be made again beside it.
    pub fn inserted(&self) -> (r: Vec<PersistedEffect>)
        requires
            self.wf(),
        ensures
            forall|i: int| 0 <= i < r@.len() ==> (#[trigger] r@[i]).instance.wf(),
            r@.map_values(|e: PersistedEffect| e@) == kept(self@, is_routed()),
    {
        self.select(false)
    }

    fn select(&self, alone: bool) -> (r: Vec<PersistedEffect>)
        requires
            self.wf(),
        ensures
            forall|i: int| 0 <= i < r@.len() ==> (#[trigger] r@[i]).instance.wf(),
            r@.map_values(|e: PersistedEffect| e@) == kept(
                self@,
                if alone {
                    stands_alone()
                } else {
                    is_routed()
                },
            ),
    {
        let ghost p = if alone {
            stands_alone()
        } else {
            is_routed()
        };
        let mut found: Vec<PersistedEffect> = Vec::new();
        let mut i: usize = 0;
        while i < self.effects.len()
            invariant
                i <= self.effects.len(),
                self.wf(),
                p == (if alone {
                    stands_alone()
                } else {
                    is_routed()
                }),
                forall|j: int| 0 <= j < found@.len() ==> (#[trigger] found@[j]).instance.wf(),
                found@.map_values(|e: PersistedEffect| e@) == kept(self@.take(i as int), p),
            decreases self.effects.len() - i,
        {
            let effect = &self.effects[i];
            proof {
                assert(self@[i as int] == effect@);
                lemma_kept_step(self@, p, i as int);
            }
            let ghost sofar = found@;
            let free = effect.source.is_none() && effect.destination.is_none();
            if free == alone {
                found.push(effect.duplicate());
                assert(found@.map_values(|e: PersistedEffect| e@) =~= sofar.map_values(
                    |e: PersistedEffect| e@,
                ).push(self@[i as int]));
            }
            i = i + 1;
        }
        assert(self@.take(i as int) =~= self@);
        found
    }

    /// Keeps where the effects that stand in the graph are drawn. `instances`
    /// are the effects of the driver, with their names and nodes.
    pub fn keep_positions(&mut self, graph: &Graph, instances: &Vec<EffectInstance>)
        requires
            old(self).wf(),
        ensures
            final(self).wf(),
            final(self)@ == drawn(old(self)@, graph@, instances@),
    {
        let ghost before = *self;
        let mut i: usize = 0;
        while i < self.effects.len()
            invariant
                i <= self.effects.len(),
                self.wf(),
                self.effects@.len() == before.effects@.len(),
                forall|j: int|
                    i <= j < before.effects@.len() ==> #[trigger] self.effects@[j]
                        == before.effects@[j],
                forall|j: int|
                    0 <= j < i ==> (#[trigger] self.effects@[j])@ == (PersistedView {
                        position: match drawn_at(
                            graph@,
                            instances@,
                            before@[j].instance.instance_id,
                            instances@.len() as int,
                        ) {
                            Some(position) => position,
                            None => before@[j].position,
                        },
                        ..before@[j]
                    }),
            decreases self.effects.len() - i,
        {
            let mut effect = self.effects[i].duplicate();
            if let Some(position) = find_drawn(
                graph,
                instances,
                effect.instance.instance_id.as_str(),
            ) {
                effect.position = position;
            }
            self.effects.set(i, effect);
            i = i + 1;
        }
        assert(self@ =~= drawn(before@, graph@, instances@));
    }
}

/// An effect that stands on its own.
pub open spec fn stands_alone() -> spec_fn(PersistedView) -> bool {
    |e: PersistedView| e.source is None && e.destination is None
}

/// An effect that was inserted.
pub open spec fn is_routed() -> spec_fn(PersistedView) -> bool {
    |e: PersistedView| e.source is Some || e.destination is Some
}

/// Where an instance is drawn, as the first instances of a list say. Of two
/// of one name the later counts.
pub open spec fn drawn_at(
    g: GraphView,
    instances: Seq<EffectInstance>,
    id: Seq<char>,
    n: int,
) -> Option<Position>
    decreases n,
{
    if n <= 0 {
        None
    } else {
        let instance = instances[n - 1];
        if instance.config.instance_id@ == id && g.has_node(instance.node_id) {
            Some(g.node(instance.node_id).position)
        } else {
            drawn_at(g, instances, id, n - 1)
        }
    }
}

/// The effects, each where it is drawn now, or where it was if it is not drawn.
pub open spec fn drawn(
    list: Seq<PersistedView>,
    g: GraphView,
    instances: Seq<EffectInstance>,
) -> Seq<PersistedView> {
    list.map_values(
        |e: PersistedView|
            PersistedView {
                position: match drawn_at(
                    g,
                    instances,
                    e.instance.instance_id,
                    instances.len() as int,
                ) {
                    Some(position) => position,
                    None => e.position,
                },
                ..e
            },
    )
}

fn find_drawn(graph: &Graph, instances: &Vec<EffectInstance>, id: &str) -> (r: Option<Position>)
    ensures
        r == drawn_at(graph@, instances@, id@, instances@.len() as int),
{
    let mut found: Option<Position> = None;
    let mut i: usize = 0;
    while i < instances.len()
        invariant
            i <= instances.len(),
            found == drawn_at(graph@, instances@, id@, i as int),
        decreases instances.len() - i,
    {
        if text_eq(instances[i].config.instance_id.as_str(), id) {
            if let Some(node) = graph.node(instances[i].node_id) {
                found = Some(node.position);
            }
        }
        i = i + 1;
    }
    found
}

/// How a saved effect comes back.
pub fn restore_plan(effect: &PersistedEffect) -> (r: RestorePlan)
    ensures
        match (effect@.source, effect@.destination) {
            (Some(_), Some(_)) => r is Insert,
            (None, None) => r is Standalone,
            _ => r matches RestorePlan::Incomplete(e) && e@ == incomplete_routing(),
        },
{
    match (&effect.source, &effect.destination) {
        (Some(_), Some(_)) => RestorePlan::Insert,
        (None, None) => RestorePlan::Standalone,
        _ => RestorePlan::Incomplete(effect_routing_incomplete()),
    }
}

/// The first instance at a node.
pub open spec fn instance_at(instances: Seq<EffectInstance>, node: NodeId, i: int) -> bool {
    &&& 0 <= i < instances.len()
    &&& instances[i].node_id == node
    &&& forall|j: int| 0 <= j < i ==> (#[trigger] instances[j]).node_id != node
}

/// The name of the effect at a node.
pub fn effect_instance_id(instances: &Vec<EffectInstance>, node: NodeId) -> (r: Option<String>)
    ensures
        match r {
            Some(id) => exists|i: int| #[trigger]
                instance_at(instances@, node, i) && id@ == instances@[i].config.instance_id@,
            None => forall|i: int|
                0 <= i < instances@.len() ==> (#[trigger] instances@[i]).node_id != node,
        },
{
    let mut i: usize = 0;
    while i < instances.len()
        invariant
            i <= instances.len(),
            forall|j: int| 0 <= j < i ==> (#[trigger] instances@[j]).node_id != node,
        decreases instances.len() - i,
    {
        if instances[i].node_id == node {
            assert(instance_at(instances@, node, i as int));
            return Some(instances[i].config.instance_id.clone());
        }
        i = i + 1;
    }
    None
}

/// Every saved effect comes back once: before the connections or after them.
pub proof fn law_saved_effects_come_back_once(e: PersistedView)
    ensures
        stands_alone()(e) != is_routed()(e),
{
}

/// A change of one effect leaves all others as they are, and the names of all.
pub proof fn law_updates_keep_the_others(
    list: Seq<PersistedView>,
    name: Seq<char>,
    update: EffectUpdate,
    i: int,
)
    requires
        0 <= i < list.len(),
    ensures
        updated(list, name, update).len() == list.len(),
        updated(list, name, update)[i].instance.instance_id == list[i].instance.instance_id,
        list[i].instance.instance_id != name ==> updated(list, name, update)[i] == list[i],
{
}

/// Names stay unique: a kept effect is the only one of its name.
pub proof fn law_kept_effects_have_one_entry(list: Seq<PersistedView>, id: Seq<char>, i: int)
    requires
        0 <= i < kept(list, is_other(id)).len(),
    ensures
        kept(list, is_other(id))[i].instance.instance_id != id,
{
    let rest = kept(list, is_other(id));
    assert(rest.contains(rest[i]));
    crate::lists::lemma_kept_members(list, is_other(id), rest[i]);
}

/// The saved effects with one as it stands now, in place of its old entry.
pub open spec fn persisted(
    list: Seq<PersistedView>,
    g: GraphView,
    instance: crate::effect_model::EffectInstanceView,
) -> Seq<PersistedView> {
    kept(list, is_other(instance.config.instance_id)).push(
        PersistedView {
            instance: instance.config,
            source: instance.source,
            destination: instance.destination,
            position: if g.has_node(instance.node_id) {
                g.node(instance.node_id).position
            } else {
                Position { x: FALLBACK_X, y: FALLBACK_Y }
            },
        },
    )
}

/// Saving an effect keeps one entry of it, with its settings, its routing and
/// the place of its node; the others stay. Removing one removes its entry and
/// no other.
pub proof fn law_saved_as_they_stand(
    list: Seq<PersistedView>,
    g: GraphView,
    instance: crate::effect_model::EffectInstanceView,
    other: PersistedView,
)
    ensures
        ({
            let after = persisted(list, g, instance);
            let id = instance.config.instance_id;
            let mine = after.last();
            &&& mine.instance == instance.config
            &&& mine.source == instance.source
            &&& mine.destination == instance.destination
            &&& g.has_node(instance.node_id) ==> mine.position == g.node(instance.node_id).position
            &&& other.instance.instance_id != id ==> (after.contains(other) <==> list.contains(
                other,
            ))
            &&& other.instance.instance_id == id && after.contains(other) ==> other == mine
            &&& kept(list, is_other(id)).contains(other) <==> list.contains(other)
                && other.instance.instance_id != id
        }),
{
    let id = instance.config.instance_id;
    let rest = kept(list, is_other(id));
    let after = persisted(list, g, instance);
    crate::lists::lemma_kept_members(list, is_other(id), other);
    crate::table::lemma_push_contains(rest, after.last(), other);
    assert(after == rest.push(after.last()));
}

/// An update changes what it names in the first entry of the effect: whether
/// it is enabled, or one parameter; nothing else of it.
pub proof fn law_updates_reach_the_effect(
    list: Seq<PersistedView>,
    name: Seq<char>,
    i: int,
    enabled: bool,
    id: String,
    value: u32,
)
    requires
        0 <= i < list.len(),
        list[i].instance.instance_id == name,
        forall|j: int| 0 <= j < i ==> (#[trigger] list[j]).instance.instance_id != name,
    ensures
        ({
            let after = updated(list, name, EffectUpdate::Enabled(enabled))[i];
            &&& after.instance.enabled == enabled
            &&& after.instance.parameters == list[i].instance.parameters
            &&& after.source == list[i].source && after.destination == list[i].destination
            &&& after.position == list[i].position
        }),
        ({
            let after = updated(list, name, EffectUpdate::Parameter { id, value })[i];
            &&& after.instance.parameters.contains_key(id@)
            &&& after.instance.parameters[id@] == value
            &&& forall|p: Seq<char>|
                p != id@ ==> (#[trigger] after.instance.parameters.contains_key(p)
                    <==> list[i].instance.parameters.contains_key(p))
            &&& after.instance.enabled == list[i].instance.enabled
            &&& after.source == list[i].source && after.destination == list[i].destination
        }),
{
    assert(saved_at(list, name, i));
}

/// The place of a saved effect is that of the node of its last instance in the
/// graph; without one it stays. Nothing else of it changes.
pub proof fn law_places_are_kept(
    list: Seq<PersistedView>,
    g: GraphView,
    instances: Seq<EffectInstance>,
    i: int,
    k: int,
)
    requires
        0 <= i < list.len(),
        0 <= k < instances.len(),
        instances[k].config.instance_id@ == list[i].instance.instance_id,
        g.has_node(instances[k].node_id),
        forall|j: int|
            k < j < instances.len() ==> (#[trigger] instances[j]).config.instance_id@
                != list[i].instance.instance_id || !g.has_node(instances[j].node_id),
    ensures
        drawn(list, g, instances).len() == list.len(),
        drawn(list, g, instances)[i].position == g.node(instances[k].node_id).position,
        drawn(list, g, instances)[i].instance == list[i].instance,
        drawn(list, g, instances)[i].source == list[i].source,
        drawn(list, g, instances)[i].destination == list[i].destination,
{
    lemma_drawn_last(g, instances, list[i].instance.instance_id, instances.len() as int, k);
}

proof fn lemma_drawn_last(
    g: GraphView,
    instances: Seq<EffectInstance>,
    id: Seq<char>,
    n: int,
    k: int,
)
    requires
        0 <= k < n <= instances.len(),
        instances[k].config.instance_id@ == id,
        g.has_node(instances[k].node_id),
        forall|j: int|
            k < j < n ==> (#[trigger] instances[j]).config.instance_id@ != id || !g.has_node(
                instances[j].node_id,
            ),
    ensures
        drawn_at(g, instances, id, n) == Some(g.node(instances[k].node_id).position),
    decreases n,
{
    if k < n - 1 {
        assert(instances[n - 1].config.instance_id@ != id || !g.has_node(
            instances[n - 1].node_id,
        ));
        lemma_drawn_last(g, instances, id, n - 1, k);
    }
}

/// An effect comes back where it stood: alone where it was routed by nothing,
/// else between its ports.
pub proof fn law_ways_back(e: PersistedView)
    ensures
        e.source is None && e.destination is None <==> stands_alone()(e),
        e.source is Some || e.destination is Some <==> is_routed()(e),
{
}

} // verus!
