//! Effects that live as filters of the audio server. The server numbers their
//! nodes and ports when it publishes them; here is how those numbers are found
//! again, and what is decided when effects come, go and move.
use crate::effect_callback::mask_of;
use crate::effect_model::{
    active_channel_mask, already_exists, audio_insertion_point, channel_active,
    effect_already_exists, effect_link_endpoints_locked, effect_port_names,
    effect_restore_endpoints, effect_routing_incomplete, ends_of, incomplete_routing,
    inferred_native_channels, is_blank, native_channels, native_refusal, node_name_of,
    plan_native_effect, port_names, unknown_effect_instance, unknown_instance, EffectConfig,
    EffectConfigView, EffectInstance, EffectInstanceView, PreparedEffect,
};
use crate::effect_request::{
    EffectCreateRequest, EffectCreateRequestView, EffectEvent, EffectEventView, EffectTarget,
    EffectTargetView, PreparationEvent, PreparationEventView,
};
use crate::graph::{Graph, GraphView};
use crate::ids::{graph_id, native_node_id, native_part, LinkId, NodeId, PortId};
use crate::model::{
    backend_error_text, BackendError, BackendErrorView, Direction, GraphError, Link, PortKey,
    PortKeyView, Position,
};
use crate::publication::{after_look, next_look, PublicationStep, PublicationWait};
use crate::registry::{PortRecordView, NodeRecordView, RegistryState, RegistryView};
use crate::snapshot::gid;
use crate::table::{
    first_of, keys_of, lemma_first_found, lemma_none_found, lists_domain,
};
use crate::text::{concat2, concat3, decimal, decimal_text, text_eq, trimmed};
use crate::text_table::TextTable;
use std::collections::BTreeMap;
use vstd::prelude::*;

verus! {

broadcast use vstd::std_specs::btree::group_btree_axioms;

/// The number of an object that the server has not published.
pub const UNRESOLVED_ID: u64 = 0xFFFF_FFFF_FFFF_FFFF;

/// What is answered to a request for an effect that would have to be ready at
/// once: preparing one takes its time.
pub fn refuse_immediate(inserted: bool) -> (r: BackendError)
    ensures
        r@ == BackendErrorView::Unsupported(
            if inserted {
                "PipeWire effects must be inserted asynchronously with begin_create_effect"@
            } else {
                "PipeWire effects must be created asynchronously with begin_create_effect"@
            },
        ),
{
    if inserted {
        BackendError::unsupported(
            "PipeWire effects must be inserted asynchronously with begin_create_effect",
        )
    } else {
        BackendError::unsupported(
            "PipeWire effects must be created asynchronously with begin_create_effect",
        )
    }
}

/// What a processor answers to a change of a parameter.
#[derive(Debug, PartialEq, Eq)]
pub enum ParameterAnswer {
    Taken,
    /// It does not take it, and says why.
    Refused(String),
    /// It failed while it was held, and cannot be asked any more.
    Poisoned,
}

/// What switching an effect asks of its processor.
#[derive(Clone, Copy, Debug, PartialEq, Eq, Structural)]
pub enum SwitchStep {
    Nothing,
    /// Tell the processor that it is passed by, or no longer.
    Tell,
    /// Forget what the processor has gathered.
    Reset,
}

/// A processor is only touched where an effect is really switched, and not
/// where it works in a worker of its own.
pub fn switch_step(was: bool, enabled: bool, has_worker: bool) -> (r: SwitchStep)
    ensures
        r == (if was != enabled && !has_worker {
            SwitchStep::Tell
        } else {
            SwitchStep::Nothing
        }),
{
    if was != enabled && !has_worker {
        SwitchStep::Tell
    } else {
        SwitchStep::Nothing
    }
}

/// A processor that cannot pass its input by is reset instead.
pub fn switch_told(took: bool) -> (r: SwitchStep)
    ensures
        r == (if took {
            SwitchStep::Nothing
        } else {
            SwitchStep::Reset
        }),
{
    if took {
        SwitchStep::Nothing
    } else {
        SwitchStep::Reset
    }
}

/// An effect that lives as a filter.
#[derive(Debug, PartialEq, Eq)]
pub struct NativeEffect {
    pub instance: EffectInstance,
    pub node_name: String,
    pub position: Position,
    pub physical_channels: usize,
}

/// The contents of a [`NativeEffect`].
#[verifier::ext_equal]
pub struct NativeEffectView {
    pub instance: EffectInstanceView,
    pub node_name: Seq<char>,
    pub position: Position,
    pub physical_channels: usize,
}

impl View for NativeEffect {
    type V = NativeEffectView;

    open spec fn view(&self) -> NativeEffectView {
        NativeEffectView {
            instance: self.instance@,
            node_name: self.node_name@,
            position: self.position,
            physical_channels: self.physical_channels,
        }
    }
}

/// Where the server published a filter.
#[derive(Clone, Copy, Debug, PartialEq, Eq, Structural)]
pub struct Resolution {
    pub node: NodeId,
    pub input: PortId,
    pub output: PortId,
}

/// What is made for an effect: the effect itself, and the ports of its filter
/// by name and channel.
#[derive(Debug, PartialEq, Eq)]
pub struct NativeEffectPlan {
    pub effect: NativeEffect,
    pub inputs: Vec<(String, String)>,
    pub outputs: Vec<(String, String)>,
}

impl NativeEffectView {
    /// An effect whose filter was just created.
    pub open spec fn fresh(
        config: EffectConfigView,
        node_name: Seq<char>,
        position: Position,
        channels: usize,
    ) -> NativeEffectView {
        NativeEffectView {
            instance: EffectInstanceView {
                config,
                node_id: NodeId(UNRESOLVED_ID),
                input_port: PortId(UNRESOLVED_ID),
                output_port: PortId(UNRESOLVED_ID),
                source: None,
                destination: None,
                error: None,
            },
            node_name,
            position,
            physical_channels: channels,
        }
    }

    /// The server has published the node and both of its ports.
    pub open spec fn resolved(self) -> bool {
        self.instance.node_id.0 != UNRESOLVED_ID && self.instance.input_port.0 != UNRESOLVED_ID
            && self.instance.output_port.0 != UNRESOLVED_ID
    }

    /// The effect at a published place.
    pub open spec fn at(self, place: Resolution, position: Position) -> NativeEffectView {
        NativeEffectView {
            instance: EffectInstanceView {
                node_id: place.node,
                input_port: place.input,
                output_port: place.output,
                ..self.instance
            },
            position,
            ..self
        }
    }
}

impl NativeEffect {
    pub open spec fn wf(&self) -> bool {
        self.instance.config.wf()
    }

    /// An effect whose filter was just created.
    pub fn created(config: EffectConfig, node_name: String, position: Position, channels: usize)
        -> (r: NativeEffect)
        requires
            config.wf(),
        ensures
            r.wf(),
            r@ == NativeEffectView::fresh(config@, node_name@, position, channels),
            !r@.resolved(),
    {
        NativeEffect {
            instance: EffectInstance {
                config,
                node_id: NodeId(UNRESOLVED_ID),
                input_port: PortId(UNRESOLVED_ID),
                output_port: PortId(UNRESOLVED_ID),
                source: None,
                destination: None,
                error: None,
            },
            node_name,
            position,
            physical_channels: channels,
        }
    }

    /// Decides on an effect: what is refused before a filter is made, and
    /// otherwise the effect with the ports that its filter gets.
    pub fn plan(config: EffectConfig, position: Position, effect_name: &str, channels: usize) -> (r:
        Result<NativeEffectPlan, BackendError>)
        requires
            config.wf(),
        ensures
            match native_refusal(config@, effect_name@) {
                Some(error) => r matches Err(e) && e@ == error,
                None => r matches Ok(plan) && plan.effect.wf() && plan.effect@
                    == NativeEffectView::fresh(
                    config@,
                    node_name_of(effect_name@, config@.instance_id),
                    position,
                    channels,
                ) && port_names(plan.inputs@, "input"@, channels) && port_names(
                    plan.outputs@,
                    "output"@,
                    channels,
                ),
            },
    {
        let planned = plan_native_effect(
            config.instance_id.as_str(),
            config.effect_id.as_str(),
            config.module.is_some(),
            effect_name,
        );
        match planned {
            Err(error) => Err(error),
            Ok(node_name) => Ok(
                NativeEffectPlan {
                    effect: NativeEffect::created(config, node_name, position, channels),
                    inputs: effect_port_names("input", channels),
                    outputs: effect_port_names("output", channels),
                },
            ),
        }
    }

    pub fn resolved(&self) -> (r: bool)
        ensures
            r == self@.resolved(),
    {
        self.instance.node_id.0 != UNRESOLVED_ID && self.instance.input_port.0 != UNRESOLVED_ID
            && self.instance.output_port.0 != UNRESOLVED_ID
    }

    /// A copy with the same contents.
    pub fn duplicate(&self) -> (r: NativeEffect)
        requires
            self.wf(),
        ensures
            r.wf(),
            r@ == self@,
    {
        NativeEffect {
            instance: self.instance.duplicate(),
            node_name: self.node_name.clone(),
            position: self.position,
            physical_channels: self.physical_channels,
        }
    }
}

/// A node has the name of a filter.
pub open spec fn has_name(name: Seq<char>) -> spec_fn(NodeRecordView) -> bool {
    |record: NodeRecordView| record.name == name
}

/// The node of a filter: the one that the filter names itself, if the server
/// knows it under the filter's name, else the first node of that name.
pub open spec fn filter_node(state: RegistryView, name: Seq<char>, runtime: Option<NodeId>) -> Option<
    NodeId,
> {
    match runtime {
        Some(id) if state.nodes.contains_key(native_part(id.0) as u64) && state.nodes[native_part(
            id.0,
        ) as u64].name == name => Some(id),
        _ => match first_of(state.nodes, has_name(name)) {
            Some(k) => Some(NodeId(gid(k))),
            None => None,
        },
    }
}

/// A port of a node on one side that bears one of two names.
pub open spec fn filter_port(
    node: NodeId,
    direction: Direction,
    left: Seq<char>,
    mono: Seq<char>,
) -> spec_fn(PortRecordView) -> bool {
    |port: PortRecordView|
        port.node_id == native_part(node.0) && port.direction == direction && (port.name == left
            || port.name == mono)
}

/// The first such port.
pub open spec fn first_port(
    state: RegistryView,
    node: NodeId,
    direction: Direction,
    left: Seq<char>,
    mono: Seq<char>,
) -> Option<PortId> {
    match first_of(state.ports, filter_port(node, direction, left, mono)) {
        Some(k) => Some(PortId(gid(k))),
        None => None,
    }
}

/// Where a filter stands: its node and the first ports of both sides, if all
/// three are published.
pub open spec fn resolution(state: RegistryView, name: Seq<char>, runtime: Option<NodeId>) -> Option<
    Resolution,
> {
    match filter_node(state, name, runtime) {
        None => None,
        Some(node) => match (
            first_port(state, node, Direction::Sink, "input_FL"@, "input_MONO"@),
            first_port(state, node, Direction::Source, "output_FL"@, "output_MONO"@),
        ) {
            (Some(input), Some(output)) => Some(Resolution { node, input, output }),
            _ => None,
        },
    }
}

fn find_filter_node(state: &RegistryState, name: &str, runtime: Option<NodeId>) -> (r: Option<
    NodeId,
>)
    ensures
        r == filter_node(state@, name@, runtime),
{
    if let Some(id) = runtime {
        if let Some(record) = state.nodes.get(&(native_node_id(id) as u64)) {
            if text_eq(record.name.as_str(), name) {
                return Some(id);
            }
        }
    }
    let ghost named = match first_of(state@.nodes, has_name(name@)) {
        Some(k) => Some(NodeId(gid(k))),
        None => None,
    };
    assert(filter_node(state@, name@, runtime) == named);
    let keys = keys_of(&state.nodes);
    assert(lists_domain(keys@, state@.nodes)) by {
        assert forall|k: u64| #[trigger] keys@.contains(k) <==> state@.nodes.contains_key(k) by {
            assert(keys@.contains(k) <==> state.nodes@.contains_key(k));
        }
    }
    let mut i: usize = 0;
    while i < keys.len()
        invariant
            i <= keys.len(),
            lists_domain(keys@, state@.nodes),
            filter_node(state@, name@, runtime) == named,
            named == (match first_of(state@.nodes, has_name(name@)) {
                Some(k) => Some(NodeId(gid(k))),
                None => None,
            }),
            forall|j: int| 0 <= j < i ==> !has_name(name@)(#[trigger] state@.nodes[keys@[j]]),
        decreases keys.len() - i,
    {
        let k: u64 = keys[i];
        assert(keys@.contains(k));
        assert(state@.nodes.contains_key(k));
        if let Some(record) = state.nodes.get(&k) {
            if text_eq(record.name.as_str(), name) {
                proof {
                    lemma_first_found(keys@, state@.nodes, has_name(name@), i as int);
                }
                return Some(NodeId(graph_id(k)));
            }
        }
        i = i + 1;
    }
    proof {
        lemma_none_found(keys@, state@.nodes, has_name(name@));
    }
    None
}

fn find_first_port(
    state: &RegistryState,
    node: NodeId,
    direction: Direction,
    left: &str,
    mono: &str,
) -> (r: Option<PortId>)
    ensures
        r == first_port(state@, node, direction, left@, mono@),
{
    let keys = keys_of(&state.ports);
    assert(lists_domain(keys@, state@.ports)) by {
        assert forall|k: u64| #[trigger] keys@.contains(k) <==> state@.ports.contains_key(k) by {
            assert(keys@.contains(k) <==> state.ports@.contains_key(k));
        }
    }
    let native: u32 = native_node_id(node);
    let mut i: usize = 0;
    while i < keys.len()
        invariant
            i <= keys.len(),
            native == native_part(node.0),
            lists_domain(keys@, state@.ports),
            forall|j: int|
                0 <= j < i ==> !filter_port(node, direction, left@, mono@)(
                    #[trigger] state@.ports[keys@[j]],
                ),
        decreases keys.len() - i,
    {
        let k: u64 = keys[i];
        assert(keys@.contains(k));
        assert(state@.ports.contains_key(k));
        if let Some(port) = state.ports.get(&k) {
            if port.node_id == native && port.direction == direction && (text_eq(
                port.name.as_str(),
                left,
            ) || text_eq(port.name.as_str(), mono)) {
                proof {
                    lemma_first_found(
                        keys@,
                        state@.ports,
                        filter_port(node, direction, left@, mono@),
                        i as int,
                    );
                }
                return Some(PortId(graph_id(k)));
            }
        }
        i = i + 1;
    }
    proof {
        lemma_none_found(keys@, state@.ports, filter_port(node, direction, left@, mono@));
    }
    None
}

/// Looks for a filter among what the server has published.
pub fn resolve_filter(state: &RegistryState, name: &str, runtime: Option<NodeId>) -> (r: Option<
    Resolution,
>)
    ensures
        r == resolution(state@, name@, runtime),
{
    match find_filter_node(state, name, runtime) {
        None => None,
        Some(node) => {
            let input = find_first_port(state, node, Direction::Sink, "input_FL", "input_MONO");
            let output = find_first_port(
                state,
                node,
                Direction::Source,
                "output_FL",
                "output_MONO",
            );
            match (input, output) {
                (Some(input), Some(output)) => Some(Resolution { node, input, output }),
                _ => None,
            }
        },
    }
}

/// Where an effect is drawn once it was found.
pub open spec fn kept_position(
    effect: NativeEffectView,
    positions: Map<u64, Position>,
) -> Position {
    if positions.contains_key(effect.instance.node_id.0) {
        positions[effect.instance.node_id.0]
    } else {
        effect.position
    }
}

/// An effect after a look at the server.
pub open spec fn effect_after(
    effect: NativeEffectView,
    positions: Map<u64, Position>,
    found: Option<Resolution>,
) -> NativeEffectView {
    match found {
        None => effect,
        Some(place) => effect.at(place, kept_position(effect, positions)),
    }
}

/// The positions after a look for one effect.
pub open spec fn positions_after(
    effect: NativeEffectView,
    positions: Map<u64, Position>,
    found: Option<Resolution>,
) -> Map<u64, Position> {
    match found {
        None => positions,
        Some(place) => {
            let old = effect.instance.node_id;
            let rest = if old != place.node {
                positions.remove(old.0)
            } else {
                positions
            };
            rest.insert(place.node.0, kept_position(effect, positions))
        },
    }
}

/// The positions after a look for the first effects of a list.
pub open spec fn positions_for(
    effects: Seq<NativeEffectView>,
    positions: Map<u64, Position>,
    found: Seq<Option<Resolution>>,
    n: int,
) -> Map<u64, Position>
    decreases n,
{
    if n <= 0 {
        positions
    } else {
        positions_after(
            effects[n - 1],
            positions_for(effects, positions, found, n - 1),
            found[n - 1],
        )
    }
}

/// The filters of a driver, with the positions of nodes and what is being
/// prepared.
#[derive(Debug, PartialEq, Eq)]
pub struct NativeEffects {
    pub effects: TextTable<NativeEffect>,
    pub positions: BTreeMap<u64, Position>,
    pub pending: BTreeMap<u64, EffectCreateRequest>,
}

/// The contents of [`NativeEffects`].
#[verifier::ext_equal]
pub struct NativeEffectsView {
    pub effects: Map<Seq<char>, NativeEffectView>,
    pub positions: Map<u64, Position>,
    pub pending: Map<u64, EffectCreateRequestView>,
}

impl View for NativeEffects {
    type V = NativeEffectsView;

    open spec fn view(&self) -> NativeEffectsView {
        NativeEffectsView {
            effects: self.effects@.map_values(|e: NativeEffect| e@),
            positions: self.positions@,
            pending: self.pending@.map_values(|r: EffectCreateRequest| r@),
        }
    }
}

/// The effects of a table in the order of their names.
pub open spec fn in_order(entries: Seq<(String, NativeEffect)>) -> Seq<NativeEffectView> {
    entries.map_values(|entry: (String, NativeEffect)| entry.1@)
}

/// What a look at the server finds for each effect.
pub open spec fn found_for(
    entries: Seq<(String, NativeEffect)>,
    state: RegistryView,
    runtime: Seq<Option<NodeId>>,
) -> Seq<Option<Resolution>> {
    Seq::new(
        entries.len(),
        |i: int| resolution(state, entries[i].1@.node_name, runtime[i]),
    )
}

impl NativeEffects {
    /// Every effect stands under its own name.
    pub open spec fn wf(&self) -> bool {
        &&& self.effects.wf()
        &&& forall|i: int|
            0 <= i < self.effects.entries@.len() ==> (#[trigger] self.effects.entries@[i]).1.wf()
        &&& forall|k: u64| #[trigger] self.pending@.contains_key(k) ==> self.pending@[k].wf()
    }

    pub fn new() -> (r: NativeEffects)
        ensures
            r.wf(),
            r@ == (NativeEffectsView {
                effects: Map::empty(),
                positions: Map::empty(),
                pending: Map::empty(),
            }),
    {
        let r = NativeEffects {
            effects: TextTable::new(),
            positions: BTreeMap::new(),
            pending: BTreeMap::new(),
        };
        assert(r@.effects =~= Map::<Seq<char>, NativeEffectView>::empty());
        assert(r@.pending =~= Map::<u64, EffectCreateRequestView>::empty());
        assert(r.effects.entries@.len() == 0) by {
            if r.effects.entries@.len() > 0 {
                let key = r.effects.entries@[0].0@;
                assert(crate::text_table::key_at(r.effects.entries@, key, 0));
                assert(r.effects@.contains_key(key));
            }
        }
        r
    }

    /// Looks at what the server has published and takes on the numbers of
    /// each filter that is complete. `runtime` holds, for each effect in the
    /// order of their names, the node that the filter says it is.
    pub fn reconcile_effects(&mut self, state: &RegistryState, runtime: &Vec<Option<NodeId>>)
        requires
            old(self).wf(),
            runtime@.len() == old(self).effects.entries@.len(),
        ensures
            final(self).wf(),
            final(self).effects.entries@.len() == old(self).effects.entries@.len(),
            forall|i: int|
                0 <= i < old(self).effects.entries@.len() ==> {
                    let effects = in_order(old(self).effects.entries@);
                    let found = found_for(old(self).effects.entries@, state@, runtime@);
                    &&& (#[trigger] final(self).effects.entries@[i]).0
                        == old(self).effects.entries@[i].0
                    &&& final(self).effects.entries@[i].1@ == effect_after(
                        effects[i],
                        positions_for(effects, old(self)@.positions, found, i),
                        found[i],
                    )
                },
            final(self)@.positions == positions_for(
                in_order(old(self).effects.entries@),
                old(self)@.positions,
                found_for(old(self).effects.entries@, state@, runtime@),
                old(self).effects.entries@.len() as int,
            ),
            final(self)@.pending == old(self)@.pending,
    {
        let ghost entries = self.effects.entries@;
        let ghost start = self.positions@;
        let ghost effects = in_order(entries);
        let ghost found = found_for(entries, state@, runtime@);
        let ghost pending = self.pending@;
        let mut i: usize = 0;
        while i < self.effects.entries.len()
            invariant
                i <= self.effects.entries.len(),
                self.effects.entries@.len() == entries.len(),
                runtime@.len() == entries.len(),
                effects == in_order(entries),
                found == found_for(entries, state@, runtime@),
                self.pending@ == pending,
                forall|k: u64| #[trigger] pending.contains_key(k) ==> pending[k].wf(),
                forall|j: int|
                    0 <= j < entries.len() ==> (#[trigger] self.effects.entries@[j]).1.wf()
                        && self.effects.entries@[j].0 == entries[j].0,
                forall|j: int|
                    i <= j < entries.len() ==> (#[trigger] self.effects.entries@[j]).1@
                        == effects[j],
                forall|j: int|
                    0 <= j < i ==> (#[trigger] self.effects.entries@[j]).1@ == effect_after(
                        effects[j],
                        positions_for(effects, start, found, j),
                        found[j],
                    ),
                self.positions@ == positions_for(effects, start, found, i as int),
            decreases self.effects.entries.len() - i,
        {
            let key = self.effects.entries[i].0.clone();
            let mut effect = self.effects.entries[i].1.duplicate();
            assert(effect@ == effects[i as int]);
            if let Some(place) = resolve_filter(state, effect.node_name.as_str(), runtime[i]) {
                let before: NodeId = effect.instance.node_id;
                let position: Position = match self.positions.get(&before.0) {
                    Some(position) => *position,
                    None => effect.position,
                };
                effect.instance.node_id = place.node;
                effect.instance.input_port = place.input;
                effect.instance.output_port = place.output;
                effect.position = position;
                if before != place.node {
                    let _ = self.positions.remove(&before.0);
                }
                self.positions.insert(place.node.0, position);
                assert(effect@ =~= effects[i as int].at(place, position));
            }
            self.effects.entries.set(i, (key, effect));
            i = i + 1;
        }
        assert(self.effects.wf()) by {
            assert forall|a: int, b: int|
                0 <= a < b < self.effects.entries@.len() implies crate::text_table::text_before(
                #[trigger] self.effects.entries@[a].0@,
                #[trigger] self.effects.entries@[b].0@,
            ) by {
                assert(entries[a].0 == self.effects.entries@[a].0);
                assert(entries[b].0 == self.effects.entries@[b].0);
            }
        }
    }

    /// The channels of each effect that carry sound, in the order of their
    /// names. An effect that is not published has none.
    pub fn channel_masks(&self, graph: &Graph) -> (r: Vec<u16>)
        ensures
            r@.len() == self.effects.entries@.len(),
            forall|i: int|
                0 <= i < r@.len() ==> #[trigger] r@[i] == effect_mask(
                    graph@,
                    self.effects.entries@[i].1@,
                ),
    {
        let mut masks: Vec<u16> = Vec::new();
        let mut i: usize = 0;
        while i < self.effects.entries.len()
            invariant
                i <= self.effects.entries.len(),
                masks@.len() == i,
                forall|j: int|
                    0 <= j < i ==> #[trigger] masks@[j] == effect_mask(
                        graph@,
                        self.effects.entries@[j].1@,
                    ),
            decreases self.effects.entries.len() - i,
        {
            let effect = &self.effects.entries[i].1;
            let mask: u16 = if effect.resolved() {
                active_channel_mask(graph, effect.instance.node_id, effect.physical_channels)
            } else {
                0
            };
            masks.push(mask);
            i = i + 1;
        }
        masks
    }
}

/// The channels of an effect that carry sound.
pub open spec fn effect_mask(g: GraphView, effect: NativeEffectView) -> int {
    if effect.resolved() && g.has_node(effect.instance.node_id) {
        let ports = g.node(effect.instance.node_id).ports;
        mask_of(
            channel_active(g, ports, 0, effect.physical_channels),
            channel_active(g, ports, 1, effect.physical_channels),
        )
    } else {
        0
    }
}

/// Which effect stands at each node, as the first effects of a list say. Of
/// two at one node the later counts.
pub open spec fn nodes_of(entries: Seq<(String, NativeEffect)>, n: int) -> Map<u64, Seq<char>>
    decreases n,
{
    if n <= 0 {
        Map::empty()
    } else {
        let effect = entries[n - 1].1@;
        let rest = nodes_of(entries, n - 1);
        if effect.resolved() {
            rest.insert(effect.instance.node_id.0, effect.instance.config.instance_id)
        } else {
            rest
        }
    }
}

/// The node and both ports of an effect are in the graph.
pub open spec fn shown(g: GraphView, effect: NativeEffectView) -> bool {
    effect.resolved() && g.has_node(effect.instance.node_id) && g.has_port(
        effect.instance.input_port,
    ) && g.has_port(effect.instance.output_port)
}

impl NativeEffectsView {
    /// An instance is in the graph or being prepared.
    pub open spec fn knows(self, id: Seq<char>) -> bool {
        self.effects.contains_key(id) || self.prepares(id)
    }

    /// An instance is being prepared.
    pub open spec fn prepares(self, id: Seq<char>) -> bool {
        exists|k: u64| #[trigger]
            self.pending.contains_key(k) && self.pending[k].config.instance_id == id
    }

    /// With a parameter of an effect.
    pub open spec fn with_parameter(
        self,
        id: Seq<char>,
        parameter: Seq<char>,
        value: u32,
    ) -> NativeEffectsView {
        let before = self.effects[id];
        NativeEffectsView {
            effects: self.effects.insert(
                id,
                NativeEffectView {
                    instance: EffectInstanceView {
                        config: EffectConfigView {
                            parameters: before.instance.config.parameters.insert(parameter, value),
                            ..before.instance.config
                        },
                        ..before.instance
                    },
                    ..before
                },
            ),
            ..self
        }
    }

    /// The effects after one was put between two ports.
    pub open spec fn with_routing(
        self,
        id: Seq<char>,
        source: PortKeyView,
        destination: PortKeyView,
    ) -> NativeEffectsView {
        let before = self.effects[id];
        NativeEffectsView {
            effects: self.effects.insert(
                id,
                NativeEffectView {
                    instance: EffectInstanceView {
                        source: Some(source),
                        destination: Some(destination),
                        ..before.instance
                    },
                    ..before
                },
            ),
            ..self
        }
    }

    /// The effects after one was switched.
    pub open spec fn with_enabled(self, id: Seq<char>, enabled: bool) -> NativeEffectsView {
        let before = self.effects[id];
        NativeEffectsView {
            effects: self.effects.insert(
                id,
                NativeEffectView {
                    instance: EffectInstanceView {
                        config: EffectConfigView { enabled, ..before.instance.config },
                        ..before.instance
                    },
                    ..before
                },
            ),
            ..self
        }
    }

    /// Without an effect, and without the position of its node.
    pub open spec fn without(self, id: Seq<char>) -> NativeEffectsView {
        NativeEffectsView {
            effects: self.effects.remove(id),
            positions: self.positions.remove(self.effects[id].instance.node_id.0),
            ..self
        }
    }

    /// Why an effect cannot be asked for.
    pub open spec fn refusal(self, request: EffectCreateRequestView) -> Option<BackendErrorView> {
        if trimmed(request.config.instance_id).len() == 0 {
            Some(BackendErrorView::Native("effect instance id cannot be empty"@))
        } else if trimmed(request.config.effect_id).len() == 0 {
            Some(BackendErrorView::Native("effect id cannot be empty"@))
        } else if self.knows(request.config.instance_id) {
            Some(already_exists(request.config.instance_id))
        } else {
            None
        }
    }
}

/// How many channels the place of an effect suggests: nothing for one that
/// stands alone; the width of the source for one that is inserted, which
/// takes an audio link between its ends.
pub open spec fn suggested_channels(g: GraphView, target: EffectTargetView) -> Result<
    Option<u16>,
    BackendErrorView,
> {
    match target {
        EffectTargetView::Standalone { .. } => Ok(None),
        EffectTargetView::Insert { source, destination, .. } => match audio_insertion_point(
            g,
            source,
            destination,
        ) {
            Err(error) => Err(error),
            Ok(_) => Ok(native_channels(g, source)),
        },
    }
}

pub fn topology_channels(graph: &Graph, target: &EffectTarget) -> (r: Result<
    Option<u16>,
    BackendError,
>)
    requires
        graph.wf(),
    ensures
        match suggested_channels(graph@, target@) {
            Err(error) => r matches Err(e) && e@ == error,
            Ok(channels) => r == Ok::<Option<u16>, BackendError>(channels),
        },
{
    match target {
        EffectTarget::Standalone { .. } => Ok(None),
        EffectTarget::Insert { source, destination, .. } => {
            match effect_link_endpoints_locked(graph, source, destination) {
                Err(error) => Err(error),
                Ok(_) => Ok(inferred_native_channels(graph, source)),
            }
        },
    }
}

impl NativeEffects {
    /// Which effect stands at each node.
    pub fn effect_nodes(&self) -> (r: BTreeMap<u64, String>)
        ensures
            r@.map_values(|id: String| id@) == nodes_of(
                self.effects.entries@,
                self.effects.entries@.len() as int,
            ),
    {
        let mut nodes: BTreeMap<u64, String> = BTreeMap::new();
        assert(nodes@.map_values(|id: String| id@) =~= Map::<u64, Seq<char>>::empty());
        let mut i: usize = 0;
        while i < self.effects.entries.len()
            invariant
                i <= self.effects.entries.len(),
                nodes@.map_values(|id: String| id@) == nodes_of(self.effects.entries@, i as int),
            decreases self.effects.entries.len() - i,
        {
            let effect = &self.effects.entries[i].1;
            let ghost before = nodes@;
            if effect.resolved() {
                nodes.insert(
                    effect.instance.node_id.0,
                    effect.instance.config.instance_id.clone(),
                );
                assert(nodes@.map_values(|id: String| id@) =~= before.map_values(
                    |id: String| id@,
                ).insert(effect@.instance.node_id.0, effect@.instance.config.instance_id));
            }
            i = i + 1;
        }
        nodes
    }

    fn is_pending(&self, id: &str) -> (r: bool)
        ensures
            r == self@.prepares(id@),
    {
        let keys = keys_of(&self.pending);
        let mut i: usize = 0;
        while i < keys.len()
            invariant
                i <= keys.len(),
                lists_domain(keys@, self.pending@),
                forall|j: int|
                    0 <= j < i ==> self@.pending[#[trigger] keys@[j]].config.instance_id != id@,
            decreases keys.len() - i,
        {
            let k: u64 = keys[i];
            assert(keys@.contains(k));
            assert(self.pending@.contains_key(k));
            assert(self@.pending.contains_key(k));
            if let Some(request) = self.pending.get(&k) {
                if text_eq(request.config.instance_id.as_str(), id) {
                    return true;
                }
            }
            i = i + 1;
        }
        proof {
            if self@.prepares(id@) {
                let k = choose|k: u64| #[trigger]
                    self@.pending.contains_key(k) && self@.pending[k].config.instance_id == id@;
                assert(self.pending@.contains_key(k));
                assert(keys@.contains(k));
            }
        }
        false
    }

    fn has_effect(&self, id: &str) -> (r: bool)
        requires
            self.wf(),
        ensures
            r == self@.effects.contains_key(id@),
    {
        self.effects.contains_key(id)
    }

    /// Checks that an effect may be asked for.
    pub fn check_create_effect(&self, request: &EffectCreateRequest) -> (r: Result<
        (),
        BackendError,
    >)
        requires
            self.wf(),
        ensures
            match self@.refusal(request@) {
                Some(error) => r matches Err(e) && e@ == error,
                None => r is Ok,
            },
    {
        let id = request.config.instance_id.as_str();
        if is_blank(id) {
            return Err(BackendError::native("effect instance id cannot be empty"));
        }
        if is_blank(request.config.effect_id.as_str()) {
            return Err(BackendError::native("effect id cannot be empty"));
        }
        if self.has_effect(id) || self.is_pending(id) {
            return Err(effect_already_exists(id));
        }
        Ok(())
    }

    /// Notes that an effect is being prepared.
    pub fn effect_pending(&mut self, ticket: u64, request: EffectCreateRequest)
        requires
            old(self).wf(),
            request.wf(),
        ensures
            final(self).wf(),
            final(self)@ == (NativeEffectsView {
                pending: old(self)@.pending.insert(ticket, request@),
                ..old(self)@
            }),
    {
        let ghost before = self@;
        self.pending.insert(ticket, request);
        assert(self@.pending =~= before.pending.insert(ticket, request@));
    }

    /// Ends the wait for an effect, and says what was asked for. Of a ticket
    /// that was dropped before, nothing comes.
    pub fn effect_settled(&mut self, ticket: u64) -> (r: Option<EffectCreateRequest>)
        requires
            old(self).wf(),
        ensures
            final(self).wf(),
            final(self)@ == (NativeEffectsView {
                pending: old(self)@.pending.remove(ticket),
                ..old(self)@
            }),
            match r {
                Some(request) => request.wf() && old(self)@.pending.contains_key(ticket)
                    && request@ == old(self)@.pending[ticket],
                None => !old(self)@.pending.contains_key(ticket),
            },
    {
        let ghost before = self@;
        let taken = self.pending.remove(&ticket);
        assert(self@.pending =~= before.pending.remove(ticket));
        taken
    }

    /// Takes on what happened to the preparation of an effect. An effect that
    /// is ready has to be put in; a ticket that is not known any more gives
    /// nothing, and what was prepared for it is dropped.
    pub fn note_preparation(&mut self, news: PreparationEvent) -> (r: PreparationStep)
        requires
            old(self).wf(),
        ensures
            final(self).wf(),
            final(self)@ == (if news is Loading {
                old(self)@
            } else {
                NativeEffectsView {
                    pending: old(self)@.pending.remove(news@.ticket()),
                    ..old(self)@
                }
            }),
            match news@ {
                PreparationEventView::Loading { ticket, stage } => r matches PreparationStep::Report(
                    event,
                ) && event@ == (EffectEventView::Loading { ticket, stage }),
                PreparationEventView::Ready { ticket, prepared } => if old(
                    self,
                )@.pending.contains_key(ticket) {
                    r matches PreparationStep::Activate { ticket: t, request, prepared: p } && t
                        == ticket && request.wf() && request@ == old(self)@.pending[ticket] && p@
                        == prepared
                } else {
                    r is Forgotten
                },
                PreparationEventView::Failed { ticket, error } => r matches PreparationStep::Report(
                    event,
                ) && event@ == (EffectEventView::Failed { ticket, error }),
                PreparationEventView::Cancelled { ticket } => r matches PreparationStep::Report(
                    event,
                ) && event@ == (EffectEventView::Cancelled { ticket }),
            },
    {
        match news {
            PreparationEvent::Loading { ticket, stage } => PreparationStep::Report(
                EffectEvent::Loading { ticket, stage },
            ),
            PreparationEvent::Ready { ticket, prepared } => match self.effect_settled(ticket) {
                None => PreparationStep::Forgotten,
                Some(request) => PreparationStep::Activate { ticket, request, prepared },
            },
            PreparationEvent::Failed { ticket, error } => {
                let _ = self.effect_settled(ticket);
                PreparationStep::Report(EffectEvent::Failed { ticket, error })
            },
            PreparationEvent::Cancelled { ticket } => {
                let _ = self.effect_settled(ticket);
                PreparationStep::Report(EffectEvent::Cancelled { ticket })
            },
        }
    }

    /// Checks that an instance may be added.
    pub fn check_new_instance(&self, id: &str) -> (r: Result<(), BackendError>)
        requires
            self.wf(),
        ensures
            if self@.effects.contains_key(id@) {
                r matches Err(e) && e@ == already_exists(id@)
            } else {
                r is Ok
            },
    {
        if self.has_effect(id) {
            Err(effect_already_exists(id))
        } else {
            Ok(())
        }
    }

    /// Puts an effect under its name.
    pub fn insert_effect(&mut self, effect: NativeEffect)
        requires
            old(self).wf(),
            effect.wf(),
        ensures
            final(self).wf(),
            final(self)@ == (NativeEffectsView {
                effects: old(self)@.effects.insert(
                    effect@.instance.config.instance_id,
                    effect@,
                ),
                ..old(self)@
            }),
    {
        let ghost before = *self;
        let id = effect.instance.config.instance_id.clone();
        self.effects.insert(id, effect);
        proof {
            assert(self@.effects =~= before@.effects.insert(id@, effect@));
            lemma_members_fit(before.effects, self.effects, id@, effect);
        }
    }

    /// The effect is in the graph with its node and both ports.
    pub fn is_published(&self, graph: &Graph, id: &str) -> (r: bool)
        requires
            self.wf(),
        ensures
            r == (self@.effects.contains_key(id@) && shown(graph@, self@.effects[id@])),
    {
        match self.effects.get(id) {
            None => false,
            Some(effect) => effect.resolved() && graph.node(effect.instance.node_id).is_some()
                && graph.port(effect.instance.input_port).is_some() && graph.port(
                effect.instance.output_port,
            ).is_some(),
        }
    }

    /// The server was asked once more for what it has published. Decides
    /// whether the wait for the effect goes on.
    pub fn publication_looked(
        &self,
        wait: &mut PublicationWait,
        graph: &Graph,
        id: &str,
        looked: Result<(), BackendError>,
    ) -> (r: PublicationStep)
        requires
            self.wf(),
        ensures
            after_look(
                r,
                looked,
                old(wait).looks,
                self@.effects.contains_key(id@) && shown(graph@, self@.effects[id@]),
            ),
            final(wait).looks == next_look(old(wait).looks),
    {
        let ready = self.is_published(graph, id);
        wait.looked(looked, ready)
    }

    /// Takes an effect out, together with the position of its node.
    pub fn take_effect(&mut self, id: &str) -> (r: Option<NativeEffect>)
        requires
            old(self).wf(),
        ensures
            final(self).wf(),
            match r {
                Some(effect) => {
                    &&& old(self)@.effects.contains_key(id@)
                    &&& effect.wf()
                    &&& effect@ == old(self)@.effects[id@]
                    &&& final(self)@ == old(self)@.without(id@)
                },
                None => {
                    &&& !old(self)@.effects.contains_key(id@)
                    &&& final(self)@ == old(self)@
                },
            },
    {
        let ghost before = *self;
        match self.effects.remove(id) {
            None => {
                assert(self@.effects =~= before@.effects);
                proof {
                    lemma_members_stay(before.effects, self.effects);
                }
                None
            },
            Some(effect) => {
                let _ = self.positions.remove(&effect.instance.node_id.0);
                proof {
                    assert(before.effects@.contains_key(id@));
                    assert(before@.effects[id@] == effect@);
                    assert(self@.effects =~= before@.effects.remove(id@));
                    lemma_members_stay(before.effects, self.effects);
                    lemma_member_fits(before.effects, id@);
                }
                Some(effect)
            },
        }
    }

    /// Settles the creation of an effect, once it was looked for on the
    /// server as often as it is. An effect that did not appear is taken out
    /// again.
    pub fn finish_create(&mut self, id: &str, looked: Result<(), BackendError>) -> (r: Result<
        EffectInstance,
        BackendError,
    >)
        requires
            old(self).wf(),
        ensures
            final(self).wf(),
            match creation_error(old(self)@, id@, error_of(looked)) {
                None => {
                    &&& r matches Ok(instance) && instance.config.wf() && instance@
                        == old(self)@.effects[id@].instance
                    &&& final(self)@ == old(self)@
                },
                Some(error) => {
                    &&& r matches Err(e) && e@ == error
                    &&& final(self)@ == (if old(self)@.effects.contains_key(id@) {
                        old(self)@.without(id@)
                    } else {
                        old(self)@
                    })
                },
            },
    {
        let error = match looked {
            Err(error) => error,
            Ok(()) => match self.effects.get(id) {
                None => BackendError::native("new PipeWire effect disappeared during creation"),
                Some(effect) => {
                    if effect.resolved() {
                        proof {
                            lemma_member_fits(self.effects, id@);
                        }
                        return Ok(effect.instance.duplicate());
                    }
                    BackendError::native(
                        "PipeWire did not publish the effect node and both DSP ports",
                    )
                },
            },
        };
        let _ = self.take_effect(id);
        Err(error)
    }

    /// Takes an effect out. The filter has to be destroyed then.
    pub fn destroy_effect(&mut self, id: &str) -> (r: Result<EffectInstance, BackendError>)
        requires
            old(self).wf(),
        ensures
            final(self).wf(),
            if old(self)@.effects.contains_key(id@) {
                &&& r matches Ok(instance) && instance@ == old(self)@.effects[id@].instance
                &&& final(self)@ == old(self)@.without(id@)
            } else {
                &&& r matches Err(e) && e@ == unknown_instance(id@)
                &&& final(self)@ == old(self)@
            },
    {
        match self.take_effect(id) {
            None => Err(unknown_effect_instance(id)),
            Some(effect) => Ok(effect.instance),
        }
    }

    /// Records that an effect was put between two ports.
    pub fn commit_insert(&mut self, id: &str, source: &PortKey, destination: &PortKey) -> (r: Result<
        EffectInstance,
        BackendError,
    >)
        requires
            old(self).wf(),
        ensures
            final(self).wf(),
            if old(self)@.effects.contains_key(id@) {
                &&& r matches Ok(i) && i@ == final(self)@.effects[id@].instance
                &&& final(self)@ == old(self)@.with_routing(id@, source@, destination@)
            } else {
                &&& r matches Err(e) && e@ == BackendErrorView::Native(
                    "effect disappeared while committing insertion"@,
                )
                &&& final(self)@ == old(self)@
            },
    {
        let ghost before = *self;
        match self.effects.get(id) {
            None => Err(BackendError::native("effect disappeared while committing insertion")),
            Some(found) => {
                proof {
                    lemma_member_fits(self.effects, id@);
                }
                let mut effect = found.duplicate();
                effect.instance.source = Some(source.duplicate());
                effect.instance.destination = Some(destination.duplicate());
                let instance = effect.instance.duplicate();
                self.effects.insert(id.to_owned(), effect);
                proof {
                    assert(self@.effects =~= before@.effects.insert(id@, effect@));
                    lemma_members_fit(before.effects, self.effects, id@, effect);
                }
                Ok(instance)
            },
        }
    }

    /// Checks that an effect can be removed, and says which ports have to be
    /// joined then. An inserted effect whose ends are gone is not removed:
    /// its route could not be restored.
    pub fn check_remove_effect(&self, graph: &Graph, id: &str) -> (r: Result<
        Option<(PortId, PortId)>,
        BackendError,
    >)
        requires
            self.wf(),
            graph.wf(),
        ensures
            match removal(self@, graph@, id@) {
                Err(error) => r matches Err(e) && e@ == error,
                Ok(ends) => r == Ok::<Option<(PortId, PortId)>, BackendError>(ends),
            },
    {
        match self.effects.get(id) {
            None => Err(unknown_effect_instance(id)),
            Some(effect) => match (&effect.instance.source, &effect.instance.destination) {
                (Some(source), Some(destination)) => match effect_restore_endpoints(
                    graph,
                    source,
                    destination,
                ) {
                    Err(error) => Err(error),
                    Ok(ends) => Ok(Some(ends)),
                },
                (None, None) => Ok(None),
                _ => Err(effect_routing_incomplete()),
            },
        }
    }

    /// Switches an effect on or off. The result says what it was before.
    pub fn set_effect_enabled(&mut self, id: &str, enabled: bool) -> (r: Result<bool, BackendError>)
        requires
            old(self).wf(),
        ensures
            final(self).wf(),
            if old(self)@.effects.contains_key(id@) {
                &&& r == Ok::<bool, BackendError>(
                    old(self)@.effects[id@].instance.config.enabled,
                )
                &&& final(self)@ == old(self)@.with_enabled(id@, enabled)
            } else {
                &&& r matches Err(e) && e@ == unknown_instance(id@)
                &&& final(self)@ == old(self)@
            },
    {
        let ghost before = *self;
        match self.effects.get(id) {
            None => Err(unknown_effect_instance(id)),
            Some(found) => {
                proof {
                    lemma_member_fits(self.effects, id@);
                }
                let was: bool = found.instance.config.enabled;
                let mut effect = found.duplicate();
                effect.instance.config.enabled = enabled;
                self.effects.insert(id.to_owned(), effect);
                proof {
                    assert(self@.effects =~= before@.effects.insert(id@, effect@));
                    lemma_members_fit(before.effects, self.effects, id@, effect);
                }
                Ok(was)
            },
        }
    }

    /// Settles a change of a parameter with what the processor answered. Only a
    /// parameter that it took is kept.
    pub fn parameter_answered(
        &mut self,
        id: &str,
        parameter: &str,
        value: u32,
        answer: ParameterAnswer,
    ) -> (r: Result<(), BackendError>)
        requires
            old(self).wf(),
        ensures
            final(self).wf(),
            if !old(self)@.effects.contains_key(id@) {
                &&& r matches Err(e) && e@ == unknown_instance(id@)
                &&& final(self)@ == old(self)@
            } else {
                match answer {
                    ParameterAnswer::Taken => {
                        &&& r is Ok
                        &&& final(self)@ == old(self)@.with_parameter(id@, parameter@, value)
                    },
                    ParameterAnswer::Refused(text) => {
                        &&& r matches Err(e) && e@ == BackendErrorView::Native(text@)
                        &&& final(self)@ == old(self)@
                    },
                    ParameterAnswer::Poisoned => {
                        &&& r matches Err(e) && e@ == BackendErrorView::Native(
                            "effect processor lock was poisoned"@,
                        )
                        &&& final(self)@ == old(self)@
                    },
                }
            },
    {
        if self.effects.get(id).is_none() {
            return Err(unknown_effect_instance(id));
        }
        match answer {
            ParameterAnswer::Taken => self.parameter_set(id, parameter, value),
            ParameterAnswer::Refused(text) => Err(BackendError::Native(text)),
            ParameterAnswer::Poisoned => Err(
                BackendError::native("effect processor lock was poisoned"),
            ),
        }
    }

    /// Records a parameter that the processor took.
    pub fn parameter_set(&mut self, id: &str, parameter: &str, value: u32) -> (r: Result<
        (),
        BackendError,
    >)
        requires
            old(self).wf(),
        ensures
            final(self).wf(),
            if old(self)@.effects.contains_key(id@) {
                &&& r is Ok
                &&& final(self)@ == old(self)@.with_parameter(id@, parameter@, value)
            } else {
                &&& r matches Err(e) && e@ == unknown_instance(id@)
                &&& final(self)@ == old(self)@
            },
    {
        let ghost before = *self;
        match self.effects.get(id) {
            None => Err(unknown_effect_instance(id)),
            Some(found) => {
                proof {
                    lemma_member_fits(self.effects, id@);
                }
                let mut effect = found.duplicate();
                effect.instance.config.parameters.insert(parameter.to_owned(), value);
                self.effects.insert(id.to_owned(), effect);
                proof {
                    assert(self@.effects =~= before@.effects.insert(id@, effect@));
                    lemma_members_fit(before.effects, self.effects, id@, effect);
                }
                Ok(())
            },
        }
    }
}

/// The error of a result.
pub open spec fn error_of<T>(r: Result<T, BackendError>) -> Option<BackendErrorView> {
    match r {
        Ok(_) => None,
        Err(error) => Some(error@),
    }
}

/// Why the creation of an effect failed.
pub open spec fn creation_error(
    s: NativeEffectsView,
    id: Seq<char>,
    looked: Option<BackendErrorView>,
) -> Option<BackendErrorView> {
    match looked {
        Some(error) => Some(error),
        None => if !s.effects.contains_key(id) {
            Some(BackendErrorView::Native("new PipeWire effect disappeared during creation"@))
        } else if s.effects[id].resolved() {
            None
        } else {
            Some(
                BackendErrorView::Native(
                    "PipeWire did not publish the effect node and both DSP ports"@,
                ),
            )
        },
    }
}

/// What removing an effect takes: nothing more for one that stands alone, the
/// two ends for one that was inserted.
pub open spec fn removal(s: NativeEffectsView, g: GraphView, id: Seq<char>) -> Result<
    Option<(PortId, PortId)>,
    BackendErrorView,
> {
    if !s.effects.contains_key(id) {
        Err(unknown_instance(id))
    } else {
        let instance = s.effects[id].instance;
        match (instance.source, instance.destination) {
            (Some(source), Some(destination)) => match ends_of(g, source, destination) {
                Err(error) => Err(error),
                Ok(ends) => Ok(Some(ends)),
            },
            (None, None) => Ok(None),
            _ => Err(incomplete_routing()),
        }
    }
}

proof fn lemma_member_fits(table: TextTable<NativeEffect>, key: Seq<char>)
    requires
        table.wf(),
        table@.contains_key(key),
        forall|i: int| 0 <= i < table.entries@.len() ==> (#[trigger] table.entries@[i]).1.wf(),
    ensures
        table@[key].wf(),
{
    let i = choose|i: int| crate::text_table::key_at(table.entries@, key, i);
    table.lemma_position(key, i);
    assert(table.entries@[i].1.wf());
}

/// What is left of a table of fitting members fits.
proof fn lemma_members_stay(before: TextTable<NativeEffect>, after: TextTable<NativeEffect>)
    requires
        before.wf(),
        after.wf(),
        forall|i: int| 0 <= i < before.entries@.len() ==> (#[trigger] before.entries@[i]).1.wf(),
        forall|k: Seq<char>| #[trigger]
            after@.contains_key(k) ==> before@.contains_key(k) && after@[k] == before@[k],
    ensures
        forall|i: int| 0 <= i < after.entries@.len() ==> (#[trigger] after.entries@[i]).1.wf(),
{
    assert forall|i: int| 0 <= i < after.entries@.len() implies (
    #[trigger] after.entries@[i]).1.wf() by {
        let k = after.entries@[i].0@;
        assert(crate::text_table::key_at(after.entries@, k, i));
        after.lemma_position(k, i);
        assert(after@.contains_key(k));
        lemma_member_fits(before, k);
    }
}

/// A table with one more fitting member fits.
proof fn lemma_members_fit(
    before: TextTable<NativeEffect>,
    after: TextTable<NativeEffect>,
    key: Seq<char>,
    member: NativeEffect,
)
    requires
        before.wf(),
        after.wf(),
        member.wf(),
        forall|i: int| 0 <= i < before.entries@.len() ==> (#[trigger] before.entries@[i]).1.wf(),
        after@ == before@.insert(key, member),
    ensures
        forall|i: int| 0 <= i < after.entries@.len() ==> (#[trigger] after.entries@[i]).1.wf(),
{
    assert forall|i: int| 0 <= i < after.entries@.len() implies (
    #[trigger] after.entries@[i]).1.wf() by {
        let k = after.entries@[i].0@;
        assert(crate::text_table::key_at(after.entries@, k, i));
        after.lemma_position(k, i);
        assert(after@.contains_key(k));
        if k != key {
            assert(before@.contains_key(k));
            lemma_member_fits(before, k);
        }
    }
}

/// What an insertion has to do, in this order: break the direct link, lead
/// the source into the effect, and the effect to the destination.
#[derive(Clone, Copy, Debug, PartialEq, Eq)]
pub struct InsertPlan {
    pub direct: LinkId,
    pub inward: (PortId, PortId),
    pub outward: (PortId, PortId),
}

/// An insertion that is under way.
#[derive(Clone, Copy, Debug, PartialEq, Eq)]
pub struct InsertTask {
    pub plan: InsertPlan,
    pub performed: u8,
}

/// What an insertion asks for.
#[derive(Clone, Copy, Debug, PartialEq, Eq, Structural)]
pub enum InsertStep {
    Disconnect(LinkId),
    Connect(PortId, PortId),
    Done,
}

/// Putting an effect with the ports `input` and `output` into a link.
pub open spec fn insert_task(
    from: PortId,
    to: PortId,
    link: Link,
    input: PortId,
    output: PortId,
) -> InsertTask {
    InsertTask {
        plan: InsertPlan { direct: link.id, inward: (from, input), outward: (output, to) },
        performed: 0,
    }
}

impl InsertTask {
    /// Plans an insertion between the ends of an audio link.
    pub fn begin(
        graph: &Graph,
        source: &PortKey,
        destination: &PortKey,
        input: PortId,
        output: PortId,
    ) -> (r: Result<InsertTask, BackendError>)
        requires
            graph.wf(),
        ensures
            match audio_insertion_point(graph@, source@, destination@) {
                Err(error) => r matches Err(e) && e@ == error,
                Ok((from, to, link)) => r == Ok::<InsertTask, BackendError>(
                    insert_task(from, to, link, input, output),
                ),
            },
    {
        match effect_link_endpoints_locked(graph, source, destination) {
            Err(error) => Err(error),
            Ok((from, to, link)) => Ok(
                InsertTask {
                    plan: InsertPlan {
                        direct: link.id,
                        inward: (from, input),
                        outward: (output, to),
                    },
                    performed: 0,
                },
            ),
        }
    }

    /// What comes next.
    pub open spec fn next(self) -> InsertStep {
        if self.performed == 0 {
            InsertStep::Disconnect(self.plan.direct)
        } else if self.performed == 1 {
            InsertStep::Connect(self.plan.inward.0, self.plan.inward.1)
        } else if self.performed == 2 {
            InsertStep::Connect(self.plan.outward.0, self.plan.outward.1)
        } else {
            InsertStep::Done
        }
    }

    pub fn step(&self) -> (r: InsertStep)
        ensures
            r == self.next(),
    {
        if self.performed == 0 {
            InsertStep::Disconnect(self.plan.direct)
        } else if self.performed == 1 {
            InsertStep::Connect(self.plan.inward.0, self.plan.inward.1)
        } else if self.performed == 2 {
            InsertStep::Connect(self.plan.outward.0, self.plan.outward.1)
        } else {
            InsertStep::Done
        }
    }

    /// Notes that a step was performed.
    pub fn performed_step(&mut self)
        ensures
            final(self).plan == old(self).plan,
            final(self).performed == (if old(self).performed < 3 {
                old(self).performed + 1
            } else {
                old(self).performed as int
            }),
    {
        if self.performed < 3 {
            self.performed = self.performed + 1;
        }
    }
}

/// What is reported of an insertion that failed: the failure, with each
/// failure to roll it back.
pub open spec fn rollback_report(
    error: BackendErrorView,
    restore: Option<BackendErrorView>,
    cleanup: Option<BackendErrorView>,
) -> BackendErrorView {
    let first = backend_error_text(error) + "; additionally, "@;
    match (restore, cleanup) {
        (None, None) => error,
        (Some(r), None) => BackendErrorView::Native(
            first + ("failed to restore the original link: "@ + backend_error_text(r)),
        ),
        (None, Some(c)) => BackendErrorView::Native(
            first + ("failed to clean up the effect node: "@ + backend_error_text(c)),
        ),
        (Some(r), Some(c)) => BackendErrorView::Native(
            first + ("failed to restore the original link: "@ + backend_error_text(r) + "; "@ + (
            "failed to clean up the effect node: "@ + backend_error_text(c))),
        ),
    }
}

pub fn rollback_error(
    error: BackendError,
    restore: Result<(), BackendError>,
    cleanup: Result<(), BackendError>,
) -> (r: BackendError)
    ensures
        r@ == rollback_report(error@, error_of(restore), error_of(cleanup)),
{
    let restored = match restore {
        Ok(()) => None,
        Err(failure) => Some(
            concat2("failed to restore the original link: ", failure.to_text().as_str()),
        ),
    };
    let cleaned = match cleanup {
        Ok(()) => None,
        Err(failure) => Some(
            concat2("failed to clean up the effect node: ", failure.to_text().as_str()),
        ),
    };
    let joined = match (restored, cleaned) {
        (None, None) => {
            return error;
        },
        (Some(text), None) => text,
        (None, Some(text)) => text,
        (Some(first), Some(second)) => concat3(first.as_str(), "; ", second.as_str()),
    };
    BackendError::Native(concat3(error.to_text().as_str(), "; additionally, ", joined.as_str()))
}

/// What has to be done about the preparation of an effect.
#[derive(Debug, PartialEq, Eq)]
pub enum PreparationStep {
    /// There is nothing to do but to report this.
    Report(EffectEvent),
    /// The effect has to be put in.
    Activate { ticket: u64, request: EffectCreateRequest, prepared: PreparedEffect },
    /// There is nothing to do and nothing to report.
    Forgotten,
}

/// What is reported of a prepared effect that was to be put in.
pub fn activated(ticket: u64, outcome: Result<EffectInstance, BackendError>) -> (r: EffectEvent)
    ensures
        r@ == (match outcome {
            Ok(instance) => EffectEventView::Ready { ticket, instance: instance@ },
            Err(error) => EffectEventView::Failed {
                ticket,
                error: backend_error_text(activation_failure(ticket, error@)),
            },
        }),
{
    match outcome {
        Ok(instance) => EffectEvent::Ready { ticket, instance },
        Err(error) => EffectEvent::Failed {
            ticket,
            error: activation_error(ticket, &error).to_text(),
        },
    }
}

/// The error for a prepared effect that could not be put in.
pub open spec fn activation_failure(ticket: u64, error: BackendErrorView) -> BackendErrorView {
    BackendErrorView::Native(
        "effect ticket "@ + decimal(ticket as nat) + " could not be activated: "@
            + backend_error_text(error),
    )
}

pub fn activation_error(ticket: u64, error: &BackendError) -> (r: BackendError)
    ensures
        r@ == activation_failure(ticket, error@),
{
    BackendError::Native(
        concat2(
            concat3(
                "effect ticket ",
                decimal_text(ticket).as_str(),
                " could not be activated: ",
            ).as_str(),
            error.to_text().as_str(),
        ),
    )
}

/// What is reported of an effect whose route could not be restored.
pub fn unrestored_error(id: &str, error: &BackendError) -> (r: BackendError)
    ensures
        r@ == BackendErrorView::Native(
            "effect "@ + id@
                + " was removed but the original direct connection could not be restored: "@
                + backend_error_text(error@),
        ),
{
    BackendError::Native(
        concat2(
            concat3(
                "effect ",
                id,
                " was removed but the original direct connection could not be restored: ",
            ).as_str(),
            error.to_text().as_str(),
        ),
    )
}

/// Settles a request to cancel a preparation.
pub fn settle_cancel(ticket: u64, cancelled: bool) -> (r: Result<(), BackendError>)
    ensures
        if cancelled {
            r is Ok
        } else {
            r matches Err(e) && e@ == BackendErrorView::Native(
                "unknown or completed effect ticket "@ + decimal(ticket as nat),
            )
        },
{
    if cancelled {
        Ok(())
    } else {
        Err(
            BackendError::Native(
                concat2("unknown or completed effect ticket ", decimal_text(ticket).as_str()),
            ),
        )
    }
}

/// The first effect at a node, in the order of their names.
pub open spec fn standing_at(entries: Seq<(String, NativeEffect)>, node: NodeId, i: int) -> bool {
    &&& 0 <= i < entries.len()
    &&& entries[i].1@.instance.node_id == node
    &&& forall|j: int| 0 <= j < i ==> (#[trigger] entries[j]).1@.instance.node_id != node
}

impl NativeEffects {
    /// Moves a node. An effect that stands at the node is told.
    pub fn set_node_position(&mut self, graph: &mut Graph, node: NodeId, position: Position) -> (r:
        Result<(), BackendError>)
        requires
            old(self).wf(),
            old(graph).wf(),
        ensures
            final(self).wf(),
            final(graph).wf(),
            if old(graph)@.has_node(node) {
                &&& r is Ok
                &&& final(graph)@ == old(graph)@.with_position(node, position)
                &&& final(self)@.positions == old(self)@.positions.insert(node.0, position)
                &&& final(self)@.pending == old(self)@.pending
                &&& final(self).effects.entries@.len() == old(self).effects.entries@.len()
                &&& forall|i: int|
                    0 <= i < old(self).effects.entries@.len() ==> {
                        let before = old(self).effects.entries@[i];
                        &&& (#[trigger] final(self).effects.entries@[i]).0 == before.0
                        &&& final(self).effects.entries@[i].1@ == (if standing_at(
                            old(self).effects.entries@,
                            node,
                            i,
                        ) {
                            NativeEffectView { position, ..before.1@ }
                        } else {
                            before.1@
                        })
                    }
            } else {
                &&& r matches Err(e) && e@ == BackendErrorView::Graph(GraphError::MissingNode(node))
                &&& final(graph)@ == old(graph)@
                &&& final(self)@ == old(self)@
            },
    {
        match graph.set_position(node, position) {
            Err(error) => {
                return Err(BackendError::Graph(error));
            },
            Ok(()) => {},
        }
        self.positions.insert(node.0, position);
        self.place_effect(node, position);
        Ok(())
    }

    fn place_effect(&mut self, node: NodeId, position: Position)
        requires
            old(self).wf(),
        ensures
            final(self).wf(),
            final(self)@.positions == old(self)@.positions,
            final(self)@.pending == old(self)@.pending,
            final(self).effects.entries@.len() == old(self).effects.entries@.len(),
            forall|i: int|
                0 <= i < old(self).effects.entries@.len() ==> {
                    let before = old(self).effects.entries@[i];
                    &&& (#[trigger] final(self).effects.entries@[i]).0 == before.0
                    &&& final(self).effects.entries@[i].1@ == (if standing_at(
                        old(self).effects.entries@,
                        node,
                        i,
                    ) {
                        NativeEffectView { position, ..before.1@ }
                    } else {
                        before.1@
                    })
                },
    {
        let ghost start = *self;
        let ghost entries = self.effects.entries@;
        let mut i: usize = 0;
        while i < self.effects.entries.len()
            invariant
                i <= self.effects.entries.len(),
                *self == start,
                self.wf(),
                entries == start.effects.entries@,
                start == *old(self),
                forall|j: int| 0 <= j < i ==> (#[trigger] entries[j]).1@.instance.node_id != node,
            decreases self.effects.entries.len() - i,
        {
            if self.effects.entries[i].1.instance.node_id == node {
                assert(standing_at(entries, node, i as int));
                let key = self.effects.entries[i].0.clone();
                let mut effect = self.effects.entries[i].1.duplicate();
                effect.position = position;
                self.effects.entries.set(i, (key, effect));
                assert(self.effects.wf()) by {
                    assert forall|a: int, b: int|
                        0 <= a < b
                            < self.effects.entries@.len() implies crate::text_table::text_before(
                        #[trigger] self.effects.entries@[a].0@,
                        #[trigger] self.effects.entries@[b].0@,
                    ) by {
                        assert(entries[a].0 == self.effects.entries@[a].0);
                        assert(entries[b].0 == self.effects.entries@[b].0);
                    }
                }
                return;
            }
            i = i + 1;
        }
    }
}

/// A filter that the server gave new numbers is drawn where it was.
pub proof fn law_renumbered_effects_stay_in_place(
    effect: NativeEffectView,
    positions: Map<u64, Position>,
    place: Resolution,
)
    ensures
        ({
            let after = effect_after(effect, positions, Some(place));
            let kept = positions_after(effect, positions, Some(place));
            &&& after.position == kept_position(effect, positions)
            &&& kept.contains_key(place.node.0)
            &&& kept[place.node.0] == after.position
            &&& effect.instance.node_id != place.node ==> !kept.contains_key(
                effect.instance.node_id.0,
            )
        }),
{
}

/// Looking twice finds nothing new.
pub proof fn law_looking_again_changes_nothing(
    effect: NativeEffectView,
    positions: Map<u64, Position>,
    found: Option<Resolution>,
)
    ensures
        ({
            let once = effect_after(effect, positions, found);
            let kept = positions_after(effect, positions, found);
            &&& effect_after(once, kept, found) == once
            &&& positions_after(once, kept, found) == kept
        }),
{
    if let Some(place) = found {
        let once = effect_after(effect, positions, found);
        let kept = positions_after(effect, positions, found);
        assert(effect_after(once, kept, found) =~= once);
        assert(positions_after(once, kept, found) =~= kept);
    }
}

/// Nothing suggests a width to an effect that stands alone. To one that goes
/// into a link its source does: two channels where the node of the source
/// gives audio at two different ports, one where it gives audio at one.
pub proof fn law_suggested_width(
    g: GraphView,
    source: PortKeyView,
    destination: PortKeyView,
    position: Position,
    a: PortId,
    b: PortId,
)
    requires
        g.wf(),
    ensures
        suggested_channels(g, EffectTargetView::Standalone { position }) == Ok::<
            Option<u16>,
            BackendErrorView,
        >(None),
        match suggested_channels(g, EffectTargetView::Insert { source, destination, position }) {
            Ok(width) => {
                &&& audio_insertion_point(g, source, destination) matches Ok((from, _, _))
                &&& {
                    let node = g.port(from).node_id;
                    &&& source.node_type != crate::model::NodeType::PipeWire && source.node_type
                        != crate::model::NodeType::Effect ==> width is None
                    &&& source.node_type == crate::model::NodeType::PipeWire || source.node_type
                        == crate::model::NodeType::Effect ==> {
                        &&& crate::effect_model::in_the_middle(g.port(from).channel) ==> width
                            == Some(1u16)
                        &&& !crate::effect_model::in_the_middle(g.port(from).channel) && a != b
                            && crate::effect_model::audio_source_of(g, node, a)
                            && crate::effect_model::audio_source_of(g, node, b) ==> width
                            == Some(2u16)
                        &&& !crate::effect_model::in_the_middle(g.port(from).channel) && (forall|
                            q: PortId,
                        | #[trigger]
                            crate::effect_model::audio_source_of(g, node, q) ==> q == a) ==> width
                            == Some(1u16)
                    }
                }
            },
            Err(error) => audio_insertion_point(g, source, destination) == Err::<
                (PortId, PortId, Link),
                BackendErrorView,
            >(error),
        },
{
    crate::effect_model::law_width_of_a_source(g, source, a, b);
    crate::effect_model::law_insertion_points(g, source, destination);
}

/// Putting an effect into a link takes the link away, leads its source into
/// the effect and the effect on to its destination, in this order, and is then
/// done.
pub proof fn law_insertion_steps(
    from: PortId,
    to: PortId,
    link: Link,
    input: PortId,
    output: PortId,
)
    ensures
        ({
            let task = insert_task(from, to, link, input, output);
            &&& task.next() == InsertStep::Disconnect(link.id)
            &&& (InsertTask { performed: 1, ..task }).next() == InsertStep::Connect(from, input)
            &&& (InsertTask { performed: 2, ..task }).next() == InsertStep::Connect(output, to)
            &&& (InsertTask { performed: 3, ..task }).next() == InsertStep::Done
        }),
{
}

/// Removing an effect restores the connection between the ports that bear the
/// two keys under which it was put in; one that stands alone restores none.
/// An effect that is not known cannot be removed.
pub proof fn law_removals(s: NativeEffectsView, g: GraphView, id: Seq<char>)
    requires
        g.wf(),
    ensures
        match removal(s, g, id) {
            Ok(Some((from, to))) => {
                &&& s.effects.contains_key(id)
                &&& s.effects[id].instance.source matches Some(source)
                &&& s.effects[id].instance.destination matches Some(destination)
                &&& crate::graph::bears_key(g, from, source)
                &&& crate::graph::bears_key(g, to, destination)
            },
            Ok(None) => s.effects.contains_key(id) && s.effects[id].instance.source is None
                && s.effects[id].instance.destination is None,
            Err(_) => {
                ||| !s.effects.contains_key(id)
                ||| s.effects[id].instance.source is None != s.effects[id].instance.destination is None
                ||| s.effects[id].instance.source is Some && forall|p: PortId|
                    !#[trigger] crate::graph::bears_key(
                        g,
                        p,
                        s.effects[id].instance.source->Some_0,
                    )
                ||| s.effects[id].instance.destination is Some && forall|p: PortId|
                    !#[trigger] crate::graph::bears_key(
                        g,
                        p,
                        s.effects[id].instance.destination->Some_0,
                    )
            },
        },
{
    if s.effects.contains_key(id) {
        let instance = s.effects[id].instance;
        if let (Some(source), Some(destination)) = (instance.source, instance.destination) {
            crate::effect_model::law_ends_of_an_effect(g, source, destination);
        }
    }
}

/// A filter is found under the number that the server gave it where that
/// number still bears its name, else as the first node of its name. Its ports
/// are the first ones of that node with the names of the left or the only
/// channel, an input and an output.
pub proof fn law_found_filters(state: RegistryView, name: Seq<char>, runtime: Option<NodeId>)
    ensures
        match resolution(state, name, runtime) {
            Some(place) => {
                &&& {
                    ||| runtime == Some(place.node) && state.nodes.contains_key(
                        native_part(place.node.0) as u64,
                    ) && state.nodes[native_part(place.node.0) as u64].name == name
                    ||| exists|k: u64| #[trigger]
                        state.nodes.contains_key(k) && state.nodes[k].name == name && place.node
                            == NodeId(gid(k)) && forall|j: u64| #[trigger]
                            state.nodes.contains_key(j) && state.nodes[j].name == name ==> k <= j
                }
                &&& exists|k: u64| #[trigger]
                    state.ports.contains_key(k) && place.input == PortId(gid(k))
                        && state.ports[k].node_id == native_part(place.node.0)
                        && state.ports[k].direction == Direction::Sink && (state.ports[k].name
                        == "input_FL"@ || state.ports[k].name == "input_MONO"@)
                &&& exists|k: u64| #[trigger]
                    state.ports.contains_key(k) && place.output == PortId(gid(k))
                        && state.ports[k].node_id == native_part(place.node.0)
                        && state.ports[k].direction == Direction::Source && (state.ports[k].name
                        == "output_FL"@ || state.ports[k].name == "output_MONO"@)
            },
            None => true,
        },
        runtime is None && (forall|k: u64| #[trigger]
            state.nodes.contains_key(k) ==> state.nodes[k].name != name) ==> resolution(
            state,
            name,
            runtime,
        ) is None,
{
    crate::table::law_first_of(state.nodes, has_name(name));
    if let Some(k) = first_of(state.nodes, has_name(name)) {
        assert forall|j: u64| #[trigger]
            state.nodes.contains_key(j) && state.nodes[j].name == name implies k <= j by {
            assert(has_name(name)(state.nodes[j]));
        }
    }
    if let Some(node) = filter_node(state, name, runtime) {
        let p = filter_port(node, Direction::Sink, "input_FL"@, "input_MONO"@);
        let q = filter_port(node, Direction::Source, "output_FL"@, "output_MONO"@);
        crate::table::law_first_of(state.ports, p);
        crate::table::law_first_of(state.ports, q);
        if let Some(k) = first_of(state.ports, p) {
            assert(state.ports.contains_key(k));
        }
        if let Some(k) = first_of(state.ports, q) {
            assert(state.ports.contains_key(k));
        }
        if let Some(k) = first_of(state.nodes, has_name(name)) {
            assert(state.nodes.contains_key(k));
        }
    }
}

/// An effect that was found again has the numbers that it was found under and
/// stays as it was asked for; one that was not found stays as it is.
pub proof fn law_found_effects(
    effect: NativeEffectView,
    positions: Map<u64, Position>,
    place: Resolution,
    k: u64,
)
    ensures
        ({
            let after = effect_after(effect, positions, Some(place));
            let kept = positions_after(effect, positions, Some(place));
            &&& after.instance.node_id == place.node
            &&& after.instance.input_port == place.input
            &&& after.instance.output_port == place.output
            &&& after.instance.config == effect.instance.config
            &&& after.instance.source == effect.instance.source
            &&& after.instance.destination == effect.instance.destination
            &&& after.node_name == effect.node_name
            &&& after.physical_channels == effect.physical_channels
            &&& positions.contains_key(effect.instance.node_id.0) ==> after.position
                == positions[effect.instance.node_id.0]
            &&& !positions.contains_key(effect.instance.node_id.0) ==> after.position
                == effect.position
            &&& k != place.node.0 && k != effect.instance.node_id.0 ==> (kept.contains_key(k)
                <==> positions.contains_key(k)) && (positions.contains_key(k) ==> kept[k]
                == positions[k])
        }),
        effect_after(effect, positions, None) == effect,
        positions_after(effect, positions, None) == positions,
{
}

/// Routing, switching and setting an effect, and taking one out, change that
/// effect and no other.
pub proof fn law_effects_change_alone(
    s: NativeEffectsView,
    id: Seq<char>,
    other: Seq<char>,
    source: PortKeyView,
    destination: PortKeyView,
    enabled: bool,
    parameter: Seq<char>,
    value: u32,
)
    requires
        s.effects.contains_key(id),
    ensures
        ({
            let before = s.effects[id];
            let routed = s.with_routing(id, source, destination);
            let switched = s.with_enabled(id, enabled);
            let set = s.with_parameter(id, parameter, value);
            let gone = s.without(id);
            &&& routed.effects.contains_key(id)
            &&& routed.effects[id].instance.source == Some(source)
            &&& routed.effects[id].instance.destination == Some(destination)
            &&& routed.effects[id].instance.config == before.instance.config
            &&& routed.effects[id].instance.node_id == before.instance.node_id
            &&& switched.effects[id].instance.config.enabled == enabled
            &&& switched.effects[id].instance.config.parameters
                == before.instance.config.parameters
            &&& switched.effects[id].instance.source == before.instance.source
            &&& set.effects[id].instance.config.parameters.contains_key(parameter)
            &&& set.effects[id].instance.config.parameters[parameter] == value
            &&& set.effects[id].instance.config.enabled == before.instance.config.enabled
            &&& set.effects[id].instance.source == before.instance.source
            &&& forall|p: Seq<char>|
                p != parameter ==> (
                #[trigger] set.effects[id].instance.config.parameters.contains_key(p)
                    <==> before.instance.config.parameters.contains_key(p))
            &&& !gone.effects.contains_key(id)
            &&& !gone.positions.contains_key(before.instance.node_id.0)
            &&& other != id && s.effects.contains_key(other) ==> {
                &&& routed.effects.contains_key(other) && routed.effects[other] == s.effects[other]
                &&& switched.effects.contains_key(other) && switched.effects[other]
                    == s.effects[other]
                &&& set.effects.contains_key(other) && set.effects[other] == s.effects[other]
                &&& gone.effects.contains_key(other) && gone.effects[other] == s.effects[other]
            }
            &&& routed.positions == s.positions && switched.positions == s.positions
                && set.positions == s.positions
            &&& routed.pending == s.pending && switched.pending == s.pending && set.pending
                == s.pending && gone.pending == s.pending
        }),
{
}

/// An effect is refused exactly where its name or its kind is blank, or where
/// its name is taken by one that stands or is being prepared.
pub proof fn law_refused_effects(s: NativeEffectsView, request: EffectCreateRequestView)
    ensures
        s.refusal(request) is None <==> {
            &&& !crate::text::all_white(request.config.instance_id)
            &&& !crate::text::all_white(request.config.effect_id)
            &&& !s.effects.contains_key(request.config.instance_id)
            &&& forall|k: u64| #[trigger]
                s.pending.contains_key(k) ==> s.pending[k].config.instance_id
                    != request.config.instance_id
        },
{
    crate::text::law_trimmed(request.config.instance_id);
    crate::text::law_trimmed(request.config.effect_id);
}

/// Creating an effect succeeds exactly where looking for it did, it is still
/// there, and the server has numbered its node and both of its ports.
pub proof fn law_created_effects(
    s: NativeEffectsView,
    id: Seq<char>,
    looked: Option<BackendErrorView>,
)
    ensures
        creation_error(s, id, looked) is None <==> {
            &&& looked is None
            &&& s.effects.contains_key(id)
            &&& s.effects[id].instance.node_id.0 != UNRESOLVED_ID
            &&& s.effects[id].instance.input_port.0 != UNRESOLVED_ID
            &&& s.effects[id].instance.output_port.0 != UNRESOLVED_ID
        },
        looked is Some ==> creation_error(s, id, looked) == looked,
{
}

/// An effect works on the channels that a link feeds, up to those it has; one
/// that is not in the graph works on none.
pub proof fn law_effect_masks(g: GraphView, effect: NativeEffectView)
    requires
        g.wf(),
    ensures
        !g.has_node(effect.instance.node_id) ==> effect_mask(g, effect) == 0,
        effect.resolved() && g.has_node(effect.instance.node_id) ==> {
            let fed = |c: nat|
                c < effect.physical_channels && exists|k: u64| #[trigger]
                    g.links.contains_key(k) && g.port(g.links[k].input_port).node_id
                        == effect.instance.node_id && g.port(g.links[k].input_port).port_type
                        == crate::model::PortType::Audio && crate::effect_model::index_of_label(
                        crate::effect_model::label_of(g.port(g.links[k].input_port)),
                    ) == Some(c);
            effect_mask(g, effect) == (if fed(0) && fed(1) {
                3int
            } else if fed(1) {
                2
            } else if fed(0) {
                1
            } else {
                0
            })
        },
{
    if g.has_node(effect.instance.node_id) {
        crate::effect_model::law_active_channels(
            g,
            effect.instance.node_id,
            0,
            effect.physical_channels,
        );
        crate::effect_model::law_active_channels(
            g,
            effect.instance.node_id,
            1,
            effect.physical_channels,
        );
    }
}

/// A filter stands at the node that it names itself, where the server knows
/// that node under the filter's name. Without such a node it stands at the
/// first one of its name. It is found once it has an input and an output.
pub proof fn law_where_filters_stand(
    state: RegistryView,
    name: Seq<char>,
    runtime: Option<NodeId>,
    node: NodeId,
    k: u64,
    input: u64,
    output: u64,
)
    requires
        state.ports.contains_key(input),
        state.ports[input].node_id == native_part(node.0),
        state.ports[input].direction == Direction::Sink,
        state.ports[input].name == "input_FL"@ || state.ports[input].name == "input_MONO"@,
        state.ports.contains_key(output),
        state.ports[output].node_id == native_part(node.0),
        state.ports[output].direction == Direction::Source,
        state.ports[output].name == "output_FL"@ || state.ports[output].name == "output_MONO"@,
    ensures
        runtime == Some(node) && state.nodes.contains_key(native_part(node.0) as u64)
            && state.nodes[native_part(node.0) as u64].name == name ==> (resolution(
            state,
            name,
            runtime,
        ) matches Some(place) && place.node == node),
        runtime is None && node == NodeId(gid(k)) && state.nodes.contains_key(k)
            && state.nodes[k].name == name && (forall|j: u64| #[trigger]
            state.nodes.contains_key(j) && state.nodes[j].name == name ==> k <= j) ==> (resolution(
            state,
            name,
            runtime,
        ) matches Some(place) && place.node == node),
{
    crate::table::law_first_of(state.nodes, has_name(name));
    let p = filter_port(node, Direction::Sink, "input_FL"@, "input_MONO"@);
    let q = filter_port(node, Direction::Source, "output_FL"@, "output_MONO"@);
    crate::table::law_first_of(state.ports, p);
    crate::table::law_first_of(state.ports, q);
    assert(p(state.ports[input]));
    assert(q(state.ports[output]));
    if state.nodes.contains_key(k) && state.nodes[k].name == name {
        assert(has_name(name)(state.nodes[k]));
    }
}

/// At most one effect counts as standing at a node: the first one there.
pub proof fn law_one_effect_stands(
    entries: Seq<(String, NativeEffect)>,
    node: NodeId,
    i: int,
    j: int,
)
    requires
        0 <= i < entries.len(),
        0 <= j < entries.len(),
    ensures
        standing_at(entries, node, i) ==> entries[i].1@.instance.node_id == node,
        standing_at(entries, node, i) && entries[j].1@.instance.node_id == node ==> i <= j,
        entries[0].1@.instance.node_id == node ==> standing_at(entries, node, 0),
{
}

} // verus!
