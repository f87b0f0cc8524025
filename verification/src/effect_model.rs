//! Effects in the graph: what is asked for, what stands, and which ports and
//! channels they use.
use crate::graph::{Graph, GraphView};
use crate::ids::{LinkId, NodeId, PortId};
use crate::lists::{kept, lemma_kept_step};
use crate::model::{
    clone_opt, opt_text, BackendError, BackendErrorView, Direction, Link, NodeType, Port, PortKey,
    PortKeyView, PortType, PortView,
};
use crate::relay_playback::{find_joining, joining};
use crate::text::{
    after_last, behind_last, chars_of, concat2, concat3, eq_ignoring_case, same_ignoring_case, trim,
    trimmed,
};
use crate::text_table::TextTable;
use vstd::prelude::*;

verus! {

/// How many channels an effect should have.
#[derive(Clone, Copy, Debug, PartialEq, Eq, Structural)]
pub enum ChannelPolicy {
    Auto,
    Fixed(u16),
}

/// What an effect was asked to be. Parameters are bit patterns of 32-bit
/// floating point numbers.
#[derive(Debug, PartialEq, Eq)]
pub struct EffectConfig {
    pub instance_id: String,
    pub effect_id: String,
    pub module: Option<String>,
    pub enabled: bool,
    pub parameters: TextTable<u32>,
    pub channel_policy: ChannelPolicy,
}

/// The contents of an [`EffectConfig`].
#[verifier::ext_equal]
pub struct EffectConfigView {
    pub instance_id: Seq<char>,
    pub effect_id: Seq<char>,
    pub module: Option<Seq<char>>,
    pub enabled: bool,
    pub parameters: Map<Seq<char>, u32>,
    pub channel_policy: ChannelPolicy,
}

impl View for EffectConfig {
    type V = EffectConfigView;

    open spec fn view(&self) -> EffectConfigView {
        EffectConfigView {
            instance_id: self.instance_id@,
            effect_id: self.effect_id@,
            module: opt_text(self.module),
            enabled: self.enabled,
            parameters: self.parameters@,
            channel_policy: self.channel_policy,
        }
    }
}

impl EffectConfig {
    pub open spec fn wf(&self) -> bool {
        self.parameters.wf()
    }

    /// A copy with the same contents.
    pub fn duplicate(&self) -> (r: EffectConfig)
        requires
            self.wf(),
        ensures
            r.wf(),
            r@ == self@,
    {
        EffectConfig {
            instance_id: self.instance_id.clone(),
            effect_id: self.effect_id.clone(),
            module: clone_opt(&self.module),
            enabled: self.enabled,
            parameters: copy_parameters(&self.parameters),
            channel_policy: self.channel_policy,
        }
    }
}

/// A copy of a table of parameters.
pub fn copy_parameters(table: &TextTable<u32>) -> (r: TextTable<u32>)
    requires
        table.wf(),
    ensures
        r.wf(),
        r@ == table@,
{
    let mut entries: Vec<(String, u32)> = Vec::new();
    let mut i: usize = 0;
    while i < table.entries.len()
        invariant
            i <= table.entries.len(),
            entries@ =~= table.entries@.take(i as int),
        decreases table.entries.len() - i,
    {
        let key = table.entries[i].0.clone();
        let value: u32 = table.entries[i].1;
        entries.push((key, value));
        assert(entries@ =~= table.entries@.take(i + 1));
        i = i + 1;
    }
    let r = TextTable { entries };
    assert(r.entries@ =~= table.entries@);
    assert(r@ =~= table@);
    r
}

/// An effect in the graph. The keys name the ports between which it was
/// inserted, where it was.
#[derive(Debug, PartialEq, Eq)]
pub struct EffectInstance {
    pub config: EffectConfig,
    pub node_id: NodeId,
    pub input_port: PortId,
    pub output_port: PortId,
    pub source: Option<PortKey>,
    pub destination: Option<PortKey>,
    pub error: Option<String>,
}

/// The contents of an [`EffectInstance`].
#[verifier::ext_equal]
pub struct EffectInstanceView {
    pub config: EffectConfigView,
    pub node_id: NodeId,
    pub input_port: PortId,
    pub output_port: PortId,
    pub source: Option<PortKeyView>,
    pub destination: Option<PortKeyView>,
    pub error: Option<Seq<char>>,
}

/// The contents of an optional key.
pub open spec fn opt_key(key: Option<PortKey>) -> Option<PortKeyView> {
    match key {
        Some(key) => Some(key@),
        None => None,
    }
}

pub fn copy_key(key: &Option<PortKey>) -> (r: Option<PortKey>)
    ensures
        r == *key,
{
    match key {
        Some(key) => Some(key.duplicate()),
        None => None,
    }
}

impl View for EffectInstance {
    type V = EffectInstanceView;

    open spec fn view(&self) -> EffectInstanceView {
        EffectInstanceView {
            config: self.config@,
            node_id: self.node_id,
            input_port: self.input_port,
            output_port: self.output_port,
            source: opt_key(self.source),
            destination: opt_key(self.destination),
            error: opt_text(self.error),
        }
    }
}

impl EffectInstance {
    /// A copy with the same contents.
    pub fn duplicate(&self) -> (r: EffectInstance)
        requires
            self.config.wf(),
        ensures
            r.config.wf(),
            r@ == self@,
    {
        EffectInstance {
            config: self.config.duplicate(),
            node_id: self.node_id,
            input_port: self.input_port,
            output_port: self.output_port,
            source: copy_key(&self.source),
            destination: copy_key(&self.destination),
            error: clone_opt(&self.error),
        }
    }
}

/// An effect that was made ready to be put into the graph.
#[derive(Debug, PartialEq, Eq)]
pub struct PreparedEffect {
    pub effect_id: String,
    pub name: String,
}

/// The contents of a [`PreparedEffect`].
pub struct PreparedEffectView {
    pub effect_id: Seq<char>,
    pub name: Seq<char>,
}

impl View for PreparedEffect {
    type V = PreparedEffectView;

    open spec fn view(&self) -> PreparedEffectView {
        PreparedEffectView { effect_id: self.effect_id@, name: self.name@ }
    }
}

/// The error for an instance that exists.
pub open spec fn already_exists(id: Seq<char>) -> BackendErrorView {
    BackendErrorView::Native("effect instance "@ + id + " already exists"@)
}

pub fn effect_already_exists(id: &str) -> (r: BackendError)
    ensures
        r@ == already_exists(id@),
{
    BackendError::Native(concat3("effect instance ", id, " already exists"))
}

/// The error for an instance that does not exist.
pub open spec fn unknown_instance(id: Seq<char>) -> BackendErrorView {
    BackendErrorView::Native("unknown effect instance "@ + id)
}

pub fn unknown_effect_instance(id: &str) -> (r: BackendError)
    ensures
        r@ == unknown_instance(id@),
{
    BackendError::Native(concat2("unknown effect instance ", id))
}

/// The error for an effect of which only one end is known.
pub open spec fn incomplete_routing() -> BackendErrorView {
    BackendErrorView::Native("effect routing is incomplete"@)
}

pub fn effect_routing_incomplete() -> (r: BackendError)
    ensures
        r@ == incomplete_routing(),
{
    BackendError::native("effect routing is incomplete")
}

/// The ports that two keys name, or which of them is not there.
pub open spec fn ends_of(g: GraphView, source: PortKeyView, destination: PortKeyView) -> Result<
    (PortId, PortId),
    BackendErrorView,
> {
    match (g.resolved(source), g.resolved(destination)) {
        (None, _) => Err(BackendErrorView::Native("effect source endpoint is unavailable"@)),
        (Some(_), None) => Err(
            BackendErrorView::Native("effect destination endpoint is unavailable"@),
        ),
        (Some(output), Some(input)) => Ok((output, input)),
    }
}

/// Finds the ports between which a direct connection is restored.
pub fn effect_restore_endpoints(graph: &Graph, source: &PortKey, destination: &PortKey) -> (r:
    Result<(PortId, PortId), BackendError>)
    requires
        graph.wf(),
    ensures
        match ends_of(graph@, source@, destination@) {
            Ok(ends) => r == Ok::<(PortId, PortId), BackendError>(ends),
            Err(error) => r matches Err(e) && e@ == error,
        },
{
    match graph.resolve_port_key(source) {
        None => Err(BackendError::native("effect source endpoint is unavailable")),
        Some(output) => match graph.resolve_port_key(destination) {
            None => Err(BackendError::native("effect destination endpoint is unavailable")),
            Some(input) => Ok((output, input)),
        },
    }
}

/// The ports and the link between them that an effect is put into.
pub open spec fn insertion_point(
    g: GraphView,
    source: PortKeyView,
    destination: PortKeyView,
) -> Result<(PortId, PortId, Link), BackendErrorView> {
    match ends_of(g, source, destination) {
        Err(error) => Err(error),
        Ok((output, input)) => match joining(g, output, input) {
            None => Err(BackendErrorView::Native("effect endpoints are not directly connected"@)),
            Some(k) => Ok((output, input, g.links[k])),
        },
    }
}

/// Finds the ports and the link between them that an effect is put into.
pub fn effect_link_endpoints(graph: &Graph, source: &PortKey, destination: &PortKey) -> (r: Result<
    (PortId, PortId, Link),
    BackendError,
>)
    requires
        graph.wf(),
    ensures
        match insertion_point(graph@, source@, destination@) {
            Ok(point) => r == Ok::<(PortId, PortId, Link), BackendError>(point),
            Err(error) => r matches Err(e) && e@ == error,
        },
        r matches Ok(point) ==> graph@.has_link(point.2.id) && graph@.link(point.2.id) == point.2
            && point.2.output_port == point.0 && point.2.input_port == point.1,
{
    let (output, input) = match effect_restore_endpoints(graph, source, destination) {
        Ok(ends) => ends,
        Err(error) => {
            return Err(error);
        },
    };
    match find_joining(graph, output, input) {
        None => Err(BackendError::native("effect endpoints are not directly connected")),
        Some(k) => match graph.link(LinkId(k)) {
            None => {
                proof {
                    crate::relay_playback::lemma_joining_holds(graph@, output, input);
                }
                Err(BackendError::native("effect endpoints are not directly connected"))
            },
            Some(link) => {
                proof {
                    crate::relay_playback::lemma_joining_holds(graph@, output, input);
                    assert(graph@.links.contains_key(k));
                }
                Ok((output, input, link))
            },
        },
    }
}

/// The insertion point on a backend whose effects carry audio only.
pub open spec fn audio_insertion_point(
    g: GraphView,
    source: PortKeyView,
    destination: PortKeyView,
) -> Result<(PortId, PortId, Link), BackendErrorView> {
    match insertion_point(g, source, destination) {
        Err(error) => Err(error),
        Ok(point) => if g.port(point.0).port_type != PortType::Audio || g.port(point.1).port_type
            != PortType::Audio {
            Err(
                BackendErrorView::Native("PipeWire effects can only be inserted into audio links"@),
            )
        } else {
            Ok(point)
        },
    }
}

/// Finds the insertion point on a backend whose effects carry audio only.
pub fn effect_link_endpoints_locked(graph: &Graph, source: &PortKey, destination: &PortKey) -> (r:
    Result<(PortId, PortId, Link), BackendError>)
    requires
        graph.wf(),
    ensures
        match audio_insertion_point(graph@, source@, destination@) {
            Ok(point) => r == Ok::<(PortId, PortId, Link), BackendError>(point),
            Err(error) => r matches Err(e) && e@ == error,
        },
{
    match effect_link_endpoints(graph, source, destination) {
        Err(error) => Err(error),
        Ok(point) => {
            proof {
                assert(graph@.links.contains_key(point.2.id.0));
                assert(graph@.link_fits(point.2));
            }
            let audio = match (graph.port(point.0), graph.port(point.1)) {
                (Some(output), Some(input)) => output.port_type == PortType::Audio
                    && input.port_type == PortType::Audio,
                _ => false,
            };
            if audio {
                Ok(point)
            } else {
                Err(BackendError::native("PipeWire effects can only be inserted into audio links"))
            }
        },
    }
}

/// The channel is the only one of its node, by its name.
pub open spec fn is_mono_channel(channel: Option<Seq<char>>) -> bool {
    channel matches Some(c) && (same_ignoring_case(c, "mono"@) || same_ignoring_case(c, "fc"@)
        || same_ignoring_case(c, "center"@))
}

fn mono_channel(channel: &Option<String>) -> (r: bool)
    ensures
        r == is_mono_channel(opt_text(*channel)),
{
    match channel {
        None => false,
        Some(c) => eq_ignoring_case(c.as_str(), "mono") || eq_ignoring_case(c.as_str(), "fc")
            || eq_ignoring_case(c.as_str(), "center"),
    }
}

/// The port gives audio.
pub open spec fn gives_audio(g: GraphView, p: PortId) -> bool {
    g.has_port(p) && g.port(p).direction == Direction::Source && g.port(p).port_type
        == PortType::Audio
}

/// The audio outputs of a node, counted.
pub open spec fn audio_outputs(g: GraphView, node: NodeId) -> nat {
    kept(g.node(node).ports, |p: PortId| gives_audio(g, p)).len()
}

fn count_audio_outputs(graph: &Graph, node: NodeId) -> (r: usize)
    requires
        graph@.has_node(node),
    ensures
        r == audio_outputs(graph@, node),
{
    let ghost pred = |p: PortId| gives_audio(graph@, p);
    let mut count: usize = 0;
    if let Some(record) = graph.node(node) {
        let mut i: usize = 0;
        while i < record.ports.len()
            invariant
                i <= record.ports.len(),
                pred == (|p: PortId| gives_audio(graph@, p)),
                count == kept(record.ports@.take(i as int), pred).len(),
                count <= i,
            decreases record.ports.len() - i,
        {
            let pid = record.ports[i];
            proof {
                lemma_kept_step(record.ports@, pred, i as int);
            }
            if let Some(port) = graph.port(pid) {
                if port.direction == Direction::Source && port.port_type == PortType::Audio {
                    count = count + 1;
                }
            }
            i = i + 1;
        }
        assert(record.ports@.take(record.ports@.len() as int) == record.ports@);
    }
    count
}

/// The width of the node behind a key: one where its port is the only
/// channel, else its audio outputs.
pub open spec fn source_width(g: GraphView, source: PortKeyView) -> Option<nat> {
    match g.resolved(source) {
        None => None,
        Some(p) => if is_mono_channel(g.port(p).channel) {
            Some(1)
        } else {
            Some(audio_outputs(g, g.port(p).node_id))
        },
    }
}

fn width_of_source(graph: &Graph, source: &PortKey) -> (r: Option<usize>)
    requires
        graph.wf(),
    ensures
        match r {
            Some(n) => source_width(graph@, source@) == Some(n as nat),
            None => source_width(graph@, source@) is None,
        },
{
    match graph.resolve_port_key(source) {
        None => None,
        Some(p) => {
            proof {
                crate::graph::lemma_resolved_exists(graph@, source@);
                assert(graph@.ports.contains_key(p.0));
                let node = graph@.port(p).node_id;
                assert(graph@.lists(node.0, p));
            }
            match graph.port(p) {
                None => None,
                Some(port) => if mono_channel(&port.channel) {
                    Some(1)
                } else {
                    Some(count_audio_outputs(graph, port.node_id))
                },
            }
        },
    }
}

/// The channels that an effect behind a port should have: a graph that shows
/// its ports one by one gives as many as there are, at least one.
pub open spec fn demo_channels(g: GraphView, source: PortKeyView) -> Option<u16> {
    if source.port_type != PortType::Audio || source.direction != Direction::Source {
        None
    } else {
        match source_width(g, source) {
            None => None,
            Some(n) => Some(
                if n < 1 {
                    1u16
                } else if n > 65535 {
                    65535u16
                } else {
                    n as u16
                },
            ),
        }
    }
}

/// Infers the channels of an effect from the graph, as wide as the source.
pub fn inferred_audio_channels(graph: &Graph, source: &PortKey) -> (r: Option<u16>)
    requires
        graph.wf(),
    ensures
        r == demo_channels(graph@, source@),
{
    if source.port_type != PortType::Audio || source.direction != Direction::Source {
        return None;
    }
    match width_of_source(graph, source) {
        None => None,
        Some(n) => Some(
            if n < 1 {
                1
            } else if n > 65535 {
                65535
            } else {
                n as u16
            },
        ),
    }
}

/// The channels of an effect on a backend whose effects are mono or stereo.
pub open spec fn native_channels(g: GraphView, source: PortKeyView) -> Option<u16> {
    if source.port_type != PortType::Audio || (source.node_type != NodeType::PipeWire
        && source.node_type != NodeType::Effect) {
        None
    } else {
        match source_width(g, source) {
            None => None,
            Some(n) => Some(
                if n <= 1 {
                    1u16
                } else {
                    2u16
                },
            ),
        }
    }
}

/// Infers whether an effect is mono or stereo.
pub fn inferred_native_channels(graph: &Graph, source: &PortKey) -> (r: Option<u16>)
    requires
        graph.wf(),
    ensures
        r == native_channels(graph@, source@),
{
    if source.port_type != PortType::Audio || (source.node_type != NodeType::PipeWire
        && source.node_type != NodeType::Effect) {
        return None;
    }
    match width_of_source(graph, source) {
        None => None,
        Some(n) => Some(
            if n <= 1 {
                1
            } else {
                2
            },
        ),
    }
}

/// The label of a port: its channel, else what its name ends in.
pub open spec fn label_of(port: PortView) -> Seq<char> {
    match port.channel {
        Some(c) => c,
        None => after_last(port.name, '_'),
    }
}

/// The place of a label among the channels of an effect.
pub open spec fn index_of_label(label: Seq<char>) -> Option<nat> {
    if same_ignoring_case(label, "mono"@) || same_ignoring_case(label, "fl"@)
        || same_ignoring_case(label, "fc"@) || same_ignoring_case(label, "center"@) {
        Some(0)
    } else if same_ignoring_case(label, "fr"@) {
        Some(1)
    } else {
        None
    }
}

/// Finds the place of a port among the channels of its effect.
pub fn channel_index(port: &Port) -> (r: Option<usize>)
    ensures
        match r {
            Some(i) => index_of_label(label_of(port@)) == Some(i as nat),
            None => index_of_label(label_of(port@)) is None,
        },
{
    let label = match &port.channel {
        Some(c) => c.clone(),
        None => behind_last(port.name.as_str(), '_'),
    };
    let text = label.as_str();
    if eq_ignoring_case(text, "mono") || eq_ignoring_case(text, "fl") || eq_ignoring_case(
        text,
        "fc",
    ) || eq_ignoring_case(text, "center") {
        Some(0)
    } else if eq_ignoring_case(text, "fr") {
        Some(1)
    } else {
        None
    }
}

/// Some link ends at the port.
pub open spec fn fed(g: GraphView, p: PortId) -> bool {
    exists|k: u64| #[trigger] g.links.contains_key(k) && g.links[k].input_port == p
}

fn is_fed(graph: &Graph, p: PortId) -> (r: bool)
    ensures
        r == fed(graph@, p),
{
    let keys = crate::table::keys_of(&graph.links);
    let mut i: usize = 0;
    while i < keys.len()
        invariant
            i <= keys.len(),
            crate::table::lists_domain(keys@, graph@.links),
            forall|j: int|
                0 <= j < i ==> graph@.links[#[trigger] keys@[j]].input_port != p,
        decreases keys.len() - i,
    {
        let k: u64 = keys[i];
        assert(keys@.contains(k));
        assert(graph@.links.contains_key(k));
        if let Some(link) = graph.link(LinkId(k)) {
            if link.input_port == p {
                return true;
            }
        }
        i = i + 1;
    }
    proof {
        if fed(graph@, p) {
            let k = choose|k: u64| #[trigger]
                graph@.links.contains_key(k) && graph@.links[k].input_port == p;
            assert(keys@.contains(k));
        }
    }
    false
}

/// An audio input of the node for a channel, with a link to it.
pub open spec fn channel_fed(g: GraphView, p: PortId, channel: nat) -> bool {
    g.has_port(p) && g.port(p).direction == Direction::Sink && g.port(p).port_type
        == PortType::Audio && index_of_label(label_of(g.port(p))) == Some(channel) && fed(g, p)
}

/// A channel of an effect is active: the effect has it, and one of the
/// node's inputs for it has a link.
pub open spec fn channel_active(
    g: GraphView,
    ports: Seq<PortId>,
    channel: nat,
    physical: usize,
) -> bool {
    channel < physical && exists|i: int|
        0 <= i < ports.len() && channel_fed(g, #[trigger] ports[i], channel)
}

/// Which channels of an effect have stable links. The graph decides, not what
/// the callback happens to see.
pub fn active_channel_mask(graph: &Graph, node_id: NodeId, physical_channels: usize) -> (r: u16)
    ensures
        r == (if graph@.has_node(node_id) {
            crate::effect_callback::mask_of(
                channel_active(graph@, graph@.node(node_id).ports, 0, physical_channels),
                channel_active(graph@, graph@.node(node_id).ports, 1, physical_channels),
            )
        } else {
            0
        }),
{
    let node = match graph.node(node_id) {
        None => {
            return 0;
        },
        Some(node) => node,
    };
    let mut first = false;
    let mut second = false;
    let mut i: usize = 0;
    while i < node.ports.len()
        invariant
            i <= node.ports.len(),
            first == (0 < physical_channels && exists|j: int|
                0 <= j < i && channel_fed(graph@, #[trigger] node.ports@[j], 0)),
            second == (1 < physical_channels && exists|j: int|
                0 <= j < i && channel_fed(graph@, #[trigger] node.ports@[j], 1)),
        decreases node.ports.len() - i,
    {
        let pid = node.ports[i];
        if let Some(port) = graph.port(pid) {
            if port.direction.is_sink() && port.port_type == PortType::Audio {
                if let Some(channel) = channel_index(port) {
                    if channel < physical_channels && is_fed(graph, pid) {
                        assert(channel_fed(graph@, node.ports@[i as int], channel as nat));
                        if channel == 0 {
                            first = true;
                        } else {
                            second = true;
                        }
                    }
                }
            }
        }
        i = i + 1;
    }
    let mut mask: u16 = 0;
    if first {
        mask = 1;
    }
    if second {
        mask = mask + 2;
    }
    mask
}

/// The mask of an effect has no channel that the effect does not have.
pub proof fn law_mask_stays_within_the_effect(g: GraphView, ports: Seq<PortId>, channel: nat, physical: usize)
    requires
        channel >= physical,
    ensures
        !channel_active(g, ports, channel, physical),
{
}

/// A text that can be handed to the audio server.
pub open spec fn text_refusal(label: Seq<char>, value: Seq<char>) -> Option<BackendErrorView> {
    if value.contains('\0') {
        Some(
            BackendErrorView::Native(
                label + " contains a NUL byte and cannot be passed to PipeWire"@,
            ),
        )
    } else {
        None
    }
}

fn has_char(text: &str, c: char) -> (r: bool)
    ensures
        r == text@.contains(c),
{
    let chars = chars_of(text);
    let mut i: usize = 0;
    while i < chars.len()
        invariant
            i <= chars.len(),
            chars@ == text@,
            forall|j: int| 0 <= j < i ==> chars@[j] != c,
        decreases chars.len() - i,
    {
        if chars[i] == c {
            assert(text@[i as int] == c);
            return true;
        }
        i = i + 1;
    }
    false
}

/// Refuses a text that cannot be handed to the audio server.
pub fn validate_pipewire_text(label: &str, value: &str) -> (r: Result<(), BackendError>)
    ensures
        match text_refusal(label@, value@) {
            None => r is Ok,
            Some(error) => r matches Err(e) && e@ == error,
        },
{
    if has_char(value, '\0') {
        Err(
            BackendError::Native(
                concat2(label, " contains a NUL byte and cannot be passed to PipeWire"),
            ),
        )
    } else {
        Ok(())
    }
}

/// Why a request for an effect is refused.
pub open spec fn request_refusal(instance_id: Seq<char>, effect_id: Seq<char>) -> Option<
    BackendErrorView,
> {
    if trimmed(instance_id).len() == 0 {
        Some(BackendErrorView::Native("effect instance id cannot be empty"@))
    } else {
        match text_refusal("effect instance id"@, instance_id) {
            Some(error) => Some(error),
            None => text_refusal("effect id"@, effect_id),
        }
    }
}

/// Checks a request for an effect.
pub fn validate_request(instance_id: &str, effect_id: &str) -> (r: Result<(), BackendError>)
    ensures
        match request_refusal(instance_id@, effect_id@) {
            None => r is Ok,
            Some(error) => r matches Err(e) && e@ == error,
        },
{
    if is_blank(instance_id) {
        return Err(BackendError::native("effect instance id cannot be empty"));
    }
    match validate_pipewire_text("effect instance id", instance_id) {
        Err(e) => Err(e),
        Ok(()) => validate_pipewire_text("effect id", effect_id),
    }
}

/// Whether a text has nothing but white space.
pub fn is_blank(text: &str) -> (r: bool)
    ensures
        r == (trimmed(text@).len() == 0),
{
    let rest = trim(text);
    let chars = chars_of(rest.as_str());
    chars.len() == 0
}

/// The name of an effect's node: two effects of one kind have different
/// names, so that their ports keep different keys.
pub open spec fn node_name_of(effect_name: Seq<char>, instance_id: Seq<char>) -> Seq<char> {
    effect_name + " ("@ + instance_id + ")"@
}

pub fn effect_node_name(effect_name: &str, instance_id: &str) -> (r: String)
    ensures
        r@ == node_name_of(effect_name@, instance_id@),
{
    concat2(concat3(effect_name, " (", instance_id).as_str(), ")")
}

/// Two instances of one effect have different node names.
pub proof fn law_instances_are_told_apart(effect_name: Seq<char>, a: Seq<char>, b: Seq<char>)
    requires
        a != b,
    ensures
        node_name_of(effect_name, a) != node_name_of(effect_name, b),
{
    reveal_strlit(" (");
    reveal_strlit(")");
    if node_name_of(effect_name, a) == node_name_of(effect_name, b) {
        let s = node_name_of(effect_name, a);
        let n = effect_name.len() as int;
        let t = node_name_of(effect_name, b);
        assert(s.len() == n + a.len() + 3);
        assert(t.len() == n + b.len() + 3);
        assert(s.subrange(n + 2, n + 2 + a.len()) =~= a);
        assert(t.subrange(n + 2, n + 2 + b.len()) =~= b);
    }
}

/// The channel names of an effect's ports.
pub open spec fn channel_names(channels: nat) -> Seq<Seq<char>> {
    if channels == 1 {
        seq!["MONO"@]
    } else {
        seq!["FL"@, "FR"@]
    }
}

/// Why no filter is made for an effect: its names, a module, or the name of
/// the effect.
pub open spec fn native_refusal(config: EffectConfigView, effect_name: Seq<char>) -> Option<
    BackendErrorView,
> {
    match early_refusal(config.instance_id, config.effect_id, config.module is Some) {
        Some(error) => Some(error),
        None => text_refusal("effect name"@, effect_name),
    }
}

/// The ports of one side, by name and channel.
pub open spec fn port_names(
    ports: Seq<(String, String)>,
    role: Seq<char>,
    channels: usize,
) -> bool {
    &&& ports.len() == channel_names(channels as nat).len()
    &&& forall|i: int|
        0 <= i < ports.len() ==> (#[trigger] ports[i]).1@ == channel_names(channels as nat)[i]
            && ports[i].0@ == role + "_"@ + channel_names(channels as nat)[i]
}

/// Why an effect is refused before its processor is made.
pub open spec fn early_refusal(
    instance_id: Seq<char>,
    effect_id: Seq<char>,
    has_module: bool,
) -> Option<BackendErrorView> {
    match request_refusal(instance_id, effect_id) {
        Some(error) => Some(error),
        None => if has_module {
            Some(
                BackendErrorView::Unsupported(
                    "WASM/native effect modules are not yet hosted by the PipeWire filter runtime"@,
                ),
            )
        } else {
            None
        },
    }
}

/// Checks what can be checked before an effect's processor is made: the
/// request, and that no module is asked for.
pub fn check_native_effect(instance_id: &str, effect_id: &str, has_module: bool) -> (r: Result<
    (),
    BackendError,
>)
    ensures
        match early_refusal(instance_id@, effect_id@, has_module) {
            Some(error) => r matches Err(e) && e@ == error,
            None => r is Ok,
        },
{
    match validate_request(instance_id, effect_id) {
        Err(e) => {
            return Err(e);
        },
        Ok(()) => {},
    }
    if has_module {
        return Err(
            BackendError::unsupported(
                "WASM/native effect modules are not yet hosted by the PipeWire filter runtime",
            ),
        );
    }
    Ok(())
}

/// What is checked before an effect's filter is made: the request, that no
/// module is asked for, and the effect's name. The result is the name of the
/// node.
pub fn plan_native_effect(
    instance_id: &str,
    effect_id: &str,
    has_module: bool,
    effect_name: &str,
) -> (r: Result<String, BackendError>)
    ensures
        match early_refusal(instance_id@, effect_id@, has_module) {
            Some(error) => r matches Err(e) && e@ == error,
            None => match text_refusal("effect name"@, effect_name@) {
                Some(error) => r matches Err(e) && e@ == error,
                None => r matches Ok(name) && name@ == node_name_of(effect_name@, instance_id@),
            },
        },
{
    match check_native_effect(instance_id, effect_id, has_module) {
        Err(e) => {
            return Err(e);
        },
        Ok(()) => {},
    }
    match validate_pipewire_text("effect name", effect_name) {
        Err(e) => Err(e),
        Ok(()) => Ok(effect_node_name(effect_name, instance_id)),
    }
}

/// The names of an effect's ports on one side, with their channels.
pub fn effect_port_names(role: &str, channels: usize) -> (r: Vec<(String, String)>)
    ensures
        port_names(r@, role@, channels),
{
    let mut out: Vec<(String, String)> = Vec::new();
    if channels == 1 {
        out.push((concat3(role, "_", "MONO"), "MONO".to_owned()));
    } else {
        out.push((concat3(role, "_", "FL"), "FL".to_owned()));
        out.push((concat3(role, "_", "FR"), "FR".to_owned()));
    }
    out
}

/// The port gives audio and belongs to the node.
pub open spec fn audio_source_of(g: GraphView, node: NodeId, p: PortId) -> bool {
    &&& g.has_port(p)
    &&& g.port(p).node_id == node
    &&& g.port(p).direction == Direction::Source
    &&& g.port(p).port_type == PortType::Audio
}

/// The channel is that of a single speaker in the middle.
pub open spec fn in_the_middle(channel: Option<Seq<char>>) -> bool {
    channel matches Some(c) && (crate::text::lower(c) == "mono"@ || crate::text::lower(c) == "fc"@
        || crate::text::lower(c) == "center"@)
}

/// The labels are written in lower case.
proof fn lemma_labels_are_lower()
    ensures
        crate::text::lower("mono"@) == "mono"@,
        crate::text::lower("fc"@) == "fc"@,
        crate::text::lower("center"@) == "center"@,
        crate::text::lower("fl"@) == "fl"@,
        crate::text::lower("fr"@) == "fr"@,
        "fl"@ != "fr"@,
        "mono"@ != "fr"@,
        "fc"@ != "fr"@,
        "center"@ != "fr"@,
{
    reveal_strlit("mono");
    reveal_strlit("fc");
    reveal_strlit("center");
    reveal_strlit("fl");
    reveal_strlit("fr");
    assert(crate::text::lower("mono"@) =~= "mono"@);
    assert(crate::text::lower("fc"@) =~= "fc"@);
    assert(crate::text::lower("center"@) =~= "center"@);
    assert(crate::text::lower("fl"@) =~= "fl"@);
    assert(crate::text::lower("fr"@) =~= "fr"@);
    assert("fl"@[1] != "fr"@[1]);
    assert("fc"@[1] != "fr"@[1]);
    assert("mono"@.len() != "fr"@.len());
    assert("center"@.len() != "fr"@.len());
}

/// An effect behind a source is as wide as the source, up to two channels. It
/// has two where the node of the source gives audio at two different ports,
/// and one where it gives audio at a single port or where the source is a
/// speaker in the middle. Only an audio source of a node of the audio server
/// or of an effect has a width.
pub proof fn law_width_of_a_source(g: GraphView, source: PortKeyView, a: PortId, b: PortId)
    requires
        g.wf(),
    ensures
        match g.resolved(source) {
            None => native_channels(g, source) is None,
            Some(p) => {
                let node = g.port(p).node_id;
                let width = native_channels(g, source);
                if source.port_type != PortType::Audio || (source.node_type != NodeType::PipeWire
                    && source.node_type != NodeType::Effect) {
                    width is None
                } else if in_the_middle(g.port(p).channel) {
                    width == Some(1u16)
                } else {
                    &&& audio_source_of(g, node, a) && audio_source_of(g, node, b) && a != b
                        ==> width == Some(2u16)
                    &&& (forall|q: PortId| #[trigger] audio_source_of(g, node, q) ==> q == a)
                        ==> width == Some(1u16)
                    &&& width == Some(1u16) || width == Some(2u16)
                }
            },
        },
{
    lemma_labels_are_lower();
    if let Some(p) = g.resolved(source) {
        crate::graph::law_resolution(g, source);
        crate::graph::law_ports_of_a_node(g, g.port(p).node_id, p);
        let node = g.port(p).node_id;
        let ports = g.node(node).ports;
        let gives = |q: PortId| gives_audio(g, q);
        let all = kept(ports, gives);
        crate::graph::law_ports_of_a_node(g, node, a);
        crate::graph::law_ports_of_a_node(g, node, b);
        if audio_source_of(g, node, a) && audio_source_of(g, node, b) && a != b {
            crate::lists::lemma_two_kept(ports, gives, a, b);
        }
        if forall|q: PortId| #[trigger] audio_source_of(g, node, q) ==> q == a {
            if all.len() >= 2 {
                crate::lists::lemma_kept_distinct(ports, gives);
                crate::lists::lemma_kept_members(ports, gives, all[0]);
                crate::lists::lemma_kept_members(ports, gives, all[1]);
                assert(all.contains(all[0]));
                assert(all.contains(all[1]));
                crate::graph::law_ports_of_a_node(g, node, all[0]);
                crate::graph::law_ports_of_a_node(g, node, all[1]);
                assert(audio_source_of(g, node, all[0]));
                assert(audio_source_of(g, node, all[1]));
                assert(all[0] != all[1]);
            }
        }
    }
}

/// In the demonstration an effect has as many channels as the node of the
/// source gives audio at ports, at least one; a speaker in the middle has one.
/// `all` lists those ports.
pub proof fn law_demo_width_counts_ports(g: GraphView, source: PortKeyView, all: Seq<PortId>)
    requires
        g.wf(),
        source.port_type == PortType::Audio,
        source.direction == Direction::Source,
        g.resolved(source) is Some,
        all.no_duplicates(),
        forall|q: PortId| #[trigger]
            all.contains(q) <==> audio_source_of(g, g.port(g.resolved(source)->Some_0).node_id, q),
    ensures
        in_the_middle(g.port(g.resolved(source)->Some_0).channel) ==> demo_channels(g, source)
            == Some(1u16),
        !in_the_middle(g.port(g.resolved(source)->Some_0).channel) && 1 <= all.len() <= 65535
            ==> demo_channels(g, source) == Some(all.len() as u16),
        demo_channels(g, source) is Some,
{
    lemma_labels_are_lower();
    let p = g.resolved(source)->Some_0;
    crate::graph::law_resolution(g, source);
    crate::graph::law_ports_of_a_node(g, g.port(p).node_id, p);
    let node = g.port(p).node_id;
    let ports = g.node(node).ports;
    let gives = |q: PortId| gives_audio(g, q);
    let mine = kept(ports, gives);
    crate::lists::lemma_kept_distinct(ports, gives);
    assert forall|q: PortId| mine.contains(q) <==> all.contains(q) by {
        crate::lists::lemma_kept_members(ports, gives, q);
        crate::graph::law_ports_of_a_node(g, node, q);
    }
    mine.unique_seq_to_set();
    all.unique_seq_to_set();
    assert(mine.to_set() =~= all.to_set());
}

/// The ends of an effect are the ports that bear the two keys; they are
/// missing where no port bears one of them.
pub proof fn law_ends_of_an_effect(g: GraphView, source: PortKeyView, destination: PortKeyView)
    requires
        g.wf(),
    ensures
        match ends_of(g, source, destination) {
            Ok((from, to)) => {
                &&& crate::graph::bears_key(g, from, source)
                &&& crate::graph::bears_key(g, to, destination)
                &&& g.resolved(source) == Some(from)
                &&& g.resolved(destination) == Some(to)
            },
            Err(_) => (forall|p: PortId| !#[trigger] crate::graph::bears_key(g, p, source)) || (
            forall|p: PortId| !#[trigger] crate::graph::bears_key(g, p, destination)),
        },
{
    crate::graph::law_resolution(g, source);
    crate::graph::law_resolution(g, destination);
}

/// An effect goes into the link from the source to the destination, in that
/// direction. Where no link joins them, or they do not carry audio, it goes
/// nowhere.
pub proof fn law_insertion_points(g: GraphView, source: PortKeyView, destination: PortKeyView)
    requires
        g.wf(),
    ensures
        match insertion_point(g, source, destination) {
            Ok((from, to, link)) => {
                &&& g.has_link(link.id)
                &&& g.link(link.id) == link
                &&& link.output_port == from
                &&& link.input_port == to
                &&& crate::graph::bears_key(g, from, source)
                &&& crate::graph::bears_key(g, to, destination)
            },
            Err(_) => ends_of(g, source, destination) matches Ok((from, to)) ==> !g.connected(
                from,
                to,
            ),
        },
        match audio_insertion_point(g, source, destination) {
            Ok((from, to, link)) => {
                &&& insertion_point(g, source, destination) == Ok::<
                    (PortId, PortId, Link),
                    BackendErrorView,
                >((from, to, link))
                &&& g.port(from).port_type == PortType::Audio
                &&& g.port(to).port_type == PortType::Audio
            },
            Err(_) => insertion_point(g, source, destination) matches Ok((from, to, _)) ==> g.port(
                from,
            ).port_type != PortType::Audio || g.port(to).port_type != PortType::Audio,
        },
{
    law_ends_of_an_effect(g, source, destination);
    if let Ok((from, to)) = ends_of(g, source, destination) {
        crate::relay_playback::law_joining(g, from, to);
        if let Some(k) = joining(g, from, to) {
            assert(g.links.contains_key(k));
            assert(g.links[k].id.0 == k);
        }
    }
}

/// The label of a port is its channel, failing that the end of its name behind
/// the last underscore. Left and the middle are the first channel, right is the
/// second, and capitals do not count.
pub proof fn law_channel_labels(port: PortView, label: Seq<char>)
    ensures
        port.channel == Some(label) ==> label_of(port) == label,
        port.channel is None ==> !label_of(port).contains('_'),
        port.channel is None && port.name.contains('_') ==> exists|head: Seq<char>|
            port.name == #[trigger] head.push('_') + label_of(port),
        index_of_label(label) == Some(0nat) <==> crate::text::lower(label) == "mono"@
            || crate::text::lower(label) == "fl"@ || crate::text::lower(label) == "fc"@
            || crate::text::lower(label) == "center"@,
        index_of_label(label) == Some(1nat) <==> crate::text::lower(label) == "fr"@,
        index_of_label(label) matches Some(c) ==> c < 2,
{
    lemma_labels_are_lower();
    crate::text::law_after_last(port.name, '_');
}

/// A channel of an effect is active exactly where the effect has that channel
/// and a link feeds an audio input of its node with the label of the channel.
pub proof fn law_active_channels(g: GraphView, node: NodeId, channel: nat, physical: usize)
    requires
        g.wf(),
        g.has_node(node),
    ensures
        channel_active(g, g.node(node).ports, channel, physical) <==> channel < physical && exists|
            k: u64,
        | #[trigger]
            g.links.contains_key(k) && g.port(g.links[k].input_port).node_id == node && g.port(
                g.links[k].input_port,
            ).port_type == PortType::Audio && index_of_label(
                label_of(g.port(g.links[k].input_port)),
            ) == Some(channel),
{
    let ports = g.node(node).ports;
    if channel_active(g, ports, channel, physical) {
        let i = choose|i: int| 0 <= i < ports.len() && channel_fed(g, #[trigger] ports[i], channel);
        assert(ports.contains(ports[i]));
        crate::graph::law_ports_of_a_node(g, node, ports[i]);
        let k = choose|k: u64| #[trigger]
            g.links.contains_key(k) && g.links[k].input_port == ports[i];
        assert(g.links.contains_key(k));
    }
    if channel < physical && exists|k: u64| #[trigger]
        g.links.contains_key(k) && g.port(g.links[k].input_port).node_id == node && g.port(
            g.links[k].input_port,
        ).port_type == PortType::Audio && index_of_label(label_of(g.port(g.links[k].input_port)))
            == Some(channel) {
        let k = choose|k: u64| #[trigger]
            g.links.contains_key(k) && g.port(g.links[k].input_port).node_id == node && g.port(
                g.links[k].input_port,
            ).port_type == PortType::Audio && index_of_label(
                label_of(g.port(g.links[k].input_port)),
            ) == Some(channel);
        let p = g.links[k].input_port;
        crate::graph::law_ports_of_a_node(g, node, p);
        assert(g.link_fits(g.links[k]));
        let i = choose|i: int| 0 <= i < ports.len() && ports[i] == p;
        assert(channel_fed(g, ports[i], channel));
    }
}

/// A request is refused exactly where its name is blank or one of its texts
/// holds a character that the audio server cannot take, or where it asks for a
/// module.
pub proof fn law_refused_requests(
    instance_id: Seq<char>,
    effect_id: Seq<char>,
    has_module: bool,
    label: Seq<char>,
    value: Seq<char>,
)
    ensures
        text_refusal(label, value) is None <==> !value.contains('\0'),
        request_refusal(instance_id, effect_id) is None <==> !crate::text::all_white(instance_id)
            && !instance_id.contains('\0') && !effect_id.contains('\0'),
        early_refusal(instance_id, effect_id, has_module) is None <==> request_refusal(
            instance_id,
            effect_id,
        ) is None && !has_module,
{
    crate::text::law_trimmed(instance_id);
}

/// A mono effect has one port on each side, any other has a left and a right
/// one; each is named after its side and its channel.
pub proof fn law_effect_ports(ports: Seq<(String, String)>, role: Seq<char>, channels: usize)
    requires
        port_names(ports, role, channels),
    ensures
        channels == 1 ==> ports.len() == 1 && ports[0].1@ == "MONO"@ && ports[0].0@ == role + "_"@
            + "MONO"@,
        channels != 1 ==> ports.len() == 2 && ports[0].1@ == "FL"@ && ports[1].1@ == "FR"@
            && ports[0].0@ == role + "_"@ + "FL"@ && ports[1].0@ == role + "_"@ + "FR"@,
{
}

} // verus!
