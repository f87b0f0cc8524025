//! Finding the nodes and ports that relay routes run between.
use crate::graph::{Graph, GraphView};
use crate::ids::{native_node_id, native_part, NodeId, PortId};
use crate::lists::{
    first_in, kept, last_in, lemma_first_in, lemma_kept_step, lemma_none_in, some_in,
};
use crate::metering::{audio_port, class_is_sink, media_class_is_playback_sink};
use crate::model::{opt_text, Direction, NodeView, PortType, PortView};
use crate::registry::{
    DefaultDevice, DefaultDeviceView, NodeRecordView, RegistryState, RegistryView,
};
use crate::table::{first_of, keys_of, lemma_first_found, lemma_none_found, lists_domain};
use crate::text::{
    after_prefix, begins_with, has_sub, lower, lower_contains, parse_u64, text_contains, text_eq,
    u64_value,
};
use vstd::prelude::*;

verus! {

broadcast use vstd::std_specs::btree::group_btree_axioms;

/// The virtual device through which received audio can be captured.
pub const RELAY_SOURCE_NAME: &'static str = "qpwgraph-rs.relay.source";

/// The virtual device whose input is sent to peers.
pub const RELAY_SINK_NAME: &'static str = "qpwgraph-rs.relay.sink";

/// One of the relay's own devices.
pub open spec fn relay_name(name: Seq<char>) -> bool {
    name == RELAY_SOURCE_NAME@ || name == RELAY_SINK_NAME@
}

/// Whether a node is one of the relay's own devices. Those publish no
/// properties, so their volume and mute can neither be read nor written.
pub fn is_relay_device_node(name: &str) -> (r: bool)
    ensures
        r == relay_name(name@),
{
    text_eq(name, RELAY_SOURCE_NAME) || text_eq(name, RELAY_SINK_NAME)
}

/// The numbers of a graph's nodes in ascending order.
pub fn node_keys(graph: &Graph) -> (r: Vec<u64>)
    ensures
        lists_domain(r@, graph@.nodes),
{
    let keys = keys_of(&graph.nodes);
    assert forall|k: u64| #[trigger] keys@.contains(k) <==> graph@.nodes.contains_key(k) by {
        assert(keys@.contains(k) <==> graph.nodes@.contains_key(k));
    }
    keys
}

/// An identifier of the node under a number.
pub open spec fn opt_node(o: Option<u64>) -> Option<NodeId> {
    match o {
        Some(k) => Some(NodeId(k)),
        None => None,
    }
}

/// The first node with a name.
pub open spec fn named_node(g: GraphView, name: Seq<char>) -> Option<NodeId> {
    opt_node(first_of(g.nodes, |n: NodeView| n.name == name))
}

/// Finds the first node with a name.
pub fn find_named_node(graph: &Graph, name: &str) -> (r: Option<NodeId>)
    ensures
        r == named_node(graph@, name@),
        r matches Some(id) ==> graph@.has_node(id) && graph@.node(id).name == name@,
{
    let keys = node_keys(graph);
    let ghost p = |n: NodeView| n.name == name@;
    let mut i: usize = 0;
    while i < keys.len()
        invariant
            i <= keys.len(),
            lists_domain(keys@, graph@.nodes),
            p == (|n: NodeView| n.name == name@),
            forall|j: int| 0 <= j < i ==> !p(#[trigger] graph@.nodes[keys@[j]]),
        decreases keys.len() - i,
    {
        let k: u64 = keys[i];
        assert(keys@.contains(k));
        if let Some(node) = graph.node(NodeId(k)) {
            if text_eq(node.name.as_str(), name) {
                proof {
                    lemma_first_found(keys@, graph@.nodes, p, i as int);
                }
                return Some(NodeId(k));
            }
        }
        i = i + 1;
    }
    proof {
        lemma_none_found(keys@, graph@.nodes, p);
    }
    None
}

/// A port for the left channel: its channel says so, or it names no stereo
/// side as its channel and its name does.
pub open spec fn tagged_left(p: PortView) -> bool {
    p.channel == Some("FL"@) || (p.channel != Some("FR"@) && has_sub(p.name, "FL"@))
}

/// A port for the right channel, by the same rule; a name that holds both
/// sides counts as left.
pub open spec fn tagged_right(p: PortView) -> bool {
    p.channel == Some("FR"@) || (p.channel != Some("FL"@) && !has_sub(p.name, "FL"@) && has_sub(
        p.name,
        "FR"@,
    ))
}

/// Whether an optional text is a given text.
pub fn channel_is(channel: &Option<String>, text: &str) -> (r: bool)
    ensures
        r == (opt_text(*channel) == Some(text@)),
{
    match channel {
        Some(s) => text_eq(s.as_str(), text),
        None => false,
    }
}

pub open spec fn left_output(g: GraphView, p: PortId) -> bool {
    g.has_port(p) && g.port(p).direction == Direction::Source && tagged_left(g.port(p))
}

pub open spec fn right_output(g: GraphView, p: PortId) -> bool {
    g.has_port(p) && g.port(p).direction == Direction::Source && tagged_right(g.port(p))
}

/// Both, where both are present.
pub open spec fn both(a: Option<PortId>, b: Option<PortId>) -> Option<(PortId, PortId)> {
    match (a, b) {
        (Some(x), Some(y)) => Some((x, y)),
        _ => None,
    }
}

/// The stereo outputs of the relay's source device: of each side the one that
/// the device lists last.
pub open spec fn relay_outputs(g: GraphView) -> Option<(PortId, PortId)> {
    match named_node(g, RELAY_SOURCE_NAME@) {
        None => None,
        Some(id) => both(
            last_in(g.node(id).ports, |p: PortId| left_output(g, p)),
            last_in(g.node(id).ports, |p: PortId| right_output(g, p)),
        ),
    }
}

/// Finds the stereo outputs of the relay's source device.
pub fn find_relay_source_ports(graph: &Graph) -> (r: Option<(PortId, PortId)>)
    ensures
        r == relay_outputs(graph@),
{
    let id = match find_named_node(graph, RELAY_SOURCE_NAME) {
        Some(id) => id,
        None => {
            return None;
        },
    };
    match graph.node(id) {
        None => None,
        Some(node) => {
            let ghost left = |p: PortId| left_output(graph@, p);
            let ghost right = |p: PortId| right_output(graph@, p);
            let mut fl: Option<PortId> = None;
            let mut fr: Option<PortId> = None;
            let mut i: usize = 0;
            while i < node.ports.len()
                invariant
                    i <= node.ports.len(),
                    left == (|p: PortId| left_output(graph@, p)),
                    right == (|p: PortId| right_output(graph@, p)),
                    fl == last_in(node.ports@.take(i as int), left),
                    fr == last_in(node.ports@.take(i as int), right),
                decreases node.ports.len() - i,
            {
                let pid = node.ports[i];
                proof {
                    lemma_kept_step(node.ports@, left, i as int);
                    lemma_kept_step(node.ports@, right, i as int);
                }
                if let Some(port) = graph.port(pid) {
                    if port.direction.is_source() {
                        if channel_is(&port.channel, "FL") {
                            proof {
                                reveal_strlit("FL");
                                reveal_strlit("FR");
                                assert("FL"@[1] != "FR"@[1]);
                            }
                            fl = Some(pid);
                        } else if channel_is(&port.channel, "FR") {
                            fr = Some(pid);
                        } else if text_contains(port.name.as_str(), "FL") {
                            fl = Some(pid);
                        } else if text_contains(port.name.as_str(), "FR") {
                            fr = Some(pid);
                        }
                    }
                }
                i = i + 1;
            }
            assert(node.ports@.take(node.ports@.len() as int) == node.ports@);
            match (fl, fr) {
                (Some(a), Some(b)) => Some((a, b)),
                _ => None,
            }
        },
    }
}

/// Audio, or media of an unknown kind.
pub open spec fn maybe_audio(t: PortType) -> bool {
    t == PortType::Audio || t == PortType::Unknown
}

/// A port that may carry audio in the given direction.
pub open spec fn audio_end(g: GraphView, p: PortId, source: bool) -> bool {
    g.has_port(p) && g.port(p).direction == (if source {
        Direction::Source
    } else {
        Direction::Sink
    }) && maybe_audio(g.port(p).port_type)
}

/// The first port of a list with a channel.
pub open spec fn on_channel(g: GraphView, ports: Seq<PortId>, channel: Seq<char>) -> Option<
    PortId,
> {
    first_in(ports, |p: PortId| g.port(p).channel == Some(channel))
}

/// The inputs of a playback sink. A single input takes both channels;
/// otherwise the channels must say which input is which, and are never guessed
/// from the order of the ports.
pub open spec fn sink_inputs(g: GraphView, sink: NodeId) -> Option<(PortId, PortId)> {
    if !g.has_node(sink) {
        None
    } else {
        let ports = kept(g.node(sink).ports, |p: PortId| audio_end(g, p, false));
        if ports.len() == 0 {
            None
        } else if ports.len() == 1 {
            Some((ports[0], ports[0]))
        } else {
            match both(on_channel(g, ports, "FL"@), on_channel(g, ports, "FR"@)) {
                Some((a, b)) if a != b => Some((a, b)),
                _ => None,
            }
        }
    }
}

/// The ports of a node that may carry audio in the given direction.
fn audio_ends(graph: &Graph, node: NodeId, source: bool) -> (r: Vec<PortId>)
    requires
        graph@.has_node(node),
    ensures
        r@ == kept(graph@.node(node).ports, |p: PortId| audio_end(graph@, p, source)),
{
    let ghost pred = |p: PortId| audio_end(graph@, p, source);
    let mut out: Vec<PortId> = Vec::new();
    if let Some(record) = graph.node(node) {
        let mut i: usize = 0;
        while i < record.ports.len()
            invariant
                i <= record.ports.len(),
                pred == (|p: PortId| audio_end(graph@, p, source)),
                out@ == kept(record.ports@.take(i as int), pred),
            decreases record.ports.len() - i,
        {
            let pid = record.ports[i];
            proof {
                lemma_kept_step(record.ports@, pred, i as int);
            }
            if let Some(port) = graph.port(pid) {
                let facing = if source {
                    port.direction.is_source()
                } else {
                    port.direction.is_sink()
                };
                if facing && (port.port_type == PortType::Audio || port.port_type
                    == PortType::Unknown) {
                    out.push(pid);
                }
            }
            i = i + 1;
        }
        assert(record.ports@.take(record.ports@.len() as int) == record.ports@);
    }
    out
}

/// The first port of a list with a channel.
fn first_on_channel(graph: &Graph, ports: &Vec<PortId>, channel: &str) -> (r: Option<PortId>)
    requires
        forall|j: int| 0 <= j < ports.len() ==> graph@.has_port(#[trigger] ports@[j]),
    ensures
        r == on_channel(graph@, ports@, channel@),
{
    let ghost pred = |p: PortId| graph@.port(p).channel == Some(channel@);
    let mut i: usize = 0;
    while i < ports.len()
        invariant
            i <= ports.len(),
            forall|j: int| 0 <= j < ports.len() ==> graph@.has_port(#[trigger] ports@[j]),
            pred == (|p: PortId| graph@.port(p).channel == Some(channel@)),
            forall|j: int| 0 <= j < i ==> !pred(#[trigger] ports@[j]),
        decreases ports.len() - i,
    {
        if let Some(port) = graph.port(ports[i]) {
            if channel_is(&port.channel, channel) {
                proof {
                    lemma_first_in(ports@, pred, i as int);
                }
                return Some(ports[i]);
            }
        }
        i = i + 1;
    }
    proof {
        lemma_none_in(ports@, pred);
    }
    None
}

proof fn lemma_ends_exist(g: GraphView, ports: Seq<PortId>, pred: spec_fn(PortId) -> bool)
    requires
        forall|p: PortId| #[trigger] pred(p) ==> g.has_port(p),
    ensures
        forall|j: int|
            0 <= j < kept(ports, pred).len() ==> g.has_port(#[trigger] kept(ports, pred)[j]),
{
    let sel = kept(ports, pred);
    assert forall|j: int| 0 <= j < sel.len() implies g.has_port(#[trigger] sel[j]) by {
        assert(sel.contains(sel[j]));
        crate::lists::lemma_kept_members(ports, pred, sel[j]);
    }
}

/// Finds the inputs of a playback sink.
pub fn find_sink_input_ports(graph: &Graph, sink_id: NodeId) -> (r: Option<(PortId, PortId)>)
    ensures
        r == sink_inputs(graph@, sink_id),
{
    if graph.node(sink_id).is_none() {
        return None;
    }
    let ports = audio_ends(graph, sink_id, false);
    if ports.len() == 0 {
        return None;
    }
    if ports.len() == 1 {
        return Some((ports[0], ports[0]));
    }
    proof {
        lemma_ends_exist(
            graph@,
            graph@.node(sink_id).ports,
            |p: PortId| audio_end(graph@, p, false),
        );
    }
    let fl = first_on_channel(graph, &ports, "FL");
    let fr = first_on_channel(graph, &ports, "FR");
    match (fl, fr) {
        (Some(a), Some(b)) => if a != b {
            Some((a, b))
        } else {
            None
        },
        _ => None,
    }
}

/// The node has a port that may carry audio in the given direction.
pub open spec fn faces(g: GraphView, node: NodeId, source: bool) -> bool {
    g.has_node(node) && some_in(g.node(node).ports, |p: PortId| audio_end(g, p, source))
}

/// Whether a node has a port that may carry audio in the given direction.
pub fn node_has_audio_direction(graph: &Graph, node_id: NodeId, source: bool) -> (r: bool)
    ensures
        r == faces(graph@, node_id, source),
{
    match graph.node(node_id) {
        None => false,
        Some(node) => {
            let ghost pred = |p: PortId| audio_end(graph@, p, source);
            let mut i: usize = 0;
            while i < node.ports.len()
                invariant
                    i <= node.ports.len(),
                    graph@.has_node(node_id),
                    node@ == graph@.node(node_id),
                    pred == (|p: PortId| audio_end(graph@, p, source)),
                    forall|j: int| 0 <= j < i ==> !pred(#[trigger] node.ports@[j]),
                decreases node.ports.len() - i,
            {
                if let Some(port) = graph.port(node.ports[i]) {
                    let facing = if source {
                        port.direction.is_source()
                    } else {
                        port.direction.is_sink()
                    };
                    if facing && (port.port_type == PortType::Audio || port.port_type
                        == PortType::Unknown) {
                        assert(pred(node.ports@[i as int]));
                        return true;
                    }
                }
                i = i + 1;
            }
            proof {
                lemma_none_in(node.ports@, pred);
            }
            false
        },
    }
}

/// The port belongs to a monitor, by its name.
pub open spec fn monitor_port(g: GraphView, p: PortId) -> bool {
    has_sub(lower(g.port(p).name), "monitor"@)
}

/// The left port of a list: the first whose channel is left or whose name
/// holds it.
pub open spec fn left_of(g: GraphView, ports: Seq<PortId>) -> Option<PortId> {
    first_in(
        ports,
        |p: PortId| g.port(p).channel == Some("FL"@) || has_sub(g.port(p).name, "FL"@),
    )
}

/// The right port of a list.
pub open spec fn right_of(g: GraphView, ports: Seq<PortId>) -> Option<PortId> {
    first_in(
        ports,
        |p: PortId| g.port(p).channel == Some("FR"@) || has_sub(g.port(p).name, "FR"@),
    )
}

/// A stereo pair from a list of ports. A single port takes both channels.
pub open spec fn stereo_pair(g: GraphView, ports: Seq<PortId>) -> Option<(PortId, PortId)> {
    if ports.len() == 0 {
        None
    } else if ports.len() == 1 {
        Some((ports[0], ports[0]))
    } else {
        match both(left_of(g, ports), right_of(g, ports)) {
            Some((a, b)) if a != b => Some((a, b)),
            _ => None,
        }
    }
}

/// The stereo ports of a node in the given direction. A monitor is looked for
/// among the ports that are named so and, where none is, among all of them.
pub open spec fn audio_pair(g: GraphView, node: NodeId, source: bool, monitor: bool) -> Option<
    (PortId, PortId),
> {
    if !g.has_node(node) {
        None
    } else {
        let all = kept(g.node(node).ports, |p: PortId| audio_end(g, p, source));
        let tapped = kept(
            g.node(node).ports,
            |p: PortId| audio_end(g, p, source) && monitor_port(g, p),
        );
        if monitor && tapped.len() > 0 {
            stereo_pair(g, tapped)
        } else {
            stereo_pair(g, all)
        }
    }
}

/// The ports of a node that are named as a monitor.
fn monitor_ends(graph: &Graph, node: NodeId, source: bool) -> (r: Vec<PortId>)
    requires
        graph@.has_node(node),
    ensures
        r@ == kept(
            graph@.node(node).ports,
            |p: PortId| audio_end(graph@, p, source) && monitor_port(graph@, p),
        ),
{
    let ghost pred = |p: PortId| audio_end(graph@, p, source) && monitor_port(graph@, p);
    let mut out: Vec<PortId> = Vec::new();
    if let Some(record) = graph.node(node) {
        let mut i: usize = 0;
        while i < record.ports.len()
            invariant
                i <= record.ports.len(),
                pred == (|p: PortId| audio_end(graph@, p, source) && monitor_port(graph@, p)),
                out@ == kept(record.ports@.take(i as int), pred),
            decreases record.ports.len() - i,
        {
            let pid = record.ports[i];
            proof {
                lemma_kept_step(record.ports@, pred, i as int);
            }
            if let Some(port) = graph.port(pid) {
                let facing = if source {
                    port.direction.is_source()
                } else {
                    port.direction.is_sink()
                };
                if facing && (port.port_type == PortType::Audio || port.port_type
                    == PortType::Unknown) && lower_contains(port.name.as_str(), "monitor") {
                    out.push(pid);
                }
            }
            i = i + 1;
        }
        assert(record.ports@.take(record.ports@.len() as int) == record.ports@);
    }
    out
}

/// The first port of a list whose channel is `tag` or whose name holds it.
fn first_tagged(graph: &Graph, ports: &Vec<PortId>, tag: &str) -> (r: Option<PortId>)
    requires
        forall|j: int| 0 <= j < ports.len() ==> graph@.has_port(#[trigger] ports@[j]),
    ensures
        r == first_in(
            ports@,
            |p: PortId|
                graph@.port(p).channel == Some(tag@) || has_sub(graph@.port(p).name, tag@),
        ),
{
    let ghost pred = |p: PortId|
        graph@.port(p).channel == Some(tag@) || has_sub(graph@.port(p).name, tag@);
    let mut i: usize = 0;
    while i < ports.len()
        invariant
            i <= ports.len(),
            forall|j: int| 0 <= j < ports.len() ==> graph@.has_port(#[trigger] ports@[j]),
            pred == (|p: PortId|
                graph@.port(p).channel == Some(tag@) || has_sub(graph@.port(p).name, tag@)),
            forall|j: int| 0 <= j < i ==> !pred(#[trigger] ports@[j]),
        decreases ports.len() - i,
    {
        if let Some(port) = graph.port(ports[i]) {
            if channel_is(&port.channel, tag) || text_contains(port.name.as_str(), tag) {
                proof {
                    lemma_first_in(ports@, pred, i as int);
                }
                return Some(ports[i]);
            }
        }
        i = i + 1;
    }
    proof {
        lemma_none_in(ports@, pred);
    }
    None
}

fn pair_from(graph: &Graph, ports: &Vec<PortId>) -> (r: Option<(PortId, PortId)>)
    requires
        forall|j: int| 0 <= j < ports.len() ==> graph@.has_port(#[trigger] ports@[j]),
    ensures
        r == stereo_pair(graph@, ports@),
{
    if ports.len() == 0 {
        return None;
    }
    if ports.len() == 1 {
        return Some((ports[0], ports[0]));
    }
    let fl = first_tagged(graph, ports, "FL");
    let fr = first_tagged(graph, ports, "FR");
    match (fl, fr) {
        (Some(a), Some(b)) => if a != b {
            Some((a, b))
        } else {
            None
        },
        _ => None,
    }
}

/// Finds the stereo ports of a node in the given direction.
pub fn find_audio_ports(graph: &Graph, node_id: NodeId, source: bool, monitor: bool) -> (r: Option<
    (PortId, PortId),
>)
    ensures
        r == audio_pair(graph@, node_id, source, monitor),
{
    if graph.node(node_id).is_none() {
        return None;
    }
    if monitor {
        let tapped = monitor_ends(graph, node_id, source);
        if tapped.len() > 0 {
            proof {
                lemma_ends_exist(
                    graph@,
                    graph@.node(node_id).ports,
                    |p: PortId| audio_end(graph@, p, source) && monitor_port(graph@, p),
                );
            }
            return pair_from(graph, &tapped);
        }
    }
    let all = audio_ends(graph, node_id, source);
    proof {
        lemma_ends_exist(
            graph@,
            graph@.node(node_id).ports,
            |p: PortId| audio_end(graph@, p, source),
        );
    }
    pair_from(graph, &all)
}

/// An endpoint selector without the word for its kind.
pub open spec fn bare_selector(s: Seq<char>) -> Seq<char> {
    if begins_with(s, "input:"@) {
        s.subrange("input:"@.len() as int, s.len() as int)
    } else if begins_with(s, "monitor:"@) {
        s.subrange("monitor:"@.len() as int, s.len() as int)
    } else if begins_with(s, "output:"@) {
        s.subrange("output:"@.len() as int, s.len() as int)
    } else {
        s
    }
}

/// The serial number that a bare selector names.
pub open spec fn selector_serial(s: Seq<char>) -> Option<u64> {
    if begins_with(s, "serial:"@) {
        u64_value(s.subrange("serial:"@.len() as int, s.len() as int))
    } else {
        None
    }
}

fn strip_kind(selector: &str) -> (r: String)
    ensures
        r@ == bare_selector(selector@),
{
    match after_prefix(selector, "input:") {
        Some(rest) => rest,
        None => match after_prefix(selector, "monitor:") {
            Some(rest) => rest,
            None => match after_prefix(selector, "output:") {
                Some(rest) => rest,
                None => selector.to_owned(),
            },
        },
    }
}

fn serial_in(selector: &str) -> (r: Option<u64>)
    ensures
        r == selector_serial(selector@),
{
    match after_prefix(selector, "serial:") {
        Some(rest) => parse_u64(rest.as_str()),
        None => None,
    }
}

/// The mirror's name for a node of the graph.
pub open spec fn mirror_name(state: RegistryView, node: NodeId) -> Option<Seq<char>> {
    if state.nodes.contains_key(native_part(node.0) as u64) {
        Some(state.nodes[native_part(node.0) as u64].name)
    } else {
        None
    }
}

/// A node that a route may end at: none of the relay's own, with audio in the
/// given direction.
pub open spec fn routable(g: GraphView, n: NodeView, source: bool) -> bool {
    !relay_name(n.name) && faces(g, n.id, source)
}

/// The node goes by the name, in the graph or in the mirror, or has the serial
/// number.
pub open spec fn answers_to(
    state: RegistryView,
    n: NodeView,
    name: Seq<char>,
    serial: Option<u64>,
) -> bool {
    n.name == name || mirror_name(state, n.id) == Some(name) || (serial is Some && n.serial
        == serial)
}

/// The first routable node that a selector names.
pub open spec fn selected_node(
    g: GraphView,
    state: RegistryView,
    selector: Seq<char>,
    source: bool,
) -> Option<NodeId> {
    let bare = bare_selector(selector);
    opt_node(
        first_of(
            g.nodes,
            |n: NodeView|
                routable(g, n, source) && answers_to(state, n, bare, selector_serial(bare)),
        ),
    )
}

/// The first routable node that is the default device.
pub open spec fn default_node(
    g: GraphView,
    state: RegistryView,
    default: Option<DefaultDeviceView>,
    source: bool,
) -> Option<NodeId> {
    match default {
        None => None,
        Some(device) => opt_node(
            first_of(
                g.nodes,
                |n: NodeView|
                    routable(g, n, source) && answers_to(state, n, device.name, device.serial),
            ),
        ),
    }
}

fn mirror_name_is(state: &RegistryState, node: NodeId, name: &str) -> (r: bool)
    ensures
        r == (mirror_name(state@, node) == Some(name@)),
{
    match state.nodes.get(&(native_node_id(node) as u64)) {
        Some(record) => text_eq(record.name.as_str(), name),
        None => false,
    }
}

fn find_answering(
    graph: &Graph,
    state: &RegistryState,
    name: &str,
    serial: Option<u64>,
    source: bool,
) -> (r: Option<NodeId>)
    requires
        graph.wf(),
    ensures
        r == opt_node(
            first_of(
                graph@.nodes,
                |n: NodeView|
                    routable(graph@, n, source) && answers_to(state@, n, name@, serial),
            ),
        ),
        r matches Some(id) ==> graph@.has_node(id),
{
    let keys = node_keys(graph);
    let ghost p = |n: NodeView|
        routable(graph@, n, source) && answers_to(state@, n, name@, serial);
    let mut i: usize = 0;
    while i < keys.len()
        invariant
            i <= keys.len(),
            graph.wf(),
            lists_domain(keys@, graph@.nodes),
            p == (|n: NodeView|
                routable(graph@, n, source) && answers_to(state@, n, name@, serial)),
            forall|j: int| 0 <= j < i ==> !p(#[trigger] graph@.nodes[keys@[j]]),
        decreases keys.len() - i,
    {
        let k: u64 = keys[i];
        assert(keys@.contains(k));
        assert(graph@.nodes.contains_key(k));
        if let Some(node) = graph.node(NodeId(k)) {
            assert(node@.id == NodeId(k));
            let id = node.id;
            if !is_relay_device_node(node.name.as_str()) && node_has_audio_direction(
                graph,
                id,
                source,
            ) {
                let same_serial = match (serial, node.serial) {
                    (Some(a), Some(b)) => a == b,
                    _ => false,
                };
                if text_eq(node.name.as_str(), name) || mirror_name_is(state, id, name)
                    || same_serial {
                    proof {
                        lemma_first_found(keys@, graph@.nodes, p, i as int);
                    }
                    return Some(NodeId(k));
                }
            }
        }
        i = i + 1;
    }
    proof {
        lemma_none_found(keys@, graph@.nodes, p);
    }
    None
}

/// Finds the node that an endpoint selector names. A selector may begin with
/// the kind of its endpoint, and may name a serial number.
pub fn find_node(graph: &Graph, state: &RegistryState, selector: &str, source: bool) -> (r: Option<
    NodeId,
>)
    requires
        graph.wf(),
    ensures
        r == selected_node(graph@, state@, selector@, source),
        r matches Some(id) ==> graph@.has_node(id),
{
    let bare = strip_kind(selector);
    let serial = serial_in(bare.as_str());
    find_answering(graph, state, bare.as_str(), serial, source)
}

/// Finds the node of a default device.
pub fn find_default_node(
    graph: &Graph,
    state: &RegistryState,
    default: &Option<DefaultDevice>,
    source: bool,
) -> (r: Option<NodeId>)
    requires
        graph.wf(),
    ensures
        r == default_node(graph@, state@, crate::registry::opt_device(*default), source),
        r matches Some(id) ==> graph@.has_node(id),
{
    match default {
        None => None,
        Some(device) => find_answering(
            graph,
            state,
            device.name.as_str(),
            device.serial,
            source,
        ),
    }
}

/// The first record with a name has the class of a sink.
pub open spec fn named_class_is_sink(state: RegistryView, name: Seq<char>) -> bool {
    match first_of(state.nodes, |r: NodeRecordView| r.name == name) {
        Some(k) => class_is_sink(state.nodes[k].media_class),
        None => false,
    }
}

/// Whether the first record with a name has the class of a sink.
pub fn is_named_class_sink(state: &RegistryState, name: &str) -> (r: bool)
    ensures
        r == named_class_is_sink(state@, name@),
{
    let keys = keys_of(&state.nodes);
    assert(lists_domain(keys@, state@.nodes)) by {
        assert forall|k: u64| #[trigger] keys@.contains(k) <==> state@.nodes.contains_key(k) by {
            assert(keys@.contains(k) <==> state.nodes@.contains_key(k));
        }
    }
    let ghost p = |r: NodeRecordView| r.name == name@;
    let mut i: usize = 0;
    while i < keys.len()
        invariant
            i <= keys.len(),
            lists_domain(keys@, state@.nodes),
            p == (|r: NodeRecordView| r.name == name@),
            forall|j: int| 0 <= j < i ==> !p(#[trigger] state@.nodes[keys@[j]]),
        decreases keys.len() - i,
    {
        let k: u64 = keys[i];
        assert(keys@.contains(k));
        assert(state@.nodes.contains_key(k));
        if let Some(record) = state.nodes.get(&k) {
            if text_eq(record.name.as_str(), name) {
                proof {
                    lemma_first_found(keys@, state@.nodes, p, i as int);
                }
                return media_class_is_playback_sink(record.media_class.as_str());
            }
        }
        i = i + 1;
    }
    proof {
        lemma_none_found(keys@, state@.nodes, p);
    }
    false
}

/// The node has an input of any kind.
pub open spec fn takes_input(g: GraphView, n: NodeView) -> bool {
    some_in(n.ports, |p: PortId| g.has_port(p) && g.port(p).direction == Direction::Sink)
}

/// The node has an audio input.
pub open spec fn takes_audio(g: GraphView, n: NodeView) -> bool {
    some_in(n.ports, |p: PortId| audio_port(g, p, Direction::Sink))
}

/// Whether a node has an input; only audio inputs count where `audio_only`.
pub fn node_takes_input(graph: &Graph, node: NodeId, audio_only: bool) -> (r: bool)
    requires
        graph@.has_node(node),
    ensures
        r == (if audio_only {
            takes_audio(graph@, graph@.node(node))
        } else {
            takes_input(graph@, graph@.node(node))
        }),
{
    match graph.node(node) {
        None => false,
        Some(record) => {
            let ghost any = |p: PortId|
                graph@.has_port(p) && graph@.port(p).direction == Direction::Sink;
            let ghost audio = |p: PortId| audio_port(graph@, p, Direction::Sink);
            let mut i: usize = 0;
            while i < record.ports.len()
                invariant
                    i <= record.ports.len(),
                    graph@.has_node(node),
                    record@ == graph@.node(node),
                    any == (|p: PortId|
                        graph@.has_port(p) && graph@.port(p).direction == Direction::Sink),
                    audio == (|p: PortId| audio_port(graph@, p, Direction::Sink)),
                    !audio_only ==> forall|j: int| 0 <= j < i ==> !any(#[trigger] record.ports@[j]),
                    audio_only ==> forall|j: int| 0 <= j < i ==> !audio(
                        #[trigger] record.ports@[j],
                    ),
                decreases record.ports.len() - i,
            {
                if let Some(port) = graph.port(record.ports[i]) {
                    if port.direction.is_sink() && (!audio_only || port.port_type
                        == PortType::Audio) {
                        assert(any(record.ports@[i as int]));
                        assert(audio_only ==> audio(record.ports@[i as int]));
                        return true;
                    }
                }
                i = i + 1;
            }
            proof {
                if audio_only {
                    lemma_none_in(record.ports@, audio);
                } else {
                    lemma_none_in(record.ports@, any);
                }
            }
            false
        },
    }
}

/// At most one input of the node has the channel.
pub open spec fn channel_is_unique(g: GraphView, node: NodeId, channel: Seq<char>) -> bool {
    forall|p: PortId, q: PortId|
        #![trigger audio_end(g, p, false), audio_end(g, q, false)]
        g.node(node).ports.contains(p) && g.node(node).ports.contains(q) && audio_end(g, p, false)
            && audio_end(g, q, false) && g.port(p).channel == Some(channel) && g.port(q).channel
            == Some(channel) ==> p == q
}

/// Left and right are never decided by the order of a node's ports: where no
/// channel is given twice, a node with the same ports in another order has
/// the same inputs.
pub proof fn law_port_order_decides_nothing(g1: GraphView, g2: GraphView, sink: NodeId)
    requires
        g1.has_node(sink),
        g2.has_node(sink),
        g1.ports == g2.ports,
        g1.node(sink).ports.to_multiset() == g2.node(sink).ports.to_multiset(),
        channel_is_unique(g1, sink, "FL"@),
        channel_is_unique(g1, sink, "FR"@),
    ensures
        sink_inputs(g1, sink) == sink_inputs(g2, sink),
{
    broadcast use vstd::seq_lib::group_to_multiset_ensures;

    let pred = |p: PortId| audio_end(g1, p, false);
    let s = kept(g1.node(sink).ports, pred);
    let t = kept(g2.node(sink).ports, pred);
    assert(forall|p: PortId| audio_end(g1, p, false) == audio_end(g2, p, false));
    assert(pred =~= (|p: PortId| audio_end(g2, p, false)));
    assert(s.to_multiset() =~= t.to_multiset()) by {
        assert forall|x: PortId| s.to_multiset().count(x) == t.to_multiset().count(x) by {
            crate::lists::lemma_kept_counts(g1.node(sink).ports, pred, x);
            crate::lists::lemma_kept_counts(g2.node(sink).ports, pred, x);
        }
    }
    assert(s.len() == s.to_multiset().len());
    assert(t.len() == t.to_multiset().len());
    assert forall|x: PortId| #[trigger] s.contains(x) <==> t.contains(x) by {
        assert(s.contains(x) <==> s.to_multiset().count(x) > 0);
        assert(t.contains(x) <==> t.to_multiset().count(x) > 0);
    }
    if s.len() == 1 {
        assert(s.contains(s[0]));
        assert(t.contains(s[0]));
    }
    lemma_channel_of_permuted(g1, g2, sink, s, t, "FL"@);
    lemma_channel_of_permuted(g1, g2, sink, s, t, "FR"@);
}

proof fn lemma_channel_of_permuted(
    g1: GraphView,
    g2: GraphView,
    sink: NodeId,
    s: Seq<PortId>,
    t: Seq<PortId>,
    channel: Seq<char>,
)
    requires
        g1.ports == g2.ports,
        s == kept(g1.node(sink).ports, |p: PortId| audio_end(g1, p, false)),
        forall|x: PortId| #[trigger] s.contains(x) <==> t.contains(x),
        channel_is_unique(g1, sink, channel),
    ensures
        on_channel(g1, s, channel) == on_channel(g2, t, channel),
{
    let named = |p: PortId| g1.port(p).channel == Some(channel);
    assert(named =~= (|p: PortId| g2.port(p).channel == Some(channel)));
    assert forall|x: PortId, y: PortId|
        #![trigger s.contains(x), s.contains(y)]
        s.contains(x) && s.contains(y) && named(x) && named(y) implies x == y by {
        let pred = |p: PortId| audio_end(g1, p, false);
        crate::lists::lemma_kept_members(g1.node(sink).ports, pred, x);
        crate::lists::lemma_kept_members(g1.node(sink).ports, pred, y);
        assert(audio_end(g1, x, false) && audio_end(g1, y, false));
    }
    crate::lists::lemma_first_of_permuted(s, t, named);
}

/// The port is an audio end of the node: it gives where `source` is set, else
/// it takes, and it carries audio or what is not known.
pub open spec fn end_of(g: GraphView, node: NodeId, p: PortId, source: bool) -> bool {
    &&& g.has_port(p)
    &&& g.port(p).node_id == node
    &&& (g.port(p).direction == Direction::Source) == source
    &&& g.port(p).port_type == PortType::Audio || g.port(p).port_type == PortType::Unknown
}

/// The node has an audio end in the direction.
pub open spec fn has_end(g: GraphView, node: NodeId, source: bool) -> bool {
    exists|p: PortId| #[trigger] end_of(g, node, p, source)
}

/// The relay's devices are told by their two names.
pub proof fn law_relay_devices(name: Seq<char>)
    ensures
        relay_name(name) <==> name == "qpwgraph-rs.relay.source"@ || name
            == "qpwgraph-rs.relay.sink"@,
{
}

/// A node is found by its name: the first that bears it, and none just where
/// none does.
pub proof fn law_named_node(g: GraphView, name: Seq<char>)
    ensures
        match named_node(g, name) {
            Some(id) => g.has_node(id) && g.node(id).name == name && forall|k: u64| #[trigger]
                g.nodes.contains_key(k) && g.nodes[k].name == name ==> id.0 <= k,
            None => forall|k: u64| #[trigger] g.nodes.contains_key(k) ==> g.nodes[k].name != name,
        },
{
    let p = |n: NodeView| n.name == name;
    crate::table::law_first_of(g.nodes, p);
    match first_of(g.nodes, p) {
        Some(id) => {
            assert forall|k: u64| #[trigger]
                g.nodes.contains_key(k) && g.nodes[k].name == name implies id <= k by {
                assert(p(g.nodes[k]));
            }
        },
        None => {
            assert forall|k: u64| #[trigger] g.nodes.contains_key(k) implies g.nodes[k].name
                != name by {
                assert(!p(g.nodes[k]));
            }
        },
    }
}

/// The relay's audio comes from two different ports of its source device, the
/// left one and the right one. They are there where the device has a left and
/// a right port.
pub proof fn law_relay_outputs(g: GraphView, device: NodeId)
    requires
        g.wf(),
        named_node(g, "qpwgraph-rs.relay.source"@) == Some(device),
    ensures
        match relay_outputs(g) {
            Some((left, right)) => {
                &&& left != right
                &&& g.has_port(left) && g.port(left).node_id == device && g.port(left).direction
                    == Direction::Source
                &&& g.has_port(right) && g.port(right).node_id == device && g.port(right).direction
                    == Direction::Source
                &&& g.port(left).channel == Some("FL"@) || (g.port(left).channel != Some("FR"@)
                    && has_sub(g.port(left).name, "FL"@))
                &&& g.port(right).channel == Some("FR"@) || (g.port(right).channel != Some("FL"@)
                    && has_sub(g.port(right).name, "FR"@))
            },
            None => {
                ||| forall|p: PortId| #[trigger]
                    g.has_port(p) && g.port(p).node_id == device && g.port(p).direction
                        == Direction::Source ==> g.port(p).channel != Some("FL"@)
                ||| forall|p: PortId| #[trigger]
                    g.has_port(p) && g.port(p).node_id == device && g.port(p).direction
                        == Direction::Source ==> g.port(p).channel != Some("FR"@)
            },
        },
{
    reveal_strlit("FL");
    reveal_strlit("FR");
    assert("FL"@[1] != "FR"@[1]);
    law_named_node(g, "qpwgraph-rs.relay.source"@);
    let ports = g.node(device).ports;
    let l = |p: PortId| left_output(g, p);
    let r = |p: PortId| right_output(g, p);
    crate::lists::law_last_in(ports, l);
    crate::lists::law_last_in(ports, r);
    if let Some(left) = last_in(ports, l) {
        assert(ports.contains(left));
        crate::graph::law_ports_of_a_node(g, device, left);
    } else {
        assert forall|p: PortId| #[trigger]
            g.has_port(p) && g.port(p).node_id == device && g.port(p).direction
                == Direction::Source implies g.port(p).channel != Some("FL"@) by {
            crate::graph::law_ports_of_a_node(g, device, p);
            assert(!l(p));
        }
    }
    if let Some(right) = last_in(ports, r) {
        assert(ports.contains(right));
        crate::graph::law_ports_of_a_node(g, device, right);
    } else {
        assert forall|p: PortId| #[trigger]
            g.has_port(p) && g.port(p).node_id == device && g.port(p).direction
                == Direction::Source implies g.port(p).channel != Some("FR"@) by {
            crate::graph::law_ports_of_a_node(g, device, p);
            assert(!r(p));
        }
    }
}

/// Without the relay's source device there is no audio of the relay.
pub proof fn law_no_relay_no_outputs(g: GraphView)
    requires
        forall|k: u64| #[trigger]
            g.nodes.contains_key(k) ==> g.nodes[k].name != "qpwgraph-rs.relay.source"@,
    ensures
        relay_outputs(g) is None,
{
    law_named_node(g, "qpwgraph-rs.relay.source"@);
}

/// A sink takes stereo at its left and its right port, and mono at its only
/// port. With more ports of which none is left or none is right it takes
/// nothing, nor does a sink without ports.
pub proof fn law_sink_inputs(g: GraphView, sink: NodeId, a: PortId, b: PortId)
    requires
        g.wf(),
        g.has_node(sink),
    ensures
        match sink_inputs(g, sink) {
            Some((left, right)) => {
                &&& end_of(g, sink, left, false)
                &&& end_of(g, sink, right, false)
                &&& left != right ==> g.port(left).channel == Some("FL"@) && g.port(right).channel
                    == Some("FR"@)
                &&& left == right ==> forall|p: PortId| #[trigger]
                    end_of(g, sink, p, false) ==> p == left
            },
            None => true,
        },
        end_of(g, sink, a, false) && end_of(g, sink, b, false) && g.port(a).channel == Some("FL"@)
            && g.port(b).channel == Some("FR"@) ==> sink_inputs(g, sink) is Some,
        end_of(g, sink, a, false) && (forall|p: PortId| #[trigger]
            end_of(g, sink, p, false) ==> p == a) ==> sink_inputs(g, sink) == Some((a, a)),
        (forall|p: PortId| !#[trigger] end_of(g, sink, p, false)) ==> sink_inputs(g, sink) is None,
        end_of(g, sink, a, false) && end_of(g, sink, b, false) && a != b && (forall|p: PortId|
            #[trigger] end_of(g, sink, p, false) ==> g.port(p).channel != Some("FL"@))
            ==> sink_inputs(g, sink) is None,
        end_of(g, sink, a, false) && end_of(g, sink, b, false) && a != b && (forall|p: PortId|
            #[trigger] end_of(g, sink, p, false) ==> g.port(p).channel != Some("FR"@))
            ==> sink_inputs(g, sink) is None,
{
    reveal_strlit("FL");
    reveal_strlit("FR");
    assert("FL"@[1] != "FR"@[1]);
    let all = g.node(sink).ports;
    let p = |p: PortId| audio_end(g, p, false);
    let ports = kept(all, p);
    assert forall|x: PortId| ports.contains(x) <==> end_of(g, sink, x, false) by {
        crate::lists::lemma_kept_members(all, p, x);
        crate::graph::law_ports_of_a_node(g, sink, x);
    }
    crate::lists::lemma_kept_distinct(all, p);
    let l = |p: PortId| g.port(p).channel == Some("FL"@);
    let r = |p: PortId| g.port(p).channel == Some("FR"@);
    crate::lists::law_first_in(ports, l);
    crate::lists::law_first_in(ports, r);
    if ports.len() > 0 {
        assert(ports.contains(ports[0]));
        assert(end_of(g, sink, ports[0], false));
    }
    if ports.len() > 1 {
        assert(ports.contains(ports[1]));
        assert(end_of(g, sink, ports[1], false));
        assert(ports[0] != ports[1]);
    }
    if let Some(x) = on_channel(g, ports, "FL"@) {
        assert(ports.contains(x));
    }
    if let Some(x) = on_channel(g, ports, "FR"@) {
        assert(ports.contains(x));
    }
    if end_of(g, sink, a, false) {
        assert(ports.contains(a));
    }
    if end_of(g, sink, b, false) {
        assert(ports.contains(b));
    }
    if ports.len() == 1 {
        assert forall|q: PortId| #[trigger] end_of(g, sink, q, false) implies q == ports[0] by {
            assert(ports.contains(q));
        }
    }
}

/// The left or right port of an automatic route is told by its channel or its
/// name.
pub open spec fn tagged(g: GraphView, p: PortId, tag: Seq<char>) -> bool {
    g.port(p).channel == Some(tag) || has_sub(g.port(p).name, tag)
}

/// The ports of a node for a route are audio ends of that node; two different
/// ones are told left and right. Where a monitor is asked for and the node has
/// one, they are monitor ports.
pub proof fn law_audio_pairs(g: GraphView, node: NodeId, source: bool, monitor: bool, a: PortId)
    requires
        g.wf(),
    ensures
        match audio_pair(g, node, source, monitor) {
            Some((left, right)) => {
                &&& g.has_node(node)
                &&& end_of(g, node, left, source)
                &&& end_of(g, node, right, source)
                &&& left != right ==> tagged(g, left, "FL"@) && tagged(g, right, "FR"@)
                &&& monitor && (exists|p: PortId| #[trigger]
                    end_of(g, node, p, source) && has_sub(lower(g.port(p).name), "monitor"@))
                    ==> has_sub(lower(g.port(left).name), "monitor"@) && has_sub(
                    lower(g.port(right).name),
                    "monitor"@,
                )
                &&& left == right && !monitor ==> forall|p: PortId| #[trigger]
                    end_of(g, node, p, source) ==> p == left
            },
            None => true,
        },
        end_of(g, node, a, source) && (forall|p: PortId| #[trigger]
            end_of(g, node, p, source) ==> p == a) ==> audio_pair(g, node, source, monitor) == Some(
            (a, a),
        ),
        (forall|p: PortId| !#[trigger] end_of(g, node, p, source)) ==> audio_pair(
            g,
            node,
            source,
            monitor,
        ) is None,
{
    if end_of(g, node, a, source) {
        crate::graph::law_ports_of_a_node(g, node, a);
    }
    if g.has_node(node) {
        let all = g.node(node).ports;
        let p = |p: PortId| audio_end(g, p, source);
        let q = |p: PortId| audio_end(g, p, source) && monitor_port(g, p);
        let ends = kept(all, p);
        let taps = kept(all, q);
        assert forall|x: PortId| ends.contains(x) <==> end_of(g, node, x, source) by {
            crate::lists::lemma_kept_members(all, p, x);
            crate::graph::law_ports_of_a_node(g, node, x);
        }
        assert forall|x: PortId| taps.contains(x) <==> end_of(g, node, x, source) && has_sub(
            lower(g.port(x).name),
            "monitor"@,
        ) by {
            crate::lists::lemma_kept_members(all, q, x);
            crate::graph::law_ports_of_a_node(g, node, x);
        }
        crate::lists::lemma_kept_distinct(all, p);
        crate::lists::lemma_kept_distinct(all, q);
        lemma_stereo_pair(g, ends);
        lemma_stereo_pair(g, taps);
        if ends.len() > 0 {
            assert(ends.contains(ends[0]));
        }
        if ends.len() > 1 {
            assert(ends.contains(ends[1]));
            assert(ends[0] != ends[1]);
        }
        if taps.len() > 0 {
            assert(taps.contains(taps[0]));
        }
        if taps.len() > 1 {
            assert(taps.contains(taps[1]));
            assert(taps[0] != taps[1]);
        }
        if exists|x: PortId| #[trigger]
            end_of(g, node, x, source) && has_sub(lower(g.port(x).name), "monitor"@) {
            let x = choose|x: PortId| #[trigger]
                end_of(g, node, x, source) && has_sub(lower(g.port(x).name), "monitor"@);
            assert(taps.contains(x));
        }
        if end_of(g, node, a, source) {
            assert(ends.contains(a));
        }
        if ends.len() == 1 {
            assert forall|x: PortId| #[trigger] end_of(g, node, x, source) implies x
                == ends[0] by {
                assert(ends.contains(x));
            }
        }
    }
}

proof fn lemma_stereo_pair(g: GraphView, ports: Seq<PortId>)
    requires
        ports.no_duplicates(),
    ensures
        match stereo_pair(g, ports) {
            Some((left, right)) => {
                &&& ports.contains(left)
                &&& ports.contains(right)
                &&& left == right <==> ports.len() == 1
                &&& left != right ==> tagged(g, left, "FL"@) && tagged(g, right, "FR"@)
            },
            None => ports.len() != 1,
        },
{
    let l = |p: PortId| g.port(p).channel == Some("FL"@) || has_sub(g.port(p).name, "FL"@);
    let r = |p: PortId| g.port(p).channel == Some("FR"@) || has_sub(g.port(p).name, "FR"@);
    crate::lists::law_first_in(ports, l);
    crate::lists::law_first_in(ports, r);
    if ports.len() == 1 {
        assert(ports.contains(ports[0]));
    }
    if let Some(x) = left_of(g, ports) {
        assert(ports.contains(x));
    }
    if let Some(x) = right_of(g, ports) {
        assert(ports.contains(x));
    }
}

/// A node faces a direction exactly where it has an audio end there.
pub proof fn law_facing(g: GraphView, node: NodeId, source: bool)
    requires
        g.wf(),
    ensures
        faces(g, node, source) <==> exists|p: PortId| #[trigger] end_of(g, node, p, source),
{
    let p = |p: PortId| audio_end(g, p, source);
    if faces(g, node, source) {
        let ports = g.node(node).ports;
        let i = choose|i: int| 0 <= i < ports.len() && p(#[trigger] ports[i]);
        assert(ports.contains(ports[i]));
        crate::graph::law_ports_of_a_node(g, node, ports[i]);
        assert(end_of(g, node, ports[i], source));
    }
    if exists|p: PortId| #[trigger] end_of(g, node, p, source) {
        let x = choose|p: PortId| #[trigger] end_of(g, node, p, source);
        crate::graph::law_ports_of_a_node(g, node, x);
        let ports = g.node(node).ports;
        let i = choose|i: int| 0 <= i < ports.len() && ports[i] == x;
        assert(p(ports[i]));
    }
}

/// A selector is what stands behind its kind, and itself without one. A serial
/// is written behind its own word.
pub proof fn law_selectors(rest: Seq<char>, n: u64)
    ensures
        bare_selector("input:"@ + rest) == rest,
        bare_selector("monitor:"@ + rest) == rest,
        bare_selector("output:"@ + rest) == rest,
        !begins_with(rest, "input:"@) && !begins_with(rest, "monitor:"@) && !begins_with(
            rest,
            "output:"@,
        ) ==> bare_selector(rest) == rest,
        selector_serial("serial:"@ + crate::text::decimal(n as nat)) == Some(n),
        !begins_with(rest, "serial:"@) ==> selector_serial(rest) is None,
{
    reveal_strlit("input:");
    reveal_strlit("monitor:");
    reveal_strlit("output:");
    reveal_strlit("serial:");
    lemma_behind("input:"@, rest);
    lemma_behind("monitor:"@, rest);
    lemma_behind("output:"@, rest);
    lemma_behind("serial:"@, crate::text::decimal(n as nat));
    crate::text::law_decimal_is_read_back(n);
    let m = "monitor:"@ + rest;
    let o = "output:"@ + rest;
    assert(m[0] == 'm');
    assert(o[0] == 'o');
    if begins_with(m, "input:"@) {
        assert(m.subrange(0, 6)[0] == 'i');
    }
    if begins_with(o, "input:"@) {
        assert(o.subrange(0, 6)[0] == 'i');
    }
    if begins_with(o, "monitor:"@) {
        assert(o.subrange(0, 8)[0] == 'm');
    }
}

proof fn lemma_behind(head: Seq<char>, rest: Seq<char>)
    ensures
        begins_with(head + rest, head),
        (head + rest).subrange(head.len() as int, (head + rest).len() as int) == rest,
{
    let s = head + rest;
    assert(s.subrange(0, head.len() as int) =~= head);
    assert(s.subrange(head.len() as int, s.len() as int) =~= rest);
}

/// The node answers to a name or a serial: it bears the name in the graph or
/// in the mirror, or bears the serial.
pub open spec fn goes_by(
    state: RegistryView,
    n: NodeView,
    name: Seq<char>,
    serial: Option<u64>,
) -> bool {
    ||| n.name == name
    ||| state.nodes.contains_key(native_part(n.id.0) as u64) && state.nodes[native_part(
        n.id.0,
    ) as u64].name == name
    ||| serial is Some && n.serial == serial
}

/// The node can be the outer end of a route: it is none of the relay's devices
/// and has an audio end.
pub open spec fn outer_end(g: GraphView, n: NodeView, source: bool) -> bool {
    &&& n.name != "qpwgraph-rs.relay.source"@
    &&& n.name != "qpwgraph-rs.relay.sink"@
    &&& exists|p: PortId| #[trigger] end_of(g, n.id, p, source)
}

/// A selector finds the first node outside the relay that has audio ends in
/// the direction and goes by what the selector says, and none just where there
/// is none.
pub proof fn law_selected_node(
    g: GraphView,
    state: RegistryView,
    selector: Seq<char>,
    source: bool,
)
    requires
        g.wf(),
    ensures
        ({
            let name = bare_selector(selector);
            let serial = selector_serial(name);
            match selected_node(g, state, selector, source) {
                Some(id) => {
                    &&& g.has_node(id)
                    &&& outer_end(g, g.node(id), source)
                    &&& goes_by(state, g.node(id), name, serial)
                    &&& forall|k: u64| #[trigger]
                        g.nodes.contains_key(k) && outer_end(g, g.nodes[k], source) && goes_by(
                            state,
                            g.nodes[k],
                            name,
                            serial,
                        ) ==> id.0 <= k
                },
                None => forall|k: u64| #[trigger]
                    g.nodes.contains_key(k) && outer_end(g, g.nodes[k], source) ==> !goes_by(
                        state,
                        g.nodes[k],
                        name,
                        serial,
                    ),
            }
        }),
{
    let name = bare_selector(selector);
    lemma_answering(g, state, name, selector_serial(name), source);
}

/// The default device is found in the same way by its name and serial; without
/// a default device there is none.
pub proof fn law_default_node(
    g: GraphView,
    state: RegistryView,
    device: DefaultDeviceView,
    source: bool,
)
    requires
        g.wf(),
    ensures
        default_node(g, state, None, source) is None,
        match default_node(g, state, Some(device), source) {
            Some(id) => {
                &&& g.has_node(id)
                &&& outer_end(g, g.node(id), source)
                &&& goes_by(state, g.node(id), device.name, device.serial)
                &&& forall|k: u64| #[trigger]
                    g.nodes.contains_key(k) && outer_end(g, g.nodes[k], source) && goes_by(
                        state,
                        g.nodes[k],
                        device.name,
                        device.serial,
                    ) ==> id.0 <= k
            },
            None => forall|k: u64| #[trigger]
                g.nodes.contains_key(k) && outer_end(g, g.nodes[k], source) ==> !goes_by(
                    state,
                    g.nodes[k],
                    device.name,
                    device.serial,
                ),
        },
{
    lemma_answering(g, state, device.name, device.serial, source);
}

proof fn lemma_answering(
    g: GraphView,
    state: RegistryView,
    name: Seq<char>,
    serial: Option<u64>,
    source: bool,
)
    requires
        g.wf(),
    ensures
        ({
            let p = |n: NodeView| routable(g, n, source) && answers_to(state, n, name, serial);
            match first_of(g.nodes, p) {
                Some(id) => {
                    &&& g.nodes.contains_key(id)
                    &&& outer_end(g, g.nodes[id], source)
                    &&& goes_by(state, g.nodes[id], name, serial)
                    &&& forall|k: u64| #[trigger]
                        g.nodes.contains_key(k) && outer_end(g, g.nodes[k], source) && goes_by(
                            state,
                            g.nodes[k],
                            name,
                            serial,
                        ) ==> id <= k
                },
                None => forall|k: u64| #[trigger]
                    g.nodes.contains_key(k) && outer_end(g, g.nodes[k], source) ==> !goes_by(
                        state,
                        g.nodes[k],
                        name,
                        serial,
                    ),
            }
        }),
{
    let p = |n: NodeView| routable(g, n, source) && answers_to(state, n, name, serial);
    crate::table::law_first_of(g.nodes, p);
    assert forall|k: u64| #[trigger] g.nodes.contains_key(k) implies p(g.nodes[k]) == (outer_end(
        g,
        g.nodes[k],
        source,
    ) && goes_by(state, g.nodes[k], name, serial)) by {
        law_facing(g, g.nodes[k].id, source);
    }
}

/// The mirror says by its class that a node of this name is a sink: that of
/// the first node of the name.
pub open spec fn classed_as_sink(state: RegistryView, name: Seq<char>) -> bool {
    exists|k: u64| #[trigger]
        state.nodes.contains_key(k) && state.nodes[k].name == name && (forall|j: u64| #[trigger]
            state.nodes.contains_key(j) && state.nodes[j].name == name ==> k <= j) && has_sub(
            lower(state.nodes[k].media_class),
            "sink"@,
        )
}

/// A name is that of a sink exactly where the mirror classes it as one.
pub proof fn law_classed_sinks(state: RegistryView, name: Seq<char>)
    ensures
        named_class_is_sink(state, name) <==> classed_as_sink(state, name),
{
    let p = |r: NodeRecordView| r.name == name;
    crate::table::law_first_of(state.nodes, p);
    match first_of(state.nodes, p) {
        Some(k) => {
            assert(state.nodes.contains_key(k));
            assert forall|j: u64| #[trigger]
                state.nodes.contains_key(j) && state.nodes[j].name == name implies k <= j by {
                assert(p(state.nodes[j]));
            }
            if classed_as_sink(state, name) {
                let m = choose|m: u64| #[trigger]
                    state.nodes.contains_key(m) && state.nodes[m].name == name && (forall|j: u64|
                        #[trigger] state.nodes.contains_key(j) && state.nodes[j].name == name ==> m
                            <= j) && has_sub(lower(state.nodes[m].media_class), "sink"@);
                assert(m <= k);
                assert(k <= m);
            }
        },
        None => {
            assert forall|k: u64| #[trigger] state.nodes.contains_key(k) implies state.nodes[k].name
                != name by {
                assert(!p(state.nodes[k]));
            }
        },
    }
}

/// A node takes something in exactly where one of its ports does, and takes
/// audio exactly where one of those carries audio.
pub proof fn law_taking_nodes(g: GraphView, node: NodeId)
    requires
        g.wf(),
        g.has_node(node),
    ensures
        takes_input(g, g.node(node)) <==> exists|p: PortId| #[trigger]
            g.has_port(p) && g.port(p).node_id == node && g.port(p).direction == Direction::Sink,
        takes_audio(g, g.node(node)) <==> exists|p: PortId| #[trigger]
            g.has_port(p) && g.port(p).node_id == node && g.port(p).direction == Direction::Sink
                && g.port(p).port_type == PortType::Audio,
{
    let ports = g.node(node).ports;
    let a = |p: PortId| g.has_port(p) && g.port(p).direction == Direction::Sink;
    let b = |p: PortId| audio_port(g, p, Direction::Sink);
    assert forall|p: PortId| ports.contains(p) <==> #[trigger] g.has_port(p) && g.port(p).node_id
        == node by {
        crate::graph::law_ports_of_a_node(g, node, p);
    }
    if takes_input(g, g.node(node)) {
        let i = choose|i: int| 0 <= i < ports.len() && a(#[trigger] ports[i]);
        assert(ports.contains(ports[i]));
        assert(g.has_port(ports[i]));
    }
    if takes_audio(g, g.node(node)) {
        let i = choose|i: int| 0 <= i < ports.len() && b(#[trigger] ports[i]);
        assert(ports.contains(ports[i]));
        assert(g.has_port(ports[i]));
    }
    if exists|p: PortId| #[trigger]
        g.has_port(p) && g.port(p).node_id == node && g.port(p).direction == Direction::Sink {
        let p = choose|p: PortId| #[trigger]
            g.has_port(p) && g.port(p).node_id == node && g.port(p).direction == Direction::Sink;
        assert(ports.contains(p));
        let i = choose|i: int| 0 <= i < ports.len() && ports[i] == p;
        assert(a(ports[i]));
    }
    if exists|p: PortId| #[trigger]
        g.has_port(p) && g.port(p).node_id == node && g.port(p).direction == Direction::Sink
            && g.port(p).port_type == PortType::Audio {
        let p = choose|p: PortId| #[trigger]
            g.has_port(p) && g.port(p).node_id == node && g.port(p).direction == Direction::Sink
                && g.port(p).port_type == PortType::Audio;
        assert(ports.contains(p));
        let i = choose|i: int| 0 <= i < ports.len() && ports[i] == p;
        assert(b(ports[i]));
    }
}

/// A node whose one left end and one right end are told by their channels is
/// connected by these two, left first. With two ends and no left one, or no
/// right one, it is not connected at all.
pub proof fn law_stereo_nodes(g: GraphView, node: NodeId, source: bool, a: PortId, b: PortId)
    requires
        g.wf(),
        end_of(g, node, a, source),
        end_of(g, node, b, source),
        a != b,
    ensures
        g.port(a).channel == Some("FL"@) && g.port(b).channel == Some("FR"@) && (forall|p: PortId|
            #[trigger] end_of(g, node, p, source) ==> (tagged(g, p, "FL"@) ==> p == a) && (tagged(
                g,
                p,
                "FR"@,
            ) ==> p == b)) ==> audio_pair(g, node, source, false) == Some((a, b)),
        (forall|p: PortId| #[trigger] end_of(g, node, p, source) ==> !tagged(g, p, "FL"@))
            ==> audio_pair(g, node, source, false) is None,
        (forall|p: PortId| #[trigger] end_of(g, node, p, source) ==> !tagged(g, p, "FR"@))
            ==> audio_pair(g, node, source, false) is None,
{
    crate::graph::law_ports_of_a_node(g, node, a);
    crate::graph::law_ports_of_a_node(g, node, b);
    let all = g.node(node).ports;
    let p = |p: PortId| audio_end(g, p, source);
    let ends = kept(all, p);
    assert forall|x: PortId| ends.contains(x) <==> end_of(g, node, x, source) by {
        crate::lists::lemma_kept_members(all, p, x);
        crate::graph::law_ports_of_a_node(g, node, x);
    }
    crate::lists::lemma_two_kept(all, p, a, b);
    let l = |p: PortId| g.port(p).channel == Some("FL"@) || has_sub(g.port(p).name, "FL"@);
    let r = |p: PortId| g.port(p).channel == Some("FR"@) || has_sub(g.port(p).name, "FR"@);
    crate::lists::law_first_in(ends, l);
    crate::lists::law_first_in(ends, r);
    assert(ends.contains(a) && ends.contains(b));
    if let Some(x) = left_of(g, ends) {
        assert(ends.contains(x));
        assert(tagged(g, x, "FL"@));
    }
    if let Some(x) = right_of(g, ends) {
        assert(ends.contains(x));
        assert(tagged(g, x, "FR"@));
    }
}

/// The relay microphone's one left and one right output are its outputs.
pub proof fn law_outputs_of_the_relay(g: GraphView, device: NodeId, a: PortId, b: PortId)
    requires
        g.wf(),
        named_node(g, "qpwgraph-rs.relay.source"@) == Some(device),
        g.has_port(a) && g.port(a).node_id == device && g.port(a).direction == Direction::Source,
        g.has_port(b) && g.port(b).node_id == device && g.port(b).direction == Direction::Source,
        g.port(a).channel == Some("FL"@),
        g.port(b).channel == Some("FR"@),
        forall|p: PortId| #[trigger]
            g.has_port(p) && g.port(p).node_id == device ==> p == a || p == b,
    ensures
        relay_outputs(g) == Some((a, b)),
{
    reveal_strlit("FL");
    reveal_strlit("FR");
    assert("FL"@[1] != "FR"@[1]);
    law_relay_outputs(g, device);
}

} // verus!
