//! What the streams and filters of this program tell the media server about
//! themselves: lists of keys and values, in the order in which they are sent.
use crate::metering::MeterStream;
use crate::relay_callback::RelayNodeKind;
use crate::relay_ports::{RELAY_SINK_NAME, RELAY_SOURCE_NAME};
use vstd::prelude::*;

verus! {

/// The contents of a list of properties.
pub open spec fn told(properties: Seq<(String, String)>) -> Seq<(Seq<char>, Seq<char>)> {
    properties.map_values(|entry: (String, String)| (entry.0@, entry.1@))
}

fn tell(properties: &mut Vec<(String, String)>, key: &str, value: &str)
    ensures
        told(final(properties)@) == told(old(properties)@).push((key@, value@)),
{
    let ghost before = properties@;
    properties.push((key.to_owned(), value.to_owned()));
    assert(told(properties@) =~= told(before).push((key@, value@)));
}

fn nothing_told() -> (r: Vec<(String, String)>)
    ensures
        told(r@) == Seq::<(Seq<char>, Seq<char>)>::empty(),
{
    let properties: Vec<(String, String)> = Vec::new();
    assert(told(properties@) =~= Seq::<(Seq<char>, Seq<char>)>::empty());
    properties
}

/// What a metering stream says in any case: it only looks on, and it is never
/// moved to another object.
pub open spec fn meter_says(
    name: Seq<char>,
    description: Seq<char>,
    target: Seq<char>,
) -> Seq<(Seq<char>, Seq<char>)> {
    seq![
        ("node.name"@, name),
        ("node.description"@, description),
        ("media.type"@, "Audio"@),
        ("media.category"@, "Capture"@),
        ("media.role"@, "DSP"@),
        ("media.class"@, "Stream/Input/Audio"@),
        ("stream.monitor"@, "true"@),
        ("node.passive"@, "true"@),
        ("node.dont-reconnect"@, "true"@),
        ("stream.dont-remix"@, "true"@),
        ("target.object"@, target),
    ]
}

/// The properties of a metering stream. One that measures an output reads what
/// is played there.
pub fn meter_properties(stream: &MeterStream) -> (r: Vec<(String, String)>)
    ensures
        told(r@) == (if stream.capture_sink {
            meter_says(stream.name@, stream.description@, stream.target@).push(
                ("stream.capture.sink"@, "true"@),
            )
        } else {
            meter_says(stream.name@, stream.description@, stream.target@)
        }),
{
    let mut properties = nothing_told();
    tell(&mut properties, "node.name", stream.name.as_str());
    tell(&mut properties, "node.description", stream.description.as_str());
    tell(&mut properties, "media.type", "Audio");
    tell(&mut properties, "media.category", "Capture");
    tell(&mut properties, "media.role", "DSP");
    tell(&mut properties, "media.class", "Stream/Input/Audio");
    tell(&mut properties, "stream.monitor", "true");
    tell(&mut properties, "node.passive", "true");
    tell(&mut properties, "node.dont-reconnect", "true");
    tell(&mut properties, "stream.dont-remix", "true");
    tell(&mut properties, "target.object", stream.target.as_str());
    assert(told(properties@) =~= meter_says(
        stream.name@,
        stream.description@,
        stream.target@,
    ));
    if stream.capture_sink {
        tell(&mut properties, "stream.capture.sink", "true");
    }
    properties
}

/// The properties of a recording stream.
pub fn recorder_properties(name: &str) -> (r: Vec<(String, String)>)
    ensures
        told(r@) == seq![
            ("node.name"@, name@),
            ("node.description"@, "qpwgraph audio recorder"@),
            ("media.type"@, "Audio"@),
            ("media.category"@, "Capture"@),
            ("media.role"@, "Recording"@),
            ("media.class"@, "Stream/Input/Audio"@),
            ("node.dont-reconnect"@, "true"@),
            ("stream.dont-remix"@, "true"@),
        ],
{
    let mut properties = nothing_told();
    tell(&mut properties, "node.name", name);
    tell(&mut properties, "node.description", "qpwgraph audio recorder");
    tell(&mut properties, "media.type", "Audio");
    tell(&mut properties, "media.category", "Capture");
    tell(&mut properties, "media.role", "Recording");
    tell(&mut properties, "media.class", "Stream/Input/Audio");
    tell(&mut properties, "node.dont-reconnect", "true");
    tell(&mut properties, "stream.dont-remix", "true");
    properties
}

/// The properties of the filter of an effect: it is patched by hand, and never
/// led to a default device.
pub fn effect_properties(node_name: &str, instance_id: &str, effect_id: &str) -> (r: Vec<
    (String, String),
>)
    ensures
        told(r@) == seq![
            ("node.name"@, node_name@),
            ("node.description"@, node_name@),
            ("media.type"@, "Audio"@),
            ("media.category"@, "Filter"@),
            ("media.role"@, "DSP"@),
            ("media.class"@, "Audio/Filter"@),
            ("node.virtual"@, "true"@),
            ("node.autoconnect"@, "false"@),
            ("node.group"@, "qpwgraph-rs"@),
            ("qpwgraph-rs.effect.instance"@, instance_id@),
            ("qpwgraph-rs.effect.id"@, effect_id@),
        ],
{
    let mut properties = nothing_told();
    tell(&mut properties, "node.name", node_name);
    tell(&mut properties, "node.description", node_name);
    tell(&mut properties, "media.type", "Audio");
    tell(&mut properties, "media.category", "Filter");
    tell(&mut properties, "media.role", "DSP");
    tell(&mut properties, "media.class", "Audio/Filter");
    tell(&mut properties, "node.virtual", "true");
    tell(&mut properties, "node.autoconnect", "false");
    tell(&mut properties, "node.group", "qpwgraph-rs");
    tell(&mut properties, "qpwgraph-rs.effect.instance", instance_id);
    tell(&mut properties, "qpwgraph-rs.effect.id", effect_id);
    properties
}

/// The properties of a node of the relay.
pub fn relay_properties(kind: RelayNodeKind) -> (r: Vec<(String, String)>)
    ensures
        told(r@) == (match kind {
            RelayNodeKind::Microphone => seq![
                ("node.name"@, RELAY_SOURCE_NAME@),
                ("node.description"@, "Relay Microphone"@),
                ("media.type"@, "Audio"@),
                ("media.class"@, "Audio/Source/Virtual"@),
                ("node.virtual"@, "true"@),
                ("node.autoconnect"@, "false"@),
                ("node.group"@, "qpwgraph-rs"@),
                ("device.icon-name"@, "audio-input-microphone"@),
                ("qpwgraph-rs.relay.kind"@, "source"@),
            ],
            RelayNodeKind::Speaker => seq![
                ("node.name"@, RELAY_SINK_NAME@),
                ("node.description"@, "Relay Speaker"@),
                ("media.type"@, "Audio"@),
                ("media.class"@, "Audio/Sink"@),
                ("node.virtual"@, "true"@),
                ("node.autoconnect"@, "false"@),
                ("node.group"@, "qpwgraph-rs"@),
                ("device.icon-name"@, "audio-card"@),
                ("qpwgraph-rs.relay.kind"@, "sink"@),
            ],
        }),
{
    let microphone: bool = matches!(kind, RelayNodeKind::Microphone);
    let mut properties = nothing_told();
    if microphone {
        tell(&mut properties, "node.name", RELAY_SOURCE_NAME);
        tell(&mut properties, "node.description", "Relay Microphone");
        tell(&mut properties, "media.type", "Audio");
        tell(&mut properties, "media.class", "Audio/Source/Virtual");
    } else {
        tell(&mut properties, "node.name", RELAY_SINK_NAME);
        tell(&mut properties, "node.description", "Relay Speaker");
        tell(&mut properties, "media.type", "Audio");
        tell(&mut properties, "media.class", "Audio/Sink");
    }
    tell(&mut properties, "node.virtual", "true");
    tell(&mut properties, "node.autoconnect", "false");
    tell(&mut properties, "node.group", "qpwgraph-rs");
    if microphone {
        tell(&mut properties, "device.icon-name", "audio-input-microphone");
        tell(&mut properties, "qpwgraph-rs.relay.kind", "source");
    } else {
        tell(&mut properties, "device.icon-name", "audio-card");
        tell(&mut properties, "qpwgraph-rs.relay.kind", "sink");
    }
    properties
}

} // verus!
