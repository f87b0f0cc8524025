//! The mirror of the daemon's registry.
//!
//! The daemon announces every client, device, node, port and link as a
//! "global" with text properties, and withdraws it by its number. The mirror
//! records what was announced; the graph is built from it.
use crate::json::{json_document, json_member, parse_json, JsonDocument, JsonDocumentView, JsonMember, JsonMemberView};
use crate::lists::{kept, lemma_kept_members, lemma_kept_step};
use crate::model::{opt_text, Direction, PortType};
use crate::text::{
    has_sub, lower, lower_contains, parse_u64, text_eq, trim, trim_char, trimmed, u64_value,
    without_end, without_start,
};
use std::collections::BTreeMap;
use vstd::prelude::*;

verus! {

broadcast use vstd::std_specs::btree::group_btree_axioms;

/// The text properties of a global, in the order in which they were sent.
#[derive(Debug, PartialEq, Eq)]
pub struct Properties {
    pub entries: Vec<(String, String)>,
}

/// The value under a key: that of its first entry.
pub open spec fn lookup(entries: Seq<(String, String)>, key: Seq<char>) -> Option<Seq<char>>
    decreases entries.len(),
{
    if entries.len() == 0 {
        None
    } else if entries[0].0@ == key {
        Some(entries[0].1@)
    } else {
        lookup(entries.subrange(1, entries.len() as int), key)
    }
}

impl Properties {
    pub open spec fn spec_get(&self, key: Seq<char>) -> Option<Seq<char>> {
        lookup(self.entries@, key)
    }

    /// The value under a key.
    pub fn get(&self, key: &str) -> (r: Option<String>)
        ensures
            opt_text(r) == self.spec_get(key@),
    {
        let mut i: usize = 0;
        assert(self.entries@.subrange(0, self.entries@.len() as int) == self.entries@);
        while i < self.entries.len()
            invariant
                i <= self.entries.len(),
                lookup(self.entries@, key@) == lookup(
                    self.entries@.subrange(i as int, self.entries@.len() as int),
                    key@,
                ),
            decreases self.entries.len() - i,
        {
            let ghost rest = self.entries@.subrange(i as int, self.entries@.len() as int);
            assert(rest[0] == self.entries@[i as int]);
            if text_eq(self.entries[i].0.as_str(), key) {
                return Some(self.entries[i].1.clone());
            }
            assert(rest.subrange(1, rest.len() as int) == self.entries@.subrange(
                i + 1,
                self.entries@.len() as int,
            ));
            i = i + 1;
        }
        None
    }
}

/// The first of two optional texts that is present.
pub open spec fn either(a: Option<Seq<char>>, b: Option<Seq<char>>) -> Option<Seq<char>> {
    if a is Some {
        a
    } else {
        b
    }
}

/// An optional text, or a fixed one where it is absent.
pub open spec fn text_or(a: Option<Seq<char>>, b: Seq<char>) -> Seq<char> {
    match a {
        Some(s) => s,
        None => b,
    }
}

fn either_text(a: Option<String>, b: Option<String>) -> (r: Option<String>)
    ensures
        opt_text(r) == either(opt_text(a), opt_text(b)),
{
    if a.is_some() {
        a
    } else {
        b
    }
}

fn text_or_else(a: Option<String>, b: &str) -> (r: String)
    ensures
        r@ == text_or(opt_text(a), b@),
{
    match a {
        Some(s) => s,
        None => b.to_owned(),
    }
}

/// A property without the white space around it; an empty one counts as
/// absent.
pub open spec fn non_empty(value: Option<Seq<char>>) -> Option<Seq<char>> {
    match value {
        Some(s) if trimmed(s).len() > 0 => Some(trimmed(s)),
        _ => None,
    }
}

pub fn non_empty_property(value: Option<&str>) -> (r: Option<String>)
    ensures
        opt_text(r) == non_empty(
            match value {
                Some(s) => Some(s@),
                None => None,
            },
        ),
{
    match value {
        Some(s) => {
            let inner = trim(s);
            if inner.as_str().is_empty() {
                None
            } else {
                Some(inner)
            }
        },
        None => None,
    }
}

fn non_empty_owned(value: Option<String>) -> (r: Option<String>)
    ensures
        opt_text(r) == non_empty(opt_text(value)),
{
    match value {
        Some(s) => non_empty_property(Some(s.as_str())),
        None => None,
    }
}

/// The unsigned 64-bit number that a property holds.
pub open spec fn number_of(value: Option<Seq<char>>) -> Option<u64> {
    match value {
        Some(s) => u64_value(s),
        None => None,
    }
}

/// The unsigned 32-bit number that a property holds.
pub open spec fn small_number_of(value: Option<Seq<char>>) -> Option<u32> {
    match number_of(value) {
        Some(n) if n <= u32::MAX => Some(n as u32),
        _ => None,
    }
}

fn parse_number(value: Option<String>) -> (r: Option<u64>)
    ensures
        r == number_of(opt_text(value)),
{
    match value {
        Some(s) => parse_u64(s.as_str()),
        None => None,
    }
}

fn parse_small_number(value: Option<String>) -> (r: Option<u32>)
    ensures
        r == small_number_of(opt_text(value)),
{
    match parse_number(value) {
        Some(n) => if n <= u32::MAX as u64 {
            Some(n as u32)
        } else {
            None
        },
        None => None,
    }
}

/// What is known about a client.
#[derive(Debug, PartialEq, Eq)]
pub struct ClientRecord {
    pub application_id: Option<String>,
    pub application_name: Option<String>,
    pub icon_name: Option<String>,
    pub process_binary: Option<String>,
    pub client_name: Option<String>,
    pub client_api: Option<String>,
}

/// What is known about a device.
#[derive(Debug, PartialEq, Eq)]
pub struct DeviceRecord {
    pub icon_name: Option<String>,
}

/// What is known about a node.
#[derive(Debug, PartialEq, Eq)]
pub struct NodeRecord {
    pub name: String,
    pub media_class: String,
    pub description: Option<String>,
    pub serial: Option<u64>,
    pub application_id: Option<String>,
    pub application_name: Option<String>,
    pub icon_name: Option<String>,
    pub process_binary: Option<String>,
    pub media_role: Option<String>,
    pub media_name: Option<String>,
    pub client_id: Option<u32>,
    pub device_id: Option<u32>,
    pub client_name: Option<String>,
    pub client_api: Option<String>,
    pub object_path: Option<String>,
}

/// What is known about a port.
#[derive(Debug, PartialEq, Eq)]
pub struct PortRecord {
    pub node_id: u32,
    pub name: String,
    pub channel: Option<String>,
    pub direction: Direction,
    pub media_type: String,
}

/// What is known about a link.
#[derive(Clone, Copy, Debug, PartialEq, Eq, Structural)]
pub struct LinkRecord {
    pub output_port: u32,
    pub input_port: u32,
}

/// A default device as the session manager names it.
#[derive(Debug, PartialEq, Eq)]
pub struct DefaultDevice {
    pub name: String,
    pub serial: Option<u64>,
}

/// The contents of a [`ClientRecord`].
pub struct ClientRecordView {
    pub application_id: Option<Seq<char>>,
    pub application_name: Option<Seq<char>>,
    pub icon_name: Option<Seq<char>>,
    pub process_binary: Option<Seq<char>>,
    pub client_name: Option<Seq<char>>,
    pub client_api: Option<Seq<char>>,
}

/// The contents of a [`DeviceRecord`].
pub struct DeviceRecordView {
    pub icon_name: Option<Seq<char>>,
}

/// The contents of a [`NodeRecord`].
pub struct NodeRecordView {
    pub name: Seq<char>,
    pub media_class: Seq<char>,
    pub description: Option<Seq<char>>,
    pub serial: Option<u64>,
    pub application_id: Option<Seq<char>>,
    pub application_name: Option<Seq<char>>,
    pub icon_name: Option<Seq<char>>,
    pub process_binary: Option<Seq<char>>,
    pub media_role: Option<Seq<char>>,
    pub media_name: Option<Seq<char>>,
    pub client_id: Option<u32>,
    pub device_id: Option<u32>,
    pub client_name: Option<Seq<char>>,
    pub client_api: Option<Seq<char>>,
    pub object_path: Option<Seq<char>>,
}

/// The contents of a [`PortRecord`].
pub struct PortRecordView {
    pub node_id: u32,
    pub name: Seq<char>,
    pub channel: Option<Seq<char>>,
    pub direction: Direction,
    pub media_type: Seq<char>,
}

/// The contents of a [`DefaultDevice`].
pub struct DefaultDeviceView {
    pub name: Seq<char>,
    pub serial: Option<u64>,
}

impl View for ClientRecord {
    type V = ClientRecordView;

    open spec fn view(&self) -> ClientRecordView {
        ClientRecordView {
            application_id: opt_text(self.application_id),
            application_name: opt_text(self.application_name),
            icon_name: opt_text(self.icon_name),
            process_binary: opt_text(self.process_binary),
            client_name: opt_text(self.client_name),
            client_api: opt_text(self.client_api),
        }
    }
}

impl View for DeviceRecord {
    type V = DeviceRecordView;

    open spec fn view(&self) -> DeviceRecordView {
        DeviceRecordView { icon_name: opt_text(self.icon_name) }
    }
}

impl View for NodeRecord {
    type V = NodeRecordView;

    open spec fn view(&self) -> NodeRecordView {
        NodeRecordView {
            name: self.name@,
            media_class: self.media_class@,
            description: opt_text(self.description),
            serial: self.serial,
            application_id: opt_text(self.application_id),
            application_name: opt_text(self.application_name),
            icon_name: opt_text(self.icon_name),
            process_binary: opt_text(self.process_binary),
            media_role: opt_text(self.media_role),
            media_name: opt_text(self.media_name),
            client_id: self.client_id,
            device_id: self.device_id,
            client_name: opt_text(self.client_name),
            client_api: opt_text(self.client_api),
            object_path: opt_text(self.object_path),
        }
    }
}

impl View for PortRecord {
    type V = PortRecordView;

    open spec fn view(&self) -> PortRecordView {
        PortRecordView {
            node_id: self.node_id,
            name: self.name@,
            channel: opt_text(self.channel),
            direction: self.direction,
            media_type: self.media_type@,
        }
    }
}

impl View for DefaultDevice {
    type V = DefaultDeviceView;

    open spec fn view(&self) -> DefaultDeviceView {
        DefaultDeviceView { name: self.name@, serial: self.serial }
    }
}

/// The contents of an optional default device.
pub open spec fn opt_device(o: Option<DefaultDevice>) -> Option<DefaultDeviceView> {
    match o {
        Some(d) => Some(d@),
        None => None,
    }
}

/// The kind of a global.
#[derive(Clone, Copy, Debug, PartialEq, Eq, Structural)]
pub enum ObjectKind {
    Client,
    Device,
    Node,
    Port,
    Link,
    Other,
}

/// Every announced global, by its number.
#[derive(Debug, PartialEq, Eq)]
pub struct RegistryState {
    pub clients: BTreeMap<u64, ClientRecord>,
    pub devices: BTreeMap<u64, DeviceRecord>,
    pub nodes: BTreeMap<u64, NodeRecord>,
    pub ports: BTreeMap<u64, PortRecord>,
    pub links: BTreeMap<u64, LinkRecord>,
    pub default_source: Option<DefaultDevice>,
    pub default_sink: Option<DefaultDevice>,
}

/// The contents of a [`RegistryState`].
#[verifier::ext_equal]
pub struct RegistryView {
    pub clients: Map<u64, ClientRecordView>,
    pub devices: Map<u64, DeviceRecordView>,
    pub nodes: Map<u64, NodeRecordView>,
    pub ports: Map<u64, PortRecordView>,
    pub links: Map<u64, LinkRecord>,
    pub default_source: Option<DefaultDeviceView>,
    pub default_sink: Option<DefaultDeviceView>,
}

impl View for RegistryState {
    type V = RegistryView;

    open spec fn view(&self) -> RegistryView {
        RegistryView {
            clients: self.clients@.map_values(|r: ClientRecord| r@),
            devices: self.devices@.map_values(|r: DeviceRecord| r@),
            nodes: self.nodes@.map_values(|r: NodeRecord| r@),
            ports: self.ports@.map_values(|r: PortRecord| r@),
            links: self.links@,
            default_source: opt_device(self.default_source),
            default_sink: opt_device(self.default_sink),
        }
    }
}

impl RegistryView {
    pub open spec fn empty() -> RegistryView {
        RegistryView {
            clients: Map::empty(),
            devices: Map::empty(),
            nodes: Map::empty(),
            ports: Map::empty(),
            links: Map::empty(),
            default_source: None,
            default_sink: None,
        }
    }

    /// Every number is one that the daemon can hand out.
    pub open spec fn wf(self) -> bool {
        &&& forall|k: u64| #[trigger] self.nodes.contains_key(k) ==> k <= u32::MAX
        &&& forall|k: u64| #[trigger] self.ports.contains_key(k) ==> k <= u32::MAX
        &&& forall|k: u64| #[trigger] self.links.contains_key(k) ==> k <= u32::MAX
    }

    /// The mirror after a global with properties was announced.
    pub open spec fn announced(self, id: u32, kind: ObjectKind, props: Properties) -> RegistryView {
        match kind {
            ObjectKind::Client => RegistryView {
                clients: self.clients.insert(id as u64, client_record(props)),
                ..self
            },
            ObjectKind::Device => RegistryView {
                devices: self.devices.insert(
                    id as u64,
                    DeviceRecordView { icon_name: non_empty(props.spec_get("device.icon-name"@)) },
                ),
                ..self
            },
            ObjectKind::Node => RegistryView {
                nodes: self.nodes.insert(id as u64, node_record(props)),
                ..self
            },
            ObjectKind::Port => RegistryView {
                ports: self.ports.insert(id as u64, port_record(props)),
                ..self
            },
            ObjectKind::Link => RegistryView {
                links: self.links.insert(id as u64, link_record(props)),
                ..self
            },
            ObjectKind::Other => self,
        }
    }

    /// The mirror after the daemon named a default device.
    pub open spec fn defaulted(self, key: Seq<char>, device: Option<DefaultDeviceView>) -> RegistryView {
        if key == "default.audio.source"@ {
            RegistryView { default_source: device, ..self }
        } else if key == "default.audio.sink"@ {
            RegistryView { default_sink: device, ..self }
        } else {
            self
        }
    }

    /// The mirror without default devices.
    pub open spec fn undefaulted(self) -> RegistryView {
        RegistryView { default_source: None, default_sink: None, ..self }
    }

    /// The mirror after a global was withdrawn.
    pub open spec fn withdrawn(self, id: u32) -> RegistryView {
        RegistryView {
            clients: self.clients.remove(id as u64),
            devices: self.devices.remove(id as u64),
            nodes: self.nodes.remove(id as u64),
            ports: self.ports.remove(id as u64),
            links: self.links.remove(id as u64),
            ..self
        }
    }
}

pub open spec fn client_record(props: Properties) -> ClientRecordView {
    ClientRecordView {
        application_id: props.spec_get("application.id"@),
        application_name: props.spec_get("application.name"@),
        icon_name: non_empty(props.spec_get("application.icon-name"@)),
        process_binary: props.spec_get("application.process.binary"@),
        client_name: props.spec_get("client.name"@),
        client_api: props.spec_get("client.api"@),
    }
}

/// A node is named by its name, else by its description; its icon is the
/// application's, else the device's, else the medium's.
pub open spec fn node_record(props: Properties) -> NodeRecordView {
    NodeRecordView {
        name: text_or(
            either(props.spec_get("node.name"@), props.spec_get("node.description"@)),
            "PipeWire node"@,
        ),
        media_class: text_or(props.spec_get("media.class"@), ""@),
        description: props.spec_get("node.description"@),
        serial: number_of(props.spec_get("object.serial"@)),
        application_id: props.spec_get("application.id"@),
        application_name: props.spec_get("application.name"@),
        icon_name: either(
            either(
                non_empty(props.spec_get("application.icon-name"@)),
                non_empty(props.spec_get("device.icon-name"@)),
            ),
            non_empty(props.spec_get("media.icon-name"@)),
        ),
        process_binary: props.spec_get("application.process.binary"@),
        media_role: props.spec_get("media.role"@),
        media_name: props.spec_get("media.name"@),
        client_id: small_number_of(props.spec_get("client.id"@)),
        device_id: small_number_of(props.spec_get("device.id"@)),
        client_name: props.spec_get("client.name"@),
        client_api: props.spec_get("client.api"@),
        object_path: props.spec_get("object.path"@),
    }
}

pub open spec fn port_record(props: Properties) -> PortRecordView {
    PortRecordView {
        node_id: match small_number_of(props.spec_get("node.id"@)) {
            Some(n) => n,
            None => 0,
        },
        name: text_or(props.spec_get("port.name"@), "PipeWire port"@),
        channel: props.spec_get("audio.channel"@),
        direction: if props.spec_get("port.direction"@) == Some("out"@) {
            Direction::Source
        } else {
            Direction::Sink
        },
        media_type: text_or(
            either(props.spec_get("media.type"@), props.spec_get("format.dsp"@)),
            ""@,
        ),
    }
}

pub open spec fn link_record(props: Properties) -> LinkRecord {
    LinkRecord {
        output_port: match small_number_of(props.spec_get("link.output.port"@)) {
            Some(n) => n,
            None => 0,
        },
        input_port: match small_number_of(props.spec_get("link.input.port"@)) {
            Some(n) => n,
            None => 0,
        },
    }
}

fn client_from(props: &Properties) -> (r: ClientRecord)
    ensures
        r@ == client_record(*props),
{
    ClientRecord {
        application_id: props.get("application.id"),
        application_name: props.get("application.name"),
        icon_name: non_empty_owned(props.get("application.icon-name")),
        process_binary: props.get("application.process.binary"),
        client_name: props.get("client.name"),
        client_api: props.get("client.api"),
    }
}

fn node_from(props: &Properties) -> (r: NodeRecord)
    ensures
        r@ == node_record(*props),
{
    let name = text_or_else(
        either_text(props.get("node.name"), props.get("node.description")),
        "PipeWire node",
    );
    let icon_name = either_text(
        either_text(
            non_empty_owned(props.get("application.icon-name")),
            non_empty_owned(props.get("device.icon-name")),
        ),
        non_empty_owned(props.get("media.icon-name")),
    );
    NodeRecord {
        name,
        media_class: text_or_else(props.get("media.class"), ""),
        description: props.get("node.description"),
        serial: parse_number(props.get("object.serial")),
        application_id: props.get("application.id"),
        application_name: props.get("application.name"),
        icon_name,
        process_binary: props.get("application.process.binary"),
        media_role: props.get("media.role"),
        media_name: props.get("media.name"),
        client_id: parse_small_number(props.get("client.id")),
        device_id: parse_small_number(props.get("device.id")),
        client_name: props.get("client.name"),
        client_api: props.get("client.api"),
        object_path: props.get("object.path"),
    }
}

fn port_from(props: &Properties) -> (r: PortRecord)
    ensures
        r@ == port_record(*props),
{
    let outgoing = match props.get("port.direction") {
        Some(s) => text_eq(s.as_str(), "out"),
        None => false,
    };
    let node_id: u32 = match parse_small_number(props.get("node.id")) {
        Some(n) => n,
        None => 0,
    };
    PortRecord {
        node_id,
        name: text_or_else(props.get("port.name"), "PipeWire port"),
        channel: props.get("audio.channel"),
        direction: if outgoing {
            Direction::Source
        } else {
            Direction::Sink
        },
        media_type: text_or_else(
            either_text(props.get("media.type"), props.get("format.dsp")),
            "",
        ),
    }
}

fn link_from(props: &Properties) -> (r: LinkRecord)
    ensures
        r == link_record(*props),
{
    let output_port: u32 = match parse_small_number(props.get("link.output.port")) {
        Some(n) => n,
        None => 0,
    };
    let input_port: u32 = match parse_small_number(props.get("link.input.port")) {
        Some(n) => n,
        None => 0,
    };
    LinkRecord { output_port, input_port }
}

impl RegistryState {
    /// A mirror of an empty registry.
    pub fn new() -> (r: RegistryState)
        ensures
            r@ == RegistryView::empty(),
            r@.wf(),
    {
        let r = RegistryState {
            clients: BTreeMap::new(),
            devices: BTreeMap::new(),
            nodes: BTreeMap::new(),
            ports: BTreeMap::new(),
            links: BTreeMap::new(),
            default_source: None,
            default_sink: None,
        };
        assert(r@ =~= RegistryView::empty());
        r
    }

    /// Records an announced global; one without properties is ignored.
    /// Returns whether the graph has to be built anew.
    pub fn apply_global(&mut self, id: u32, kind: ObjectKind, props: Option<&Properties>) -> (r:
        bool)
        requires
            old(self)@.wf(),
        ensures
            final(self)@.wf(),
            r == props.is_some(),
            match props {
                Some(p) => final(self)@ == old(self)@.announced(id, kind, *p),
                None => final(self)@ == old(self)@,
            },
    {
        let ghost before = self@;
        match props {
            None => false,
            Some(p) => {
                match kind {
                    ObjectKind::Client => {
                        self.clients.insert(id as u64, client_from(p));
                    },
                    ObjectKind::Device => {
                        let record = DeviceRecord {
                            icon_name: non_empty_owned(p.get("device.icon-name")),
                        };
                        self.devices.insert(id as u64, record);
                    },
                    ObjectKind::Node => {
                        self.nodes.insert(id as u64, node_from(p));
                    },
                    ObjectKind::Port => {
                        self.ports.insert(id as u64, port_from(p));
                    },
                    ObjectKind::Link => {
                        self.links.insert(id as u64, link_from(p));
                    },
                    ObjectKind::Other => {},
                }
                assert(self@ =~= before.announced(id, kind, *p));
                true
            },
        }
    }

    /// Forgets a withdrawn global.
    pub fn remove_global(&mut self, id: u32)
        requires
            old(self)@.wf(),
        ensures
            final(self)@.wf(),
            final(self)@ == old(self)@.withdrawn(id),
    {
        let ghost before = self@;
        let key: u64 = id as u64;
        self.nodes.remove(&key);
        self.devices.remove(&key);
        self.clients.remove(&key);
        self.ports.remove(&key);
        self.links.remove(&key);
        assert(self@ =~= before.withdrawn(id));
    }

    /// Records a property of the session's default metadata. Returns whether
    /// the graph has to be built anew.
    pub fn apply_default_property(&mut self, key: &str, value: Option<&str>) -> (r: bool)
        ensures
            r == (key@ == "default.audio.source"@ || key@ == "default.audio.sink"@),
            r == is_default_key(key@),
            final(self)@ == old(self)@.defaulted(key@, default_device(opt_str(value))),
    {
        if text_eq(key, "default.audio.source") {
            self.default_source = parse_default_device(value);
            true
        } else if text_eq(key, "default.audio.sink") {
            self.default_sink = parse_default_device(value);
            true
        } else {
            false
        }
    }

    /// Forgets both defaults, when their metadata object is withdrawn.
    pub fn clear_defaults(&mut self)
        ensures
            final(self)@ == old(self)@.undefaulted(),
    {
        self.default_source = None;
        self.default_sink = None;
    }
}

/// Whether a metadata object holds the session's defaults: it is named
/// "default", or not named at all.
pub fn is_default_metadata(name: Option<&str>) -> (r: bool)
    ensures
        r == (match name {
            Some(s) => s@ == "default"@,
            None => true,
        }),
{
    match name {
        Some(s) => text_eq(s, "default"),
        None => true,
    }
}

/// The numbers of the metadata objects with the session's defaults that are
/// listened to.
#[derive(Debug, PartialEq, Eq)]
pub struct MetadataBindings {
    pub bound: Vec<u32>,
}

impl Default for MetadataBindings {
    fn default() -> (r: MetadataBindings)
        ensures
            r.bound@ == Seq::<u32>::empty(),
    {
        MetadataBindings { bound: Vec::new() }
    }
}

/// Every number but one.
pub open spec fn other_than(id: u32) -> spec_fn(u32) -> bool {
    |n: u32| n != id
}

impl MetadataBindings {
    /// An object is listened to from now on.
    pub fn metadata_bound(&mut self, id: u32)
        ensures
            final(self).bound@ == old(self).bound@.push(id),
    {
        self.bound.push(id);
    }

    /// An object is withdrawn. The result says whether it was listened to; it
    /// no longer is.
    pub fn metadata_removed(&mut self, id: u32) -> (r: bool)
        ensures
            r == old(self).bound@.contains(id),
            final(self).bound@ == kept(old(self).bound@, other_than(id)),
    {
        let mut rest: Vec<u32> = Vec::new();
        let mut found = false;
        let mut i: usize = 0;
        while i < self.bound.len()
            invariant
                i <= self.bound.len(),
                self.bound == old(self).bound,
                found == self.bound@.take(i as int).contains(id),
                rest@ == kept(self.bound@.take(i as int), other_than(id)),
            decreases self.bound.len() - i,
        {
            let n: u32 = self.bound[i];
            proof {
                let before = self.bound@.take(i as int);
                assert(self.bound@.take(i + 1) =~= before.push(n));
                lemma_kept_step(self.bound@, other_than(id), i as int);
                assert(before.push(n)[i as int] == n);
                assert(before.contains(id) ==> before.push(n).contains(id)) by {
                    if before.contains(id) {
                        let j = choose|j: int| 0 <= j < before.len() && before[j] == id;
                        assert(before.push(n)[j] == id);
                    }
                }
                assert(before.push(n).contains(id) ==> before.contains(id) || n == id) by {
                    if before.push(n).contains(id) && n != id {
                        let j = choose|j: int|
                            0 <= j < before.push(n).len() && before.push(n)[j] == id;
                        assert(before[j] == id);
                    }
                }
            }
            if n == id {
                found = true;
            } else {
                rest.push(n);
            }
            i = i + 1;
        }
        assert(self.bound@.take(i as int) =~= self.bound@);
        self.bound = rest;
        found
    }
}

impl RegistryState {
    /// An object is withdrawn: where its defaults were listened to, both
    /// defaults are forgotten. The result says whether that was so.
    pub fn withdraw_defaults(&mut self, bindings: &mut MetadataBindings, id: u32) -> (r: bool)
        ensures
            r == old(bindings).bound@.contains(id),
            final(bindings).bound@ == kept(old(bindings).bound@, other_than(id)),
            final(self)@ == (if r {
                old(self)@.undefaulted()
            } else {
                old(self)@
            }),
    {
        let bound = bindings.metadata_removed(id);
        if bound {
            self.clear_defaults();
        }
        bound
    }
}

/// An object that was withdrawn is no longer listened to; the others are as
/// before.
pub proof fn law_withdrawn_is_forgotten(bound: Seq<u32>, id: u32, other: u32)
    ensures
        !kept(bound, other_than(id)).contains(id),
        other != id ==> (kept(bound, other_than(id)).contains(other) <==> bound.contains(other)),
{
    lemma_kept_members(bound, other_than(id), id);
    lemma_kept_members(bound, other_than(id), other);
}

/// The characters of an optional text slice.
pub open spec fn opt_str(o: Option<&str>) -> Option<Seq<char>> {
    match o {
        Some(s) => Some(s@),
        None => None,
    }
}

/// The text of a member.
pub open spec fn member_text(
    members: Map<Seq<char>, JsonMemberView>,
    name: Seq<char>,
) -> Option<Seq<char>> {
    if members.contains_key(name) {
        match members[name] {
            JsonMemberView::Text(s) => Some(s),
            _ => None,
        }
    } else {
        None
    }
}

/// The serial number of a member: a number, or a text that stands for one.
pub open spec fn member_serial(members: Map<Seq<char>, JsonMemberView>) -> Option<u64> {
    if members.contains_key("serial"@) {
        match members["serial"@] {
            JsonMemberView::Number(n) => n,
            JsonMemberView::Text(s) => u64_value(s),
            JsonMemberView::Other => None,
        }
    } else {
        None
    }
}

/// The device that a trimmed metadata value names. An object names it by
/// `name`, else by `node.name`, and may hold its serial number; a JSON text is
/// the name; any other value is the name itself, without the quotes around it.
pub open spec fn device_of(value: Seq<char>, document: Option<JsonDocumentView>) -> Option<
    DefaultDeviceView,
> {
    match document {
        Some(JsonDocumentView::Object(members)) => match either(
            member_text(members, "name"@),
            member_text(members, "node.name"@),
        ) {
            Some(name) => Some(DefaultDeviceView { name, serial: member_serial(members) }),
            None => None,
        },
        Some(JsonDocumentView::Text(name)) => Some(DefaultDeviceView { name, serial: None }),
        _ => Some(
            DefaultDeviceView {
                name: without_end(without_start(value, '"'), '"'),
                serial: None,
            },
        ),
    }
}

/// The device that a metadata value names; an absent or blank value means
/// that the default was cleared.
pub open spec fn default_device(value: Option<Seq<char>>) -> Option<DefaultDeviceView> {
    match value {
        Some(s) if trimmed(s).len() > 0 => device_of(trimmed(s), json_document(trimmed(s))),
        _ => None,
    }
}

/// The view of an optional document.
pub open spec fn opt_document(o: Option<JsonDocument>) -> Option<JsonDocumentView> {
    match o {
        Some(d) => Some(d@),
        None => None,
    }
}

fn text_member(object: &serde_json::Map<String, serde_json::Value>, name: &str) -> (r: Option<
    String,
>)
    ensures
        opt_text(r) == member_text(crate::json::json_members(*object), name@),
{
    match json_member(object, name) {
        Some(JsonMember::Text(s)) => Some(s),
        _ => None,
    }
}

/// The device that a trimmed metadata value names, given what the value stands
/// for as a JSON document.
pub fn device_from_document(value: &str, document: Option<JsonDocument>) -> (r: Option<
    DefaultDevice,
>)
    ensures
        opt_device(r) == device_of(value@, opt_document(document)),
{
    match document {
        Some(JsonDocument::Object(object)) => {
            let name = either_text(text_member(&object, "name"), text_member(&object, "node.name"));
            match name {
                None => None,
                Some(name) => {
                    let serial: Option<u64> = match json_member(&object, "serial") {
                        Some(JsonMember::Number(n)) => n,
                        Some(JsonMember::Text(s)) => parse_u64(s.as_str()),
                        _ => None,
                    };
                    Some(DefaultDevice { name, serial })
                },
            }
        },
        Some(JsonDocument::Text(name)) => Some(DefaultDevice { name, serial: None }),
        _ => Some(DefaultDevice { name: trim_char(value, '"'), serial: None }),
    }
}

/// The default device that a metadata value names.
pub fn parse_default_device(value: Option<&str>) -> (r: Option<DefaultDevice>)
    ensures
        opt_device(r) == default_device(opt_str(value)),
{
    match value {
        None => None,
        Some(s) => {
            let inner = trim(s);
            if inner.as_str().is_empty() {
                return None;
            }
            device_from_document(inner.as_str(), parse_json(inner.as_str()))
        },
    }
}

/// The media type of a port: what its own type names, else what its node's
/// class names.
pub open spec fn port_type_of(media_type: Seq<char>, node_media_class: Seq<char>) -> PortType {
    if has_sub(lower(media_type), "midi"@) {
        PortType::MidiJack
    } else if has_sub(lower(media_type), "video"@) {
        PortType::Video
    } else if has_sub(lower(media_type), "audio"@) {
        PortType::Audio
    } else if has_sub(lower(node_media_class), "midi"@) {
        PortType::MidiJack
    } else if has_sub(lower(node_media_class), "video"@) {
        PortType::Video
    } else if has_sub(lower(node_media_class), "audio"@) {
        PortType::Audio
    } else {
        PortType::Unknown
    }
}

pub fn classify_port_type(media_type: &str, node_media_class: Option<&str>) -> (r: PortType)
    ensures
        r == port_type_of(media_type@, text_or(opt_str(node_media_class), ""@)),
{
    let class = match node_media_class {
        Some(s) => s,
        None => "",
    };
    if lower_contains(media_type, "midi") {
        PortType::MidiJack
    } else if lower_contains(media_type, "video") {
        PortType::Video
    } else if lower_contains(media_type, "audio") {
        PortType::Audio
    } else if lower_contains(class, "midi") {
        PortType::MidiJack
    } else if lower_contains(class, "video") {
        PortType::Video
    } else if lower_contains(class, "audio") {
        PortType::Audio
    } else {
        PortType::Unknown
    }
}

/// A withdrawn global leaves no trace in the mirror's tables.
pub proof fn law_withdrawal_forgets(state: RegistryView, id: u32)
    ensures
        !state.withdrawn(id).clients.contains_key(id as u64),
        !state.withdrawn(id).devices.contains_key(id as u64),
        !state.withdrawn(id).nodes.contains_key(id as u64),
        !state.withdrawn(id).ports.contains_key(id as u64),
        !state.withdrawn(id).links.contains_key(id as u64),
        state.withdrawn(id).withdrawn(id) == state.withdrawn(id),
{
    assert(state.withdrawn(id).withdrawn(id) =~= state.withdrawn(id));
}

/// Announcing a global that the mirror does not know, and withdrawing it, gives
/// back the mirror.
pub proof fn law_announce_withdraw_is_identity(
    state: RegistryView,
    id: u32,
    kind: ObjectKind,
    props: Properties,
)
    requires
        state.withdrawn(id) == state,
    ensures
        state.announced(id, kind, props).withdrawn(id) == state,
{
    let other = state.announced(id, kind, props).withdrawn(id);
    assert(state.clients =~= state.clients.remove(id as u64));
    assert(other.clients =~= state.withdrawn(id).clients);
    assert(other.devices =~= state.withdrawn(id).devices);
    assert(other.nodes =~= state.withdrawn(id).nodes);
    assert(other.ports =~= state.withdrawn(id).ports);
    assert(other.links =~= state.withdrawn(id).links);
    assert(other =~= state);
}

/// The key names a default device.
pub open spec fn is_default_key(key: Seq<char>) -> bool {
    key == "default.audio.source"@ || key == "default.audio.sink"@
}

/// `value` is what the properties hold under `key`: that of the first entry
/// with the key, and nothing just where no entry has it.
pub open spec fn holds(
    entries: Seq<(String, String)>,
    key: Seq<char>,
    value: Option<Seq<char>>,
) -> bool {
    match value {
        Some(text) => exists|i: int|
            0 <= i < entries.len() && (#[trigger] entries[i]).0@ == key && entries[i].1@ == text
                && forall|j: int| 0 <= j < i ==> (#[trigger] entries[j]).0@ != key,
        None => forall|i: int| 0 <= i < entries.len() ==> (#[trigger] entries[i]).0@ != key,
    }
}

/// Looking a key up gives what the properties hold under it.
pub proof fn law_lookup(entries: Seq<(String, String)>, key: Seq<char>)
    ensures
        holds(entries, key, lookup(entries, key)),
    decreases entries.len(),
{
    if entries.len() == 0 {
    } else if entries[0].0@ == key {
        assert(entries[0].1@ == lookup(entries, key)->Some_0);
    } else {
        let rest = entries.subrange(1, entries.len() as int);
        law_lookup(rest, key);
        match lookup(rest, key) {
            Some(text) => {
                let i = choose|i: int|
                    0 <= i < rest.len() && (#[trigger] rest[i]).0@ == key && rest[i].1@ == text
                        && forall|j: int| 0 <= j < i ==> (#[trigger] rest[j]).0@ != key;
                assert(entries[i + 1] == rest[i]);
                assert forall|j: int| 0 <= j < i + 1 implies (#[trigger] entries[j]).0@ != key by {
                    if j > 0 {
                        assert(rest[j - 1] == entries[j]);
                    }
                }
            },
            None => {
                assert forall|j: int| 0 <= j < entries.len() implies (#[trigger] entries[j]).0@
                    != key by {
                    if j > 0 {
                        assert(rest[j - 1] == entries[j]);
                    }
                }
            },
        }
    }
}

/// The properties hold one value under a key.
pub proof fn lemma_holds_one(
    entries: Seq<(String, String)>,
    key: Seq<char>,
    a: Option<Seq<char>>,
    b: Option<Seq<char>>,
)
    requires
        holds(entries, key, a),
        holds(entries, key, b),
    ensures
        a == b,
{
    match (a, b) {
        (Some(x), Some(y)) => {
            let i = choose|i: int|
                0 <= i < entries.len() && (#[trigger] entries[i]).0@ == key && entries[i].1@ == x
                    && forall|j: int| 0 <= j < i ==> (#[trigger] entries[j]).0@ != key;
            let j = choose|i: int|
                0 <= i < entries.len() && (#[trigger] entries[i]).0@ == key && entries[i].1@ == y
                    && forall|j: int| 0 <= j < i ==> (#[trigger] entries[j]).0@ != key;
            if i < j {
                assert(entries[i].0@ != key);
            }
            if j < i {
                assert(entries[j].0@ != key);
            }
        },
        _ => {},
    }
}

/// An announced port is mirrored with the channel, the name, the direction,
/// the owner and the media type of its properties. Nothing else changes.
pub proof fn law_ports_are_mirrored(
    state: RegistryView,
    id: u32,
    props: Properties,
    owner: Option<Seq<char>>,
    name: Option<Seq<char>>,
    direction: Option<Seq<char>>,
    media: Option<Seq<char>>,
    format: Option<Seq<char>>,
)
    requires
        holds(props.entries@, "node.id"@, owner),
        holds(props.entries@, "port.name"@, name),
        holds(props.entries@, "port.direction"@, direction),
        holds(props.entries@, "media.type"@, media),
        holds(props.entries@, "format.dsp"@, format),
    ensures
        ({
            let after = state.announced(id, ObjectKind::Port, props);
            let port = after.ports[id as u64];
            &&& after.ports.contains_key(id as u64)
            &&& holds(props.entries@, "audio.channel"@, port.channel)
            &&& name matches Some(text) ==> port.name == text
            &&& name is None ==> port.name == "PipeWire port"@
            &&& port.direction == Direction::Source <==> direction == Some("out"@)
            &&& forall|n: u32| owner == Some(crate::text::decimal(n as nat)) ==> port.node_id == n
            &&& owner is None ==> port.node_id == 0
            &&& media matches Some(text) ==> port.media_type == text
            &&& media is None ==> (format matches Some(text) ==> port.media_type == text)
            &&& media is None && format is None ==> port.media_type == ""@
            &&& forall|k: u64|
                k != id ==> (#[trigger] after.ports.contains_key(k) <==> state.ports.contains_key(
                    k,
                ))
            &&& forall|k: u64|
                k != id && state.ports.contains_key(k) ==> #[trigger] after.ports[k]
                    == state.ports[k]
            &&& (RegistryView { ports: state.ports, ..after }) == state
        }),
{
    law_lookup(props.entries@, "audio.channel"@);
    lemma_held(props, "node.id"@, owner);
    lemma_held(props, "port.name"@, name);
    lemma_held(props, "port.direction"@, direction);
    lemma_held(props, "media.type"@, media);
    lemma_held(props, "format.dsp"@, format);
    assert forall|n: u32| owner == Some(crate::text::decimal(n as nat)) implies state.announced(
        id,
        ObjectKind::Port,
        props,
    ).ports[id as u64].node_id == n by {
        crate::text::law_decimal_is_read_back(n as u64);
    }
}

proof fn lemma_held(props: Properties, key: Seq<char>, value: Option<Seq<char>>)
    requires
        holds(props.entries@, key, value),
    ensures
        props.spec_get(key) == value,
{
    law_lookup(props.entries@, key);
    lemma_holds_one(props.entries@, key, value, props.spec_get(key));
}

/// An announced link is mirrored with the ports that its properties name.
/// Nothing else changes.
pub proof fn law_links_are_mirrored(
    state: RegistryView,
    id: u32,
    props: Properties,
    output: u32,
    input: u32,
)
    requires
        holds(props.entries@, "link.output.port"@, Some(crate::text::decimal(output as nat))),
        holds(props.entries@, "link.input.port"@, Some(crate::text::decimal(input as nat))),
    ensures
        ({
            let after = state.announced(id, ObjectKind::Link, props);
            &&& after.links.contains_key(id as u64)
            &&& after.links[id as u64].output_port == output
            &&& after.links[id as u64].input_port == input
            &&& forall|k: u64|
                k != id ==> (#[trigger] after.links.contains_key(k) <==> state.links.contains_key(
                    k,
                ))
            &&& forall|k: u64|
                k != id && state.links.contains_key(k) ==> #[trigger] after.links[k]
                    == state.links[k]
            &&& (RegistryView { links: state.links, ..after }) == state
        }),
{
    lemma_held(props, "link.output.port"@, Some(crate::text::decimal(output as nat)));
    lemma_held(props, "link.input.port"@, Some(crate::text::decimal(input as nat)));
    crate::text::law_decimal_is_read_back(output as u64);
    crate::text::law_decimal_is_read_back(input as u64);
}

/// An announced node is mirrored with what its properties hold. Its name is
/// that of the node, failing that its description; its icon is that of the
/// application, failing that of the device, failing that of the medium.
/// Nothing else changes.
pub proof fn law_nodes_are_mirrored(
    state: RegistryView,
    id: u32,
    props: Properties,
    name: Option<Seq<char>>,
    class: Option<Seq<char>>,
    application_icon: Option<Seq<char>>,
    device_icon: Option<Seq<char>>,
    media_icon: Option<Seq<char>>,
)
    requires
        holds(props.entries@, "node.name"@, name),
        holds(props.entries@, "media.class"@, class),
        holds(props.entries@, "application.icon-name"@, application_icon),
        holds(props.entries@, "device.icon-name"@, device_icon),
        holds(props.entries@, "media.icon-name"@, media_icon),
    ensures
        ({
            let after = state.announced(id, ObjectKind::Node, props);
            let node = after.nodes[id as u64];
            let e = props.entries@;
            &&& after.nodes.contains_key(id as u64)
            &&& name matches Some(text) ==> node.name == text
            &&& name is None ==> (node.description matches Some(text) ==> node.name == text)
            &&& name is None && node.description is None ==> node.name == "PipeWire node"@
            &&& class matches Some(text) ==> node.media_class == text
            &&& class is None ==> node.media_class == ""@
            &&& holds(e, "node.description"@, node.description)
            &&& holds(e, "application.id"@, node.application_id)
            &&& holds(e, "application.name"@, node.application_name)
            &&& holds(e, "application.process.binary"@, node.process_binary)
            &&& holds(e, "media.role"@, node.media_role)
            &&& holds(e, "media.name"@, node.media_name)
            &&& holds(e, "client.name"@, node.client_name)
            &&& holds(e, "client.api"@, node.client_api)
            &&& holds(e, "object.path"@, node.object_path)
            &&& forall|n: u64|
                holds(e, "object.serial"@, Some(#[trigger] crate::text::decimal(n as nat)))
                    ==> node.serial == Some(n)
            &&& holds(e, "object.serial"@, None) ==> node.serial is None
            &&& forall|n: u32|
                holds(e, "client.id"@, Some(#[trigger] crate::text::decimal(n as nat)))
                    ==> node.client_id == Some(n)
            &&& holds(e, "client.id"@, None) ==> node.client_id is None
            &&& forall|n: u32|
                holds(e, "device.id"@, Some(#[trigger] crate::text::decimal(n as nat)))
                    ==> node.device_id == Some(n)
            &&& holds(e, "device.id"@, None) ==> node.device_id is None
            &&& application_icon is Some && !crate::text::all_white(application_icon->0)
                ==> node.icon_name == Some(trimmed(application_icon->0))
            &&& (application_icon is None || crate::text::all_white(application_icon->0)) && (
            device_icon is Some && !crate::text::all_white(device_icon->0)) ==> node.icon_name
                == Some(trimmed(device_icon->0))
            &&& (application_icon is None || crate::text::all_white(application_icon->0)) && (
            device_icon is None || crate::text::all_white(device_icon->0)) && (media_icon is Some
                && !crate::text::all_white(media_icon->0)) ==> node.icon_name == Some(
                trimmed(media_icon->0),
            )
            &&& forall|k: u64|
                k != id ==> (#[trigger] after.nodes.contains_key(k) <==> state.nodes.contains_key(
                    k,
                ))
            &&& forall|k: u64|
                k != id && state.nodes.contains_key(k) ==> #[trigger] after.nodes[k]
                    == state.nodes[k]
            &&& (RegistryView { nodes: state.nodes, ..after }) == state
        }),
{
    let e = props.entries@;
    let node = node_record(props);
    lemma_held(props, "node.name"@, name);
    lemma_held(props, "media.class"@, class);
    lemma_held(props, "application.icon-name"@, application_icon);
    lemma_held(props, "device.icon-name"@, device_icon);
    lemma_held(props, "media.icon-name"@, media_icon);
    law_lookup(e, "node.description"@);
    law_lookup(e, "application.id"@);
    law_lookup(e, "application.name"@);
    law_lookup(e, "application.process.binary"@);
    law_lookup(e, "media.role"@);
    law_lookup(e, "media.name"@);
    law_lookup(e, "client.name"@);
    law_lookup(e, "client.api"@);
    law_lookup(e, "object.path"@);
    assert forall|n: u64|
        holds(e, "object.serial"@, Some(#[trigger] crate::text::decimal(n as nat))) implies node.serial
        == Some(n) by {
        lemma_held(props, "object.serial"@, Some(crate::text::decimal(n as nat)));
        crate::text::law_decimal_is_read_back(n);
    }
    assert forall|n: u32|
        holds(e, "client.id"@, Some(#[trigger] crate::text::decimal(n as nat))) implies node.client_id
        == Some(n) by {
        lemma_held(props, "client.id"@, Some(crate::text::decimal(n as nat)));
        crate::text::law_decimal_is_read_back(n as u64);
    }
    assert forall|n: u32|
        holds(e, "device.id"@, Some(#[trigger] crate::text::decimal(n as nat))) implies node.device_id
        == Some(n) by {
        lemma_held(props, "device.id"@, Some(crate::text::decimal(n as nat)));
        crate::text::law_decimal_is_read_back(n as u64);
    }
    if holds(e, "object.serial"@, None) {
        lemma_held(props, "object.serial"@, None);
    }
    if holds(e, "client.id"@, None) {
        lemma_held(props, "client.id"@, None);
    }
    if holds(e, "device.id"@, None) {
        lemma_held(props, "device.id"@, None);
    }
    if let Some(icon) = application_icon {
        crate::text::law_trimmed(icon);
    }
    if let Some(icon) = device_icon {
        crate::text::law_trimmed(icon);
    }
    if let Some(icon) = media_icon {
        crate::text::law_trimmed(icon);
    }
}

/// An announced client and an announced device are mirrored with what their
/// properties hold. Nothing else changes, and other objects change nothing.
pub proof fn law_clients_are_mirrored(
    state: RegistryView,
    id: u32,
    props: Properties,
    client_icon: Option<Seq<char>>,
    device_icon: Option<Seq<char>>,
)
    requires
        holds(props.entries@, "application.icon-name"@, client_icon),
        holds(props.entries@, "device.icon-name"@, device_icon),
    ensures
        ({
            let after = state.announced(id, ObjectKind::Client, props);
            let client = after.clients[id as u64];
            let e = props.entries@;
            &&& after.clients.contains_key(id as u64)
            &&& holds(e, "application.id"@, client.application_id)
            &&& holds(e, "application.name"@, client.application_name)
            &&& holds(e, "application.process.binary"@, client.process_binary)
            &&& holds(e, "client.name"@, client.client_name)
            &&& holds(e, "client.api"@, client.client_api)
            &&& client_icon is Some && !crate::text::all_white(client_icon->0) ==> client.icon_name
                == Some(trimmed(client_icon->0))
            &&& client_icon is None || crate::text::all_white(client_icon->0)
                ==> client.icon_name is None
            &&& forall|k: u64|
                k != id ==> (#[trigger] after.clients.contains_key(k)
                    <==> state.clients.contains_key(k))
            &&& forall|k: u64|
                k != id && state.clients.contains_key(k) ==> #[trigger] after.clients[k]
                    == state.clients[k]
            &&& (RegistryView { clients: state.clients, ..after }) == state
        }),
        ({
            let after = state.announced(id, ObjectKind::Device, props);
            let device = after.devices[id as u64];
            &&& after.devices.contains_key(id as u64)
            &&& device_icon is Some && !crate::text::all_white(device_icon->0) ==> device.icon_name
                == Some(trimmed(device_icon->0))
            &&& device_icon is None || crate::text::all_white(device_icon->0)
                ==> device.icon_name is None
            &&& (RegistryView { devices: state.devices, ..after }) == state
        }),
        state.announced(id, ObjectKind::Other, props) == state,
{
    let e = props.entries@;
    lemma_held(props, "application.icon-name"@, client_icon);
    lemma_held(props, "device.icon-name"@, device_icon);
    law_lookup(e, "application.id"@);
    law_lookup(e, "application.name"@);
    law_lookup(e, "application.process.binary"@);
    law_lookup(e, "client.name"@);
    law_lookup(e, "client.api"@);
    if let Some(icon) = client_icon {
        crate::text::law_trimmed(icon);
    }
    if let Some(icon) = device_icon {
        crate::text::law_trimmed(icon);
    }
}

/// A default source changes the default source alone, and a default sink the
/// default sink alone. Forgetting the defaults forgets both and nothing else.
pub proof fn law_defaults_are_kept_apart(
    state: RegistryView,
    key: Seq<char>,
    device: Option<DefaultDeviceView>,
)
    ensures
        state.defaulted("default.audio.source"@, device).default_source == device,
        state.defaulted("default.audio.source"@, device).default_sink == state.default_sink,
        state.defaulted("default.audio.sink"@, device).default_sink == device,
        state.defaulted("default.audio.sink"@, device).default_source == state.default_source,
        !is_default_key(key) ==> state.defaulted(key, device) == state,
        ({
            let after = state.defaulted(key, device);
            &&& after.clients == state.clients
            &&& after.devices == state.devices
            &&& after.nodes == state.nodes
            &&& after.ports == state.ports
            &&& after.links == state.links
        }),
        is_default_key("default.audio.source"@),
        is_default_key("default.audio.sink"@),
        ({
            let after = state.undefaulted();
            &&& after.default_source is None
            &&& after.default_sink is None
            &&& after.clients == state.clients
            &&& after.devices == state.devices
            &&& after.nodes == state.nodes
            &&& after.ports == state.ports
            &&& after.links == state.links
        }),
{
    reveal_strlit("default.audio.source");
    reveal_strlit("default.audio.sink");
    assert("default.audio.source"@.len() != "default.audio.sink"@.len());
}

/// A default device is named by the member "name" of an object, failing that
/// by its "node.name", or by the text itself where that is no object; it has
/// the serial of the object. An object without a name names no device, nor
/// does a blank text.
pub proof fn law_default_devices(
    value: Seq<char>,
    members: Map<Seq<char>, JsonMemberView>,
    name: Seq<char>,
)
    ensures
        member_text(members, "name"@) == Some(name) ==> device_of(
            value,
            Some(JsonDocumentView::Object(members)),
        ) == Some(DefaultDeviceView { name, serial: member_serial(members) }),
        member_text(members, "name"@) is None && member_text(members, "node.name"@) == Some(name)
            ==> device_of(value, Some(JsonDocumentView::Object(members))) == Some(
            DefaultDeviceView { name, serial: member_serial(members) },
        ),
        member_text(members, "name"@) is None && member_text(members, "node.name"@) is None
            ==> device_of(value, Some(JsonDocumentView::Object(members))) is None,
        device_of(value, Some(JsonDocumentView::Text(name))) == Some(
            DefaultDeviceView { name, serial: None },
        ),
        !value.contains('"') ==> device_of(value, None) == Some(
            DefaultDeviceView { name: value, serial: None },
        ),
        crate::text::all_white(value) ==> default_device(Some(value)) is None,
        default_device(None) is None,
        members.contains_key(name) ==> (members[name] matches JsonMemberView::Text(text)
            ==> member_text(members, name) == Some(text)),
        !members.contains_key(name) ==> member_text(members, name) is None,
        forall|n: u64|
            members.contains_key("serial"@) && #[trigger] members["serial"@]
                == JsonMemberView::Number(Some(n)) ==> member_serial(members) == Some(n),
        forall|n: u64|
            members.contains_key("serial"@) && members["serial"@] == JsonMemberView::Text(
                #[trigger] crate::text::decimal(n as nat),
            ) ==> member_serial(members) == Some(n),
        !members.contains_key("serial"@) ==> member_serial(members) is None,
{
    crate::text::law_trimmed(value);
    crate::text::law_without_ends(value, '"');
    if !value.contains('"') {
        if value.len() > 0 {
            assert(value.contains(value[0]));
            assert(value.contains(value.last()));
        }
        assert(without_start(value, '"') == value);
        assert(without_end(value, '"') == value);
    }
    assert forall|n: u64|
        members.contains_key("serial"@) && members["serial"@] == JsonMemberView::Text(
            #[trigger] crate::text::decimal(n as nat),
        ) implies member_serial(members) == Some(n) by {
        crate::text::law_decimal_is_read_back(n);
    }
}

/// The media type of a port decides what it carries, failing that the class
/// of its node; MIDI goes before video and video before audio, and capitals
/// do not count.
pub proof fn law_port_types(media: Seq<char>, class: Seq<char>)
    ensures
        ({
            let says = |text: Seq<char>, word: Seq<char>|
                exists|before: Seq<char>, after: Seq<char>|
                    lower(text) == #[trigger] (before + word + after);
            let silent = !says(media, "midi"@) && !says(media, "video"@) && !says(media, "audio"@);
            let kind = port_type_of(media, class);
            &&& says(media, "midi"@) ==> kind == PortType::MidiJack
            &&& !says(media, "midi"@) && says(media, "video"@) ==> kind == PortType::Video
            &&& !says(media, "midi"@) && !says(media, "video"@) && says(media, "audio"@) ==> kind
                == PortType::Audio
            &&& silent && says(class, "midi"@) ==> kind == PortType::MidiJack
            &&& silent && !says(class, "midi"@) && says(class, "video"@) ==> kind
                == PortType::Video
            &&& silent && !says(class, "midi"@) && !says(class, "video"@) && says(class, "audio"@)
                ==> kind == PortType::Audio
            &&& silent && !says(class, "midi"@) && !says(class, "video"@) && !says(
                class,
                "audio"@,
            ) ==> kind == PortType::Unknown
        }),
{
    crate::text::law_found_text(lower(media), "midi"@);
    crate::text::law_found_text(lower(media), "video"@);
    crate::text::law_found_text(lower(media), "audio"@);
    crate::text::law_found_text(lower(class), "midi"@);
    crate::text::law_found_text(lower(class), "video"@);
    crate::text::law_found_text(lower(class), "audio"@);
}

} // verus!
