//! Nodes, ports and links, and the errors of graph mutations.
use crate::ids::{LinkId, NodeId, PortId};
use crate::text::{concat2, concat3, decimal, decimal_text, text_eq};
use vstd::prelude::*;

verus! {

#[derive(Clone, Copy, Debug, PartialEq, Eq, Structural)]
pub enum Direction {
    Source,
    Sink,
}

#[derive(Clone, Copy, Debug, PartialEq, Eq, Structural)]
pub enum PortType {
    Audio,
    Video,
    MidiJack,
    Unknown,
}

#[derive(Clone, Copy, Debug, PartialEq, Eq, Structural)]
pub enum NodeType {
    PipeWire,
    AlsaMidi,
    WindowsAudioEndpoint,
    WindowsAudioSession,
    WindowsMidi,
    Effect,
    Recorder,
}

/// A canvas position. Each coordinate is the bit pattern of a 32-bit
/// floating point number.
#[derive(Clone, Copy, Debug, PartialEq, Eq, Structural)]
pub struct Position {
    pub x: u32,
    pub y: u32,
}

impl Position {
    pub open spec fn spec_origin() -> Position {
        Position { x: 0, y: 0 }
    }

    /// The position (0, 0).
    pub fn origin() -> (r: Position)
        ensures
            r == Position::spec_origin(),
    {
        Position { x: 0, y: 0 }
    }
}

impl Direction {
    pub fn is_source(&self) -> (r: bool)
        ensures
            r == (*self == Direction::Source),
    {
        *self == Direction::Source
    }

    pub fn is_sink(&self) -> (r: bool)
        ensures
            r == (*self == Direction::Sink),
    {
        *self == Direction::Sink
    }
}

/// Media types that may be linked: equal ones, and any with an unknown one.
pub open spec fn types_compatible(a: PortType, b: PortType) -> bool {
    a == b || a == PortType::Unknown || b == PortType::Unknown
}

pub fn port_types_compatible(a: PortType, b: PortType) -> (r: bool)
    ensures
        r == types_compatible(a, b),
{
    a == b || a == PortType::Unknown || b == PortType::Unknown
}

/// The characters of an optional text.
pub open spec fn opt_text(o: Option<String>) -> Option<Seq<char>> {
    match o {
        Some(s) => Some(s@),
        None => None,
    }
}

/// A copy of an optional text.
pub fn clone_opt(o: &Option<String>) -> (r: Option<String>)
    ensures
        r == *o,
{
    match o {
        Some(s) => Some(s.clone()),
        None => None,
    }
}

/// Whether two optional texts hold the same characters.
pub fn opt_text_eq(a: &Option<String>, b: &Option<String>) -> (r: bool)
    ensures
        r == (opt_text(*a) == opt_text(*b)),
{
    match (a, b) {
        (Some(x), Some(y)) => text_eq(x.as_str(), y.as_str()),
        (None, None) => true,
        _ => false,
    }
}

/// Stable facts about the program behind a node.
#[derive(Debug, PartialEq, Eq)]
pub struct NodeIdentity {
    pub application_id: Option<String>,
    pub application_name: Option<String>,
    pub process_binary: Option<String>,
    pub node_name: String,
    pub description: Option<String>,
    pub media_role: Option<String>,
    pub media_name: Option<String>,
    pub client_name: Option<String>,
    pub client_api: Option<String>,
    pub client_id: Option<u32>,
    pub object_path: Option<String>,
    pub object_serial: Option<u64>,
    pub effect_instance_id: Option<String>,
}

/// The texts and numbers of a [`NodeIdentity`].
pub struct NodeIdentityView {
    pub application_id: Option<Seq<char>>,
    pub application_name: Option<Seq<char>>,
    pub process_binary: Option<Seq<char>>,
    pub node_name: Seq<char>,
    pub description: Option<Seq<char>>,
    pub media_role: Option<Seq<char>>,
    pub media_name: Option<Seq<char>>,
    pub client_name: Option<Seq<char>>,
    pub client_api: Option<Seq<char>>,
    pub client_id: Option<u32>,
    pub object_path: Option<Seq<char>>,
    pub object_serial: Option<u64>,
    pub effect_instance_id: Option<Seq<char>>,
}

impl View for NodeIdentity {
    type V = NodeIdentityView;

    open spec fn view(&self) -> NodeIdentityView {
        NodeIdentityView {
            application_id: opt_text(self.application_id),
            application_name: opt_text(self.application_name),
            process_binary: opt_text(self.process_binary),
            node_name: self.node_name@,
            description: opt_text(self.description),
            media_role: opt_text(self.media_role),
            media_name: opt_text(self.media_name),
            client_name: opt_text(self.client_name),
            client_api: opt_text(self.client_api),
            client_id: self.client_id,
            object_path: opt_text(self.object_path),
            object_serial: self.object_serial,
            effect_instance_id: opt_text(self.effect_instance_id),
        }
    }
}

/// The identity of a node about which only its name is known.
pub open spec fn bare_identity(name: Seq<char>) -> NodeIdentityView {
    NodeIdentityView {
        application_id: None,
        application_name: None,
        process_binary: None,
        node_name: name,
        description: None,
        media_role: None,
        media_name: None,
        client_name: None,
        client_api: None,
        client_id: None,
        object_path: None,
        object_serial: None,
        effect_instance_id: None,
    }
}

impl NodeIdentity {
    /// The identity of a node about which only its name is known.
    pub fn named(name: &str) -> (r: NodeIdentity)
        ensures
            r@ == bare_identity(name@),
    {
        NodeIdentity {
            application_id: None,
            application_name: None,
            process_binary: None,
            node_name: name.to_owned(),
            description: None,
            media_role: None,
            media_name: None,
            client_name: None,
            client_api: None,
            client_id: None,
            object_path: None,
            object_serial: None,
            effect_instance_id: None,
        }
    }

    /// A copy with the same contents.
    pub fn duplicate(&self) -> (r: NodeIdentity)
        ensures
            r == *self,
    {
        NodeIdentity {
            application_id: clone_opt(&self.application_id),
            application_name: clone_opt(&self.application_name),
            process_binary: clone_opt(&self.process_binary),
            node_name: self.node_name.clone(),
            description: clone_opt(&self.description),
            media_role: clone_opt(&self.media_role),
            media_name: clone_opt(&self.media_name),
            client_name: clone_opt(&self.client_name),
            client_api: clone_opt(&self.client_api),
            client_id: self.client_id,
            object_path: clone_opt(&self.object_path),
            object_serial: self.object_serial,
            effect_instance_id: clone_opt(&self.effect_instance_id),
        }
    }
}

/// A node of the graph. `ports` lists its ports in the order in which they
/// were added.
#[derive(Debug, PartialEq, Eq)]
pub struct Node {
    pub id: NodeId,
    pub name: String,
    pub node_type: NodeType,
    pub position: Position,
    pub ports: Vec<PortId>,
    pub serial: Option<u64>,
    pub effect_instance_id: Option<String>,
    pub identity: NodeIdentity,
}

/// The contents of a [`Node`].
pub struct NodeView {
    pub id: NodeId,
    pub name: Seq<char>,
    pub node_type: NodeType,
    pub position: Position,
    pub ports: Seq<PortId>,
    pub serial: Option<u64>,
    pub effect_instance_id: Option<Seq<char>>,
    pub identity: NodeIdentityView,
}

impl View for Node {
    type V = NodeView;

    open spec fn view(&self) -> NodeView {
        NodeView {
            id: self.id,
            name: self.name@,
            node_type: self.node_type,
            position: self.position,
            ports: self.ports@,
            serial: self.serial,
            effect_instance_id: opt_text(self.effect_instance_id),
            identity: self.identity@,
        }
    }
}

/// A node as it is created: at the origin, without ports.
pub open spec fn fresh_node(id: NodeId, name: Seq<char>, node_type: NodeType) -> NodeView {
    NodeView {
        id,
        name,
        node_type,
        position: Position::spec_origin(),
        ports: Seq::empty(),
        serial: None,
        effect_instance_id: None,
        identity: bare_identity(name),
    }
}

impl Node {
    pub fn new(id: NodeId, name: &str, node_type: NodeType) -> (r: Node)
        ensures
            r@ == fresh_node(id, name@, node_type),
    {
        Node {
            id,
            name: name.to_owned(),
            node_type,
            position: Position::origin(),
            ports: Vec::new(),
            serial: None,
            effect_instance_id: None,
            identity: NodeIdentity::named(name),
        }
    }

    /// The node as the host of an effect instance.
    pub fn with_effect_instance(self, instance_id: &str) -> (r: Node)
        ensures
            r@ == (NodeView { effect_instance_id: Some(instance_id@), ..self@ }),
    {
        let mut node = self;
        node.effect_instance_id = Some(instance_id.to_owned());
        node
    }

    /// The node with the daemon's serial number.
    pub fn with_serial(self, serial: u64) -> (r: Node)
        ensures
            r@ == (NodeView { serial: Some(serial), ..self@ }),
    {
        let mut node = self;
        node.serial = Some(serial);
        node
    }

    /// The node with what is known about its program.
    pub fn with_identity(self, identity: NodeIdentity) -> (r: Node)
        ensures
            r@ == (NodeView { identity: identity@, ..self@ }),
    {
        let mut node = self;
        node.identity = identity;
        node
    }

    /// A copy with the same contents.
    pub fn duplicate(&self) -> (r: Node)
        ensures
            r@ == self@,
    {
        let ports = copy_port_ids(&self.ports);
        Node {
            id: self.id,
            name: self.name.clone(),
            node_type: self.node_type,
            position: self.position,
            ports,
            serial: self.serial,
            effect_instance_id: clone_opt(&self.effect_instance_id),
            identity: self.identity.duplicate(),
        }
    }
}

/// A copy of a list of port identifiers.
pub fn copy_port_ids(ports: &Vec<PortId>) -> (r: Vec<PortId>)
    ensures
        r@ == ports@,
{
    let mut out: Vec<PortId> = Vec::new();
    let mut i: usize = 0;
    while i < ports.len()
        invariant
            i <= ports.len(),
            out@ == ports@.take(i as int),
        decreases ports.len() - i,
    {
        out.push(ports[i]);
        i = i + 1;
        assert(ports@.take(i as int) == ports@.take(i - 1).push(ports@[i - 1]));
    }
    assert(ports@.take(ports@.len() as int) == ports@);
    out
}

/// A port of a node.
#[derive(Debug, PartialEq, Eq)]
pub struct Port {
    pub id: PortId,
    pub node_id: NodeId,
    pub name: String,
    pub direction: Direction,
    pub port_type: PortType,
    pub channel: Option<String>,
}

/// The contents of a [`Port`].
pub struct PortView {
    pub id: PortId,
    pub node_id: NodeId,
    pub name: Seq<char>,
    pub direction: Direction,
    pub port_type: PortType,
    pub channel: Option<Seq<char>>,
}

impl View for Port {
    type V = PortView;

    open spec fn view(&self) -> PortView {
        PortView {
            id: self.id,
            node_id: self.node_id,
            name: self.name@,
            direction: self.direction,
            port_type: self.port_type,
            channel: opt_text(self.channel),
        }
    }
}

impl Port {
    pub fn new(
        id: PortId,
        node_id: NodeId,
        name: &str,
        direction: Direction,
        port_type: PortType,
    ) -> (r: Port)
        ensures
            r@ == (PortView { id, node_id, name: name@, direction, port_type, channel: None }),
    {
        Port { id, node_id, name: name.to_owned(), direction, port_type, channel: None }
    }

    /// The port with its audio channel.
    pub fn with_channel(self, channel: &str) -> (r: Port)
        ensures
            r@ == (PortView { channel: Some(channel@), ..self@ }),
    {
        let mut port = self;
        port.channel = Some(channel.to_owned());
        port
    }

    /// A copy with the same contents.
    pub fn duplicate(&self) -> (r: Port)
        ensures
            r == *self,
    {
        Port {
            id: self.id,
            node_id: self.node_id,
            name: self.name.clone(),
            direction: self.direction,
            port_type: self.port_type,
            channel: clone_opt(&self.channel),
        }
    }
}

/// A connection from a source port to a sink port.
#[derive(Clone, Copy, Debug, PartialEq, Eq, Structural)]
pub struct Link {
    pub id: LinkId,
    pub output_port: PortId,
    pub input_port: PortId,
}

/// What names a port across sessions, when its identifier has changed.
#[derive(Debug, PartialEq, Eq)]
pub struct PortKey {
    pub node_name: String,
    pub node_type: NodeType,
    pub port_name: String,
    pub channel: Option<String>,
    pub direction: Direction,
    pub port_type: PortType,
}

/// The contents of a [`PortKey`].
pub struct PortKeyView {
    pub node_name: Seq<char>,
    pub node_type: NodeType,
    pub port_name: Seq<char>,
    pub channel: Option<Seq<char>>,
    pub direction: Direction,
    pub port_type: PortType,
}

impl View for PortKey {
    type V = PortKeyView;

    open spec fn view(&self) -> PortKeyView {
        PortKeyView {
            node_name: self.node_name@,
            node_type: self.node_type,
            port_name: self.port_name@,
            channel: opt_text(self.channel),
            direction: self.direction,
            port_type: self.port_type,
        }
    }
}

impl PortKey {
    /// A copy with the same contents.
    pub fn duplicate(&self) -> (r: PortKey)
        ensures
            r == *self,
    {
        PortKey {
            node_name: self.node_name.clone(),
            node_type: self.node_type,
            port_name: self.port_name.clone(),
            channel: clone_opt(&self.channel),
            direction: self.direction,
            port_type: self.port_type,
        }
    }

    /// Whether two keys have the same contents.
    pub fn same_as(&self, other: &PortKey) -> (r: bool)
        ensures
            r == (self@ == other@),
    {
        text_eq(self.node_name.as_str(), other.node_name.as_str()) && self.node_type
            == other.node_type && text_eq(self.port_name.as_str(), other.port_name.as_str())
            && opt_text_eq(&self.channel, &other.channel) && self.direction == other.direction
            && self.port_type == other.port_type
    }
}

/// Two keys that may name the same port: everything agrees, except that a
/// missing channel agrees with any channel.
pub open spec fn keys_match(left: PortKeyView, right: PortKeyView) -> bool {
    &&& left.node_name == right.node_name
    &&& left.node_type == right.node_type
    &&& left.port_name == right.port_name
    &&& left.channel is None || right.channel is None || left.channel == right.channel
    &&& left.direction == right.direction
    &&& left.port_type == right.port_type
}

/// Whether two keys may name the same port.
pub fn port_keys_equal(left: &PortKey, right: &PortKey) -> (r: bool)
    ensures
        r == keys_match(left@, right@),
{
    text_eq(left.node_name.as_str(), right.node_name.as_str()) && left.node_type
        == right.node_type && text_eq(left.port_name.as_str(), right.port_name.as_str()) && (
    left.channel.is_none() || right.channel.is_none() || opt_text_eq(&left.channel, &right.channel))
        && left.direction == right.direction && left.port_type == right.port_type
}

/// Why a graph refused a mutation.
#[derive(Clone, Copy, Debug, PartialEq, Eq, Structural)]
pub enum GraphError {
    MissingNode(NodeId),
    MissingPort(PortId),
    MissingLink(LinkId),
    DuplicateNode(NodeId),
    DuplicatePort(PortId),
    DuplicateLink(LinkId),
    NotSource(PortId),
    NotSink(PortId),
    IncompatiblePorts(PortId, PortId),
    DuplicateConnection(PortId, PortId),
}

/// Why a backend refused a request.
#[derive(Debug, PartialEq, Eq)]
pub enum BackendError {
    Graph(GraphError),
    Native(String),
    Unsupported(String),
}

/// The contents of a [`BackendError`].
pub enum BackendErrorView {
    Graph(GraphError),
    Native(Seq<char>),
    Unsupported(Seq<char>),
}

impl View for BackendError {
    type V = BackendErrorView;

    open spec fn view(&self) -> BackendErrorView {
        match self {
            BackendError::Graph(error) => BackendErrorView::Graph(*error),
            BackendError::Native(message) => BackendErrorView::Native(message@),
            BackendError::Unsupported(message) => BackendErrorView::Unsupported(message@),
        }
    }
}

/// What is shown for a graph error.
pub open spec fn graph_error_text(error: GraphError) -> Seq<char> {
    match error {
        GraphError::MissingNode(id) => "unknown node "@ + decimal(id.0 as nat),
        GraphError::MissingPort(id) => "unknown port "@ + decimal(id.0 as nat),
        GraphError::MissingLink(id) => "unknown link "@ + decimal(id.0 as nat),
        GraphError::DuplicateNode(id) => "duplicate node "@ + decimal(id.0 as nat),
        GraphError::DuplicatePort(id) => "duplicate port "@ + decimal(id.0 as nat),
        GraphError::DuplicateLink(id) => "duplicate link "@ + decimal(id.0 as nat),
        GraphError::NotSource(id) => "not a source port: "@ + decimal(id.0 as nat),
        GraphError::NotSink(id) => "not a sink port: "@ + decimal(id.0 as nat),
        GraphError::IncompatiblePorts(a, b) => "incompatible ports "@ + decimal(a.0 as nat)
            + " and "@ + decimal(b.0 as nat),
        GraphError::DuplicateConnection(a, b) => "already connected: "@ + decimal(a.0 as nat)
            + " and "@ + decimal(b.0 as nat),
    }
}

/// What is shown for a backend error.
pub open spec fn backend_error_text(error: BackendErrorView) -> Seq<char> {
    match error {
        BackendErrorView::Graph(error) => graph_error_text(error),
        BackendErrorView::Native(message) => message,
        BackendErrorView::Unsupported(message) => message,
    }
}

impl GraphError {
    pub fn to_text(&self) -> (r: String)
        ensures
            r@ == graph_error_text(*self),
    {
        match self {
            GraphError::MissingNode(id) => concat2("unknown node ", decimal_text(id.0).as_str()),
            GraphError::MissingPort(id) => concat2("unknown port ", decimal_text(id.0).as_str()),
            GraphError::MissingLink(id) => concat2("unknown link ", decimal_text(id.0).as_str()),
            GraphError::DuplicateNode(id) => concat2(
                "duplicate node ",
                decimal_text(id.0).as_str(),
            ),
            GraphError::DuplicatePort(id) => concat2(
                "duplicate port ",
                decimal_text(id.0).as_str(),
            ),
            GraphError::DuplicateLink(id) => concat2(
                "duplicate link ",
                decimal_text(id.0).as_str(),
            ),
            GraphError::NotSource(id) => concat2(
                "not a source port: ",
                decimal_text(id.0).as_str(),
            ),
            GraphError::NotSink(id) => concat2("not a sink port: ", decimal_text(id.0).as_str()),
            GraphError::IncompatiblePorts(a, b) => concat2(
                concat3("incompatible ports ", decimal_text(a.0).as_str(), " and ").as_str(),
                decimal_text(b.0).as_str(),
            ),
            GraphError::DuplicateConnection(a, b) => concat2(
                concat3("already connected: ", decimal_text(a.0).as_str(), " and ").as_str(),
                decimal_text(b.0).as_str(),
            ),
        }
    }
}

impl BackendError {
    /// A failure of the backend itself.
    pub fn native(message: &str) -> (r: BackendError)
        ensures
            r@ == BackendErrorView::Native(message@),
    {
        BackendError::Native(message.to_owned())
    }

    /// A request that the backend does not offer.
    pub fn unsupported(message: &str) -> (r: BackendError)
        ensures
            r@ == BackendErrorView::Unsupported(message@),
    {
        BackendError::Unsupported(message.to_owned())
    }

    pub fn to_text(&self) -> (r: String)
        ensures
            r@ == backend_error_text(self@),
    {
        match self {
            BackendError::Graph(error) => error.to_text(),
            BackendError::Native(message) => message.clone(),
            BackendError::Unsupported(message) => message.clone(),
        }
    }
}

/// The message for a failed native operation.
pub open spec fn native_failure(operation: Seq<char>, error: Seq<char>) -> BackendErrorView {
    BackendErrorView::Native(operation + " failed: "@ + error)
}

/// Wraps the text of a native failure with the operation that failed.
pub fn native_error(operation: &str, error: &str) -> (r: BackendError)
    ensures
        r@ == native_failure(operation@, error@),
{
    BackendError::Native(concat3(operation, " failed: ", error))
}

/// Types fit where they are the same or one of them is not known, in either
/// order.
pub proof fn law_fitting_types(a: PortType, b: PortType)
    ensures
        types_compatible(a, b) == types_compatible(b, a),
        types_compatible(a, a),
        types_compatible(a, PortType::Unknown),
        types_compatible(a, b) && a != PortType::Unknown && b != PortType::Unknown ==> a == b,
{
}

/// Keys match where names, types and directions are the same, and channels
/// where both have one. Matching goes both ways.
pub proof fn law_matching_keys(a: PortKeyView, b: PortKeyView)
    ensures
        keys_match(a, b) == keys_match(b, a),
        keys_match(a, a),
        keys_match(a, b) ==> a.node_name == b.node_name && a.node_type == b.node_type
            && a.port_name == b.port_name && a.direction == b.direction && a.port_type
            == b.port_type,
        keys_match(a, b) && a.channel is Some && b.channel is Some ==> a == b,
        a.channel is None && b == (PortKeyView { channel: b.channel, ..a }) ==> keys_match(a, b),
{
}

/// A new node stands at the origin, has no ports, and is known by its name
/// alone.
pub proof fn law_fresh_nodes(id: NodeId, name: Seq<char>, node_type: NodeType)
    ensures
        ({
            let n = fresh_node(id, name, node_type);
            &&& n.id == id && n.name == name && n.node_type == node_type
            &&& n.ports.len() == 0
            &&& n.position.x == 0 && n.position.y == 0
            &&& n.serial is None && n.effect_instance_id is None
            &&& n.identity.node_name == name
            &&& n.identity.description is None && n.identity.application_name is None
        }),
{
}

/// The text of an error names the objects that it is about.
pub proof fn law_error_texts(error: GraphError, message: Seq<char>)
    ensures
        backend_error_text(BackendErrorView::Native(message)) == message,
        backend_error_text(BackendErrorView::Unsupported(message)) == message,
        backend_error_text(BackendErrorView::Graph(error)) == graph_error_text(error),
        error matches GraphError::MissingNode(id) ==> exists|head: Seq<char>|
            graph_error_text(error) == #[trigger] (head + decimal(id.0 as nat)),
        error matches GraphError::MissingPort(id) ==> exists|head: Seq<char>|
            graph_error_text(error) == #[trigger] (head + decimal(id.0 as nat)),
        error matches GraphError::MissingLink(id) ==> exists|head: Seq<char>|
            graph_error_text(error) == #[trigger] (head + decimal(id.0 as nat)),
{
}

} // verus!
