//! Graph identifiers and the backend namespaces they carry.
//!
//! Every graph object is named by one 64-bit number. The top byte names the
//! backend that owns the object and the other bytes hold the number that the
//! backend itself uses, so the objects of two backends never collide.
use vstd::prelude::*;

verus! {

#[derive(Clone, Copy, Debug, PartialEq, Eq, Structural, PartialOrd, Ord, Hash)]
pub struct NodeId(pub u64);

#[derive(Clone, Copy, Debug, PartialEq, Eq, Structural, PartialOrd, Ord, Hash)]
pub struct PortId(pub u64);

#[derive(Clone, Copy, Debug, PartialEq, Eq, Structural, PartialOrd, Ord, Hash)]
pub struct LinkId(pub u64);

/// The namespace that an identifier is encoded in.
#[derive(Clone, Copy, Debug, PartialEq, Eq, Structural)]
pub enum BackendNamespace {
    PipeWire,
    AlsaMidi,
    WindowsAudio,
    WindowsMidi,
    Demo,
}

/// The backend that owns a graph object.
#[derive(Clone, Copy, Debug, PartialEq, Eq, Structural)]
pub enum BackendKind {
    PipeWire,
    AlsaMidi,
    WindowsAudio,
    WindowsMidi,
    Demo,
}

/// The high bit marks identifiers written by older ALSA builds.
pub const ALSA_ID_FLAG: u64 = 0x8000_0000_0000_0000;

/// Number of identifiers in one namespace.
pub const NAMESPACE_SPAN: u64 = 0x0100_0000_0000_0000;

/// The top byte of a namespace's identifiers.
pub open spec fn namespace_tag(namespace: BackendNamespace) -> u64 {
    match namespace {
        BackendNamespace::PipeWire => 1,
        BackendNamespace::AlsaMidi => 2,
        BackendNamespace::WindowsAudio => 3,
        BackendNamespace::WindowsMidi => 4,
        BackendNamespace::Demo => 5,
    }
}

/// The identifier of a namespace's object: the tag in the top byte, the
/// object's own number, cut to the span of a namespace, below it.
pub open spec fn encoded(namespace: BackendNamespace, local: u64) -> u64 {
    (namespace_tag(namespace) * NAMESPACE_SPAN + local % NAMESPACE_SPAN) as u64
}

/// The number that the owning backend uses for an identifier.
pub open spec fn local_part(id: u64) -> u64 {
    if id >= ALSA_ID_FLAG {
        (id - ALSA_ID_FLAG) as u64
    } else {
        id % NAMESPACE_SPAN
    }
}

/// The namespace of an identifier.
pub open spec fn namespace_of(id: u64) -> Option<BackendNamespace> {
    if id >= ALSA_ID_FLAG {
        Some(BackendNamespace::AlsaMidi)
    } else if id / NAMESPACE_SPAN == 1 {
        Some(BackendNamespace::PipeWire)
    } else if id / NAMESPACE_SPAN == 2 {
        Some(BackendNamespace::AlsaMidi)
    } else if id / NAMESPACE_SPAN == 3 {
        Some(BackendNamespace::WindowsAudio)
    } else if id / NAMESPACE_SPAN == 4 {
        Some(BackendNamespace::WindowsMidi)
    } else if id / NAMESPACE_SPAN == 5 {
        Some(BackendNamespace::Demo)
    } else {
        None
    }
}

/// The backend behind a namespace.
pub open spec fn kind_of(namespace: BackendNamespace) -> BackendKind {
    match namespace {
        BackendNamespace::PipeWire => BackendKind::PipeWire,
        BackendNamespace::AlsaMidi => BackendKind::AlsaMidi,
        BackendNamespace::WindowsAudio => BackendKind::WindowsAudio,
        BackendNamespace::WindowsMidi => BackendKind::WindowsMidi,
        BackendNamespace::Demo => BackendKind::Demo,
    }
}

/// The backend that owns an identifier.
pub open spec fn owner_of(id: u64) -> Option<BackendKind> {
    match namespace_of(id) {
        Some(namespace) => Some(kind_of(namespace)),
        None => None,
    }
}

/// Encoding keeps the namespace and, below the span, the number.
pub proof fn law_encoding_round_trips(namespace: BackendNamespace, local: u64)
    ensures
        namespace_of(encoded(namespace, local)) == Some(namespace),
        local_part(encoded(namespace, local)) == local % NAMESPACE_SPAN,
        local < NAMESPACE_SPAN ==> local_part(encoded(namespace, local)) == local,
{
}

/// Objects of different namespaces, and different objects of one namespace,
/// have different identifiers.
pub proof fn law_namespaces_are_disjoint(
    a: BackendNamespace,
    x: u64,
    b: BackendNamespace,
    y: u64,
)
    requires
        x < NAMESPACE_SPAN,
        y < NAMESPACE_SPAN,
        encoded(a, x) == encoded(b, y),
    ensures
        a == b,
        x == y,
{
    law_encoding_round_trips(a, x);
    law_encoding_round_trips(b, y);
}

pub fn encode_backend_id(namespace: BackendNamespace, local: u64) -> (r: u64)
    ensures
        r == encoded(namespace, local),
{
    let tag: u64 = match namespace {
        BackendNamespace::PipeWire => 1,
        BackendNamespace::AlsaMidi => 2,
        BackendNamespace::WindowsAudio => 3,
        BackendNamespace::WindowsMidi => 4,
        BackendNamespace::Demo => 5,
    };
    tag * NAMESPACE_SPAN + local % NAMESPACE_SPAN
}

pub fn decode_backend_local_id(id: u64) -> (r: u64)
    ensures
        r == local_part(id),
{
    if id >= ALSA_ID_FLAG {
        id - ALSA_ID_FLAG
    } else {
        id % NAMESPACE_SPAN
    }
}

pub fn decode_backend_namespace(id: u64) -> (r: Option<BackendNamespace>)
    ensures
        r == namespace_of(id),
{
    if id >= ALSA_ID_FLAG {
        return Some(BackendNamespace::AlsaMidi);
    }
    let tag: u64 = id / NAMESPACE_SPAN;
    if tag == 1 {
        Some(BackendNamespace::PipeWire)
    } else if tag == 2 {
        Some(BackendNamespace::AlsaMidi)
    } else if tag == 3 {
        Some(BackendNamespace::WindowsAudio)
    } else if tag == 4 {
        Some(BackendNamespace::WindowsMidi)
    } else if tag == 5 {
        Some(BackendNamespace::Demo)
    } else {
        None
    }
}

fn backend_for_id(id: u64) -> (r: Option<BackendKind>)
    ensures
        r == owner_of(id),
{
    match decode_backend_namespace(id) {
        Some(BackendNamespace::PipeWire) => Some(BackendKind::PipeWire),
        Some(BackendNamespace::AlsaMidi) => Some(BackendKind::AlsaMidi),
        Some(BackendNamespace::WindowsAudio) => Some(BackendKind::WindowsAudio),
        Some(BackendNamespace::WindowsMidi) => Some(BackendKind::WindowsMidi),
        Some(BackendNamespace::Demo) => Some(BackendKind::Demo),
        None => None,
    }
}

pub fn backend_for_node(node: NodeId) -> (r: Option<BackendKind>)
    ensures
        r == owner_of(node.0),
{
    backend_for_id(node.0)
}

pub fn backend_for_port(port: PortId) -> (r: Option<BackendKind>)
    ensures
        r == owner_of(port.0),
{
    backend_for_id(port.0)
}

pub fn backend_for_link(link: LinkId) -> (r: Option<BackendKind>)
    ensures
        r == owner_of(link.0),
{
    backend_for_id(link.0)
}

/// The graph identifier of a native PipeWire object.
pub fn graph_id(native_id: u64) -> (r: u64)
    ensures
        r == encoded(BackendNamespace::PipeWire, native_id),
{
    encode_backend_id(BackendNamespace::PipeWire, native_id)
}

/// The native number behind an identifier, cut to the 32 bits that PipeWire
/// uses.
pub open spec fn native_part(id: u64) -> u32 {
    (local_part(id) % 0x1_0000_0000) as u32
}

pub fn native_id(graph_id: u64) -> (r: u32)
    ensures
        r == native_part(graph_id),
{
    (decode_backend_local_id(graph_id) % 0x1_0000_0000) as u32
}

pub fn native_node_id(node_id: NodeId) -> (r: u32)
    ensures
        r == native_part(node_id.0),
{
    native_id(node_id.0)
}

pub fn native_port_id(port_id: PortId) -> (r: u32)
    ensures
        r == native_part(port_id.0),
{
    native_id(port_id.0)
}

pub fn native_link_id(link_id: LinkId) -> (r: u32)
    ensures
        r == native_part(link_id.0),
{
    native_id(link_id.0)
}

/// A native number survives the way into the graph and back.
pub proof fn law_native_ids_round_trip(native: u32)
    ensures
        native_part(encoded(BackendNamespace::PipeWire, native as u64)) == native,
        owner_of(encoded(BackendNamespace::PipeWire, native as u64)) == Some(
            BackendKind::PipeWire,
        ),
{
}

/// Every namespace has a kind of backend of its own.
pub proof fn law_kinds_of_namespaces(a: BackendNamespace, b: BackendNamespace)
    ensures
        kind_of(a) == kind_of(b) ==> a == b,
        kind_of(BackendNamespace::PipeWire) is PipeWire,
        kind_of(BackendNamespace::AlsaMidi) is AlsaMidi,
        kind_of(BackendNamespace::WindowsAudio) is WindowsAudio,
        kind_of(BackendNamespace::WindowsMidi) is WindowsMidi,
        kind_of(BackendNamespace::Demo) is Demo,
        namespace_tag(a) == namespace_tag(b) ==> a == b,
{
}

/// An identifier belongs to the backend whose number it was made for, and its
/// number is found in it again.
pub proof fn law_owners(namespace: BackendNamespace, local: u64)
    requires
        local < NAMESPACE_SPAN,
    ensures
        owner_of(encoded(namespace, local)) == Some(kind_of(namespace)),
        local_part(encoded(namespace, local)) == local,
        local <= u32::MAX ==> native_part(encoded(namespace, local)) == local,
{
    law_encoding_round_trips(namespace, local);
}

} // verus!
