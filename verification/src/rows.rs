//! The rows that the window shows: nodes with their ports, and relay devices.
//! Lengths are in pixels.
use crate::ids::PortId;
use crate::lists::{first_in, lemma_first_in, lemma_none_in};
use crate::model::{Direction, PortType};
use crate::samples::{held, hold, SILENCE, UNITY};
use crate::settings::Rgba;
use crate::text::{concat2, concat3, decimal, decimal_text, text_eq};
use std::collections::BTreeMap;
use vstd::prelude::*;

verus! {

broadcast use vstd::std_specs::btree::group_btree_axioms;

/// The height of a row of a port.
pub const PORT_HEIGHT: u64 = 22;

/// How wide a node is.
pub const NODE_WIDTH: u64 = 280;

/// The height of a node with so many rows of ports.
pub fn node_height(ports: u32) -> (r: u64)
    ensures
        r == 70 + ports * 22,
{
    70 + ports as u64 * PORT_HEIGHT
}

/// The height of such a node on the small map.
pub fn minimap_height(ports: u32) -> (r: u64)
    ensures
        r == 100 + ports * 22,
{
    100 + ports as u64 * PORT_HEIGHT
}

/// The colours of the kinds of ports.
#[derive(Clone, Copy, Debug, PartialEq, Eq, Structural)]
pub struct PortColors {
    pub audio: Rgba,
    pub video: Rgba,
    pub midi: Rgba,
    pub unknown: Rgba,
}

impl PortColors {
    pub open spec fn color(self, port_type: PortType) -> Rgba {
        match port_type {
            PortType::Audio => self.audio,
            PortType::Video => self.video,
            PortType::MidiJack => self.midi,
            PortType::Unknown => self.unknown,
        }
    }

    /// The colour of a kind of ports.
    pub fn color_of(&self, port_type: PortType) -> (r: Rgba)
        ensures
            r == self.color(port_type),
    {
        match port_type {
            PortType::Audio => self.audio,
            PortType::Video => self.video,
            PortType::MidiJack => self.midi,
            PortType::Unknown => self.unknown,
        }
    }
}

/// A group of ports that one pin stands for.
#[derive(Debug, PartialEq, Eq)]
pub struct PinGroup {
    pub pin_id: i32,
    pub label: String,
    pub direction: Direction,
    pub port_type: PortType,
    pub ports: Vec<PortId>,
}

/// A row of a port.
#[derive(Debug, PartialEq, Eq)]
pub struct PortRow {
    pub id: i32,
    pub label: String,
    /// Zero for an input, one for an output.
    pub side: i32,
    pub color: Rgba,
    pub y: u64,
}

/// The row shows the group.
pub open spec fn row_shows(
    row: PortRow,
    group: PinGroup,
    colors: PortColors,
    index: int,
) -> bool {
    &&& row.id == group.pin_id
    &&& row.label@ == group.label@
    &&& row.side == (if group.direction == Direction::Sink {
        0int
    } else {
        1int
    })
    &&& row.color == colors.color(group.port_type)
    &&& row.y == index * 22
}

/// The rows show the groups, from top to bottom.
pub open spec fn rows_show(
    rows: Seq<PortRow>,
    groups: Seq<PinGroup>,
    colors: PortColors,
) -> bool {
    &&& rows.len() == groups.len()
    &&& forall|i: int|
        0 <= i < rows.len() ==> row_shows(#[trigger] rows[i], groups[i], colors, i)
}

/// The rows of a node's ports, from top to bottom.
pub fn port_rows(groups: &Vec<PinGroup>, colors: &PortColors) -> (r: Vec<PortRow>)
    requires
        groups@.len() <= u32::MAX,
    ensures
        rows_show(r@, groups@, *colors),
{
    let mut rows: Vec<PortRow> = Vec::new();
    let mut i: usize = 0;
    while i < groups.len()
        invariant
            i <= groups.len(),
            groups@.len() <= u32::MAX,
            rows@.len() == i,
            forall|j: int|
                0 <= j < i ==> row_shows(#[trigger] rows@[j], groups@[j], *colors, j),
        decreases groups.len() - i,
    {
        let group = &groups[i];
        let side: i32 = if group.direction.is_sink() {
            0
        } else {
            1
        };
        rows.push(
            PortRow {
                id: group.pin_id,
                label: group.label.clone(),
                side,
                color: colors.color_of(group.port_type),
                y: i as u64 * PORT_HEIGHT,
            },
        );
        i = i + 1;
    }
    rows
}

/// The group of a pin.
pub open spec fn at_pin(pin: i32) -> spec_fn(PinGroup) -> bool {
    |group: PinGroup| group.pin_id == pin
}

/// The ports that a pin stands for: those of its first group, else the port of
/// the same number, if there is one.
pub open spec fn pin_ports(groups: Seq<PinGroup>, pin: i32, single: Option<PortId>) -> Seq<PortId> {
    match first_in(groups, at_pin(pin)) {
        Some(group) => group.ports@,
        None => match single {
            Some(port) => seq![port],
            None => Seq::empty(),
        },
    }
}

/// The ports of the first group of a pin.
pub fn group_ports(groups: &Vec<PinGroup>, pin: i32) -> (r: Option<Vec<PortId>>)
    ensures
        match first_in(groups@, at_pin(pin)) {
            Some(group) => r matches Some(ports) && ports@ == group.ports@,
            None => r is None,
        },
{
    let mut i: usize = 0;
    while i < groups.len()
        invariant
            i <= groups.len(),
            forall|j: int| 0 <= j < i ==> !at_pin(pin)(#[trigger] groups@[j]),
        decreases groups.len() - i,
    {
        if groups[i].pin_id == pin {
            proof {
                lemma_first_in(groups@, at_pin(pin), i as int);
            }
            return Some(crate::model::copy_port_ids(&groups[i].ports));
        }
        i = i + 1;
    }
    proof {
        lemma_none_in(groups@, at_pin(pin));
    }
    None
}

/// The ports that a pin stands for.
pub fn ports_of_pin(groups: &Vec<PinGroup>, pin: i32, single: Option<PortId>) -> (r: Vec<PortId>)
    ensures
        r@ == pin_ports(groups@, pin, single),
{
    match group_ports(groups, pin) {
        Some(ports) => ports,
        None => {
            let mut ports: Vec<PortId> = Vec::new();
            if let Some(port) = single {
                ports.push(port);
            }
            assert(single is Some ==> ports@ =~= seq![single->0]);
            assert(single is None ==> ports@ =~= Seq::empty());
            ports
        },
    }
}

/// The line with the numbers of nodes, ports and links.
pub fn graph_counts_text(nodes: u64, ports: u64, links: u64) -> (r: String)
    ensures
        r@ == decimal(nodes as nat) + " nodes · "@ + decimal(ports as nat) + " ports · "@ + decimal(
            links as nat,
        ) + " links"@,
{
    let head = concat3(decimal_text(nodes).as_str(), " nodes · ", decimal_text(ports).as_str());
    let tail = concat3(" ports · ", decimal_text(links).as_str(), " links");
    let r = concat2(head.as_str(), tail.as_str());
    assert(r@ =~= decimal(nodes as nat) + " nodes · "@ + decimal(ports as nat) + " ports · "@
        + decimal(links as nat) + " links"@);
    r
}

/// How a relay device stands.
#[derive(Clone, Copy, Debug, PartialEq, Eq, Structural)]
pub enum RelayDeviceState {
    Available,
    Connecting,
    Connected(u64),
}

/// A relay device.
#[derive(Debug, PartialEq, Eq)]
pub struct RelayDeviceRow {
    pub name: String,
    pub address: String,
    pub state: RelayDeviceState,
}

/// The word for how a device stands.
pub open spec fn state_word(state: RelayDeviceState) -> Seq<char> {
    match state {
        RelayDeviceState::Available => "available"@,
        RelayDeviceState::Connecting => "connecting"@,
        RelayDeviceState::Connected(_) => "connected"@,
    }
}

pub fn relay_state_text(state: RelayDeviceState) -> (r: &'static str)
    ensures
        r@ == state_word(state),
{
    match state {
        RelayDeviceState::Available => "available",
        RelayDeviceState::Connecting => "connecting",
        RelayDeviceState::Connected(_) => "connected",
    }
}

/// The level that is shown for a device, as the bit pattern of a number
/// between zero and one. Only a connected device has one.
pub fn relay_level(state: RelayDeviceState, levels: &BTreeMap<u64, u32>) -> (r: u32)
    ensures
        r == (match state {
            RelayDeviceState::Connected(session) if levels@.contains_key(session) => held(
                levels@[session],
                UNITY,
            ),
            _ => SILENCE,
        }),
{
    match state {
        RelayDeviceState::Connected(session) => match levels.get(&session) {
            Some(level) => hold(*level, UNITY),
            None => SILENCE,
        },
        _ => SILENCE,
    }
}

/// What picking a device does.
#[derive(Clone, Copy, Debug, PartialEq, Eq, Structural)]
pub enum RelayRowStep {
    Nothing,
    Connect,
    Cancel,
    Disconnect(u64),
}

/// The device of an address.
pub open spec fn at_address(address: Seq<char>) -> spec_fn(RelayDeviceRow) -> bool {
    |row: RelayDeviceRow| row.address@ == address
}

/// Picking a device connects it, gives up connecting, or takes it off. A
/// device that is not there is not picked.
pub open spec fn row_step(rows: Seq<RelayDeviceRow>, address: Seq<char>) -> RelayRowStep {
    match first_in(rows, at_address(address)) {
        None => RelayRowStep::Nothing,
        Some(row) => match row.state {
            RelayDeviceState::Available => RelayRowStep::Connect,
            RelayDeviceState::Connecting => RelayRowStep::Cancel,
            RelayDeviceState::Connected(session) => RelayRowStep::Disconnect(session),
        },
    }
}

/// What picking a device does.
pub fn relay_row_step(rows: &Vec<RelayDeviceRow>, address: &str) -> (r: RelayRowStep)
    ensures
        r == row_step(rows@, address@),
{
    let mut i: usize = 0;
    while i < rows.len()
        invariant
            i <= rows.len(),
            forall|j: int| 0 <= j < i ==> !at_address(address@)(#[trigger] rows@[j]),
        decreases rows.len() - i,
    {
        if text_eq(rows[i].address.as_str(), address) {
            proof {
                lemma_first_in(rows@, at_address(address@), i as int);
            }
            return match rows[i].state {
                RelayDeviceState::Available => RelayRowStep::Connect,
                RelayDeviceState::Connecting => RelayRowStep::Cancel,
                RelayDeviceState::Connected(session) => RelayRowStep::Disconnect(session),
            };
        }
        i = i + 1;
    }
    proof {
        lemma_none_in(rows@, at_address(address@));
    }
    RelayRowStep::Nothing
}

/// A pin stands for the ports of its group; a pin without a group stands for
/// its own port, if it has one.
pub proof fn law_ports_of_a_pin(groups: Seq<PinGroup>, pin: i32, single: Option<PortId>, i: int)
    ensures
        0 <= i < groups.len() && groups[i].pin_id == pin && (forall|j: int|
            0 <= j < i ==> (#[trigger] groups[j]).pin_id != pin) ==> pin_ports(groups, pin, single)
            == groups[i].ports@,
        (forall|j: int| 0 <= j < groups.len() ==> (#[trigger] groups[j]).pin_id != pin) ==> (match single {
            Some(port) => pin_ports(groups, pin, single) == seq![port],
            None => pin_ports(groups, pin, single).len() == 0,
        }),
{
    if 0 <= i < groups.len() && groups[i].pin_id == pin && (forall|j: int|
        0 <= j < i ==> (#[trigger] groups[j]).pin_id != pin) {
        crate::lists::lemma_first_in(groups, at_pin(pin), i);
    }
    if forall|j: int| 0 <= j < groups.len() ==> (#[trigger] groups[j]).pin_id != pin {
        crate::lists::lemma_none_in(groups, at_pin(pin));
    }
}

/// The action at a device's row connects one that is available, gives up one
/// that is connecting, and disconnects the session of one that is connected;
/// an address without a row does nothing.
pub proof fn law_actions_of_rows(rows: Seq<RelayDeviceRow>, address: Seq<char>, i: int)
    ensures
        0 <= i < rows.len() && rows[i].address@ == address && (forall|j: int|
            0 <= j < i ==> (#[trigger] rows[j]).address@ != address) ==> match rows[i].state {
            RelayDeviceState::Available => row_step(rows, address) is Connect,
            RelayDeviceState::Connecting => row_step(rows, address) is Cancel,
            RelayDeviceState::Connected(session) => row_step(rows, address)
                == RelayRowStep::Disconnect(session),
        },
        (forall|j: int| 0 <= j < rows.len() ==> (#[trigger] rows[j]).address@ != address)
            ==> row_step(rows, address) is Nothing,
{
    if 0 <= i < rows.len() && rows[i].address@ == address && (forall|j: int|
        0 <= j < i ==> (#[trigger] rows[j]).address@ != address) {
        crate::lists::lemma_first_in(rows, at_address(address), i);
    }
    if forall|j: int| 0 <= j < rows.len() ==> (#[trigger] rows[j]).address@ != address {
        crate::lists::lemma_none_in(rows, at_address(address));
    }
}

/// A row shows its group: what takes in on the left, what gives on the right,
/// in the colour of what it carries, one below the other.
pub proof fn law_rows_show_their_ports(
    rows: Seq<PortRow>,
    groups: Seq<PinGroup>,
    colors: PortColors,
    i: int,
)
    requires
        rows_show(rows, groups, colors),
        0 <= i < groups.len(),
    ensures
        rows.len() == groups.len(),
        rows[i].id == groups[i].pin_id,
        rows[i].label@ == groups[i].label@,
        groups[i].direction == Direction::Sink <==> rows[i].side == 0,
        groups[i].direction == Direction::Source <==> rows[i].side == 1,
        groups[i].port_type == PortType::Audio ==> rows[i].color == colors.audio,
        groups[i].port_type == PortType::Video ==> rows[i].color == colors.video,
        groups[i].port_type == PortType::MidiJack ==> rows[i].color == colors.midi,
        groups[i].port_type == PortType::Unknown ==> rows[i].color == colors.unknown,
        i > 0 ==> rows[i].y == rows[i - 1].y + 22,
{
    assert(row_shows(rows[i], groups[i], colors, i));
    if i > 0 {
        assert(row_shows(rows[i - 1], groups[i - 1], colors, i - 1));
    }
}

} // verus!
