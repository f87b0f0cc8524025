//! Everything that the window shows, brought up to date in one go. Lengths are
//! in pixels; positions, levels and the scale are bit patterns of 32-bit
//! floating point numbers.
use crate::gallery::{
    controls_show, describes, find_descriptor, gallery_line, gallery_message, parameter_controls,
    EffectDescriptor, GalleryView, ParameterControl,
};
use crate::lists::first_in;
use crate::model::{NodeType, Position};
use crate::rows::{
    graph_counts_text, minimap_height, node_height, port_rows, relay_level, relay_state_text,
    rows_show, state_word, PinGroup, PortColors, PortRow, RelayDeviceRow, RelayDeviceState,
    NODE_WIDTH,
};
use crate::samples::{held, SILENCE, UNITY};
use crate::settings::{NodeAppearance, Rgba};
use crate::text::decimal;
use crate::ui_actions::{ConnectMode, MediaFilter, UiState, UiView};
use std::collections::BTreeMap;
use vstd::prelude::*;

verus! {

broadcast use vstd::std_specs::btree::group_btree_axioms;

/// A node that is to be shown.
#[derive(Debug, PartialEq, Eq)]
pub struct NodeShown {
    pub id: i32,
    pub title: String,
    pub node_type: NodeType,
    pub position: Position,
    pub selected: bool,
    pub appearance: NodeAppearance,
    pub ports: Vec<PinGroup>,
}

/// A link that is to be shown.
#[derive(Clone, Copy, Debug, PartialEq, Eq, Structural)]
pub struct LinkShown {
    pub id: i32,
    pub start_pin_id: i32,
    pub end_pin_id: i32,
    pub color: Rgba,
    pub selected: bool,
}

/// The card of a node.
#[derive(Debug, PartialEq, Eq)]
pub struct NodeRow {
    pub id: i32,
    pub title: String,
    pub node_type: &'static str,
    pub position: Position,
    pub width: u64,
    pub height: u64,
    pub selected: bool,
    pub collapsed: bool,
    pub color: Rgba,
    pub ports: Vec<PortRow>,
}

/// A node on the small map.
#[derive(Clone, Copy, Debug, PartialEq, Eq, Structural)]
pub struct MinimapRow {
    pub id: i32,
    pub position: Position,
    pub width: u64,
    pub height: u64,
    pub color: Rgba,
}

/// The line of a link.
#[derive(Clone, Copy, Debug, PartialEq, Eq, Structural)]
pub struct LinkRow {
    pub id: i32,
    pub start_pin_id: i32,
    pub end_pin_id: i32,
    pub color: Rgba,
    pub selected: bool,
    pub line_width: u64,
    /// No status is shown where this is less than zero.
    pub status: i32,
}

/// The row of a relay device.
#[derive(Debug, PartialEq, Eq)]
pub struct RelayRow {
    pub name: String,
    pub address: String,
    pub state: &'static str,
    pub level: u32,
}

/// The colour of a card for which none was chosen.
pub open spec fn plain_color() -> Rgba {
    Rgba { red: 63, green: 82, blue: 101, alpha: 255 }
}

/// The colour of a card.
pub open spec fn card_color(color: Option<Rgba>) -> Rgba {
    match color {
        Some(color) => color,
        None => plain_color(),
    }
}

fn card_color_of(appearance: &NodeAppearance) -> (r: Rgba)
    ensures
        r == card_color(appearance.color),
{
    match appearance.color {
        Some(color) => color,
        None => Rgba { red: 63, green: 82, blue: 101, alpha: 255 },
    }
}

/// The word for a kind of node.
pub open spec fn node_type_word(node_type: NodeType) -> Seq<char> {
    match node_type {
        NodeType::PipeWire => "PipeWire"@,
        NodeType::AlsaMidi => "AlsaMidi"@,
        NodeType::WindowsAudioEndpoint => "WindowsAudioEndpoint"@,
        NodeType::WindowsAudioSession => "WindowsAudioSession"@,
        NodeType::WindowsMidi => "WindowsMidi"@,
        NodeType::Effect => "Effect"@,
        NodeType::Recorder => "Recorder"@,
    }
}

pub fn node_type_text(node_type: NodeType) -> (r: &'static str)
    ensures
        r@ == node_type_word(node_type),
{
    match node_type {
        NodeType::PipeWire => "PipeWire",
        NodeType::AlsaMidi => "AlsaMidi",
        NodeType::WindowsAudioEndpoint => "WindowsAudioEndpoint",
        NodeType::WindowsAudioSession => "WindowsAudioSession",
        NodeType::WindowsMidi => "WindowsMidi",
        NodeType::Effect => "Effect",
        NodeType::Recorder => "Recorder",
    }
}

/// The card shows the node.
pub open spec fn card_shows(row: NodeRow, node: NodeShown, colors: PortColors) -> bool {
    &&& row.id == node.id
    &&& row.title@ == node.title@
    &&& row.node_type@ == node_type_word(node.node_type)
    &&& row.position == node.position
    &&& row.width == 280
    &&& row.height == 70 + node.ports@.len() * 22
    &&& row.selected == node.selected
    &&& row.collapsed == node.appearance.collapsed
    &&& row.color == card_color(node.appearance.color)
    &&& rows_show(row.ports@, node.ports@, colors)
}

/// The cards show the nodes, in their order.
pub open spec fn cards_show(
    rows: Seq<NodeRow>,
    nodes: Seq<NodeShown>,
    colors: PortColors,
) -> bool {
    &&& rows.len() == nodes.len()
    &&& forall|i: int| 0 <= i < rows.len() ==> card_shows(#[trigger] rows[i], nodes[i], colors)
}

/// A node on the small map.
pub open spec fn on_minimap(node: NodeShown) -> MinimapRow {
    MinimapRow {
        id: node.id,
        position: node.position,
        width: 280,
        height: (100 + node.ports@.len() * 22) as u64,
        color: card_color(node.appearance.color),
    }
}

/// The line of a link.
pub open spec fn line_of(link: LinkShown) -> LinkRow {
    LinkRow {
        id: link.id,
        start_pin_id: link.start_pin_id,
        end_pin_id: link.end_pin_id,
        color: link.color,
        selected: link.selected,
        line_width: 2,
        status: (-1) as i32,
    }
}

/// The row shows the device, with its newest level where it is connected.
pub open spec fn device_shown(row: RelayRow, device: RelayDeviceRow, levels: Map<u64, u32>) -> bool {
    &&& row.name@ == device.name@
    &&& row.address@ == device.address@
    &&& row.state@ == state_word(device.state)
    &&& row.level == (match device.state {
        RelayDeviceState::Connected(session) if levels.contains_key(session) => held(
            levels[session],
            UNITY,
        ),
        _ => SILENCE,
    })
}

/// The rows show the devices, in their order.
pub open spec fn devices_shown(
    rows: Seq<RelayRow>,
    devices: Seq<RelayDeviceRow>,
    levels: Map<u64, u32>,
) -> bool {
    &&& rows.len() == devices.len()
    &&& forall|i: int| 0 <= i < rows.len() ==> device_shown(#[trigger] rows[i], devices[i], levels)
}

/// What there is to show.
#[derive(Debug, PartialEq, Eq)]
pub struct Scene {
    pub nodes: Vec<NodeShown>,
    pub links: Vec<LinkShown>,
    pub colors: PortColors,
    pub devices: Vec<RelayDeviceRow>,
    pub levels: BTreeMap<u64, u32>,
    pub backend: String,
    pub node_count: u64,
    pub port_count: u64,
    pub link_count: u64,
    pub search: String,
    pub pan: Position,
    pub zoom: u32,
}

impl Scene {
    /// The cards have heights.
    pub open spec fn wf(&self) -> bool {
        forall|i: int| 0 <= i < self.nodes@.len() ==> (#[trigger] self.nodes@[i]).ports@.len()
            <= u32::MAX
    }
}

fn node_rows(nodes: &Vec<NodeShown>, colors: &PortColors) -> (r: Vec<NodeRow>)
    requires
        forall|i: int| 0 <= i < nodes@.len() ==> (#[trigger] nodes@[i]).ports@.len() <= u32::MAX,
    ensures
        cards_show(r@, nodes@, *colors),
{
    let mut rows: Vec<NodeRow> = Vec::new();
    let mut i: usize = 0;
    while i < nodes.len()
        invariant
            i <= nodes.len(),
            forall|j: int|
                0 <= j < nodes@.len() ==> (#[trigger] nodes@[j]).ports@.len() <= u32::MAX,
            rows@.len() == i,
            forall|j: int| 0 <= j < i ==> card_shows(#[trigger] rows@[j], nodes@[j], *colors),
        decreases nodes.len() - i,
    {
        let node = &nodes[i];
        assert(nodes@[i as int].ports@.len() <= u32::MAX);
        rows.push(
            NodeRow {
                id: node.id,
                title: node.title.clone(),
                node_type: node_type_text(node.node_type),
                position: node.position,
                width: NODE_WIDTH,
                height: node_height(node.ports.len() as u32),
                selected: node.selected,
                collapsed: node.appearance.collapsed,
                color: card_color_of(&node.appearance),
                ports: port_rows(&node.ports, colors),
            },
        );
        i = i + 1;
    }
    rows
}

fn minimap_rows(nodes: &Vec<NodeShown>) -> (r: Vec<MinimapRow>)
    requires
        forall|i: int| 0 <= i < nodes@.len() ==> (#[trigger] nodes@[i]).ports@.len() <= u32::MAX,
    ensures
        r@ == nodes@.map_values(|node: NodeShown| on_minimap(node)),
{
    let mut rows: Vec<MinimapRow> = Vec::new();
    let mut i: usize = 0;
    while i < nodes.len()
        invariant
            i <= nodes.len(),
            forall|j: int|
                0 <= j < nodes@.len() ==> (#[trigger] nodes@[j]).ports@.len() <= u32::MAX,
            rows@.len() == i,
            forall|j: int| 0 <= j < i ==> #[trigger] rows@[j] == on_minimap(nodes@[j]),
        decreases nodes.len() - i,
    {
        let node = &nodes[i];
        assert(nodes@[i as int].ports@.len() <= u32::MAX);
        rows.push(
            MinimapRow {
                id: node.id,
                position: node.position,
                width: NODE_WIDTH,
                height: minimap_height(node.ports.len() as u32),
                color: card_color_of(&node.appearance),
            },
        );
        i = i + 1;
    }
    assert(rows@ =~= nodes@.map_values(|node: NodeShown| on_minimap(node)));
    rows
}

fn link_rows(links: &Vec<LinkShown>) -> (r: Vec<LinkRow>)
    ensures
        r@ == links@.map_values(|link: LinkShown| line_of(link)),
{
    let mut rows: Vec<LinkRow> = Vec::new();
    let mut i: usize = 0;
    while i < links.len()
        invariant
            i <= links.len(),
            rows@.len() == i,
            forall|j: int| 0 <= j < i ==> #[trigger] rows@[j] == line_of(links@[j]),
        decreases links.len() - i,
    {
        let link = &links[i];
        rows.push(
            LinkRow {
                id: link.id,
                start_pin_id: link.start_pin_id,
                end_pin_id: link.end_pin_id,
                color: link.color,
                selected: link.selected,
                line_width: 2,
                status: -1,
            },
        );
        i = i + 1;
    }
    assert(rows@ =~= links@.map_values(|link: LinkShown| line_of(link)));
    rows
}

fn relay_rows(devices: &Vec<RelayDeviceRow>, levels: &BTreeMap<u64, u32>) -> (r: Vec<RelayRow>)
    ensures
        devices_shown(r@, devices@, levels@),
{
    let mut rows: Vec<RelayRow> = Vec::new();
    let mut i: usize = 0;
    while i < devices.len()
        invariant
            i <= devices.len(),
            rows@.len() == i,
            forall|j: int| 0 <= j < i ==> device_shown(#[trigger] rows@[j], devices@[j], levels@),
        decreases devices.len() - i,
    {
        let device = &devices[i];
        rows.push(
            RelayRow {
                name: device.name.clone(),
                address: device.address.clone(),
                state: relay_state_text(device.state),
                level: relay_level(device.state, levels),
            },
        );
        i = i + 1;
    }
    rows
}

/// What is shown of the gallery. Without a gallery, and for an effect that is
/// not described, there are no controls.
#[derive(Debug, PartialEq, Eq)]
pub struct EffectFields {
    pub parameters: Vec<ParameterControl>,
    pub enabled: bool,
    pub message: String,
}

/// The fields show the gallery.
pub open spec fn effect_shown(
    fields: EffectFields,
    gallery: Option<GalleryView>,
    descriptors: Seq<EffectDescriptor>,
    status: Seq<char>,
) -> bool {
    match gallery {
        None => {
            &&& fields.parameters@.len() == 0
            &&& fields.enabled
            &&& fields.message@ == status
        },
        Some(gallery) => {
            &&& match first_in(descriptors, describes(gallery.effect_id)) {
                None => fields.parameters@.len() == 0,
                Some(descriptor) => controls_show(
                    fields.parameters@,
                    descriptor,
                    gallery.parameters,
                ),
            }
            &&& fields.enabled == gallery.enabled
            &&& fields.message@ == gallery_line(status, gallery)
        },
    }
}

/// Shows the gallery, if there is one.
pub fn effect_fields(ui: &UiState, descriptors: &Vec<EffectDescriptor>) -> (r: EffectFields)
    requires
        ui.wf(),
    ensures
        effect_shown(r, ui@.gallery, descriptors@, ui@.status),
{
    match &ui.gallery {
        None => EffectFields {
            parameters: Vec::new(),
            enabled: true,
            message: ui.status.clone(),
        },
        Some(gallery) => {
            let parameters = match find_descriptor(descriptors, gallery.effect_id.as_str()) {
                None => Vec::new(),
                Some(i) => parameter_controls(&descriptors[i], &gallery.parameters),
            };
            EffectFields {
                parameters,
                enabled: gallery.enabled,
                message: gallery_message(ui.status.as_str(), gallery),
            }
        },
    }
}

/// The fields of the window beside its rows.
#[derive(Debug, PartialEq, Eq)]
pub struct WindowFields {
    pub status: String,
    pub backend: String,
    pub graph_counts: String,
    pub show_statusbar: bool,
    pub show_minimap: bool,
    pub show_preferences: bool,
    pub show_history: bool,
    pub show_shortcuts: bool,
    pub show_effects: bool,
    pub repel_overlapping: bool,
    pub connect_through: bool,
    pub effect: EffectFields,
    pub show_relay: bool,
    pub relay_target: String,
    pub relay_message: String,
    pub connect_mode: ConnectMode,
    pub media_filter: MediaFilter,
    pub search_text: String,
    pub pan: Position,
    pub zoom: u32,
}

/// The fields show what is open and how the graph is shown.
pub open spec fn fields_show(
    fields: WindowFields,
    scene: Scene,
    ui: UiView,
    descriptors: Seq<EffectDescriptor>,
) -> bool {
    &&& fields.status@ == ui.status
    &&& fields.backend@ == scene.backend@
    &&& fields.graph_counts@ == decimal(scene.node_count as nat) + " nodes · "@ + decimal(
        scene.port_count as nat,
    ) + " ports · "@ + decimal(scene.link_count as nat) + " links"@
    &&& fields.show_statusbar == ui.statusbar
    &&& fields.show_minimap == ui.minimap_visible
    &&& fields.show_preferences == ui.show_preferences
    &&& fields.show_history == ui.show_history
    &&& fields.show_shortcuts == ui.show_shortcuts
    &&& fields.show_effects == ui.show_effects
    &&& fields.repel_overlapping == ui.repel_overlapping_nodes
    &&& fields.connect_through == ui.connect_through_nodes
    &&& effect_shown(fields.effect, ui.gallery, descriptors, ui.status)
    &&& fields.show_relay == ui.show_relay
    &&& fields.relay_target@ == ui.relay.quick_target
    &&& fields.relay_message@ == ui.relay.message
    &&& fields.connect_mode == ui.connect_mode
    &&& fields.media_filter == ui.media_filter
    &&& fields.search_text@ == scene.search@
    &&& fields.pan == scene.pan
    &&& fields.zoom == scene.zoom
}

fn window_fields(scene: &Scene, ui: &UiState, descriptors: &Vec<EffectDescriptor>) -> (r:
    WindowFields)
    requires
        ui.wf(),
    ensures
        fields_show(r, *scene, ui@, descriptors@),
{
    WindowFields {
        status: ui.status.clone(),
        backend: scene.backend.clone(),
        graph_counts: graph_counts_text(scene.node_count, scene.port_count, scene.link_count),
        show_statusbar: ui.statusbar,
        show_minimap: ui.minimap_visible,
        show_preferences: ui.show_preferences,
        show_history: ui.show_history,
        show_shortcuts: ui.show_shortcuts,
        show_effects: ui.show_effects,
        repel_overlapping: ui.repel_overlapping_nodes,
        connect_through: ui.connect_through_nodes,
        effect: effect_fields(ui, descriptors),
        show_relay: ui.show_relay,
        relay_target: ui.relay.quick_target.clone(),
        relay_message: ui.relay.message.clone(),
        connect_mode: ui.connect_mode,
        media_filter: ui.media_filter,
        search_text: scene.search.clone(),
        pan: scene.pan,
        zoom: scene.zoom,
    }
}

/// The rows and fields of the window.
#[derive(Debug, PartialEq, Eq)]
pub struct WindowModels {
    pub nodes: Vec<NodeRow>,
    pub minimap: Vec<MinimapRow>,
    pub links: Vec<LinkRow>,
    pub relay: Vec<RelayRow>,
    /// The links that can be picked: number, first and second pin.
    pub registered: Vec<(i32, i32, i32)>,
    pub fields: WindowFields,
}

fn registered_links(links: &Vec<LinkShown>) -> (r: Vec<(i32, i32, i32)>)
    ensures
        r@ == links@.map_values(
            |link: LinkShown| (link.id, link.start_pin_id, link.end_pin_id),
        ),
{
    let mut ends: Vec<(i32, i32, i32)> = Vec::new();
    let mut i: usize = 0;
    while i < links.len()
        invariant
            i <= links.len(),
            ends@.len() == i,
            forall|j: int|
                0 <= j < i ==> #[trigger] ends@[j] == (
                    links@[j].id,
                    links@[j].start_pin_id,
                    links@[j].end_pin_id,
                ),
        decreases links.len() - i,
    {
        ends.push((links[i].id, links[i].start_pin_id, links[i].end_pin_id));
        i = i + 1;
    }
    assert(ends@ =~= links@.map_values(
        |link: LinkShown| (link.id, link.start_pin_id, link.end_pin_id),
    ));
    ends
}

impl WindowModels {
    /// The window as it opens on a scene.
    pub fn new(scene: &Scene, ui: &UiState, descriptors: &Vec<EffectDescriptor>) -> (r: WindowModels)
        requires
            scene.wf(),
            ui.wf(),
        ensures
            r.shows(*scene, ui@, descriptors@),
            r.shows_nodes(*scene),
    {
        WindowModels {
            nodes: node_rows(&scene.nodes, &scene.colors),
            minimap: minimap_rows(&scene.nodes),
            links: link_rows(&scene.links),
            relay: relay_rows(&scene.devices, &scene.levels),
            registered: registered_links(&scene.links),
            fields: window_fields(scene, ui, descriptors),
        }
    }

    /// The nodes of a scene, as cards and on the small map.
    pub open spec fn shows_nodes(&self, scene: Scene) -> bool {
        &&& cards_show(self.nodes@, scene.nodes@, scene.colors)
        &&& self.minimap@ == scene.nodes@.map_values(|node: NodeShown| on_minimap(node))
    }

    /// Everything of a scene but its nodes.
    pub open spec fn shows(
        &self,
        scene: Scene,
        ui: UiView,
        descriptors: Seq<EffectDescriptor>,
    ) -> bool {
        &&& self.links@ == scene.links@.map_values(|link: LinkShown| line_of(link))
        &&& devices_shown(self.relay@, scene.devices@, scene.levels@)
        &&& self.registered@ == scene.links@.map_values(
            |link: LinkShown| (link.id, link.start_pin_id, link.end_pin_id),
        )
        &&& fields_show(self.fields, scene, ui, descriptors)
    }

    /// Brings the window up to date. While a node is dragged (`dragged` is its
    /// number then, and zero otherwise) the rows of nodes stay as they are: the
    /// drag moves them, and they would jump back.
    pub fn sync(
        &mut self,
        dragged: i32,
        scene: &Scene,
        ui: &UiState,
        descriptors: &Vec<EffectDescriptor>,
    )
        requires
            scene.wf(),
            ui.wf(),
        ensures
            final(self).shows(*scene, ui@, descriptors@),
            dragged == 0 ==> final(self).shows_nodes(*scene),
            dragged != 0 ==> final(self).nodes == old(self).nodes && final(self).minimap == old(
                self,
            ).minimap,
    {
        if dragged == 0 {
            self.nodes = node_rows(&scene.nodes, &scene.colors);
            self.minimap = minimap_rows(&scene.nodes);
        }
        self.links = link_rows(&scene.links);
        self.relay = relay_rows(&scene.devices, &scene.levels);
        self.registered = registered_links(&scene.links);
        self.fields = window_fields(scene, ui, descriptors);
    }
}

/// A card shows its node: its number, its title, its kind and its place, with
/// a row for each group of its ports, in the colour that was chosen or the
/// plain one.
pub proof fn law_cards(rows: Seq<NodeRow>, nodes: Seq<NodeShown>, colors: PortColors, i: int)
    requires
        cards_show(rows, nodes, colors),
        0 <= i < nodes.len(),
    ensures
        rows.len() == nodes.len(),
        rows[i].id == nodes[i].id,
        rows[i].title@ == nodes[i].title@,
        rows[i].position == nodes[i].position,
        rows[i].selected == nodes[i].selected,
        rows[i].collapsed == nodes[i].appearance.collapsed,
        nodes[i].appearance.color matches Some(color) ==> rows[i].color == color,
        nodes[i].appearance.color is None ==> rows[i].color == plain_color(),
        rows[i].ports@.len() == nodes[i].ports@.len(),
        rows[i].height >= 70 + nodes[i].ports@.len() * 22,
{
    assert(card_shows(rows[i], nodes[i], colors));
}

/// Two kinds of nodes have different words.
pub proof fn law_kinds_are_told_apart(a: NodeType, b: NodeType)
    ensures
        node_type_word(a) == node_type_word(b) ==> a == b,
{
    reveal_strlit("PipeWire");
    reveal_strlit("AlsaMidi");
    reveal_strlit("WindowsAudioEndpoint");
    reveal_strlit("WindowsAudioSession");
    reveal_strlit("WindowsMidi");
    reveal_strlit("Effect");
    reveal_strlit("Recorder");
    assert("PipeWire"@[0] == 'P');
    assert("AlsaMidi"@[0] == 'A');
    assert("WindowsMidi"@[0] == 'W');
    assert("Effect"@[0] == 'E');
    assert("Recorder"@[0] == 'R');
    assert("WindowsAudioEndpoint"@[0] == 'W');
    assert("WindowsAudioSession"@[0] == 'W');
    assert("WindowsMidi"@.len() == 11);
    assert("WindowsAudioSession"@.len() == 19);
    assert("WindowsAudioEndpoint"@.len() == 20);
}

/// The small map shows every node where it is, in the colour of its card.
pub proof fn law_minimap(node: NodeShown)
    ensures
        on_minimap(node).id == node.id,
        on_minimap(node).position == node.position,
        on_minimap(node).width == 280,
        node.appearance.color matches Some(color) ==> on_minimap(node).color == color,
        node.appearance.color is None ==> on_minimap(node).color == plain_color(),
{
}

/// A line runs from the pin where its link starts to the pin where it ends.
pub proof fn law_lines(link: LinkShown)
    ensures
        line_of(link).id == link.id,
        line_of(link).start_pin_id == link.start_pin_id,
        line_of(link).end_pin_id == link.end_pin_id,
        line_of(link).selected == link.selected,
        line_of(link).color == link.color,
{
}

/// A device shows its level where it is connected and the level is known, and
/// is silent else.
pub proof fn law_device_levels(row: RelayRow, device: RelayDeviceRow, levels: Map<u64, u32>)
    requires
        device_shown(row, device, levels),
    ensures
        row.name@ == device.name@,
        row.address@ == device.address@,
        !(device.state is Connected) ==> row.level == 0,
        device.state matches RelayDeviceState::Connected(session) ==> {
            &&& levels.contains_key(session) && levels[session] <= UNITY ==> row.level
                == levels[session]
            &&& levels.contains_key(session) && UNITY < levels[session]
                <= crate::samples::INFINITE ==> row.level == UNITY
            &&& !levels.contains_key(session) ==> row.level == 0
        },
{
}

} // verus!
