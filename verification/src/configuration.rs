//! The settings between sessions: what is written of the window and the graph,
//! and what is taken from it again.
use crate::effect_model::EffectInstance;
use crate::graph::{Graph, GraphView};
use crate::ids::NodeId;
use crate::model::{opt_text, Position};
use crate::relay_ports::node_keys;
use crate::samples::{is_nan, magnitude_of, INFINITE, SIGN};
use crate::saved_effects::{drawn, SavedEffects};
use crate::settings::{
    appearance_of, connect_mode_text, kept_positions, kept_views, node_positions, occurs_once,
    is_length, parse_sort_key, parse_sort_order, positions_by_name, sort_key_of, sort_key_text, sort_key_word,
    sort_order_of, sort_order_text, sort_order_word, views_by_name, AppearanceView,
    NodeAppearance, PatchbayPlaces, WindowSize,
};
use crate::table::lists_domain;
use crate::text::decimal;
use crate::text_table::TextTable;
use crate::ui_actions::{ConnectMode, MediaFilter, RelayPanelView, UiState, UiView};
use vstd::prelude::*;

verus! {

broadcast use vstd::std_specs::btree::group_btree_axioms;

/// What is kept between sessions. Numbers are bit patterns of 32-bit floating
/// point numbers.
#[derive(Debug, PartialEq, Eq)]
pub struct Settings {
    pub zoom: u32,
    pub sort_type: String,
    pub sort_order: String,
    pub thumbnail_view: bool,
    pub minimap_visible: bool,
    pub connect_mode: String,
    pub media_filter: String,
    pub graph_search: String,
    /// Where each node is, by its number.
    pub node_positions: Vec<(String, Position)>,
    /// Where the nodes are whose names are their own, by their names.
    pub positions_by_name: TextTable<Position>,
    /// How those are drawn that are not plain.
    pub views_by_name: TextTable<NodeAppearance>,
    pub effects: SavedEffects,
    pub patchbay: PatchbayPlaces,
    pub node_text_scale: u32,
    pub repel_overlapping_nodes: bool,
    pub connect_through_nodes: bool,
}

/// What the drawing of the graph adds to what is open. The names and looks
/// belong to the nodes of the graph, in ascending order of their numbers.
#[derive(Debug, PartialEq, Eq)]
pub struct Canvas {
    pub zoom: u32,
    pub filter: String,
    pub search: String,
    pub names: Vec<String>,
    pub views: Vec<NodeAppearance>,
}

impl Canvas {
    /// There is a name and a look for each node.
    pub open spec fn fits(&self, g: GraphView) -> bool {
        &&& self.names@.len() == g.nodes.dom().len()
        &&& self.views@.len() == self.names@.len()
    }
}

/// Where the nodes of some numbers are.
pub open spec fn places_of(g: GraphView, ids: Seq<u64>) -> Seq<Position> {
    ids.map_values(|k: u64| g.nodes[k].position)
}

/// The list has the places of all nodes, by their numbers.
pub open spec fn lists_places(list: Seq<(String, Position)>, g: GraphView, ids: Seq<u64>) -> bool {
    &&& list.len() == ids.len()
    &&& forall|i: int|
        0 <= i < ids.len() ==> (#[trigger] list[i]).0@ == decimal(ids[i] as nat) && list[i].1
            == g.nodes[ids[i]].position
}

/// The word for a way of connecting.
pub open spec fn connect_word(mode: ConnectMode) -> Seq<char> {
    match mode {
        ConnectMode::Easy => "easy"@,
        ConnectMode::Advanced => "advanced"@,
    }
}

/// A list of all keys is as long as there are keys.
proof fn lemma_listing_length<V>(ids: Seq<u64>, m: Map<u64, V>)
    requires
        lists_domain(ids, m),
    ensures
        ids.len() == m.dom().len(),
{
    assert(ids.no_duplicates());
    ids.unique_seq_to_set();
    assert(ids.to_set() =~= m.dom());
}

/// Two such lists are the same.
proof fn lemma_one_listing<V>(a: Seq<u64>, b: Seq<u64>, m: Map<u64, V>, i: int)
    requires
        lists_domain(a, m),
        lists_domain(b, m),
        a.len() == b.len(),
        0 <= i <= a.len(),
    ensures
        a.take(i) == b.take(i),
    decreases i,
{
    if i > 0 {
        lemma_one_listing(a, b, m, i - 1);
        assert(a.take(i - 1) =~= b.take(i - 1));
        assert forall|j: int| 0 <= j < i - 1 implies a[j] == b[j] by {
            assert(a.take(i - 1)[j] == b.take(i - 1)[j]);
        }
        assert(a.contains(a[i - 1]) && b.contains(b[i - 1]));
        assert(b.contains(a[i - 1]) && a.contains(b[i - 1]));
        let p = choose|p: int| 0 <= p < b.len() && b[p] == a[i - 1];
        let q = choose|q: int| 0 <= q < a.len() && a[q] == b[i - 1];
        if p < i - 1 {
            assert(a[p] == b[p]);
        }
        if q < i - 1 {
            assert(a[q] == b[q]);
        }
        assert(a[i - 1] >= b[i - 1]);
        assert(b[i - 1] >= a[i - 1]);
        assert(a.take(i) =~= b.take(i));
    }
}

fn places(graph: &Graph, ids: &Vec<u64>) -> (r: Vec<Position>)
    requires
        lists_domain(ids@, graph@.nodes),
    ensures
        r@ == places_of(graph@, ids@),
{
    let mut found: Vec<Position> = Vec::new();
    let mut i: usize = 0;
    while i < ids.len()
        invariant
            i <= ids.len(),
            lists_domain(ids@, graph@.nodes),
            found@.len() == i,
            forall|j: int| 0 <= j < i ==> #[trigger] found@[j] == graph@.nodes[ids@[j]].position,
        decreases ids.len() - i,
    {
        assert(ids@.contains(ids@[i as int]));
        assert(graph@.nodes.contains_key(ids@[i as int]));
        if let Some(node) = graph.node(NodeId(ids[i])) {
            found.push(node.position);
        }
        i = i + 1;
    }
    assert(found@ =~= places_of(graph@, ids@));
    found
}

impl Settings {
    pub open spec fn wf(&self) -> bool {
        &&& self.positions_by_name.wf()
        &&& self.views_by_name.wf()
        &&& self.effects.wf()
        &&& self.patchbay.profiles.wf()
    }

    /// The settings hold what the window shows.
    pub open spec fn holds(&self, ui: UiView, canvas: Canvas) -> bool {
        &&& self.zoom == canvas.zoom
        &&& self.sort_type@ == sort_key_word(ui.sort_key)
        &&& self.sort_order@ == sort_order_word(ui.sort_order)
        &&& self.thumbnail_view == ui.thumbnail_mode
        &&& self.minimap_visible == ui.minimap_visible
        &&& self.connect_mode@ == connect_word(ui.connect_mode)
        &&& self.media_filter@ == canvas.filter@
        &&& self.graph_search@ == canvas.search@
    }

    /// The settings hold where the nodes are and how they are drawn.
    pub open spec fn holds_nodes(&self, g: GraphView, canvas: Canvas, ids: Seq<u64>) -> bool {
        let n = canvas.names@.len() as int;
        &&& lists_places(self.node_positions@, g, ids)
        &&& self.positions_by_name@ == kept_positions(canvas.names@, places_of(g, ids), n)
        &&& self.views_by_name@.map_values(|a: NodeAppearance| a@) == kept_views(
            canvas.names@,
            canvas.views@,
            n,
        )
    }

    /// Takes everything on that is kept. `instances` are the effects of the
    /// driver, and `file` is the patchbay at hand.
    pub fn sync_config(
        &mut self,
        ui: &UiState,
        canvas: &Canvas,
        graph: &Graph,
        instances: &Vec<EffectInstance>,
        file: &str,
    )
        requires
            old(self).wf(),
            canvas.fits(graph@),
        ensures
            final(self).wf(),
            final(self).holds(ui@, *canvas),
            exists|ids: Seq<u64>| #[trigger]
                lists_domain(ids, graph@.nodes) && final(self).holds_nodes(graph@, *canvas, ids),
            final(self).effects@ == drawn(old(self).effects@, graph@, instances@),
            opt_text(final(self).patchbay.path) == Some(file@),
            final(self).patchbay.active_profile == old(self).patchbay.active_profile,
            final(self).patchbay.profiles@.map_values(|f: String| f@) == old(
                self,
            ).patchbay.profiles@.map_values(|f: String| f@).insert(
                old(self).patchbay.active_profile@,
                file@,
            ),
            final(self).node_text_scale == old(self).node_text_scale,
            final(self).repel_overlapping_nodes == old(self).repel_overlapping_nodes,
            final(self).connect_through_nodes == old(self).connect_through_nodes,
    {
        let ids = node_keys(graph);
        proof {
            lemma_listing_length(ids@, graph@.nodes);
        }
        self.zoom = canvas.zoom;
        self.sort_type = sort_key_text(ui.sort_key).to_owned();
        self.sort_order = sort_order_text(ui.sort_order).to_owned();
        self.thumbnail_view = ui.thumbnail_mode;
        self.minimap_visible = ui.minimap_visible;
        self.connect_mode = connect_mode_text(ui.connect_mode).to_owned();
        self.media_filter = canvas.filter.clone();
        self.graph_search = canvas.search.clone();
        self.node_positions = node_positions(graph);
        let here = places(graph, &ids);
        self.positions_by_name = positions_by_name(&canvas.names, &here);
        self.views_by_name = views_by_name(&canvas.names, &canvas.views);
        proof {
            let other = choose|keys: Seq<u64>| #[trigger]
                lists_domain(keys, graph@.nodes) && lists_places(
                    self.node_positions@,
                    graph@,
                    keys,
                );
            lemma_listing_length(other, graph@.nodes);
            lemma_one_listing(other, ids@, graph@.nodes, ids@.len() as int);
            assert(other.take(ids@.len() as int) =~= other);
            assert(ids@.take(ids@.len() as int) =~= ids@);
        }
        self.effects.keep_positions(graph, instances);
        self.patchbay.keep(file);
        assert(lists_domain(ids@, graph@.nodes) && self.holds_nodes(graph@, *canvas, ids@));
    }

    /// Gives the window what is kept, and keeps in turn what only the window
    /// decides. `filter` is what the kept filter stands for, and `names` are
    /// the names of the nodes. The result is how the nodes are drawn.
    pub fn update_canvas(&mut self, ui: &mut UiState, filter: MediaFilter, names: &Vec<String>) -> (r:
        Vec<NodeAppearance>)
        requires
            old(self).wf(),
            old(ui).wf(),
        ensures
            final(self).wf(),
            final(ui).wf(),
            final(ui)@ == (UiView {
                media_filter: filter,
                sort_key: sort_key_of(old(self).sort_type@),
                sort_order: sort_order_of(old(self).sort_order@),
                repel_overlapping_nodes: old(self).repel_overlapping_nodes,
                connect_through_nodes: old(self).connect_through_nodes,
                ..old(ui)@
            }),
            r@.len() == names@.len(),
            forall|i: int|
                0 <= i < names@.len() ==> (#[trigger] r@[i])@ == (if occurs_once(names@, i)
                    && old(self).views_by_name@.contains_key(names@[i]@) {
                    old(self).views_by_name@[names@[i]@]@
                } else {
                    AppearanceView::plain()
                }),
            final(self).connect_mode@ == connect_word(old(ui)@.connect_mode),
            *final(self) == (Settings {
                thumbnail_view: old(ui)@.thumbnail_mode,
                minimap_visible: old(ui)@.minimap_visible,
                connect_mode: final(self).connect_mode,
                ..*old(self)
            }),
    {
        ui.media_filter = filter;
        ui.sort_key = parse_sort_key(self.sort_type.as_str());
        ui.sort_order = parse_sort_order(self.sort_order.as_str());
        ui.repel_overlapping_nodes = self.repel_overlapping_nodes;
        ui.connect_through_nodes = self.connect_through_nodes;
        let mut views: Vec<NodeAppearance> = Vec::new();
        let mut i: usize = 0;
        while i < names.len()
            invariant
                i <= names.len(),
                self.wf(),
                *self == *old(self),
                views@.len() == i,
                forall|j: int|
                    0 <= j < i ==> (#[trigger] views@[j])@ == (if occurs_once(names@, j)
                        && self.views_by_name@.contains_key(names@[j]@) {
                        self.views_by_name@[names@[j]@]@
                    } else {
                        AppearanceView::plain()
                    }),
            decreases names.len() - i,
        {
            views.push(appearance_of(names, i, &self.views_by_name));
            i = i + 1;
        }
        self.thumbnail_view = ui.thumbnail_mode;
        self.minimap_visible = ui.minimap_visible;
        self.connect_mode = connect_mode_text(ui.connect_mode).to_owned();
        views
    }
}

/// The smallest and the largest scale: 0.35 and 2.5.
pub const SMALLEST_ZOOM: u32 = 0x3EB3_3333;

pub const LARGEST_ZOOM: u32 = 0x4020_0000;

/// A scale held between the smallest and the largest. What is no number stays
/// what it is.
pub open spec fn zoom_held(bits: u32) -> u32 {
    if is_nan(bits) {
        bits
    } else if bits >= SIGN || bits < SMALLEST_ZOOM {
        SMALLEST_ZOOM
    } else if bits > LARGEST_ZOOM {
        LARGEST_ZOOM
    } else {
        bits
    }
}

pub fn hold_zoom(bits: u32) -> (r: u32)
    ensures
        r == zoom_held(bits),
{
    if magnitude_of(bits) > INFINITE {
        bits
    } else if bits >= SIGN || bits < SMALLEST_ZOOM {
        SMALLEST_ZOOM
    } else if bits > LARGEST_ZOOM {
        LARGEST_ZOOM
    } else {
        bits
    }
}

/// What the user has done to the window itself: where it looks, what is typed,
/// and how large it is.
#[derive(Debug, PartialEq, Eq)]
pub struct WindowInput {
    pub pan: Position,
    pub zoom: u32,
    pub search: String,
    pub relay_target: String,
    pub width: u32,
    pub height: u32,
}

/// Where the window looks.
#[derive(Debug, PartialEq, Eq)]
pub struct Viewport {
    pub pan: Position,
    pub zoom: u32,
    pub search: String,
    pub size: WindowSize,
}

impl Viewport {
    /// Takes on what the user has done to the window.
    pub fn read_window_state(&mut self, ui: &mut UiState, input: WindowInput)
        requires
            old(ui).wf(),
        ensures
            final(ui).wf(),
            final(ui)@ == (UiView {
                relay: RelayPanelView { quick_target: input.relay_target@, ..old(ui)@.relay },
                ..old(ui)@
            }),
            final(self).pan == input.pan,
            final(self).zoom == zoom_held(input.zoom),
            final(self).search@ == input.search@,
            final(self).size == (if is_length(input.width) && is_length(input.height) {
                WindowSize { width: input.width, height: input.height }
            } else {
                old(self).size
            }),
    {
        self.pan = input.pan;
        self.zoom = hold_zoom(input.zoom);
        self.search = input.search;
        self.size.update(input.width, input.height);
        ui.relay.quick_target = input.relay_target;
    }
}

/// What was just kept changes nothing when it is given back, but for what the
/// settings alone decide.
pub proof fn law_kept_settings_come_back(settings: Settings, ui: UiView, canvas: Canvas)
    requires
        settings.holds(ui, canvas),
    ensures
        sort_key_of(settings.sort_type@) == ui.sort_key,
        sort_order_of(settings.sort_order@) == ui.sort_order,
        settings.thumbnail_view == ui.thumbnail_mode,
        settings.minimap_visible == ui.minimap_visible,
        settings.connect_mode@ == connect_word(ui.connect_mode),
{
    crate::settings::law_sorting_round_trips(ui.sort_key, ui.sort_order);
}

/// A zoom within its limits stays; one outside is brought to the nearer limit.
pub proof fn law_zoom_limits(bits: u32)
    ensures
        SMALLEST_ZOOM <= bits <= LARGEST_ZOOM ==> zoom_held(bits) == bits,
        bits < SMALLEST_ZOOM ==> zoom_held(bits) == SMALLEST_ZOOM,
        LARGEST_ZOOM < bits <= crate::samples::INFINITE ==> zoom_held(bits) == LARGEST_ZOOM,
        !is_nan(bits) && bits >= SIGN ==> zoom_held(bits) == SMALLEST_ZOOM,
        !is_nan(bits) ==> SMALLEST_ZOOM <= zoom_held(bits) <= LARGEST_ZOOM,
{
}

/// The place of every node is kept under its number.
pub proof fn law_places_are_listed(
    list: Seq<(String, Position)>,
    g: GraphView,
    ids: Seq<u64>,
    k: u64,
)
    requires
        lists_domain(ids, g.nodes),
        lists_places(list, g, ids),
        g.nodes.contains_key(k),
    ensures
        exists|i: int|
            0 <= i < list.len() && (#[trigger] list[i]).0@ == decimal(k as nat) && list[i].1
                == g.nodes[k].position,
{
    assert(ids.contains(k));
    let i = choose|i: int| 0 <= i < ids.len() && ids[i] == k;
    assert(list[i].0@ == decimal(ids[i] as nat));
}

/// The words of the two ways to connect differ.
pub proof fn law_connect_words(a: ConnectMode, b: ConnectMode)
    ensures
        connect_word(a) == connect_word(b) ==> a == b,
        connect_word(ConnectMode::Easy) == "easy"@,
        connect_word(ConnectMode::Advanced) == "advanced"@,
{
    reveal_strlit("easy");
    reveal_strlit("advanced");
    assert("easy"@.len() != "advanced"@.len());
}

} // verus!
