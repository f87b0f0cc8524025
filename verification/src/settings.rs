//! What is kept of the window between sessions, when it is written, and what
//! is taken from it again.
use crate::graph::Graph;
use crate::ids::{NodeId, PortId};
use crate::metering::MeterPolicy;
use crate::model::{clone_opt, opt_text, Position};
use crate::relay_ports::node_keys;
use crate::samples::{finite, held, hold, is_finite, SIGN, UNITY};
use crate::table::lists_domain;
use crate::text::{decimal, decimal_text, text_eq};
use crate::text_table::TextTable;
use crate::ui_actions::{ConnectMode, SortKey, SortOrder};
use std::collections::BTreeMap;
use vstd::prelude::*;

verus! {

broadcast use vstd::std_specs::btree::group_btree_axioms;

/// The word for an order of ports.
pub open spec fn sort_key_word(key: SortKey) -> Seq<char> {
    match key {
        SortKey::Name => "name"@,
        SortKey::Id => "id"@,
    }
}

pub fn sort_key_text(key: SortKey) -> (r: &'static str)
    ensures
        r@ == sort_key_word(key),
{
    match key {
        SortKey::Name => "name",
        SortKey::Id => "id",
    }
}

/// The order that a word stands for: any other word means by name.
pub open spec fn sort_key_of(word: Seq<char>) -> SortKey {
    if word == "id"@ {
        SortKey::Id
    } else {
        SortKey::Name
    }
}

pub fn parse_sort_key(word: &str) -> (r: SortKey)
    ensures
        r == sort_key_of(word@),
{
    if text_eq(word, "id") {
        SortKey::Id
    } else {
        SortKey::Name
    }
}

/// The word for a direction of the order.
pub open spec fn sort_order_word(order: SortOrder) -> Seq<char> {
    match order {
        SortOrder::Ascending => "ascending"@,
        SortOrder::Descending => "descending"@,
    }
}

pub fn sort_order_text(order: SortOrder) -> (r: &'static str)
    ensures
        r@ == sort_order_word(order),
{
    match order {
        SortOrder::Ascending => "ascending",
        SortOrder::Descending => "descending",
    }
}

/// The direction that a word stands for: any other word means ascending.
pub open spec fn sort_order_of(word: Seq<char>) -> SortOrder {
    if word == "descending"@ {
        SortOrder::Descending
    } else {
        SortOrder::Ascending
    }
}

pub fn parse_sort_order(word: &str) -> (r: SortOrder)
    ensures
        r == sort_order_of(word@),
{
    if text_eq(word, "descending") {
        SortOrder::Descending
    } else {
        SortOrder::Ascending
    }
}

/// The word for a way of connecting.
pub fn connect_mode_text(mode: ConnectMode) -> (r: &'static str)
    ensures
        r@ == (match mode {
            ConnectMode::Easy => "easy"@,
            ConnectMode::Advanced => "advanced"@,
        }),
{
    match mode {
        ConnectMode::Easy => "easy",
        ConnectMode::Advanced => "advanced",
    }
}

/// What is written is what is read.
pub proof fn law_sorting_round_trips(key: SortKey, order: SortOrder)
    ensures
        sort_key_of(sort_key_word(key)) == key,
        sort_order_of(sort_order_word(order)) == order,
{
    reveal_strlit("name");
    reveal_strlit("id");
    reveal_strlit("ascending");
    reveal_strlit("descending");
    assert("name"@.len() != "id"@.len());
    assert("ascending"@.len() != "descending"@.len());
}

#[derive(Clone, Copy, Debug, PartialEq, Eq, Structural)]
pub struct Rgba {
    pub red: u8,
    pub green: u8,
    pub blue: u8,
    pub alpha: u8,
}

/// How a node is drawn.
#[derive(Debug, PartialEq, Eq)]
pub struct NodeAppearance {
    pub collapsed: bool,
    pub custom_name: Option<String>,
    pub color: Option<Rgba>,
}

/// The contents of a [`NodeAppearance`].
pub struct AppearanceView {
    pub collapsed: bool,
    pub custom_name: Option<Seq<char>>,
    pub color: Option<Rgba>,
}

impl View for NodeAppearance {
    type V = AppearanceView;

    open spec fn view(&self) -> AppearanceView {
        AppearanceView {
            collapsed: self.collapsed,
            custom_name: opt_text(self.custom_name),
            color: self.color,
        }
    }
}

impl AppearanceView {
    /// How a node is drawn of which nothing is said.
    pub open spec fn plain() -> AppearanceView {
        AppearanceView { collapsed: false, custom_name: None, color: None }
    }
}

impl Default for NodeAppearance {
    fn default() -> (r: NodeAppearance)
        ensures
            r@ == AppearanceView::plain(),
    {
        NodeAppearance { collapsed: false, custom_name: None, color: None }
    }
}

impl NodeAppearance {
    /// A copy with the same contents.
    pub fn duplicate(&self) -> (r: NodeAppearance)
        ensures
            r == *self,
    {
        NodeAppearance {
            collapsed: self.collapsed,
            custom_name: clone_opt(&self.custom_name),
            color: self.color,
        }
    }

    pub fn is_plain(&self) -> (r: bool)
        ensures
            r == (self@ == AppearanceView::plain()),
    {
        !self.collapsed && self.custom_name.is_none() && self.color.is_none()
    }
}

/// No other entry of the list is the same text.
pub open spec fn occurs_once(keys: Seq<String>, i: int) -> bool {
    forall|j: int| 0 <= j < keys.len() && j != i ==> (#[trigger] keys[j])@ != keys[i]@
}

pub fn is_unique(keys: &Vec<String>, i: usize) -> (r: bool)
    requires
        i < keys@.len(),
    ensures
        r == occurs_once(keys@, i as int),
{
    let mut j: usize = 0;
    while j < keys.len()
        invariant
            i < keys@.len(),
            j <= keys.len(),
            forall|k: int| 0 <= k < j && k != i ==> (#[trigger] keys@[k])@ != keys@[i as int]@,
        decreases keys.len() - j,
    {
        if j != i && text_eq(keys[j].as_str(), keys[i].as_str()) {
            return false;
        }
        j = j + 1;
    }
    true
}

/// The positions of all nodes, each by the number of its node, in ascending
/// order.
pub fn node_positions(graph: &Graph) -> (r: Vec<(String, Position)>)
    ensures
        exists|keys: Seq<u64>| #[trigger]
            lists_domain(keys, graph@.nodes) && r@.len() == keys.len() && forall|i: int|
                0 <= i < keys.len() ==> (#[trigger] r@[i]).0@ == decimal(keys[i] as nat)
                    && r@[i].1 == graph@.nodes[keys[i]].position,
{
    let keys = node_keys(graph);
    let mut positions: Vec<(String, Position)> = Vec::new();
    let mut i: usize = 0;
    while i < keys.len()
        invariant
            i <= keys.len(),
            lists_domain(keys@, graph@.nodes),
            positions@.len() == i,
            forall|j: int|
                0 <= j < i ==> (#[trigger] positions@[j]).0@ == decimal(keys@[j] as nat)
                    && positions@[j].1 == graph@.nodes[keys@[j]].position,
        decreases keys.len() - i,
    {
        assert(keys@.contains(keys@[i as int]));
        assert(graph@.nodes.contains_key(keys@[i as int]));
        if let Some(node) = graph.node(NodeId(keys[i])) {
            positions.push((decimal_text(keys[i]), node.position));
        }
        i = i + 1;
    }
    assert(lists_domain(keys@, graph@.nodes) && positions@.len() == keys@.len());
    positions
}

/// What is kept under each name, as the first nodes say: a name that two
/// nodes share says nothing of either.
pub open spec fn kept_positions(
    keys: Seq<String>,
    positions: Seq<Position>,
    n: int,
) -> Map<Seq<char>, Position>
    decreases n,
{
    if n <= 0 {
        Map::empty()
    } else {
        let rest = kept_positions(keys, positions, n - 1);
        if occurs_once(keys, n - 1) {
            rest.insert(keys[n - 1]@, positions[n - 1])
        } else {
            rest
        }
    }
}

/// The positions of the nodes whose names are their own. `keys` and
/// `positions` belong to the same nodes.
pub fn positions_by_name(keys: &Vec<String>, positions: &Vec<Position>) -> (r: TextTable<Position>)
    requires
        keys@.len() == positions@.len(),
    ensures
        r.wf(),
        r@ == kept_positions(keys@, positions@, keys@.len() as int),
{
    let mut table: TextTable<Position> = TextTable::new();
    let mut i: usize = 0;
    while i < keys.len()
        invariant
            i <= keys.len(),
            keys@.len() == positions@.len(),
            table.wf(),
            table@ == kept_positions(keys@, positions@, i as int),
        decreases keys.len() - i,
    {
        if is_unique(keys, i) {
            table.insert(keys[i].clone(), positions[i]);
        }
        i = i + 1;
    }
    table
}

/// What is kept of how nodes are drawn.
pub open spec fn kept_views(
    keys: Seq<String>,
    views: Seq<NodeAppearance>,
    n: int,
) -> Map<Seq<char>, AppearanceView>
    decreases n,
{
    if n <= 0 {
        Map::empty()
    } else {
        let rest = kept_views(keys, views, n - 1);
        if occurs_once(keys, n - 1) && views[n - 1]@ != AppearanceView::plain() {
            rest.insert(keys[n - 1]@, views[n - 1]@)
        } else {
            rest
        }
    }
}

/// How the nodes are drawn whose names are their own and which are not plain.
pub fn views_by_name(keys: &Vec<String>, views: &Vec<NodeAppearance>) -> (r: TextTable<
    NodeAppearance,
>)
    requires
        keys@.len() == views@.len(),
    ensures
        r.wf(),
        r@.map_values(|a: NodeAppearance| a@) == kept_views(keys@, views@, keys@.len() as int),
{
    let mut table: TextTable<NodeAppearance> = TextTable::new();
    assert(table@.map_values(|a: NodeAppearance| a@) =~= Map::<Seq<char>, AppearanceView>::empty());
    let mut i: usize = 0;
    while i < keys.len()
        invariant
            i <= keys.len(),
            keys@.len() == views@.len(),
            table.wf(),
            table@.map_values(|a: NodeAppearance| a@) == kept_views(keys@, views@, i as int),
        decreases keys.len() - i,
    {
        let ghost before = table@;
        if is_unique(keys, i) && !views[i].is_plain() {
            table.insert(keys[i].clone(), views[i].duplicate());
            assert(table@.map_values(|a: NodeAppearance| a@) =~= before.map_values(
                |a: NodeAppearance| a@,
            ).insert(keys@[i as int]@, views@[i as int]@));
        }
        i = i + 1;
    }
    table
}

/// How a node is drawn: as was kept under its name, where the name is its own
/// and something was kept; plain otherwise.
pub fn appearance_of(keys: &Vec<String>, i: usize, saved: &TextTable<NodeAppearance>) -> (r:
    NodeAppearance)
    requires
        i < keys@.len(),
        saved.wf(),
    ensures
        r@ == (if occurs_once(keys@, i as int) && saved@.contains_key(keys@[i as int]@) {
            saved@[keys@[i as int]@]@
        } else {
            AppearanceView::plain()
        }),
{
    if is_unique(keys, i) {
        if let Some(view) = saved.get(keys[i].as_str()) {
            return view.duplicate();
        }
    }
    NodeAppearance::default()
}

/// What is kept of a node is what is found for it again.
pub proof fn law_kept_views_are_found(
    keys: Seq<String>,
    views: Seq<NodeAppearance>,
    i: int,
    n: int,
)
    requires
        keys.len() == views.len(),
        0 <= i < n <= keys.len(),
        occurs_once(keys, i),
    ensures
        ({
            let kept = kept_views(keys, views, n);
            let found = if kept.contains_key(keys[i]@) {
                kept[keys[i]@]
            } else {
                AppearanceView::plain()
            };
            found == views[i]@
        }),
    decreases n,
{
    if n - 1 == i {
        lemma_not_kept_before(keys, views, i, i);
    } else {
        law_kept_views_are_found(keys, views, i, n - 1);
        assert(keys[n - 1]@ != keys[i]@);
    }
}

proof fn lemma_not_kept_before(keys: Seq<String>, views: Seq<NodeAppearance>, i: int, n: int)
    requires
        keys.len() == views.len(),
        0 <= n <= i < keys.len(),
        occurs_once(keys, i),
    ensures
        !kept_views(keys, views, n).contains_key(keys[i]@),
    decreases n,
{
    if n > 0 {
        lemma_not_kept_before(keys, views, i, n - 1);
        assert(keys[n - 1]@ != keys[i]@);
    }
}

/// Where patchbays are kept: the file at hand, and those of the profiles by
/// their names.
#[derive(Debug, PartialEq, Eq)]
pub struct PatchbayPlaces {
    pub path: Option<String>,
    pub active_profile: String,
    pub profiles: TextTable<String>,
}

impl PatchbayPlaces {
    /// Keeps the file at hand, also as that of the active profile.
    pub fn keep(&mut self, file: &str)
        requires
            old(self).profiles.wf(),
        ensures
            final(self).profiles.wf(),
            opt_text(final(self).path) == Some(file@),
            final(self).active_profile == old(self).active_profile,
            final(self).profiles@.map_values(|f: String| f@) == old(self).profiles@.map_values(
                |f: String| f@,
            ).insert(old(self).active_profile@, file@),
    {
        let ghost before = self.profiles@;
        self.path = Some(file.to_owned());
        self.profiles.insert(self.active_profile.clone(), file.to_owned());
        assert(self.profiles@.map_values(|f: String| f@) =~= before.map_values(
            |f: String| f@,
        ).insert(self.active_profile@, file@));
    }
}

/// How long a change waits before it is written, in milliseconds.
pub const AUTOSAVE_DELAY: u64 = 500;

/// Since when something is to be written.
#[derive(Clone, Copy, Debug, PartialEq, Eq, Structural)]
pub struct Autosave {
    pub dirty_since: Option<u64>,
}

/// How long ago something was, by a clock that does not run backwards.
pub open spec fn since(then_at: u64, now: u64) -> int {
    if now >= then_at {
        now - then_at
    } else {
        0
    }
}

impl Autosave {
    /// Looks at the settings at a time. The result says whether they are to be
    /// written now: they have changed, and the change is old enough.
    pub fn check(&mut self, changed: bool, now: u64) -> (r: bool)
        ensures
            ({
                let start = match old(self).dirty_since {
                    Some(at) => at,
                    None => now,
                };
                &&& final(self).dirty_since == (if changed {
                    Some(start)
                } else {
                    None
                })
                &&& r == (changed && since(start, now) >= AUTOSAVE_DELAY)
            }),
    {
        if !changed {
            self.dirty_since = None;
            return false;
        }
        let start: u64 = match self.dirty_since {
            Some(at) => at,
            None => now,
        };
        self.dirty_since = Some(start);
        now >= start && now - start >= AUTOSAVE_DELAY
    }

    /// Takes on what writing came to. After a failure it is tried again
    /// later.
    pub fn written(&mut self, succeeded: bool, now: u64)
        ensures
            final(self).dirty_since == (if succeeded {
                None
            } else {
                Some(now)
            }),
    {
        self.dirty_since = if succeeded {
            None
        } else {
            Some(now)
        };
    }
}

/// The size of the window, in bit patterns of 32-bit floating point numbers.
#[derive(Clone, Copy, Debug, PartialEq, Eq, Structural)]
pub struct WindowSize {
    pub width: u32,
    pub height: u32,
}

/// A length of a window: a positive number.
pub open spec fn is_length(bits: u32) -> bool {
    is_finite(bits) && 0 < bits < SIGN
}

impl WindowSize {
    /// Takes on a size, if it is one.
    pub fn update(&mut self, width: u32, height: u32)
        ensures
            *final(self) == (if is_length(width) && is_length(height) {
                WindowSize { width, height }
            } else {
                *old(self)
            }),
    {
        if finite(width) && finite(height) && width > 0 && width < SIGN && height > 0 && height
            < SIGN {
            self.width = width;
            self.height = height;
        }
    }
}

/// The graph is read again: something has changed, and the last time was at
/// least a tenth of a second ago.
pub fn graph_refresh_due(elapsed_ms: u64, dirty: bool) -> (r: bool)
    ensures
        r == (elapsed_ms >= 100 && dirty),
{
    elapsed_ms >= 100 && dirty
}

/// The meters are read again after a twentieth of a second.
pub fn meter_refresh_due(elapsed_ms: u64) -> (r: bool)
    ensures
        r == (elapsed_ms >= 50),
{
    elapsed_ms >= 50
}

/// A level as the backend measured it. Levels are bit patterns of 32-bit
/// floating point numbers.
#[derive(Clone, Copy, Debug, PartialEq, Eq)]
pub struct AudioMeter {
    pub node_id: NodeId,
    pub port_id: Option<PortId>,
    pub rms: u32,
    pub peak: u32,
    pub age_ms: u64,
    pub available: bool,
}

/// A stream that measures a node, and its newest levels if it has any.
#[derive(Clone, Copy, Debug, PartialEq, Eq)]
pub struct MeterSource {
    pub node_id: NodeId,
    pub connected: bool,
    pub rms: u32,
    pub peak: u32,
    /// How old the levels are; nothing was measured yet where there is none.
    pub age_ms: Option<u64>,
}

/// What a stream has measured, for its whole node. A stream that is not
/// connected, or has measured nothing yet, says nothing.
pub open spec fn measured(source: MeterSource) -> Option<AudioMeter> {
    match source.age_ms {
        Some(age_ms) if source.connected => Some(
            AudioMeter {
                node_id: source.node_id,
                port_id: None,
                rms: held(source.rms, UNITY),
                peak: held(source.peak, UNITY),
                age_ms,
                available: true,
            },
        ),
        _ => None,
    }
}

/// What the first streams have measured.
pub open spec fn all_measured(sources: Seq<MeterSource>, n: int) -> Seq<AudioMeter>
    decreases n,
{
    if n <= 0 {
        Seq::empty()
    } else {
        match measured(sources[n - 1]) {
            Some(meter) => all_measured(sources, n - 1).push(meter),
            None => all_measured(sources, n - 1),
        }
    }
}

/// Collects what the streams have measured.
pub fn audio_meters(sources: &Vec<MeterSource>) -> (r: Vec<AudioMeter>)
    ensures
        r@ == all_measured(sources@, sources@.len() as int),
{
    let mut out: Vec<AudioMeter> = Vec::new();
    let mut i: usize = 0;
    while i < sources.len()
        invariant
            i <= sources.len(),
            out@ == all_measured(sources@, i as int),
        decreases sources.len() - i,
    {
        let source = sources[i];
        if source.connected {
            if let Some(age_ms) = source.age_ms {
                out.push(
                    AudioMeter {
                        node_id: source.node_id,
                        port_id: None,
                        rms: hold(source.rms, UNITY),
                        peak: hold(source.peak, UNITY),
                        age_ms,
                        available: true,
                    },
                );
            }
        }
        i = i + 1;
    }
    out
}

/// A level as it is shown.
#[derive(Clone, Copy, Debug, PartialEq, Eq, Structural)]
pub struct MeterReading {
    pub rms: u32,
    pub peak: u32,
    pub age_ms: u64,
    pub available: bool,
}

pub open spec fn reading_of(meter: AudioMeter) -> MeterReading {
    MeterReading {
        rms: meter.rms,
        peak: meter.peak,
        age_ms: meter.age_ms,
        available: meter.available,
    }
}

/// The levels that are shown.
#[derive(Debug, PartialEq, Eq)]
pub struct MeterTable {
    pub nodes: BTreeMap<u64, MeterReading>,
    pub ports: BTreeMap<u64, MeterReading>,
    pub pinned: Option<PortId>,
}

/// The levels of nodes in the first measurements. Of two of one node the
/// later counts.
pub open spec fn node_levels(meters: Seq<AudioMeter>, n: int) -> Map<u64, MeterReading>
    decreases n,
{
    if n <= 0 {
        Map::empty()
    } else {
        node_levels(meters, n - 1).insert(meters[n - 1].node_id.0, reading_of(meters[n - 1]))
    }
}

/// The levels of ports in the first measurements.
pub open spec fn port_levels(meters: Seq<AudioMeter>, n: int) -> Map<u64, MeterReading>
    decreases n,
{
    if n <= 0 {
        Map::empty()
    } else {
        match meters[n - 1].port_id {
            Some(port) => port_levels(meters, n - 1).insert(port.0, reading_of(meters[n - 1])),
            None => port_levels(meters, n - 1),
        }
    }
}

impl MeterTable {
    /// Takes on what was measured. Without a measurement the levels of nodes
    /// are gone, and the rest stays.
    pub fn refresh(&mut self, graph: &Graph, readings: Option<Vec<AudioMeter>>)
        ensures
            match readings {
                None => {
                    &&& final(self).nodes@ == Map::<u64, MeterReading>::empty()
                    &&& final(self).ports@ == old(self).ports@
                    &&& final(self).pinned == old(self).pinned
                },
                Some(meters) => {
                    &&& final(self).nodes@ == node_levels(meters@, meters@.len() as int)
                    &&& final(self).ports@ == port_levels(meters@, meters@.len() as int)
                    &&& final(self).pinned == (match old(self).pinned {
                        Some(port) if !graph@.has_port(port) => None,
                        _ => old(self).pinned,
                    })
                },
            },
    {
        let meters = match readings {
            None => {
                self.nodes = BTreeMap::new();
                return;
            },
            Some(meters) => meters,
        };
        self.read(&meters);
        if let Some(port) = self.pinned {
            if graph.port(port).is_none() {
                self.pinned = None;
            }
        }
    }

    fn read(&mut self, meters: &Vec<AudioMeter>)
        ensures
            final(self).nodes@ == node_levels(meters@, meters@.len() as int),
            final(self).ports@ == port_levels(meters@, meters@.len() as int),
            final(self).pinned == old(self).pinned,
    {
        let mut nodes: BTreeMap<u64, MeterReading> = BTreeMap::new();
        let mut ports: BTreeMap<u64, MeterReading> = BTreeMap::new();
        let mut i: usize = 0;
        while i < meters.len()
            invariant
                i <= meters.len(),
                nodes@ == node_levels(meters@, i as int),
                ports@ == port_levels(meters@, i as int),
            decreases meters.len() - i,
        {
            let meter: AudioMeter = meters[i];
            let reading = MeterReading {
                rms: meter.rms,
                peak: meter.peak,
                age_ms: meter.age_ms,
                available: meter.available,
            };
            nodes.insert(meter.node_id.0, reading);
            if let Some(port) = meter.port_id {
                ports.insert(port.0, reading);
            }
            i = i + 1;
        }
        self.nodes = nodes;
        self.ports = ports;
    }

    /// Shows no levels.
    pub fn reset(&mut self)
        ensures
            final(self).nodes@ == Map::<u64, MeterReading>::empty(),
            final(self).ports@ == Map::<u64, MeterReading>::empty(),
            final(self).pinned is None,
    {
        self.nodes = BTreeMap::new();
        self.ports = BTreeMap::new();
        self.pinned = None;
    }
}

/// The meters that are asked for: those that are visible, none while the
/// window is not, and nothing at all unless meters run on demand.
pub fn visible_meters(policy: MeterPolicy, window_visible: bool, visible: &Vec<u64>) -> (r: Option<
    Vec<u64>,
>)
    ensures
        if policy != MeterPolicy::OnDemand {
            r is None
        } else {
            r matches Some(nodes) && nodes@ == (if window_visible {
                visible@
            } else {
                Seq::empty()
            })
        },
{
    if policy != MeterPolicy::OnDemand {
        return None;
    }
    let mut nodes: Vec<u64> = Vec::new();
    if window_visible {
        let mut i: usize = 0;
        while i < visible.len()
            invariant
                i <= visible.len(),
                nodes@ == visible@.take(i as int),
            decreases visible.len() - i,
        {
            nodes.push(visible[i]);
            assert(visible@.take(i + 1) =~= visible@.take(i as int).push(visible@[i as int]));
            i = i + 1;
        }
        assert(visible@.take(i as int) =~= visible@);
    }
    Some(nodes)
}

/// A position is kept by name exactly where the name is that of one node, and
/// is then the position of that node.
pub proof fn law_kept_positions(keys: Seq<String>, positions: Seq<Position>, i: int, n: int)
    requires
        keys.len() == positions.len(),
        0 <= i < n <= keys.len(),
    ensures
        occurs_once(keys, i) ==> kept_positions(keys, positions, n).contains_key(keys[i]@)
            && kept_positions(keys, positions, n)[keys[i]@] == positions[i],
        (exists|j: int| 0 <= j < keys.len() && j != i && (#[trigger] keys[j])@ == keys[i]@)
            ==> !kept_positions(keys, positions, n).contains_key(keys[i]@),
    decreases n,
{
    let last = n - 1;
    if i == last {
        if exists|j: int| 0 <= j < keys.len() && j != i && (#[trigger] keys[j])@ == keys[i]@ {
            lemma_shared_not_kept(keys, positions, keys[i]@, n - 1);
        }
    } else {
        law_kept_positions(keys, positions, i, n - 1);
        if occurs_once(keys, i) {
            assert(keys[last]@ != keys[i]@);
        }
        if exists|j: int| 0 <= j < keys.len() && j != i && (#[trigger] keys[j])@ == keys[i]@ {
            if occurs_once(keys, last) && keys[last]@ == keys[i]@ {
                assert(keys[i]@ != keys[last]@);
            }
        }
    }
}

proof fn lemma_shared_not_kept(
    keys: Seq<String>,
    positions: Seq<Position>,
    name: Seq<char>,
    n: int,
)
    requires
        0 <= n <= keys.len(),
        exists|a: int, b: int|
            0 <= a < keys.len() && 0 <= b < keys.len() && a != b && (#[trigger] keys[a])@ == name
                && (#[trigger] keys[b])@ == name,
    ensures
        !kept_positions(keys, positions, n).contains_key(name),
    decreases n,
{
    if n > 0 {
        lemma_shared_not_kept(keys, positions, name, n - 1);
        if occurs_once(keys, n - 1) && keys[n - 1]@ == name {
            let (a, b) = choose|a: int, b: int|
                0 <= a < keys.len() && 0 <= b < keys.len() && a != b && (#[trigger] keys[a])@
                    == name && (#[trigger] keys[b])@ == name;
            if a != n - 1 {
                assert(keys[a]@ != keys[n - 1]@);
            } else {
                assert(keys[b]@ != keys[n - 1]@);
            }
        }
    }
}

/// A source is measured exactly where it is connected and has a reading; its
/// levels are those of the source, held at full scale.
pub proof fn law_measured_sources(source: MeterSource)
    ensures
        match measured(source) {
            Some(meter) => {
                &&& source.connected
                &&& source.age_ms == Some(meter.age_ms)
                &&& meter.node_id == source.node_id
                &&& meter.port_id is None
                &&& meter.available
                &&& source.rms <= UNITY ==> meter.rms == source.rms
                &&& source.peak <= UNITY ==> meter.peak == source.peak
                &&& UNITY < source.rms <= crate::samples::INFINITE ==> meter.rms == UNITY
                &&& UNITY < source.peak <= crate::samples::INFINITE ==> meter.peak == UNITY
            },
            None => !source.connected || source.age_ms is None,
        },
{
}

/// Every source that is measured has its meter, and every meter has its
/// source.
pub proof fn law_all_measured(sources: Seq<MeterSource>, n: int, meter: AudioMeter)
    requires
        0 <= n <= sources.len(),
    ensures
        all_measured(sources, n).contains(meter) <==> exists|i: int|
            0 <= i < n && measured(#[trigger] sources[i]) == Some(meter),
    decreases n,
{
    if n > 0 {
        law_all_measured(sources, n - 1, meter);
        if let Some(last) = measured(sources[n - 1]) {
            crate::table::lemma_push_contains(all_measured(sources, n - 1), last, meter);
        }
        if exists|i: int| 0 <= i < n - 1 && measured(#[trigger] sources[i]) == Some(meter) {
            let i = choose|i: int| 0 <= i < n - 1 && measured(#[trigger] sources[i]) == Some(meter);
            assert(measured(sources[i]) == Some(meter));
        }
        if exists|i: int| 0 <= i < n && measured(#[trigger] sources[i]) == Some(meter) {
            let i = choose|i: int| 0 <= i < n && measured(#[trigger] sources[i]) == Some(meter);
            if i < n - 1 {
                assert(measured(sources[i]) == Some(meter));
            }
        }
    }
}

/// A node shows the last reading of it, with its levels and its age; a port
/// does likewise, and a reading without a port shows at no port.
pub proof fn law_levels_shown(meters: Seq<AudioMeter>, n: int, i: int)
    requires
        0 <= i < n <= meters.len(),
    ensures
        (forall|j: int| i < j < n ==> (#[trigger] meters[j]).node_id != meters[i].node_id) ==> {
            let levels = node_levels(meters, n);
            &&& levels.contains_key(meters[i].node_id.0)
            &&& levels[meters[i].node_id.0].rms == meters[i].rms
            &&& levels[meters[i].node_id.0].peak == meters[i].peak
            &&& levels[meters[i].node_id.0].age_ms == meters[i].age_ms
            &&& levels[meters[i].node_id.0].available == meters[i].available
        },
        meters[i].port_id is Some && (forall|j: int|
            i < j < n ==> (#[trigger] meters[j]).port_id != meters[i].port_id) ==> {
            let levels = port_levels(meters, n);
            &&& levels.contains_key(meters[i].port_id->Some_0.0)
            &&& levels[meters[i].port_id->Some_0.0].rms == meters[i].rms
            &&& levels[meters[i].port_id->Some_0.0].peak == meters[i].peak
        },
    decreases n,
{
    if i < n - 1 {
        law_levels_shown(meters, n - 1, i);
        if forall|j: int| i < j < n ==> (#[trigger] meters[j]).node_id != meters[i].node_id {
            assert(meters[n - 1].node_id != meters[i].node_id);
        }
        if meters[i].port_id is Some && (forall|j: int|
            i < j < n ==> (#[trigger] meters[j]).port_id != meters[i].port_id) {
            assert(meters[n - 1].port_id != meters[i].port_id);
        }
    }
}

/// What time passed is the difference, and none where the clock went back.
pub proof fn law_time_passed(a: u64, b: u64)
    ensures
        a <= b ==> since(a, b) == b - a,
        b <= a ==> since(a, b) == 0,
{
}

/// The words for sorting are those of the key and the order; any other word
/// sorts by name, ascending.
pub proof fn law_sorting_words(word: Seq<char>)
    ensures
        sort_key_of(word) == SortKey::Id <==> word == "id"@,
        sort_order_of(word) == SortOrder::Descending <==> word == "descending"@,
{
}

} // verus!
