//! What the buttons, menus and keys of the window ask for, by name, and what
//! each of them changes.
use crate::gallery::{EffectDescriptor, EffectGalleryPhase, EffectGalleryState, GalleryView};
use crate::text::text_eq;
use vstd::prelude::*;

verus! {

#[derive(Clone, Copy, Debug, PartialEq, Eq, Structural)]
pub enum PanDirection {
    Left,
    Right,
    Up,
    Down,
}

#[derive(Clone, Copy, Debug, PartialEq, Eq, Structural)]
pub enum PanSpeed {
    Slow,
    Medium,
    Fast,
}

/// How ports are ordered.
#[derive(Clone, Copy, Debug, PartialEq, Eq, Structural)]
pub enum SortKey {
    Name,
    Id,
}

#[derive(Clone, Copy, Debug, PartialEq, Eq, Structural)]
pub enum SortOrder {
    Ascending,
    Descending,
}

#[derive(Clone, Copy, Debug, PartialEq, Eq, Structural)]
pub enum ConnectMode {
    Easy,
    Advanced,
}

/// Which ports are shown.
#[derive(Clone, Copy, Debug, PartialEq, Eq, Structural)]
pub enum MediaFilter {
    Audio,
    Video,
    Midi,
    All,
}

/// What can be asked for.
#[derive(Clone, Copy, Debug, PartialEq, Eq, Structural)]
pub enum UiAction {
    Refresh,
    Arrange,
    Pan(PanDirection, PanSpeed),
    ZoomIn,
    ZoomOut,
    ToggleThumbnail,
    ToggleMinimap,
    Undo,
    Redo,
    SaveConfig,
    SavePatchbay,
    LoadPatchbay,
    DisconnectAll,
    SnapshotPatchbay,
    ActivatePatchbay,
    ResetAudio,
    ToggleStatusbar,
    ToggleRepel,
    ToggleConnectThrough,
    SortBy(SortKey),
    Order(SortOrder),
    Connect(ConnectMode),
    Filter(MediaFilter),
    Preferences,
    History,
    Shortcuts,
    Effects,
    CreateEffect,
    EffectConfigure,
    EffectChoose,
    EffectToggleEnabled,
    Relay,
    RelayDiscover,
    RelayRefresh,
    RelayConnect,
    RelayHostStart,
    RelayHostStop,
    RelayShowQr,
    Escape,
}

/// The action of a name.
pub open spec fn action_named(name: Seq<char>) -> Option<UiAction> {
    if name == "refresh"@ {
        Some(UiAction::Refresh)
    } else if name == "arrange"@ {
        Some(UiAction::Arrange)
    } else if name == "pan-left"@ {
        Some(UiAction::Pan(PanDirection::Left, PanSpeed::Slow))
    } else if name == "pan-right"@ {
        Some(UiAction::Pan(PanDirection::Right, PanSpeed::Slow))
    } else if name == "pan-up"@ {
        Some(UiAction::Pan(PanDirection::Up, PanSpeed::Slow))
    } else if name == "pan-down"@ {
        Some(UiAction::Pan(PanDirection::Down, PanSpeed::Slow))
    } else if name == "pan-left-medium"@ {
        Some(UiAction::Pan(PanDirection::Left, PanSpeed::Medium))
    } else if name == "pan-right-medium"@ {
        Some(UiAction::Pan(PanDirection::Right, PanSpeed::Medium))
    } else if name == "pan-up-medium"@ {
        Some(UiAction::Pan(PanDirection::Up, PanSpeed::Medium))
    } else if name == "pan-down-medium"@ {
        Some(UiAction::Pan(PanDirection::Down, PanSpeed::Medium))
    } else if name == "pan-left-fast"@ {
        Some(UiAction::Pan(PanDirection::Left, PanSpeed::Fast))
    } else if name == "pan-right-fast"@ {
        Some(UiAction::Pan(PanDirection::Right, PanSpeed::Fast))
    } else if name == "pan-up-fast"@ {
        Some(UiAction::Pan(PanDirection::Up, PanSpeed::Fast))
    } else if name == "pan-down-fast"@ {
        Some(UiAction::Pan(PanDirection::Down, PanSpeed::Fast))
    } else if name == "zoom-in"@ {
        Some(UiAction::ZoomIn)
    } else if name == "zoom-out"@ {
        Some(UiAction::ZoomOut)
    } else if name == "toggle-thumbnail"@ {
        Some(UiAction::ToggleThumbnail)
    } else if name == "toggle-minimap"@ {
        Some(UiAction::ToggleMinimap)
    } else if name == "undo"@ {
        Some(UiAction::Undo)
    } else if name == "redo"@ {
        Some(UiAction::Redo)
    } else if name == "save-config"@ {
        Some(UiAction::SaveConfig)
    } else if name == "save-patchbay"@ {
        Some(UiAction::SavePatchbay)
    } else if name == "load-patchbay"@ {
        Some(UiAction::LoadPatchbay)
    } else if name == "disconnect-all"@ {
        Some(UiAction::DisconnectAll)
    } else if name == "snapshot-patchbay"@ {
        Some(UiAction::SnapshotPatchbay)
    } else if name == "activate-patchbay"@ {
        Some(UiAction::ActivatePatchbay)
    } else if name == "reset-audio"@ {
        Some(UiAction::ResetAudio)
    } else if name == "toggle-statusbar"@ {
        Some(UiAction::ToggleStatusbar)
    } else if name == "toggle-repel"@ {
        Some(UiAction::ToggleRepel)
    } else if name == "toggle-connect-through"@ {
        Some(UiAction::ToggleConnectThrough)
    } else if name == "sort-name"@ {
        Some(UiAction::SortBy(SortKey::Name))
    } else if name == "sort-id"@ {
        Some(UiAction::SortBy(SortKey::Id))
    } else if name == "sort-ascending"@ {
        Some(UiAction::Order(SortOrder::Ascending))
    } else if name == "sort-descending"@ {
        Some(UiAction::Order(SortOrder::Descending))
    } else if name == "connect-easy"@ {
        Some(UiAction::Connect(ConnectMode::Easy))
    } else if name == "connect-advanced"@ {
        Some(UiAction::Connect(ConnectMode::Advanced))
    } else if name == "filter-audio"@ {
        Some(UiAction::Filter(MediaFilter::Audio))
    } else if name == "filter-video"@ {
        Some(UiAction::Filter(MediaFilter::Video))
    } else if name == "filter-midi"@ {
        Some(UiAction::Filter(MediaFilter::Midi))
    } else if name == "filter-all"@ {
        Some(UiAction::Filter(MediaFilter::All))
    } else if name == "preferences"@ {
        Some(UiAction::Preferences)
    } else if name == "history"@ {
        Some(UiAction::History)
    } else if name == "shortcuts"@ {
        Some(UiAction::Shortcuts)
    } else if name == "effects"@ {
        Some(UiAction::Effects)
    } else if name == "create-effect"@ {
        Some(UiAction::CreateEffect)
    } else if name == "effect-configure"@ {
        Some(UiAction::EffectConfigure)
    } else if name == "effect-choose"@ {
        Some(UiAction::EffectChoose)
    } else if name == "effect-toggle-enabled"@ {
        Some(UiAction::EffectToggleEnabled)
    } else if name == "relay"@ {
        Some(UiAction::Relay)
    } else if name == "relay-discover"@ {
        Some(UiAction::RelayDiscover)
    } else if name == "relay-refresh"@ {
        Some(UiAction::RelayRefresh)
    } else if name == "relay-connect"@ {
        Some(UiAction::RelayConnect)
    } else if name == "relay-host-start"@ {
        Some(UiAction::RelayHostStart)
    } else if name == "relay-host-stop"@ {
        Some(UiAction::RelayHostStop)
    } else if name == "relay-show-qr"@ {
        Some(UiAction::RelayShowQr)
    } else if name == "escape"@ {
        Some(UiAction::Escape)
    } else {
        None
    }
}

/// The action of a name. A name that is not known asks for nothing.
pub fn parse_action(name: &str) -> (r: Option<UiAction>)
    ensures
        r == action_named(name@),
{
    if text_eq(name, "refresh") {
        return Some(UiAction::Refresh);
    }
    if text_eq(name, "arrange") {
        return Some(UiAction::Arrange);
    }
    if text_eq(name, "pan-left") {
        return Some(UiAction::Pan(PanDirection::Left, PanSpeed::Slow));
    }
    if text_eq(name, "pan-right") {
        return Some(UiAction::Pan(PanDirection::Right, PanSpeed::Slow));
    }
    if text_eq(name, "pan-up") {
        return Some(UiAction::Pan(PanDirection::Up, PanSpeed::Slow));
    }
    if text_eq(name, "pan-down") {
        return Some(UiAction::Pan(PanDirection::Down, PanSpeed::Slow));
    }
    if text_eq(name, "pan-left-medium") {
        return Some(UiAction::Pan(PanDirection::Left, PanSpeed::Medium));
    }
    if text_eq(name, "pan-right-medium") {
        return Some(UiAction::Pan(PanDirection::Right, PanSpeed::Medium));
    }
    if text_eq(name, "pan-up-medium") {
        return Some(UiAction::Pan(PanDirection::Up, PanSpeed::Medium));
    }
    if text_eq(name, "pan-down-medium") {
        return Some(UiAction::Pan(PanDirection::Down, PanSpeed::Medium));
    }
    if text_eq(name, "pan-left-fast") {
        return Some(UiAction::Pan(PanDirection::Left, PanSpeed::Fast));
    }
    if text_eq(name, "pan-right-fast") {
        return Some(UiAction::Pan(PanDirection::Right, PanSpeed::Fast));
    }
    if text_eq(name, "pan-up-fast") {
        return Some(UiAction::Pan(PanDirection::Up, PanSpeed::Fast));
    }
    if text_eq(name, "pan-down-fast") {
        return Some(UiAction::Pan(PanDirection::Down, PanSpeed::Fast));
    }
    if text_eq(name, "zoom-in") {
        return Some(UiAction::ZoomIn);
    }
    if text_eq(name, "zoom-out") {
        return Some(UiAction::ZoomOut);
    }
    if text_eq(name, "toggle-thumbnail") {
        return Some(UiAction::ToggleThumbnail);
    }
    if text_eq(name, "toggle-minimap") {
        return Some(UiAction::ToggleMinimap);
    }
    if text_eq(name, "undo") {
        return Some(UiAction::Undo);
    }
    if text_eq(name, "redo") {
        return Some(UiAction::Redo);
    }
    if text_eq(name, "save-config") {
        return Some(UiAction::SaveConfig);
    }
    if text_eq(name, "save-patchbay") {
        return Some(UiAction::SavePatchbay);
    }
    if text_eq(name, "load-patchbay") {
        return Some(UiAction::LoadPatchbay);
    }
    if text_eq(name, "disconnect-all") {
        return Some(UiAction::DisconnectAll);
    }
    if text_eq(name, "snapshot-patchbay") {
        return Some(UiAction::SnapshotPatchbay);
    }
    if text_eq(name, "activate-patchbay") {
        return Some(UiAction::ActivatePatchbay);
    }
    if text_eq(name, "reset-audio") {
        return Some(UiAction::ResetAudio);
    }
    if text_eq(name, "toggle-statusbar") {
        return Some(UiAction::ToggleStatusbar);
    }
    if text_eq(name, "toggle-repel") {
        return Some(UiAction::ToggleRepel);
    }
    if text_eq(name, "toggle-connect-through") {
        return Some(UiAction::ToggleConnectThrough);
    }
    if text_eq(name, "sort-name") {
        return Some(UiAction::SortBy(SortKey::Name));
    }
    if text_eq(name, "sort-id") {
        return Some(UiAction::SortBy(SortKey::Id));
    }
    if text_eq(name, "sort-ascending") {
        return Some(UiAction::Order(SortOrder::Ascending));
    }
    if text_eq(name, "sort-descending") {
        return Some(UiAction::Order(SortOrder::Descending));
    }
    if text_eq(name, "connect-easy") {
        return Some(UiAction::Connect(ConnectMode::Easy));
    }
    if text_eq(name, "connect-advanced") {
        return Some(UiAction::Connect(ConnectMode::Advanced));
    }
    if text_eq(name, "filter-audio") {
        return Some(UiAction::Filter(MediaFilter::Audio));
    }
    if text_eq(name, "filter-video") {
        return Some(UiAction::Filter(MediaFilter::Video));
    }
    if text_eq(name, "filter-midi") {
        return Some(UiAction::Filter(MediaFilter::Midi));
    }
    if text_eq(name, "filter-all") {
        return Some(UiAction::Filter(MediaFilter::All));
    }
    if text_eq(name, "preferences") {
        return Some(UiAction::Preferences);
    }
    if text_eq(name, "history") {
        return Some(UiAction::History);
    }
    if text_eq(name, "shortcuts") {
        return Some(UiAction::Shortcuts);
    }
    if text_eq(name, "effects") {
        return Some(UiAction::Effects);
    }
    if text_eq(name, "create-effect") {
        return Some(UiAction::CreateEffect);
    }
    if text_eq(name, "effect-configure") {
        return Some(UiAction::EffectConfigure);
    }
    if text_eq(name, "effect-choose") {
        return Some(UiAction::EffectChoose);
    }
    if text_eq(name, "effect-toggle-enabled") {
        return Some(UiAction::EffectToggleEnabled);
    }
    if text_eq(name, "relay") {
        return Some(UiAction::Relay);
    }
    if text_eq(name, "relay-discover") {
        return Some(UiAction::RelayDiscover);
    }
    if text_eq(name, "relay-refresh") {
        return Some(UiAction::RelayRefresh);
    }
    if text_eq(name, "relay-connect") {
        return Some(UiAction::RelayConnect);
    }
    if text_eq(name, "relay-host-start") {
        return Some(UiAction::RelayHostStart);
    }
    if text_eq(name, "relay-host-stop") {
        return Some(UiAction::RelayHostStop);
    }
    if text_eq(name, "relay-show-qr") {
        return Some(UiAction::RelayShowQr);
    }
    if text_eq(name, "escape") {
        return Some(UiAction::Escape);
    }
    None
}

/// What has to be done elsewhere.
#[derive(Clone, Copy, Debug, PartialEq, Eq, Structural)]
pub enum UiCommand {
    Nothing,
    Refresh,
    Arrange,
    /// Move the view by so many pixels.
    Pan { x: i32, y: i32 },
    ZoomIn,
    ZoomOut,
    Undo,
    Redo,
    SaveConfig,
    SavePatchbay,
    LoadPatchbay,
    DisconnectAll,
    SnapshotPatchbay,
    ActivatePatchbay,
    ResetAudio,
    OpenGallery,
    CreateEffect,
    StartDiscovery,
    RelayRefresh,
    RelayConnect,
    RelayHostStart,
    RelayHostStop,
    RelayShowQr,
}

/// What the panel of the relay holds.
#[derive(Debug, PartialEq, Eq)]
pub struct RelayPanel {
    /// The address that is being typed.
    pub quick_target: String,
    /// The address that is kept between sessions.
    pub client_target: String,
    pub show_qr: bool,
    pub qr_text: String,
    pub message: String,
}

/// The contents of a [`RelayPanel`].
#[verifier::ext_equal]
pub struct RelayPanelView {
    pub quick_target: Seq<char>,
    pub client_target: Seq<char>,
    pub show_qr: bool,
    pub qr_text: Seq<char>,
    pub message: Seq<char>,
}

impl View for RelayPanel {
    type V = RelayPanelView;

    open spec fn view(&self) -> RelayPanelView {
        RelayPanelView {
            quick_target: self.quick_target@,
            client_target: self.client_target@,
            show_qr: self.show_qr,
            qr_text: self.qr_text@,
            message: self.message@,
        }
    }
}

impl Default for RelayPanel {
    fn default() -> (r: RelayPanel)
        ensures
            r@ == (RelayPanelView {
                quick_target: Seq::empty(),
                client_target: Seq::empty(),
                show_qr: false,
                qr_text: Seq::empty(),
                message: Seq::empty(),
            }),
    {
        RelayPanel {
            quick_target: String::new(),
            client_target: String::new(),
            show_qr: false,
            qr_text: String::new(),
            message: String::new(),
        }
    }
}

/// What is open and how the graph is shown.
#[derive(Debug, PartialEq, Eq)]
pub struct UiState {
    pub show_preferences: bool,
    pub show_history: bool,
    pub show_shortcuts: bool,
    pub show_effects: bool,
    pub show_relay: bool,
    pub thumbnail_mode: bool,
    pub minimap_visible: bool,
    pub statusbar: bool,
    pub repel_overlapping_nodes: bool,
    pub connect_through_nodes: bool,
    pub sort_key: SortKey,
    pub sort_order: SortOrder,
    pub connect_mode: ConnectMode,
    pub media_filter: MediaFilter,
    pub gallery: Option<EffectGalleryState>,
    pub gallery_epoch: u32,
    pub relay: RelayPanel,
    pub status: String,
}

/// The contents of a [`UiState`].
pub struct UiView {
    pub show_preferences: bool,
    pub show_history: bool,
    pub show_shortcuts: bool,
    pub show_effects: bool,
    pub show_relay: bool,
    pub thumbnail_mode: bool,
    pub minimap_visible: bool,
    pub statusbar: bool,
    pub repel_overlapping_nodes: bool,
    pub connect_through_nodes: bool,
    pub sort_key: SortKey,
    pub sort_order: SortOrder,
    pub connect_mode: ConnectMode,
    pub media_filter: MediaFilter,
    pub gallery: Option<GalleryView>,
    pub gallery_epoch: u32,
    pub relay: RelayPanelView,
    pub status: Seq<char>,
}

/// The contents of an optional gallery.
pub open spec fn opt_gallery(gallery: Option<EffectGalleryState>) -> Option<GalleryView> {
    match gallery {
        Some(gallery) => Some(gallery@),
        None => None,
    }
}

impl View for UiState {
    type V = UiView;

    open spec fn view(&self) -> UiView {
        UiView {
            show_preferences: self.show_preferences,
            show_history: self.show_history,
            show_shortcuts: self.show_shortcuts,
            show_effects: self.show_effects,
            show_relay: self.show_relay,
            thumbnail_mode: self.thumbnail_mode,
            minimap_visible: self.minimap_visible,
            statusbar: self.statusbar,
            repel_overlapping_nodes: self.repel_overlapping_nodes,
            connect_through_nodes: self.connect_through_nodes,
            sort_key: self.sort_key,
            sort_order: self.sort_order,
            connect_mode: self.connect_mode,
            media_filter: self.media_filter,
            gallery: opt_gallery(self.gallery),
            gallery_epoch: self.gallery_epoch,
            relay: self.relay@,
            status: self.status@,
        }
    }
}

/// How far the view moves in a step.
pub open spec fn pan_step(speed: PanSpeed) -> i32 {
    match speed {
        PanSpeed::Slow => 48,
        PanSpeed::Medium => 96,
        PanSpeed::Fast => 192,
    }
}

/// The move of the view.
pub open spec fn pan_of(direction: PanDirection, speed: PanSpeed) -> UiCommand {
    match direction {
        PanDirection::Left => UiCommand::Pan { x: (-pan_step(speed)) as i32, y: 0 },
        PanDirection::Right => UiCommand::Pan { x: pan_step(speed), y: 0 },
        PanDirection::Up => UiCommand::Pan { x: 0, y: (-pan_step(speed)) as i32 },
        PanDirection::Down => UiCommand::Pan { x: 0, y: pan_step(speed) },
    }
}

fn pan_command(direction: PanDirection, speed: PanSpeed) -> (r: UiCommand)
    ensures
        r == pan_of(direction, speed),
{
    let step: i32 = match speed {
        PanSpeed::Slow => 48,
        PanSpeed::Medium => 96,
        PanSpeed::Fast => 192,
    };
    match direction {
        PanDirection::Left => UiCommand::Pan { x: -step, y: 0 },
        PanDirection::Right => UiCommand::Pan { x: step, y: 0 },
        PanDirection::Up => UiCommand::Pan { x: 0, y: -step },
        PanDirection::Down => UiCommand::Pan { x: 0, y: step },
    }
}

impl UiView {
    /// What is there after an action. Of preferences, history, shortcuts and
    /// effects at most one is open.
    pub open spec fn after(self, action: UiAction) -> UiView {
        let bare = UiView {
            show_preferences: false,
            show_history: false,
            show_shortcuts: false,
            show_effects: false,
            ..self
        };
        match action {
            UiAction::ToggleThumbnail => UiView { thumbnail_mode: !self.thumbnail_mode, ..self },
            UiAction::ToggleMinimap => UiView { minimap_visible: !self.minimap_visible, ..self },
            UiAction::ToggleStatusbar => UiView { statusbar: !self.statusbar, ..self },
            UiAction::ToggleRepel => UiView {
                repel_overlapping_nodes: !self.repel_overlapping_nodes,
                ..self
            },
            UiAction::ToggleConnectThrough => UiView {
                connect_through_nodes: !self.connect_through_nodes,
                ..self
            },
            UiAction::SortBy(sort_key) => UiView { sort_key, ..self },
            UiAction::Order(sort_order) => UiView { sort_order, ..self },
            UiAction::Connect(connect_mode) => UiView { connect_mode, ..self },
            UiAction::Filter(media_filter) => UiView { media_filter, ..self },
            UiAction::Preferences => UiView { show_preferences: !self.show_preferences, ..bare },
            UiAction::History => UiView { show_history: !self.show_history, ..bare },
            UiAction::Shortcuts => UiView { show_shortcuts: !self.show_shortcuts, ..bare },
            UiAction::Effects => UiView { show_effects: !self.show_effects, ..bare },
            UiAction::EffectConfigure => self.with_gallery(
                |g: GalleryView| g.at(EffectGalleryPhase::Configure),
            ),
            UiAction::EffectChoose => self.with_gallery(
                |g: GalleryView| g.at(EffectGalleryPhase::Choose),
            ),
            UiAction::EffectToggleEnabled => self.with_gallery(
                |g: GalleryView| GalleryView { enabled: !g.enabled, ..g },
            ),
            UiAction::Relay => UiView { show_relay: !self.show_relay, ..self },
            UiAction::RelayConnect => UiView {
                relay: RelayPanelView {
                    client_target: self.relay.quick_target,
                    ..self.relay
                },
                ..self
            },
            UiAction::RelayShowQr => UiView {
                relay: RelayPanelView { show_qr: true, ..self.relay },
                ..self
            },
            UiAction::Escape => UiView { show_relay: false, ..bare },
            _ => self,
        }
    }

    /// With a gallery that has changed, where there is one.
    pub open spec fn with_gallery(self, f: spec_fn(GalleryView) -> GalleryView) -> UiView {
        UiView {
            gallery: match self.gallery {
                Some(gallery) => Some(f(gallery)),
                None => None,
            },
            ..self
        }
    }

    /// What an action asks for elsewhere.
    pub open spec fn command(self, action: UiAction) -> UiCommand {
        match action {
            UiAction::Refresh => UiCommand::Refresh,
            UiAction::Arrange => UiCommand::Arrange,
            UiAction::Pan(direction, speed) => pan_of(direction, speed),
            UiAction::ZoomIn => UiCommand::ZoomIn,
            UiAction::ZoomOut => UiCommand::ZoomOut,
            UiAction::Undo => UiCommand::Undo,
            UiAction::Redo => UiCommand::Redo,
            UiAction::SaveConfig => UiCommand::SaveConfig,
            UiAction::SavePatchbay => UiCommand::SavePatchbay,
            UiAction::LoadPatchbay => UiCommand::LoadPatchbay,
            UiAction::DisconnectAll => UiCommand::DisconnectAll,
            UiAction::SnapshotPatchbay => UiCommand::SnapshotPatchbay,
            UiAction::ActivatePatchbay => UiCommand::ActivatePatchbay,
            UiAction::ResetAudio => UiCommand::ResetAudio,
            UiAction::Effects => if self.show_effects {
                UiCommand::Nothing
            } else {
                UiCommand::OpenGallery
            },
            UiAction::CreateEffect => if self.gallery is Some {
                UiCommand::CreateEffect
            } else {
                UiCommand::OpenGallery
            },
            UiAction::Relay => if self.show_relay {
                UiCommand::Nothing
            } else {
                UiCommand::StartDiscovery
            },
            UiAction::RelayDiscover => UiCommand::StartDiscovery,
            UiAction::RelayRefresh => UiCommand::RelayRefresh,
            UiAction::RelayConnect => UiCommand::RelayConnect,
            UiAction::RelayHostStart => UiCommand::RelayHostStart,
            UiAction::RelayHostStop => UiCommand::RelayHostStop,
            UiAction::RelayShowQr => UiCommand::RelayShowQr,
            _ => UiCommand::Nothing,
        }
    }

    /// With an open gallery.
    pub open spec fn gallery_opened(self, descriptor: EffectDescriptor) -> UiView {
        let epoch = crate::gallery::next_epoch(self.gallery_epoch);
        UiView {
            show_shortcuts: false,
            show_history: false,
            show_preferences: false,
            gallery_epoch: epoch,
            gallery: Some(GalleryView::opened(descriptor, epoch)),
            ..self
        }
    }

    /// With the code of the relay, or with the words that stand for it where
    /// there is none.
    pub open spec fn qr_shown(self, text: Seq<char>) -> UiView {
        UiView {
            relay: RelayPanelView { show_qr: true, qr_text: text, message: text, ..self.relay },
            status: text,
            ..self
        }
    }

    /// At most one of the four panels is open.
    pub open spec fn one_panel(self) -> bool {
        &&& !(self.show_preferences && self.show_history)
        &&& !(self.show_preferences && self.show_shortcuts)
        &&& !(self.show_preferences && self.show_effects)
        &&& !(self.show_history && self.show_shortcuts)
        &&& !(self.show_history && self.show_effects)
        &&& !(self.show_shortcuts && self.show_effects)
    }
}

impl UiState {
    pub open spec fn wf(&self) -> bool {
        self.gallery matches Some(gallery) ==> gallery.wf()
    }

    fn close_panels(&mut self)
        ensures
            final(self)@ == (UiView {
                show_preferences: false,
                show_history: false,
                show_shortcuts: false,
                show_effects: false,
                ..old(self)@
            }),
            final(self).gallery == old(self).gallery,
    {
        self.show_preferences = false;
        self.show_history = false;
        self.show_shortcuts = false;
        self.show_effects = false;
    }

    fn change_gallery(&mut self, action: UiAction)
        requires
            old(self).wf(),
            action is EffectConfigure || action is EffectChoose || action is EffectToggleEnabled,
        ensures
            final(self).wf(),
            final(self)@ == old(self)@.after(action),
    {
        if let Some(taken) = self.gallery.take() {
            let mut gallery = taken;
            match action {
                UiAction::EffectConfigure => {
                    gallery.next_phase();
                },
                UiAction::EffectChoose => {
                    gallery.previous_phase();
                },
                _ => {
                    gallery.toggle_enabled();
                },
            }
            self.gallery = Some(gallery);
        }
    }

    fn change_panel(&mut self, action: UiAction)
        requires
            old(self).wf(),
            action is Preferences || action is History || action is Shortcuts || action is Effects
                || action is Relay || action is Escape,
        ensures
            final(self).wf(),
            final(self)@ == old(self)@.after(action),
    {
        match action {
            UiAction::Preferences => {
                let open = !self.show_preferences;
                self.close_panels();
                self.show_preferences = open;
            },
            UiAction::History => {
                let open = !self.show_history;
                self.close_panels();
                self.show_history = open;
            },
            UiAction::Shortcuts => {
                let open = !self.show_shortcuts;
                self.close_panels();
                self.show_shortcuts = open;
            },
            UiAction::Effects => {
                let open = !self.show_effects;
                self.close_panels();
                self.show_effects = open;
            },
            UiAction::Relay => {
                self.show_relay = !self.show_relay;
            },
            _ => {
                self.close_panels();
                self.show_relay = false;
            },
        }
    }

    fn change_relay(&mut self, action: UiAction)
        requires
            old(self).wf(),
            action is RelayConnect || action is RelayShowQr,
        ensures
            final(self).wf(),
            final(self)@ == old(self)@.after(action),
    {
        match action {
            UiAction::RelayConnect => {
                self.relay.client_target = self.relay.quick_target.clone();
            },
            _ => {
                self.relay.show_qr = true;
            },
        }
    }

    fn change_option(&mut self, action: UiAction)
        requires
            old(self).wf(),
            action is ToggleThumbnail || action is ToggleMinimap || action is ToggleStatusbar
                || action is ToggleRepel || action is ToggleConnectThrough || action is SortBy
                || action is Order || action is Connect || action is Filter,
        ensures
            final(self).wf(),
            final(self)@ == old(self)@.after(action),
    {
        match action {
            UiAction::ToggleThumbnail => {
                self.thumbnail_mode = !self.thumbnail_mode;
            },
            UiAction::ToggleMinimap => {
                self.minimap_visible = !self.minimap_visible;
            },
            UiAction::ToggleStatusbar => {
                self.statusbar = !self.statusbar;
            },
            UiAction::ToggleRepel => {
                self.repel_overlapping_nodes = !self.repel_overlapping_nodes;
            },
            UiAction::ToggleConnectThrough => {
                self.connect_through_nodes = !self.connect_through_nodes;
            },
            UiAction::SortBy(key) => {
                self.sort_key = key;
            },
            UiAction::Order(order) => {
                self.sort_order = order;
            },
            UiAction::Connect(mode) => {
                self.connect_mode = mode;
            },
            UiAction::Filter(filter) => {
                self.media_filter = filter;
            },
            _ => {},
        }
    }

    fn command_for(&self, action: UiAction) -> (r: UiCommand)
        ensures
            r == self@.command(action),
    {
        match action {
            UiAction::Refresh => UiCommand::Refresh,
            UiAction::Arrange => UiCommand::Arrange,
            UiAction::Pan(direction, speed) => pan_command(direction, speed),
            UiAction::ZoomIn => UiCommand::ZoomIn,
            UiAction::ZoomOut => UiCommand::ZoomOut,
            UiAction::Undo => UiCommand::Undo,
            UiAction::Redo => UiCommand::Redo,
            UiAction::SaveConfig => UiCommand::SaveConfig,
            UiAction::SavePatchbay => UiCommand::SavePatchbay,
            UiAction::LoadPatchbay => UiCommand::LoadPatchbay,
            UiAction::DisconnectAll => UiCommand::DisconnectAll,
            UiAction::SnapshotPatchbay => UiCommand::SnapshotPatchbay,
            UiAction::ActivatePatchbay => UiCommand::ActivatePatchbay,
            UiAction::ResetAudio => UiCommand::ResetAudio,
            UiAction::Effects => if self.show_effects {
                UiCommand::Nothing
            } else {
                UiCommand::OpenGallery
            },
            UiAction::CreateEffect => if self.gallery.is_some() {
                UiCommand::CreateEffect
            } else {
                UiCommand::OpenGallery
            },
            UiAction::Relay => if self.show_relay {
                UiCommand::Nothing
            } else {
                UiCommand::StartDiscovery
            },
            UiAction::RelayDiscover => UiCommand::StartDiscovery,
            UiAction::RelayRefresh => UiCommand::RelayRefresh,
            UiAction::RelayConnect => UiCommand::RelayConnect,
            UiAction::RelayHostStart => UiCommand::RelayHostStart,
            UiAction::RelayHostStop => UiCommand::RelayHostStop,
            UiAction::RelayShowQr => UiCommand::RelayShowQr,
            _ => UiCommand::Nothing,
        }
    }

    /// Does what an action asks for, and says what is left to be done.
    pub fn handle_action(&mut self, action: UiAction) -> (r: UiCommand)
        requires
            old(self).wf(),
        ensures
            final(self).wf(),
            final(self)@ == old(self)@.after(action),
            r == old(self)@.command(action),
    {
        let command = self.command_for(action);
        match action {
            UiAction::ToggleThumbnail | UiAction::ToggleMinimap | UiAction::ToggleStatusbar
            | UiAction::ToggleRepel | UiAction::ToggleConnectThrough | UiAction::SortBy(_)
            | UiAction::Order(_) | UiAction::Connect(_) | UiAction::Filter(_) => {
                self.change_option(action);
            },
            UiAction::Preferences | UiAction::History | UiAction::Shortcuts | UiAction::Effects
            | UiAction::Relay | UiAction::Escape => {
                self.change_panel(action);
            },
            UiAction::EffectConfigure | UiAction::EffectChoose | UiAction::EffectToggleEnabled => {
                self.change_gallery(action);
            },
            UiAction::RelayConnect | UiAction::RelayShowQr => {
                self.change_relay(action);
            },
            _ => {},
        }
        command
    }

    /// Opens the gallery at the first effect that there is. The result says
    /// whether there is one.
    pub fn open_effect_gallery(&mut self, descriptors: &Vec<EffectDescriptor>) -> (r: bool)
        requires
            old(self).wf(),
        ensures
            final(self).wf(),
            r == (descriptors@.len() > 0),
            final(self)@ == (if r {
                old(self)@.gallery_opened(descriptors@[0])
            } else {
                old(self)@
            }),
    {
        if descriptors.len() == 0 {
            return false;
        }
        self.show_shortcuts = false;
        self.show_history = false;
        self.show_preferences = false;
        self.gallery_epoch = self.gallery_epoch.wrapping_add(1);
        self.gallery = Some(EffectGalleryState::new(&descriptors[0], self.gallery_epoch));
        true
    }

    /// A parameter was changed in the gallery.
    pub fn gallery_parameter_changed(&mut self, id: String, value: u32)
        requires
            old(self).wf(),
        ensures
            final(self).wf(),
            final(self)@ == old(self)@.with_gallery(
                |g: GalleryView| GalleryView { parameters: g.parameters.insert(id@, value), ..g },
            ),
    {
        if let Some(taken) = self.gallery.take() {
            let mut gallery = taken;
            gallery.set_parameter(id, value);
            self.gallery = Some(gallery);
        }
    }

    /// The code of the relay was asked for. Where there is none, `no_links`
    /// stands for it. It is shown, and is the message and the status too.
    pub fn qr_answered(&mut self, payload: Option<String>, no_links: String)
        requires
            old(self).wf(),
        ensures
            final(self).wf(),
            final(self)@ == old(self)@.qr_shown(
                match payload {
                    Some(text) => text@,
                    None => no_links@,
                },
            ),
    {
        let text = match payload {
            Some(text) => text,
            None => no_links,
        };
        self.relay.show_qr = true;
        self.relay.message = text.clone();
        self.status = text.clone();
        self.relay.qr_text = text;
    }

    /// The effect of the gallery was made, or could not be. Only where it was
    /// made are the effects closed. The result is the key of the message.
    pub fn effect_answered(&mut self, created: bool) -> (r: &'static str)
        requires
            old(self).wf(),
        ensures
            final(self).wf(),
            final(self)@ == (UiView {
                show_effects: old(self)@.show_effects && !created,
                ..old(self)@
            }),
            r@ == (if created {
                "effects.created"@
            } else {
                "effects.create_failed"@
            }),
    {
        if created {
            self.show_effects = false;
            "effects.created"
        } else {
            "effects.create_failed"
        }
    }
}

/// No action opens a second panel beside one that is open. The panel of the relay stands
/// apart from the others.
pub proof fn law_one_panel_at_a_time(ui: UiView, action: UiAction)
    requires
        ui.one_panel(),
    ensures
        ui.after(action).one_panel(),
{
}

/// Every switch goes back to where it was when it is used twice.
pub proof fn law_switches_go_back(ui: UiView)
    ensures
        ui.after(UiAction::ToggleThumbnail).after(UiAction::ToggleThumbnail) == ui,
        ui.after(UiAction::ToggleMinimap).after(UiAction::ToggleMinimap) == ui,
        ui.after(UiAction::ToggleStatusbar).after(UiAction::ToggleStatusbar) == ui,
        ui.after(UiAction::ToggleRepel).after(UiAction::ToggleRepel) == ui,
        ui.after(UiAction::ToggleConnectThrough).after(UiAction::ToggleConnectThrough) == ui,
        ui.after(UiAction::Relay).after(UiAction::Relay) == ui,
{
}

/// Escape closes everything, and what is shown of the graph stays as it is.
pub proof fn law_escape_closes_everything(ui: UiView)
    ensures
        ({
            let closed = ui.after(UiAction::Escape);
            &&& !closed.show_preferences && !closed.show_history && !closed.show_shortcuts
                && !closed.show_effects && !closed.show_relay
            &&& closed == (UiView {
                show_preferences: false,
                show_history: false,
                show_shortcuts: false,
                show_effects: false,
                show_relay: false,
                ..ui
            })
        }),
{
}

/// Panning left and right, and up and down, are opposite; panning sideways
/// keeps the height and panning up and down keeps the side. A faster pan goes
/// twice as far.
pub proof fn law_pans(speed: PanSpeed)
    ensures
        ({
            let step = pan_step(speed);
            &&& step > 0
            &&& pan_of(PanDirection::Right, speed) == (UiCommand::Pan { x: step, y: 0 })
            &&& pan_of(PanDirection::Left, speed) == (UiCommand::Pan { x: (-step) as i32, y: 0 })
            &&& pan_of(PanDirection::Down, speed) == (UiCommand::Pan { x: 0, y: step })
            &&& pan_of(PanDirection::Up, speed) == (UiCommand::Pan { x: 0, y: (-step) as i32 })
        }),
        pan_step(PanSpeed::Medium) == 2 * pan_step(PanSpeed::Slow),
        pan_step(PanSpeed::Fast) == 2 * pan_step(PanSpeed::Medium),
{
}

/// A panel that is asked for is opened, and closed where it was open; the
/// other panels are closed.
pub proof fn law_panels_toggle(ui: UiView)
    ensures
        ({
            let p = ui.after(UiAction::Preferences);
            &&& p.show_preferences == !ui.show_preferences
            &&& !p.show_history && !p.show_shortcuts && !p.show_effects
        }),
        ({
            let p = ui.after(UiAction::History);
            &&& p.show_history == !ui.show_history
            &&& !p.show_preferences && !p.show_shortcuts && !p.show_effects
        }),
        ({
            let p = ui.after(UiAction::Shortcuts);
            &&& p.show_shortcuts == !ui.show_shortcuts
            &&& !p.show_preferences && !p.show_history && !p.show_effects
        }),
        ({
            let p = ui.after(UiAction::Effects);
            &&& p.show_effects == !ui.show_effects
            &&& !p.show_preferences && !p.show_history && !p.show_shortcuts
        }),
        ui.after(UiAction::Relay).show_relay == !ui.show_relay,
{
}

/// A choice becomes what was chosen and changes nothing else; a switch is
/// turned over.
pub proof fn law_choices_and_switches(
    ui: UiView,
    key: SortKey,
    order: SortOrder,
    mode: ConnectMode,
    filter: MediaFilter,
)
    ensures
        ui.after(UiAction::SortBy(key)).sort_key == key,
        ui.after(UiAction::SortBy(key)) == (UiView { sort_key: key, ..ui }),
        ui.after(UiAction::Order(order)).sort_order == order,
        ui.after(UiAction::Order(order)) == (UiView { sort_order: order, ..ui }),
        ui.after(UiAction::Connect(mode)).connect_mode == mode,
        ui.after(UiAction::Connect(mode)) == (UiView { connect_mode: mode, ..ui }),
        ui.after(UiAction::Filter(filter)).media_filter == filter,
        ui.after(UiAction::Filter(filter)) == (UiView { media_filter: filter, ..ui }),
        ui.after(UiAction::ToggleThumbnail).thumbnail_mode == !ui.thumbnail_mode,
        ui.after(UiAction::ToggleMinimap).minimap_visible == !ui.minimap_visible,
        ui.after(UiAction::ToggleStatusbar).statusbar == !ui.statusbar,
        ui.after(UiAction::ToggleRepel).repel_overlapping_nodes == !ui.repel_overlapping_nodes,
        ui.after(UiAction::ToggleConnectThrough).connect_through_nodes
            == !ui.connect_through_nodes,
{
}

/// Actions on the graph leave the state of the window as it is and are handed
/// on as commands of the same name.
pub proof fn law_commands_are_handed_on(ui: UiView)
    ensures
        ui.after(UiAction::Refresh) == ui && ui.command(UiAction::Refresh) is Refresh,
        ui.after(UiAction::Arrange) == ui && ui.command(UiAction::Arrange) is Arrange,
        ui.after(UiAction::ZoomIn) == ui && ui.command(UiAction::ZoomIn) is ZoomIn,
        ui.after(UiAction::ZoomOut) == ui && ui.command(UiAction::ZoomOut) is ZoomOut,
        ui.after(UiAction::Undo) == ui && ui.command(UiAction::Undo) is Undo,
        ui.after(UiAction::Redo) == ui && ui.command(UiAction::Redo) is Redo,
        ui.after(UiAction::SaveConfig) == ui && ui.command(UiAction::SaveConfig) is SaveConfig,
        ui.after(UiAction::SavePatchbay) == ui && ui.command(
            UiAction::SavePatchbay,
        ) is SavePatchbay,
        ui.after(UiAction::LoadPatchbay) == ui && ui.command(
            UiAction::LoadPatchbay,
        ) is LoadPatchbay,
        ui.after(UiAction::DisconnectAll) == ui && ui.command(
            UiAction::DisconnectAll,
        ) is DisconnectAll,
        ui.after(UiAction::SnapshotPatchbay) == ui && ui.command(
            UiAction::SnapshotPatchbay,
        ) is SnapshotPatchbay,
        ui.after(UiAction::ActivatePatchbay) == ui && ui.command(
            UiAction::ActivatePatchbay,
        ) is ActivatePatchbay,
        ui.after(UiAction::ResetAudio) == ui && ui.command(UiAction::ResetAudio) is ResetAudio,
        ui.command(UiAction::Effects) is OpenGallery <==> !ui.show_effects,
        ui.command(UiAction::CreateEffect) is CreateEffect <==> ui.gallery is Some,
        ui.command(UiAction::CreateEffect) is OpenGallery <==> ui.gallery is None,
        ui.command(UiAction::Relay) is StartDiscovery <==> !ui.show_relay,
        ui.command(UiAction::Preferences) is Nothing,
        ui.command(UiAction::Escape) is Nothing,
{
}

/// Connecting to the relay takes the target that was typed in; the code that
/// is shown is the text, also as the message and the status.
pub proof fn law_relay_panel(ui: UiView, text: Seq<char>)
    ensures
        ui.after(UiAction::RelayConnect).relay.client_target == ui.relay.quick_target,
        ui.after(UiAction::RelayConnect).relay.quick_target == ui.relay.quick_target,
        ui.after(UiAction::RelayShowQr).relay.show_qr,
        ({
            let shown = ui.qr_shown(text);
            &&& shown.relay.show_qr
            &&& shown.relay.qr_text == text
            &&& shown.relay.message == text
            &&& shown.status == text
            &&& shown.relay.quick_target == ui.relay.quick_target
        }),
{
}

/// Opening the gallery closes the other panels and shows the effect at its
/// choice; steps and switches of the gallery reach the gallery that is open.
pub proof fn law_gallery_in_the_window(ui: UiView, descriptor: EffectDescriptor, g: GalleryView)
    ensures
        ({
            let open = ui.gallery_opened(descriptor);
            &&& open.gallery matches Some(gallery)
            &&& gallery.effect_id == descriptor.id@
            &&& gallery.enabled
            &&& !open.show_preferences && !open.show_history && !open.show_shortcuts
            &&& open.show_effects == ui.show_effects
        }),
        ui.gallery == Some(g) ==> {
            &&& ui.after(UiAction::EffectToggleEnabled).gallery matches Some(after)
            &&& after.enabled == !g.enabled
            &&& after.effect_id == g.effect_id
        },
        ui.gallery == Some(g) ==> {
            &&& ui.after(UiAction::EffectConfigure).gallery matches Some(after)
            &&& after.phase == crate::gallery::EffectGalleryPhase::Configure
        },
        ui.gallery == Some(g) ==> {
            &&& ui.after(UiAction::EffectChoose).gallery matches Some(after)
            &&& after.phase == crate::gallery::EffectGalleryPhase::Choose
        },
        ui.gallery is None ==> ui.after(UiAction::EffectToggleEnabled) == ui,
{
}

} // verus!
