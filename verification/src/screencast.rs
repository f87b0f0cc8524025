//! Screen capture through the desktop portal: what the session looks like from
//! outside, and how it is led through the portal's steps.
use crate::model::{clone_opt, opt_text};
use vstd::prelude::*;

verus! {

/// What is captured.
#[derive(Clone, Copy, Debug, PartialEq, Eq, Structural)]
pub enum ScreenCastSource {
    Monitor,
    Window,
    Virtual,
}

/// What capturing was asked for.
#[derive(Clone, Copy, Debug, PartialEq, Eq, Structural)]
pub struct ScreenCastRequest {
    pub source: ScreenCastSource,
    pub show_cursor: bool,
    pub multiple: bool,
}

impl Default for ScreenCastRequest {
    fn default() -> (r: ScreenCastRequest)
        ensures
            r == (ScreenCastRequest {
                source: ScreenCastSource::Monitor,
                show_cursor: true,
                multiple: false,
            }),
    {
        ScreenCastRequest { source: ScreenCastSource::Monitor, show_cursor: true, multiple: false }
    }
}

/// Where a capture stands.
#[derive(Clone, Debug, PartialEq, Eq)]
pub enum ScreenCastState {
    Idle,
    Requesting,
    Active,
    CancelledByUser,
    SessionClosed,
    SourceGone,
    Failed(String),
}

/// The contents of a [`ScreenCastState`].
pub enum ScreenCastStateView {
    Idle,
    Requesting,
    Active,
    CancelledByUser,
    SessionClosed,
    SourceGone,
    Failed(Seq<char>),
}

impl View for ScreenCastState {
    type V = ScreenCastStateView;

    open spec fn view(&self) -> ScreenCastStateView {
        match self {
            ScreenCastState::Idle => ScreenCastStateView::Idle,
            ScreenCastState::Requesting => ScreenCastStateView::Requesting,
            ScreenCastState::Active => ScreenCastStateView::Active,
            ScreenCastState::CancelledByUser => ScreenCastStateView::CancelledByUser,
            ScreenCastState::SessionClosed => ScreenCastStateView::SessionClosed,
            ScreenCastState::SourceGone => ScreenCastStateView::SourceGone,
            ScreenCastState::Failed(text) => ScreenCastStateView::Failed(text@),
        }
    }
}

impl ScreenCastState {
    pub fn is_active(&self) -> (r: bool)
        ensures
            r == (self@ is Active),
    {
        matches!(self, ScreenCastState::Active)
    }

    /// The capture has come to an end.
    pub fn is_terminal(&self) -> (r: bool)
        ensures
            r == (self@ is CancelledByUser || self@ is SessionClosed || self@ is SourceGone
                || self@ is Failed),
    {
        match self {
            ScreenCastState::CancelledByUser => true,
            ScreenCastState::SessionClosed => true,
            ScreenCastState::SourceGone => true,
            ScreenCastState::Failed(_) => true,
            _ => false,
        }
    }

    /// A copy with the same contents.
    pub fn duplicate(&self) -> (r: ScreenCastState)
        ensures
            r@ == self@,
    {
        match self {
            ScreenCastState::Idle => ScreenCastState::Idle,
            ScreenCastState::Requesting => ScreenCastState::Requesting,
            ScreenCastState::Active => ScreenCastState::Active,
            ScreenCastState::CancelledByUser => ScreenCastState::CancelledByUser,
            ScreenCastState::SessionClosed => ScreenCastState::SessionClosed,
            ScreenCastState::SourceGone => ScreenCastState::SourceGone,
            ScreenCastState::Failed(text) => ScreenCastState::Failed(text.clone()),
        }
    }
}

/// What is shown of a capture.
#[derive(Debug, PartialEq, Eq)]
pub struct ScreenCastStatus {
    pub state: ScreenCastState,
    pub source: Option<ScreenCastSource>,
    pub pipewire_node_id: Option<u32>,
    pub object_serial: Option<u64>,
    pub error: Option<String>,
}

/// The contents of a [`ScreenCastStatus`].
pub struct ScreenCastStatusView {
    pub state: ScreenCastStateView,
    pub source: Option<ScreenCastSource>,
    pub pipewire_node_id: Option<u32>,
    pub object_serial: Option<u64>,
    pub error: Option<Seq<char>>,
}

impl View for ScreenCastStatus {
    type V = ScreenCastStatusView;

    open spec fn view(&self) -> ScreenCastStatusView {
        ScreenCastStatusView {
            state: self.state@,
            source: self.source,
            pipewire_node_id: self.pipewire_node_id,
            object_serial: self.object_serial,
            error: opt_text(self.error),
        }
    }
}

impl ScreenCastStatusView {
    pub open spec fn idle() -> ScreenCastStatusView {
        ScreenCastStatusView {
            state: ScreenCastStateView::Idle,
            source: None,
            pipewire_node_id: None,
            object_serial: None,
            error: None,
        }
    }

    /// A serial stands only beside a node number, and a node number only while
    /// the capture is active.
    pub open spec fn consistent(self) -> bool {
        &&& self.object_serial is Some ==> self.pipewire_node_id is Some
        &&& self.pipewire_node_id is Some ==> self.state is Active
    }

    /// The capture once the serial of its stream's node was noted.
    pub open spec fn with_serial(self, node_id: u32, serial: Option<u64>) -> ScreenCastStatusView {
        if self.pipewire_node_id == Some(node_id) {
            ScreenCastStatusView { object_serial: serial, ..self }
        } else {
            self
        }
    }

    /// A capture that waits for the portal.
    pub open spec fn requesting(source: ScreenCastSource) -> ScreenCastStatusView {
        ScreenCastStatusView {
            state: ScreenCastStateView::Requesting,
            source: Some(source),
            ..ScreenCastStatusView::idle()
        }
    }

    /// The capture once the portal has answered.
    pub open spec fn answered(
        self,
        answer: Result<PortalSessionOpened, PortalError>,
    ) -> ScreenCastStatusView {
        match answer {
            Ok(opened) => ScreenCastStatusView {
                state: ScreenCastStateView::Active,
                pipewire_node_id: if opened.streams@.len() > 0 {
                    Some(opened.streams@[0].pipewire_node_id)
                } else {
                    None
                },
                ..self
            },
            Err(PortalError::CancelledByUser) => ScreenCastStatusView {
                state: ScreenCastStateView::CancelledByUser,
                ..self
            },
            Err(error) => ScreenCastStatusView {
                state: ScreenCastStateView::Failed(portal_text(error)),
                error: Some(portal_text(error)),
                ..self
            },
        }
    }

    /// The capture after it came to an end in the given way.
    pub open spec fn ended(self, state: ScreenCastStateView) -> ScreenCastStatusView {
        ScreenCastStatusView { state, pipewire_node_id: None, object_serial: None, ..self }
    }

    /// The capture after its stream disappeared: only an active one notices,
    /// and only its own stream.
    pub open spec fn after_disappearance(self, node_id: u32) -> ScreenCastStatusView {
        if self.state is Active && self.pipewire_node_id == Some(node_id) {
            self.ended(ScreenCastStateView::SourceGone)
        } else {
            self
        }
    }
}

impl Default for ScreenCastStatus {
    fn default() -> (r: ScreenCastStatus)
        ensures
            r@ == ScreenCastStatusView::idle(),
    {
        ScreenCastStatus {
            state: ScreenCastState::Idle,
            source: None,
            pipewire_node_id: None,
            object_serial: None,
            error: None,
        }
    }
}

/// One stream that the portal opened. The node number holds for the session
/// only.
#[derive(Clone, Debug, PartialEq, Eq)]
pub struct PortalStream {
    pub pipewire_node_id: u32,
    pub stream_id: Option<String>,
    pub size: Option<(i32, i32)>,
}

/// What an opened session offers.
#[derive(Clone, Debug, PartialEq, Eq)]
pub struct PortalSessionOpened {
    pub streams: Vec<PortalStream>,
    pub restore_token: Option<String>,
}

/// Why a portal did not open a session.
#[derive(Clone, Debug, PartialEq, Eq)]
pub enum PortalError {
    CancelledByUser,
    Unsupported(String),
    Unavailable(String),
    Failed(String),
}

/// What is shown for a portal error.
pub open spec fn portal_text(error: PortalError) -> Seq<char> {
    match error {
        PortalError::CancelledByUser => "capture cancelled"@,
        PortalError::Unsupported(message) => message@,
        PortalError::Unavailable(message) => message@,
        PortalError::Failed(message) => message@,
    }
}

impl PortalError {
    pub fn to_text(&self) -> (r: String)
        ensures
            r@ == portal_text(*self),
    {
        match self {
            PortalError::CancelledByUser => "capture cancelled".to_owned(),
            PortalError::Unsupported(message) => message.clone(),
            PortalError::Unavailable(message) => message.clone(),
            PortalError::Failed(message) => message.clone(),
        }
    }
}

/// What leads a session through the portal. Opening waits for the user.
pub trait PortalConnector {
    fn open_capture(&mut self, request: &ScreenCastRequest) -> (r: Result<
        PortalSessionOpened,
        PortalError,
    >);

    /// Closes the session, if there is one.
    fn close(&mut self);

    /// Whether a session is open.
    fn is_open(&self) -> (r: bool)
        default_ensures
            !r,
    {
        false
    }

    /// Whether the portal has closed the session by itself. Says so once.
    fn poll_external_close(&mut self) -> (r: bool)
        default_ensures
            !r,
    {
        false
    }

    /// What the desktop offers to capture.
    fn available_source_types(&mut self) -> (r: Result<Vec<ScreenCastSource>, PortalError>);
}

/// The connector where there is no portal.
#[derive(Debug, PartialEq, Eq)]
pub struct StubPortalConnector {
    pub open: bool,
}

impl Default for StubPortalConnector {
    fn default() -> (r: StubPortalConnector)
        ensures
            !r.open,
    {
        StubPortalConnector { open: false }
    }
}

impl StubPortalConnector {
    pub fn new() -> (r: StubPortalConnector)
        ensures
            !r.open,
    {
        StubPortalConnector { open: false }
    }
}

impl PortalConnector for StubPortalConnector {
    fn open_capture(&mut self, request: &ScreenCastRequest) -> (r: Result<
        PortalSessionOpened,
        PortalError,
    >)
        ensures
            *final(self) == *old(self),
            r matches Err(PortalError::Unavailable(text)) && text@
                == "screen capture needs a Linux desktop with xdg-desktop-portal and the screencast feature"@,
    {
        let _ = request;
        Err(
            PortalError::Unavailable(
                "screen capture needs a Linux desktop with xdg-desktop-portal and the screencast feature".to_owned(),
            ),
        )
    }

    fn close(&mut self)
        ensures
            !final(self).open,
    {
        self.open = false;
    }

    fn available_source_types(&mut self) -> (r: Result<Vec<ScreenCastSource>, PortalError>)
        ensures
            *final(self) == *old(self),
            r matches Err(PortalError::Unavailable(text)) && text@
                == "portal source types are unavailable without the screencast feature"@,
    {
        Err(
            PortalError::Unavailable(
                "portal source types are unavailable without the screencast feature".to_owned(),
            ),
        )
    }
}

/// One capture: its state, and the stream that it brought.
pub struct ScreenCastManager<C> {
    pub connector: C,
    pub status: ScreenCastStatus,
    pub restore_token: Option<String>,
}

/// The token that the next session may present.
pub open spec fn token_after(
    before: Option<Seq<char>>,
    answer: Result<PortalSessionOpened, PortalError>,
) -> Option<Seq<char>> {
    match answer {
        Ok(opened) => opt_text(opened.restore_token),
        Err(_) => before,
    }
}

impl ScreenCastManager<StubPortalConnector> {
    pub fn with_stub() -> (r: ScreenCastManager<StubPortalConnector>)
        ensures
            r.status@ == ScreenCastStatusView::idle(),
            r.restore_token is None,
            !r.connector.open,
    {
        ScreenCastManager::new(StubPortalConnector::new())
    }
}

impl<C: PortalConnector> ScreenCastManager<C> {
    pub fn new(connector: C) -> (r: ScreenCastManager<C>)
        ensures
            r.connector == connector,
            r.status@ == ScreenCastStatusView::idle(),
            r.status@.consistent(),
            r.restore_token is None,
    {
        ScreenCastManager { connector, status: ScreenCastStatus::default(), restore_token: None }
    }

    pub fn status(&self) -> (r: ScreenCastStatus)
        ensures
            r@ == self.status@,
    {
        ScreenCastStatus {
            state: self.status.state.duplicate(),
            source: self.status.source,
            pipewire_node_id: self.status.pipewire_node_id,
            object_serial: self.status.object_serial,
            error: clone_opt(&self.status.error),
        }
    }

    pub fn restore_token(&self) -> (r: Option<&str>)
        ensures
            match r {
                Some(token) => opt_text(self.restore_token) == Some(token@),
                None => self.restore_token is None,
            },
    {
        match &self.restore_token {
            Some(token) => Some(token.as_str()),
            None => None,
        }
    }

    /// Starts a capture, after ending an earlier one: where a capture is
    /// active, or the connector says that a session is open, the connector is
    /// closed first, and otherwise it is left as it is. It is then handed the
    /// request, and what it answers decides how the capture stands then.
    pub fn start(&mut self, request: &ScreenCastRequest) -> (r: ScreenCastStatus)
        ensures
            r@ == final(self).status@,
            final(self).status@.consistent(),
            exists|c: &mut C, answer: Result<PortalSessionOpened, PortalError>| #[trigger]
                call_ensures(C::open_capture, (c, request), answer) && (((old(
                    self,
                ).status@.state is Active || call_ensures(
                    C::is_open,
                    (&old(self).connector,),
                    true,
                )) && exists|c0: &mut C| #[trigger]
                    call_ensures(C::close, (c0,), ()) && *c0 == old(self).connector && *final(c0)
                        == *c) || (!(old(self).status@.state is Active) && call_ensures(
                    C::is_open,
                    (&old(self).connector,),
                    false,
                ) && *c == old(self).connector)) && *final(c) == final(self).connector && final(self).status@
                    == ScreenCastStatusView::requesting(request.source).answered(answer)
                    && opt_text(final(self).restore_token) == token_after(
                    opt_text(old(self).restore_token),
                    answer,
                ),
    {
        if self.status.state.is_active() || self.connector.is_open() {
            self.connector.close();
        }
        self.status = ScreenCastStatus {
            state: ScreenCastState::Requesting,
            source: Some(request.source),
            pipewire_node_id: None,
            object_serial: None,
            error: None,
        };
        let answer = self.connector.open_capture(request);
        self.portal_answered(answer);
        self.status()
    }

    /// Takes on what the portal answered.
    pub fn portal_answered(&mut self, answer: Result<PortalSessionOpened, PortalError>)
        ensures
            old(self).status@.pipewire_node_id is None && old(self).status@.object_serial is None
                ==> final(self).status@.consistent(),
            final(self).status@ == old(self).status@.answered(answer),
            opt_text(final(self).restore_token) == token_after(
                opt_text(old(self).restore_token),
                answer,
            ),
            final(self).connector == old(self).connector,
    {
        match answer {
            Ok(opened) => {
                self.status.pipewire_node_id = if opened.streams.len() > 0 {
                    Some(opened.streams[0].pipewire_node_id)
                } else {
                    None
                };
                self.restore_token = opened.restore_token;
                self.status.state = ScreenCastState::Active;
            },
            Err(PortalError::CancelledByUser) => {
                self.status.state = ScreenCastState::CancelledByUser;
            },
            Err(error) => {
                self.status.state = ScreenCastState::Failed(error.to_text());
                self.status.error = Some(error.to_text());
            },
        }
    }

    /// Ends the capture.
    pub fn stop(&mut self)
        ensures
            final(self).status@.consistent(),
            final(self).status@ == ScreenCastStatusView::idle(),
            final(self).restore_token == old(self).restore_token,
            exists|c: &mut C| #[trigger]
                call_ensures(C::close, (c,), ()) && *c == old(self).connector && *final(c)
                    == final(self).connector,
    {
        self.connector.close();
        self.status = ScreenCastStatus::default();
    }

    /// Notes the serial of the stream's node. It is stable where the node
    /// number is not.
    pub fn note_stream_serial(&mut self, node_id: u32, serial: Option<u64>)
        ensures
            old(self).status@.consistent() ==> final(self).status@.consistent(),
            final(self).status@ == old(self).status@.with_serial(node_id, serial),
            final(self).restore_token == old(self).restore_token,
            final(self).connector == old(self).connector,
    {
        if self.status.pipewire_node_id == Some(node_id) {
            self.status.object_serial = serial;
        }
    }

    /// The session was closed from outside.
    pub fn note_session_closed(&mut self)
        ensures
            old(self).status@.consistent() ==> final(self).status@.consistent(),
            final(self).status@ == (if old(self).status@.state is Active
                || old(self).status@.state is Requesting {
                old(self).status@.ended(ScreenCastStateView::SessionClosed)
            } else {
                old(self).status@
            }),
            final(self).restore_token == old(self).restore_token,
            if old(self).status@.state is Active || old(self).status@.state is Requesting {
                exists|c: &mut C| #[trigger]
                    call_ensures(C::close, (c,), ()) && *c == old(self).connector && *final(c)
                        == final(self).connector
            } else {
                final(self).connector == old(self).connector
            },
    {
        if self.status.state.is_active() || matches!(
            self.status.state,
            ScreenCastState::Requesting
        ) {
            self.connector.close();
            self.status.state = ScreenCastState::SessionClosed;
            self.status.pipewire_node_id = None;
            self.status.object_serial = None;
        }
    }

    /// The stream's node is gone.
    pub fn note_stream_disappeared(&mut self, node_id: u32)
        ensures
            old(self).status@.consistent() ==> final(self).status@.consistent(),
            final(self).status@ == old(self).status@.after_disappearance(node_id),
            final(self).restore_token == old(self).restore_token,
            final(self).connector == old(self).connector,
    {
        if self.status.state.is_active() && self.status.pipewire_node_id == Some(node_id) {
            self.status.state = ScreenCastState::SourceGone;
            self.status.pipewire_node_id = None;
            self.status.object_serial = None;
        }
    }

    /// Looks for the stream among the nodes that are visible.
    pub fn reconcile_visible_streams(&mut self, visible_node_ids: &[u32])
        ensures
            old(self).status@.consistent() ==> final(self).status@.consistent(),
            final(self).status@ == (match old(self).status@.pipewire_node_id {
                Some(id) => if visible_node_ids@.contains(id) {
                    old(self).status@
                } else {
                    old(self).status@.after_disappearance(id)
                },
                None => old(self).status@,
            }),
            final(self).restore_token == old(self).restore_token,
            final(self).connector == old(self).connector,
    {
        if self.status.state.is_active() {
            if let Some(id) = self.status.pipewire_node_id {
                if !list_has(visible_node_ids, id) {
                    self.note_stream_disappeared(id);
                }
            }
        }
    }

    /// Asks whether the portal has closed the session by itself.
    pub fn poll(&mut self)
        ensures
            old(self).status@.consistent() ==> final(self).status@.consistent(),
            final(self).restore_token == old(self).restore_token,
            if old(self).status@.state is Active {
                exists|c: &mut C, closed: bool| #[trigger]
                    call_ensures(C::poll_external_close, (c,), closed) && *c
                        == old(self).connector && *final(c) == final(self).connector
                        && final(self).status@ == (if closed {
                        old(self).status@.ended(ScreenCastStateView::SessionClosed)
                    } else {
                        old(self).status@
                    })
            } else {
                *final(self) == *old(self)
            },
    {
        if self.status.state.is_active() {
            let closed = self.connector.poll_external_close();
            self.external_close_polled(closed);
        }
    }

    /// Takes on what asking the portal came to.
    pub fn external_close_polled(&mut self, closed: bool)
        ensures
            old(self).status@.consistent() ==> final(self).status@.consistent(),
            final(self).status@ == (if closed {
                old(self).status@.ended(ScreenCastStateView::SessionClosed)
            } else {
                old(self).status@
            }),
            final(self).restore_token == old(self).restore_token,
            final(self).connector == old(self).connector,
    {
        if closed {
            self.status.state = ScreenCastState::SessionClosed;
            self.status.pipewire_node_id = None;
            self.status.object_serial = None;
        }
    }

    /// Whether the desktop offers virtual displays, if it says.
    pub fn probe_virtual_support(&mut self) -> (r: Option<bool>)
        ensures
            final(self).status == old(self).status,
            final(self).restore_token == old(self).restore_token,
            exists|c: &mut C, types: Result<Vec<ScreenCastSource>, PortalError>| #[trigger]
                call_ensures(C::available_source_types, (c,), types) && *c
                    == old(self).connector && *final(c) == final(self).connector && r
                    == offers_virtual(types),
    {
        let types = self.connector.available_source_types();
        virtual_offered(&types)
    }
}

/// Virtual displays are among the types that a desktop offers.
pub open spec fn offers_virtual(types: Result<Vec<ScreenCastSource>, PortalError>) -> Option<bool> {
    match types {
        Ok(list) => Some(list@.contains(ScreenCastSource::Virtual)),
        Err(_) => None,
    }
}

pub fn virtual_offered(types: &Result<Vec<ScreenCastSource>, PortalError>) -> (r: Option<bool>)
    ensures
        r == offers_virtual(*types),
{
    match types {
        Err(_) => None,
        Ok(list) => {
            let mut i: usize = 0;
            while i < list.len()
                invariant
                    i <= list.len(),
                    *types == Ok::<Vec<ScreenCastSource>, PortalError>(*list),
                    forall|j: int| 0 <= j < i ==> list@[j] != ScreenCastSource::Virtual,
                decreases list.len() - i,
            {
                if list[i] == ScreenCastSource::Virtual {
                    assert(list@.contains(list@[i as int]));
                    return Some(true);
                }
                i = i + 1;
            }
            Some(false)
        },
    }
}

fn list_has(list: &[u32], id: u32) -> (r: bool)
    ensures
        r == list@.contains(id),
{
    let mut i: usize = 0;
    while i < list.len()
        invariant
            i <= list.len(),
            forall|j: int| 0 <= j < i ==> list@[j] != id,
        decreases list.len() - i,
    {
        if list[i] == id {
            assert(list@.contains(list@[i as int]));
            return true;
        }
        i = i + 1;
    }
    false
}

/// A capture that has come to an end stays as it is, whatever is heard of its
/// stream or its session.
pub proof fn law_ended_captures_stay_ended(status: ScreenCastStatusView, node_id: u32)
    requires
        !(status.state is Active) && !(status.state is Requesting),
    ensures
        status.after_disappearance(node_id) == status,
{
}

/// A capture never shows a stream that it has lost.
pub proof fn law_lost_streams_are_forgotten(status: ScreenCastStatusView, node_id: u32)
    requires
        status.state is Active,
        status.pipewire_node_id == Some(node_id),
    ensures
        status.after_disappearance(node_id).pipewire_node_id is None,
        status.after_disappearance(node_id).object_serial is None,
        status.after_disappearance(node_id).state is SourceGone,
        status.after_disappearance(node_id).source == status.source,
{
}

/// A capture shows a serial only with a node number, and a node number only
/// while it is active, whatever is heard of it.
pub proof fn law_streams_belong_to_active_captures(
    status: ScreenCastStatusView,
    source: ScreenCastSource,
    answer: Result<PortalSessionOpened, PortalError>,
    node_id: u32,
    serial: Option<u64>,
    state: ScreenCastStateView,
)
    requires
        status.consistent(),
    ensures
        ScreenCastStatusView::idle().consistent(),
        ScreenCastStatusView::requesting(source).consistent(),
        ScreenCastStatusView::requesting(source).answered(answer).consistent(),
        status.with_serial(node_id, serial).consistent(),
        status.after_disappearance(node_id).consistent(),
        status.ended(state).consistent(),
{
}

/// A capture that is asked for is waiting for its source and has no stream.
/// Once answered it is active with the first stream of the answer, given up
/// where the user gave up, and failed with the reason else.
pub proof fn law_answers_of_the_portal(
    source: ScreenCastSource,
    answer: Result<PortalSessionOpened, PortalError>,
)
    ensures
        ({
            let asked = ScreenCastStatusView::requesting(source);
            let s = asked.answered(answer);
            &&& asked.state is Requesting && asked.source == Some(source)
            &&& asked.pipewire_node_id is None && asked.object_serial is None && asked.error is None
            &&& s.source == Some(source)
            &&& answer matches Ok(opened) ==> {
                &&& s.state is Active
                &&& s.error is None
                &&& opened.streams@.len() > 0 ==> s.pipewire_node_id == Some(
                    opened.streams@[0].pipewire_node_id,
                )
            }
            &&& answer == Err::<PortalSessionOpened, PortalError>(PortalError::CancelledByUser)
                ==> s.state is CancelledByUser && s.error is None && s.pipewire_node_id is None
            &&& answer matches Err(error) ==> (!(error is CancelledByUser) ==> s.state is Failed
                && s.error == Some(portal_text(error)) && s.pipewire_node_id is None)
        }),
{
}

/// A serial is noted for the stream that is captured and for no other; a node
/// that is gone ends the capture of that node and no other.
pub proof fn law_only_the_captured_node_counts(
    status: ScreenCastStatusView,
    node_id: u32,
    serial: Option<u64>,
)
    ensures
        status.pipewire_node_id == Some(node_id) ==> status.with_serial(
            node_id,
            serial,
        ).object_serial == serial,
        status.pipewire_node_id != Some(node_id) ==> status.with_serial(node_id, serial) == status,
        status.with_serial(node_id, serial).state == status.state,
        status.pipewire_node_id != Some(node_id) ==> status.after_disappearance(node_id) == status,
        status.ended(ScreenCastStateView::Idle).pipewire_node_id is None,
        status.ended(ScreenCastStateView::Idle).state is Idle,
        status.ended(ScreenCastStateView::Idle).source == status.source,
{
}

/// A session that was opened gives the token to restore it by, or none; a
/// refusal keeps the token that was there.
pub proof fn law_restore_tokens(
    before: Option<Seq<char>>,
    opened: PortalSessionOpened,
    error: PortalError,
)
    ensures
        token_after(before, Ok(opened)) == opt_text(opened.restore_token),
        token_after(before, Err(error)) == before,
{
}

/// Virtual displays are offered exactly where the portal lists them; it is not
/// known where the portal did not say.
pub proof fn law_virtual_sources(list: Vec<ScreenCastSource>, error: PortalError)
    ensures
        offers_virtual(Ok(list)) == Some(list@.contains(ScreenCastSource::Virtual)),
        offers_virtual(Err(error)) is None,
{
}

} // verus!
