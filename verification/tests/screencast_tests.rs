use qpwgraph::portal_session::{
    map_ashpd_error, portal_error, FailureKind, PortalSession, SessionAction, SessionEvent,
    SessionStage, SourceSelection,
};
use qpwgraph::screencast::{
    virtual_offered, PortalConnector, PortalError, PortalSessionOpened, PortalStream,
    ScreenCastManager, ScreenCastRequest, ScreenCastSource, ScreenCastState, ScreenCastStatus,
    StubPortalConnector,
};
use qpwgraph::video_session::{
    virtual_display_refusal, virtual_display_request, virtual_display_status, VirtualDisplayStatus,
};

/// A connector that answers by a script.
#[derive(Clone)]
enum ScriptedOutcome {
    Open(u32),
    Fail(PortalError),
}

struct ScriptedConnector {
    script: Vec<ScriptedOutcome>,
    source_types: Result<Vec<ScreenCastSource>, PortalError>,
    open: bool,
    closes: usize,
}

impl ScriptedConnector {
    fn succeed(node_id: u32) -> Self {
        Self {
            script: vec![ScriptedOutcome::Open(node_id)],
            source_types: Ok(vec![ScreenCastSource::Monitor, ScreenCastSource::Window]),
            open: false,
            closes: 0,
        }
    }
}

impl PortalConnector for ScriptedConnector {
    fn open_capture(
        &mut self,
        _request: &ScreenCastRequest,
    ) -> Result<PortalSessionOpened, PortalError> {
        self.open = true;
        let outcome = if self.script.len() > 1 {
            self.script.remove(0)
        } else {
            self.script
                .first()
                .cloned()
                .unwrap_or(ScriptedOutcome::Fail(PortalError::Failed("script exhausted".into())))
        };
        match outcome {
            ScriptedOutcome::Open(node_id) => Ok(PortalSessionOpened {
                streams: vec![PortalStream {
                    pipewire_node_id: node_id,
                    stream_id: Some("test-stream".into()),
                    size: Some((1920, 1080)),
                }],
                restore_token: Some("token".into()),
            }),
            ScriptedOutcome::Fail(error) => Err(error),
        }
    }

    fn close(&mut self) {
        self.open = false;
        self.closes += 1;
    }

    fn is_open(&self) -> bool {
        self.open
    }

    fn available_source_types(&mut self) -> Result<Vec<ScreenCastSource>, PortalError> {
        self.source_types.clone()
    }
}

#[test]
fn successful_capture_tracks_stream_identity() {
    let mut manager = ScreenCastManager::new(ScriptedConnector::succeed(42));
    let status = manager.start(&ScreenCastRequest::default());
    assert_eq!(status.state, ScreenCastState::Active);
    assert_eq!(status.pipewire_node_id, Some(42));
    assert_eq!(manager.restore_token(), Some("token"));
    manager.note_stream_serial(42, Some(777));
    assert_eq!(manager.status().object_serial, Some(777));
    // Serial for a different node is ignored.
    manager.note_stream_serial(43, Some(1));
    assert_eq!(manager.status().object_serial, Some(777));
}

#[test]
fn user_cancellation_is_a_clean_terminal_state() {
    let mut connector = ScriptedConnector::succeed(42);
    connector.script = vec![ScriptedOutcome::Fail(PortalError::CancelledByUser)];
    let mut manager = ScreenCastManager::new(connector);
    let status = manager.start(&ScreenCastRequest::default());
    assert_eq!(status.state, ScreenCastState::CancelledByUser);
    assert!(status.state.is_terminal());
    assert!(status.error.is_none());
}

#[test]
fn session_close_and_source_loss_transition_cleanly() {
    let mut manager = ScreenCastManager::new(ScriptedConnector::succeed(42));
    manager.start(&ScreenCastRequest::default());
    manager.note_stream_disappeared(99);
    assert_eq!(manager.status().state, ScreenCastState::Active);
    manager.note_stream_disappeared(42);
    assert_eq!(manager.status().state, ScreenCastState::SourceGone);

    manager.start(&ScreenCastRequest::default());
    manager.note_session_closed();
    assert_eq!(manager.status().state, ScreenCastState::SessionClosed);
    // Terminal states ignore further disappearance noise.
    manager.note_stream_disappeared(42);
    assert_eq!(manager.status().state, ScreenCastState::SessionClosed);
}

#[test]
fn reconcile_detects_vanished_streams() {
    let mut manager = ScreenCastManager::new(ScriptedConnector::succeed(42));
    manager.start(&ScreenCastRequest::default());
    manager.reconcile_visible_streams(&[42, 7]);
    assert_eq!(manager.status().state, ScreenCastState::Active);
    manager.reconcile_visible_streams(&[7]);
    assert_eq!(manager.status().state, ScreenCastState::SourceGone);
}

#[test]
fn virtual_support_is_probed_not_assumed() {
    let mut manager = ScreenCastManager::new(ScriptedConnector::succeed(42));
    assert_eq!(manager.probe_virtual_support(), Some(false));
    manager.stop();
    assert_eq!(manager.status().state, ScreenCastState::Idle);
}

#[test]
fn stub_connector_reports_unavailable() {
    let mut manager = ScreenCastManager::with_stub();
    let status = manager.start(&ScreenCastRequest::default());
    assert!(matches!(status.state, ScreenCastState::Failed(_)));
    assert_eq!(manager.probe_virtual_support(), None);
}

#[test]
fn a_failed_start_keeps_its_reason() {
    let mut connector = ScriptedConnector::succeed(42);
    connector.script = vec![ScriptedOutcome::Fail(PortalError::Failed("no bus".into()))];
    let mut manager = ScreenCastManager::new(connector);
    let status = manager.start(&ScreenCastRequest::default());
    let text = PortalError::Failed("no bus".into()).to_text();
    assert_eq!(status.state, ScreenCastState::Failed(text.clone()));
    assert_eq!(status.error, Some(text));
    assert_eq!(status.pipewire_node_id, None);
}

#[test]
fn stopping_closes_and_forgets() {
    let mut manager = ScreenCastManager::new(ScriptedConnector::succeed(42));
    manager.start(&ScreenCastRequest::default());
    manager.stop();
    assert!(!manager.connector.is_open());
    assert!(manager.connector.closes >= 1);
    assert_eq!(manager.status(), ScreenCastStatus::default());
}

#[test]
fn a_session_that_closed_elsewhere_is_noticed() {
    let mut manager = ScreenCastManager::new(ScriptedConnector::succeed(42));
    manager.start(&ScreenCastRequest::default());
    manager.external_close_polled(false);
    assert_eq!(manager.status().state, ScreenCastState::Active);
    manager.external_close_polled(true);
    assert_eq!(manager.status().state, ScreenCastState::SessionClosed);
    assert_eq!(manager.status().pipewire_node_id, None);
}

#[test]
fn ended_captures_stay_ended() {
    let mut manager = ScreenCastManager::new(ScriptedConnector::succeed(42));
    manager.start(&ScreenCastRequest::default());
    manager.note_session_closed();
    let ended = manager.status();
    manager.note_stream_disappeared(42);
    manager.reconcile_visible_streams(&[]);
    manager.note_stream_serial(42, Some(5));
    assert_eq!(manager.status().state, ended.state);
}

#[test]
fn virtual_displays_are_offered_only_where_the_portal_says_so() {
    assert_eq!(virtual_offered(&Ok(vec![ScreenCastSource::Virtual])), Some(true));
    assert_eq!(virtual_offered(&Ok(vec![ScreenCastSource::Monitor])), Some(false));
    assert_eq!(virtual_offered(&Err(PortalError::CancelledByUser)), None);
    assert_eq!(virtual_display_request().source, ScreenCastSource::Virtual);
    assert!(virtual_display_refusal(Some(true)).is_none());
    assert!(virtual_display_refusal(Some(false)).is_some());
    let active = ScreenCastStatus {
        state: ScreenCastState::Active,
        source: Some(ScreenCastSource::Virtual),
        pipewire_node_id: Some(3),
        object_serial: None,
        error: None,
    };
    assert_eq!(
        virtual_display_status(Some(true), &active),
        VirtualDisplayStatus { supported: Some(true), active: true, error: None }
    );
}

#[test]
fn outside_errors_are_told_apart() {
    let cancelled = ashpd::Error::Response(ashpd::desktop::ResponseError::Cancelled);
    assert_eq!(map_ashpd_error(&cancelled), PortalError::CancelledByUser);
    let other = ashpd::Error::Response(ashpd::desktop::ResponseError::Other);
    assert_eq!(
        map_ashpd_error(&other),
        PortalError::Failed(format!("{other}"))
    );
    let silent = ashpd::Error::NoResponse;
    assert_eq!(
        map_ashpd_error(&silent),
        PortalError::Failed(format!("{silent}"))
    );
    assert_eq!(
        portal_error(FailureKind::NotFound, "no portal".to_string()),
        PortalError::Unavailable("no ScreenCast portal: no portal".to_string())
    );
    assert_eq!(
        portal_error(FailureKind::Other, "Virtual source type missing".to_string()),
        PortalError::Unsupported("Virtual source type missing".to_string())
    );
    assert_eq!(
        portal_error(FailureKind::Other, "bus gone".to_string()),
        PortalError::Failed("bus gone".to_string())
    );
    assert_eq!(
        portal_error(FailureKind::Cancelled, "x".to_string()),
        PortalError::CancelledByUser
    );
}

#[test]
fn portal_errors_have_texts() {
    assert_eq!(PortalError::CancelledByUser.to_text(), "capture cancelled");
    assert_eq!(PortalError::Unsupported("a".into()).to_text(), "a");
    assert_eq!(PortalError::Unavailable("b".into()).to_text(), "b");
    assert_eq!(PortalError::Failed("c".into()).to_text(), "c");
}

fn opened(node: u32) -> PortalSessionOpened {
    PortalSessionOpened {
        streams: vec![PortalStream { pipewire_node_id: node, stream_id: None, size: None }],
        restore_token: None,
    }
}

#[test]
fn a_session_goes_through_its_stages() {
    let request = ScreenCastRequest {
        source: ScreenCastSource::Window,
        show_cursor: false,
        multiple: true,
    };
    let (mut session, action) = PortalSession::begin(request);
    assert_eq!(action, SessionAction::Connect);
    assert_eq!(session.step(SessionEvent::Done), SessionAction::CreateSession);
    assert_eq!(
        session.step(SessionEvent::Done),
        SessionAction::SelectSources(SourceSelection {
            source: ScreenCastSource::Window,
            embed_cursor: false,
            multiple: true,
        })
    );
    assert_eq!(session.step(SessionEvent::Done), SessionAction::StartCapture);
    assert_eq!(session.step(SessionEvent::Started(opened(5))), SessionAction::OpenRemote);
    assert_eq!(session.step(SessionEvent::Done), SessionAction::WatchForClose);
    assert_eq!(session.step(SessionEvent::Done), SessionAction::Answer(opened(5)));
    assert_eq!(session.step(SessionEvent::Done), SessionAction::Wait);
    assert_eq!(session.stage, SessionStage::Parked);
    assert_eq!(session.step(SessionEvent::Tick), SessionAction::Wait);
    assert_eq!(session.step(SessionEvent::CloseWanted), SessionAction::CloseSession);
    assert_eq!(session.stage, SessionStage::Ended);
}

#[test]
fn a_session_without_a_stream_is_refused_and_closed() {
    let (mut session, _) = PortalSession::begin(ScreenCastRequest::default());
    session.step(SessionEvent::Done);
    session.step(SessionEvent::Done);
    session.step(SessionEvent::Done);
    let nothing = PortalSessionOpened { streams: Vec::new(), restore_token: None };
    assert_eq!(session.step(SessionEvent::Started(nothing)), SessionAction::OpenRemote);
    assert_eq!(session.step(SessionEvent::Done), SessionAction::WatchForClose);
    assert_eq!(
        session.step(SessionEvent::Done),
        SessionAction::Refuse {
            error: PortalError::Failed("portal returned no streams".to_string()),
            close_session: true,
        }
    );
    assert_eq!(session.stage, SessionStage::Ended);
}

#[test]
fn a_failed_connection_leaves_nothing_to_close() {
    let (mut session, _) = PortalSession::begin(ScreenCastRequest::default());
    assert_eq!(
        session.step(SessionEvent::Failed(PortalError::CancelledByUser)),
        SessionAction::Refuse {
            error: PortalError::CancelledByUser,
            close_session: false,
        }
    );
}

#[test]
fn the_stub_is_never_open() {
    let stub = StubPortalConnector::new();
    assert!(!stub.is_open());
}

#[test]
fn a_new_capture_closes_the_old_one_first() {
    let mut manager = ScreenCastManager::new(ScriptedConnector::succeed(42));
    manager.start(&ScreenCastRequest::default());
    assert_eq!(manager.connector.closes, 0);
    manager.start(&ScreenCastRequest::default());
    assert_eq!(manager.connector.closes, 1);
    // A session that is open although the capture has ended is closed as well.
    manager.note_stream_disappeared(42);
    manager.start(&ScreenCastRequest::default());
    assert_eq!(manager.connector.closes, 2);
    // Without one nothing is closed.
    manager.stop();
    assert_eq!(manager.connector.closes, 3);
    manager.start(&ScreenCastRequest::default());
    assert_eq!(manager.connector.closes, 3);
}

#[test]
fn streams_belong_to_active_captures() {
    let mut manager = ScreenCastManager::new(ScriptedConnector::succeed(42));
    manager.note_stream_serial(42, Some(7));
    assert_eq!(manager.status().object_serial, None);
    manager.start(&ScreenCastRequest::default());
    manager.note_stream_serial(42, Some(7));
    assert_eq!(manager.status().pipewire_node_id, Some(42));
    assert_eq!(manager.status().object_serial, Some(7));
    manager.note_session_closed();
    assert_eq!(manager.status().pipewire_node_id, None);
    assert_eq!(manager.status().object_serial, None);
}

/// A connector that leaves to the defaults what it can.
struct PlainConnector;

impl PortalConnector for PlainConnector {
    fn open_capture(
        &mut self,
        _request: &ScreenCastRequest,
    ) -> Result<PortalSessionOpened, PortalError> {
        Err(PortalError::CancelledByUser)
    }

    fn close(&mut self) {}

    fn available_source_types(&mut self) -> Result<Vec<ScreenCastSource>, PortalError> {
        Ok(Vec::new())
    }
}

#[test]
fn by_default_no_session_is_open() {
    let mut connector = PlainConnector;
    assert!(!connector.is_open());
    assert!(!connector.poll_external_close());
}
