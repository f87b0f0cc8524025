//! One session with the desktop's capture portal, from the first call until it
//! is closed. The calls are made elsewhere; here is which comes next, what is
//! answered when one fails, and when the session has to be closed.
use crate::screencast::{
    PortalError, PortalSessionOpened, ScreenCastRequest, ScreenCastSource,
};
use crate::text::{concat2, has_sub, text_contains};
use vstd::prelude::*;

verus! {

/// How far a session has come.
#[derive(Clone, Copy, Debug, PartialEq, Eq, Structural)]
pub enum SessionStage {
    Connecting,
    Creating,
    Selecting,
    Starting,
    OpeningRemote,
    Watching,
    Answering,
    Parked,
    Ended,
}

/// What a call came to.
#[derive(Debug, PartialEq, Eq)]
pub enum SessionEvent {
    /// The call was answered.
    Done,
    /// The user has chosen; these streams were started.
    Started(PortalSessionOpened),
    /// The call failed.
    Failed(PortalError),
    /// Nobody is left to hear the answer.
    Unheard,
    /// The owner wants the session closed.
    CloseWanted,
    /// The portal has closed the session.
    Closed,
    /// Nothing happened for a while.
    Tick,
}

/// What is captured, and how the cursor is shown.
#[derive(Clone, Copy, Debug, PartialEq, Eq, Structural)]
pub struct SourceSelection {
    pub source: ScreenCastSource,
    pub embed_cursor: bool,
    pub multiple: bool,
}

/// What a session asks for.
#[derive(Debug, PartialEq, Eq)]
pub enum SessionAction {
    Connect,
    CreateSession,
    SelectSources(SourceSelection),
    StartCapture,
    OpenRemote,
    WatchForClose,
    /// Hand these streams to the owner.
    Answer(PortalSessionOpened),
    /// Hand a failure to the owner, after closing the session where there is
    /// one.
    Refuse { error: PortalError, close_session: bool },
    /// Look for a command, then wait for the portal for a while.
    Wait,
    /// Close the session and end.
    CloseSession,
    /// Tell the owner that the portal closed the session, and end.
    MarkClosed,
}

/// A session on its way.
#[derive(Debug, PartialEq, Eq)]
pub struct PortalSession {
    pub request: ScreenCastRequest,
    pub stage: SessionStage,
    pub opened: Option<PortalSessionOpened>,
}

/// The portal holds a session at this stage.
pub open spec fn holds_session(stage: SessionStage) -> bool {
    match stage {
        SessionStage::Connecting => false,
        SessionStage::Creating => false,
        SessionStage::Ended => false,
        _ => true,
    }
}

/// The event can come at this stage.
pub open spec fn fits(stage: SessionStage, event: SessionEvent) -> bool {
    match stage {
        SessionStage::Connecting | SessionStage::Creating | SessionStage::Selecting
        | SessionStage::OpeningRemote | SessionStage::Watching => event is Done
            || event is Failed,
        SessionStage::Starting => event is Started || event is Failed,
        SessionStage::Answering => event is Done || event is Unheard,
        SessionStage::Parked => event is CloseWanted || event is Closed || event is Tick,
        SessionStage::Ended => false,
    }
}

/// The selection that a request makes.
pub open spec fn selection_of(request: ScreenCastRequest) -> SourceSelection {
    SourceSelection {
        source: request.source,
        embed_cursor: request.show_cursor,
        multiple: request.multiple,
    }
}

impl PortalSession {
    /// From the time that streams were started until they are handed over,
    /// they are kept.
    pub open spec fn wf(&self) -> bool {
        self.opened is Some == (self.stage == SessionStage::OpeningRemote || self.stage
            == SessionStage::Watching)
    }

    pub fn begin(request: ScreenCastRequest) -> (r: (PortalSession, SessionAction))
        ensures
            r.0.wf(),
            r.0.request == request,
            r.0.stage == SessionStage::Connecting,
            r.1 is Connect,
    {
        (
            PortalSession { request, stage: SessionStage::Connecting, opened: None },
            SessionAction::Connect,
        )
    }

    /// The stage after an event.
    pub open spec fn stage_after(self, event: SessionEvent) -> SessionStage {
        match (self.stage, event) {
            (_, SessionEvent::Failed(_)) => SessionStage::Ended,
            (SessionStage::Connecting, _) => SessionStage::Creating,
            (SessionStage::Creating, _) => SessionStage::Selecting,
            (SessionStage::Selecting, _) => SessionStage::Starting,
            (SessionStage::Starting, _) => SessionStage::OpeningRemote,
            (SessionStage::OpeningRemote, _) => SessionStage::Watching,
            (SessionStage::Watching, _) => if self.opened->0.streams@.len() == 0 {
                SessionStage::Ended
            } else {
                SessionStage::Answering
            },
            (SessionStage::Answering, SessionEvent::Done) => SessionStage::Parked,
            (SessionStage::Parked, SessionEvent::Tick) => SessionStage::Parked,
            _ => SessionStage::Ended,
        }
    }

    /// What an event leads to.
    pub open spec fn action_after(self, event: SessionEvent, action: SessionAction) -> bool {
        match (self.stage, event) {
            (_, SessionEvent::Failed(error)) => action == (SessionAction::Refuse {
                error,
                close_session: holds_session(self.stage),
            }),
            (SessionStage::Connecting, _) => action is CreateSession,
            (SessionStage::Creating, _) => action == SessionAction::SelectSources(
                selection_of(self.request),
            ),
            (SessionStage::Selecting, _) => action is StartCapture,
            (SessionStage::Starting, _) => action is OpenRemote,
            (SessionStage::OpeningRemote, _) => action is WatchForClose,
            (SessionStage::Watching, _) => if self.opened->0.streams@.len() == 0 {
                &&& action matches SessionAction::Refuse { error, close_session }
                &&& close_session
                &&& error matches PortalError::Failed(text)
                &&& text@ == "portal returned no streams"@
            } else {
                action == SessionAction::Answer(self.opened->0)
            },
            (SessionStage::Answering, SessionEvent::Done) => action is Wait,
            (SessionStage::Parked, SessionEvent::Tick) => action is Wait,
            (SessionStage::Parked, SessionEvent::Closed) => action is MarkClosed,
            _ => action is CloseSession,
        }
    }

    /// Takes on what a call came to, and says what comes next.
    pub fn step(&mut self, event: SessionEvent) -> (r: SessionAction)
        requires
            old(self).wf(),
            fits(old(self).stage, event),
        ensures
            final(self).wf(),
            final(self).request == old(self).request,
            final(self).stage == old(self).stage_after(event),
            old(self).action_after(event, r),
            final(self).opened == (match final(self).stage {
                SessionStage::OpeningRemote => match event {
                    SessionEvent::Started(opened) => Some(opened),
                    _ => None,
                },
                SessionStage::Watching => old(self).opened,
                _ => None,
            }),
    {
        match event {
            SessionEvent::Failed(error) => {
                let close_session = match self.stage {
                    SessionStage::Connecting => false,
                    SessionStage::Creating => false,
                    _ => true,
                };
                self.stage = SessionStage::Ended;
                self.opened = None;
                SessionAction::Refuse { error, close_session }
            },
            SessionEvent::Started(opened) => {
                self.stage = SessionStage::OpeningRemote;
                self.opened = Some(opened);
                SessionAction::OpenRemote
            },
            SessionEvent::Done => match self.stage {
                SessionStage::Connecting => {
                    self.stage = SessionStage::Creating;
                    SessionAction::CreateSession
                },
                SessionStage::Creating => {
                    self.stage = SessionStage::Selecting;
                    SessionAction::SelectSources(
                        SourceSelection {
                            source: self.request.source,
                            embed_cursor: self.request.show_cursor,
                            multiple: self.request.multiple,
                        },
                    )
                },
                SessionStage::Selecting => {
                    self.stage = SessionStage::Starting;
                    SessionAction::StartCapture
                },
                SessionStage::OpeningRemote => {
                    self.stage = SessionStage::Watching;
                    SessionAction::WatchForClose
                },
                SessionStage::Watching => match self.opened.take() {
                    Some(opened) if opened.streams.len() > 0 => {
                        self.stage = SessionStage::Answering;
                        SessionAction::Answer(opened)
                    },
                    _ => {
                        self.stage = SessionStage::Ended;
                        SessionAction::Refuse {
                            error: PortalError::Failed("portal returned no streams".to_owned()),
                            close_session: true,
                        }
                    },
                },
                _ => {
                    self.stage = SessionStage::Parked;
                    SessionAction::Wait
                },
            },
            SessionEvent::Tick => SessionAction::Wait,
            SessionEvent::Closed => {
                self.stage = SessionStage::Ended;
                SessionAction::MarkClosed
            },
            SessionEvent::Unheard | SessionEvent::CloseWanted => {
                self.stage = SessionStage::Ended;
                SessionAction::CloseSession
            },
        }
    }
}

/// A session that the portal holds is never left open: what ends it closes
/// it, unless the portal has closed it already.
pub proof fn law_sessions_are_closed(
    session: PortalSession,
    event: SessionEvent,
    action: SessionAction,
)
    requires
        session.wf(),
        fits(session.stage, event),
        holds_session(session.stage),
        session.stage_after(event) == SessionStage::Ended,
        session.action_after(event, action),
    ensures
        match action {
            SessionAction::CloseSession => true,
            SessionAction::Refuse { close_session, .. } => close_session,
            SessionAction::MarkClosed => event is Closed,
            _ => false,
        },
{
}

/// What the owner is given has at least one stream.
pub proof fn law_answers_hold_a_stream(
    session: PortalSession,
    event: SessionEvent,
    opened: PortalSessionOpened,
)
    requires
        session.wf(),
        fits(session.stage, event),
        session.action_after(event, SessionAction::Answer(opened)),
    ensures
        opened.streams@.len() > 0,
{
}

/// The ways in which a portal call fails.
#[derive(Clone, Copy, Debug, PartialEq, Eq, Structural)]
pub enum FailureKind {
    /// The user dismissed the dialog.
    Cancelled,
    /// There is no such portal.
    NotFound,
    Other,
}

/// A failure is what it is called by; a message that speaks of virtual
/// displays says that the desktop has none.
pub open spec fn portal_error_is(kind: FailureKind, message: Seq<char>, error: PortalError) -> bool {
    match kind {
        FailureKind::Cancelled => error is CancelledByUser,
        FailureKind::NotFound => error matches PortalError::Unavailable(text) && text@
            == "no ScreenCast portal: "@ + message,
        FailureKind::Other => if has_sub(message, "virtual"@) || has_sub(message, "Virtual"@) {
            error matches PortalError::Unsupported(text) && text@ == message
        } else {
            error matches PortalError::Failed(text) && text@ == message
        },
    }
}

pub fn portal_error(kind: FailureKind, message: String) -> (r: PortalError)
    ensures
        portal_error_is(kind, message@, r),
{
    match kind {
        FailureKind::Cancelled => PortalError::CancelledByUser,
        FailureKind::NotFound => PortalError::Unavailable(
            concat2("no ScreenCast portal: ", message.as_str()),
        ),
        FailureKind::Other => {
            if text_contains(message.as_str(), "virtual") || text_contains(
                message.as_str(),
                "Virtual",
            ) {
                PortalError::Unsupported(message)
            } else {
                PortalError::Failed(message)
            }
        },
    }
}

/// The error of the portal bindings.
#[verifier::external_type_specification]
#[verifier::external_body]
pub struct ExPortalCallError(ashpd::Error);

/// Which kind of failure an `ashpd::Error` is.
pub uninterp spec fn error_kind(error: ashpd::Error) -> FailureKind;

/// Which of its variants an `ashpd::Error` is: the cancelled response, the
/// missing portal, or any other. It is claimed that this depends on the error
/// alone.
#[verifier::external_body]
fn failure_kind(error: &ashpd::Error) -> (r: FailureKind)
    ensures
        r == error_kind(*error),
{
    match error {
        ashpd::Error::Response(ashpd::desktop::ResponseError::Cancelled) => FailureKind::Cancelled,
        ashpd::Error::PortalNotFound(_) => FailureKind::NotFound,
        _ => FailureKind::Other,
    }
}

/// The text that `ashpd::Error` displays. Nothing is claimed of it: an error
/// of the operating system is worded by the machine.
#[verifier::external_body]
fn failure_text(error: &ashpd::Error) -> (r: String) {
    format!("{error}")
}

/// Names a failed portal call, by the kind of failure and by its text.
pub fn map_ashpd_error(error: &ashpd::Error) -> (r: PortalError)
    ensures
        exists|message: Seq<char>| #[trigger]
            portal_error_is(error_kind(*error), message, r),
{
    let kind = failure_kind(error);
    let message = failure_text(error);
    portal_error(kind, message)
}

/// A session runs through its steps in order: it is created, its sources are
/// selected, it is started, its stream is opened and watched, and only then is
/// it answered and kept until it is to be closed.
pub proof fn law_steps_of_a_session(session: PortalSession, action: SessionAction)
    requires
        session.wf(),
        session.action_after(SessionEvent::Done, action),
    ensures
        session.stage == SessionStage::Connecting ==> action is CreateSession
            && session.stage_after(SessionEvent::Done) == SessionStage::Creating,
        session.stage == SessionStage::Creating ==> action is SelectSources
            && session.stage_after(SessionEvent::Done) == SessionStage::Selecting,
        session.stage == SessionStage::Selecting ==> action is StartCapture
            && session.stage_after(SessionEvent::Done) == SessionStage::Starting,
        session.stage == SessionStage::OpeningRemote ==> action is WatchForClose
            && session.stage_after(SessionEvent::Done) == SessionStage::Watching,
        session.stage == SessionStage::Answering ==> action is Wait && session.stage_after(
            SessionEvent::Done,
        ) == SessionStage::Parked,
        session.stage == SessionStage::Creating ==> {
            let chosen = action->SelectSources_0;
            &&& chosen.source == session.request.source
            &&& chosen.embed_cursor == session.request.show_cursor
            &&& chosen.multiple == session.request.multiple
        },
{
}

/// A session fails with the error that was met, at any step, and is then over.
/// One that is kept is closed when that is wanted, and when nobody heard the
/// answer.
pub proof fn law_ends_of_a_session(
    session: PortalSession,
    error: PortalError,
    event: SessionEvent,
    action: SessionAction,
)
    requires
        session.action_after(event, action),
    ensures
        event == SessionEvent::Failed(error) ==> session.stage_after(event) == SessionStage::Ended
            && (action matches SessionAction::Refuse { error: said, close_session } && said
            == error),
        session.stage == SessionStage::Parked && event is CloseWanted ==> action is CloseSession
            && session.stage_after(event) == SessionStage::Ended,
        session.stage == SessionStage::Parked && event is Closed ==> action is MarkClosed
            && session.stage_after(event) == SessionStage::Ended,
        session.stage == SessionStage::Parked && event is Tick ==> action is Wait
            && session.stage_after(event) == SessionStage::Parked,
        session.stage == SessionStage::Answering && event is Unheard ==> action is CloseSession
            && session.stage_after(event) == SessionStage::Ended,
{
}

} // verus!
