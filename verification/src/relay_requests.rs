//! What is asked of the relay's engine, and what is answered where there is no
//! engine or where it refuses.
use crate::model::{BackendError, BackendErrorView};
use crate::text::concat2;
use vstd::prelude::*;

verus! {

/// The name under which this computer shows where none was given.
pub const DEFAULT_DEVICE_NAME: &'static str = "qpwgraph-rs";

/// What can be asked of the engine.
#[derive(Clone, Copy, Debug, PartialEq, Eq, Structural)]
pub enum RelayRequest {
    StartHost,
    StopHost,
    Discover,
    OfferDirection,
    OfferFlow,
    OfferMode,
    Disconnect,
    AcceptEnrollment,
    RejectEnrollment,
    RemovePeer,
}

/// What a request takes where there is no engine yet.
#[derive(Debug, PartialEq, Eq)]
pub enum EngineStep {
    /// Start the engine, with its two nodes, and ask then.
    Start,
    /// Nothing runs that the request is about: it is done.
    Done,
    Refuse(BackendError),
}

/// Why a request is refused without an engine.
pub open spec fn engine_refusal(request: RelayRequest) -> Option<Seq<char>> {
    match request {
        RelayRequest::StartHost | RelayRequest::StopHost | RelayRequest::Discover => None,
        RelayRequest::OfferDirection | RelayRequest::OfferFlow | RelayRequest::OfferMode => Some(
            "no relay session exists"@,
        ),
        RelayRequest::Disconnect => Some("no relay session exists to disconnect"@),
        RelayRequest::AcceptEnrollment | RelayRequest::RejectEnrollment => Some(
            "no relay host is running"@,
        ),
        RelayRequest::RemovePeer => Some("no relay engine is running"@),
    }
}

/// Decides on a request where there is no engine yet.
pub fn without_engine(request: RelayRequest) -> (r: EngineStep)
    ensures
        match engine_refusal(request) {
            Some(text) => r matches EngineStep::Refuse(e) && e@ == BackendErrorView::Native(text),
            None => if request == RelayRequest::StopHost {
                r is Done
            } else {
                r is Start
            },
        },
{
    match request {
        RelayRequest::StartHost | RelayRequest::Discover => EngineStep::Start,
        RelayRequest::StopHost => EngineStep::Done,
        RelayRequest::OfferDirection | RelayRequest::OfferFlow | RelayRequest::OfferMode =>
            EngineStep::Refuse(BackendError::native("no relay session exists")),
        RelayRequest::Disconnect => EngineStep::Refuse(
            BackendError::native("no relay session exists to disconnect"),
        ),
        RelayRequest::AcceptEnrollment | RelayRequest::RejectEnrollment => EngineStep::Refuse(
            BackendError::native("no relay host is running"),
        ),
        RelayRequest::RemovePeer => EngineStep::Refuse(
            BackendError::native("no relay engine is running"),
        ),
    }
}

/// What is said before the engine's own words.
pub open spec fn failure_prefix(request: RelayRequest) -> Seq<char> {
    match request {
        RelayRequest::StartHost => "relay host start failed: "@,
        RelayRequest::StopHost => "relay host stop failed: "@,
        RelayRequest::Discover => "relay discovery failed: "@,
        RelayRequest::OfferDirection => "relay direction offer failed: "@,
        RelayRequest::OfferFlow => "relay flow offer failed: "@,
        RelayRequest::OfferMode => "relay mode offer failed: "@,
        RelayRequest::Disconnect => "relay disconnect failed: "@,
        RelayRequest::AcceptEnrollment => "trusted enrollment commit failed: "@,
        RelayRequest::RejectEnrollment => "trusted enrollment rejection failed: "@,
        RelayRequest::RemovePeer => "trusted peer removal failed: "@,
    }
}

/// Settles a request with what the engine answered.
pub fn engine_answered<T>(request: RelayRequest, answer: Result<T, String>) -> (r: Result<
    T,
    BackendError,
>)
    ensures
        match answer {
            Ok(value) => r == Ok::<T, BackendError>(value),
            Err(text) => r matches Err(e) && e@ == BackendErrorView::Native(
                failure_prefix(request) + text@,
            ),
        },
{
    match answer {
        Ok(value) => Ok(value),
        Err(text) => {
            let prefix = match request {
                RelayRequest::StartHost => "relay host start failed: ",
                RelayRequest::StopHost => "relay host stop failed: ",
                RelayRequest::Discover => "relay discovery failed: ",
                RelayRequest::OfferDirection => "relay direction offer failed: ",
                RelayRequest::OfferFlow => "relay flow offer failed: ",
                RelayRequest::OfferMode => "relay mode offer failed: ",
                RelayRequest::Disconnect => "relay disconnect failed: ",
                RelayRequest::AcceptEnrollment => "trusted enrollment commit failed: ",
                RelayRequest::RejectEnrollment => "trusted enrollment rejection failed: ",
                RelayRequest::RemovePeer => "trusted peer removal failed: ",
            };
            Err(BackendError::Native(concat2(prefix, text.as_str())))
        },
    }
}

/// The name with which the engine is started: that of the running one, if
/// there is one.
pub fn device_name(running: Option<String>) -> (r: String)
    ensures
        r@ == (match running {
            Some(name) => name@,
            None => DEFAULT_DEVICE_NAME@,
        }),
{
    match running {
        Some(name) => name,
        None => DEFAULT_DEVICE_NAME.to_owned(),
    }
}

/// Settles the start of the engine.
pub fn engine_started<T>(started: Result<T, String>) -> (r: Result<T, BackendError>)
    ensures
        match started {
            Ok(engine) => r == Ok::<T, BackendError>(engine),
            Err(text) => r matches Err(e) && e@ == BackendErrorView::Native(
                "relay engine start: "@ + text@,
            ),
        },
{
    match started {
        Ok(engine) => Ok(engine),
        Err(text) => Err(BackendError::Native(concat2("relay engine start: ", text.as_str()))),
    }
}

} // verus!
