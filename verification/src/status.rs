//! What the status line says of what was done: the key of a text, and what is
//! filled into it. The texts themselves are those of a language.
use crate::model::{backend_error_text, BackendError};
use crate::text::{decimal, decimal_text};
use vstd::prelude::*;

verus! {

/// What was done.
#[derive(Debug, PartialEq, Eq)]
pub enum StatusEvent {
    /// The graph was read, with so many nodes.
    Refreshed(u64),
    RefreshFailed(BackendError),
    ConfigSaved,
    ConfigSaveFailed(String),
    MeterPolicyFailed(BackendError),
    AudioReset,
    AudioResetFailed(BackendError),
    NodeMoved,
    EffectsUnavailable,
    NoEffects,
    EffectCreated,
    EffectCreateFailed(BackendError),
    EffectNotFound,
    EffectUpdateFailed(BackendError),
    EffectRemoved,
    EffectRemoveFailed(BackendError),
    EffectRestoreFailed(BackendError),
}

/// A text of the status line.
#[derive(Debug, PartialEq, Eq)]
pub struct StatusNote {
    pub key: &'static str,
    /// The name of a gap in the text, and what is filled in.
    pub variable: Option<(&'static str, String)>,
}

/// The key of a text.
pub open spec fn key_of(event: StatusEvent) -> Seq<char> {
    match event {
        StatusEvent::Refreshed(_) => "status.refreshed"@,
        StatusEvent::RefreshFailed(_) => "status.refresh_failed"@,
        StatusEvent::ConfigSaved => "status.config_saved"@,
        StatusEvent::ConfigSaveFailed(_) => "status.config_save_failed"@,
        StatusEvent::MeterPolicyFailed(_) => "status.meter_policy_failed"@,
        StatusEvent::AudioReset => "status.audio_reset"@,
        StatusEvent::AudioResetFailed(_) => "status.audio_reset_failed"@,
        StatusEvent::NodeMoved => "status.node_moved"@,
        StatusEvent::EffectsUnavailable => "effects.backend_unavailable"@,
        StatusEvent::NoEffects => "effects.no_available"@,
        StatusEvent::EffectCreated => "effects.created"@,
        StatusEvent::EffectCreateFailed(_) => "effects.create_failed"@,
        StatusEvent::EffectNotFound => "effects.not_found"@,
        StatusEvent::EffectUpdateFailed(_) => "effects.update_failed"@,
        StatusEvent::EffectRemoved => "effects.removed"@,
        StatusEvent::EffectRemoveFailed(_) => "effects.remove_failed"@,
        StatusEvent::EffectRestoreFailed(_) => "effects.restore_failed"@,
    }
}

/// What is filled in: a count, or the words of an error.
pub open spec fn filled_in(event: StatusEvent) -> Option<(Seq<char>, Seq<char>)> {
    match event {
        StatusEvent::Refreshed(count) => Some(("count"@, decimal(count as nat))),
        StatusEvent::ConfigSaveFailed(text) => Some(("error"@, text@)),
        StatusEvent::RefreshFailed(error) | StatusEvent::MeterPolicyFailed(error)
        | StatusEvent::AudioResetFailed(error) | StatusEvent::EffectCreateFailed(error)
        | StatusEvent::EffectUpdateFailed(error) | StatusEvent::EffectRemoveFailed(error)
        | StatusEvent::EffectRestoreFailed(error) => Some(
            ("error"@, backend_error_text(error@)),
        ),
        _ => None,
    }
}

fn failed(key: &'static str, error: &BackendError) -> (r: StatusNote)
    ensures
        r.key@ == key@,
        r.variable matches Some(filled) && filled.0@ == "error"@ && filled.1@
            == backend_error_text(error@),
{
    StatusNote { key, variable: Some(("error", error.to_text())) }
}

fn plain(key: &'static str) -> (r: StatusNote)
    ensures
        r.key@ == key@,
        r.variable is None,
{
    StatusNote { key, variable: None }
}

/// What the status line says.
pub fn status_note(event: &StatusEvent) -> (r: StatusNote)
    ensures
        r.key@ == key_of(*event),
        match filled_in(*event) {
            None => r.variable is None,
            Some((name, text)) => r.variable matches Some(filled) && filled.0@ == name
                && filled.1@ == text,
        },
{
    match event {
        StatusEvent::Refreshed(count) => StatusNote {
            key: "status.refreshed",
            variable: Some(("count", decimal_text(*count))),
        },
        StatusEvent::ConfigSaveFailed(text) => StatusNote {
            key: "status.config_save_failed",
            variable: Some(("error", text.clone())),
        },
        StatusEvent::RefreshFailed(error) => failed("status.refresh_failed", error),
        StatusEvent::MeterPolicyFailed(error) => failed("status.meter_policy_failed", error),
        StatusEvent::AudioResetFailed(error) => failed("status.audio_reset_failed", error),
        StatusEvent::EffectCreateFailed(error) => failed("effects.create_failed", error),
        StatusEvent::EffectUpdateFailed(error) => failed("effects.update_failed", error),
        StatusEvent::EffectRemoveFailed(error) => failed("effects.remove_failed", error),
        StatusEvent::EffectRestoreFailed(error) => failed("effects.restore_failed", error),
        StatusEvent::ConfigSaved => plain("status.config_saved"),
        StatusEvent::AudioReset => plain("status.audio_reset"),
        StatusEvent::NodeMoved => plain("status.node_moved"),
        StatusEvent::EffectsUnavailable => plain("effects.backend_unavailable"),
        StatusEvent::NoEffects => plain("effects.no_available"),
        StatusEvent::EffectCreated => plain("effects.created"),
        StatusEvent::EffectNotFound => plain("effects.not_found"),
        StatusEvent::EffectRemoved => plain("effects.removed"),
    }
}

} // verus!
