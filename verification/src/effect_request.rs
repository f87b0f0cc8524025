//! Requests for effects that are prepared in the background, what happens to
//! them, and what is reported of it.
use crate::effect_model::{
    EffectConfig, EffectConfigView, EffectInstance, EffectInstanceView, PreparedEffect,
    PreparedEffectView,
};
use crate::model::{
    backend_error_text, BackendError, BackendErrorView, PortKey, PortKeyView, Position,
};
use vstd::prelude::*;

verus! {

/// Where an effect is put.
#[derive(Debug, PartialEq, Eq)]
pub enum EffectTarget {
    /// On its own.
    Standalone { position: Position },
    /// Into the connection between two ports.
    Insert { source: PortKey, destination: PortKey, position: Position },
}

/// The contents of an [`EffectTarget`].
pub enum EffectTargetView {
    Standalone { position: Position },
    Insert { source: PortKeyView, destination: PortKeyView, position: Position },
}

impl View for EffectTarget {
    type V = EffectTargetView;

    open spec fn view(&self) -> EffectTargetView {
        match self {
            EffectTarget::Standalone { position } => EffectTargetView::Standalone {
                position: *position,
            },
            EffectTarget::Insert { source, destination, position } => EffectTargetView::Insert {
                source: source@,
                destination: destination@,
                position: *position,
            },
        }
    }
}

/// A request for an effect.
#[derive(Debug, PartialEq, Eq)]
pub struct EffectCreateRequest {
    pub config: EffectConfig,
    pub target: EffectTarget,
}

/// The contents of an [`EffectCreateRequest`].
pub struct EffectCreateRequestView {
    pub config: EffectConfigView,
    pub target: EffectTargetView,
}

impl View for EffectCreateRequest {
    type V = EffectCreateRequestView;

    open spec fn view(&self) -> EffectCreateRequestView {
        EffectCreateRequestView { config: self.config@, target: self.target@ }
    }
}

impl EffectCreateRequest {
    pub open spec fn wf(&self) -> bool {
        self.config.wf()
    }
}

/// What happened to the preparation of an effect.
#[derive(Debug, PartialEq, Eq)]
pub enum PreparationEvent {
    /// It has come to a stage.
    Loading { ticket: u64, stage: String },
    Ready { ticket: u64, prepared: PreparedEffect },
    Failed { ticket: u64, error: String },
    Cancelled { ticket: u64 },
}

/// The contents of a [`PreparationEvent`].
pub enum PreparationEventView {
    Loading { ticket: u64, stage: Seq<char> },
    Ready { ticket: u64, prepared: PreparedEffectView },
    Failed { ticket: u64, error: Seq<char> },
    Cancelled { ticket: u64 },
}

impl View for PreparationEvent {
    type V = PreparationEventView;

    open spec fn view(&self) -> PreparationEventView {
        match self {
            PreparationEvent::Loading { ticket, stage } => PreparationEventView::Loading {
                ticket: *ticket,
                stage: stage@,
            },
            PreparationEvent::Ready { ticket, prepared } => PreparationEventView::Ready {
                ticket: *ticket,
                prepared: prepared@,
            },
            PreparationEvent::Failed { ticket, error } => PreparationEventView::Failed {
                ticket: *ticket,
                error: error@,
            },
            PreparationEvent::Cancelled { ticket } => PreparationEventView::Cancelled {
                ticket: *ticket,
            },
        }
    }
}

impl PreparationEventView {
    /// The ticket that the event is about.
    pub open spec fn ticket(self) -> u64 {
        match self {
            PreparationEventView::Loading { ticket, stage } => ticket,
            PreparationEventView::Ready { ticket, prepared } => ticket,
            PreparationEventView::Failed { ticket, error } => ticket,
            PreparationEventView::Cancelled { ticket } => ticket,
        }
    }
}

/// What is reported of an effect that was asked for.
#[derive(Debug, PartialEq, Eq)]
pub enum EffectEvent {
    Loading { ticket: u64, stage: String },
    /// The effect is in the graph.
    Ready { ticket: u64, instance: EffectInstance },
    Failed { ticket: u64, error: String },
    Cancelled { ticket: u64 },
}

/// The contents of an [`EffectEvent`].
#[verifier::ext_equal]
pub enum EffectEventView {
    Loading { ticket: u64, stage: Seq<char> },
    Ready { ticket: u64, instance: EffectInstanceView },
    Failed { ticket: u64, error: Seq<char> },
    Cancelled { ticket: u64 },
}

impl View for EffectEvent {
    type V = EffectEventView;

    open spec fn view(&self) -> EffectEventView {
        match self {
            EffectEvent::Loading { ticket, stage } => EffectEventView::Loading {
                ticket: *ticket,
                stage: stage@,
            },
            EffectEvent::Ready { ticket, instance } => EffectEventView::Ready {
                ticket: *ticket,
                instance: instance@,
            },
            EffectEvent::Failed { ticket, error } => EffectEventView::Failed {
                ticket: *ticket,
                error: error@,
            },
            EffectEvent::Cancelled { ticket } => EffectEventView::Cancelled { ticket: *ticket },
        }
    }
}

/// The contents of an optional event.
pub open spec fn opt_event(event: Option<EffectEvent>) -> Option<EffectEventView> {
    match event {
        Some(event) => Some(event@),
        None => None,
    }
}

/// The contents of a list of events.
pub open spec fn event_views(events: Seq<EffectEvent>) -> Seq<EffectEventView> {
    events.map_values(|event: EffectEvent| event@)
}

/// The contents of a list of news.
pub open spec fn news_views(news: Seq<PreparationEvent>) -> Seq<PreparationEventView> {
    news.map_values(|event: PreparationEvent| event@)
}

/// What is reported of a prepared effect that was to be put into the graph.
pub open spec fn reported(
    ticket: u64,
    outcome: Result<EffectInstanceView, BackendErrorView>,
) -> EffectEventView {
    match outcome {
        Ok(instance) => EffectEventView::Ready { ticket, instance },
        Err(error) => EffectEventView::Failed { ticket, error: backend_error_text(error) },
    }
}

pub fn report_of(ticket: u64, outcome: Result<EffectInstance, BackendError>) -> (r: EffectEvent)
    ensures
        r@ == (match outcome {
            Ok(instance) => reported(ticket, Ok(instance@)),
            Err(error) => reported(ticket, Err(error@)),
        }),
{
    match outcome {
        Ok(instance) => EffectEvent::Ready { ticket, instance },
        Err(error) => EffectEvent::Failed { ticket, error: error.to_text() },
    }
}

} // verus!
