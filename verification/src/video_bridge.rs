//! One video filter: a node of the graph with a worker behind it, a stream
//! that brings frames and a stream that gives them out.
use crate::ids::{NodeId, PortId};
use crate::model::{clone_opt, opt_text};
use crate::video_spec::VideoSpec;
use vstd::prelude::*;

verus! {

/// How a filter is doing.
#[derive(Clone, Copy, Debug, PartialEq, Eq, Structural)]
pub enum VideoNodeState {
    /// Nothing flows.
    Idle,
    Live,
    /// Frames do not come through for now.
    Bypassed,
    Failed,
}

/// What a preview shows.
#[derive(Clone, Debug, PartialEq, Eq)]
pub enum PreviewState {
    Idle,
    Live,
    Error(String),
}

/// The contents of a [`PreviewState`].
pub enum PreviewStateView {
    Idle,
    Live,
    Error(Seq<char>),
}

impl View for PreviewState {
    type V = PreviewStateView;

    open spec fn view(&self) -> PreviewStateView {
        match self {
            PreviewState::Idle => PreviewStateView::Idle,
            PreviewState::Live => PreviewStateView::Live,
            PreviewState::Error(text) => PreviewStateView::Error(text@),
        }
    }
}

impl PreviewState {
    /// A copy with the same contents.
    pub fn duplicate(&self) -> (r: PreviewState)
        ensures
            r@ == self@,
    {
        match self {
            PreviewState::Idle => PreviewState::Idle,
            PreviewState::Live => PreviewState::Live,
            PreviewState::Error(text) => PreviewState::Error(text.clone()),
        }
    }
}

/// Frames that came to a filter, were dropped, and were rejected.
#[derive(Clone, Copy, Debug, PartialEq, Eq, Structural)]
pub struct VideoCounters {
    pub received: u64,
    pub dropped: u64,
    pub rejected: u64,
}

/// A filter in the graph.
#[derive(Debug, PartialEq, Eq)]
pub struct VideoFilterInstance {
    pub instance_id: String,
    pub node_id: NodeId,
    pub input_port: PortId,
    pub output_port: PortId,
    pub filter_id: String,
}

/// The contents of a [`VideoFilterInstance`].
pub struct VideoFilterInstanceView {
    pub instance_id: Seq<char>,
    pub node_id: NodeId,
    pub input_port: PortId,
    pub output_port: PortId,
    pub filter_id: Seq<char>,
}

impl View for VideoFilterInstance {
    type V = VideoFilterInstanceView;

    open spec fn view(&self) -> VideoFilterInstanceView {
        VideoFilterInstanceView {
            instance_id: self.instance_id@,
            node_id: self.node_id,
            input_port: self.input_port,
            output_port: self.output_port,
            filter_id: self.filter_id@,
        }
    }
}

impl VideoFilterInstance {
    /// A copy with the same contents.
    pub fn duplicate(&self) -> (r: VideoFilterInstance)
        ensures
            r@ == self@,
    {
        VideoFilterInstance {
            instance_id: self.instance_id.clone(),
            node_id: self.node_id,
            input_port: self.input_port,
            output_port: self.output_port,
            filter_id: self.filter_id.clone(),
        }
    }
}

/// What is shown of a filter.
#[derive(Debug, PartialEq, Eq)]
pub struct VideoNodeInfo {
    pub node_id: NodeId,
    pub instance_id: Option<String>,
    pub spec: Option<VideoSpec>,
    pub state: VideoNodeState,
    pub counters: Option<VideoCounters>,
    pub preview_state: PreviewState,
}

/// What is known of a filter.
#[derive(Debug, PartialEq, Eq)]
pub struct VideoBridge {
    pub instance: VideoFilterInstance,
    pub worker: bool,
    pub output_spec: Option<VideoSpec>,
    pub state: VideoNodeState,
    pub last_error: Option<String>,
    pub diagnostic: Option<String>,
    pub preview: PreviewState,
    pub counters: VideoCounters,
    pub capture_attached: bool,
    pub output_attached: bool,
}

/// The contents of a [`VideoBridge`].
pub struct VideoBridgeView {
    pub instance: VideoFilterInstanceView,
    pub worker: bool,
    pub output_spec: Option<VideoSpec>,
    pub state: VideoNodeState,
    pub last_error: Option<Seq<char>>,
    pub diagnostic: Option<Seq<char>>,
    pub preview: PreviewStateView,
    pub counters: VideoCounters,
    pub capture_attached: bool,
    pub output_attached: bool,
}

impl View for VideoBridge {
    type V = VideoBridgeView;

    open spec fn view(&self) -> VideoBridgeView {
        VideoBridgeView {
            instance: self.instance@,
            worker: self.worker,
            output_spec: self.output_spec,
            state: self.state,
            last_error: opt_text(self.last_error),
            diagnostic: opt_text(self.diagnostic),
            preview: self.preview@,
            counters: self.counters,
            capture_attached: self.capture_attached,
            output_attached: self.output_attached,
        }
    }
}

/// The first of two texts that is there.
pub open spec fn first_text(known: Option<Seq<char>>, other: Seq<char>) -> Option<Seq<char>> {
    match known {
        Some(text) => Some(text),
        None => Some(other),
    }
}

/// How the stream that gives out frames is doing.
#[derive(Clone, Copy, Debug, PartialEq, Eq, Structural)]
pub struct OutputHealth {
    pub connected: bool,
    pub format_mismatch: bool,
}

impl VideoBridgeView {
    /// A filter that was just made.
    pub open spec fn fresh(instance: VideoFilterInstanceView) -> VideoBridgeView {
        VideoBridgeView {
            instance,
            worker: false,
            output_spec: None,
            state: VideoNodeState::Idle,
            last_error: None,
            diagnostic: None,
            preview: PreviewStateView::Idle,
            counters: VideoCounters { received: 0, dropped: 0, rejected: 0 },
            capture_attached: false,
            output_attached: false,
        }
    }

    pub open spec fn started(self) -> VideoBridgeView {
        if self.worker {
            self
        } else {
            VideoBridgeView { worker: true, state: VideoNodeState::Live, ..self }
        }
    }

    /// Frames do not come through. The first reason counts.
    pub open spec fn bypassed(self, reason: Seq<char>) -> VideoBridgeView {
        VideoBridgeView {
            state: VideoNodeState::Bypassed,
            last_error: first_text(self.last_error, reason),
            diagnostic: first_text(self.diagnostic, reason),
            ..self
        }
    }

    pub open spec fn failed(self, reason: Seq<char>) -> VideoBridgeView {
        VideoBridgeView {
            state: VideoNodeState::Failed,
            last_error: Some(reason),
            diagnostic: Some(reason),
            preview: PreviewStateView::Error(reason),
            ..self
        }
    }

    pub open spec fn cleared(self) -> VideoBridgeView {
        VideoBridgeView {
            state: if self.state == VideoNodeState::Failed || self.state
                == VideoNodeState::Bypassed {
                VideoNodeState::Live
            } else {
                self.state
            },
            last_error: None,
            diagnostic: None,
            ..self
        }
    }

    /// The filter without a source.
    pub open spec fn detached(self) -> VideoBridgeView {
        VideoBridgeView {
            state: VideoNodeState::Idle,
            last_error: None,
            output_spec: None,
            diagnostic: None,
            preview: PreviewStateView::Idle,
            ..self
        }
    }

    /// The filter after a look at its streams.
    pub open spec fn reconciled(
        self,
        capture: Option<bool>,
        output: Option<OutputHealth>,
    ) -> VideoBridgeView {
        let capture_down = capture == Some(false);
        let output_down = match output {
            Some(health) => !health.connected,
            None => false,
        };
        let mismatch = match output {
            Some(health) => health.format_mismatch,
            None => false,
        };
        if mismatch {
            self.bypassed("output format mismatch; stream rebuild required"@)
        } else if capture_down || output_down {
            if self.state == VideoNodeState::Live {
                self.bypassed("video stream stalled"@)
            } else {
                self
            }
        } else if self.state == VideoNodeState::Bypassed {
            self.cleared()
        } else {
            self
        }
    }
}

impl VideoBridge {
    pub fn new(instance: VideoFilterInstance) -> (r: VideoBridge)
        ensures
            r@ == VideoBridgeView::fresh(instance@),
    {
        VideoBridge {
            instance,
            worker: false,
            output_spec: None,
            state: VideoNodeState::Idle,
            last_error: None,
            diagnostic: None,
            preview: PreviewState::Idle,
            counters: VideoCounters { received: 0, dropped: 0, rejected: 0 },
            capture_attached: false,
            output_attached: false,
        }
    }

    pub fn node_id(&self) -> (r: NodeId)
        ensures
            r == self@.instance.node_id,
    {
        self.instance.node_id
    }

    pub fn input_port(&self) -> (r: PortId)
        ensures
            r == self@.instance.input_port,
    {
        self.instance.input_port
    }

    pub fn output_port(&self) -> (r: PortId)
        ensures
            r == self@.instance.output_port,
    {
        self.instance.output_port
    }

    /// Makes sure that there is a worker. The result says whether one has to
    /// be started.
    pub fn ensure_worker(&mut self) -> (r: bool)
        ensures
            r == !old(self)@.worker,
            final(self)@ == old(self)@.started(),
    {
        if self.worker {
            return false;
        }
        self.worker = true;
        self.state = VideoNodeState::Live;
        true
    }

    /// Lets the worker go. The result says whether there was one.
    pub fn stop_worker(&mut self) -> (r: bool)
        ensures
            r == old(self)@.worker,
            final(self)@ == (if r {
                VideoBridgeView { worker: false, state: VideoNodeState::Idle, ..old(self)@ }
            } else {
                old(self)@
            }),
    {
        if !self.worker {
            return false;
        }
        self.worker = false;
        self.state = VideoNodeState::Idle;
        true
    }

    pub fn worker_running(&self) -> (r: bool)
        ensures
            r == self@.worker,
    {
        self.worker
    }

    /// A source has agreed on a format.
    pub fn note_input_spec(&mut self)
        ensures
            final(self)@ == (if old(self)@.state == VideoNodeState::Idle {
                VideoBridgeView { state: VideoNodeState::Live, ..old(self)@ }
            } else {
                old(self)@
            }),
    {
        if self.state == VideoNodeState::Idle {
            self.state = VideoNodeState::Live;
        }
    }

    pub fn note_output_spec(&mut self, spec: &VideoSpec)
        ensures
            final(self)@ == (VideoBridgeView { output_spec: Some(*spec), ..old(self)@ }),
    {
        self.output_spec = Some(*spec);
    }

    pub fn output_spec(&self) -> (r: Option<VideoSpec>)
        ensures
            r == self@.output_spec,
    {
        self.output_spec
    }

    pub fn mark_bypassed(&mut self, reason: &str)
        ensures
            final(self)@ == old(self)@.bypassed(reason@),
    {
        self.state = VideoNodeState::Bypassed;
        if self.last_error.is_none() {
            self.last_error = Some(reason.to_owned());
        }
        if self.diagnostic.is_none() {
            self.diagnostic = Some(reason.to_owned());
        }
    }

    pub fn mark_failed(&mut self, reason: &str)
        ensures
            final(self)@ == old(self)@.failed(reason@),
    {
        self.state = VideoNodeState::Failed;
        self.last_error = Some(reason.to_owned());
        self.diagnostic = Some(reason.to_owned());
        self.preview = PreviewState::Error(reason.to_owned());
    }

    pub fn clear_failure(&mut self)
        ensures
            final(self)@ == old(self)@.cleared(),
    {
        if self.state == VideoNodeState::Failed || self.state == VideoNodeState::Bypassed {
            self.state = VideoNodeState::Live;
        }
        self.last_error = None;
        self.diagnostic = None;
    }

    /// The source was taken away. That is no failure; the worker waits.
    pub fn note_input_detached(&mut self)
        ensures
            final(self)@ == old(self)@.detached(),
    {
        self.state = VideoNodeState::Idle;
        self.last_error = None;
        self.output_spec = None;
        self.diagnostic = None;
        self.preview = PreviewState::Idle;
    }

    pub fn state(&self) -> (r: VideoNodeState)
        ensures
            r == self@.state,
    {
        self.state
    }

    /// Looks at the streams that are attached: a live filter whose streams
    /// stand still is bypassed, and one whose streams have recovered is live.
    pub fn reconcile_streams(&mut self, capture: Option<bool>, output: Option<OutputHealth>)
        ensures
            final(self)@ == old(self)@.reconciled(capture, output),
    {
        let capture_down = match capture {
            Some(connected) => !connected,
            None => false,
        };
        let (output_down, mismatch) = match output {
            Some(health) => (!health.connected, health.format_mismatch),
            None => (false, false),
        };
        if mismatch {
            self.mark_bypassed("output format mismatch; stream rebuild required");
        } else if capture_down || output_down {
            if self.state == VideoNodeState::Live {
                self.mark_bypassed("video stream stalled");
            }
        } else if self.state == VideoNodeState::Bypassed {
            self.clear_failure();
        }
    }

    pub fn counters(&self) -> (r: VideoCounters)
        ensures
            r == self@.counters,
    {
        self.counters
    }

    /// What is shown of the filter. Where it gives out nothing yet, the
    /// format is that of its source.
    pub fn info(&self, capture_spec: Option<VideoSpec>) -> (r: VideoNodeInfo)
        ensures
            r.node_id == self@.instance.node_id,
            opt_text(r.instance_id) == Some(self@.instance.instance_id),
            r.spec == (match self@.output_spec {
                Some(spec) => Some(spec),
                None => if self@.capture_attached {
                    capture_spec
                } else {
                    None
                },
            }),
            r.state == self@.state,
            r.counters == Some(self@.counters),
            r.preview_state@ == self@.preview,
    {
        let spec = match self.output_spec {
            Some(spec) => Some(spec),
            None => if self.capture_attached {
                capture_spec
            } else {
                None
            },
        };
        VideoNodeInfo {
            node_id: self.instance.node_id,
            instance_id: Some(self.instance.instance_id.clone()),
            spec,
            state: self.state,
            counters: Some(self.counters),
            preview_state: self.preview.duplicate(),
        }
    }

    /// A copy with the same contents.
    pub fn duplicate(&self) -> (r: VideoBridge)
        ensures
            r@ == self@,
    {
        VideoBridge {
            instance: self.instance.duplicate(),
            worker: self.worker,
            output_spec: self.output_spec,
            state: self.state,
            last_error: clone_opt(&self.last_error),
            diagnostic: clone_opt(&self.diagnostic),
            preview: self.preview.duplicate(),
            counters: self.counters,
            capture_attached: self.capture_attached,
            output_attached: self.output_attached,
        }
    }
}

/// A live filter with healthy streams stays live, and one that was bypassed
/// comes back; what broke it is forgotten then.
pub proof fn law_healthy_streams_are_live(bridge: VideoBridgeView)
    requires
        bridge.state == VideoNodeState::Live || bridge.state == VideoNodeState::Bypassed,
    ensures
        ({
            let healthy = OutputHealth { connected: true, format_mismatch: false };
            let after = bridge.reconciled(Some(true), Some(healthy));
            &&& after.state == VideoNodeState::Live
            &&& bridge.state == VideoNodeState::Bypassed ==> after.last_error is None
        }),
{
}

/// A filter that failed is not brought back by its streams.
pub proof fn law_streams_do_not_mask_failures(
    bridge: VideoBridgeView,
    capture: Option<bool>,
    connected: bool,
)
    requires
        bridge.state == VideoNodeState::Failed,
    ensures
        bridge.reconciled(capture, Some(OutputHealth { connected, format_mismatch: false }))
            == bridge,
{
}

/// The first reason for a bypass is the one that is shown.
pub proof fn law_first_reason_counts(bridge: VideoBridgeView, first: Seq<char>, second: Seq<char>)
    ensures
        bridge.bypassed(first).bypassed(second) == bridge.bypassed(first),
{
}

/// A filter that starts is live; starting one that runs changes nothing.
pub proof fn law_started_filters(bridge: VideoBridgeView)
    ensures
        bridge.started().worker,
        !bridge.worker ==> bridge.started().state == VideoNodeState::Live,
        bridge.worker ==> bridge.started() == bridge,
        bridge.started().started() == bridge.started(),
        bridge.started().instance == bridge.instance,
{
}

/// A new filter does nothing yet and has nothing to report.
pub proof fn law_fresh_filters(instance: VideoFilterInstanceView)
    ensures
        ({
            let b = VideoBridgeView::fresh(instance);
            &&& b.instance == instance
            &&& !b.worker
            &&& b.state == VideoNodeState::Idle
            &&& b.last_error is None && b.diagnostic is None && b.output_spec is None
            &&& !b.capture_attached && !b.output_attached
            &&& b.counters.received == 0 && b.counters.dropped == 0 && b.counters.rejected == 0
        }),
{
}

/// A filter that failed says so with the last reason, one that is bypassed
/// with the first; clearing makes it live again without a reason, and leaves
/// one that is well as it is.
pub proof fn law_failures_and_recovery(bridge: VideoBridgeView, reason: Seq<char>)
    ensures
        bridge.failed(reason).state == VideoNodeState::Failed,
        bridge.failed(reason).last_error == Some(reason),
        bridge.failed(reason).diagnostic == Some(reason),
        bridge.failed(reason).preview == PreviewStateView::Error(reason),
        bridge.failed(reason).instance == bridge.instance,
        bridge.bypassed(reason).state == VideoNodeState::Bypassed,
        bridge.last_error is None ==> bridge.bypassed(reason).last_error == Some(reason),
        bridge.last_error is Some ==> bridge.bypassed(reason).last_error == bridge.last_error,
        bridge.bypassed(reason).preview == bridge.preview,
        bridge.failed(reason).cleared().state == VideoNodeState::Live,
        bridge.bypassed(reason).cleared().state == VideoNodeState::Live,
        bridge.cleared().last_error is None,
        bridge.cleared().diagnostic is None,
        bridge.state == VideoNodeState::Live || bridge.state == VideoNodeState::Idle
            ==> bridge.cleared().state == bridge.state,
        bridge.cleared().instance == bridge.instance && bridge.cleared().worker == bridge.worker,
        bridge.cleared().output_spec == bridge.output_spec,
{
}

/// A filter without a source is idle, without an error, a format or a preview.
pub proof fn law_detached_filters(bridge: VideoBridgeView)
    ensures
        ({
            let b = bridge.detached();
            &&& b.state == VideoNodeState::Idle
            &&& b.last_error is None && b.diagnostic is None && b.output_spec is None
            &&& b.preview == PreviewStateView::Idle
            &&& b.instance == bridge.instance && b.worker == bridge.worker
            &&& b.counters == bridge.counters
        }),
{
}

/// A live filter is bypassed exactly where its capture or its output is down
/// or its output has the wrong format. A wrong format bypasses a filter in any
/// state; else one that is neither live nor bypassed stays as it is.
pub proof fn law_streams_decide(
    bridge: VideoBridgeView,
    capture: Option<bool>,
    output: Option<OutputHealth>,
)
    ensures
        ({
            let after = bridge.reconciled(capture, output);
            let wrong = output matches Some(health) && health.format_mismatch;
            let down = capture == Some(false) || (output matches Some(health)
                && !health.connected);
            &&& bridge.state == VideoNodeState::Live ==> (after.state == VideoNodeState::Bypassed
                <==> wrong || down)
            &&& wrong ==> after.state == VideoNodeState::Bypassed
            &&& !wrong && (bridge.state == VideoNodeState::Failed || bridge.state
                == VideoNodeState::Idle) ==> after == bridge
            &&& !wrong && down && bridge.state == VideoNodeState::Bypassed ==> after == bridge
            &&& !wrong && !down && bridge.state == VideoNodeState::Bypassed ==> after.state
                == VideoNodeState::Live
            &&& bridge.state == VideoNodeState::Live && !wrong && !down ==> after == bridge
            &&& after.instance == bridge.instance
        }),
{
}

} // verus!
