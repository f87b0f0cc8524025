//! Running video filters, the preview of a screen capture, and virtual
//! displays.
use crate::graph::Graph;
use crate::ids::{native_node_id, native_part, NodeId};
use crate::metering::{stream_target, target_of};
use crate::lists::{first_in, lemma_first_in, lemma_none_in};
use crate::model::{
    backend_error_text, clone_opt, opt_text, BackendError, BackendErrorView, NodeView,
};
use crate::registry::RegistryState;
use crate::relay_ports::{node_keys, opt_node};
use crate::screencast::{ScreenCastRequest, ScreenCastSource, ScreenCastStatus};
use crate::table::{first_of, lemma_first_found, lemma_none_found, lists_domain};
use crate::text::{concat2, concat3};
use crate::video_board::{
    unknown_filter, unknown_video_filter, VideoBoard, VideoBoardView,
};
use crate::video_bridge::{
    OutputHealth, PreviewState, PreviewStateView, VideoBridge, VideoBridgeView, VideoCounters, VideoFilterInstance,
    VideoNodeInfo, VideoNodeState,
};
use crate::video_spec::VideoSpec;
use vstd::prelude::*;

verus! {

broadcast use vstd::std_specs::btree::group_btree_axioms;

/// What switching a filter takes.
#[derive(Clone, Copy, Debug, PartialEq, Eq, Structural)]
pub enum WorkerStep {
    /// Make the filter's processor and start its worker.
    Start,
    /// Let the worker go.
    Stop,
    Keep,
}

impl VideoBoardView {
    /// With a filter that has changed; a filter that is not there is left.
    pub open spec fn changing(self, id: Seq<char>, bridge: VideoBridgeView) -> VideoBoardView {
        if self.bridges.contains_key(id) {
            VideoBoardView { bridges: self.bridges.insert(id, bridge), ..self }
        } else {
            self
        }
    }
}

/// What is reported of a filter that cannot be made.
pub fn unknown_filter_kind(filter_id: &str, error: &str) -> (r: BackendError)
    ensures
        r@ == BackendErrorView::Native("unknown video filter "@ + filter_id@ + ": "@ + error@),
{
    BackendError::Native(
        concat2(concat3("unknown video filter ", filter_id, ": ").as_str(), error),
    )
}

/// What is reported of a filter whose processor cannot be made.
pub fn filter_failed(error: &str) -> (r: BackendError)
    ensures
        r@ == BackendErrorView::Native("video filter failed: "@ + error@),
{
    BackendError::Native(concat2("video filter failed: ", error))
}

/// What is reported of a filter that has no format for its frames.
pub fn filter_output_failed(error: &str) -> (r: BackendError)
    ensures
        r@ == BackendErrorView::Native("video filter output spec failed: "@ + error@),
{
    BackendError::Native(concat2("video filter output spec failed: ", error))
}

impl VideoBoard {
    fn set_bridge(&mut self, id: &str, bridge: VideoBridge)
        requires
            old(self).wf(),
            old(self)@.bridges.contains_key(id@),
        ensures
            final(self).wf(),
            final(self)@ == old(self)@.changing(id@, bridge@),
    {
        let ghost before = self@;
        self.bridges.insert(id.to_owned(), bridge);
        assert(self@.bridges =~= before.bridges.insert(id@, bridge@));
        assert(self@.links =~= before.links);
    }

    /// Switches a filter. A worker that has to start is noted once it runs.
    pub fn set_video_filter_enabled(&mut self, id: &str, enabled: bool) -> (r: Result<
        WorkerStep,
        BackendError,
    >)
        requires
            old(self).wf(),
        ensures
            final(self).wf(),
            if old(self)@.bridges.contains_key(id@) {
                let bridge = old(self)@.bridges[id@];
                &&& r == Ok::<WorkerStep, BackendError>(worker_step(bridge, enabled))
                &&& final(self)@ == old(self)@.switching_filter(id@, enabled)
            } else {
                &&& r matches Err(e) && e@ == unknown_filter(id@)
                &&& final(self)@ == old(self)@
            },
    {
        match self.bridges.get(id) {
            None => Err(unknown_video_filter(id)),
            Some(found) => {
                if enabled {
                    if found.worker_running() {
                        Ok(WorkerStep::Keep)
                    } else {
                        Ok(WorkerStep::Start)
                    }
                } else if found.worker_running() {
                    let mut bridge = found.duplicate();
                    let _ = bridge.stop_worker();
                    self.set_bridge(id, bridge);
                    Ok(WorkerStep::Stop)
                } else {
                    Ok(WorkerStep::Keep)
                }
            },
        }
    }

    /// Notes that a filter's worker runs.
    pub fn worker_started(&mut self, id: &str)
        requires
            old(self).wf(),
        ensures
            final(self).wf(),
            final(self)@ == old(self)@.changing(id@, old(self)@.bridges[id@].started()),
    {
        if let Some(found) = self.bridges.get(id) {
            let mut bridge = found.duplicate();
            let _ = bridge.ensure_worker();
            self.set_bridge(id, bridge);
        }
    }

    /// Notes that a filter's source has agreed on a format.
    pub fn input_negotiated(&mut self, id: &str)
        requires
            old(self).wf(),
        ensures
            final(self).wf(),
            final(self)@ == old(self)@.changing(id@, negotiated(old(self)@.bridges[id@])),
    {
        if let Some(found) = self.bridges.get(id) {
            let mut bridge = found.duplicate();
            bridge.note_input_spec();
            self.set_bridge(id, bridge);
        }
    }

    /// Whether the stream that gives out a filter's frames has to be built:
    /// there is none, or it has another format.
    pub fn output_needs_rebuild(&self, id: &str, desired: &VideoSpec) -> (r: bool)
        requires
            self.wf(),
        ensures
            r == (self@.bridges.contains_key(id@) && outdated(self@.bridges[id@], *desired)),
    {
        match self.bridges.get(id) {
            None => false,
            Some(bridge) => {
                let same = match bridge.output_spec {
                    Some(spec) => spec == *desired,
                    None => false,
                };
                !same || !bridge.output_attached
            },
        }
    }

    /// Lets go of the stream that gives out a filter's frames.
    pub fn release_output(&mut self, id: &str)
        requires
            old(self).wf(),
        ensures
            final(self).wf(),
            final(self)@ == old(self)@.changing(
                id@,
                without_output(old(self)@.bridges[id@]),
            ),
    {
        if let Some(found) = self.bridges.get(id) {
            let mut bridge = found.duplicate();
            bridge.output_attached = false;
            self.set_bridge(id, bridge);
        }
    }

    /// Takes on what opening that stream came to.
    pub fn output_opened(&mut self, id: &str, desired: &VideoSpec, opened: Result<(), BackendError>)
        requires
            old(self).wf(),
        ensures
            final(self).wf(),
            ({
                let bridge = old(self)@.bridges[id@];
                final(self)@ == old(self)@.changing(
                    id@,
                    match opened {
                        Ok(()) => with_output(bridge, *desired),
                        Err(error) => bridge.failed(
                            "output stream failed: "@ + crate::model::backend_error_text(error@),
                        ),
                    },
                )
            }),
    {
        if let Some(found) = self.bridges.get(id) {
            let mut bridge = found.duplicate();
            match opened {
                Ok(()) => {
                    bridge.note_output_spec(desired);
                    bridge.clear_failure();
                    bridge.output_attached = true;
                },
                Err(error) => {
                    let text = concat2("output stream failed: ", error.to_text().as_str());
                    bridge.mark_failed(text.as_str());
                },
            }
            self.set_bridge(id, bridge);
        }
    }

    /// Looks at the streams of a filter.
    pub fn streams_seen(&mut self, id: &str, capture: Option<bool>, output: Option<OutputHealth>)
        requires
            old(self).wf(),
        ensures
            final(self).wf(),
            final(self)@ == old(self)@.changing(
                id@,
                old(self)@.bridges[id@].reconciled(capture, output),
            ),
    {
        if let Some(found) = self.bridges.get(id) {
            let mut bridge = found.duplicate();
            bridge.reconcile_streams(capture, output);
            self.set_bridge(id, bridge);
        }
    }

    /// The filters, in the order of their names.
    pub fn video_filters(&self) -> (r: Vec<VideoFilterInstance>)
        ensures
            r@.len() == self.bridges.entries@.len(),
            forall|i: int|
                0 <= i < r@.len() ==> (#[trigger] r@[i])@ == self.bridges.entries@[i].1@.instance,
    {
        let mut filters: Vec<VideoFilterInstance> = Vec::new();
        let mut i: usize = 0;
        while i < self.bridges.entries.len()
            invariant
                i <= self.bridges.entries.len(),
                filters@.len() == i,
                forall|j: int|
                    0 <= j < i ==> (#[trigger] filters@[j])@
                        == self.bridges.entries@[j].1@.instance,
            decreases self.bridges.entries.len() - i,
        {
            filters.push(self.bridges.entries[i].1.instance.duplicate());
            i = i + 1;
        }
        filters
    }
}

/// A node that the media server knows under a number.
pub open spec fn has_native(native: u32) -> spec_fn(NodeView) -> bool {
    |node: NodeView| native_part(node.id.0) == native
}

/// The node that shows a screen capture.
pub fn screen_cast_node(graph: &Graph, active: Option<u32>) -> (r: Option<NodeId>)
    requires
        graph.wf(),
    ensures
        r == (match active {
            Some(native) => opt_node(first_of(graph@.nodes, has_native(native))),
            None => None,
        }),
{
    let native: u32 = match active {
        None => {
            return None;
        },
        Some(native) => native,
    };
    let keys = node_keys(graph);
    let mut i: usize = 0;
    while i < keys.len()
        invariant
            i <= keys.len(),
            graph.wf(),
            active == Some(native),
            lists_domain(keys@, graph@.nodes),
            forall|j: int| 0 <= j < i ==> !has_native(native)(#[trigger] graph@.nodes[keys@[j]]),
        decreases keys.len() - i,
    {
        let k: u64 = keys[i];
        assert(keys@.contains(k));
        assert(graph@.nodes.contains_key(k));
        if native_node_id(NodeId(k)) == native {
            proof {
                lemma_first_found(keys@, graph@.nodes, has_native(native), i as int);
            }
            return Some(NodeId(k));
        }
        i = i + 1;
    }
    proof {
        lemma_none_found(keys@, graph@.nodes, has_native(native));
    }
    None
}

/// What the preview of a screen capture takes.
#[derive(Debug, PartialEq, Eq)]
pub enum PreviewStep {
    /// Close the stream that looks at the capture, and show nothing.
    Drop,
    /// Leave everything as it is.
    Nothing,
    /// Open a stream that looks at the target.
    Open(String),
    /// Show the newest frame.
    Mirror,
}

/// Decides on the preview: `active` is the capture's node, `open` says
/// whether a stream looks at it.
pub fn preview_step(active: Option<u32>, state: &RegistryState, open: bool) -> (r: PreviewStep)
    ensures
        match active {
            None => if open {
                r is Drop
            } else {
                r is Nothing
            },
            Some(node) => if !state@.nodes.contains_key(node as u64) {
                r is Nothing
            } else if open {
                r is Mirror
            } else {
                r matches PreviewStep::Open(target) && target@ == target_of(
                    state@.nodes[node as u64],
                )
            },
        },
{
    match active {
        None => if open {
            PreviewStep::Drop
        } else {
            PreviewStep::Nothing
        },
        Some(node) => match state.nodes.get(&(node as u64)) {
            None => PreviewStep::Nothing,
            Some(record) => if open {
                PreviewStep::Mirror
            } else {
                PreviewStep::Open(stream_target(record))
            },
        },
    }
}

/// What showing the newest frame comes to.
#[derive(Clone, Copy, Debug, PartialEq, Eq, Structural)]
pub struct MirrorStep {
    /// The frame to show, by its number.
    pub publish: Option<u64>,
    /// Nothing was shown and nothing comes: say so.
    pub idle: bool,
}

/// Decides what to show: a frame only when it is another than the last. A
/// stream that stands still keeps the frame that it brought.
pub fn mirror_step(last: u64, newest: Option<u64>, connected: bool, shows_frame: bool) -> (r:
    MirrorStep)
    ensures
        r.publish == news(last, newest),
        r.idle == rests(connected, shows_frame, r.publish),
{
    let publish = match newest {
        Some(sequence) => if sequence != last {
            Some(sequence)
        } else {
            None
        },
        None => None,
    };
    MirrorStep { publish, idle: !connected && !shows_frame && publish.is_none() }
}

/// What a preview shows whose stream could not be opened.
pub fn preview_failure(error: &BackendError) -> (r: PreviewState)
    ensures
        r@ == PreviewStateView::Error("preview failed: "@ + backend_error_text(error@)),
{
    PreviewState::Error(concat2("preview failed: ", error.to_text().as_str()))
}

/// Where what is shown of a node comes from.
#[derive(Debug, PartialEq, Eq)]
pub enum InfoSource {
    /// From the filter of a name.
    Filter(String),
    /// From the preview of the screen capture.
    Capture,
    /// Nothing is shown of it.
    Nowhere,
}

/// The filter has the node.
pub open spec fn filter_at(node: NodeId) -> spec_fn((String, VideoBridge)) -> bool {
    |entry: (String, VideoBridge)| entry.1.instance.node_id == node
}

impl VideoBoard {
    /// Decides where what is shown of a node comes from: the first filter that
    /// has the node, else the preview of the screen capture, where one is open
    /// and the capture is at that node.
    pub fn info_source(&self, node: NodeId, preview_open: bool, active: Option<u32>) -> (r:
        InfoSource)
        ensures
            match first_in(self.bridges.entries@, filter_at(node)) {
                Some(entry) => r matches InfoSource::Filter(id) && id@ == entry.0@,
                None => if preview_open && active == Some(native_part(node.0)) {
                    r is Capture
                } else {
                    r is Nowhere
                },
            },
    {
        let mut i: usize = 0;
        while i < self.bridges.entries.len()
            invariant
                i <= self.bridges.entries.len(),
                forall|j: int|
                    0 <= j < i ==> !filter_at(node)(#[trigger] self.bridges.entries@[j]),
            decreases self.bridges.entries.len() - i,
        {
            if self.bridges.entries[i].1.instance.node_id == node {
                proof {
                    lemma_first_in(self.bridges.entries@, filter_at(node), i as int);
                }
                return InfoSource::Filter(self.bridges.entries[i].0.clone());
            }
            i = i + 1;
        }
        proof {
            lemma_none_in(self.bridges.entries@, filter_at(node));
        }
        if preview_open && active == Some(native_node_id(node)) {
            InfoSource::Capture
        } else {
            InfoSource::Nowhere
        }
    }
}

/// What is shown of the node of a screen capture. Other nodes are none of its
/// business.
pub fn screen_cast_info(
    node: NodeId,
    active: Option<u32>,
    spec: Option<VideoSpec>,
    connected: bool,
    counters: VideoCounters,
    preview_state: &PreviewState,
) -> (r: Option<VideoNodeInfo>)
    ensures
        if active == Some(native_part(node.0)) {
            r matches Some(info) && info.node_id == node && info.instance_id is None && info.spec
                == spec && info.state == (if connected {
                VideoNodeState::Live
            } else {
                VideoNodeState::Idle
            }) && info.counters == Some(counters) && info.preview_state@ == preview_state@
        } else {
            r is None
        },
{
    if active != Some(native_node_id(node)) {
        return None;
    }
    Some(
        VideoNodeInfo {
            node_id: node,
            instance_id: None,
            spec,
            state: if connected {
                VideoNodeState::Live
            } else {
                VideoNodeState::Idle
            },
            counters: Some(counters),
            preview_state: preview_state.duplicate(),
        },
    )
}

/// What is shown of a virtual display.
#[derive(Debug, PartialEq, Eq)]
pub struct VirtualDisplayStatus {
    pub supported: Option<bool>,
    pub active: bool,
    pub error: Option<String>,
}

/// What capturing a virtual display asks for.
pub fn virtual_display_request() -> (r: ScreenCastRequest)
    ensures
        r == (ScreenCastRequest {
            source: ScreenCastSource::Virtual,
            show_cursor: true,
            multiple: false,
        }),
{
    ScreenCastRequest { source: ScreenCastSource::Virtual, show_cursor: true, multiple: false }
}

/// What is answered where the desktop does not say that it has virtual
/// displays. Where it does, one can be asked for.
pub fn virtual_display_refusal(supported: Option<bool>) -> (r: Option<VirtualDisplayStatus>)
    ensures
        if supported == Some(true) {
            r is None
        } else {
            r matches Some(status) && status.supported == supported && !status.active && opt_text(
                status.error,
            ) == Some("virtual displays are not supported by this compositor"@)
        },
{
    match supported {
        Some(true) => None,
        _ => Some(
            VirtualDisplayStatus {
                supported,
                active: false,
                error: Some("virtual displays are not supported by this compositor".to_owned()),
            },
        ),
    }
}

/// What is shown of a virtual display whose capture stands as given.
pub fn virtual_display_status(supported: Option<bool>, capture: &ScreenCastStatus) -> (r:
    VirtualDisplayStatus)
    ensures
        r.supported == supported,
        r.active == (capture@.state is Active),
        opt_text(r.error) == capture@.error,
{
    VirtualDisplayStatus {
        supported,
        active: capture.state.is_active(),
        error: clone_opt(&capture.error),
    }
}

/// What a filter that is switched asks of its worker.
pub open spec fn worker_step(bridge: VideoBridgeView, enabled: bool) -> WorkerStep {
    if enabled == bridge.worker {
        WorkerStep::Keep
    } else if enabled {
        WorkerStep::Start
    } else {
        WorkerStep::Stop
    }
}

/// A filter whose input was negotiated.
pub open spec fn negotiated(bridge: VideoBridgeView) -> VideoBridgeView {
    if bridge.state == VideoNodeState::Idle {
        VideoBridgeView { state: VideoNodeState::Live, ..bridge }
    } else {
        bridge
    }
}

/// A filter whose output was opened.
pub open spec fn with_output(bridge: VideoBridgeView, spec: VideoSpec) -> VideoBridgeView {
    VideoBridgeView { output_attached: true, output_spec: Some(spec), ..bridge.cleared() }
}

impl VideoBoardView {
    /// The board after a filter was switched. The worker of one that is
    /// switched on starts by itself.
    pub open spec fn switching_filter(self, id: Seq<char>, enabled: bool) -> VideoBoardView {
        let bridge = self.bridges[id];
        if !enabled && bridge.worker {
            self.changing(
                id,
                VideoBridgeView { worker: false, state: VideoNodeState::Idle, ..bridge },
            )
        } else {
            self
        }
    }
}

/// Switching a filter starts its worker where it does not run, stops it where
/// it does, and keeps it else. One that is switched off is idle; no other
/// filter changes.
pub proof fn law_switched_filters(
    board: VideoBoardView,
    id: Seq<char>,
    other: Seq<char>,
    enabled: bool,
)
    requires
        board.bridges.contains_key(id),
    ensures
        ({
            let step = worker_step(board.bridges[id], enabled);
            let after = board.switching_filter(id, enabled);
            &&& enabled && !board.bridges[id].worker ==> step is Start && after == board
            &&& !enabled && board.bridges[id].worker ==> step is Stop && !after.bridges[id].worker
                && after.bridges[id].state == VideoNodeState::Idle
            &&& enabled == board.bridges[id].worker ==> step is Keep && after == board
            &&& after.bridges[id].instance == board.bridges[id].instance
            &&& other != id && board.bridges.contains_key(other) ==> after.bridges.contains_key(
                other,
            ) && after.bridges[other] == board.bridges[other]
            &&& after.links == board.links && after.positions == board.positions
        }),
{
}

/// A filter whose input was negotiated is live where it was idle, and as it
/// was else. One whose output was opened has that output and no error.
pub proof fn law_opened_filters(bridge: VideoBridgeView, spec: VideoSpec)
    ensures
        bridge.state == VideoNodeState::Idle ==> negotiated(bridge).state == VideoNodeState::Live,
        bridge.state != VideoNodeState::Idle ==> negotiated(bridge) == bridge,
        negotiated(bridge).instance == bridge.instance,
        with_output(bridge, spec).output_attached,
        with_output(bridge, spec).output_spec == Some(spec),
        with_output(bridge, spec).last_error is None,
        bridge.state == VideoNodeState::Failed ==> with_output(bridge, spec).state
            == VideoNodeState::Live,
        with_output(bridge, spec).instance == bridge.instance,
{
}

/// A change of a filter that is there changes that filter; one of a filter
/// that is not changes nothing.
pub proof fn law_changed_filters(
    board: VideoBoardView,
    id: Seq<char>,
    bridge: VideoBridgeView,
    other: Seq<char>,
)
    ensures
        board.bridges.contains_key(id) ==> board.changing(id, bridge).bridges[id] == bridge,
        !board.bridges.contains_key(id) ==> board.changing(id, bridge) == board,
        other != id && board.bridges.contains_key(other) ==> board.changing(
            id,
            bridge,
        ).bridges[other] == board.bridges[other],
        board.changing(id, bridge).bridges.contains_key(other) <==> board.bridges.contains_key(
            other,
        ),
{
}

/// The output of a filter does not offer what is wanted.
pub open spec fn outdated(bridge: VideoBridgeView, desired: VideoSpec) -> bool {
    bridge.output_spec != Some(desired) || !bridge.output_attached
}

/// A filter whose output was let go.
pub open spec fn without_output(bridge: VideoBridgeView) -> VideoBridgeView {
    VideoBridgeView { output_attached: false, ..bridge }
}

/// The frame to publish: the newest, unless it was published last.
pub open spec fn news(last: u64, newest: Option<u64>) -> Option<u64> {
    match newest {
        Some(sequence) if sequence != last => Some(sequence),
        _ => None,
    }
}

/// A preview has nothing to show.
pub open spec fn rests(connected: bool, shows_frame: bool, publish: Option<u64>) -> bool {
    !connected && !shows_frame && publish is None
}

/// An output that was just opened for a format is not opened again for it; it
/// is for another format, and after it was let go.
pub proof fn law_outputs_are_opened_once(
    bridge: VideoBridgeView,
    spec: VideoSpec,
    other: VideoSpec,
)
    ensures
        !outdated(with_output(bridge, spec), spec),
        other != spec ==> outdated(with_output(bridge, spec), other),
        outdated(without_output(bridge), spec),
        without_output(bridge).instance == bridge.instance,
        without_output(bridge).state == bridge.state,
        without_output(bridge).output_spec == bridge.output_spec,
        without_output(bridge).last_error == bridge.last_error,
{
}

/// A frame is published once: after it was, it is not published again, and any
/// other frame is. A preview rests only while nothing is connected, shown or
/// published.
pub proof fn law_frames_are_published_once(
    last: u64,
    newest: u64,
    connected: bool,
    shows_frame: bool,
)
    ensures
        news(last, Some(last)) is None,
        newest != last ==> news(last, Some(newest)) == Some(newest),
        news(last, None) is None,
        rests(false, false, None),
        rests(connected, shows_frame, news(last, Some(newest))) ==> !connected && !shows_frame
            && newest == last,
{
}

} // verus!
