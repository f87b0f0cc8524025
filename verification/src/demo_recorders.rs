//! Recorders of the backend in memory. The files are written elsewhere; here
//! is what may be asked when, and what is remembered of the outcome.
use crate::demo::{recorder_fits, DemoDriver, DemoView};
use crate::effect_model::is_blank;
use crate::graph::{Graph, GraphView};
use crate::ids::{NodeId, PortId};
use crate::model::{
    clone_opt, fresh_node, opt_text, BackendError, BackendErrorView, Direction, GraphError, Node,
    NodeType, NodeView, Port, PortType, PortView,
};
use crate::recorder::{
    queue_capacity_frames, queue_frames, result_of, DemoRecorder, DemoRecorderView,
    RecorderCreateRequest, RecorderCreateRequestView, RecorderResult, RecorderState,
    RecorderStatus, RecorderStatusView, RecorderWriterState, WriterDiagnostics, WriterResult,
};
use crate::text::{concat2, decimal, decimal_text, trimmed};
use vstd::prelude::*;

verus! {

broadcast use vstd::std_specs::btree::group_btree_axioms;

/// The error for a recorder that does not exist.
pub open spec fn unknown(id: u64) -> BackendErrorView {
    BackendErrorView::Native("unknown recorder "@ + decimal(id as nat))
}

impl DemoRecorderView {
    /// The recorder after its writer has begun.
    pub open spec fn begun(self, id: u64, path: Seq<char>, capacity: usize) -> DemoRecorderView {
        DemoRecorderView {
            status: RecorderStatusView::begun(
                id,
                self.request.sample_rate,
                self.request.channels,
                path,
                capacity,
            ),
            writing: true,
            ..self
        }
    }

    /// The recorder after its writer has ended.
    pub open spec fn ended(self, written: WriterResult) -> DemoRecorderView {
        DemoRecorderView { status: self.status.finished(written), ..self }
    }

    /// The recorder after its writer has failed.
    pub open spec fn broken(self, text: Seq<char>) -> DemoRecorderView {
        DemoRecorderView {
            status: RecorderStatusView {
                state: RecorderState::Error,
                error: Some(text),
                ..self.status
            },
            ..self
        }
    }

    /// The recorder whose recording is about to be discarded.
    pub open spec fn given_up(self) -> DemoRecorderView {
        DemoRecorderView {
            status: RecorderStatusView { temporary_path: None, ..self.status },
            ..self
        }
    }

    /// The recorder after its recording was saved.
    pub open spec fn saved(self, destination: Seq<char>) -> DemoRecorderView {
        DemoRecorderView {
            status: RecorderStatusView {
                state: RecorderState::Idle,
                writer_state: RecorderWriterState::Starting,
                final_path: Some(destination),
                temporary_path: None,
                ..self.status
            },
            writing: false,
            ..self
        }
    }

    /// The recorder after its recording was discarded.
    pub open spec fn emptied(self, id: u64) -> DemoRecorderView {
        DemoRecorderView {
            status: RecorderStatusView::idle(id, self.request.sample_rate, self.request.channels),
            writing: false,
            ..self
        }
    }
}

impl DemoView {
    /// The backend with one recorder changed.
    pub open spec fn with_recording(self, id: u64, recorder: DemoRecorderView) -> DemoView {
        DemoView { recorders: self.recorders.insert(id, recorder), ..self }
    }
}

fn unknown_recorder(id: u64) -> (r: BackendError)
    ensures
        r@ == unknown(id),
{
    BackendError::Native(concat2("unknown recorder ", decimal_text(id).as_str()))
}

/// The first number from `from` on that no node has.
pub open spec fn first_free(g: GraphView, from: u64, n: u64) -> bool {
    &&& from <= n
    &&& !g.nodes.contains_key(n)
    &&& forall|k: u64| from <= k < n ==> #[trigger] g.nodes.contains_key(k)
}

/// The name of a recorder's node.
pub open spec fn recorder_name(request: RecorderCreateRequestView, id: u64) -> Seq<char> {
    if trimmed(request.name).len() == 0 {
        "Recorder "@ + decimal(id as nat)
    } else {
        request.name
    }
}

/// The graph with a recorder's node.
pub open spec fn with_recorder(
    g: GraphView,
    request: RecorderCreateRequestView,
    id: u64,
    node: u64,
    input: PortId,
) -> GraphView {
    GraphView {
        nodes: g.nodes.insert(
            node,
            NodeView {
                position: request.position,
                ports: seq![input],
                ..fresh_node(NodeId(node), recorder_name(request, id), NodeType::Recorder)
            },
        ),
        ports: g.ports.insert(
            input.0,
            PortView {
                id: input,
                node_id: NodeId(node),
                name: "record"@,
                direction: Direction::Sink,
                port_type: PortType::Audio,
                channel: None,
            },
        ),
        links: g.links,
    }
}

/// A recorder as it is made.
pub open spec fn new_recorder(
    request: RecorderCreateRequestView,
    id: u64,
    node: u64,
    input: PortId,
) -> DemoRecorderView {
    DemoRecorderView {
        node_id: NodeId(node),
        input_port: input,
        status: RecorderStatusView::idle(id, request.sample_rate, request.channels),
        request,
        writing: false,
    }
}

proof fn lemma_recorder_added(
    before: DemoView,
    after: DemoView,
    node: u64,
    input: PortId,
    id: u64,
    request: RecorderCreateRequestView,
)
    requires
        before.wf(),
        before.next_effect_id <= node <= u64::MAX - 2,
        input.0 == node + 1,
        id == before.next_recorder_id,
        id < u64::MAX,
        !before.graph.nodes.contains_key(node),
        !before.graph.has_port(input),
        after.graph.wf(),
        after.graph == with_recorder(before.graph, request, id, node, input),
        after.recorders == before.recorders.insert(id, new_recorder(request, id, node, input)),
        after == (DemoView {
            graph: after.graph,
            recorders: after.recorders,
            next_effect_id: (node + 2) as u64,
            next_recorder_id: (id + 1) as u64,
            ..before
        }),
    ensures
        after.wf(),
{
    assert forall|x: Seq<char>| #[trigger] after.effects.contains_key(
        x,
    ) implies after.effects[x].config.instance_id == x && after.effects[x].node_id.0
        < after.next_effect_id && after.effects[x].input_port.0 < after.next_effect_id
        && after.effects[x].output_port.0 < after.next_effect_id by {
        assert(before.effects.contains_key(x));
    }
    assert forall|k: u64| #[trigger] after.recorders.contains_key(k) implies recorder_fits(
        after.graph,
        after.recorders[k].node_id,
        after.recorders[k].input_port,
    ) && after.recorders[k].node_id.0 < after.next_effect_id by {
        if k != id {
            assert(before.recorders.contains_key(k));
            let d = before.recorders[k];
            let ports = before.graph.node(d.node_id).ports;
            assert(ports[0] == d.input_port);
            assert(ports.contains(ports[0]));
            assert(before.graph.lists(d.node_id.0, d.input_port));
        }
    }
    assert forall|k: u64| #[trigger] after.graph.links.contains_key(k) implies k
        < after.next_link_id by {
        assert(before.graph.links.contains_key(k));
    }
    assert forall|a: Seq<char>, b: Seq<char>|
        #![trigger after.effects.contains_key(a), after.effects.contains_key(b)]
        after.effects.contains_key(a) && after.effects.contains_key(b) && a
            != b implies after.effects[a].node_id != after.effects[b].node_id by {
        assert(before.effects.contains_key(a));
        assert(before.effects.contains_key(b));
    }
    assert forall|a: u64, b: u64|
        #![trigger after.recorders.contains_key(a), after.recorders.contains_key(b)]
        after.recorders.contains_key(a) && after.recorders.contains_key(b) && a
            != b implies after.recorders[a].node_id != after.recorders[b].node_id by {
        if a != id {
            assert(before.recorders.contains_key(a));
        }
        if b != id {
            assert(before.recorders.contains_key(b));
        }
    }
    assert forall|a: Seq<char>, k: u64|
        #![trigger after.effects.contains_key(a), after.recorders.contains_key(k)]
        after.effects.contains_key(a) && after.recorders.contains_key(
            k,
        ) implies after.effects[a].node_id != after.recorders[k].node_id by {
        assert(before.effects.contains_key(a));
        if k != id {
            assert(before.recorders.contains_key(k));
        }
    }
    assert forall|k: u64| #[trigger] after.recorders.contains_key(k) implies k
        < after.next_recorder_id by {
        if k != id {
            assert(before.recorders.contains_key(k));
        }
    }
}

proof fn lemma_recorder_gone(before: DemoView, after: DemoView, id: u64)
    requires
        before.wf(),
        before.recorders.contains_key(id),
        after == (DemoView {
            graph: before.graph.without_node(before.recorders[id].node_id),
            recorders: before.recorders.remove(id),
            ..before
        }),
        after.graph.wf(),
    ensures
        after.wf(),
{
    let g = before.graph;
    assert forall|x: Seq<char>| #[trigger] after.effects.contains_key(
        x,
    ) implies after.effects[x].config.instance_id == x && after.effects[x].node_id.0
        < after.next_effect_id && after.effects[x].input_port.0 < after.next_effect_id
        && after.effects[x].output_port.0 < after.next_effect_id by {
        assert(before.effects.contains_key(x));
    }
    assert forall|k: u64| #[trigger] after.recorders.contains_key(k) implies recorder_fits(
        after.graph,
        after.recorders[k].node_id,
        after.recorders[k].input_port,
    ) && after.recorders[k].node_id.0 < after.next_effect_id by {
        assert(before.recorders.contains_key(k));
        assert(before.recorders.contains_key(id));
        let d = before.recorders[k];
        let ports = g.node(d.node_id).ports;
        assert(ports[0] == d.input_port);
        assert(ports.contains(ports[0]));
        assert(g.lists(d.node_id.0, d.input_port));
    }
    assert forall|k: u64| #[trigger] after.graph.links.contains_key(k) implies k
        < after.next_link_id by {
        assert(before.graph.links.contains_key(k));
    }
    assert forall|a: Seq<char>, b: Seq<char>|
        #![trigger after.effects.contains_key(a), after.effects.contains_key(b)]
        after.effects.contains_key(a) && after.effects.contains_key(b) && a
            != b implies after.effects[a].node_id != after.effects[b].node_id by {
        assert(before.effects.contains_key(a));
        assert(before.effects.contains_key(b));
    }
    assert forall|a: u64, b: u64|
        #![trigger after.recorders.contains_key(a), after.recorders.contains_key(b)]
        after.recorders.contains_key(a) && after.recorders.contains_key(b) && a
            != b implies after.recorders[a].node_id != after.recorders[b].node_id by {
        assert(before.recorders.contains_key(a));
        assert(before.recorders.contains_key(b));
    }
    assert forall|a: Seq<char>, k: u64|
        #![trigger after.effects.contains_key(a), after.recorders.contains_key(k)]
        after.effects.contains_key(a) && after.recorders.contains_key(
            k,
        ) implies after.effects[a].node_id != after.recorders[k].node_id by {
        assert(before.effects.contains_key(a));
        assert(before.recorders.contains_key(k));
    }
    assert forall|k: u64| #[trigger] after.recorders.contains_key(k) implies k
        < after.next_recorder_id by {
        assert(before.recorders.contains_key(k));
    }
}

proof fn lemma_recorder_changed(before: DemoView, after: DemoView, id: u64, d: DemoRecorderView)
    requires
        before.wf(),
        before.recorders.contains_key(id),
        d.node_id == before.recorders[id].node_id,
        d.input_port == before.recorders[id].input_port,
        after == (DemoView { recorders: before.recorders.insert(id, d), ..before }),
    ensures
        after.wf(),
{
    assert forall|k: u64| #[trigger] after.recorders.contains_key(k) implies recorder_fits(
        after.graph,
        after.recorders[k].node_id,
        after.recorders[k].input_port,
    ) && after.recorders[k].node_id.0 < after.next_effect_id && k < after.next_recorder_id by {
        assert(before.recorders.contains_key(k));
    }
    assert forall|a: u64, b: u64|
        #![trigger after.recorders.contains_key(a), after.recorders.contains_key(b)]
        after.recorders.contains_key(a) && after.recorders.contains_key(b) && a
            != b implies after.recorders[a].node_id != after.recorders[b].node_id by {
        assert(before.recorders.contains_key(a));
        assert(before.recorders.contains_key(b));
    }
    assert forall|a: Seq<char>, k: u64|
        #![trigger after.effects.contains_key(a), after.recorders.contains_key(k)]
        after.effects.contains_key(a) && after.recorders.contains_key(
            k,
        ) implies after.effects[a].node_id != after.recorders[k].node_id by {
        assert(before.effects.contains_key(a));
        assert(before.recorders.contains_key(k));
    }
}

/// Why a recorder cannot be removed.
pub open spec fn removal_refusal(d: DemoRecorderView) -> Option<Seq<char>> {
    if d.status.state == RecorderState::Recording {
        Some("stop or discard the recording before removing its node"@)
    } else if d.status.temporary_path is Some && (d.status.state == RecorderState::Unsaved
        || d.status.state == RecorderState::Error) {
        Some("save or explicitly discard the pending recording before removing its node"@)
    } else {
        None
    }
}

/// Why a recorder cannot be started.
pub open spec fn start_refusal(d: DemoRecorderView) -> Option<Seq<char>> {
    if d.status.state == RecorderState::Recording {
        Some("recorder is already recording"@)
    } else if d.status.state != RecorderState::Idle {
        Some("save or discard the pending recording before starting again"@)
    } else {
        None
    }
}

/// Why a recording cannot be saved.
pub open spec fn save_refusal(d: DemoRecorderView) -> Option<Seq<char>> {
    if d.status.state == RecorderState::Recording {
        Some("stop the recorder before saving it"@)
    } else if d.status.state != RecorderState::Unsaved {
        Some("recorder has no finished recording to save"@)
    } else if d.status.temporary_path is None {
        Some("recorder has no pending recording"@)
    } else {
        None
    }
}

/// What starting a recorder takes.
#[derive(Debug, PartialEq, Eq)]
pub struct StartPlan {
    pub directory: Option<String>,
    pub sample_rate: u32,
    pub channels: u16,
    pub capacity: usize,
}

/// A recorder as it was made.
#[derive(Debug, PartialEq, Eq)]
pub struct RecorderInstance {
    pub id: u64,
    pub node_id: NodeId,
    pub input_port: PortId,
    pub status: RecorderStatus,
}

/// What saving a recording takes.
#[derive(Debug, PartialEq, Eq)]
pub struct SavePlan {
    /// The file that is moved.
    pub source: String,
    /// The writer has to finish first.
    pub finish: bool,
}

impl DemoDriver {
    fn free_node_id(&self) -> (r: u64)
        requires
            exists|k: u64|
                self@.next_effect_id <= k <= u64::MAX - 2
                    && !#[trigger] self@.graph.nodes.contains_key(k),
        ensures
            first_free(self@.graph, self@.next_effect_id, r),
            r <= u64::MAX - 2,
    {
        let mut n: u64 = self.next_effect_id;
        let ghost stop = choose|k: u64|
            self@.next_effect_id <= k <= u64::MAX - 2
                && !#[trigger] self@.graph.nodes.contains_key(k);
        while self.graph.nodes.contains_key(&n)
            invariant
                self@.next_effect_id <= n <= stop,
                stop <= u64::MAX - 2,
                !self@.graph.nodes.contains_key(stop),
                forall|k: u64|
                    self@.next_effect_id <= k < n ==> #[trigger] self@.graph.nodes.contains_key(k),
            decreases stop - n,
        {
            assert(self@.graph.nodes.contains_key(n));
            n = n + 1;
        }
        assert(!self@.graph.nodes.contains_key(n));
        n
    }

    /// Adds a recorder. Its node takes the next free number; a number for its
    /// input that is taken refuses it.
    pub fn create_recorder(&mut self, request: RecorderCreateRequest) -> (r: Result<
        RecorderInstance,
        BackendError,
    >)
        requires
            old(self).wf(),
            old(self)@.next_recorder_id < u64::MAX,
            exists|k: u64|
                old(self)@.next_effect_id <= k <= u64::MAX - 2
                    && !#[trigger] old(self)@.graph.nodes.contains_key(k),
        ensures
            final(self).wf(),
            exists|node: u64| #[trigger]
                first_free(old(self)@.graph, old(self)@.next_effect_id, node) && ({
                    let id = old(self)@.next_recorder_id;
                    let input = PortId((node + 1) as u64);
                    let counted = DemoView {
                        next_recorder_id: (id + 1) as u64,
                        next_effect_id: (node + 2) as u64,
                        ..old(self)@
                    };
                    if old(self)@.graph.has_port(input) {
                        &&& r matches Err(e) && e@ == BackendErrorView::Graph(
                            GraphError::DuplicatePort(input),
                        )
                        &&& final(self)@ == counted
                    } else {
                        &&& r matches Ok(instance) && instance.id == id && instance.node_id
                            == NodeId(node) && instance.input_port == input && instance.status@
                            == RecorderStatusView::idle(id, request@.sample_rate, request@.channels)
                        &&& final(self)@ == (DemoView {
                            graph: with_recorder(
                                old(self)@.graph,
                                request@,
                                id,
                                node,
                                input,
                            ),
                            recorders: old(self)@.recorders.insert(
                                id,
                                new_recorder(request@, id, node, input),
                            ),
                            ..counted
                        })
                    }
                }),
    {
        let ghost before = self@;
        let id: u64 = self.next_recorder_id;
        let node: u64 = self.free_node_id();
        let input = PortId(node + 1);
        self.next_recorder_id = id + 1;
        self.next_effect_id = node + 2;
        assert(first_free(before.graph, before.next_effect_id, node));
        if self.graph.port(input).is_some() {
            return Err(BackendError::Graph(GraphError::DuplicatePort(input)));
        }
        let name = if is_blank(request.name.as_str()) {
            concat2("Recorder ", decimal_text(id).as_str())
        } else {
            request.name.clone()
        };
        let mut record = Node::new(NodeId(node), name.as_str(), NodeType::Recorder);
        record.position = request.position;
        let _ = self.graph.add_node(record);
        let _ = self.graph.add_port(
            Port::new(input, NodeId(node), "record", Direction::Sink, PortType::Audio),
        );
        proof {
            assert(self@.graph.nodes[node].ports =~= seq![input]);
            assert(self@.graph =~= with_recorder(before.graph, request@, id, node, input));
        }
        let status = RecorderStatus::idle(id, request.sample_rate, request.channels);
        let shown = RecorderStatus::idle(id, request.sample_rate, request.channels);
        let recorder = DemoRecorder {
            node_id: NodeId(node),
            input_port: input,
            status,
            request,
            writing: false,
        };
        self.recorders.insert(id, recorder);
        proof {
            assert(self@.recorders =~= before.recorders.insert(
                id,
                new_recorder(request@, id, node, input),
            ));
            lemma_recorder_added(before, self@, node, input, id, request@);
        }
        Ok(RecorderInstance { id, node_id: NodeId(node), input_port: input, status: shown })
    }

    /// Removes a recorder with its node, unless it holds something that would
    /// be lost.
    pub fn remove_recorder(&mut self, id: u64) -> (r: Result<(), BackendError>)
        requires
            old(self).wf(),
        ensures
            final(self).wf(),
            if !old(self)@.recorders.contains_key(id) {
                &&& r matches Err(e) && e@ == unknown(id)
                &&& final(self)@ == old(self)@
            } else {
                match removal_refusal(old(self)@.recorders[id]) {
                    Some(text) => {
                        &&& r matches Err(e) && e@ == BackendErrorView::Native(text)
                        &&& final(self)@ == old(self)@
                    },
                    None => {
                        &&& r is Ok
                        &&& final(self)@ == (DemoView {
                            graph: old(self)@.graph.without_node(
                                old(self)@.recorders[id].node_id,
                            ),
                            recorders: old(self)@.recorders.remove(id),
                            ..old(self)@
                        })
                    },
                }
            },
    {
        let ghost before = self@;
        let node_id = match self.recorders.get(&id) {
            None => {
                return Err(unknown_recorder(id));
            },
            Some(recorder) => {
                if recorder.status.state == RecorderState::Recording {
                    return Err(
                        BackendError::native(
                            "stop or discard the recording before removing its node",
                        ),
                    );
                }
                if recorder.status.temporary_path.is_some() && (recorder.status.state
                    == RecorderState::Unsaved || recorder.status.state == RecorderState::Error) {
                    return Err(
                        BackendError::native(
                            "save or explicitly discard the pending recording before removing its node",
                        ),
                    );
                }
                recorder.node_id
            },
        };
        assert(before.recorders.contains_key(id));
        let _ = self.recorders.remove(&id);
        let _ = self.graph.remove_node(node_id);
        proof {
            assert(self@.recorders =~= before.recorders.remove(id));
            lemma_recorder_gone(before, self@, id);
        }
        Ok(())
    }

    /// Checks that a recorder can be started, and says with what.
    pub fn check_start_recording(&self, id: u64, default_millis: usize) -> (r: Result<
        StartPlan,
        BackendError,
    >)
        ensures
            if !self@.recorders.contains_key(id) {
                r matches Err(e) && e@ == unknown(id)
            } else {
                let d = self@.recorders[id];
                match start_refusal(d) {
                    Some(text) => r matches Err(e) && e@ == BackendErrorView::Native(text),
                    None => r matches Ok(plan) && opt_text(plan.directory)
                        == d.request.recording_dir && plan.sample_rate == d.request.sample_rate
                        && plan.channels == d.request.channels && plan.capacity == queue_frames(
                        d.request.capacity_frames,
                        d.request.sample_rate,
                        default_millis,
                    ),
                }
            },
    {
        match self.recorders.get(&id) {
            None => Err(unknown_recorder(id)),
            Some(recorder) => {
                if recorder.status.state == RecorderState::Recording {
                    return Err(BackendError::native("recorder is already recording"));
                }
                if recorder.status.state != RecorderState::Idle {
                    return Err(
                        BackendError::native(
                            "save or discard the pending recording before starting again",
                        ),
                    );
                }
                Ok(
                    StartPlan {
                        directory: clone_opt(&recorder.request.recording_dir),
                        sample_rate: recorder.request.sample_rate,
                        channels: recorder.request.channels,
                        capacity: queue_capacity_frames(
                            recorder.request.capacity_frames,
                            recorder.request.sample_rate,
                            default_millis,
                        ),
                    },
                )
            },
        }
    }

    fn put_recorder(&mut self, id: u64, recorder: DemoRecorder)
        requires
            old(self).wf(),
            old(self)@.recorders.contains_key(id),
            recorder@.node_id == old(self)@.recorders[id].node_id,
            recorder@.input_port == old(self)@.recorders[id].input_port,
        ensures
            final(self).wf(),
            final(self)@ == (DemoView {
                recorders: old(self)@.recorders.insert(id, recorder@),
                ..old(self)@
            }),
    {
        let ghost before = self@;
        self.recorders.insert(id, recorder);
        proof {
            assert(self@.recorders =~= before.recorders.insert(id, recorder@));
            lemma_recorder_changed(before, self@, id, recorder@);
        }
    }

    fn take_recorder(&self, id: u64) -> (r: Option<DemoRecorder>)
        ensures
            match r {
                Some(d) => self@.recorders.contains_key(id) && d@ == self@.recorders[id],
                None => !self@.recorders.contains_key(id),
            },
    {
        match self.recorders.get(&id) {
            None => None,
            Some(d) => Some(
                DemoRecorder {
                    node_id: d.node_id,
                    input_port: d.input_port,
                    status: d.status.duplicate(),
                    request: RecorderCreateRequest {
                        name: d.request.name.clone(),
                        position: d.request.position,
                        sample_rate: d.request.sample_rate,
                        channels: d.request.channels,
                        recording_dir: clone_opt(&d.request.recording_dir),
                        capacity_frames: d.request.capacity_frames,
                    },
                    writing: d.writing,
                },
            ),
        }
    }

    /// Notes that a recorder's writer was started.
    pub fn recording_started(&mut self, id: u64, path: String, capacity: usize)
        requires
            old(self).wf(),
        ensures
            final(self).wf(),
            final(self)@ == (if old(self)@.recorders.contains_key(id) {
                let d = old(self)@.recorders[id];
                old(self)@.with_recording(id, d.begun(id, path@, capacity))
            } else {
                old(self)@
            }),
    {
        if let Some(taken) = self.take_recorder(id) {
            let mut d = taken;
            let mut status = RecorderStatus::idle(id, d.request.sample_rate, d.request.channels);
            status.state = RecorderState::Recording;
            status.writer_state = RecorderWriterState::Recording;
            status.temporary_path = Some(path);
            status.queue_capacity = capacity;
            d.status = status;
            d.writing = true;
            self.put_recorder(id, d);
        }
    }

    /// Checks that a recorder can be asked to stop.
    pub fn check_request_stop(&self, id: u64) -> (r: Result<(), BackendError>)
        ensures
            if !self@.recorders.contains_key(id) {
                r matches Err(e) && e@ == unknown(id)
            } else if self@.recorders[id].status.state == RecorderState::Recording
                && self@.recorders[id].writing {
                r is Ok
            } else {
                r matches Err(e) && e@ == BackendErrorView::Native("recorder is not recording"@)
            },
    {
        match self.recorders.get(&id) {
            None => Err(unknown_recorder(id)),
            Some(recorder) => if recorder.status.state == RecorderState::Recording
                && recorder.writing {
                Ok(())
            } else {
                Err(BackendError::native("recorder is not recording"))
            },
        }
    }

    /// Checks that a recorder has a writer to finish.
    pub fn check_stop_recording(&self, id: u64) -> (r: Result<(), BackendError>)
        ensures
            if !self@.recorders.contains_key(id) {
                r matches Err(e) && e@ == unknown(id)
            } else if self@.recorders[id].writing {
                r is Ok
            } else {
                r matches Err(e) && e@ == BackendErrorView::Native("recorder is not recording"@)
            },
    {
        match self.recorders.get(&id) {
            None => Err(unknown_recorder(id)),
            Some(recorder) => if recorder.writing {
                Ok(())
            } else {
                Err(BackendError::native("recorder is not recording"))
            },
        }
    }

    /// Takes on what a writer left behind.
    pub fn recording_finished(&mut self, id: u64, written: WriterResult) -> (r: Result<
        RecorderResult,
        BackendError,
    >)
        requires
            old(self).wf(),
        ensures
            final(self).wf(),
            if old(self)@.recorders.contains_key(id) {
                let d = old(self)@.recorders[id];
                &&& r matches Ok(result) && result_of(result, id, d, written)
                &&& final(self)@ == old(self)@.with_recording(id, d.ended(written))
            } else {
                &&& r matches Err(e) && e@ == unknown(id)
                &&& final(self)@ == old(self)@
            },
    {
        match self.take_recorder(id) {
            None => Err(unknown_recorder(id)),
            Some(taken) => {
                let mut d = taken;
                d.status.state = RecorderState::Unsaved;
                d.status.writer_state = RecorderWriterState::Finished;
                d.status.elapsed_frames = written.frames_written;
                d.status.frames_written = written.frames_written;
                d.status.dropped_frames = written.dropped_frames;
                d.status.file_bytes = written.file_bytes;
                d.status.temporary_path = Some(written.temporary_path.clone());
                let result = RecorderResult {
                    id,
                    temporary_path: written.temporary_path,
                    elapsed_frames: written.frames_written,
                    sample_rate: d.request.sample_rate,
                    channels: d.request.channels,
                    frames_written: written.frames_written,
                    dropped_frames: written.dropped_frames,
                    file_bytes: written.file_bytes,
                };
                self.put_recorder(id, d);
                Ok(result)
            },
        }
    }

    /// Checks that a recording can be saved, and says from where. `writer` is
    /// how far its writer has come, where there still is one: unless it is
    /// done, it has to finish first.
    pub fn check_save_recording(&self, id: u64, writer: Option<RecorderWriterState>) -> (r: Result<
        SavePlan,
        BackendError,
    >)
        ensures
            if !self@.recorders.contains_key(id) {
                r matches Err(e) && e@ == unknown(id)
            } else {
                match save_refusal(self@.recorders[id]) {
                    Some(text) => r matches Err(e) && e@ == BackendErrorView::Native(text),
                    None => r matches Ok(plan) && self@.recorders[id].status.temporary_path
                        == Some(plan.source@) && plan.finish == (match writer {
                        Some(state) => !(state is Finished),
                        None => false,
                    }),
                }
            },
    {
        match self.recorders.get(&id) {
            None => Err(unknown_recorder(id)),
            Some(recorder) => {
                if recorder.status.state == RecorderState::Recording {
                    return Err(BackendError::native("stop the recorder before saving it"));
                }
                if recorder.status.state != RecorderState::Unsaved {
                    return Err(BackendError::native("recorder has no finished recording to save"));
                }
                match &recorder.status.temporary_path {
                    None => Err(BackendError::native("recorder has no pending recording")),
                    Some(path) => {
                        let finish = match writer {
                            Some(RecorderWriterState::Finished) => false,
                            Some(_) => true,
                            None => false,
                        };
                        Ok(SavePlan { source: path.clone(), finish })
                    },
                }
            },
        }
    }

    /// Notes that a recording was saved.
    pub fn recording_saved(&mut self, id: u64, destination: String)
        requires
            old(self).wf(),
        ensures
            final(self).wf(),
            final(self)@ == (if old(self)@.recorders.contains_key(id) {
                let d = old(self)@.recorders[id];
                old(self)@.with_recording(id, d.saved(destination@))
            } else {
                old(self)@
            }),
    {
        if let Some(taken) = self.take_recorder(id) {
            let mut d = taken;
            d.status.state = RecorderState::Idle;
            d.status.writer_state = RecorderWriterState::Starting;
            d.status.final_path = Some(destination);
            d.status.temporary_path = None;
            d.writing = false;
            self.put_recorder(id, d);
        }
    }

    /// What is shown of a recorder, with what its writer says where there is
    /// one.
    pub fn recorder_status(&self, id: u64, writer: Option<WriterDiagnostics>) -> (r: Result<
        RecorderStatus,
        BackendError,
    >)
        ensures
            if !self@.recorders.contains_key(id) {
                r matches Err(e) && e@ == unknown(id)
            } else {
                let status = self@.recorders[id].status;
                r matches Ok(shown) && shown@ == (match writer {
                    Some(w) => if self@.recorders[id].writing {
                        status.reported(w)
                    } else {
                        status
                    },
                    None => status,
                })
            },
    {
        match self.recorders.get(&id) {
            None => Err(unknown_recorder(id)),
            Some(recorder) => {
                let mut status = recorder.status.duplicate();
                if recorder.writing {
                    if let Some(w) = writer {
                        status.elapsed_frames = w.frames_written;
                        status.frames_written = w.frames_written;
                        status.dropped_frames = w.dropped_frames;
                        status.queue_depth = w.queue_depth;
                        status.queue_capacity = w.queue_capacity;
                        status.file_bytes = w.file_bytes;
                        status.error = w.last_error;
                        status.writer_state = w.writer_state;
                        if w.writer_state == RecorderWriterState::Error {
                            status.state = RecorderState::Error;
                        }
                    }
                }
                Ok(status)
            },
        }
    }

    /// Takes on what a look at a writer came to: nothing yet, a finished
    /// recording, or a failure that the recorder keeps.
    pub fn recording_polled(&mut self, id: u64, polled: Result<Option<WriterResult>, String>) -> (r:
        Result<Option<RecorderResult>, BackendError>)
        requires
            old(self).wf(),
        ensures
            final(self).wf(),
            if !old(self)@.recorders.contains_key(id) {
                &&& r matches Err(e) && e@ == unknown(id)
                &&& final(self)@ == old(self)@
            } else {
                let d = old(self)@.recorders[id];
                if !d.writing {
                    &&& r == Ok::<Option<RecorderResult>, BackendError>(None)
                    &&& final(self)@ == old(self)@
                } else {
                    match polled {
                        Ok(None) => {
                            &&& r == Ok::<Option<RecorderResult>, BackendError>(None)
                            &&& final(self)@ == old(self)@
                        },
                        Ok(Some(written)) => {
                            &&& r matches Ok(Some(result)) && result_of(result, id, d, written)
                            &&& final(self)@ == old(self)@.with_recording(id, d.ended(written))
                        },
                        Err(text) => {
                            &&& r matches Err(e) && e@ == BackendErrorView::Native(text@)
                            &&& final(self)@ == old(self)@.with_recording(id, d.broken(text@))
                        },
                    }
                }
            },
    {
        match self.take_recorder(id) {
            None => Err(unknown_recorder(id)),
            Some(taken) => {
                if !taken.writing {
                    return Ok(None);
                }
                match polled {
                    Ok(None) => Ok(None),
                    Ok(Some(written)) => match self.recording_finished(id, written) {
                        Ok(result) => Ok(Some(result)),
                        Err(error) => Err(error),
                    },
                    Err(text) => {
                        let mut d = taken;
                        d.status.state = RecorderState::Error;
                        d.status.error = Some(text.clone());
                        self.put_recorder(id, d);
                        Err(BackendError::Native(text))
                    },
                }
            },
        }
    }

    /// Begins to discard a recording. The result is the file that has to go,
    /// which the recorder has forgotten.
    pub fn begin_discard(&mut self, id: u64) -> (r: Result<Option<String>, BackendError>)
        requires
            old(self).wf(),
        ensures
            final(self).wf(),
            if !old(self)@.recorders.contains_key(id) {
                &&& r matches Err(e) && e@ == unknown(id)
                &&& final(self)@ == old(self)@
            } else if old(self)@.recorders[id].status.state == RecorderState::Recording {
                &&& r matches Err(e) && e@ == BackendErrorView::Native(
                    "stop the recorder before discarding it"@,
                )
                &&& final(self)@ == old(self)@
            } else {
                let d = old(self)@.recorders[id];
                &&& r matches Ok(path) && opt_text(path) == d.status.temporary_path
                &&& final(self)@ == old(self)@.with_recording(id, d.given_up())
            },
    {
        match self.take_recorder(id) {
            None => Err(unknown_recorder(id)),
            Some(taken) => {
                let mut d = taken;
                if d.status.state == RecorderState::Recording {
                    return Err(BackendError::native("stop the recorder before discarding it"));
                }
                let path = d.status.temporary_path.take();
                self.put_recorder(id, d);
                Ok(path)
            },
        }
    }

    /// Ends the discarding of a recording whose file is gone.
    pub fn recording_discarded(&mut self, id: u64)
        requires
            old(self).wf(),
        ensures
            final(self).wf(),
            final(self)@ == (if old(self)@.recorders.contains_key(id) {
                let d = old(self)@.recorders[id];
                old(self)@.with_recording(id, d.emptied(id))
            } else {
                old(self)@
            }),
    {
        if let Some(taken) = self.take_recorder(id) {
            let mut d = taken;
            d.status = RecorderStatus::idle(id, d.request.sample_rate, d.request.channels);
            d.writing = false;
            self.put_recorder(id, d);
        }
    }
}

/// A finished recording is never lost unasked: until it is saved or
/// discarded, its recorder can neither be removed nor started again.
pub proof fn law_unsaved_recordings_are_kept(d: DemoRecorderView, w: WriterResult)
    ensures
        ({
            let kept = DemoRecorderView { status: d.status.finished(w), ..d };
            &&& removal_refusal(kept) is Some
            &&& start_refusal(kept) is Some
            &&& save_refusal(kept) is None
        }),
{
}

/// A recorder that was saved or discarded can be started and removed again.
pub proof fn law_settled_recorders_are_free(d: DemoRecorderView, id: u64, destination: Seq<char>)
    ensures
        ({
            let saved = DemoRecorderView {
                status: RecorderStatusView {
                    state: RecorderState::Idle,
                    temporary_path: None,
                    final_path: Some(destination),
                    ..d.status
                },
                ..d
            };
            let discarded = DemoRecorderView {
                status: RecorderStatusView::idle(id, d.request.sample_rate, d.request.channels),
                ..d
            };
            &&& removal_refusal(saved) is None
            &&& start_refusal(saved) is None
            &&& removal_refusal(discarded) is None
            &&& start_refusal(discarded) is None
        }),
{
}

/// A recorder stands in the graph as a node of its own with one audio input;
/// the rest of the graph stays.
pub proof fn law_recorders_stand(
    g: GraphView,
    request: RecorderCreateRequestView,
    id: u64,
    node: u64,
    input: PortId,
    k: u64,
)
    ensures
        ({
            let after = with_recorder(g, request, id, node, input);
            let made = new_recorder(request, id, node, input);
            &&& after.has_node(NodeId(node))
            &&& after.node(NodeId(node)).node_type == NodeType::Recorder
            &&& after.node(NodeId(node)).position == request.position
            &&& after.node(NodeId(node)).ports == seq![input]
            &&& !crate::text::all_white(request.name) ==> after.node(NodeId(node)).name
                == request.name
            &&& crate::text::all_white(request.name) ==> after.node(NodeId(node)).name
                == "Recorder "@ + decimal(id as nat)
            &&& after.has_port(input)
            &&& after.port(input).node_id == NodeId(node)
            &&& after.port(input).direction == Direction::Sink
            &&& after.port(input).port_type == PortType::Audio
            &&& after.links == g.links
            &&& k != node ==> (after.nodes.contains_key(k) <==> g.nodes.contains_key(k)) && (
            g.nodes.contains_key(k) ==> after.nodes[k] == g.nodes[k])
            &&& k != input.0 ==> (after.ports.contains_key(k) <==> g.ports.contains_key(k)) && (
            g.ports.contains_key(k) ==> after.ports[k] == g.ports[k])
            &&& made.node_id == NodeId(node)
            &&& made.input_port == input
            &&& made.request == request
            &&& made.status.id == id
            &&& made.status.state == RecorderState::Idle
            &&& made.status.sample_rate == request.sample_rate
            &&& made.status.channels == request.channels
            &&& !made.writing
        }),
{
    crate::text::law_trimmed(request.name);
}

/// A recorder that records is neither started again, nor saved, nor removed.
/// One that is idle can be started and removed, and has nothing to save. One
/// with a finished recording can be saved, and neither started nor removed.
pub proof fn law_recorder_refusals(d: DemoRecorderView)
    ensures
        d.status.state == RecorderState::Recording ==> start_refusal(d) is Some && save_refusal(
            d,
        ) is Some && removal_refusal(d) is Some,
        d.status.state == RecorderState::Idle ==> start_refusal(d) is None && save_refusal(
            d,
        ) is Some && removal_refusal(d) is None,
        d.status.state == RecorderState::Unsaved && d.status.temporary_path is Some
            ==> start_refusal(d) is Some && save_refusal(d) is None && removal_refusal(d) is Some,
        d.status.state == RecorderState::Error ==> start_refusal(d) is Some && save_refusal(
            d,
        ) is Some,
        d.status.state == RecorderState::Error && d.status.temporary_path is Some
            ==> removal_refusal(d) is Some,
{
}

/// A recording that begins is written to its file. One that ends is unsaved
/// and lies where the writer left it. One that fails shows the failure. One
/// that is saved lies at its destination, and one that is discarded nowhere;
/// both leave a recorder that is idle and writes nothing. The node, the port
/// and the request stay.
pub proof fn law_recordings(
    d: DemoRecorderView,
    id: u64,
    path: Seq<char>,
    capacity: usize,
    written: WriterResult,
)
    ensures
        ({
            let s = d.begun(id, path, capacity);
            &&& s.writing && s.status.state == RecorderState::Recording
            &&& s.status.temporary_path == Some(path)
            &&& s.status.id == id
            &&& s.status.sample_rate == d.request.sample_rate
            &&& s.status.channels == d.request.channels
            &&& s.request == d.request && s.node_id == d.node_id && s.input_port == d.input_port
        }),
        ({
            let s = d.ended(written);
            &&& s.status.state == RecorderState::Unsaved
            &&& s.status.temporary_path == Some(written.temporary_path@)
            &&& s.status.frames_written == written.frames_written
            &&& s.status.file_bytes == written.file_bytes
            &&& s.writing == d.writing && s.request == d.request
            &&& s.node_id == d.node_id && s.input_port == d.input_port
        }),
        ({
            let s = d.broken(path);
            &&& s.status.state == RecorderState::Error
            &&& s.status.error == Some(path)
            &&& s.status.temporary_path == d.status.temporary_path
            &&& s.writing == d.writing && s.request == d.request
            &&& s.node_id == d.node_id && s.input_port == d.input_port
        }),
        ({
            let s = d.given_up();
            &&& s.status.temporary_path is None
            &&& s.status.state == d.status.state
            &&& s.writing == d.writing && s.request == d.request
            &&& s.node_id == d.node_id && s.input_port == d.input_port
        }),
        ({
            let s = d.saved(path);
            &&& !s.writing && s.status.state == RecorderState::Idle
            &&& s.status.final_path == Some(path) && s.status.temporary_path is None
            &&& s.status.frames_written == d.status.frames_written
            &&& s.request == d.request && s.node_id == d.node_id && s.input_port == d.input_port
        }),
        ({
            let s = d.emptied(id);
            &&& !s.writing && s.status.state == RecorderState::Idle
            &&& s.status.final_path is None && s.status.temporary_path is None
            &&& s.status.frames_written == 0
            &&& s.request == d.request && s.node_id == d.node_id && s.input_port == d.input_port
        }),
{
}

/// A change of one recorder leaves the graph, the effects and every other
/// recorder as they were.
pub proof fn law_recorders_change_alone(
    driver: DemoView,
    id: u64,
    d: DemoRecorderView,
    other: u64,
)
    ensures
        ({
            let after = driver.with_recording(id, d);
            &&& after.recorders.contains_key(id) && after.recorders[id] == d
            &&& other != id ==> (after.recorders.contains_key(other)
                <==> driver.recorders.contains_key(other)) && after.recorders[other]
                == driver.recorders[other]
            &&& after.graph == driver.graph
            &&& after.effects == driver.effects
        }),
{
}

} // verus!
