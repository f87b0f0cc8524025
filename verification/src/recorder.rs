//! Recorders: nodes that write what reaches them into a file.
use crate::ids::{NodeId, PortId};
use crate::model::{clone_opt, opt_text, BackendError, BackendErrorView, Position};
use vstd::prelude::*;

verus! {

/// How far a recorder has come.
#[derive(Clone, Copy, Debug, PartialEq, Eq, Structural)]
pub enum RecorderState {
    Idle,
    Recording,
    /// A recording is finished and neither saved nor discarded.
    Unsaved,
    Error,
}

/// How far the writer of a recorder's file has come.
#[derive(Clone, Copy, Debug, PartialEq, Eq, Structural)]
pub enum RecorderWriterState {
    Starting,
    Recording,
    Finished,
    Error,
}

/// What is shown of a recorder.
#[derive(Debug, PartialEq, Eq)]
pub struct RecorderStatus {
    pub id: u64,
    pub state: RecorderState,
    pub writer_state: RecorderWriterState,
    pub sample_rate: u32,
    pub channels: u16,
    pub elapsed_frames: u64,
    pub frames_written: u64,
    pub dropped_frames: u64,
    pub queue_depth: usize,
    pub queue_capacity: usize,
    pub file_bytes: u64,
    pub temporary_path: Option<String>,
    pub final_path: Option<String>,
    pub error: Option<String>,
}

/// The contents of a [`RecorderStatus`].
#[verifier::ext_equal]
pub struct RecorderStatusView {
    pub id: u64,
    pub state: RecorderState,
    pub writer_state: RecorderWriterState,
    pub sample_rate: u32,
    pub channels: u16,
    pub elapsed_frames: u64,
    pub frames_written: u64,
    pub dropped_frames: u64,
    pub queue_depth: usize,
    pub queue_capacity: usize,
    pub file_bytes: u64,
    pub temporary_path: Option<Seq<char>>,
    pub final_path: Option<Seq<char>>,
    pub error: Option<Seq<char>>,
}

impl View for RecorderStatus {
    type V = RecorderStatusView;

    open spec fn view(&self) -> RecorderStatusView {
        RecorderStatusView {
            id: self.id,
            state: self.state,
            writer_state: self.writer_state,
            sample_rate: self.sample_rate,
            channels: self.channels,
            elapsed_frames: self.elapsed_frames,
            frames_written: self.frames_written,
            dropped_frames: self.dropped_frames,
            queue_depth: self.queue_depth,
            queue_capacity: self.queue_capacity,
            file_bytes: self.file_bytes,
            temporary_path: opt_text(self.temporary_path),
            final_path: opt_text(self.final_path),
            error: opt_text(self.error),
        }
    }
}

/// What a recorder is asked to be.
#[derive(Debug, PartialEq, Eq)]
pub struct RecorderCreateRequest {
    pub name: String,
    pub position: Position,
    pub sample_rate: u32,
    pub channels: u16,
    pub recording_dir: Option<String>,
    pub capacity_frames: usize,
}

/// The contents of a [`RecorderCreateRequest`].
#[verifier::ext_equal]
pub struct RecorderCreateRequestView {
    pub name: Seq<char>,
    pub position: Position,
    pub sample_rate: u32,
    pub channels: u16,
    pub recording_dir: Option<Seq<char>>,
    pub capacity_frames: usize,
}

impl View for RecorderCreateRequest {
    type V = RecorderCreateRequestView;

    open spec fn view(&self) -> RecorderCreateRequestView {
        RecorderCreateRequestView {
            name: self.name@,
            position: self.position,
            sample_rate: self.sample_rate,
            channels: self.channels,
            recording_dir: opt_text(self.recording_dir),
            capacity_frames: self.capacity_frames,
        }
    }
}

/// A recorder in the graph.
#[derive(Debug, PartialEq, Eq)]
pub struct DemoRecorder {
    pub node_id: NodeId,
    pub input_port: PortId,
    pub status: RecorderStatus,
    pub request: RecorderCreateRequest,
    /// A writer was started and not released yet.
    pub writing: bool,
}

/// The contents of a [`DemoRecorder`].
#[verifier::ext_equal]
pub struct DemoRecorderView {
    pub node_id: NodeId,
    pub input_port: PortId,
    pub status: RecorderStatusView,
    pub request: RecorderCreateRequestView,
    pub writing: bool,
}

impl View for DemoRecorder {
    type V = DemoRecorderView;

    open spec fn view(&self) -> DemoRecorderView {
        DemoRecorderView {
            node_id: self.node_id,
            input_port: self.input_port,
            status: self.status@,
            request: self.request@,
            writing: self.writing,
        }
    }
}

/// What a writer left behind.
#[derive(Debug, PartialEq, Eq)]
pub struct WriterResult {
    pub temporary_path: String,
    pub frames_written: u64,
    pub dropped_frames: u64,
    pub file_bytes: u64,
}

/// What a writer says of itself.
#[derive(Debug, PartialEq, Eq)]
pub struct WriterDiagnostics {
    pub writer_state: RecorderWriterState,
    pub frames_written: u64,
    pub dropped_frames: u64,
    pub queue_depth: usize,
    pub queue_capacity: usize,
    pub file_bytes: u64,
    pub last_error: Option<String>,
}

/// What a finished recording is.
#[derive(Debug, PartialEq, Eq)]
pub struct RecorderResult {
    pub id: u64,
    pub temporary_path: String,
    pub elapsed_frames: u64,
    pub sample_rate: u32,
    pub channels: u16,
    pub frames_written: u64,
    pub dropped_frames: u64,
    pub file_bytes: u64,
}

/// A result is what a writer left behind, for the recorder that was asked.
pub open spec fn result_of(r: RecorderResult, id: u64, d: DemoRecorderView, w: WriterResult) -> bool {
    &&& r.id == id
    &&& r.temporary_path@ == w.temporary_path@
    &&& r.elapsed_frames == w.frames_written
    &&& r.sample_rate == d.request.sample_rate
    &&& r.channels == d.request.channels
    &&& r.frames_written == w.frames_written
    &&& r.dropped_frames == w.dropped_frames
    &&& r.file_bytes == w.file_bytes
}

impl RecorderStatusView {
    /// A recorder with nothing to show.
    pub open spec fn idle(id: u64, sample_rate: u32, channels: u16) -> RecorderStatusView {
        RecorderStatusView {
            id,
            state: RecorderState::Idle,
            writer_state: RecorderWriterState::Starting,
            sample_rate,
            channels,
            elapsed_frames: 0,
            frames_written: 0,
            dropped_frames: 0,
            queue_depth: 0,
            queue_capacity: 0,
            file_bytes: 0,
            temporary_path: None,
            final_path: None,
            error: None,
        }
    }

    /// A recorder that has begun.
    pub open spec fn begun(
        id: u64,
        sample_rate: u32,
        channels: u16,
        path: Seq<char>,
        capacity: usize,
    ) -> RecorderStatusView {
        RecorderStatusView {
            state: RecorderState::Recording,
            writer_state: RecorderWriterState::Recording,
            temporary_path: Some(path),
            queue_capacity: capacity,
            ..RecorderStatusView::idle(id, sample_rate, channels)
        }
    }

    /// A recorder with a recording that is neither saved nor discarded.
    pub open spec fn finished(self, w: WriterResult) -> RecorderStatusView {
        RecorderStatusView {
            state: RecorderState::Unsaved,
            writer_state: RecorderWriterState::Finished,
            elapsed_frames: w.frames_written,
            frames_written: w.frames_written,
            dropped_frames: w.dropped_frames,
            file_bytes: w.file_bytes,
            temporary_path: Some(w.temporary_path@),
            ..self
        }
    }

    /// The status with what the writer says.
    pub open spec fn reported(self, w: WriterDiagnostics) -> RecorderStatusView {
        RecorderStatusView {
            elapsed_frames: w.frames_written,
            frames_written: w.frames_written,
            dropped_frames: w.dropped_frames,
            queue_depth: w.queue_depth,
            queue_capacity: w.queue_capacity,
            file_bytes: w.file_bytes,
            error: opt_text(w.last_error),
            writer_state: w.writer_state,
            state: if w.writer_state == RecorderWriterState::Error {
                RecorderState::Error
            } else {
                self.state
            },
            ..self
        }
    }
}

impl RecorderStatus {
    pub fn idle(id: u64, sample_rate: u32, channels: u16) -> (r: RecorderStatus)
        ensures
            r@ == RecorderStatusView::idle(id, sample_rate, channels),
    {
        RecorderStatus {
            id,
            state: RecorderState::Idle,
            writer_state: RecorderWriterState::Starting,
            sample_rate,
            channels,
            elapsed_frames: 0,
            frames_written: 0,
            dropped_frames: 0,
            queue_depth: 0,
            queue_capacity: 0,
            file_bytes: 0,
            temporary_path: None,
            final_path: None,
            error: None,
        }
    }

    /// A copy with the same contents.
    pub fn duplicate(&self) -> (r: RecorderStatus)
        ensures
            r == *self,
    {
        RecorderStatus {
            id: self.id,
            state: self.state,
            writer_state: self.writer_state,
            sample_rate: self.sample_rate,
            channels: self.channels,
            elapsed_frames: self.elapsed_frames,
            frames_written: self.frames_written,
            dropped_frames: self.dropped_frames,
            queue_depth: self.queue_depth,
            queue_capacity: self.queue_capacity,
            file_bytes: self.file_bytes,
            temporary_path: clone_opt(&self.temporary_path),
            final_path: clone_opt(&self.final_path),
            error: clone_opt(&self.error),
        }
    }
}

/// The frames that a recorder's queue holds: what was asked for, but at least
/// the given time, and at least one.
pub open spec fn queue_frames(asked: usize, sample_rate: u32, millis: usize) -> int {
    let product = sample_rate * millis;
    let least = (if product > usize::MAX {
        usize::MAX as int
    } else {
        product
    }) / 1000;
    let floor = if least < 1 {
        1
    } else {
        least
    };
    if asked > floor {
        asked as int
    } else {
        floor
    }
}

pub fn queue_capacity_frames(asked: usize, sample_rate: u32, millis: usize) -> (r: usize)
    ensures
        r == queue_frames(asked, sample_rate, millis),
{
    let rate: usize = sample_rate as usize;
    let product: usize = match rate.checked_mul(millis) {
        Some(frames) => frames,
        None => usize::MAX,
    };
    let mut floor: usize = product / 1000;
    if floor < 1 {
        floor = 1;
    }
    if asked > floor {
        asked
    } else {
        floor
    }
}

/// Why a recorder on a live stream has failed, if it has.
pub open spec fn stream_failure(unsupported_format: bool, stream_error: bool) -> Option<Seq<char>> {
    if unsupported_format {
        Some("PipeWire recorder negotiated a non-float32 format"@)
    } else if stream_error {
        Some("PipeWire recorder stream failed"@)
    } else {
        None
    }
}

pub fn failure_message(unsupported_format: bool, stream_error: bool) -> (r: Option<&'static str>)
    ensures
        match r {
            Some(text) => stream_failure(unsupported_format, stream_error) == Some(text@),
            None => stream_failure(unsupported_format, stream_error) is None,
        },
{
    if unsupported_format {
        Some("PipeWire recorder negotiated a non-float32 format")
    } else if stream_error {
        Some("PipeWire recorder stream failed")
    } else {
        None
    }
}

/// Settles a stop: what the writer left behind counts only where the stream
/// did not fail.
pub fn settle_stop(
    finished: Result<WriterResult, String>,
    unsupported_format: bool,
    stream_error: bool,
) -> (r: Result<WriterResult, BackendError>)
    ensures
        match finished {
            Err(text) => r matches Err(e) && e@ == BackendErrorView::Native(text@),
            Ok(result) => match stream_failure(unsupported_format, stream_error) {
                Some(text) => r matches Err(e) && e@ == BackendErrorView::Native(text),
                None => r == Ok::<WriterResult, BackendError>(result),
            },
        },
{
    match finished {
        Err(text) => Err(BackendError::Native(text)),
        Ok(result) => match failure_message(unsupported_format, stream_error) {
            Some(text) => Err(BackendError::native(text)),
            None => Ok(result),
        },
    }
}

/// Settles a look at a writer that may not be done: a failed stream is
/// reported in either case.
pub fn settle_poll(
    polled: Result<Option<WriterResult>, String>,
    unsupported_format: bool,
    stream_error: bool,
) -> (r: Result<Option<WriterResult>, BackendError>)
    ensures
        match polled {
            Err(text) => r matches Err(e) && e@ == BackendErrorView::Native(text@),
            Ok(result) => match stream_failure(unsupported_format, stream_error) {
                Some(text) => r matches Err(e) && e@ == BackendErrorView::Native(text),
                None => r == Ok::<Option<WriterResult>, BackendError>(result),
            },
        },
{
    match polled {
        Err(text) => Err(BackendError::Native(text)),
        Ok(result) => match failure_message(unsupported_format, stream_error) {
            Some(text) => Err(BackendError::native(text)),
            None => Ok(result),
        },
    }
}

/// A recorder that is idle has recorded nothing; one that began is recording
/// into its file; one that finished has a recording to save, with what was
/// written.
pub proof fn law_states_of_a_recorder(
    status: RecorderStatusView,
    id: u64,
    rate: u32,
    channels: u16,
    path: Seq<char>,
    capacity: usize,
    w: WriterResult,
)
    ensures
        ({
            let s = RecorderStatusView::idle(id, rate, channels);
            &&& s.id == id && s.sample_rate == rate && s.channels == channels
            &&& s.state == RecorderState::Idle
            &&& s.frames_written == 0 && s.dropped_frames == 0 && s.file_bytes == 0
            &&& s.temporary_path is None && s.final_path is None && s.error is None
        }),
        ({
            let s = RecorderStatusView::begun(id, rate, channels, path, capacity);
            &&& s.id == id && s.sample_rate == rate && s.channels == channels
            &&& s.state == RecorderState::Recording
            &&& s.writer_state == RecorderWriterState::Recording
            &&& s.temporary_path == Some(path)
            &&& s.queue_capacity == capacity
            &&& s.frames_written == 0 && s.error is None
        }),
        ({
            let s = status.finished(w);
            &&& s.state == RecorderState::Unsaved
            &&& s.writer_state == RecorderWriterState::Finished
            &&& s.frames_written == w.frames_written && s.elapsed_frames == w.frames_written
            &&& s.dropped_frames == w.dropped_frames
            &&& s.file_bytes == w.file_bytes
            &&& s.temporary_path == Some(w.temporary_path@)
            &&& s.id == status.id && s.sample_rate == status.sample_rate && s.channels
                == status.channels
            &&& s.final_path == status.final_path
        }),
{
}

/// What the writer reports shows in the status; a recorder whose writer failed
/// has failed, and no other changes its state.
pub proof fn law_reports_of_the_writer(status: RecorderStatusView, w: WriterDiagnostics)
    ensures
        ({
            let s = status.reported(w);
            &&& s.frames_written == w.frames_written && s.elapsed_frames == w.frames_written
            &&& s.dropped_frames == w.dropped_frames
            &&& s.queue_depth == w.queue_depth && s.queue_capacity == w.queue_capacity
            &&& s.file_bytes == w.file_bytes
            &&& s.error == opt_text(w.last_error)
            &&& s.writer_state == w.writer_state
            &&& w.writer_state == RecorderWriterState::Error ==> s.state == RecorderState::Error
            &&& w.writer_state != RecorderWriterState::Error ==> s.state == status.state
            &&& s.id == status.id && s.temporary_path == status.temporary_path
        }),
{
}

/// The queue holds at least what was asked for, at least the frames of the
/// given time, and at least one; and no more than one of these.
pub proof fn law_queue_sizes(asked: usize, rate: u32, millis: usize)
    requires
        rate * millis <= usize::MAX,
    ensures
        ({
            let q = queue_frames(asked, rate, millis);
            &&& q >= 1
            &&& q >= asked
            &&& q * 1000 + 999 >= rate * millis
            &&& q == asked || q == 1 || q * 1000 <= rate * millis
        }),
{
}

/// A recording fails exactly where its format or its stream did.
pub proof fn law_stream_failures(format: bool, stream: bool)
    ensures
        stream_failure(format, stream) is Some <==> format || stream,
{
}

} // verus!
