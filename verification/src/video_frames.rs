//! Frames on their way in and out of streams: gathering the bytes of a frame
//! from the blocks of a buffer, spreading one over them, and what a stream
//! remembers of its format.
use crate::model::opt_text;
use crate::recorder_buffer::{window, ByteBlock};
use crate::text::concat2;
use crate::video_spec::{video_error_text, VideoError, VideoPixelFormat, VideoSpec};
use vstd::prelude::*;

verus! {

/// The data of the first blocks, one after the other.
pub open spec fn gathered(blocks: Seq<ByteBlock>, n: int) -> Seq<u8>
    decreases n,
{
    if n <= 0 {
        Seq::empty()
    } else {
        gathered(blocks, n - 1) + window(blocks[n - 1])
    }
}

proof fn lemma_gathered_grows(blocks: Seq<ByteBlock>, m: int, n: int)
    requires
        0 <= m <= n <= blocks.len(),
    ensures
        gathered(blocks, m).len() <= gathered(blocks, n).len(),
        gathered(blocks, n).take(gathered(blocks, m).len() as int) == gathered(blocks, m),
    decreases n - m,
{
    if m < n {
        lemma_gathered_grows(blocks, m, n - 1);
        let size = gathered(blocks, m).len() as int;
        assert(gathered(blocks, n).take(size) =~= gathered(blocks, n - 1).take(size));
    } else {
        assert(gathered(blocks, n).take(gathered(blocks, n).len() as int) =~= gathered(blocks, n));
    }
}

/// Gathers a frame of the given size. Where the blocks hold more, the rest is
/// left; where they hold less, there is no frame.
pub fn gather_frame(blocks: &Vec<ByteBlock>, expected: usize) -> (r: Option<Vec<u8>>)
    ensures
        ({
            let all = gathered(blocks@, blocks@.len() as int);
            match r {
                Some(bytes) => expected <= all.len() && bytes@ == all.take(expected as int),
                None => all.len() < expected,
            }
        }),
{
    let mut bytes: Vec<u8> = Vec::new();
    let mut b: usize = 0;
    while b < blocks.len() && bytes.len() < expected
        invariant
            b <= blocks.len(),
            bytes@.len() <= expected,
            gathered(blocks@, b as int).len() < expected ==> bytes@ == gathered(
                blocks@,
                b as int,
            ),
            gathered(blocks@, b as int).len() >= expected ==> bytes@ == gathered(
                blocks@,
                b as int,
            ).take(expected as int),
        decreases blocks.len() - b,
    {
        let block = &blocks[b];
        let ghost before = bytes@;
        let ghost part = window(*block);
        match &block.bytes {
            None => {
                assert(before + part =~= before);
            },
            Some(data) => {
                let offset: usize = block.offset as usize;
                let wanted: u64 = block.offset as u64 + block.size as u64;
                let end: usize = if wanted < data.len() as u64 {
                    wanted as usize
                } else {
                    data.len()
                };
                if offset < end {
                    let room: usize = expected - bytes.len();
                    let take: usize = if end - offset < room {
                        end - offset
                    } else {
                        room
                    };
                    let mut i: usize = 0;
                    while i < take
                        invariant
                            i <= take,
                            offset + take <= end <= data@.len(),
                            part == data@.subrange(offset as int, end as int),
                            bytes@ == before + part.take(i as int),
                        decreases take - i,
                    {
                        bytes.push(data[offset + i]);
                        assert(part.take(i + 1) =~= part.take(i as int).push(part[i as int]));
                        assert(bytes@ =~= before + part.take(i + 1));
                        i = i + 1;
                    }
                    proof {
                        if take == end - offset {
                            assert(part.take(take as int) =~= part);
                        }
                        assert((before + part).take(bytes@.len() as int) =~= bytes@);
                    }
                } else {
                    assert(before + part =~= before);
                }
            },
        }
        b = b + 1;
    }
    proof {
        let n = blocks@.len() as int;
        lemma_gathered_grows(blocks@, b as int, n);
        let here = gathered(blocks@, b as int);
        let all = gathered(blocks@, n);
        if bytes@.len() == expected {
            assert(all.take(here.len() as int) == here);
            assert(here.take(expected as int) =~= all.take(expected as int));
            assert(here.len() == expected ==> here.take(expected as int) =~= here);
        }
    }
    if bytes.len() == expected {
        Some(bytes)
    } else {
        None
    }
}

/// The part of a frame that goes into a block.
#[derive(Clone, Copy, Debug, PartialEq, Eq, Structural)]
pub struct BlockFill {
    pub from: usize,
    pub len: usize,
}

/// How much the first blocks take. A block without memory takes nothing.
pub open spec fn room_in(lengths: Seq<Option<usize>>, n: int) -> nat
    decreases n,
{
    if n <= 0 {
        0
    } else {
        room_in(lengths, n - 1) + (match lengths[n - 1] {
            Some(len) => len as nat,
            None => 0,
        })
    }
}

/// What goes into a block: the next part of the frame, as much as fits.
/// Blocks without memory, and those behind the end of the frame, are left.
pub open spec fn fill_of(lengths: Seq<Option<usize>>, i: int, total: usize) -> Option<BlockFill> {
    match lengths[i] {
        Some(len) if room_in(lengths, i) < total => Some(
            BlockFill {
                from: room_in(lengths, i) as usize,
                len: if len < total - room_in(lengths, i) {
                    len
                } else {
                    (total - room_in(lengths, i)) as usize
                },
            },
        ),
        _ => None,
    }
}

proof fn lemma_room_grows(lengths: Seq<Option<usize>>, m: int, n: int)
    requires
        0 <= m <= n <= lengths.len(),
    ensures
        room_in(lengths, m) <= room_in(lengths, n),
    decreases n - m,
{
    if m < n {
        lemma_room_grows(lengths, m, n - 1);
    }
}

/// Spreads a frame over blocks of the given sizes. There is no way to do so
/// where they do not hold it whole: a part of an image is worse than none.
pub fn spread_frame(lengths: &Vec<Option<usize>>, total: usize) -> (r: Option<
    Vec<Option<BlockFill>>,
>)
    ensures
        match r {
            Some(fills) => {
                &&& room_in(lengths@, lengths@.len() as int) >= total
                &&& fills@.len() == lengths@.len()
                &&& forall|i: int|
                    0 <= i < fills@.len() ==> #[trigger] fills@[i] == fill_of(lengths@, i, total)
            },
            None => room_in(lengths@, lengths@.len() as int) < total,
        },
{
    let mut fills: Vec<Option<BlockFill>> = Vec::new();
    let mut written: usize = 0;
    let mut i: usize = 0;
    while i < lengths.len()
        invariant
            i <= lengths.len(),
            written <= total,
            fills@.len() == i,
            room_in(lengths@, i as int) < total ==> written == room_in(lengths@, i as int),
            room_in(lengths@, i as int) >= total ==> written == total,
            forall|j: int| 0 <= j < i ==> #[trigger] fills@[j] == fill_of(lengths@, j, total),
        decreases lengths.len() - i,
    {
        match lengths[i] {
            Some(len) if written < total => {
                let left: usize = total - written;
                let take: usize = if len < left {
                    len
                } else {
                    left
                };
                fills.push(Some(BlockFill { from: written, len: take }));
                written = written + take;
            },
            _ => {
                fills.push(None);
            },
        }
        i = i + 1;
    }
    if written < total {
        None
    } else {
        Some(fills)
    }
}

/// The parts follow one another: each begins where those before it end.
pub proof fn law_parts_follow_one_another(lengths: Seq<Option<usize>>, i: int, j: int, total: usize)
    requires
        0 <= i < j < lengths.len(),
        fill_of(lengths, i, total) is Some,
        fill_of(lengths, j, total) is Some,
        forall|k: int| i < k < j ==> #[trigger] fill_of(lengths, k, total) is None,
    ensures
        fill_of(lengths, i, total)->0.from + fill_of(lengths, i, total)->0.len == fill_of(
            lengths,
            j,
            total,
        )->0.from,
{
    lemma_room_grows(lengths, i + 1, j);
    lemma_gap(lengths, i + 1, j, total);
}

proof fn lemma_gap(lengths: Seq<Option<usize>>, a: int, b: int, total: usize)
    requires
        0 <= a <= b <= lengths.len(),
        room_in(lengths, b) < total,
        forall|k: int| a <= k < b ==> #[trigger] fill_of(lengths, k, total) is None,
    ensures
        room_in(lengths, a) == room_in(lengths, b),
    decreases b - a,
{
    if a < b {
        lemma_room_grows(lengths, b - 1, b);
        assert(fill_of(lengths, b - 1, total) is None);
        lemma_gap(lengths, a, b - 1, total);
    }
}

/// The bytes between the starts of two rows.
pub fn frame_stride(spec: &VideoSpec) -> (r: i32)
    requires
        spec.valid(),
    ensures
        r == (match spec.format {
            VideoPixelFormat::Rgbx | VideoPixelFormat::Bgrx | VideoPixelFormat::Rgba => spec.width
                * 4,
            VideoPixelFormat::Nv12 | VideoPixelFormat::I420 => spec.width as int,
        }),
{
    match spec.format {
        VideoPixelFormat::Rgbx | VideoPixelFormat::Bgrx | VideoPixelFormat::Rgba => spec.width
            as i32 * 4,
        VideoPixelFormat::Nv12 | VideoPixelFormat::I420 => spec.width as i32,
    }
}

/// What a stream that gives out frames remembers.
#[derive(Debug, PartialEq, Eq)]
pub struct VideoOutputState {
    pub offered: VideoSpec,
    pub negotiated: Option<VideoSpec>,
    pub connected: bool,
    pub format_mismatch: bool,
    pub frames_written: u64,
    pub error: Option<String>,
}

/// The contents of a [`VideoOutputState`].
pub struct VideoOutputView {
    pub offered: VideoSpec,
    pub negotiated: Option<VideoSpec>,
    pub connected: bool,
    pub format_mismatch: bool,
    pub frames_written: u64,
    pub error: Option<Seq<char>>,
}

impl View for VideoOutputState {
    type V = VideoOutputView;

    open spec fn view(&self) -> VideoOutputView {
        VideoOutputView {
            offered: self.offered,
            negotiated: self.negotiated,
            connected: self.connected,
            format_mismatch: self.format_mismatch,
            frames_written: self.frames_written,
            error: opt_text(self.error),
        }
    }
}

/// What goes into a buffer.
#[derive(Debug, PartialEq, Eq)]
pub enum OutputAction {
    /// Nothing; the buffer keeps the stream alive.
    Empty,
    /// These parts of the frame, block by block.
    Fill(Vec<Option<BlockFill>>),
}

impl VideoOutputState {
    pub fn new(offered: VideoSpec) -> (r: VideoOutputState)
        ensures
            r@ == (VideoOutputView {
                offered,
                negotiated: None,
                connected: false,
                format_mismatch: false,
                frames_written: 0,
                error: None,
            }),
    {
        VideoOutputState {
            offered,
            negotiated: None,
            connected: false,
            format_mismatch: false,
            frames_written: 0,
            error: None,
        }
    }

    /// The stream came into another state.
    pub fn state_changed(&mut self, streaming: bool, failed: bool)
        ensures
            final(self)@ == (VideoOutputView {
                connected: streaming,
                error: if failed {
                    Some("output stream error"@)
                } else {
                    old(self)@.error
                },
                ..old(self)@
            }),
    {
        self.connected = streaming;
        if failed {
            self.error = Some("output stream error".to_owned());
        }
    }

    /// A format was negotiated. Any other than the offered one means that the
    /// stream has to be built anew.
    pub fn format_changed(&mut self, parsed: Result<VideoSpec, VideoError>)
        ensures
            final(self)@ == (match parsed {
                Ok(spec) => VideoOutputView {
                    negotiated: Some(spec),
                    format_mismatch: spec != old(self)@.offered,
                    error: if spec != old(self)@.offered {
                        Some(
                            "output renegotiated to an unexpected format; stream rebuild required"@,
                        )
                    } else {
                        None
                    },
                    ..old(self)@
                },
                Err(error) => VideoOutputView {
                    error: Some("unsupported output format: "@ + video_error_text(error)),
                    ..old(self)@
                },
            }),
    {
        match parsed {
            Ok(spec) => {
                self.format_mismatch = spec != self.offered;
                self.negotiated = Some(spec);
                self.error = if self.format_mismatch {
                    Some(
                        "output renegotiated to an unexpected format; stream rebuild required".to_owned(),
                    )
                } else {
                    None
                };
            },
            Err(error) => {
                self.error = Some(
                    concat2("unsupported output format: ", error.to_text().as_str()),
                );
            },
        }
    }

    /// Fills a buffer with the newest frame, if there is one and it fits.
    pub fn publish(&mut self, frame_len: Option<usize>, lengths: &Vec<Option<usize>>) -> (r:
        OutputAction)
        ensures
            match frame_len {
                Some(total) if !old(self)@.format_mismatch => if room_in(
                    lengths@,
                    lengths@.len() as int,
                ) >= total {
                    &&& r matches OutputAction::Fill(fills) && fills@.len() == lengths@.len()
                        && forall|i: int|
                        0 <= i < fills@.len() ==> #[trigger] fills@[i] == fill_of(
                            lengths@,
                            i,
                            total,
                        )
                    &&& final(self)@ == (VideoOutputView {
                        frames_written: crate::video_names::following(
                            old(self)@.frames_written,
                        ),
                        ..old(self)@
                    })
                } else {
                    &&& r is Empty
                    &&& final(self)@ == (VideoOutputView {
                        error: Some("output buffer smaller than frame"@),
                        ..old(self)@
                    })
                },
                _ => r is Empty && final(self)@ == old(self)@,
            },
    {
        if self.format_mismatch {
            return OutputAction::Empty;
        }
        match frame_len {
            None => OutputAction::Empty,
            Some(total) => match spread_frame(lengths, total) {
                None => {
                    self.error = Some("output buffer smaller than frame".to_owned());
                    OutputAction::Empty
                },
                Some(fills) => {
                    self.frames_written = self.frames_written.wrapping_add(1);
                    OutputAction::Fill(fills)
                },
            },
        }
    }
}

/// What a stream that takes in frames remembers.
#[derive(Debug, PartialEq, Eq)]
pub struct VideoCaptureState {
    pub spec: Option<VideoSpec>,
    pub connected: bool,
    pub sequence: u64,
    pub rejected: u64,
    pub error: Option<String>,
}

/// The contents of a [`VideoCaptureState`].
pub struct VideoCaptureView {
    pub spec: Option<VideoSpec>,
    pub connected: bool,
    pub sequence: u64,
    pub rejected: u64,
    pub error: Option<Seq<char>>,
}

impl View for VideoCaptureState {
    type V = VideoCaptureView;

    open spec fn view(&self) -> VideoCaptureView {
        VideoCaptureView {
            spec: self.spec,
            connected: self.connected,
            sequence: self.sequence,
            rejected: self.rejected,
            error: opt_text(self.error),
        }
    }
}

/// A frame that was taken in.
#[derive(Debug, PartialEq, Eq)]
pub struct CapturedFrame {
    pub spec: VideoSpec,
    pub sequence: u64,
    pub bytes: Vec<u8>,
}

impl VideoCaptureState {
    pub fn new() -> (r: VideoCaptureState)
        ensures
            r@ == (VideoCaptureView {
                spec: None,
                connected: false,
                sequence: 0,
                rejected: 0,
                error: None,
            }),
    {
        VideoCaptureState { spec: None, connected: false, sequence: 0, rejected: 0, error: None }
    }

    /// The stream came into another state.
    pub fn state_changed(&mut self, streaming: bool, failed: bool)
        ensures
            final(self)@ == (VideoCaptureView {
                connected: streaming,
                error: if failed && !streaming {
                    Some("capture stream error"@)
                } else {
                    old(self)@.error
                },
                ..old(self)@
            }),
    {
        self.connected = streaming;
        if failed && !streaming {
            self.error = Some("capture stream error".to_owned());
        }
    }

    /// A format was negotiated. The result says whether it is another one, so
    /// that the frames that wait have to go.
    pub fn format_changed(&mut self, parsed: Result<VideoSpec, VideoError>) -> (r: bool)
        ensures
            match parsed {
                Ok(spec) => {
                    &&& r == (old(self)@.spec != Some(spec))
                    &&& final(self)@ == (if r {
                        VideoCaptureView { spec: Some(spec), error: None, ..old(self)@ }
                    } else {
                        old(self)@
                    })
                },
                Err(error) => {
                    &&& !r
                    &&& final(self)@ == (VideoCaptureView {
                        error: Some("unsupported capture format: "@ + video_error_text(error)),
                        ..old(self)@
                    })
                },
            },
    {
        match parsed {
            Ok(spec) => {
                let same = match self.spec {
                    Some(known) => known == spec,
                    None => false,
                };
                if !same {
                    self.spec = Some(spec);
                    self.error = None;
                }
                !same
            },
            Err(error) => {
                self.error = Some(
                    concat2("unsupported capture format: ", error.to_text().as_str()),
                );
                false
            },
        }
    }

    /// Takes in a buffer. Without a valid format nothing is taken; a buffer
    /// that does not hold a whole frame is rejected, and the stream goes on.
    pub fn take_frame(&mut self, blocks: &Vec<ByteBlock>) -> (r: Option<CapturedFrame>)
        ensures
            ({
                let all = gathered(blocks@, blocks@.len() as int);
                match old(self)@.spec {
                    Some(spec) if spec.valid() => if all.len() >= spec.bytes() {
                        &&& r matches Some(frame) && frame.spec == spec && frame.sequence
                            == old(self)@.sequence && frame.bytes@ == all.take(spec.bytes())
                        &&& final(self)@ == (VideoCaptureView {
                            sequence: crate::video_names::following(old(self)@.sequence),
                            ..old(self)@
                        })
                    } else {
                        &&& r is None
                        &&& final(self)@ == (VideoCaptureView {
                            rejected: crate::video_names::following(old(self)@.rejected),
                            ..old(self)@
                        })
                    },
                    _ => r is None && final(self)@ == old(self)@,
                }
            }),
    {
        let spec = match self.spec {
            None => {
                return None;
            },
            Some(spec) => spec,
        };
        let expected: usize = match spec.frame_bytes() {
            Err(_) => {
                return None;
            },
            Ok(len) => len,
        };
        match gather_frame(blocks, expected) {
            None => {
                self.rejected = self.rejected.wrapping_add(1);
                None
            },
            Some(bytes) => {
                let sequence: u64 = self.sequence;
                self.sequence = self.sequence.wrapping_add(1);
                Some(CapturedFrame { spec, sequence, bytes })
            },
        }
    }
}

/// A frame that is gathered from the blocks over which it was spread is the
/// frame itself.
pub proof fn law_spread_and_gather(
    blocks: Seq<ByteBlock>,
    lengths: Seq<Option<usize>>,
    frame: Seq<u8>,
    total: usize,
    n: int,
)
    requires
        frame.len() == total,
        blocks.len() == lengths.len(),
        0 <= n <= blocks.len(),
        forall|i: int|
            0 <= i < blocks.len() ==> window(#[trigger] blocks[i]) == (match fill_of(
                lengths,
                i,
                total,
            ) {
                Some(fill) => frame.subrange(fill.from as int, fill.from + fill.len),
                None => Seq::empty(),
            }),
    ensures
        gathered(blocks, n) == frame.take(
            if room_in(lengths, n) < total {
                room_in(lengths, n) as int
            } else {
                total as int
            },
        ),
    decreases n,
{
    if n <= 0 {
        assert(gathered(blocks, n) =~= frame.take(0));
    } else {
        law_spread_and_gather(blocks, lengths, frame, total, n - 1);
        let before = if room_in(lengths, n - 1) < total {
            room_in(lengths, n - 1) as int
        } else {
            total as int
        };
        let after = if room_in(lengths, n) < total {
            room_in(lengths, n) as int
        } else {
            total as int
        };
        let part = window(blocks[n - 1]);
        assert(frame.take(before) + part =~= frame.take(after));
    }
}

/// What is gathered is the blocks, one after the other.
pub proof fn law_gathered_blocks(blocks: Seq<ByteBlock>, n: int, i: int)
    requires
        0 <= i < n <= blocks.len(),
    ensures
        ({
            let from = gathered(blocks, i).len() as int;
            gathered(blocks, n).subrange(from, from + window(blocks[i]).len()) == window(blocks[i])
        }),
        gathered(blocks, 0).len() == 0,
        gathered(blocks, n).len() == gathered(blocks, n - 1).len() + window(blocks[n - 1]).len(),
{
    lemma_gathered_grows(blocks, i + 1, n);
    let a = gathered(blocks, i);
    let b = gathered(blocks, i + 1);
    let all = gathered(blocks, n);
    let from = a.len() as int;
    assert(b == a + window(blocks[i]));
    assert(all.subrange(from, from + window(blocks[i]).len()) =~= all.take(
        b.len() as int,
    ).subrange(from, from + window(blocks[i]).len()));
    assert(b.subrange(from, b.len() as int) =~= window(blocks[i]));
}

/// A part of a frame lies within the frame and within its block, and begins
/// where the room of the blocks before ends; the blocks are filled from the
/// first on, each as far as the frame reaches.
pub proof fn law_parts_fit(lengths: Seq<Option<usize>>, i: int, total: usize)
    requires
        0 <= i < lengths.len(),
    ensures
        fill_of(lengths, i, total) matches Some(fill) ==> {
            &&& lengths[i] matches Some(len)
            &&& fill.len <= len
            &&& fill.from + fill.len <= total
            &&& fill.from == room_in(lengths, i)
            &&& fill.len == len || fill.from + fill.len == total
        },
        lengths[i] is None ==> fill_of(lengths, i, total) is None,
        lengths[i] is Some && room_in(lengths, i) < total ==> fill_of(lengths, i, total) is Some,
        room_in(lengths, 0) == 0,
        lengths[i] matches Some(len) ==> room_in(lengths, i + 1) == room_in(lengths, i) + len,
        lengths[i] is None ==> room_in(lengths, i + 1) == room_in(lengths, i),
{
}

} // verus!
