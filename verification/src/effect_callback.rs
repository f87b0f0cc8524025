//! The audio callback of an effect: which channels are live, what is played
//! where an input is missing or the processor fails, and what is reported.
//!
//! Samples are bit patterns. A channel without a buffer is not connected.
use crate::samples::{
    all_finite, clean, cleaned, has_block, is_finite, Blocks, SILENCE,
};
use crate::model::opt_text;
use vstd::prelude::*;

verus! {

/// The most frames that a block may have.
pub const MAX_DSP_FRAMES: u64 = 16384;

/// The number of channels that a callback has room for.
pub const DSP_CHANNELS: usize = 2;

/// The left input is missing.
pub const DANGLING_FL: u32 = 1;

/// The right input is missing.
pub const DANGLING_FR: u32 = 2;

/// Whether the processor can be used for the block at hand.
#[derive(Clone, Copy, Debug, PartialEq, Eq, Structural)]
pub enum ProcessorAccess {
    Free,
    /// A control update holds it.
    Busy,
    /// A control update failed while it held it.
    Poisoned,
}

/// The state that a callback shares with the control side.
#[derive(Clone, Copy, Debug, PartialEq, Eq, Structural)]
pub struct EffectCallback {
    pub channels: usize,
    pub enabled: bool,
    /// The processor delays its input and has to run while it is bypassed.
    pub delayed: bool,
    pub processor_failed: bool,
    /// One bit for each channel whose output is live while its input is not.
    pub dangling_inputs: u32,
}

/// What a block needs.
#[derive(Debug, PartialEq, Eq)]
pub enum BlockPlan {
    /// Nothing is connected, or the block has no usable length.
    Skip,
    /// The outputs are written. The mask of live channels is for the
    /// processor, where it can be reached.
    Done(Option<u16>),
    /// The samples have to be processed.
    Process {
        mask: u16,
        bypass: bool,
        samples: Vec<u32>,
    },
}

/// The channel is part of the effect and its output is live while its input
/// is not.
pub open spec fn dangles(inputs: Seq<Option<Vec<u32>>>, outputs: Seq<Option<Vec<u32>>>, channels: usize, c: int) -> bool {
    c < channels && outputs[c] is Some && inputs[c] is None
}

/// The channel is part of the effect and live on both sides.
pub open spec fn live(inputs: Seq<Option<Vec<u32>>>, outputs: Seq<Option<Vec<u32>>>, channels: usize, c: int) -> bool {
    c < channels && outputs[c] is Some && inputs[c] is Some
}

/// A mask with one bit for each of two channels.
pub open spec fn mask_of(first: bool, second: bool) -> int {
    (if first {
        1int
    } else {
        0
    }) + (if second {
        2int
    } else {
        0
    })
}

/// The bit of a channel is set in a mask of two channels.
pub open spec fn marked(mask: int, c: int) -> bool {
    if c == 0 {
        mask == 1 || mask == 3
    } else {
        mask == 2 || mask == 3
    }
}

/// The sample of a channel: silence where it is missing or not finite.
pub open spec fn sample_of(block: Option<Vec<u32>>, frame: int) -> u32 {
    match block {
        Some(samples) => clean(samples@[frame]),
        None => SILENCE,
    }
}

/// Where a sample stands among interleaved ones.
pub open spec fn slot(frame: int, c: int, channels: usize) -> int {
    if channels == 1 {
        frame
    } else {
        2 * frame + c
    }
}

/// Both blocks have as many samples as there are frames, where they are.
pub open spec fn blocks_fit(blocks: Seq<Option<Vec<u32>>>, frames: nat) -> bool {
    blocks.len() == 2 && has_block(blocks[0], frames) && has_block(blocks[1], frames)
}

/// The live outputs hold the cleaned inputs, or silence where an input is
/// missing.
pub open spec fn passed_through(
    inputs: Seq<Option<Vec<u32>>>,
    before: Seq<Option<Vec<u32>>>,
    after: Seq<Option<Vec<u32>>>,
    frames: nat,
) -> bool {
    &&& blocks_fit(after, frames)
    &&& forall|c: int|
        0 <= c < 2 ==> ((#[trigger] after[c] is Some) == (before[c] is Some)) && forall|f: int|
            0 <= f < frames && after[c] is Some ==> after[c]->Some_0@[f] == sample_of(inputs[c], f)
}

fn read_sample(block: &Option<Vec<u32>>, frame: usize) -> (r: u32)
    requires
        block matches Some(samples) ==> frame < samples@.len(),
    ensures
        r == sample_of(*block, frame as int),
{
    match block {
        Some(samples) => cleaned(samples[frame]),
        None => SILENCE,
    }
}

fn pass_channel(input: &Option<Vec<u32>>, output: &Option<Vec<u32>>, frames: usize) -> (r: Option<
    Vec<u32>,
>)
    requires
        has_block(*input, frames as nat),
    ensures
        r is Some == output is Some,
        has_block(r, frames as nat),
        r matches Some(samples) ==> forall|f: int|
            0 <= f < frames ==> #[trigger] samples@[f] == sample_of(*input, f),
{
    if output.is_none() {
        return None;
    }
    let mut out: Vec<u32> = Vec::new();
    let mut f: usize = 0;
    while f < frames
        invariant
            f <= frames,
            has_block(*input, frames as nat),
            out@.len() == f,
            forall|j: int| 0 <= j < f ==> #[trigger] out@[j] == sample_of(*input, j),
        decreases frames - f,
    {
        out.push(read_sample(input, f));
        f = f + 1;
    }
    Some(out)
}

/// Copies the cleaned inputs to the live outputs.
pub fn copy_inputs_to_outputs(inputs: &Blocks, outputs: &mut Blocks, frames: usize)
    requires
        blocks_fit(inputs@, frames as nat),
    ensures
        passed_through(inputs@, old(outputs)@, final(outputs)@, frames as nat),
{
    let left = pass_channel(&inputs.left, &outputs.left, frames);
    let right = pass_channel(&inputs.right, &outputs.right, frames);
    outputs.left = left;
    outputs.right = right;
}

/// The cleaned inputs in interleaved order.
pub open spec fn interleaves(
    samples: Seq<u32>,
    inputs: Seq<Option<Vec<u32>>>,
    frames: nat,
    channels: usize,
) -> bool {
    &&& samples.len() == frames * channels
    &&& forall|f: int, c: int|
        0 <= f < frames && 0 <= c < channels ==> samples[#[trigger] slot(f, c, channels)]
            == sample_of(inputs[c], f)
}

fn interleave(inputs: &Blocks, frames: usize, channels: usize) -> (r: Vec<u32>)
    requires
        blocks_fit(inputs@, frames as nat),
        frames <= MAX_DSP_FRAMES,
        channels == 1 || channels == 2,
    ensures
        interleaves(r@, inputs@, frames as nat, channels),
{
    let mut out: Vec<u32> = Vec::new();
    let mut f: usize = 0;
    while f < frames
        invariant
            f <= frames,
            blocks_fit(inputs@, frames as nat),
            frames <= MAX_DSP_FRAMES,
            channels == 1 || channels == 2,
            out@.len() == slot(f as int, 0, channels),
            forall|g: int, c: int|
                0 <= g < f && 0 <= c < channels ==> out@[#[trigger] slot(g, c, channels)]
                    == sample_of(inputs@[c], g),
        decreases frames - f,
    {
        out.push(read_sample(&inputs.left, f));
        if channels == 2 {
            out.push(read_sample(&inputs.right, f));
        }
        f = f + 1;
    }
    assert(out@.len() == frames * channels) by (nonlinear_arith)
        requires
            channels == 1 || channels == 2,
            out@.len() == (if channels == 1 {
                frames as int
            } else {
                2 * frames
            }),
    ;
    out
}

/// One channel out of processed samples.
fn pick_channel(samples: &Vec<u32>, frames: usize, channels: usize, c: usize) -> (r: Vec<u32>)
    requires
        frames <= MAX_DSP_FRAMES,
        channels == 1 || channels == 2,
        c < channels,
        samples@.len() == slot(frames as int, 0, channels),
    ensures
        r@.len() == frames,
        forall|f: int|
            0 <= f < frames ==> #[trigger] r@[f] == samples@[slot(f, c as int, channels)],
{
    let mut out: Vec<u32> = Vec::new();
    let mut f: usize = 0;
    while f < frames
        invariant
            f <= frames,
            frames <= MAX_DSP_FRAMES,
            channels == 1 || channels == 2,
            c < channels,
            samples@.len() == slot(frames as int, 0, channels),
            out@.len() == f,
            forall|g: int|
                0 <= g < f ==> #[trigger] out@[g] == samples@[slot(g, c as int, channels)],
        decreases frames - f,
    {
        let at: usize = if channels == 1 {
            f
        } else {
            2 * f + c
        };
        out.push(samples[at]);
        f = f + 1;
    }
    out
}

fn silent_block(frames: usize) -> (r: Vec<u32>)
    ensures
        r@ == Seq::new(frames as nat, |i: int| SILENCE),
{
    let mut out: Vec<u32> = Vec::new();
    while out.len() < frames
        invariant
            out@.len() <= frames,
            out@ == Seq::new(out@.len(), |i: int| SILENCE),
        decreases frames - out.len(),
    {
        out.push(SILENCE);
    }
    out
}

/// What an output holds once processed samples were accepted.
pub open spec fn played(
    before: Seq<Option<Vec<u32>>>,
    after: Seq<Option<Vec<u32>>>,
    samples: Seq<u32>,
    dangling: int,
    frames: nat,
    channels: usize,
) -> bool {
    &&& blocks_fit(after, frames)
    &&& forall|c: int|
        0 <= c < 2 ==> ((#[trigger] after[c] is Some) == (before[c] is Some)) && (c >= channels
            ==> after[c] == before[c]) && forall|f: int|
            0 <= f < frames && c < channels && after[c] is Some ==> after[c]->Some_0@[f] == (
            if marked(dangling, c) {
                SILENCE
            } else {
                samples[slot(f, c, channels)]
            })
}

fn play_channel(
    output: Option<Vec<u32>>,
    samples: &Vec<u32>,
    silent: bool,
    frames: usize,
    channels: usize,
    c: usize,
) -> (r: Option<Vec<u32>>)
    requires
        has_block(output, frames as nat),
        frames <= MAX_DSP_FRAMES,
        channels == 1 || channels == 2,
        samples@.len() == slot(frames as int, 0, channels),
    ensures
        r is Some == output is Some,
        has_block(r, frames as nat),
        c >= channels ==> r == output,
        c < channels ==> (r matches Some(block) ==> forall|f: int|
            0 <= f < frames ==> #[trigger] block@[f] == (if silent {
                SILENCE
            } else {
                samples@[slot(f, c as int, channels)]
            })),
{
    if c >= channels {
        return output;
    }
    match output {
        None => None,
        Some(_) => if silent {
            Some(silent_block(frames))
        } else {
            Some(pick_channel(samples, frames, channels, c))
        },
    }
}

impl EffectCallback {
    pub open spec fn wf(&self) -> bool {
        (self.channels == 1 || self.channels == 2) && self.dangling_inputs <= 3
    }

    /// A callback for one or two channels.
    pub fn new_with_channels(channels: usize, enabled: bool, delayed: bool) -> (r: EffectCallback)
        ensures
            r.wf(),
            r == (EffectCallback {
                channels: if channels <= 1 {
                    1
                } else {
                    2
                },
                enabled,
                delayed,
                processor_failed: false,
                dangling_inputs: 0,
            }),
    {
        let width: usize = if channels <= 1 {
            1
        } else {
            DSP_CHANNELS
        };
        EffectCallback {
            channels: width,
            enabled,
            delayed,
            processor_failed: false,
            dangling_inputs: 0,
        }
    }

    /// How a callback and its outputs stand once a block was taken on, and what
    /// is planned for it.
    pub open spec fn begun(
        self,
        inputs: Blocks,
        before: Blocks,
        frames: u64,
        access: ProcessorAccess,
        after: Blocks,
        now: EffectCallback,
        plan: BlockPlan,
    ) -> bool {
        let dangling = mask_of(
            dangles(inputs@, before@, self.channels, 0),
            dangles(inputs@, before@, self.channels, 1),
        );
        let mask = mask_of(
            live(inputs@, before@, self.channels, 0),
            live(inputs@, before@, self.channels, 1),
        );
        if frames == 0 || frames > MAX_DSP_FRAMES {
            &&& plan is Skip
            &&& after == before
            &&& now == (EffectCallback { processor_failed: true, dangling_inputs: 0, ..self })
        } else if before@[0] is None && before@[1] is None {
            &&& plan is Skip
            &&& after == before
            &&& now == (EffectCallback { dangling_inputs: 0, ..self })
        } else {
            &&& passed_through(inputs@, before@, after@, frames as nat)
            &&& now == (EffectCallback {
                dangling_inputs: dangling as u32,
                processor_failed: self.processor_failed || (access is Poisoned && (self.enabled
                    || self.delayed)),
                ..self
            })
            &&& if access is Free && (self.enabled || self.delayed) {
                plan matches BlockPlan::Process { mask: m, bypass, samples } && m == mask && bypass
                    == !self.enabled && interleaves(
                    samples@,
                    inputs@,
                    frames as nat,
                    self.channels,
                )
            } else if access is Free {
                plan matches BlockPlan::Done(Some(m)) && m == mask
            } else {
                plan matches BlockPlan::Done(None)
            }
        }
    }

    /// How a callback and its outputs stand once the processor is done with a
    /// block.
    pub open spec fn finished(
        self,
        before: Blocks,
        frames: nat,
        processed: Option<Vec<u32>>,
        worker_failed: bool,
        after: Blocks,
        now: EffectCallback,
    ) -> bool {
        match processed {
            Some(samples) if (forall|i: int|
                0 <= i < samples@.len() ==> is_finite(#[trigger] samples@[i])) => {
                &&& played(
                    before@,
                    after@,
                    samples@,
                    self.dangling_inputs as int,
                    frames,
                    self.channels,
                )
                &&& now == (EffectCallback { processor_failed: worker_failed, ..self })
            },
            _ => {
                &&& after == before
                &&& now == (EffectCallback { processor_failed: true, ..self })
            },
        }
    }

    /// Takes on a block: notes which inputs are missing, writes the outputs
    /// that are played if nothing better comes of it, and hands out what the
    /// processor has to work on.
    pub fn begin_block(
        &mut self,
        inputs: &Blocks,
        outputs: &mut Blocks,
        frames: u64,
        access: ProcessorAccess,
    ) -> (r: BlockPlan)
        requires
            old(self).wf(),
            blocks_fit(inputs@, frames as nat),
            blocks_fit(old(outputs)@, frames as nat),
        ensures
            final(self).wf(),
            old(self).begun(
                *inputs,
                *old(outputs),
                frames,
                access,
                *final(outputs),
                *final(self),
                r,
            ),
    {
        if frames == 0 || frames > MAX_DSP_FRAMES {
            self.processor_failed = true;
            self.dangling_inputs = 0;
            return BlockPlan::Skip;
        }
        let count: usize = frames as usize;
        if outputs.left.is_none() && outputs.right.is_none() {
            self.dangling_inputs = 0;
            return BlockPlan::Skip;
        }
        let in_left = inputs.left.is_some();
        let in_right = inputs.right.is_some();
        let out_left = outputs.left.is_some();
        let out_right = outputs.right.is_some();
        let mut dangling: u32 = 0;
        let mut mask: u16 = 0;
        if out_left && !in_left {
            dangling = 1;
        }
        if out_left && in_left {
            mask = 1;
        }
        if self.channels == 2 {
            if out_right && !in_right {
                dangling = dangling + 2;
            }
            if out_right && in_right {
                mask = mask + 2;
            }
        }
        self.dangling_inputs = dangling;
        copy_inputs_to_outputs(inputs, outputs, count);
        let runs = self.enabled || self.delayed;
        match access {
            ProcessorAccess::Busy => BlockPlan::Done(None),
            ProcessorAccess::Poisoned => {
                if runs {
                    self.processor_failed = true;
                }
                BlockPlan::Done(None)
            },
            ProcessorAccess::Free => if runs {
                BlockPlan::Process {
                    mask,
                    bypass: !self.enabled,
                    samples: interleave(inputs, count, self.channels),
                }
            } else {
                BlockPlan::Done(Some(mask))
            },
        }
    }

    /// Takes on what the processor made. Where it failed, or made a sample
    /// that is not finite, the outputs stay as they were written before. A
    /// channel without an input stays silent whatever the processor made of
    /// it.
    pub fn end_block(
        &mut self,
        outputs: &mut Blocks,
        frames: usize,
        processed: Option<Vec<u32>>,
        worker_failed: bool,
    )
        requires
            old(self).wf(),
            frames <= MAX_DSP_FRAMES,
            blocks_fit(old(outputs)@, frames as nat),
            processed matches Some(samples) ==> samples@.len() == frames * old(self).channels,
        ensures
            final(self).wf(),
            old(self).finished(
                *old(outputs),
                frames as nat,
                processed,
                worker_failed,
                *final(outputs),
                *final(self),
            ),
    {
        let ghost was = outputs@;
        match processed {
            Some(samples) => {
                if !all_finite(&samples) {
                    self.processor_failed = true;
                    return ;
                }
                let channels = self.channels;
                assert(samples@.len() == slot(frames as int, 0, channels)) by (nonlinear_arith)
                    requires
                        channels == 1 || channels == 2,
                        samples@.len() == frames * channels,
                        slot(frames as int, 0, channels) == (if channels == 1 {
                            frames as int
                        } else {
                            2 * frames
                        }),
                ;
                let silent_left = self.dangling_inputs == 1 || self.dangling_inputs == 3;
                let silent_right = self.dangling_inputs == 2 || self.dangling_inputs == 3;
                let left = outputs.left.take();
                let right = outputs.right.take();
                outputs.left = play_channel(left, &samples, silent_left, frames, channels, 0);
                outputs.right = play_channel(right, &samples, silent_right, frames, channels, 1);
                self.processor_failed = worker_failed;
            },
            None => {
                self.processor_failed = true;
            },
        }
    }
}

/// What is shown for a mask of missing inputs. The mask plays no part in what
/// is heard.
pub open spec fn dangling_text(mask: u32) -> Option<Seq<char>> {
    if mask % 4 == 1 {
        Some("effect output is active while the FL input is disconnected"@)
    } else if mask % 4 == 2 {
        Some("effect output is active while the FR input is disconnected"@)
    } else if mask % 4 == 3 {
        Some("effect output is active while both inputs are disconnected"@)
    } else {
        None
    }
}

pub fn dangling_input_message(mask: u32) -> (r: Option<&'static str>)
    ensures
        match r {
            Some(text) => dangling_text(mask) == Some(text@),
            None => dangling_text(mask) is None,
        },
{
    let bits: u32 = mask % 4;
    if bits == DANGLING_FL {
        Some("effect output is active while the FL input is disconnected")
    } else if bits == DANGLING_FR {
        Some("effect output is active while the FR input is disconnected")
    } else if bits == 3 {
        Some("effect output is active while both inputs are disconnected")
    } else {
        None
    }
}

/// The error that is shown for an effect: its own, else that the processor
/// failed; a missing input is shown unless the latter is.
pub open spec fn shown_error(
    own: Option<Seq<char>>,
    processor_failed: bool,
    dangling: u32,
) -> Option<Seq<char>> {
    if processor_failed && own is None {
        Some("effect processor reported a realtime or worker failure"@)
    } else {
        match dangling_text(dangling) {
            Some(text) => Some(text),
            None => own,
        }
    }
}

pub fn visible_error(own: Option<String>, processor_failed: bool, dangling: u32) -> (r: Option<
    String,
>)
    ensures
        opt_text(r) == shown_error(opt_text(own), processor_failed, dangling),
{
    if processor_failed && own.is_none() {
        return Some("effect processor reported a realtime or worker failure".to_owned());
    }
    match dangling_input_message(dangling) {
        Some(text) => Some(text.to_owned()),
        None => own,
    }
}

/// A channel without an input is silent in every block that is taken on and,
/// where the plan asks for it, finished: whatever the processor made of it,
/// and also where it failed or could not be reached. Exactly the channels
/// whose output is live while their input is not are noted. A block of a length
/// that is not taken on leaves the outputs as they are.
pub proof fn law_missing_inputs_are_silent(
    was: EffectCallback,
    inputs: Blocks,
    before: Blocks,
    frames: u64,
    access: ProcessorAccess,
    between: Blocks,
    begun: EffectCallback,
    plan: BlockPlan,
    processed: Option<Vec<u32>>,
    worker_failed: bool,
    after: Blocks,
    ended: EffectCallback,
)
    requires
        was.wf(),
        was.begun(inputs, before, frames, access, between, begun, plan),
        if plan is Process {
            begun.finished(between, frames as nat, processed, worker_failed, after, ended)
        } else {
            after == between && ended == begun
        },
    ensures
        if 0 < frames <= MAX_DSP_FRAMES {
            &&& forall|c: int|
                0 <= c < 2 ==> (marked(ended.dangling_inputs as int, c) <==> #[trigger] dangles(
                    inputs@,
                    before@,
                    was.channels,
                    c,
                ))
            &&& forall|c: int|
                0 <= c < 2 && #[trigger] dangles(inputs@, before@, was.channels, c) ==> (after@[c]
                    matches Some(block) && block@ == Seq::new(frames as nat, |f: int| SILENCE))
        } else {
            after == before && ended == (EffectCallback {
                processor_failed: true,
                dangling_inputs: 0,
                ..was
            })
        },
{
    let d0 = dangles(inputs@, before@, was.channels, 0);
    let d1 = dangles(inputs@, before@, was.channels, 1);
    assert(mask_of(d0, d1) as u32 == mask_of(d0, d1));
    if 0 < frames <= MAX_DSP_FRAMES && !(before@[0] is None && before@[1] is None) {
        assert forall|c: int|
            0 <= c < 2 && #[trigger] dangles(inputs@, before@, was.channels, c) implies (after@[c]
            matches Some(block) && block@ == Seq::new(frames as nat, |f: int| SILENCE)) by {
            assert(between@[c] is Some == before@[c] is Some);
            assert(after@[c] is Some == between@[c] is Some);
            let block = after@[c]->Some_0;
            assert(has_block(after@[0], frames as nat));
            assert(has_block(after@[1], frames as nat));
            assert forall|f: int| 0 <= f < frames implies block@[f] == SILENCE by {
                if after == between {
                    assert(between@[c]->Some_0@[f] == sample_of(inputs@[c], f));
                } else {
                    assert(marked(begun.dangling_inputs as int, c));
                }
            }
            assert(block@ =~= Seq::new(frames as nat, |f: int| SILENCE));
        }
    }
}

/// What is played where nothing was processed is finite.
pub proof fn law_fallback_is_finite(
    inputs: Seq<Option<Vec<u32>>>,
    before: Seq<Option<Vec<u32>>>,
    after: Seq<Option<Vec<u32>>>,
    frames: nat,
    c: int,
    f: int,
)
    requires
        passed_through(inputs, before, after, frames),
        0 <= c < 2,
        0 <= f < frames,
    ensures
        after[c] matches Some(block) ==> is_finite(block@[f]),
{
    if after[c] is Some {
        let block = after[c]->Some_0;
        assert(block@[f] == sample_of(inputs[c], f));
    }
}

/// A mask marks exactly the channels that it was made of.
pub proof fn law_masks(first: bool, second: bool)
    ensures
        marked(mask_of(first, second), 0) == first,
        marked(mask_of(first, second), 1) == second,
        0 <= mask_of(first, second) <= 3,
{
}

/// A block goes through an effect that is switched off and has no delay just
/// as it came: each output that is there plays its input, frame for frame,
/// and the processor is not asked.
pub proof fn law_switched_off_effects_pass(
    was: EffectCallback,
    inputs: Blocks,
    before: Blocks,
    frames: u64,
    access: ProcessorAccess,
    after: Blocks,
    now: EffectCallback,
    plan: BlockPlan,
    c: int,
    f: int,
)
    requires
        was.begun(inputs, before, frames, access, after, now, plan),
        0 < frames <= MAX_DSP_FRAMES,
        0 <= c < 2,
        0 <= f < frames,
        before@[c] is Some,
    ensures
        !was.enabled && !was.delayed ==> !(plan is Process),
        after@[c] matches Some(block) && (match inputs@[c] {
            Some(samples) => is_finite(samples@[f]) ==> block@[f] == samples@[f],
            None => block@[f] == 0,
        }),
        now.enabled == was.enabled,
        now.channels == was.channels,
        was.enabled && access is Free ==> plan is Process,
{
    assert(passed_through(inputs@, before@, after@, frames as nat)) by {
        assert(before@[0] is Some || before@[1] is Some) by {
            assert(c == 0 || c == 1);
        }
    }
    assert(after@[c] is Some == before@[c] is Some);
    assert(after@[c]->Some_0@[f] == sample_of(inputs@[c], f));
}

/// The processor is given the frames of both channels by turns, or those of
/// the only channel in a row.
pub proof fn law_interleaving(
    samples: Seq<u32>,
    inputs: Seq<Option<Vec<u32>>>,
    frames: nat,
    channels: usize,
    f: int,
)
    requires
        interleaves(samples, inputs, frames, channels),
        channels == 1 || channels == 2,
        0 <= f < frames,
    ensures
        channels == 1 ==> samples.len() == frames && samples[f] == sample_of(inputs[0], f),
        channels == 2 ==> samples.len() == 2 * frames && samples[2 * f] == sample_of(inputs[0], f)
            && samples[2 * f + 1] == sample_of(inputs[1], f),
{
    assert(slot(f, 0, channels) == (if channels == 1 {
        f
    } else {
        2 * f
    }));
    if channels == 2 {
        assert(slot(f, 1, channels) == 2 * f + 1);
    }
    assert(frames * channels == (if channels == 1 {
        frames as int
    } else {
        2 * frames as int
    })) by (nonlinear_arith)
        requires
            channels == 1 || channels == 2,
    ;
}

/// What the processor gave back is played on the outputs that are there, but
/// for those whose input is missing, which are silent. What is not finite is
/// not played, and counts as a failure.
pub proof fn law_processed_blocks_play(
    was: EffectCallback,
    before: Blocks,
    frames: nat,
    samples: Vec<u32>,
    worker_failed: bool,
    after: Blocks,
    now: EffectCallback,
    c: int,
    f: int,
)
    requires
        was.finished(before, frames, Some(samples), worker_failed, after, now),
        0 <= c < was.channels <= 2,
        0 <= f < frames,
        before@[c] is Some,
    ensures
        (forall|i: int| 0 <= i < samples@.len() ==> is_finite(#[trigger] samples@[i])) ==> (
        after@[c] matches Some(block) && block@[f] == (if marked(was.dangling_inputs as int, c) {
            0u32
        } else if was.channels == 1 {
            samples@[f]
        } else {
            samples@[2 * f + c]
        })) && now.processor_failed == worker_failed,
        !(forall|i: int| 0 <= i < samples@.len() ==> is_finite(#[trigger] samples@[i])) ==> after
            == before && now.processor_failed,
{
}

/// An effect reports a failure of its processor, failing that an output
/// without its input, failing that its own error.
pub proof fn law_shown_errors(own: Option<Seq<char>>, failed: bool, first: bool, second: bool)
    ensures
        dangling_text(mask_of(first, second) as u32) is Some <==> first || second,
        shown_error(own, false, 0) == own,
        !failed && (first || second) ==> shown_error(own, failed, mask_of(first, second) as u32)
            == dangling_text(mask_of(first, second) as u32),
        failed && own is None ==> shown_error(own, failed, mask_of(first, second) as u32) is Some,
        own is Some ==> shown_error(own, failed, 0) == own,
{
}

} // verus!
