//! The audio callback of the relay's devices: which blocks are taken on, and
//! what happens to the samples that were received. Samples are bit patterns
//! of 32-bit floating point numbers; gains are applied elsewhere.
use crate::audio_controls::{loudest_of, pick_louder};
use crate::model::{clone_opt, opt_text};
use crate::relay_playback::{
    LevelBits, RelayPlaybackRouter, RelayPlaybackShared, RelayPlaybackState, SharedChange,
};
use crate::samples::{
    fan_out, is_nan, magnitude, magnitude_of, Blocks, INFINITE, SIGN, SILENCE, UNITY,
};
use vstd::prelude::*;

verus! {

/// The devices that the relay publishes.
#[derive(Clone, Copy, Debug, PartialEq, Eq, Structural)]
pub enum RelayNodeKind {
    /// Plays what was received.
    Microphone,
    /// Takes what is to be sent.
    Speaker,
}

/// What a block needs.
#[derive(Clone, Copy, Debug, PartialEq, Eq, Structural)]
pub enum RelayBlock {
    /// The length cannot be used, or no channel is connected.
    Skip,
    /// Received samples have to be played.
    Play { frames: usize },
    /// The connected channels have to be mixed and sent.
    Capture { frames: usize },
}

/// Decides what a block needs. A block without a clock has no length.
pub fn plan_relay_block(
    kind: RelayNodeKind,
    frames: Option<u64>,
    limit: u32,
    left: bool,
    right: bool,
) -> (r: RelayBlock)
    ensures
        r == (match frames {
            Some(count) if 0 < count && count <= limit && (left || right) => match kind {
                RelayNodeKind::Microphone => RelayBlock::Play { frames: count as usize },
                RelayNodeKind::Speaker => RelayBlock::Capture { frames: count as usize },
            },
            _ => RelayBlock::Skip,
        }),
{
    match frames {
        None => RelayBlock::Skip,
        Some(count) => {
            if count == 0 || count > limit as u64 || (!left && !right) {
                return RelayBlock::Skip;
            }
            match kind {
                RelayNodeKind::Microphone => RelayBlock::Play { frames: count as usize },
                RelayNodeKind::Speaker => RelayBlock::Capture { frames: count as usize },
            }
        },
    }
}

/// A value held between minus one and one. What is no number stays what it
/// is.
pub open spec fn clipped(bits: u32) -> u32 {
    if is_nan(bits) || magnitude(bits) <= UNITY {
        bits
    } else if bits >= SIGN {
        (SIGN + UNITY) as u32
    } else {
        UNITY
    }
}

pub fn clip(bits: u32) -> (r: u32)
    ensures
        r == clipped(bits),
{
    let size: u32 = magnitude_of(bits);
    if size > INFINITE || size <= UNITY {
        bits
    } else if bits >= SIGN {
        SIGN + UNITY
    } else {
        UNITY
    }
}

/// Holds every sample within full scale.
pub fn clip_block(samples: &mut Vec<u32>)
    ensures
        final(samples)@.len() == old(samples)@.len(),
        forall|i: int|
            0 <= i < final(samples)@.len() ==> #[trigger] final(samples)@[i] == clipped(
                old(samples)@[i],
            ),
{
    let mut i: usize = 0;
    while i < samples.len()
        invariant
            i <= samples.len(),
            samples@.len() == old(samples)@.len(),
            forall|j: int|
                0 <= j < samples@.len() ==> #[trigger] samples@[j] == (if j < i {
                    clipped(old(samples)@[j])
                } else {
                    old(samples)@[j]
                }),
        decreases samples.len() - i,
    {
        let held: u32 = clip(samples[i]);
        samples.set(i, held);
        i = i + 1;
    }
}

/// Plays a block: what went through the gain stage, or what was received,
/// held within full scale, where there is none.
pub fn play_block(received: Vec<u32>, amplified: Option<Vec<u32>>, outputs: &mut Blocks)
    ensures
        forall|c: int|
            0 <= c < 2 ==> match #[trigger] old(outputs)@[c] {
                Some(_) => final(outputs)@[c] matches Some(samples) && (match amplified {
                    Some(amplified) => samples@ == amplified@,
                    None => samples@ == Seq::new(
                        received@.len(),
                        |i: int| clipped(received@[i]),
                    ),
                }),
                None => final(outputs)@[c] is None,
            },
{
    match amplified {
        Some(samples) => fan_out(&samples, outputs),
        None => {
            let mut samples = received;
            clip_block(&mut samples);
            assert(samples@ =~= Seq::new(received@.len(), |i: int| clipped(received@[i])));
            fan_out(&samples, outputs);
        },
    }
}

/// Clipping is idempotent, and what it leaves is within full scale unless it
/// is no number.
pub proof fn law_clip(bits: u32)
    ensures
        clipped(clipped(bits)) == clipped(bits),
        !is_nan(bits) ==> magnitude(clipped(bits)) <= UNITY,
{
}

/// The levels before and behind the gain stage.
#[derive(Clone, Copy, Debug, PartialEq, Eq, Structural)]
pub struct RelayMeterSnapshot {
    pub input_rms: u32,
    pub input_peak: u32,
    pub output_rms: u32,
    pub output_peak: u32,
}

impl RelayMeterSnapshot {
    /// The louder of the two peaks.
    pub fn peak(&self) -> (r: u32)
        ensures
            r == loudest_of(self.input_peak, self.output_peak),
    {
        pick_louder(self.input_peak, self.output_peak)
    }
}

pub open spec fn snapshot_of(input: LevelBits, output: LevelBits) -> RelayMeterSnapshot {
    RelayMeterSnapshot {
        input_rms: input.rms,
        input_peak: input.peak,
        output_rms: output.rms,
        output_peak: output.peak,
    }
}

impl RelayPlaybackShared {
    /// The levels as they are shown.
    pub fn snapshot(&self) -> (r: RelayMeterSnapshot)
        ensures
            r == snapshot_of(self.smoothed_input, self.smoothed_output),
    {
        RelayMeterSnapshot {
            input_rms: self.smoothed_input.rms,
            input_peak: self.smoothed_input.peak,
            output_rms: self.smoothed_output.rms,
            output_peak: self.smoothed_output.peak,
        }
    }

    /// The levels of the last block.
    pub fn instant_snapshot(&self) -> (r: RelayMeterSnapshot)
        ensures
            r == snapshot_of(self.input, self.output),
    {
        RelayMeterSnapshot {
            input_rms: self.input.rms,
            input_peak: self.input.peak,
            output_rms: self.output.rms,
            output_peak: self.output.peak,
        }
    }
}

/// The levels that were last noted on either side are the ones that are read,
/// whatever is done to the gain, the mute and the switch before, between and
/// after.
pub proof fn law_levels_are_those_last_noted(
    shared: RelayPlaybackShared,
    changes: Seq<SharedChange>,
    i: int,
    o: int,
    input: (LevelBits, LevelBits),
    output: (LevelBits, LevelBits),
)
    requires
        0 <= i < changes.len(),
        0 <= o < changes.len(),
        changes[i] == SharedChange::Input(input.0, input.1),
        changes[o] == SharedChange::Output(output.0, output.1),
        forall|j: int| i < j < changes.len() ==> !(#[trigger] changes[j] is Input),
        forall|j: int| o < j < changes.len() ==> !(#[trigger] changes[j] is Output),
    ensures
        ({
            let end = shared.after_all(changes);
            &&& snapshot_of(end.input, end.output) == (RelayMeterSnapshot {
                input_rms: input.0.rms,
                input_peak: input.0.peak,
                output_rms: output.0.rms,
                output_peak: output.0.peak,
            })
            &&& snapshot_of(end.smoothed_input, end.smoothed_output) == (RelayMeterSnapshot {
                input_rms: input.1.rms,
                input_peak: input.1.peak,
                output_rms: output.1.rms,
                output_peak: output.1.peak,
            })
        }),
{
    lemma_last_input(shared, changes, i, input);
    lemma_last_output(shared, changes, o, output);
}

proof fn lemma_last_input(
    shared: RelayPlaybackShared,
    changes: Seq<SharedChange>,
    i: int,
    input: (LevelBits, LevelBits),
)
    requires
        0 <= i < changes.len(),
        changes[i] == SharedChange::Input(input.0, input.1),
        forall|j: int| i < j < changes.len() ==> !(#[trigger] changes[j] is Input),
    ensures
        shared.after_all(changes).input == input.0,
        shared.after_all(changes).smoothed_input == input.1,
    decreases changes.len(),
{
    if i < changes.len() - 1 {
        let rest = changes.drop_last();
        assert forall|j: int| i < j < rest.len() implies !(#[trigger] rest[j] is Input) by {
            assert(rest[j] == changes[j]);
        }
        lemma_last_input(shared, rest, i, input);
        assert(!(changes[changes.len() - 1] is Input));
    }
}

proof fn lemma_last_output(
    shared: RelayPlaybackShared,
    changes: Seq<SharedChange>,
    o: int,
    output: (LevelBits, LevelBits),
)
    requires
        0 <= o < changes.len(),
        changes[o] == SharedChange::Output(output.0, output.1),
        forall|j: int| o < j < changes.len() ==> !(#[trigger] changes[j] is Output),
    ensures
        shared.after_all(changes).output == output.0,
        shared.after_all(changes).smoothed_output == output.1,
    decreases changes.len(),
{
    if o < changes.len() - 1 {
        let rest = changes.drop_last();
        assert forall|j: int| o < j < rest.len() implies !(#[trigger] rest[j] is Output) by {
            assert(rest[j] == changes[j]);
        }
        lemma_last_output(shared, rest, o, output);
        assert(!(changes[changes.len() - 1] is Output));
    }
}

/// What is shown of the playback route.
#[derive(Debug, PartialEq, Eq)]
pub struct RelayPlaybackStatus {
    pub state: RelayPlaybackState,
    pub sink_name: Option<String>,
    pub gain: u32,
    pub muted: bool,
    pub enabled: bool,
    pub meters: RelayMeterSnapshot,
}

impl Default for RelayPlaybackStatus {
    /// What is shown while the relay's devices do not exist.
    fn default() -> (r: RelayPlaybackStatus)
        ensures
            r == (RelayPlaybackStatus {
                state: RelayPlaybackState::Disabled,
                sink_name: None,
                gain: UNITY,
                muted: false,
                enabled: true,
                meters: RelayMeterSnapshot {
                    input_rms: SILENCE,
                    input_peak: SILENCE,
                    output_rms: SILENCE,
                    output_peak: SILENCE,
                },
            }),
    {
        RelayPlaybackStatus {
            state: RelayPlaybackState::Disabled,
            sink_name: None,
            gain: UNITY,
            muted: false,
            enabled: true,
            meters: RelayMeterSnapshot {
                input_rms: SILENCE,
                input_peak: SILENCE,
                output_rms: SILENCE,
                output_peak: SILENCE,
            },
        }
    }
}

/// What is shown of the playback route of a relay whose devices exist.
pub fn relay_playback_status(shared: &RelayPlaybackShared, router: &RelayPlaybackRouter) -> (r:
    RelayPlaybackStatus)
    ensures
        r.state@ == router@.state,
        opt_text(r.sink_name) == router@.current_sink_name,
        r.gain == shared.gain_bits,
        r.muted == shared.muted,
        r.enabled == shared.enabled,
        r.meters == snapshot_of(shared.smoothed_input, shared.smoothed_output),
{
    let state = match &router.state {
        RelayPlaybackState::Disabled => RelayPlaybackState::Disabled,
        RelayPlaybackState::WaitingForSink => RelayPlaybackState::WaitingForSink,
        RelayPlaybackState::Connected => RelayPlaybackState::Connected,
        RelayPlaybackState::Error(message) => RelayPlaybackState::Error(message.clone()),
    };
    RelayPlaybackStatus {
        state,
        sink_name: clone_opt(&router.current_sink_name),
        gain: shared.gain(),
        muted: shared.muted(),
        enabled: shared.enabled(),
        meters: shared.snapshot(),
    }
}

/// A sample between minus one and one stays; a louder one is brought to one
/// with its sign.
pub proof fn law_clipped_samples(bits: u32)
    ensures
        magnitude(bits) <= UNITY ==> clipped(bits) == bits,
        !is_nan(bits) && bits < SIGN && bits > UNITY ==> clipped(bits) == UNITY,
        !is_nan(bits) && bits >= SIGN && magnitude(bits) > UNITY ==> clipped(bits) == SIGN + UNITY,
        is_nan(bits) ==> clipped(bits) == bits,
{
}

} // verus!
