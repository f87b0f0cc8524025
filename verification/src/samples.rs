//! Sample values by their bit patterns. A sample is a 32-bit floating point
//! number, held here as the integer with the same bits: a sign bit, eight
//! bits of exponent and twenty-three of fraction. Values of one sign are
//! ordered as their patterns are.
use vstd::prelude::*;

verus! {

/// Zero, and silence.
pub const SILENCE: u32 = 0;

/// The sign bit.
pub const SIGN: u32 = 0x8000_0000;

/// Positive infinity: patterns above it, sign aside, are no number.
pub const INFINITE: u32 = 0x7F80_0000;

/// One: full scale, and unity gain.
pub const UNITY: u32 = 0x3F80_0000;

/// One and a half: the most that a volume goes up to.
pub const MAX_VOLUME: u32 = 0x3FC0_0000;

/// Two: the most that a gain goes up to.
pub const MAX_GAIN: u32 = 0x4000_0000;

/// The pattern without its sign.
pub open spec fn magnitude(bits: u32) -> u32 {
    if bits >= SIGN {
        (bits - SIGN) as u32
    } else {
        bits
    }
}

pub open spec fn is_nan(bits: u32) -> bool {
    magnitude(bits) > INFINITE
}

pub open spec fn is_finite(bits: u32) -> bool {
    magnitude(bits) < INFINITE
}

/// The value is below zero. Negative zero is not.
pub open spec fn below_zero(bits: u32) -> bool {
    bits > SIGN && !is_nan(bits)
}

/// A value held between zero and a positive limit. What is no number stays
/// what it is, and so does negative zero.
pub open spec fn held(bits: u32, limit: u32) -> u32 {
    if is_nan(bits) {
        bits
    } else if below_zero(bits) {
        SILENCE
    } else if bits < SIGN && bits > limit {
        limit
    } else {
        bits
    }
}

/// The value without its sign.
pub fn magnitude_of(bits: u32) -> (r: u32)
    ensures
        r == magnitude(bits),
{
    if bits >= SIGN {
        bits - SIGN
    } else {
        bits
    }
}

pub fn finite(bits: u32) -> (r: bool)
    ensures
        r == is_finite(bits),
{
    magnitude_of(bits) < INFINITE
}

/// Holds a value between zero and a positive limit.
pub fn hold(bits: u32, limit: u32) -> (r: u32)
    ensures
        r == held(bits, limit),
{
    let size = magnitude_of(bits);
    if size > INFINITE {
        bits
    } else if bits > SIGN {
        SILENCE
    } else if bits < SIGN && bits > limit {
        limit
    } else {
        bits
    }
}

/// Holds a gain within its range.
pub fn clamp_gain(gain: u32) -> (r: u32)
    ensures
        r == held(gain, MAX_GAIN),
{
    hold(gain, MAX_GAIN)
}

/// Holding a value is idempotent, keeps what is in range, and ends in range
/// unless the value is no number.
pub proof fn law_hold(bits: u32, limit: u32)
    requires
        limit <= INFINITE,
    ensures
        held(held(bits, limit), limit) == held(bits, limit),
        bits <= limit ==> held(bits, limit) == bits,
        !is_nan(bits) ==> held(bits, limit) <= limit || held(bits, limit) == SIGN,
{
}

/// A sample that may enter processing: what is not finite is silence.
pub open spec fn clean(bits: u32) -> u32 {
    if is_finite(bits) {
        bits
    } else {
        SILENCE
    }
}

pub fn cleaned(bits: u32) -> (r: u32)
    ensures
        r == clean(bits),
{
    if finite(bits) {
        bits
    } else {
        SILENCE
    }
}

/// Whether every sample is finite.
pub fn all_finite(samples: &Vec<u32>) -> (r: bool)
    ensures
        r == (forall|i: int| 0 <= i < samples@.len() ==> is_finite(#[trigger] samples@[i])),
{
    let mut i: usize = 0;
    while i < samples.len()
        invariant
            i <= samples.len(),
            forall|j: int| 0 <= j < i ==> is_finite(#[trigger] samples@[j]),
        decreases samples.len() - i,
    {
        if !finite(samples[i]) {
            assert(!is_finite(samples@[i as int]));
            return false;
        }
        i = i + 1;
    }
    true
}

/// The largest magnitude of a block. What is no number does not count.
pub open spec fn peak(samples: Seq<u32>) -> u32
    decreases samples.len(),
{
    if samples.len() == 0 {
        SILENCE
    } else {
        let before = peak(samples.drop_last());
        let here = magnitude(samples.last());
        if here > INFINITE || here <= before {
            before
        } else {
            here
        }
    }
}

/// Finds the largest magnitude of a block: it is that of one of the samples,
/// or silence where none is a number.
pub fn peak_level(samples: &Vec<u32>) -> (r: u32)
    ensures
        r == peak(samples@),
        forall|i: int|
            0 <= i < samples@.len() && !is_nan(#[trigger] samples@[i]) ==> magnitude(samples@[i])
                <= r,
        r == SILENCE || exists|i: int|
            0 <= i < samples@.len() && !is_nan(#[trigger] samples@[i]) && r == magnitude(
                samples@[i],
            ),
{
    let mut level: u32 = SILENCE;
    let mut i: usize = 0;
    while i < samples.len()
        invariant
            i <= samples.len(),
            level == peak(samples@.take(i as int)),
            forall|j: int|
                0 <= j < i && !is_nan(#[trigger] samples@[j]) ==> magnitude(samples@[j]) <= level,
            level == SILENCE || exists|j: int|
                0 <= j < i && !is_nan(#[trigger] samples@[j]) && level == magnitude(samples@[j]),
        decreases samples.len() - i,
    {
        proof {
            assert(samples@.take(i + 1).drop_last() =~= samples@.take(i as int));
        }
        let here = magnitude_of(samples[i]);
        if here <= INFINITE && here > level {
            level = here;
            assert(!is_nan(samples@[i as int]));
        }
        i = i + 1;
    }
    assert(samples@.take(samples@.len() as int) =~= samples@);
    level
}

/// The peak of a block is at least the magnitude of each of its samples, and
/// it is the magnitude of one of them unless it is silence.
pub proof fn law_peak_bounds(samples: Seq<u32>)
    ensures
        forall|i: int|
            0 <= i < samples.len() && !is_nan(#[trigger] samples[i]) ==> magnitude(samples[i])
                <= peak(samples),
        peak(samples) == SILENCE || exists|i: int|
            0 <= i < samples.len() && !is_nan(#[trigger] samples[i]) && peak(samples) == magnitude(
                samples[i],
            ),
    decreases samples.len(),
{
    if samples.len() > 0 {
        let rest = samples.drop_last();
        law_peak_bounds(rest);
        assert forall|i: int|
            0 <= i < samples.len() && !is_nan(#[trigger] samples[i]) implies magnitude(samples[i])
            <= peak(samples) by {
            if i < rest.len() {
                assert(rest[i] == samples[i]);
            }
        }
        if peak(samples) == peak(rest) && peak(rest) != SILENCE {
            let i = choose|i: int|
                0 <= i < rest.len() && !is_nan(#[trigger] rest[i]) && peak(rest) == magnitude(
                    rest[i],
                );
            assert(samples[i] == rest[i]);
        } else if peak(samples) != SILENCE {
            assert(!is_nan(samples[samples.len() - 1]));
        }
    }
}

/// One block for one of two channels; a channel that is not connected has
/// none.
pub open spec fn has_block(block: Option<Vec<u32>>, frames: nat) -> bool {
    block matches Some(samples) ==> samples@.len() == frames
}

/// The buffers of two channels.
#[derive(Debug, PartialEq, Eq)]
pub struct Blocks {
    pub left: Option<Vec<u32>>,
    pub right: Option<Vec<u32>>,
}

impl View for Blocks {
    type V = Seq<Option<Vec<u32>>>;

    open spec fn view(&self) -> Seq<Option<Vec<u32>>> {
        seq![self.left, self.right]
    }
}

/// Copies a mono block to every connected channel.
pub fn fan_out(mono: &Vec<u32>, outputs: &mut Blocks)
    ensures
        forall|c: int|
            0 <= c < 2 ==> match #[trigger] old(outputs)@[c] {
                Some(_) => final(outputs)@[c] matches Some(samples) && samples@ == mono@,
                None => final(outputs)@[c] is None,
            },
{
    if outputs.left.is_some() {
        outputs.left = Some(copied(mono));
    }
    if outputs.right.is_some() {
        outputs.right = Some(copied(mono));
    }
}

pub fn copied(samples: &Vec<u32>) -> (r: Vec<u32>)
    ensures
        r@ == samples@,
{
    let mut out: Vec<u32> = Vec::new();
    let mut i: usize = 0;
    while i < samples.len()
        invariant
            i <= samples.len(),
            out@ == samples@.take(i as int),
        decreases samples.len() - i,
    {
        out.push(samples[i]);
        assert(samples@.take(i + 1) =~= samples@.take(i as int).push(samples@[i as int]));
        i = i + 1;
    }
    assert(samples@.take(samples@.len() as int) =~= samples@);
    out
}

/// Silences what lies behind the samples that were available.
pub fn pad_silence(samples: &mut Vec<u32>, available: usize)
    ensures
        final(samples)@.len() == old(samples)@.len(),
        forall|i: int|
            0 <= i < final(samples)@.len() ==> #[trigger] final(samples)@[i] == (if i < available {
                old(samples)@[i]
            } else {
                SILENCE
            }),
{
    let mut i: usize = available;
    while i < samples.len()
        invariant
            available <= i,
            samples@.len() == old(samples)@.len(),
            forall|j: int|
                0 <= j < samples@.len() ==> #[trigger] samples@[j] == (if j < available || j >= i {
                    old(samples)@[j]
                } else {
                    SILENCE
                }),
        decreases samples.len() - i,
    {
        samples.set(i, SILENCE);
        i = i + 1;
    }
}

} // verus!
