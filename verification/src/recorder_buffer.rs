//! Turning the bytes of a recording stream into writes of samples. Samples are
//! bit patterns of 32-bit floating point numbers, little-endian in the bytes.
use crate::samples::{clean, cleaned};
use vstd::prelude::*;

verus! {

/// One block of a buffer: its memory, if it is mapped, and which part of it
/// holds data.
#[derive(Debug, PartialEq, Eq)]
pub struct ByteBlock {
    pub offset: u32,
    pub size: u32,
    pub bytes: Option<Vec<u8>>,
}

/// The part of a block that holds data, as far as the memory goes.
pub open spec fn window(block: ByteBlock) -> Seq<u8> {
    match block.bytes {
        None => Seq::empty(),
        Some(bytes) => {
            let wanted = block.offset + block.size;
            let end = if wanted < bytes@.len() {
                wanted
            } else {
                bytes@.len() as int
            };
            if block.offset >= end {
                Seq::empty()
            } else {
                bytes@.subrange(block.offset as int, end)
            }
        },
    }
}

/// Four bytes, the lowest first.
pub open spec fn little_endian(a: u8, b: u8, c: u8, d: u8) -> u32 {
    (a + b * 0x100 + c * 0x1_0000 + d * 0x100_0000) as u32
}

/// The whole samples in some bytes; what is no number is silent.
pub open spec fn decoded(bytes: Seq<u8>) -> Seq<u32> {
    Seq::new(
        bytes.len() / 4,
        |i: int|
            clean(
                little_endian(
                    bytes[4 * i],
                    bytes[4 * i + 1],
                    bytes[4 * i + 2],
                    bytes[4 * i + 3],
                ),
            ),
    )
}

/// The samples of the first blocks.
pub open spec fn samples_of(blocks: Seq<ByteBlock>, n: int) -> Seq<u32>
    decreases n,
{
    if n <= 0 {
        Seq::empty()
    } else {
        samples_of(blocks, n - 1) + decoded(window(blocks[n - 1]))
    }
}

/// The samples of some writes, one after the other.
pub open spec fn joined(writes: Seq<Vec<u32>>) -> Seq<u32>
    decreases writes.len(),
{
    if writes.len() == 0 {
        Seq::empty()
    } else {
        joined(writes.drop_last()) + writes.last()@
    }
}

/// Every write is full but the last, and none is empty.
pub open spec fn well_filled(writes: Seq<Vec<u32>>, capacity: usize) -> bool {
    forall|i: int|
        0 <= i < writes.len() ==> {
            &&& 0 < (#[trigger] writes[i])@.len() <= capacity
            &&& i + 1 < writes.len() ==> writes[i]@.len() == capacity
        }
}

fn sample_at(bytes: &Vec<u8>, at: usize) -> (r: u32)
    requires
        at + 4 <= bytes@.len(),
    ensures
        r == clean(
            little_endian(
                bytes@[at as int],
                bytes@[at + 1],
                bytes@[at + 2],
                bytes@[at + 3],
            ),
        ),
{
    let length: usize = bytes.len();
    assert(at + 4 <= length);
    let a: u32 = bytes[at] as u32;
    let b: u32 = bytes[at + 1] as u32;
    let c: u32 = bytes[at + 2] as u32;
    let d: u32 = bytes[at + 3] as u32;
    cleaned(a + b * 0x100 + c * 0x1_0000 + d * 0x100_0000)
}

/// Samples on their way to a recorder: full writes, and what has gathered
/// since.
struct Gathering {
    writes: Vec<Vec<u32>>,
    scratch: Vec<u32>,
}

impl Gathering {
    spec fn all(&self) -> Seq<u32> {
        joined(self.writes@) + self.scratch@
    }

    spec fn wf(&self, capacity: usize) -> bool {
        &&& self.scratch@.len() <= capacity
        &&& forall|i: int|
            0 <= i < self.writes@.len() ==> (#[trigger] self.writes@[i])@.len() == capacity
    }

    fn add(&mut self, sample: u32, capacity: usize)
        requires
            capacity > 0,
            old(self).wf(capacity),
        ensures
            final(self).wf(capacity),
            final(self).all() == old(self).all().push(sample),
            final(self).scratch@.len() > 0,
    {
        let ghost before = self.all();
        let ghost writes = self.writes@;
        if self.scratch.len() == capacity {
            let mut full: Vec<u32> = Vec::new();
            std::mem::swap(&mut full, &mut self.scratch);
            self.writes.push(full);
            proof {
                assert(self.writes@.drop_last() =~= writes);
                assert(self.all() =~= before);
            }
        }
        let ghost here = self.all();
        self.scratch.push(sample);
        assert(self.all() =~= here.push(sample));
    }
}

/// Turns the blocks of a buffer into writes of at most `capacity` samples.
pub fn recorder_writes(blocks: &Vec<ByteBlock>, capacity: usize) -> (r: Vec<Vec<u32>>)
    requires
        capacity > 0,
    ensures
        joined(r@) == samples_of(blocks@, blocks@.len() as int),
        well_filled(r@, capacity),
{
    let mut gathering = Gathering { writes: Vec::new(), scratch: Vec::new() };
    assert(gathering.all() =~= Seq::<u32>::empty());
    let mut b: usize = 0;
    while b < blocks.len()
        invariant
            b <= blocks.len(),
            capacity > 0,
            gathering.wf(capacity),
            gathering.all() == samples_of(blocks@, b as int),
        decreases blocks.len() - b,
    {
        let block = &blocks[b];
        let ghost before = gathering.all();
        let ghost part = window(*block);
        match &block.bytes {
            None => {
                assert(decoded(part) =~= Seq::<u32>::empty());
                assert(before + decoded(part) =~= before);
            },
            Some(bytes) => {
                let offset: usize = block.offset as usize;
                let wanted: u64 = block.offset as u64 + block.size as u64;
                let end: usize = if wanted < bytes.len() as u64 {
                    wanted as usize
                } else {
                    bytes.len()
                };
                if offset < end {
                    let count: usize = (end - offset) / 4;
                    let mut i: usize = 0;
                    while i < count
                        invariant
                            i <= count,
                            capacity > 0,
                            offset < end <= bytes@.len(),
                            count == (end - offset) / 4,
                            part == bytes@.subrange(offset as int, end as int),
                            gathering.wf(capacity),
                            gathering.all() == before + decoded(part).take(i as int),
                        decreases count - i,
                    {
                        let sample: u32 = sample_at(bytes, offset + 4 * i);
                        assert(decoded(part)[i as int] == sample);
                        gathering.add(sample, capacity);
                        proof {
                            assert(decoded(part).take(i + 1) =~= decoded(part).take(
                                i as int,
                            ).push(sample));
                            assert(gathering.all() =~= before + decoded(part).take(i + 1));
                        }
                        i = i + 1;
                    }
                    assert(decoded(part).take(count as int) =~= decoded(part));
                } else {
                    assert(decoded(part) =~= Seq::<u32>::empty());
                    assert(before + decoded(part) =~= before);
                }
            },
        }
        b = b + 1;
    }
    let ghost all = gathering.all();
    let Gathering { mut writes, scratch } = gathering;
    let ghost full = writes@;
    if scratch.len() != 0 {
        writes.push(scratch);
        assert(writes@.drop_last() =~= full);
    } else {
        assert(all =~= joined(writes@));
    }
    writes
}

/// What a recording stream has met so far.
#[derive(Clone, Copy, Debug, PartialEq, Eq, Structural)]
pub struct RecorderIntake {
    /// Samples came in another format than 32-bit floating point numbers.
    pub unsupported_format: bool,
}

impl RecorderIntake {
    /// Takes on a buffer: gives out the writes of its samples. A buffer in
    /// another format is noted, and nothing of it is written.
    pub fn take_buffer(
        &mut self,
        is_float32: bool,
        blocks: &Vec<ByteBlock>,
        capacity: usize,
    ) -> (r: Vec<Vec<u32>>)
        requires
            capacity > 0,
        ensures
            final(self).unsupported_format == (old(self).unsupported_format || !is_float32),
            if is_float32 {
                joined(r@) == samples_of(blocks@, blocks@.len() as int) && well_filled(
                    r@,
                    capacity,
                )
            } else {
                r@.len() == 0
            },
    {
        if !is_float32 {
            self.unsupported_format = true;
            return Vec::new();
        }
        recorder_writes(blocks, capacity)
    }
}

/// Nothing is lost on the way to the recorder, and nothing is added: the
/// writes hold as many samples as the blocks hold whole ones.
pub proof fn law_no_sample_is_lost(blocks: Seq<ByteBlock>, n: int)
    requires
        0 < n <= blocks.len(),
    ensures
        samples_of(blocks, n).len() == samples_of(blocks, n - 1).len() + window(
            blocks[n - 1],
        ).len() / 4,
{
}

/// The window of a block is its bytes from its offset on, as many as its size
/// says and as there are.
pub proof fn law_windows(block: ByteBlock, i: int)
    ensures
        block.bytes is None ==> window(block).len() == 0,
        block.bytes matches Some(bytes) ==> {
            &&& block.offset + block.size <= bytes@.len() ==> window(block).len() == block.size
            &&& window(block).len() <= block.size
            &&& block.offset <= bytes@.len() && bytes@.len() <= block.offset + block.size
                ==> window(block).len() == bytes@.len() - block.offset
            &&& 0 <= i < window(block).len() ==> window(block)[i] == bytes@[block.offset + i]
        },
{
}

/// Each sample is four bytes, the least first; what is no finite number is
/// silent.
pub proof fn law_decoded_samples(bytes: Seq<u8>, i: int)
    requires
        0 <= i < bytes.len() / 4,
    ensures
        decoded(bytes).len() == bytes.len() / 4,
        ({
            let bits = bytes[4 * i] + bytes[4 * i + 1] * 0x100 + bytes[4 * i + 2] * 0x1_0000
                + bytes[4 * i + 3] * 0x100_0000;
            &&& crate::samples::is_finite(bits as u32) ==> decoded(bytes)[i] == bits
            &&& !crate::samples::is_finite(bits as u32) ==> decoded(bytes)[i] == 0
        }),
{
}

} // verus!
