//! Names and numbers of video filters. A filter's node and links exist only in
//! the graph that is shown; their numbers are taken from a range of their own.
use crate::ids::{
    decode_backend_local_id, decode_backend_namespace, graph_id, local_part, namespace_of,
    BackendNamespace,
};
use crate::snapshot::gid;
use crate::text::{concat2, concat3};
use vstd::prelude::*;
use vstd::utf8::encode_utf8;

verus! {

/// The first local number of video objects.
pub const VIDEO_SYNTHETIC_BASE: u64 = 0xF000_0000;

/// How many numbers there are for video objects.
pub const VIDEO_SYNTHETIC_SPAN: u64 = 0x1000_0000;

/// What the names of helper streams begin with.
pub const VIDEO_STREAM_PREFIX: &'static str = "qpwgraph-video-stream-";

/// The name of the stream that looks at a screen capture.
pub const SCREENCAST_PREVIEW_STREAM: &'static str = "qpwgraph-video-preview";

/// The number is one of a video object.
pub open spec fn is_synthetic(id: u64) -> bool {
    namespace_of(id) == Some(BackendNamespace::PipeWire) && local_part(id) >= VIDEO_SYNTHETIC_BASE
}

pub fn is_video_synthetic_id(id: u64) -> (r: bool)
    ensures
        r == is_synthetic(id),
{
    match decode_backend_namespace(id) {
        Some(BackendNamespace::PipeWire) => decode_backend_local_id(id) >= VIDEO_SYNTHETIC_BASE,
        _ => false,
    }
}

/// The number of the video object that is counted by `sequence`.
pub open spec fn video_id(sequence: u64) -> u64 {
    gid((VIDEO_SYNTHETIC_BASE + sequence % VIDEO_SYNTHETIC_SPAN) as u64)
}

/// Counts video objects.
#[derive(Clone, Copy, Debug, PartialEq, Eq, Structural)]
pub struct VideoIds {
    pub sequence: u64,
}

/// The next count.
pub open spec fn following(sequence: u64) -> u64 {
    if sequence == u64::MAX {
        0
    } else {
        (sequence + 1) as u64
    }
}

impl VideoIds {
    pub fn new() -> (r: VideoIds)
        ensures
            r.sequence == 0,
    {
        VideoIds { sequence: 0 }
    }

    /// Hands out the next number.
    pub fn alloc_video_id(&mut self) -> (r: u64)
        ensures
            r == video_id(old(self).sequence),
            final(self).sequence == following(old(self).sequence),
            is_synthetic(r),
    {
        let local: u64 = VIDEO_SYNTHETIC_BASE + self.sequence % VIDEO_SYNTHETIC_SPAN;
        self.sequence = self.sequence.wrapping_add(1);
        graph_id(local)
    }
}

/// Numbers are handed out once, until the range is used up.
pub proof fn law_video_ids_differ(a: u64, b: u64)
    requires
        a < b,
        b - a < VIDEO_SYNTHETIC_SPAN,
    ensures
        video_id(a) != video_id(b),
        is_synthetic(video_id(a)),
{
}

/// A step of the hash: mix in a byte, then multiply.
pub open spec fn hash_step(hash: u64, byte: u8) -> u64 {
    (((hash ^ (byte as u64)) * 0x100000001b3) % 0x1_0000_0000_0000_0000) as u64
}

/// The hash of the first bytes.
pub open spec fn hash_of(bytes: Seq<u8>, n: int) -> u64
    decreases n,
{
    if n <= 0 {
        0xcbf29ce484222325
    } else {
        hash_step(hash_of(bytes, n - 1), bytes[n - 1])
    }
}

/// A stable serial for a filter's node: the 64-bit FNV-1a hash of its name.
pub fn video_serial(instance_id: &str) -> (r: u64)
    ensures
        r == hash_of(
            encode_utf8(instance_id@),
            encode_utf8(instance_id@).len() as int,
        ),
{
    let bytes = instance_id.as_bytes();
    let mut hash: u64 = 0xcbf29ce484222325;
    let mut i: usize = 0;
    while i < bytes.len()
        invariant
            i <= bytes.len(),
            bytes@ == encode_utf8(instance_id@),
            hash == hash_of(bytes@, i as int),
        decreases bytes.len() - i,
    {
        hash = hash ^ (bytes[i] as u64);
        hash = hash.wrapping_mul(0x100000001b3);
        i = i + 1;
    }
    hash
}

/// The name of a filter's node.
pub open spec fn node_name_for(filter_id: Seq<char>, instance_id: Seq<char>) -> Seq<char> {
    "qpwgraph-video-"@ + filter_id + "-"@ + instance_id
}

pub fn video_node_name(filter_id: &str, instance_id: &str) -> (r: String)
    ensures
        r@ == node_name_for(filter_id@, instance_id@),
{
    concat2(concat3("qpwgraph-video-", filter_id, "-").as_str(), instance_id)
}

/// The name of the stream that brings frames to a filter.
pub open spec fn capture_name(instance_id: Seq<char>) -> Seq<char> {
    VIDEO_STREAM_PREFIX@ + "in-"@ + instance_id
}

pub fn video_capture_stream_name(instance_id: &str) -> (r: String)
    ensures
        r@ == capture_name(instance_id@),
{
    concat3(VIDEO_STREAM_PREFIX, "in-", instance_id)
}

/// The name of the stream that gives out a filter's frames.
pub open spec fn output_name(instance_id: Seq<char>) -> Seq<char> {
    VIDEO_STREAM_PREFIX@ + "out-"@ + instance_id
}

pub fn video_output_stream_name(instance_id: &str) -> (r: String)
    ensures
        r@ == output_name(instance_id@),
{
    concat3(VIDEO_STREAM_PREFIX, "out-", instance_id)
}

/// Different filters have different streams, and a filter's two streams are
/// told apart.
pub proof fn law_streams_are_told_apart(a: Seq<char>, b: Seq<char>)
    ensures
        capture_name(a) == capture_name(b) ==> a == b,
        output_name(a) == output_name(b) ==> a == b,
        capture_name(a) != output_name(b),
{
    reveal_strlit("in-");
    reveal_strlit("out-");
    let n = VIDEO_STREAM_PREFIX@.len() as int;
    if capture_name(a) == capture_name(b) {
        assert(capture_name(a).skip(n + 3) =~= a);
        assert(capture_name(b).skip(n + 3) =~= b);
    }
    if output_name(a) == output_name(b) {
        assert(output_name(a).skip(n + 4) =~= a);
        assert(output_name(b).skip(n + 4) =~= b);
    }
    assert(capture_name(a)[n] == 'i');
    assert(output_name(b)[n] == 'o');
}

/// The number after one is the next; after the last comes the first.
pub proof fn law_following(sequence: u64)
    ensures
        sequence < u64::MAX ==> following(sequence) == sequence + 1,
        following(u64::MAX) == 0,
{
}

/// The names of filters and their streams hold what they are named after.
pub proof fn law_names_of_filters(filter: Seq<char>, a: Seq<char>, b: Seq<char>)
    ensures
        node_name_for(filter, a) == node_name_for(filter, b) ==> a == b,
        capture_name(a) == "qpwgraph-video-stream-"@ + "in-"@ + a,
        output_name(a) == "qpwgraph-video-stream-"@ + "out-"@ + a,
        node_name_for(filter, a) == "qpwgraph-video-"@ + filter + "-"@ + a,
{
    let head = "qpwgraph-video-"@ + filter + "-"@;
    if head + a == head + b {
        assert((head + a).skip(head.len() as int) =~= a);
        assert((head + b).skip(head.len() as int) =~= b);
    }
}

/// The serial of a filter is the 64-bit hash of its name: each byte is mixed in
/// and spread, beginning at the offset basis.
pub proof fn law_serials(bytes: Seq<u8>, byte: u8)
    ensures
        hash_of(Seq::<u8>::empty(), 0) == 0xcbf29ce484222325u64,
        hash_of(bytes.push(byte), bytes.len() as int + 1) == ((hash_of(bytes, bytes.len() as int) ^ (
        byte as u64)) * 0x100000001b3) % 0x1_0000_0000_0000_0000,
{
    lemma_hash_prefix(bytes, byte, bytes.len() as int);
}

proof fn lemma_hash_prefix(bytes: Seq<u8>, byte: u8, n: int)
    requires
        0 <= n <= bytes.len(),
    ensures
        hash_of(bytes.push(byte), n) == hash_of(bytes, n),
    decreases n,
{
    if n > 0 {
        lemma_hash_prefix(bytes, byte, n - 1);
    }
}

} // verus!
