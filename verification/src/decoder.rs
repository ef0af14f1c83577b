//! The stateful stream decoder: turns an arbitrarily chunked byte stream into
//! discrete frames without loss, duplication or reordering. Bytes accumulate
//! in a per-direction buffer; every complete frame (4-byte big-endian length
//! field, then that many bytes) is drained from the front, and a trailing
//! incomplete frame waits for more data.

use vstd::prelude::*;
use crate::packet::{Direction, Packet};
use crate::wire::{be32_at, read_be32};

verus! {

/// The wire size of the frame at the front of `b`: its declared length plus
/// the four bytes of the length field itself.
pub open spec fn frame_size(b: Seq<u8>) -> int
    recommends
        b.len() >= 4,
{
    be32_at(b, 0) + 4
}

/// The buffer starts with a fully received frame.
pub open spec fn has_complete_frame(b: Seq<u8>) -> bool {
    b.len() >= 4 && frame_size(b) <= b.len()
}

/// The raw bytes of every complete frame at the front of `b`, in order.
pub open spec fn decode_frames(b: Seq<u8>) -> Seq<Seq<u8>>
    decreases b.len(),
{
    if has_complete_frame(b) {
        seq![b.take(frame_size(b))] + decode_frames(b.skip(frame_size(b)))
    } else {
        Seq::empty()
    }
}

/// What stays buffered after every complete frame has been drained from the
/// front of `b`.
pub open spec fn decode_rest(b: Seq<u8>) -> Seq<u8>
    decreases b.len(),
{
    if has_complete_frame(b) {
        decode_rest(b.skip(frame_size(b)))
    } else {
        b
    }
}

/// A decoded frame as `ingest` hands it out: the raw frame bytes, cursor at
/// the start, no name or header resolved yet, stamped with the direction.
pub open spec fn fresh_packet(p: Packet, bytes: Seq<u8>, direction: Direction) -> bool {
    &&& p@.bytes == bytes
    &&& p@.position == 0
    &&& p@.name is None
    &&& p@.header is None
    &&& p@.direction == direction
    &&& p.wf()
}

/// Per-direction frame reassembler. It owns its buffer exclusively; the two
/// directions of a relay never share one.
pub struct FrameDecoder {
    buffer: Vec<u8>,
    direction: Direction,
}

impl View for FrameDecoder {
    type V = Seq<u8>;

    /// The bytes received but not yet drained as complete frames.
    closed spec fn view(&self) -> Seq<u8> {
        self.buffer@
    }
}

impl FrameDecoder {
    /// The direction whose traffic this decoder observes.
    pub closed spec fn spec_direction(&self) -> Direction {
        self.direction
    }

    /// Creates an empty decoder for one traffic direction.
    pub fn new(direction: Direction) -> (d: FrameDecoder)
        ensures
            d@ == Seq::<u8>::empty(),
            d.spec_direction() == direction,
    {
        FrameDecoder { buffer: Vec::new(), direction }
    }

    /// Returns the direction this decoder was created for.
    pub fn direction(&self) -> (d: Direction)
        ensures
            d == self.spec_direction(),
    {
        self.direction
    }

    /// Appends `chunk` to the buffer and drains every complete frame from the
    /// front, in arrival order. The concatenation of the returned frames'
    /// bytes with the remaining buffer is exactly the old buffer followed by
    /// `chunk`: nothing is lost, duplicated or reordered.
    pub fn ingest(&mut self, chunk: &[u8]) -> (frames: Vec<Packet>)
        ensures
            frames@.map_values(|p: Packet| p@.bytes) == decode_frames(old(self)@ + chunk@),
            final (self)@ == decode_rest(old(self)@ + chunk@),
            final (self).spec_direction() == old(self).spec_direction(),
            forall|i: int|
                0 <= i < frames@.len() ==> fresh_packet(
                    #[trigger] frames@[i],
                    decode_frames(old(self)@ + chunk@)[i],
                    old(self).spec_direction(),
                ),
    {
        let ghost input: Seq<u8> = self.buffer@ + chunk@;
        let ghost dir = self.direction;
        self.buffer.extend_from_slice(chunk);
        assert(self.buffer@ =~= input);
        let mut frames: Vec<Packet> = Vec::new();
        loop
            invariant
                self.direction == dir,
                decode_frames(input) == frames@.map_values(|p: Packet| p@.bytes) + decode_frames(
                    self.buffer@,
                ),
                decode_rest(input) == decode_rest(self.buffer@),
                forall|i: int|
                    0 <= i < frames@.len() ==> fresh_packet(
                        #[trigger] frames@[i],
                        decode_frames(input)[i],
                        dir,
                    ),
            ensures
                !has_complete_frame(self.buffer@),
            decreases self.buffer@.len(),
        {
            let blen = self.buffer.len();
            if blen < 4 {
                break ;
            }
            let declared = read_be32(self.buffer.as_slice(), 0);
            if (declared as u64) + 4 > (blen as u64) {
                break ;
            }
            let size = (declared as usize) + 4;
            assert(has_complete_frame(self.buffer@) && frame_size(self.buffer@) == size);
            let frame_bytes = vstd::slice::slice_to_vec(
                vstd::slice::slice_subrange(self.buffer.as_slice(), 0, size),
            );
            let tail = self.buffer.split_off(size);
            let ghost before = self.buffer@;
            self.buffer = tail;
            let p = Packet::new(Some(frame_bytes), None, None, self.direction);
            proof {
                let fs = decode_frames(input);
                let old_map = frames@.map_values(|q: Packet| q@.bytes);
                assert(fs == old_map + (seq![p@.bytes] + decode_frames(self.buffer@)));
                assert(old_map + (seq![p@.bytes] + decode_frames(self.buffer@)) =~= (
                frames@.push(p)).map_values(|q: Packet| q@.bytes) + decode_frames(self.buffer@));
            }
            frames.push(p);
        }
        proof {
            assert(frames@.map_values(|p: Packet| p@.bytes) + decode_frames(self.buffer@)
                =~= frames@.map_values(|p: Packet| p@.bytes));
        }
        frames
    }
}

/// No byte is lost or reordered by decoding: the concatenation of every
/// drained frame's bytes, followed by what stays buffered, is exactly the
/// input, for every input.
pub proof fn lemma_decode_no_loss(b: Seq<u8>)
    ensures
        decode_frames(b).flatten() + decode_rest(b) == b,
    decreases b.len(),
{
    if has_complete_frame(b) {
        let fs = frame_size(b);
        lemma_decode_no_loss(b.skip(fs));
        let head = b.take(fs);
        let tail_frames = decode_frames(b.skip(fs));
        assert((seq![head] + tail_frames).drop_first() =~= tail_frames);
        assert(decode_frames(b).flatten() == head + tail_frames.flatten());
        assert(head + (tail_frames.flatten() + decode_rest(b.skip(fs))) =~= b);
        assert(decode_frames(b).flatten() + decode_rest(b) =~= head + (tail_frames.flatten()
            + decode_rest(b.skip(fs))));
    } else {
        assert(decode_frames(b).flatten() + decode_rest(b) =~= b);
    }
}

/// Every drained frame is exactly one complete frame on the wire: at least
/// the four length bytes long, and exactly as long as its length field
/// declares.
pub proof fn lemma_decode_frames_wf(b: Seq<u8>)
    ensures
        forall|i: int|
            0 <= i < decode_frames(b).len() ==> (#[trigger] decode_frames(b)[i]).len() >= 4
                && frame_size(decode_frames(b)[i]) == decode_frames(b)[i].len(),
    decreases b.len(),
{
    if has_complete_frame(b) {
        let fs = frame_size(b);
        let head = b.take(fs);
        lemma_decode_frames_wf(b.skip(fs));
        assert(4 <= fs <= b.len());
        assert(head.len() == fs);
        assert(head[0] == b[0] && head[1] == b[1] && head[2] == b[2] && head[3] == b[3]);
        assert(frame_size(head) == fs);
        assert(decode_frames(b) == seq![head] + decode_frames(b.skip(fs)));
        assert forall|i: int| 0 <= i < decode_frames(b).len() implies (#[trigger] decode_frames(
            b,
        )[i]).len() >= 4 && frame_size(decode_frames(b)[i]) == decode_frames(b)[i].len() by {
            if i == 0 {
                assert(decode_frames(b)[0] == head);
            } else {
                assert(decode_frames(b)[i] == decode_frames(b.skip(fs))[i - 1]);
            }
        }
    }
}

/// Nothing decodable stays behind: the retained buffer never starts with a
/// complete frame.
pub proof fn lemma_decode_rest_incomplete(b: Seq<u8>)
    ensures
        !has_complete_frame(decode_rest(b)),
    decreases b.len(),
{
    if has_complete_frame(b) {
        lemma_decode_rest_incomplete(b.skip(frame_size(b)));
    }
}

/// A complete frame at the front decodes first, whatever follows it: `c`
/// standing alone is exactly one frame, so `c + rest` decodes to `c` followed
/// by the decoding of `rest`.
pub proof fn lemma_decode_frame_prefix(c: Seq<u8>, rest: Seq<u8>)
    requires
        c.len() >= 4,
        frame_size(c) == c.len(),
    ensures
        decode_frames(c + rest) == seq![c] + decode_frames(rest),
        decode_rest(c + rest) == decode_rest(rest),
{
    let b = c + rest;
    assert(b[0] == c[0] && b[1] == c[1] && b[2] == c[2] && b[3] == c[3]);
    assert(frame_size(b) == frame_size(c));
    assert(has_complete_frame(b));
    assert(b.take(frame_size(b)) =~= c);
    assert(b.skip(frame_size(b)) =~= rest);
    assert(decode_frames(c + rest) =~= seq![c] + decode_frames(rest));
}

/// Two back-to-back complete frames in one buffer decode to exactly those
/// two frames, in order, with nothing retained.
pub proof fn lemma_decode_two_frames(first: Seq<u8>, second: Seq<u8>)
    requires
        first.len() >= 4,
        frame_size(first) == first.len(),
        second.len() >= 4,
        frame_size(second) == second.len(),
    ensures
        decode_frames(first + second) == seq![first, second],
        decode_rest(first + second) == Seq::<u8>::empty(),
{
    lemma_decode_frame_prefix(first, second);
    lemma_decode_frame_prefix(second, Seq::empty());
    assert(second + Seq::<u8>::empty() =~= second);
    assert(decode_frames(Seq::<u8>::empty()) =~= Seq::<Seq<u8>>::empty());
    assert(seq![first] + (seq![second] + Seq::<Seq<u8>>::empty()) =~= seq![first, second]);
    assert(decode_rest(Seq::<u8>::empty()) =~= Seq::<u8>::empty());
}

/// Every frame drained while ingesting chunk after chunk, starting from the
/// buffer state `buf`.
pub open spec fn trace_frames(buf: Seq<u8>, chunks: Seq<Seq<u8>>) -> Seq<Seq<u8>>
    decreases chunks.len(),
{
    if chunks.len() == 0 {
        Seq::empty()
    } else {
        decode_frames(buf + chunks[0]) + trace_frames(
            decode_rest(buf + chunks[0]),
            chunks.drop_first(),
        )
    }
}

/// The buffer state after ingesting chunk after chunk, starting from `buf`.
pub open spec fn trace_rest(buf: Seq<u8>, chunks: Seq<Seq<u8>>) -> Seq<u8>
    decreases chunks.len(),
{
    if chunks.len() == 0 {
        buf
    } else {
        trace_rest(decode_rest(buf + chunks[0]), chunks.drop_first())
    }
}

/// Decoding more bytes extends an earlier decoding: the frames of `b + c` are
/// the frames of `b` followed by whatever completes once the retained tail of
/// `b` is continued by `c`.
pub proof fn lemma_decode_extend(b: Seq<u8>, c: Seq<u8>)
    ensures
        decode_frames(b + c) == decode_frames(b) + decode_frames(decode_rest(b) + c),
        decode_rest(b + c) == decode_rest(decode_rest(b) + c),
    decreases b.len(),
{
    if has_complete_frame(b) {
        let fs = frame_size(b);
        lemma_decode_extend(b.skip(fs), c);
        let bc = b + c;
        assert(bc[0] == b[0] && bc[1] == b[1] && bc[2] == b[2] && bc[3] == b[3]);
        assert(frame_size(bc) == fs);
        assert(has_complete_frame(bc));
        assert(bc.take(fs) =~= b.take(fs));
        assert(bc.skip(fs) =~= b.skip(fs) + c);
        assert(decode_frames(b + c) =~= decode_frames(b) + decode_frames(decode_rest(b) + c));
    } else {
        assert(decode_rest(b) + c =~= b + c);
    }
}

/// The decoding is independent of how the stream is split into chunks: from
/// any buffer state that holds no complete frame, ingesting any list of
/// chunks drains exactly the frames of the concatenated bytes and retains
/// exactly its undecodable tail.
pub proof fn lemma_decode_chunking(buf: Seq<u8>, chunks: Seq<Seq<u8>>)
    requires
        !has_complete_frame(buf),
    ensures
        trace_frames(buf, chunks) == decode_frames(buf + chunks.flatten()),
        trace_rest(buf, chunks) == decode_rest(buf + chunks.flatten()),
    decreases chunks.len(),
{
    if chunks.len() == 0 {
        assert(chunks.flatten() =~= Seq::<u8>::empty());
        assert(buf + chunks.flatten() =~= buf);
    } else {
        let c0 = chunks[0];
        let rest_chunks = chunks.drop_first();
        let buf1 = decode_rest(buf + c0);
        lemma_decode_rest_incomplete(buf + c0);
        lemma_decode_chunking(buf1, rest_chunks);
        lemma_decode_extend(buf + c0, rest_chunks.flatten());
        assert(chunks.flatten() == c0 + rest_chunks.flatten());
        assert(buf + chunks.flatten() =~= (buf + c0) + rest_chunks.flatten());
    }
}

/// Round trip without loss, however the stream is chunked: from any buffer
/// state holding no complete frame (a fresh decoder, or any state a decoder
/// reaches), ingesting any list of chunks yields frames whose concatenated
/// bytes, followed by the retained tail, are exactly the buffered bytes
/// followed by the concatenated chunks — and both the frames and the tail
/// depend only on that concatenation, not on how it was split.
pub proof fn lemma_trace_round_trip(buf: Seq<u8>, chunks: Seq<Seq<u8>>)
    requires
        !has_complete_frame(buf),
    ensures
        trace_frames(buf, chunks).flatten() + trace_rest(buf, chunks) == buf + chunks.flatten(),
        trace_frames(buf, chunks) == decode_frames(buf + chunks.flatten()),
        trace_rest(buf, chunks) == decode_rest(buf + chunks.flatten()),
{
    lemma_decode_chunking(buf, chunks);
    lemma_decode_no_loss(buf + chunks.flatten());
}

/// Copies `original[from..to]`, zero-padding any part of that range that lies
/// beyond the end of `original` instead of failing: a malformed or truncated
/// capture yields a zero-padded frame rather than tearing the relay down.
pub fn copy_with_padding(original: &[u8], from: usize, to: usize) -> (r: Vec<u8>)
    requires
        from <= to,
        from <= original@.len(),
    ensures
        r@ == Seq::new(
            (to - from) as nat,
            |i: int|
                if from + i < original@.len() {
                    original@[from + i]
                } else {
                    0u8
                },
        ),
{
    let len = original.len();
    let stop = if to <= len {
        to
    } else {
        len
    };
    let mut r = vstd::slice::slice_to_vec(vstd::slice::slice_subrange(original, from, stop));
    let mut i: usize = stop;
    while i < to
        invariant
            from <= stop <= i <= to,
            to > len ==> stop == len,
            to <= len ==> stop == to,
            len == original@.len(),
            r@.len() == i - from,
            r@ == Seq::new(
                (i - from) as nat,
                |k: int|
                    if from + k < original@.len() {
                        original@[from + k]
                    } else {
                        0u8
                    },
            ),
        decreases to - i,
    {
        r.push(0);
        proof {
            assert(r@ =~= Seq::new(
                (i + 1 - from) as nat,
                |k: int|
                    if from + k < original@.len() {
                        original@[from + k]
                    } else {
                        0u8
                    },
            ));
        }
        i = i + 1;
    }
    proof {
        assert(r@ =~= Seq::new(
            (to - from) as nat,
            |k: int|
                if from + k < original@.len() {
                    original@[from + k]
                } else {
                    0u8
                },
        ));
    }
    r
}

} // verus!
