//! One forwarder per traffic direction: the bytes read from the source are
//! handed back byte-for-byte for the destination, while a copy feeds the
//! decode/name/debug/log observation path. Observation can never change what
//! is forwarded: the passthrough bytes are exactly the input bytes.

use vstd::prelude::*;
use crate::catalog::{spec_lookup, PacketCatalog};
use crate::debug_flag::{toggle, DebugController};
use crate::decoder::{
    decode_frames, decode_rest, fresh_packet, lemma_decode_frames_wf, FrameDecoder,
};
use crate::logger::{frame_line_spec, ConsoleLogger};
use crate::packet::{header_field, payload_of, Direction, Packet};

verus! {

/// The debug flag after the frames are observed in order.
pub open spec fn fold_toggle(flag: bool, frames: Seq<Seq<u8>>) -> bool
    decreases frames.len(),
{
    if frames.len() == 0 {
        flag
    } else {
        fold_toggle(
            toggle(flag, header_field(frames[0]), payload_of(frames[0])),
            frames.drop_first(),
        )
    }
}

/// Unrolls `fold_toggle` at the back of a prefix: observing one more frame
/// applies one more toggle.
proof fn lemma_fold_toggle_take_step(flag: bool, frames: Seq<Seq<u8>>, j: int)
    requires
        0 <= j < frames.len(),
    ensures
        fold_toggle(flag, frames.take(j + 1)) == toggle(
            fold_toggle(flag, frames.take(j)),
            header_field(frames[j]),
            payload_of(frames[j]),
        ),
    decreases j,
{
    if j == 0 {
        assert(frames.take(1) =~= seq![frames[0]]);
        assert(frames.take(1).drop_first() =~= Seq::<Seq<u8>>::empty());
        assert(frames.take(0) =~= Seq::<Seq<u8>>::empty());
        assert(frames.take(1)[0] == frames[0]);
        assert(fold_toggle(flag, frames.take(0)) == flag);
        assert(fold_toggle(flag, frames.take(1)) == fold_toggle(
            toggle(flag, header_field(frames[0]), payload_of(frames[0])),
            frames.take(1).drop_first(),
        ));
    } else {
        let flag1 = toggle(flag, header_field(frames[0]), payload_of(frames[0]));
        lemma_fold_toggle_take_step(flag1, frames.drop_first(), j - 1);
        assert(frames.take(j + 1).drop_first() =~= frames.drop_first().take(j));
        assert(frames.take(j).drop_first() =~= frames.drop_first().take(j - 1));
        assert(frames.take(j + 1)[0] == frames[0]);
        assert(frames.take(j)[0] == frames[0]);
        assert(frames.drop_first()[j - 1] == frames[j]);
        assert(fold_toggle(flag, frames.take(j + 1)) == fold_toggle(
            flag1,
            frames.drop_first().take(j),
        ));
        assert(fold_toggle(flag, frames.take(j)) == fold_toggle(
            flag1,
            frames.drop_first().take(j - 1),
        ));
    }
}

/// A frame after the observation path is done with it: header read out of the
/// raw bytes, name resolved against the catalog, cursor past the payload.
pub open spec fn processed_packet(
    p: Packet,
    f: Seq<u8>,
    catalog: Seq<(u16, Seq<char>)>,
    dir: Direction,
) -> bool {
    &&& p@.bytes == f
    &&& p@.header == Some(header_field(f))
    &&& p@.name == spec_lookup(catalog, header_field(f))
    &&& p@.direction == dir
    &&& p@.position == if f.len() >= 6 {
        f.len() as int
    } else {
        6
    }
    &&& p.wf()
}

/// What one read hands back: the bytes to forward unmodified, the frames
/// completed by this read, and their log lines.
pub struct ForwardOutput {
    pub passthrough: Vec<u8>,
    pub packets: Vec<Packet>,
    pub lines: Vec<String>,
}

/// What one read from the source socket reported.
#[derive(Debug, PartialEq, Eq, Structural, Clone, Copy)]
pub enum ReadEvent {
    /// The read returned this many bytes, more than zero.
    Bytes(usize),
    /// The read returned zero bytes: the peer closed cleanly.
    EndOfStream,
    /// The read failed.
    ReadError,
}

/// What the forwarding loop does next.
#[derive(Debug, PartialEq, Eq, Structural, Clone, Copy)]
pub enum ReadDecision {
    /// Forward the bytes, then observe them.
    Deliver,
    /// End this direction: clean EOF.
    EndClean,
    /// End this direction and report the error.
    EndWithError,
}

/// The loop policy of a forwarder: data is delivered, EOF ends the direction
/// cleanly, a read error ends it and is reported. A direction never spins on
/// a dead source.
pub open spec fn spec_read_decision(event: ReadEvent) -> ReadDecision {
    match event {
        ReadEvent::Bytes(_) => ReadDecision::Deliver,
        ReadEvent::EndOfStream => ReadDecision::EndClean,
        ReadEvent::ReadError => ReadDecision::EndWithError,
    }
}

/// Decides what the forwarding loop does with one read result.
pub fn read_decision(event: ReadEvent) -> (d: ReadDecision)
    ensures
        d == spec_read_decision(event),
{
    match event {
        ReadEvent::Bytes(_) => ReadDecision::Deliver,
        ReadEvent::EndOfStream => ReadDecision::EndClean,
        ReadEvent::ReadError => ReadDecision::EndWithError,
    }
}

/// The observation side of one traffic direction. It owns that direction's
/// decoder; the catalog and the debug flag are shared and injected by the
/// caller.
pub struct Forwarder {
    decoder: FrameDecoder,
}

impl Forwarder {
    /// The bytes received but not yet drained as complete frames.
    pub closed spec fn buffered(&self) -> Seq<u8> {
        self.decoder@
    }

    /// The direction whose traffic this forwarder observes.
    pub closed spec fn spec_direction(&self) -> Direction {
        self.decoder.spec_direction()
    }

    /// Creates a forwarder with an empty decode buffer.
    pub fn new(direction: Direction) -> (f: Forwarder)
        ensures
            f.buffered() == Seq::<u8>::empty(),
            f.spec_direction() == direction,
    {
        Forwarder { decoder: FrameDecoder::new(direction) }
    }

    /// Returns the direction this forwarder was created for.
    pub fn direction(&self) -> (d: Direction)
        ensures
            d == self.spec_direction(),
    {
        self.decoder.direction()
    }

    /// Handles one non-empty read: the returned passthrough is exactly the
    /// input, to be written to the destination before anything else; the
    /// returned frames are every frame the read completed, each with its
    /// header, catalog name and log line, and the debug flag is updated by
    /// each frame in order, each log line rendered under the flag as of its
    /// own frame.
    pub fn on_data(&mut self, data: &[u8], catalog: &PacketCatalog, debug: &mut DebugController)
        -> (out: ForwardOutput)
        ensures
            out.passthrough@ == data@,
            final (self).buffered() == decode_rest(old(self).buffered() + data@),
            final (self).spec_direction() == old(self).spec_direction(),
            ({
                let frames = decode_frames(old(self).buffered() + data@);
                &&& out.packets@.len() == frames.len()
                &&& forall|i: int|
                    0 <= i < frames.len() ==> processed_packet(
                        #[trigger] out.packets@[i],
                        frames[i],
                        catalog@,
                        old(self).spec_direction(),
                    )
                &&& final (debug).spec_enabled() == fold_toggle(old(debug).spec_enabled(), frames)
                &&& out.lines@.len() == frames.len()
                &&& forall|i: int|
                    0 <= i < frames.len() ==> (#[trigger] out.lines@[i])@ == frame_line_spec(
                        out.packets@[i]@,
                        fold_toggle(old(debug).spec_enabled(), frames.take(i + 1)),
                    )
            }),
    {
        let ghost frames_spec = decode_frames(self.decoder@ + data@);
        let ghost dir = self.decoder.spec_direction();
        let ghost flag0 = debug.spec_enabled();
        proof {
            lemma_decode_frames_wf(self.decoder@ + data@);
        }
        let passthrough = vstd::slice::slice_to_vec(data);
        let mut packets = self.decoder.ingest(data);
        let mut out_packets: Vec<Packet> = Vec::new();
        let mut lines: Vec<String> = Vec::new();
        proof {
            assert(frames_spec.take(0) =~= Seq::<Seq<u8>>::empty());
        }
        while packets.len() > 0
            invariant
                out_packets@.len() + packets@.len() == frames_spec.len(),
                forall|k: int|
                    0 <= k < packets@.len() ==> fresh_packet(
                        #[trigger] packets@[k],
                        frames_spec[out_packets@.len() + k],
                        dir,
                    ),
                forall|k: int|
                    0 <= k < frames_spec.len() ==> (#[trigger] frames_spec[k]).len() >= 4,
                forall|k: int|
                    0 <= k < out_packets@.len() ==> processed_packet(
                        #[trigger] out_packets@[k],
                        frames_spec[k],
                        catalog@,
                        dir,
                    ),
                debug.spec_enabled() == fold_toggle(flag0, frames_spec.take(out_packets@.len() as int)),
                lines@.len() == out_packets@.len(),
                forall|k: int|
                    0 <= k < lines@.len() ==> (#[trigger] lines@[k])@ == frame_line_spec(
                        out_packets@[k]@,
                        fold_toggle(flag0, frames_spec.take(k + 1)),
                    ),
            decreases packets@.len(),
        {
            let ghost j = out_packets@.len() as int;
            let mut p = packets.remove(0);
            assert(fresh_packet(p, frames_spec[j], dir));
            let h = p.get_header();
            p.header = Some(h);
            let name = catalog.lookup(h);
            p.name = name;
            let body = p.get_body();
            debug.observe(h, body.as_slice());
            proof {
                lemma_fold_toggle_take_step(flag0, frames_spec, j);
            }
            let line = ConsoleLogger::frame_line(&p, debug.is_enabled());
            lines.push(line);
            out_packets.push(p);
        }
        proof {
            assert(frames_spec.take(frames_spec.len() as int) =~= frames_spec);
        }
        ForwardOutput { passthrough, packets: out_packets, lines }
    }
}

/// The two forwarders of one accepted connection, one per direction. The
/// caller runs them concurrently and tears both down as soon as either
/// direction ends (eager teardown: the still-open half is abandoned rather
/// than drained).
pub struct DuplexRelay {
    pub outgoing: Forwarder,
    pub incoming: Forwarder,
}

impl DuplexRelay {
    /// Creates the forwarder pair for a fresh connection: client-to-server
    /// outgoing, server-to-client incoming, both with empty buffers. The
    /// directions never share a decode buffer.
    pub fn new() -> (r: DuplexRelay)
        ensures
            r.outgoing.spec_direction() == Direction::Outgoing,
            r.incoming.spec_direction() == Direction::Incoming,
            r.outgoing.buffered() == Seq::<u8>::empty(),
            r.incoming.buffered() == Seq::<u8>::empty(),
    {
        DuplexRelay {
            outgoing: Forwarder::new(Direction::Outgoing),
            incoming: Forwarder::new(Direction::Incoming),
        }
    }
}

} // verus!
