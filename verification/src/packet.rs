//! The canonical protocol frame: 4-byte big-endian length, 2-byte big-endian
//! header id, payload. A `Packet` carries the raw frame bytes together with a
//! read cursor and the diagnostic name resolved from the catalog.

use vstd::prelude::*;
use crate::text::{dec_chars, push_char, push_decimal};
use crate::wire::{be16_at, be32_at, read_be16, read_be32};

verus! {

/// Traffic direction relative to the game client.
#[derive(Clone, Copy, PartialEq, Eq, Structural, Debug)]
pub enum Direction {
    /// Server to client.
    Incoming,
    /// Client to server.
    Outgoing,
}

/// Abstract value of a `Packet`.
pub struct PacketView {
    pub bytes: Seq<u8>,
    pub position: int,
    pub name: Option<Seq<char>>,
    pub header: Option<u16>,
    pub direction: Direction,
}

/// The header id field of a raw frame: the big-endian 16-bit value at offset
/// 4. When the frame ends inside the header field, the missing tail counts
/// as zero bytes (the decoder's padding rule), so a five-byte frame reads
/// its single header byte as the high byte and a four-byte frame reads 0.
pub open spec fn header_field(bytes: Seq<u8>) -> u16 {
    if bytes.len() >= 6 {
        be16_at(bytes, 4) as u16
    } else if bytes.len() == 5 {
        (bytes[4] * 0x100) as u16
    } else {
        0
    }
}

/// The payload of a raw frame: everything after the 6 leading bytes, empty
/// when the frame is shorter than that.
pub open spec fn payload_of(bytes: Seq<u8>) -> Seq<u8> {
    if bytes.len() >= 6 {
        bytes.subrange(6, bytes.len() as int)
    } else {
        Seq::empty()
    }
}

/// Bytes that the diagnostic printer shows bracketed as decimal instead of as
/// a character: control bytes and the bracket characters themselves.
pub open spec fn is_bracketed(x: u8) -> bool {
    x < 32 || x == 91 || x == 93 || x == 123 || x == 125 || x == 127
}

/// The diagnostic rendering of a single byte.
pub open spec fn byte_render(x: u8) -> Seq<char> {
    if is_bracketed(x) {
        seq!['['] + dec_chars(x) + seq![']']
    } else {
        seq![x as char]
    }
}

/// The diagnostic rendering of a byte sequence, byte by byte.
pub open spec fn packet_text(s: Seq<u8>) -> Seq<char>
    decreases s.len(),
{
    if s.len() == 0 {
        Seq::empty()
    } else {
        byte_render(s[0]) + packet_text(s.skip(1))
    }
}

/// One protocol frame, observed but never modified by the relay.
#[derive(Debug, Clone)]
pub struct Packet {
    pub packet_in_bytes: Option<Vec<u8>>,
    pub bytes: Vec<u8>,
    pub position: usize,
    pub name: Option<String>,
    pub header: Option<u16>,
    pub direction: Direction,
}

impl View for Packet {
    type V = PacketView;

    open spec fn view(&self) -> PacketView {
        PacketView {
            bytes: self.bytes@,
            position: self.position as int,
            name: match self.name {
                Some(ref s) => Some(s@),
                None => None,
            },
            header: self.header,
            direction: self.direction,
        }
    }
}

impl Packet {
    /// The raw-bytes mirror held beside the cursor buffer stays in step with
    /// it.
    pub open spec fn wf(&self) -> bool {
        match self.packet_in_bytes {
            Some(ref b) => b@ == self.bytes@,
            None => self.bytes@.len() == 0,
        }
    }

    /// Builds a frame over the given raw bytes with the cursor at the start.
    pub fn new(
        packet: Option<Vec<u8>>,
        name: Option<String>,
        header: Option<u16>,
        direction: Direction,
    ) -> (r: Packet)
        ensures
            r.wf(),
            r@.bytes == (match packet {
                Some(ref b) => b@,
                None => Seq::<u8>::empty(),
            }),
            r@.position == 0,
            r@.name == (match name {
                Some(ref s) => Some(s@),
                None => None::<Seq<char>>,
            }),
            r@.header == header,
            r@.direction == direction,
    {
        let bytes: Vec<u8> = match &packet {
            Some(b) => vstd::slice::slice_to_vec(b.as_slice()),
            None => Vec::new(),
        };
        Packet { packet_in_bytes: packet, bytes, position: 0, name, header, direction }
    }

    /// Reads the big-endian `u32` at the given offset (or at the cursor) and
    /// moves the cursor past it.
    pub fn read_long(&mut self, index: Option<usize>) -> (r: u32)
        requires
            (match index {
                Some(i) => i as int,
                None => old(self)@.position,
            }) + 4 <= old(self)@.bytes.len(),
        ensures
            ({
                let start = match index {
                    Some(i) => i as int,
                    None => old(self)@.position,
                };
                r == be32_at(old(self)@.bytes, start) && final (self)@ == (PacketView {
                    position: start + 4,
                    ..old(self)@
                }) && final (self).wf() == old(self).wf()
            }),
    {
        let n = self.bytes.len();
        let start: usize = match index {
            Some(i) => i,
            None => self.position,
        };
        assert(start + 4 <= n);
        let r = read_be32(self.bytes.as_slice(), start);
        self.position = start + 4;
        r
    }

    /// Reads the frame's declared length: the big-endian `u32` in the first
    /// four bytes.
    pub fn read_length(&mut self) -> (r: u32)
        requires
            old(self)@.bytes.len() >= 4,
        ensures
            r == be32_at(old(self)@.bytes, 0),
            final (self)@ == (PacketView { position: 4, ..old(self)@ }),
            final (self).wf() == old(self).wf(),
    {
        self.read_long(Some(0))
    }

    /// Reads the header id at offset 4: the big-endian `u16` there, with any
    /// byte beyond the end of the frame counting as zero. The cursor ends at
    /// offset 6 either way.
    pub fn get_header(&mut self) -> (r: u16)
        requires
            old(self)@.bytes.len() >= 4,
        ensures
            r == header_field(old(self)@.bytes),
            final (self)@ == (PacketView { position: 6, ..old(self)@ }),
            final (self).wf() == old(self).wf(),
    {
        let n = self.bytes.len();
        let r = if n >= 6 {
            read_be16(self.bytes.as_slice(), 4)
        } else if n == 5 {
            (self.bytes[4] as u16) * 0x100
        } else {
            0
        };
        self.position = 6;
        r
    }

    /// Copies `length` bytes starting at the given offset (or at the cursor)
    /// and moves the cursor past them.
    pub fn read_bytes(&mut self, length: usize, index: Option<usize>) -> (r: Vec<u8>)
        requires
            (match index {
                Some(i) => i as int,
                None => old(self)@.position,
            }) + length <= old(self)@.bytes.len(),
        ensures
            ({
                let start = match index {
                    Some(i) => i as int,
                    None => old(self)@.position,
                };
                r@ == old(self)@.bytes.subrange(start, start + length) && final (self)@
                    == (PacketView { position: start + length, ..old(self)@ }) && final (self).wf()
                    == old(self).wf()
            }),
    {
        let n = self.bytes.len();
        let start: usize = match index {
            Some(i) => i,
            None => self.position,
        };
        assert(start + length <= n);
        let r = vstd::slice::slice_to_vec(
            vstd::slice::slice_subrange(self.bytes.as_slice(), start, start + length),
        );
        self.position = start + length;
        r
    }

    /// Reads the byte at the cursor and advances it.
    pub fn read_byte(&mut self) -> (r: u8)
        requires
            old(self)@.position < old(self)@.bytes.len(),
        ensures
            r == old(self)@.bytes[old(self)@.position],
            final (self)@ == (PacketView { position: old(self)@.position + 1, ..old(self)@ }),
            final (self).wf() == old(self).wf(),
    {
        let n = self.bytes.len();
        let r = self.bytes[self.position];
        assert(self.position < n);
        self.position = self.position + 1;
        r
    }

    /// Copies the payload: everything after the length and header fields,
    /// empty for a frame shorter than six bytes.
    pub fn get_body(&mut self) -> (r: Vec<u8>)
        ensures
            r@ == payload_of(old(self)@.bytes),
            final (self)@ == (PacketView {
                position: if old(self)@.bytes.len() >= 6 {
                    old(self)@.bytes.len() as int
                } else {
                    old(self)@.position
                },
                ..old(self)@
            }),
            final (self).wf() == old(self).wf(),
    {
        if self.bytes.len() >= 6 {
            let n = self.bytes.len();
            self.read_bytes(n - 6, Some(6))
        } else {
            Vec::new()
        }
    }

    /// The total number of raw bytes in the frame.
    pub fn total_bytes(&self) -> (r: usize)
        ensures
            r == self@.bytes.len(),
    {
        self.bytes.len()
    }

    /// Renders the raw bytes for diagnostics: control and bracket bytes as
    /// `[decimal]`, every other byte as its character.
    pub fn to_string(&self) -> (r: String)
        ensures
            r@ == packet_text(self@.bytes),
    {
        let n = self.bytes.len();
        let mut out = String::new();
        let mut i: usize = 0;
        while i < n
            invariant
                i <= n,
                n == self@.bytes.len(),
                out@ == packet_text(self@.bytes.take(i as int)),
            decreases n - i,
        {
            let x = self.bytes[i];
            if x < 32 || x == 93 || x == 91 || x == 125 || x == 123 || x == 127 {
                push_char(&mut out, '[');
                push_decimal(&mut out, x);
                push_char(&mut out, ']');
            } else {
                push_char(&mut out, x as char);
            }
            proof {
                lemma_packet_text_take_step(self@.bytes, i as int);
                assert(out@ =~= packet_text(self@.bytes.take(i as int)) + byte_render(
                    self@.bytes[i as int],
                ));
            }
            i = i + 1;
        }
        proof {
            assert(self@.bytes.take(n as int) =~= self@.bytes);
        }
        out
    }
}

/// Unrolls `packet_text` at the back of a prefix: rendering one more byte
/// appends that byte's rendering.
proof fn lemma_packet_text_take_step(s: Seq<u8>, i: int)
    requires
        0 <= i < s.len(),
    ensures
        packet_text(s.take(i + 1)) == packet_text(s.take(i)) + byte_render(s[i]),
    decreases i,
{
    if i == 0 {
        assert(s.take(1) =~= seq![s[0]]);
        assert(s.take(1).skip(1) =~= Seq::<u8>::empty());
        assert(s.take(0) =~= Seq::<u8>::empty());
        assert(packet_text(s.take(1)) =~= packet_text(s.take(0)) + byte_render(s[0]));
    } else {
        lemma_packet_text_take_step(s.skip(1), i - 1);
        assert(s.take(i + 1).skip(1) =~= s.skip(1).take(i));
        assert(s.take(i).skip(1) =~= s.skip(1).take(i - 1));
        assert(s.take(i + 1)[0] == s[0]);
        assert(s.take(i)[0] == s[0]);
        assert(s.skip(1)[i - 1] == s[i]);
        assert(packet_text(s.take(i + 1)) =~= packet_text(s.take(i)) + byte_render(s[i]));
    }
}

} // verus!
