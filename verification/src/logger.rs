//! Pure rendering for the diagnostic log. The actual sink (a colored
//! terminal, serialized by a lock) lives outside the library; these functions
//! fix exactly what each log line says, so that observation can never alter
//! the bytes being relayed.

use vstd::prelude::*;
use vstd::string::StringExecFns;
use crate::packet::{Direction, Packet, PacketView};
use crate::text::{hex_render, render_hex};

verus! {

/// The label of a traffic direction.
pub open spec fn direction_label(d: Direction) -> Seq<char> {
    match d {
        Direction::Incoming => "Incoming"@,
        Direction::Outgoing => "Outgoing"@,
    }
}

/// The name a log line shows for a frame: the resolved catalog name, or
/// `unknown` when the catalog had no entry.
pub open spec fn name_text(name: Option<Seq<char>>) -> Seq<char> {
    match name {
        Some(n) => n,
        None => "unknown"@,
    }
}

/// One frame's log line. With the debug flag off it shows the direction and
/// the raw frame bytes as an unseparated hex string; with the flag on it is
/// frame-annotated: direction, resolved name, and space-separated hex pairs.
pub open spec fn frame_line_spec(p: PacketView, debug: bool) -> Seq<char> {
    if debug {
        direction_label(p.direction) + " : "@ + name_text(p.name) + " : "@ + hex_render(
            p.bytes,
            true,
        )
    } else {
        direction_label(p.direction) + " : "@ + hex_render(p.bytes, false)
    }
}

/// Serializes diagnostic output; rendering is fixed here, while the sink and
/// its lock live with the caller.
pub struct ConsoleLogger {}

impl ConsoleLogger {
    /// Renders raw logged bytes: space-separated hex byte pairs when the
    /// debug flag is set, an unseparated hex string otherwise.
    pub fn render_bytes(bytes: &[u8], debug: bool) -> (r: String)
        ensures
            r@ == hex_render(bytes@, debug),
    {
        render_hex(bytes, debug)
    }

    /// Renders one frame's log line for the given debug flag value.
    pub fn frame_line(packet: &Packet, debug: bool) -> (r: String)
        ensures
            r@ == frame_line_spec(packet@, debug),
    {
        let mut out: String = match packet.direction {
            Direction::Incoming => String::from_str("Incoming"),
            Direction::Outgoing => String::from_str("Outgoing"),
        };
        out.append(" : ");
        if debug {
            match &packet.name {
                Some(n) => out.append(n.as_str()),
                None => out.append("unknown"),
            }
            out.append(" : ");
            let hex = render_hex(packet.bytes.as_slice(), true);
            out.append(hex.as_str());
            assert(out@ =~= frame_line_spec(packet@, debug));
        } else {
            let hex = render_hex(packet.bytes.as_slice(), false);
            out.append(hex.as_str());
            assert(out@ =~= frame_line_spec(packet@, debug));
        }
        out
    }
}

} // verus!
