use hablog::catalog::{CatalogEntry, PacketCatalog};
use hablog::debug_flag::{DebugController, CONTROL_HEADER};
use hablog::forwarder::{read_decision, DuplexRelay, Forwarder, ReadDecision, ReadEvent};
use hablog::packet::Direction;

fn frame(header: u16, payload: &[u8]) -> Vec<u8> {
    let declared = (payload.len() + 2) as u32;
    let mut out = Vec::new();
    out.extend_from_slice(&declared.to_be_bytes());
    out.extend_from_slice(&header.to_be_bytes());
    out.extend_from_slice(payload);
    out
}

#[test]
fn passthrough_is_byte_exact() {
    let catalog = PacketCatalog::new();
    let mut debug = DebugController::new();
    let mut f = Forwarder::new(Direction::Outgoing);
    // An arbitrary mix of one frame and a partial tail.
    let mut data = frame(0x04bd, &[0, 0, 0, 5]);
    data.extend_from_slice(&[0xde, 0xad]);
    let out = f.on_data(&data, &catalog, &mut debug);
    assert_eq!(out.passthrough, data);
    assert_eq!(out.packets.len(), 1);
    assert_eq!(out.packets[0].bytes, frame(0x04bd, &[0, 0, 0, 5]));
}

#[test]
fn frames_are_annotated_from_the_catalog() {
    let mut catalog = PacketCatalog::new();
    catalog.populate(vec![CatalogEntry { header: 0x04bd, name: String::from("MoveAvatar") }]);
    let mut debug = DebugController::new();
    let mut f = Forwarder::new(Direction::Incoming);
    let mut data = frame(0x04bd, &[7]);
    data.extend_from_slice(&frame(0x9999, &[8]));
    let out = f.on_data(&data, &catalog, &mut debug);
    assert_eq!(out.packets.len(), 2);
    assert_eq!(out.packets[0].header, Some(0x04bd));
    assert_eq!(out.packets[0].name.as_deref(), Some("MoveAvatar"));
    assert_eq!(out.packets[1].header, Some(0x9999));
    assert_eq!(out.packets[1].name, None);
    assert_eq!(out.lines.len(), 2);
    assert_eq!(out.lines[0], "Incoming : 0000000304bd07");
    assert_eq!(out.lines[1], "Incoming : 00000003999908");
}

#[test]
fn debug_toggle_applies_from_its_own_frame() {
    let catalog = PacketCatalog::new();
    let mut debug = DebugController::new();
    let mut f = Forwarder::new(Direction::Outgoing);
    let mut data = frame(0x0001, &[0xaa]);
    data.extend_from_slice(&frame(CONTROL_HEADER, b"!debug on"));
    data.extend_from_slice(&frame(0x0002, &[0xbb]));
    let out = f.on_data(&data, &catalog, &mut debug);
    assert!(debug.is_enabled());
    assert_eq!(out.lines.len(), 3);
    // before the command: compact; from the command's own frame on: spaced
    assert_eq!(out.lines[0], "Outgoing : 000000030001aa");
    assert!(out.lines[1].starts_with("Outgoing : unknown : 00 00 00 0b 0e 47"));
    assert_eq!(out.lines[2], "Outgoing : unknown : 00 00 00 03 00 02 bb");
}

#[test]
fn buffered_tail_completes_on_next_read() {
    let catalog = PacketCatalog::new();
    let mut debug = DebugController::new();
    let mut f = Forwarder::new(Direction::Outgoing);
    let data = frame(0x0042, b"abcdef");
    let first = f.on_data(&data[0..5], &catalog, &mut debug);
    assert_eq!(first.passthrough, &data[0..5]);
    assert_eq!(first.packets.len(), 0);
    let second = f.on_data(&data[5..], &catalog, &mut debug);
    assert_eq!(second.passthrough, &data[5..]);
    assert_eq!(second.packets.len(), 1);
    assert_eq!(second.packets[0].bytes, data);
}

#[test]
fn read_decisions_follow_the_loop_policy() {
    assert_eq!(read_decision(ReadEvent::Bytes(100)), ReadDecision::Deliver);
    assert_eq!(read_decision(ReadEvent::EndOfStream), ReadDecision::EndClean);
    assert_eq!(read_decision(ReadEvent::ReadError), ReadDecision::EndWithError);
}

#[test]
fn duplex_relay_pairs_opposite_directions() {
    let relay = DuplexRelay::new();
    assert_eq!(relay.outgoing.direction(), Direction::Outgoing);
    assert_eq!(relay.incoming.direction(), Direction::Incoming);
}

#[test]
fn bidirectional_traffic_is_exact_both_ways() {
    let catalog = PacketCatalog::new();
    let mut debug = DebugController::new();
    let relay = DuplexRelay::new();
    let mut outgoing = relay.outgoing;
    let mut incoming = relay.incoming;

    let client_stream: Vec<u8> = (0..200_000u32).map(|i| (i % 256) as u8).collect();
    let server_stream: Vec<u8> = (0..200_000u32).map(|i| (255 - i % 256) as u8).collect();

    let mut to_server = Vec::new();
    let mut to_client = Vec::new();
    for a in client_stream.chunks(4096) {
        to_server.extend_from_slice(&outgoing.on_data(a, &catalog, &mut debug).passthrough);
    }
    for b in server_stream.chunks(8192) {
        to_client.extend_from_slice(&incoming.on_data(b, &catalog, &mut debug).passthrough);
    }
    assert_eq!(to_server, client_stream);
    assert_eq!(to_client, server_stream);
}
