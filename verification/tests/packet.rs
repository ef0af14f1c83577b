use hablog::packet::{Direction, Packet};

#[test]
fn new_with_bytes_mirrors_them() {
    let data = vec![0u8, 0, 0, 6, 4, 189, 0, 0, 0, 5];
    let p = Packet::new(Some(data.clone()), None, None, Direction::Outgoing);
    assert_eq!(p.bytes, data);
    assert_eq!(p.position, 0);
    assert!(p.name.is_none());
    assert!(p.header.is_none());
    assert_eq!(p.direction, Direction::Outgoing);
    assert_eq!(p.total_bytes(), 10);
}

#[test]
fn new_without_bytes_is_empty() {
    let p = Packet::new(None, Some(String::from("Ping")), Some(7), Direction::Incoming);
    assert!(p.bytes.is_empty());
    assert_eq!(p.name.as_deref(), Some("Ping"));
    assert_eq!(p.header, Some(7));
    assert_eq!(p.total_bytes(), 0);
}

#[test]
fn cursor_reads() {
    let data = vec![0u8, 0, 0, 6, 4, 189, 0, 0, 0, 5];
    let mut p = Packet::new(Some(data), None, None, Direction::Outgoing);
    assert_eq!(p.read_length(), 6);
    assert_eq!(p.position, 4);
    assert_eq!(p.read_byte(), 4);
    assert_eq!(p.read_byte(), 189);
    assert_eq!(p.position, 6);
    assert_eq!(p.read_bytes(4, None), vec![0, 0, 0, 5]);
    assert_eq!(p.position, 10);
    assert_eq!(p.read_long(Some(6)), 5);
    assert_eq!(p.position, 10);
}

#[test]
fn header_and_body() {
    let data = vec![0u8, 0, 0, 6, 4, 189, 0, 0, 0, 5];
    let mut p = Packet::new(Some(data), None, None, Direction::Incoming);
    assert_eq!(p.get_header(), 0x04bd);
    assert_eq!(p.position, 6);
    let mut q = p.clone();
    assert_eq!(q.get_body(), vec![0, 0, 0, 5]);
}

#[test]
fn short_frame_header_is_zero_padded_and_body_empty() {
    // one header byte present: it is the high byte, the missing low byte is 0
    let mut p = Packet::new(Some(vec![0, 0, 0, 1, 9]), None, None, Direction::Incoming);
    assert_eq!(p.get_header(), 0x0900);
    // no header bytes present at all
    let mut q = Packet::new(Some(vec![0, 0, 0, 0]), None, None, Direction::Incoming);
    assert_eq!(q.get_header(), 0);
    assert_eq!(q.get_body(), Vec::<u8>::new());
}

#[test]
fn to_string_brackets_control_bytes() {
    let p = Packet::new(
        Some(vec![0, 31, 32, 65, 66, 91, 93, 123, 125, 127, 255]),
        None,
        None,
        Direction::Outgoing,
    );
    let rendered = p.to_string();
    let tail: char = char::from_u32(255).unwrap();
    let expected = format!("[0][31] AB[91][93][123][125][127]{}", tail);
    assert_eq!(rendered, expected);
}

#[test]
fn to_string_plain_text_passes_through() {
    let p = Packet::new(
        Some(b"Hello relay".to_vec()),
        None,
        None,
        Direction::Outgoing,
    );
    assert_eq!(p.to_string(), "Hello relay");
}
