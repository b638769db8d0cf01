use mpeg_parser::packet::{find_sync_offset, get_bit_at, Packet, PACKET_SIZE};

fn frame_with_header(b1: u8, b2: u8, b3: u8) -> Vec<u8> {
    let mut frame = vec![0u8; PACKET_SIZE];
    frame[0] = 0x47;
    frame[1] = b1;
    frame[2] = b2;
    frame[3] = b3;
    frame
}

#[test]
fn decode_extracts_header_fields() {
    // pusi set, pid 0x0100, afc 01 (payload only), cc 7
    let mut frame = frame_with_header(0x41, 0x00, 0x17);
    frame[4] = 0xAB;
    let p = Packet::new(&frame).unwrap();
    assert!(!p.transport_error_indicator);
    assert!(p.payload_unit_start_indicator);
    assert!(!p.transport_priority);
    assert_eq!(p.pid, 0x0100);
    assert_eq!(p.transport_scrambling_control, 0);
    assert_eq!(p.adaptation_field_control, 1);
    assert_eq!(p.continuity_counter, 7);
    assert_eq!(p.payload.len(), 184);
    assert_eq!(p.payload[0], 0xAB);
}

#[test]
fn decode_skips_adaptation_field() {
    // afc 11: payload begins after the header, the length byte, and the
    // adaptation field of that length
    let mut frame = frame_with_header(0x00, 0x21, 0x35);
    frame[4] = 10;
    frame[15] = 0xCD;
    let p = Packet::new(&frame).unwrap();
    assert_eq!(p.pid, 0x21);
    assert_eq!(p.adaptation_field_control, 3);
    assert_eq!(p.continuity_counter, 5);
    assert_eq!(p.payload.len(), PACKET_SIZE - 15);
    assert_eq!(p.payload[0], 0xCD);
}

#[test]
fn decode_oversized_adaptation_field_leaves_no_payload() {
    let mut frame = frame_with_header(0x00, 0x21, 0x30);
    frame[4] = 0xFF;
    let p = Packet::new(&frame).unwrap();
    assert!(p.payload.is_empty());
}

#[test]
fn decode_without_payload_flag_yields_empty_payload() {
    // afc 10: adaptation field only, no payload
    let frame = frame_with_header(0x00, 0x21, 0x20);
    let p = Packet::new(&frame).unwrap();
    assert!(p.payload.is_empty());
}

#[test]
fn decode_rejects_short_frame() {
    let frame = frame_with_header(0x41, 0x00, 0x17);
    assert!(Packet::new(&frame[..187]).is_none());
}

#[test]
fn decode_rejects_wrong_sync_byte() {
    let mut frame = frame_with_header(0x41, 0x00, 0x17);
    frame[0] = 0x46;
    assert!(Packet::new(&frame).is_none());
}

#[test]
fn header_equality_ignores_payload() {
    let mut a = frame_with_header(0x41, 0x00, 0x17);
    let mut b = frame_with_header(0x41, 0x00, 0x17);
    a[10] = 0x11;
    b[10] = 0x99;
    let pa = Packet::new(&a).unwrap();
    let pb = Packet::new(&b).unwrap();
    assert_eq!(pa, pb);
    let c = frame_with_header(0x41, 0x00, 0x18);
    let pc = Packet::new(&c).unwrap();
    assert_ne!(pa, pc);
}

#[test]
fn bit_positions_number_from_least_significant() {
    assert!(get_bit_at(0b1000_0000, 7));
    assert!(!get_bit_at(0b1000_0000, 6));
    assert!(get_bit_at(0b0000_0001, 0));
    assert!(!get_bit_at(0xFF, 8));
}

#[test]
fn sync_finds_verified_boundary() {
    let mut buf = vec![0u8; PACKET_SIZE * 4];
    for k in 0..4 {
        buf[10 + k * PACKET_SIZE] = 0x47;
    }
    assert_eq!(find_sync_offset(&buf), Some(10));
}

#[test]
fn sync_skips_false_marker() {
    let mut buf = vec![0u8; PACKET_SIZE * 4];
    buf[2] = 0x47;
    for k in 0..4 {
        buf[10 + k * PACKET_SIZE] = 0x47;
    }
    assert_eq!(find_sync_offset(&buf), Some(10));
}

#[test]
fn sync_fails_when_buffer_too_short_for_checks() {
    let mut buf = vec![0u8; 100];
    buf[0] = 0x47;
    assert_eq!(find_sync_offset(&buf), None);
}

#[test]
fn sync_fails_without_any_marker() {
    let buf = vec![0u8; PACKET_SIZE * 4];
    assert_eq!(find_sync_offset(&buf), None);
}
