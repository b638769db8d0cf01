use std::collections::{HashMap, HashSet};
use mpeg_parser::mpeg32_crc::crc32_mpeg;
use mpeg_parser::packet::Packet;
use mpeg_parser::psi::Psi;
use mpeg_parser::{PidErrors, PidState};

fn payload_packet(pid: u16, cc: u8, payload: Vec<u8>) -> Packet {
    Packet {
        transport_error_indicator: false,
        payload_unit_start_indicator: false,
        transport_priority: false,
        pid,
        transport_scrambling_control: 0,
        adaptation_field_control: 1,
        continuity_counter: cc,
        payload,
    }
}

fn with_crc(mut body: Vec<u8>) -> Vec<u8> {
    let crc = crc32_mpeg(&body);
    body.extend_from_slice(&crc.to_be_bytes());
    body
}

fn sample_pat() -> Vec<u8> {
    with_crc(vec![
        0x00, 0xB0, 0x11, 0x00, 0x01, 0xC3, 0x00, 0x00, 0x00, 0x00, 0xE0, 0x10, 0x00, 0x01, 0xE0,
        0x21,
    ])
}

fn sample_pmt() -> Vec<u8> {
    with_crc(vec![
        0x02, 0xB0, 0x15, 0x00, 0x01, 0xC3, 0x00, 0x00, 0xE1, 0x00, 0xF0, 0x03, 0x05, 0x01, 0xAA,
        0x02, 0xE1, 0x01, 0xF0, 0x00,
    ])
}

#[test]
fn first_packet_creates_entry() {
    let mut states: HashMap<u16, PidState> = HashMap::new();
    let mut pids: HashSet<u16> = HashSet::new();
    let p = payload_packet(0x100, 0, vec![]);
    let emitted = p.update_state(&mut states, &mut pids);
    assert!(emitted.is_none());
    let s = states.get(&0x100).unwrap();
    assert_eq!(s.count, 1);
    // the fresh entry holds the packet itself as its previous packet,
    // so the very first packet counts as a duplicate run of one
    assert_eq!(s.duplicate_count, 1);
    assert_eq!(s.errors, PidErrors { cc_errors: 0, crc_errors: 0 });
    assert_eq!(s.prev_packet, p);
}

#[test]
fn in_order_counters_record_no_continuity_errors() {
    let mut states: HashMap<u16, PidState> = HashMap::new();
    let mut pids: HashSet<u16> = HashSet::new();
    let mut cc: u8 = 0;
    for _ in 0..18 {
        let p = payload_packet(0x100, cc, vec![]);
        p.update_state(&mut states, &mut pids);
        cc = if cc == 15 { 0 } else { cc + 1 };
    }
    let s = states.get(&0x100).unwrap();
    assert_eq!(s.count, 18);
    assert_eq!(s.errors.cc_errors, 0);
}

#[test]
fn skipped_counter_records_exactly_one_error() {
    let mut states: HashMap<u16, PidState> = HashMap::new();
    let mut pids: HashSet<u16> = HashSet::new();
    for cc in [0u8, 1, 2, 3] {
        payload_packet(0x100, cc, vec![]).update_state(&mut states, &mut pids);
    }
    payload_packet(0x100, 5, vec![]).update_state(&mut states, &mut pids);
    assert_eq!(states.get(&0x100).unwrap().errors.cc_errors, 1);
    // the stream continues in order from the skip: no further error
    payload_packet(0x100, 6, vec![]).update_state(&mut states, &mut pids);
    assert_eq!(states.get(&0x100).unwrap().errors.cc_errors, 1);
}

#[test]
fn missing_counter_without_payload_is_tolerated() {
    let mut states: HashMap<u16, PidState> = HashMap::new();
    let mut pids: HashSet<u16> = HashSet::new();
    payload_packet(0x100, 0, vec![]).update_state(&mut states, &mut pids);
    let mut no_payload = payload_packet(0x100, 2, vec![]);
    no_payload.adaptation_field_control = 0x2;
    no_payload.update_state(&mut states, &mut pids);
    assert_eq!(states.get(&0x100).unwrap().errors.cc_errors, 0);
}

#[test]
fn null_pid_is_exempt_from_continuity_tracking() {
    let mut states: HashMap<u16, PidState> = HashMap::new();
    let mut pids: HashSet<u16> = HashSet::new();
    payload_packet(0x1FFF, 0, vec![]).update_state(&mut states, &mut pids);
    payload_packet(0x1FFF, 9, vec![]).update_state(&mut states, &mut pids);
    let s = states.get(&0x1FFF).unwrap();
    assert_eq!(s.count, 2);
    assert_eq!(s.errors.cc_errors, 0);
}

#[test]
fn two_identical_packets_tolerated_third_is_an_error() {
    let mut states: HashMap<u16, PidState> = HashMap::new();
    let mut pids: HashSet<u16> = HashSet::new();
    payload_packet(0x100, 0, vec![]).update_state(&mut states, &mut pids);
    let dup = payload_packet(0x100, 1, vec![]);
    dup.update_state(&mut states, &mut pids);
    assert_eq!(states.get(&0x100).unwrap().errors.cc_errors, 0);
    // second, identical header: a tolerated repetition
    dup.update_state(&mut states, &mut pids);
    let s = states.get(&0x100).unwrap();
    assert_eq!(s.duplicate_count, 1);
    assert_eq!(s.errors.cc_errors, 0);
    // third identical header: an error
    dup.update_state(&mut states, &mut pids);
    let s = states.get(&0x100).unwrap();
    assert_eq!(s.duplicate_count, 2);
    assert_eq!(s.errors.cc_errors, 1);
}

#[test]
fn pat_discovery_feeds_classifier_and_emits_once() {
    let mut states: HashMap<u16, PidState> = HashMap::new();
    let mut pids: HashSet<u16> = HashSet::new();
    let pat_packet = payload_packet(0, 0, sample_pat());
    let emitted = pat_packet.update_state(&mut states, &mut pids);
    // the first instance of the table is reported and discovers PID 0x21
    assert!(matches!(emitted, Some(Psi::Pat(_))));
    assert!(pids.contains(&0x21));
    assert!(!pids.contains(&0x10));
    assert_eq!(pids.len(), 1);

    // a PMT on the discovered PID is classified, decoded and reported
    let pmt_packet = payload_packet(0x21, 0, sample_pmt());
    let emitted = pmt_packet.update_state(&mut states, &mut pids);
    assert!(matches!(emitted, Some(Psi::Pmt(_))));

    // the same bytes on an undiscovered PID are not classified
    let stray = payload_packet(0x22, 0, sample_pmt());
    assert!(stray.update_state(&mut states, &mut pids).is_none());
}

#[test]
fn identical_redelivery_is_not_reemitted() {
    let mut states: HashMap<u16, PidState> = HashMap::new();
    let mut pids: HashSet<u16> = HashSet::new();
    let first = payload_packet(0, 0, sample_pat());
    assert!(first.update_state(&mut states, &mut pids).is_some());
    let again = payload_packet(0, 1, sample_pat());
    assert!(again.update_state(&mut states, &mut pids).is_none());
    let s = states.get(&0).unwrap();
    assert_eq!(s.count, 2);
    assert_eq!(s.errors.crc_errors, 0);
    assert_eq!(pids.len(), 1);
}

#[test]
fn changed_table_is_reemitted() {
    let mut states: HashMap<u16, PidState> = HashMap::new();
    let mut pids: HashSet<u16> = HashSet::new();
    payload_packet(0, 0, sample_pat()).update_state(&mut states, &mut pids);
    // a new version of the table: different bytes, valid CRC
    let mut body = sample_pat();
    body.truncate(16);
    body[5] = 0xC5; // version 2
    let updated = with_crc(body);
    let emitted = payload_packet(0, 1, updated).update_state(&mut states, &mut pids);
    assert!(emitted.is_some());
}

#[test]
fn corrupt_section_counts_one_crc_error() {
    let mut states: HashMap<u16, PidState> = HashMap::new();
    let mut pids: HashSet<u16> = HashSet::new();
    let mut corrupt = sample_pat();
    corrupt[4] ^= 0x02; // flip one payload bit inside the section
    payload_packet(0, 0, corrupt).update_state(&mut states, &mut pids);
    let s = states.get(&0).unwrap();
    assert_eq!(s.errors.crc_errors, 1);
    assert_eq!(s.errors.cc_errors, 0);
}

#[test]
fn non_psi_payload_counts_no_crc_error() {
    let mut states: HashMap<u16, PidState> = HashMap::new();
    let mut pids: HashSet<u16> = HashSet::new();
    payload_packet(0x100, 0, vec![0x99; 20]).update_state(&mut states, &mut pids);
    let s = states.get(&0x100).unwrap();
    assert_eq!(s.errors.crc_errors, 0);
    assert!(pids.is_empty());
}

#[test]
fn tracker_keeps_pids_separate() {
    let mut states: HashMap<u16, PidState> = HashMap::new();
    let mut pids: HashSet<u16> = HashSet::new();
    payload_packet(0x100, 0, vec![]).update_state(&mut states, &mut pids);
    payload_packet(0x200, 5, vec![]).update_state(&mut states, &mut pids);
    payload_packet(0x100, 1, vec![]).update_state(&mut states, &mut pids);
    assert_eq!(states.get(&0x100).unwrap().count, 2);
    assert_eq!(states.get(&0x200).unwrap().count, 1);
    assert_eq!(states.len(), 2);
}

#[test]
fn previous_packet_tracks_the_latest() {
    let mut states: HashMap<u16, PidState> = HashMap::new();
    let mut pids: HashSet<u16> = HashSet::new();
    payload_packet(0x100, 0, vec![1, 2, 3]).update_state(&mut states, &mut pids);
    let latest = payload_packet(0x100, 1, vec![4, 5]);
    latest.update_state(&mut states, &mut pids);
    let s = states.get(&0x100).unwrap();
    assert_eq!(s.prev_packet, latest);
    assert_eq!(s.prev_packet.payload, vec![4, 5]);
}
