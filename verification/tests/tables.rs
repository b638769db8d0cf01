use std::collections::HashSet;
use mpeg_parser::mpeg32_crc::crc32_mpeg;
use mpeg_parser::pat::{Pat, ProgramInfoType};
use mpeg_parser::pmt::Pmt;
use mpeg_parser::psi::Psi;

fn with_crc(mut body: Vec<u8>) -> Vec<u8> {
    let crc = crc32_mpeg(&body);
    body.extend_from_slice(&crc.to_be_bytes());
    body
}

/// A PAT with a network entry {0, 0x10} and a program entry {1, 0x21}.
fn sample_pat() -> Vec<u8> {
    with_crc(vec![
        0x00, // table id
        0xB0, 0x11, // syntax bit + section length 17
        0x00, 0x01, // transport stream id
        0xC3, // version 1, current/next 1
        0x00, 0x00, // section number, last section number
        0x00, 0x00, 0xE0, 0x10, // program 0 -> network PID 0x10
        0x00, 0x01, 0xE0, 0x21, // program 1 -> PMT PID 0x21
    ])
}

/// A PMT for program 1: PCR PID 0x100, one top-level descriptor
/// (tag 5, one payload byte), one elementary stream (type 2, PID 0x101).
fn sample_pmt() -> Vec<u8> {
    with_crc(vec![
        0x02, // table id
        0xB0, 0x15, // syntax bit + section length 21
        0x00, 0x01, // program number
        0xC3, // version 1, current/next 1
        0x00, 0x00, // section number, last section number
        0xE1, 0x00, // PCR PID 0x100
        0xF0, 0x03, // program info length 3
        0x05, 0x01, 0xAA, // descriptor: tag 5, length 1, payload
        0x02, 0xE1, 0x01, 0xF0, 0x00, // stream type 2, PID 0x101, no descriptors
    ])
}

#[test]
fn pat_decodes_fields_and_entries() {
    let buf = sample_pat();
    let pat = Pat::new(&buf).unwrap();
    assert!(pat.syntax_section_indicator);
    assert_eq!(pat.section_length, 17);
    assert_eq!(pat.transport_stream_id, 1);
    assert_eq!(pat.version_number, 1);
    assert!(pat.current_next_indicator);
    assert_eq!(pat.section_number, 0);
    assert_eq!(pat.last_section_number, 0);
    assert_eq!(pat.program_info.len(), 2);
    assert_eq!(pat.program_info[0].program_number, 0);
    assert_eq!(pat.program_info[0].program_info_type, ProgramInfoType::Network);
    assert_eq!(pat.program_info[0].pid, 0x10);
    assert_eq!(pat.program_info[1].program_number, 1);
    assert_eq!(pat.program_info[1].program_info_type, ProgramInfoType::ProgramMap);
    assert_eq!(pat.program_info[1].pid, 0x21);
    assert!(!pat.crc_error);
}

#[test]
fn pat_pmt_pid_set_holds_program_entries_only() {
    let buf = sample_pat();
    let pat = Pat::new(&buf).unwrap();
    let pids = pat.get_pmt_pids();
    assert_eq!(pids.len(), 1);
    assert!(pids.contains(&0x21));
    assert!(!pids.contains(&0x10));
}

#[test]
fn pat_rejects_wrong_table_id_and_empty_buffer() {
    let mut buf = sample_pat();
    buf[0] = 0x01;
    assert!(Pat::new(&buf).is_none());
    assert!(Pat::new(&[]).is_none());
}

#[test]
fn pat_rejects_section_longer_than_buffer() {
    let mut buf = sample_pat();
    buf[2] = 0x40; // declared section length larger than the buffer
    assert!(Pat::new(&buf).is_none());
}

#[test]
fn pat_flags_crc_mismatch_on_flipped_bit() {
    let mut buf = sample_pat();
    buf[4] ^= 0x02; // flip one payload bit, leave the stored CRC alone
    let pat = Pat::new(&buf).unwrap();
    assert!(pat.crc_error);
}

#[test]
fn pmt_decodes_fields_streams_and_descriptors() {
    let buf = sample_pmt();
    let pmt = Pmt::new(&buf).unwrap();
    assert!(pmt.section_syntax_indicator);
    assert_eq!(pmt.program_number, 1);
    assert_eq!(pmt.version_number, 1);
    assert!(pmt.current_next_indicator);
    assert_eq!(pmt.pcr_pid, 0x100);
    assert_eq!(pmt.program_info_length, 3);
    assert_eq!(pmt.descriptors.len(), 1);
    assert_eq!(pmt.descriptors[0].tag, 5);
    assert_eq!(pmt.descriptors[0].length, 1);
    assert_eq!(pmt.elementary_streams.len(), 1);
    assert_eq!(pmt.elementary_streams[0].stream_type, 2);
    assert_eq!(pmt.elementary_streams[0].elementary_pid, 0x101);
    assert!(pmt.elementary_streams[0].descriptors.is_empty());
    assert!(!pmt.crc_error);
}

#[test]
fn pmt_rejects_wrong_table_id_and_short_buffer() {
    let mut buf = sample_pmt();
    buf[0] = 0x00;
    assert!(Pmt::new(&buf).is_none());
    assert!(Pmt::new(&buf[..8]).is_none());
}

#[test]
fn pmt_rejects_program_info_running_past_section() {
    let mut buf = sample_pmt();
    buf[11] = 0x20; // program info length past the section's CRC
    assert!(Pmt::new(&buf).is_none());
}

#[test]
fn pmt_flags_crc_mismatch_on_flipped_bit() {
    let mut buf = sample_pmt();
    buf[15] ^= 0x01;
    let pmt = Pmt::new(&buf).unwrap();
    assert!(pmt.crc_error);
}

#[test]
fn classifier_routes_pat_pid_to_pat() {
    let pids: HashSet<u16> = HashSet::new();
    let psi = Psi::new(&sample_pat(), &0, &pids).unwrap();
    assert!(matches!(psi, Psi::Pat(_)));
    assert!(!psi.get_crc_error());
}

#[test]
fn classifier_decodes_pmt_only_on_discovered_pid() {
    let mut pids: HashSet<u16> = HashSet::new();
    pids.insert(0x21);
    let buf = sample_pmt();
    let on_discovered = Psi::new(&buf, &0x21, &pids);
    assert!(matches!(on_discovered, Some(Psi::Pmt(_))));
    // the same bytes on a PID not in the set are not classified
    assert!(Psi::new(&buf, &0x22, &pids).is_none());
}

#[test]
fn classifier_ignores_reserved_and_unknown_pids() {
    let mut pids: HashSet<u16> = HashSet::new();
    pids.insert(0x0005);
    pids.insert(0x1FFF);
    let buf = sample_pmt();
    // in the set but outside the assignable PID range
    assert!(Psi::new(&buf, &0x0005, &pids).is_none());
    assert!(Psi::new(&buf, &0x1FFF, &pids).is_none());
}

#[test]
fn classifier_pid_predicates() {
    assert!(Psi::is_pat(&0));
    assert!(!Psi::is_pat(&1));
    assert!(!Psi::is_network_program_elementary(&0x000F));
    assert!(Psi::is_network_program_elementary(&0x0010));
    assert!(Psi::is_network_program_elementary(&0x1FFE));
    assert!(!Psi::is_network_program_elementary(&0x1FFF));
}

#[test]
fn table_crcs_are_exposed() {
    let pids: HashSet<u16> = HashSet::new();
    let buf = sample_pat();
    let stored = u32::from_be_bytes([buf[16], buf[17], buf[18], buf[19]]);
    let psi = Psi::new(&buf, &0, &pids).unwrap();
    assert_eq!(psi.get_crc(), stored);
}

#[test]
fn stream_type_and_descriptor_labels() {
    let buf = sample_pmt();
    let pmt = Pmt::new(&buf).unwrap();
    assert_eq!(pmt.elementary_streams[0].to_string(), "MPEG-2 video stream");
    assert_eq!(pmt.descriptors[0].to_string(), "Registration");
}
