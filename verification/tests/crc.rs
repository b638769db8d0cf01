use mpeg_parser::mpeg32_crc::crc32_mpeg;

#[test]
fn crc_of_empty_range_is_initial_register() {
    assert_eq!(crc32_mpeg(&[]), 0xFFFF_FFFF);
}

#[test]
fn crc_matches_reference_vector() {
    // The catalogued CRC-32/MPEG-2 check value for the ASCII digits 1..9.
    assert_eq!(crc32_mpeg(b"123456789"), 0x0376_E6E7);
}

#[test]
fn crc_is_deterministic() {
    let data: Vec<u8> = (0u8..=255).collect();
    assert_eq!(crc32_mpeg(&data), crc32_mpeg(&data));
}

#[test]
fn crc_changes_when_one_bit_flips() {
    let data = vec![0x00, 0xB0, 0x0D, 0x00, 0x01, 0xC1, 0x00, 0x00];
    let mut flipped = data.clone();
    flipped[3] ^= 0x01;
    assert_ne!(crc32_mpeg(&data), crc32_mpeg(&flipped));
}
