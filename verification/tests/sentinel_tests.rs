use autovideo::sentinel::{find_and_replace_float, float_bits_of_int};

#[test]
fn float_bits_match_hardware_conversion() {
    for n in [
        1u32, 2, 3, 7, 10, 255, 256, 1023, 1313, 4096, 121201, 121224, 141401, 141424, 1_000_000,
        16_777_215,
    ] {
        assert_eq!(float_bits_of_int(n), (n as f32).to_bits(), "bits of {}", n);
    }
}

#[test]
fn float_bits_of_known_sentinels() {
    assert_eq!(float_bits_of_int(1313), 0x44A42000);
    assert_eq!(float_bits_of_int(121201), 0x47ECB880);
    assert_eq!(float_bits_of_int(141401), 0x480A1640);
}

#[test]
fn patcher_rewrites_exact_match_at_offset() {
    let target = 121201f32;
    let replacement = 12.8f32;
    let mut buffer = vec![0u8, 1, 2];
    buffer.extend_from_slice(&target.to_le_bytes());
    buffer.extend_from_slice(&[9u8, 9]);
    find_and_replace_float(&mut buffer, target.to_bits(), replacement.to_bits());
    assert_eq!(&buffer[0..3], &[0, 1, 2]);
    assert_eq!(&buffer[3..7], &replacement.to_le_bytes());
    assert_eq!(&buffer[7..9], &[9, 9]);
}

#[test]
fn patcher_rewrites_every_occurrence() {
    let target = 1313f32;
    let replacement = 2.0f32;
    let mut buffer = Vec::new();
    buffer.extend_from_slice(&target.to_le_bytes());
    buffer.push(0);
    buffer.extend_from_slice(&target.to_le_bytes());
    find_and_replace_float(&mut buffer, target.to_bits(), replacement.to_bits());
    assert_eq!(&buffer[0..4], &replacement.to_le_bytes());
    assert_eq!(buffer[4], 0);
    assert_eq!(&buffer[5..9], &replacement.to_le_bytes());
}

#[test]
fn patcher_leaves_nearby_values_untouched() {
    // one bit off the target: bit-exact matching must not touch it
    let target = 121201f32;
    let near = f32::from_bits(target.to_bits() + 1);
    let mut buffer = near.to_le_bytes().to_vec();
    let before = buffer.clone();
    find_and_replace_float(&mut buffer, target.to_bits(), 0f32.to_bits());
    assert_eq!(buffer, before);

    let also_near = 121202f32;
    let mut buffer = also_near.to_le_bytes().to_vec();
    let before = buffer.clone();
    find_and_replace_float(&mut buffer, target.to_bits(), 0f32.to_bits());
    assert_eq!(buffer, before);
}

#[test]
fn patcher_finds_unaligned_occurrences() {
    let target = 141405f32;
    let replacement = 42.0f32;
    let mut buffer = vec![0xEEu8];
    buffer.extend_from_slice(&target.to_le_bytes());
    find_and_replace_float(&mut buffer, target.to_bits(), replacement.to_bits());
    assert_eq!(buffer[0], 0xEE);
    assert_eq!(&buffer[1..5], &replacement.to_le_bytes());
}

#[test]
fn patcher_on_short_buffer_is_a_noop() {
    let mut buffer = vec![1u8, 2, 3];
    find_and_replace_float(&mut buffer, 1313f32.to_bits(), 0f32.to_bits());
    assert_eq!(buffer, vec![1, 2, 3]);
}
