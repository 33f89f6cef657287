use autovideo::codec::elongate;

#[test]
fn pad_leading_x_reaches_target_length() {
    let padded = elongate(b"MyMod", b'X', 10, true).unwrap();
    assert_eq!(padded.len(), 10);
    assert_eq!(padded, b"XXXXXMyMod".to_vec());
}

#[test]
fn pad_trailing_space_reaches_target_length() {
    let padded = elongate(b"MyMod", b' ', 10, false).unwrap();
    assert_eq!(padded.len(), 10);
    assert_eq!(padded, b"MyMod     ".to_vec());
}

#[test]
fn pad_leading_space() {
    let padded = elongate(b"MyMod", b' ', 10, true).unwrap();
    assert_eq!(padded, b"     MyMod".to_vec());
}

#[test]
fn pad_roundtrip_strips_fill_to_recover_name() {
    let name = b"Clip1";
    let len = name.len();
    let padded = elongate(name, b'X', 10, true).unwrap();
    // stripping exactly 10 - len fill bytes from the front recovers the name
    assert!(padded[..10 - len].iter().all(|&b| b == b'X'));
    assert_eq!(&padded[10 - len..], name);

    let padded = elongate(name, b' ', 10, false).unwrap();
    assert_eq!(&padded[..len], name);
    assert!(padded[len..].iter().all(|&b| b == b' '));
}

#[test]
fn pad_of_exact_length_name_is_identity() {
    let padded = elongate(b"VideoMod12", b'X', 10, true).unwrap();
    assert_eq!(padded, b"VideoMod12".to_vec());
}

#[test]
fn pad_rejects_name_longer_than_target() {
    assert!(elongate(b"VideoMod123", b'X', 10, true).is_err());
    assert!(elongate(b"elevenchars", b' ', 10, false).is_err());
}

#[test]
fn pad_empty_name() {
    let padded = elongate(b"", b'X', 10, true).unwrap();
    assert_eq!(padded, b"XXXXXXXXXX".to_vec());
}

#[test]
fn pad_audio_token_width() {
    let padded = elongate(b"SoundA", b'X', 14, true).unwrap();
    assert_eq!(padded.len(), 14);
    assert_eq!(padded, b"XXXXXXXXSoundA".to_vec());
}
