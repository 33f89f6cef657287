use autovideo::patch::{
    count_strings_in_bytes, replace_all_strings_in_bytes, replace_first_string_in_bytes,
};

#[test]
fn replace_all_overwrites_every_occurrence() {
    let mut data = b"..AUTOCIDENT..AUTOCIDENT..".to_vec();
    replace_all_strings_in_bytes(&mut data, b"AUTOCIDENT", b"MyMod").unwrap();
    assert_eq!(data, b"..XXXXXMyMod..XXXXXMyMod..".to_vec());
}

#[test]
fn replace_all_keeps_byte_length() {
    let mut data = b"abcAUTOCIDENTdef".to_vec();
    let before = data.len();
    replace_all_strings_in_bytes(&mut data, b"AUTOCIDENT", b"N").unwrap();
    assert_eq!(data.len(), before);
    assert_eq!(data, b"abcXXXXXXXXXNdef".to_vec());
}

#[test]
fn replace_all_without_match_is_a_noop_success() {
    let mut data = b"no placeholders here".to_vec();
    let before = data.clone();
    replace_all_strings_in_bytes(&mut data, b"AUTOCIDENT", b"MyMod").unwrap();
    assert_eq!(data, before);
}

#[test]
fn replace_all_rejects_overlong_replacement() {
    let mut data = b"ABAB".to_vec();
    assert!(replace_all_strings_in_bytes(&mut data, b"AB", b"TooLong").is_err());
    assert_eq!(data, b"ABAB".to_vec());
}

#[test]
fn replace_all_drives_count_to_zero() {
    // the padded replacement shares no byte with the pattern
    let mut data = b"xxPATxPATxxPATxx".to_vec();
    assert_eq!(count_strings_in_bytes(&data, b"PAT"), 3);
    replace_all_strings_in_bytes(&mut data, b"PAT", b"qr").unwrap();
    assert_eq!(count_strings_in_bytes(&data, b"PAT"), 0);
    assert_eq!(data, b"xxXqrxXqrxxXqrxx".to_vec());
}

#[test]
fn count_scan_is_non_overlapping() {
    assert_eq!(count_strings_in_bytes(b"aaa", b"aa"), 1);
    assert_eq!(count_strings_in_bytes(b"aaaa", b"aa"), 2);
    assert_eq!(count_strings_in_bytes(b"", b"aa"), 0);
    assert_eq!(count_strings_in_bytes(b"a", b"aa"), 0);
}

#[test]
fn replace_first_touches_only_the_first_occurrence() {
    let mut data = b"..ZAUTONIDEN..ZAUTONIDEN..".to_vec();
    replace_first_string_in_bytes(&mut data, b"ZAUTONIDEN", b"Clip1").unwrap();
    assert_eq!(data, b"..XXXXXClip1..ZAUTONIDEN..".to_vec());
}

#[test]
fn replace_first_without_match_is_a_noop_success() {
    let mut data = b"nothing to see".to_vec();
    let before = data.clone();
    replace_first_string_in_bytes(&mut data, b"ZAUTONIDEN", b"Clip1").unwrap();
    assert_eq!(data, before);
}

#[test]
fn replace_first_twice_is_a_noop_the_second_time() {
    // exactly one occurrence, replacement sharing no byte with the pattern
    let mut data = b"xxPATxx".to_vec();
    assert_eq!(count_strings_in_bytes(&data, b"PAT"), 1);
    replace_first_string_in_bytes(&mut data, b"PAT", b"qr").unwrap();
    assert_eq!(count_strings_in_bytes(&data, b"PAT"), 0);
    let after_first = data.clone();
    replace_first_string_in_bytes(&mut data, b"PAT", b"qr").unwrap();
    assert_eq!(data, after_first);
}

#[test]
fn replacement_shorter_than_pattern_is_x_padded_at_the_front() {
    let mut data = b"AUTOIDENTSOUND".to_vec();
    replace_first_string_in_bytes(&mut data, b"AUTOIDENTSOUND", b"SoundA").unwrap();
    assert_eq!(data, b"XXXXXXXXSoundA".to_vec());
}
