use autovideo::pipeline::{
    check_power_of_two, check_video_capacity, extension_is_esp, parse_u32, parse_video_stem,
    resolve_capacity, validate_batch, validate_frame_size, validate_names, CapacityRuling, Mode,
    ValidationError,
};

#[test]
fn ten_char_name_accepted() {
    let names = vec![b"VideoMod12".to_vec()];
    assert!(validate_names(&names).is_ok());
}

#[test]
fn eleven_char_name_rejected() {
    let names = vec![b"VideoMod123".to_vec()];
    assert_eq!(validate_names(&names), Err(ValidationError::NameTooLong));
}

#[test]
fn duplicate_names_rejected() {
    let names = vec![b"Clip1".to_vec(), b"Clip2".to_vec(), b"Clip1".to_vec()];
    assert_eq!(validate_names(&names), Err(ValidationError::DuplicateName));
}

#[test]
fn distinct_names_accepted() {
    let names = vec![b"Clip1".to_vec(), b"Clip2".to_vec(), b"Clip3".to_vec()];
    assert!(validate_names(&names).is_ok());
}

#[test]
fn frame_size_768_rejected_as_not_power_of_two() {
    assert_eq!(
        validate_frame_size(768),
        Err(ValidationError::FrameSizeNotPowerOfTwo)
    );
}

#[test]
fn frame_size_2048_rejected_as_too_large() {
    assert_eq!(validate_frame_size(2048), Err(ValidationError::FrameSizeTooLarge));
}

#[test]
fn usual_frame_sizes_accepted() {
    for size in [128u32, 256, 512, 1024] {
        assert!(validate_frame_size(size).is_ok(), "size {}", size);
    }
}

#[test]
fn frame_size_zero_rejected() {
    assert_eq!(
        validate_frame_size(0),
        Err(ValidationError::FrameSizeNotPowerOfTwo)
    );
}

#[test]
fn power_of_two_check() {
    assert!(check_power_of_two(1));
    assert!(check_power_of_two(2));
    assert!(check_power_of_two(1024));
    assert!(check_power_of_two(0x8000_0000));
    assert!(!check_power_of_two(0));
    assert!(!check_power_of_two(3));
    assert!(!check_power_of_two(768));
}

#[test]
fn capacity_ruling_by_mode() {
    assert_eq!(check_video_capacity(10, false, &Mode::NO), CapacityRuling::Proceed);
    assert_eq!(
        check_video_capacity(11, false, &Mode::NO),
        CapacityRuling::NeedsConfirmation
    );
    assert_eq!(check_video_capacity(11, false, &Mode::YES), CapacityRuling::Proceed);
    assert_eq!(check_video_capacity(11, false, &Mode::UiMode), CapacityRuling::Refuse);
    // script generation bypasses the plugin capacity entirely
    assert_eq!(check_video_capacity(11, true, &Mode::UiMode), CapacityRuling::Proceed);
}

#[test]
fn capacity_resolution() {
    assert!(resolve_capacity(CapacityRuling::Proceed, false).is_ok());
    assert!(resolve_capacity(CapacityRuling::NeedsConfirmation, true).is_ok());
    assert_eq!(
        resolve_capacity(CapacityRuling::NeedsConfirmation, false),
        Err(ValidationError::TooManyVideos)
    );
    assert_eq!(
        resolve_capacity(CapacityRuling::Refuse, true),
        Err(ValidationError::TooManyVideos)
    );
}

#[test]
fn parse_u32_accepts_digits_and_plus() {
    assert_eq!(parse_u32(b"30"), Some(30));
    assert_eq!(parse_u32(b"+30"), Some(30));
    assert_eq!(parse_u32(b"007"), Some(7));
    assert_eq!(parse_u32(b"4294967295"), Some(u32::MAX));
}

#[test]
fn parse_u32_rejects_junk_and_overflow() {
    assert_eq!(parse_u32(b""), None);
    assert_eq!(parse_u32(b"+"), None);
    assert_eq!(parse_u32(b"1a"), None);
    assert_eq!(parse_u32(b"-3"), None);
    assert_eq!(parse_u32(b"4294967296"), None);
}

#[test]
fn stem_with_frame_rate_suffix() {
    let (name, rate) = parse_video_stem(b"video.30", 10, false);
    assert_eq!(name, b"video".to_vec());
    assert_eq!(rate, 30);
}

#[test]
fn stem_with_inner_dots_joined_by_underscores() {
    let (name, rate) = parse_video_stem(b"my.video.30", 10, false);
    assert_eq!(name, b"my_video".to_vec());
    assert_eq!(rate, 30);
}

#[test]
fn stem_without_numeric_suffix_keeps_default_rate_and_dots() {
    let (name, rate) = parse_video_stem(b"my.video", 24, false);
    assert_eq!(name, b"my.video".to_vec());
    assert_eq!(rate, 24);
}

#[test]
fn stem_spaces_become_underscores() {
    let (name, _) = parse_video_stem(b"my video", 10, false);
    assert_eq!(name, b"my_video".to_vec());
}

#[test]
fn stem_short_names_cuts_to_ten_bytes() {
    let (name, _) = parse_video_stem(b"averylongvideoname", 10, true);
    assert_eq!(name, b"averylongv".to_vec());
    let (name, _) = parse_video_stem(b"averylongvideoname", 10, false);
    assert_eq!(name, b"averylongvideoname".to_vec());
}

#[test]
fn stem_cut_applies_before_space_mapping() {
    let (name, _) = parse_video_stem(b"a b c d e f g h", 10, true);
    assert_eq!(name.len(), 10);
    assert_eq!(name, b"a_b_c_d_e_".to_vec());
}

#[test]
fn batch_validation_reports_first_fault_in_front_end_order() {
    let ok_names = vec![b"Clip1".to_vec(), b"Clip2".to_vec()];
    assert!(validate_batch(&ok_names, 512, false, &Mode::NO, false).is_ok());

    // capacity is checked before names: twelve copies of an overlong name
    let many: Vec<Vec<u8>> = (0..12).map(|_| b"elevenchars".to_vec()).collect();
    assert_eq!(
        validate_batch(&many, 512, false, &Mode::NO, false),
        Err(ValidationError::TooManyVideos)
    );
    // a confirmed prompt moves past capacity to the name fault
    assert_eq!(
        validate_batch(&many, 512, false, &Mode::NO, true),
        Err(ValidationError::NameTooLong)
    );
    // names are checked before the frame size
    assert_eq!(
        validate_batch(&vec![b"elevenchars".to_vec()], 768, false, &Mode::NO, false),
        Err(ValidationError::NameTooLong)
    );
    assert_eq!(
        validate_batch(&ok_names, 768, false, &Mode::NO, false),
        Err(ValidationError::FrameSizeNotPowerOfTwo)
    );
    assert_eq!(
        validate_batch(&ok_names, 2048, false, &Mode::NO, false),
        Err(ValidationError::FrameSizeTooLarge)
    );
}

#[test]
fn esp_extension_is_matched_case_insensitively() {
    assert!(extension_is_esp(b"esp"));
    assert!(extension_is_esp(b"ESP"));
    assert!(extension_is_esp(b"Esp"));
    assert!(!extension_is_esp(b"esm"));
    assert!(!extension_is_esp(b"espx"));
    assert!(!extension_is_esp(b""));
}
