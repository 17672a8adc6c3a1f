use pubkit::image_validator::{
    handle_exif_error, is_publishable, is_valid_data, outcome_severity, should_skip_validation,
    ExifFailure, InvalidReason, SkipReason, ValidReason, ValidationResult,
};
use pubkit::logger::LogLevel;

fn push_u16(bytes: &mut Vec<u8>, v: u16) {
    bytes.extend_from_slice(&v.to_le_bytes());
}

fn push_u32(bytes: &mut Vec<u8>, v: u32) {
    bytes.extend_from_slice(&v.to_le_bytes());
}

/// A minimal little-endian TIFF whose first directory points to a GPS
/// directory holding GPSLatitude (tag 2) and GPSLongitude (tag 4).
fn tiff_with_gps() -> Vec<u8> {
    let mut b: Vec<u8> = Vec::new();
    b.extend_from_slice(b"II");
    push_u16(&mut b, 42);
    push_u32(&mut b, 8); // first directory at offset 8
    // primary directory: one entry, the GPS directory pointer (0x8825)
    push_u16(&mut b, 1);
    push_u16(&mut b, 0x8825);
    push_u16(&mut b, 4); // LONG
    push_u32(&mut b, 1);
    push_u32(&mut b, 26); // GPS directory offset
    push_u32(&mut b, 0); // no next directory
    // GPS directory at 26: two RATIONAL entries
    push_u16(&mut b, 2);
    push_u16(&mut b, 2); // GPSLatitude
    push_u16(&mut b, 5); // RATIONAL
    push_u32(&mut b, 3);
    push_u32(&mut b, 56); // data offset
    push_u16(&mut b, 4); // GPSLongitude
    push_u16(&mut b, 5);
    push_u32(&mut b, 3);
    push_u32(&mut b, 80);
    push_u32(&mut b, 0);
    // latitude 1/1 2/1 3/1 at 56, longitude 4/1 5/1 6/1 at 80
    for v in [1u32, 1, 2, 1, 3, 1, 4, 1, 5, 1, 6, 1] {
        push_u32(&mut b, v);
    }
    b
}

/// A minimal little-endian TIFF whose first directory holds only a
/// Make tag (0x010f): camera metadata, no GPS.
fn tiff_without_gps() -> Vec<u8> {
    let mut b: Vec<u8> = Vec::new();
    b.extend_from_slice(b"II");
    push_u16(&mut b, 42);
    push_u32(&mut b, 8);
    push_u16(&mut b, 1);
    push_u16(&mut b, 0x010f);
    push_u16(&mut b, 2); // ASCII
    push_u32(&mut b, 3);
    b.extend_from_slice(b"ab\0\0"); // value fits inline
    push_u32(&mut b, 0);
    b
}

/// A PNG signature and nothing else: a PNG without any metadata chunk.
fn plain_png() -> Vec<u8> {
    b"\x89PNG\x0d\x0a\x1a\x0a".to_vec()
}

#[test]
fn test_should_skip_validation() {
    // Test skip extensions
    assert!(should_skip_validation("document.md"));
    assert!(should_skip_validation("diagram.mermaid"));
    assert!(should_skip_validation("audio.mp3"));
    assert!(should_skip_validation("video.mp4"));
    assert!(should_skip_validation("presentation.pptx"));
    assert!(should_skip_validation("icon.svg"));
    assert!(should_skip_validation("readme.txt"));

    // Test case insensitive
    assert!(should_skip_validation("document.MD"));
    assert!(should_skip_validation("video.MP4"));
    assert!(should_skip_validation("icon.SVG"));

    // Test non-skip extensions
    assert!(!should_skip_validation("image.jpg"));
    assert!(!should_skip_validation("photo.png"));
    assert!(!should_skip_validation("data.json"));
    assert!(!should_skip_validation("config.toml"));
}

#[test]
fn test_handle_exif_error_types() {
    // Test InvalidFormat error - should return Invalid
    let invalid_format_err = ExifFailure::InvalidFormat("Invalid JPEG".to_string());
    let result = handle_exif_error(invalid_format_err);
    match result {
        ValidationResult::Invalid { reason: InvalidReason::InvalidFormat(_), .. } => {}
        _ => panic!("Expected Invalid with InvalidFormat reason"),
    }

    // Test NotFound error - should return Valid with NoExifData
    let not_found_err = ExifFailure::NotFound("No EXIF".to_string());
    let result = handle_exif_error(not_found_err);
    match result {
        ValidationResult::Valid { reason: ValidReason::NoExifData } => {}
        _ => panic!("Expected Valid with NoExifData reason"),
    }

    // Test BlankValue error - should return Valid with BlankExifValues
    let blank_value_err = ExifFailure::BlankValue("Empty value".to_string());
    let result = handle_exif_error(blank_value_err);
    match result {
        ValidationResult::Valid { reason: ValidReason::BlankExifValues } => {}
        _ => panic!("Expected Valid with BlankExifValues reason"),
    }

    // Test TooBig error - should return Invalid with FileTooLarge
    let too_big_err = ExifFailure::TooBig("File too large".to_string());
    let result = handle_exif_error(too_big_err);
    match result {
        ValidationResult::Invalid { reason: InvalidReason::FileTooLarge(_), .. } => {}
        _ => panic!("Expected Invalid with FileTooLarge reason"),
    }

    // Any other error - should return Invalid with ExifError
    let other_err = ExifFailure::Other("broken".to_string());
    let result = handle_exif_error(other_err);
    match result {
        ValidationResult::Invalid { reason: InvalidReason::ExifError(_), .. } => {}
        _ => panic!("Expected Invalid with ExifError reason"),
    }
}

#[test]
fn test_skip_extensions() {
    // A path on the skip list is skipped whatever the bytes hold.
    for path in ["test.md", "test.svg", "test.txt", "test.MD", "test.SVG", "test.TXT", "test.Mp4"]
    {
        match is_valid_data(path, &[]) {
            ValidationResult::Skipped { reason: SkipReason::SkippedExtension } => {}
            _ => panic!("Expected Skipped result for {}", path),
        }
    }

    match is_valid_data("test.ico", &tiff_with_gps()) {
        ValidationResult::Skipped { reason: SkipReason::SkippedExtension } => {}
        _ => panic!("Expected Skipped result for .ico file"),
    }
}

#[test]
fn notes_md_skipped() {
    match is_valid_data("notes.md", &[]) {
        ValidationResult::Skipped { reason: SkipReason::SkippedExtension } => {}
        _ => panic!("Expected Skipped result for notes.md"),
    }
}

#[test]
fn multi_dot_suffix_matches() {
    assert!(should_skip_validation("file.backup.md"));
    match is_valid_data("file.backup.md", &[]) {
        ValidationResult::Skipped { reason: SkipReason::SkippedExtension } => {}
        _ => panic!("Expected Skipped result for file.backup.md"),
    }
}

#[test]
fn gps_found_report_round_trips() {
    let data = tiff_with_gps();
    let result = is_valid_data("photo_with_gps.jpg", &data);
    let report = match result {
        ValidationResult::Invalid { reason: InvalidReason::GpsInfoFound, gps_data } => {
            gps_data.expect("a GPS report should be attached")
        }
        other => panic!("Expected Invalid with GpsInfoFound, got {:?}", other),
    };
    let parsed: serde_json::Value =
        serde_json::from_str(&report).expect("the report should be valid JSON");
    assert_eq!(
        parsed.get("file").and_then(|v| v.as_str()),
        Some("photo_with_gps.jpg")
    );
    let gps = parsed
        .get("gps")
        .and_then(|v| v.as_object())
        .expect("the report should hold a gps object");
    // exactly the present tags, under their canonical names
    assert_eq!(gps.len(), 2);
    let lat = gps
        .get("GPSLatitude")
        .and_then(|v| v.as_str())
        .expect("GPSLatitude should be reported");
    let lon = gps
        .get("GPSLongitude")
        .and_then(|v| v.as_str())
        .expect("GPSLongitude should be reported");
    // the display form, not the raw bytes
    assert!(!lat.is_empty());
    assert!(!lon.is_empty());
}

#[test]
fn clean_metadata_is_valid() {
    let data = tiff_without_gps();
    match is_valid_data("photo_clean.jpg", &data) {
        ValidationResult::Valid { reason: ValidReason::HasExifNoGps } => {}
        other => panic!("Expected Valid with HasExifNoGps, got {:?}", other),
    }
}

#[test]
fn png_without_metadata_is_valid() {
    let data = plain_png();
    match is_valid_data("plain.png", &data) {
        ValidationResult::Valid { reason: ValidReason::NoExifData } => {}
        other => panic!("Expected Valid with NoExifData, got {:?}", other),
    }
}

#[test]
fn corrupt_header_is_invalid_format() {
    let data = b"this is not an image at all".to_vec();
    match is_valid_data("corrupt.jpg", &data) {
        ValidationResult::Invalid { reason: InvalidReason::InvalidFormat(detail), gps_data } => {
            assert_eq!(detail, "Unknown image format");
            assert!(gps_data.is_none());
        }
        other => panic!("Expected Invalid with InvalidFormat, got {:?}", other),
    }
}

#[test]
fn repeated_calls_agree() {
    for data in [
        tiff_with_gps(),
        tiff_without_gps(),
        plain_png(),
        b"garbage".to_vec(),
        Vec::new(),
    ] {
        let first = is_valid_data("asset.jpg", &data);
        let second = is_valid_data("asset.jpg", &data);
        assert_eq!(first, second);
    }
}

#[test]
fn classification_is_case_insensitive() {
    // same verdict for paths that differ only in ASCII case
    let gps = tiff_with_gps();
    let a = is_valid_data("IMG.JPG", &gps);
    let b = is_valid_data("img.jpg", &gps);
    match (&a, &b) {
        (
            ValidationResult::Invalid { reason: ra, .. },
            ValidationResult::Invalid { reason: rb, .. },
        ) => assert_eq!(ra, rb),
        _ => panic!("Expected the same Invalid verdict, got {:?} and {:?}", a, b),
    }

    let a = is_valid_data("FILE.MD", &[]);
    let b = is_valid_data("file.md", &[]);
    assert_eq!(a, b);
    match a {
        ValidationResult::Skipped { reason: SkipReason::SkippedExtension } => {}
        _ => panic!("Expected Skipped for FILE.MD"),
    }
}

#[test]
fn publishable_and_severity_follow_the_outcome() {
    let gps = is_valid_data("photo.jpg", &tiff_with_gps());
    assert!(!is_publishable(&gps));
    assert_eq!(outcome_severity(&gps), LogLevel::Error);

    let clean = is_valid_data("photo.jpg", &tiff_without_gps());
    assert!(is_publishable(&clean));
    assert_eq!(outcome_severity(&clean), LogLevel::Warn);

    let bare = is_valid_data("plain.png", &plain_png());
    assert!(is_publishable(&bare));
    assert_eq!(outcome_severity(&bare), LogLevel::Debug);

    let skipped = is_valid_data("notes.md", &[]);
    assert!(is_publishable(&skipped));
    assert_eq!(outcome_severity(&skipped), LogLevel::Warn);

    let corrupt = is_valid_data("corrupt.jpg", b"junk");
    assert!(!is_publishable(&corrupt));
    assert_eq!(outcome_severity(&corrupt), LogLevel::Error);
}

#[test]
fn report_only_with_gps_reason() {
    // gps_data is attached only to the GpsInfoFound reason
    for data in [tiff_without_gps(), plain_png(), b"garbage".to_vec()] {
        match is_valid_data("asset.jpg", &data) {
            ValidationResult::Invalid { reason, gps_data } => {
                if gps_data.is_some() {
                    assert_eq!(reason, InvalidReason::GpsInfoFound);
                }
            }
            _ => {}
        }
    }
}
