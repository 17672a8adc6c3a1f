//! The privacy classifier for media assets.
//!
//! Given a path and the file's bytes it decides whether the embedded
//! metadata directory exposes geolocation (GPS) information and returns
//! one verdict out of a closed taxonomy: `Valid`, `Invalid` or
//! `Skipped`, each with a reason code.  Absence of metadata is safe;
//! metadata that cannot be parsed is conservatively blocked.

use vstd::prelude::*;
use vstd::string::StringExecFns;
use crate::text::{ends_with_lower, lower};
use std::io::Cursor;

verus! {

/// How many tags the GPS tag set holds.  The standardized GPS metadata
/// directory assigns them the consecutive tag numbers 0x0 through 0x1f;
/// the set is closed and must not be made dynamically extensible.
pub const GPS_TAG_COUNT: u16 = 32;

/// Whether the primary metadata directory contains any GPS tag.
#[derive(Debug, Clone, PartialEq, Eq, Structural)]
pub enum GpsDetectionResult {
    Found,
    NotFound,
}

/// Why a file is considered safe to publish.
#[derive(Debug, Clone, PartialEq, Eq, Structural)]
pub enum ValidReason {
    HasExifNoGps,
    NoExifData,
    BlankExifValues,
}

/// Why a file is blocked from publishing.
#[derive(Debug, Clone, PartialEq)]
pub enum InvalidReason {
    GpsInfoFound,
    InvalidFormat(String),
    FileTooLarge(String),
    ExifError(String),
}

/// Why validation of a file was skipped without inspecting it.
#[derive(Debug, Clone, PartialEq, Eq, Structural)]
pub enum SkipReason {
    /// The file extension is in the skip list.
    SkippedExtension,
}

/// What the classifier decides; every call returns exactly one.
#[derive(Debug, Clone, PartialEq)]
pub enum ValidationResult {
    Valid { reason: ValidReason },
    Invalid { reason: InvalidReason, gps_data: Option<String> },
    Skipped { reason: SkipReason },
}

/// Mathematical model of an `InvalidReason`.
pub enum InvalidReasonView {
    GpsInfoFound,
    InvalidFormat(Seq<char>),
    FileTooLarge(Seq<char>),
    ExifError(Seq<char>),
}

/// Mathematical model of a `ValidationResult`.
pub enum ValidationResultView {
    Valid { reason: ValidReason },
    Invalid { reason: InvalidReasonView, gps_data: Option<Seq<char>> },
    Skipped { reason: SkipReason },
}

impl View for InvalidReason {
    type V = InvalidReasonView;

    open spec fn view(&self) -> InvalidReasonView {
        match self {
            InvalidReason::GpsInfoFound => InvalidReasonView::GpsInfoFound,
            InvalidReason::InvalidFormat(m) => InvalidReasonView::InvalidFormat(m@),
            InvalidReason::FileTooLarge(m) => InvalidReasonView::FileTooLarge(m@),
            InvalidReason::ExifError(m) => InvalidReasonView::ExifError(m@),
        }
    }
}

impl View for ValidationResult {
    type V = ValidationResultView;

    open spec fn view(&self) -> ValidationResultView {
        match self {
            ValidationResult::Valid { reason } => ValidationResultView::Valid { reason: *reason },
            ValidationResult::Invalid { reason, gps_data } => ValidationResultView::Invalid {
                reason: reason@,
                gps_data: match gps_data {
                    Some(s) => Some(s@),
                    None => None,
                },
            },
            ValidationResult::Skipped { reason } => ValidationResultView::Skipped {
                reason: *reason,
            },
        }
    }
}

/// The classifier's own failure report for an unreadable metadata
/// directory, one variant per condition the parsing layer reports.
#[derive(Debug, Clone, PartialEq)]
pub enum ExifFailure {
    /// The container structure is malformed or unsupported.
    InvalidFormat(String),
    /// No metadata directory is present at all.
    NotFound(String),
    /// The directory is present but its values are blank.
    BlankValue(String),
    /// The directory exceeds the parser's safety size ceiling.
    TooBig(String),
    /// Any other parser failure.
    Other(String),
}

/// Mathematical model of an `ExifFailure`.
pub enum ExifFailureView {
    InvalidFormat(Seq<char>),
    NotFound(Seq<char>),
    BlankValue(Seq<char>),
    TooBig(Seq<char>),
    Other(Seq<char>),
}

impl View for ExifFailure {
    type V = ExifFailureView;

    open spec fn view(&self) -> ExifFailureView {
        match self {
            ExifFailure::InvalidFormat(m) => ExifFailureView::InvalidFormat(m@),
            ExifFailure::NotFound(m) => ExifFailureView::NotFound(m@),
            ExifFailure::BlankValue(m) => ExifFailureView::BlankValue(m@),
            ExifFailure::TooBig(m) => ExifFailureView::TooBig(m@),
            ExifFailure::Other(m) => ExifFailureView::Other(m@),
        }
    }
}

/// The error-mapping policy: absence of metadata is safe, an
/// unreadable, oversized or corrupt metadata block is blocked.
pub open spec fn spec_map_failure(f: ExifFailureView) -> ValidationResultView {
    match f {
        ExifFailureView::InvalidFormat(m) => ValidationResultView::Invalid {
            reason: InvalidReasonView::InvalidFormat(m),
            gps_data: None,
        },
        ExifFailureView::NotFound(_) => ValidationResultView::Valid {
            reason: ValidReason::NoExifData,
        },
        ExifFailureView::BlankValue(_) => ValidationResultView::Valid {
            reason: ValidReason::BlankExifValues,
        },
        ExifFailureView::TooBig(m) => ValidationResultView::Invalid {
            reason: InvalidReasonView::FileTooLarge(m),
            gps_data: None,
        },
        ExifFailureView::Other(m) => ValidationResultView::Invalid {
            reason: InvalidReasonView::ExifError(m),
            gps_data: None,
        },
    }
}

/// Map a parse failure to the outcome the policy prescribes.
pub fn handle_exif_error(exif_err: ExifFailure) -> (r: ValidationResult)
    ensures
        r@ == spec_map_failure(exif_err@),
{
    match exif_err {
        ExifFailure::InvalidFormat(msg) => ValidationResult::Invalid {
            reason: InvalidReason::InvalidFormat(msg),
            gps_data: None,
        },
        ExifFailure::NotFound(_msg) => ValidationResult::Valid {
            reason: ValidReason::NoExifData,
        },
        ExifFailure::BlankValue(_msg) => ValidationResult::Valid {
            reason: ValidReason::BlankExifValues,
        },
        ExifFailure::TooBig(msg) => ValidationResult::Invalid {
            reason: InvalidReason::FileTooLarge(msg),
            gps_data: None,
        },
        ExifFailure::Other(msg) => ValidationResult::Invalid {
            reason: InvalidReason::ExifError(msg),
            gps_data: None,
        },
    }
}

/// Lowercased suffixes that exempt a path from inspection: formats
/// known never to carry a privacy-relevant metadata directory.
pub open spec fn spec_should_skip(source: Seq<char>) -> bool {
    ||| ".md"@.is_suffix_of(lower(source))
    ||| ".mermaid"@.is_suffix_of(lower(source))
    ||| ".mp3"@.is_suffix_of(lower(source))
    ||| ".mp4"@.is_suffix_of(lower(source))
    ||| ".webm"@.is_suffix_of(lower(source))
    ||| ".pptx"@.is_suffix_of(lower(source))
    ||| ".svg"@.is_suffix_of(lower(source))
    ||| ".txt"@.is_suffix_of(lower(source))
    ||| ".ico"@.is_suffix_of(lower(source))
}

/// The extension gate: should this path skip validation?  The test is
/// a case-insensitive suffix match, so a multi-dot name such as
/// `file.backup.md` matches `.md`.
pub fn should_skip_validation(source: &str) -> (r: bool)
    ensures
        r == spec_should_skip(source@),
{
    ends_with_lower(source, ".md") || ends_with_lower(source, ".mermaid") || ends_with_lower(
        source,
        ".mp3",
    ) || ends_with_lower(source, ".mp4") || ends_with_lower(source, ".webm") || ends_with_lower(
        source,
        ".pptx",
    ) || ends_with_lower(source, ".svg") || ends_with_lower(source, ".txt") || ends_with_lower(
        source,
        ".ico",
    )
}

#[verifier::external_type_specification]
#[verifier::external_body]
pub struct ExExif(exif::Exif);

/// The GPS tags of the primary image file directory of a parsed
/// metadata value, as a map from tag number to the parser's
/// human-readable rendering of the tag's value.
pub uninterp spec fn exif_gps_fields(e: exif::Exif) -> Map<u16, Seq<char>>;

/// Whether the metadata parser accepts these file bytes.
pub uninterp spec fn exif_parses(data: Seq<u8>) -> bool;

/// The GPS tags (with display renderings) that parsing these file
/// bytes yields; meaningful when `exif_parses(data)` holds.
pub uninterp spec fn exif_gps_of(data: Seq<u8>) -> Map<u16, Seq<char>>;

/// The failure that parsing these file bytes reports; meaningful when
/// `exif_parses(data)` does not hold.
pub uninterp spec fn exif_failure_of(data: Seq<u8>) -> ExifFailureView;

/// Relies on `exif::Reader::read_from_container`: parsing is a pure
/// function of the bytes read, and each `exif::Error` variant is
/// carried over into the corresponding `ExifFailure` variant with the
/// error's message (`Error::to_string` for variants beyond the four
/// the policy distinguishes).
#[verifier::external_body]
fn read_exif(data: &[u8]) -> (r: Result<exif::Exif, ExifFailure>)
    ensures
        match r {
            Ok(e) => exif_parses(data@) && exif_gps_fields(e) == exif_gps_of(data@),
            Err(f) => !exif_parses(data@) && f@ == exif_failure_of(data@),
        },
{
    match exif::Reader::new().read_from_container(&mut Cursor::new(data)) {
        Ok(e) => Ok(e),
        Err(exif::Error::InvalidFormat(m)) => Err(ExifFailure::InvalidFormat(m.to_string())),
        Err(exif::Error::NotFound(m)) => Err(ExifFailure::NotFound(m.to_string())),
        Err(exif::Error::BlankValue(m)) => Err(ExifFailure::BlankValue(m.to_string())),
        Err(exif::Error::TooBig(m)) => Err(ExifFailure::TooBig(m.to_string())),
        Err(e) => Err(ExifFailure::Other(e.to_string())),
    }
}

/// Relies on `exif::Exif::get_field` (GPS context, primary image file
/// directory) and `exif::Field::display_value`: presence and rendering
/// of a GPS tag are functions of the parsed metadata value.
#[verifier::external_body]
fn gps_field_display(e: &exif::Exif, code: u16) -> (r: Option<String>)
    ensures
        match r {
            Some(s) => exif_gps_fields(*e).contains_key(code) && s@ == exif_gps_fields(*e)[code],
            None => !exif_gps_fields(*e).contains_key(code),
        },
{
    e.get_field(exif::Tag(exif::Context::Gps, code), exif::In::PRIMARY).map(
        |f| f.display_value().to_string(),
    )
}

/// The canonical name of a GPS tag, by tag number.
pub open spec fn spec_gps_tag_name(code: int) -> Seq<char> {
    if code == 0 {
        "GPSVersionID"@
    } else if code == 1 {
        "GPSLatitudeRef"@
    } else if code == 2 {
        "GPSLatitude"@
    } else if code == 3 {
        "GPSLongitudeRef"@
    } else if code == 4 {
        "GPSLongitude"@
    } else if code == 5 {
        "GPSAltitudeRef"@
    } else if code == 6 {
        "GPSAltitude"@
    } else if code == 7 {
        "GPSTimeStamp"@
    } else if code == 8 {
        "GPSSatellites"@
    } else if code == 9 {
        "GPSStatus"@
    } else if code == 10 {
        "GPSMeasureMode"@
    } else if code == 11 {
        "GPSDOP"@
    } else if code == 12 {
        "GPSSpeedRef"@
    } else if code == 13 {
        "GPSSpeed"@
    } else if code == 14 {
        "GPSTrackRef"@
    } else if code == 15 {
        "GPSTrack"@
    } else if code == 16 {
        "GPSImgDirectionRef"@
    } else if code == 17 {
        "GPSImgDirection"@
    } else if code == 18 {
        "GPSMapDatum"@
    } else if code == 19 {
        "GPSDestLatitudeRef"@
    } else if code == 20 {
        "GPSDestLatitude"@
    } else if code == 21 {
        "GPSDestLongitudeRef"@
    } else if code == 22 {
        "GPSDestLongitude"@
    } else if code == 23 {
        "GPSDestBearingRef"@
    } else if code == 24 {
        "GPSDestBearing"@
    } else if code == 25 {
        "GPSDestDistanceRef"@
    } else if code == 26 {
        "GPSDestDistance"@
    } else if code == 27 {
        "GPSProcessingMethod"@
    } else if code == 28 {
        "GPSAreaInformation"@
    } else if code == 29 {
        "GPSDateStamp"@
    } else if code == 30 {
        "GPSDifferential"@
    } else if code == 31 {
        "GPSHPositioningError"@
    } else {
        ""@
    }
}

/// The canonical name of a GPS tag, by tag number.
pub fn gps_tag_name(code: u16) -> (name: &'static str)
    requires
        code < GPS_TAG_COUNT,
    ensures
        name@ == spec_gps_tag_name(code as int),
{
    match code {
        0 => "GPSVersionID",
        1 => "GPSLatitudeRef",
        2 => "GPSLatitude",
        3 => "GPSLongitudeRef",
        4 => "GPSLongitude",
        5 => "GPSAltitudeRef",
        6 => "GPSAltitude",
        7 => "GPSTimeStamp",
        8 => "GPSSatellites",
        9 => "GPSStatus",
        10 => "GPSMeasureMode",
        11 => "GPSDOP",
        12 => "GPSSpeedRef",
        13 => "GPSSpeed",
        14 => "GPSTrackRef",
        15 => "GPSTrack",
        16 => "GPSImgDirectionRef",
        17 => "GPSImgDirection",
        18 => "GPSMapDatum",
        19 => "GPSDestLatitudeRef",
        20 => "GPSDestLatitude",
        21 => "GPSDestLongitudeRef",
        22 => "GPSDestLongitude",
        23 => "GPSDestBearingRef",
        24 => "GPSDestBearing",
        25 => "GPSDestDistanceRef",
        26 => "GPSDestDistance",
        27 => "GPSProcessingMethod",
        28 => "GPSAreaInformation",
        29 => "GPSDateStamp",
        30 => "GPSDifferential",
        _ => "GPSHPositioningError",
    }
}

/// Does the tag map hold any tag of the GPS tag set?
pub open spec fn spec_has_gps(m: Map<u16, Seq<char>>) -> bool {
    exists|c: u16| c < GPS_TAG_COUNT && m.contains_key(c)
}

/// The report entries for the first `n` GPS tag numbers: each present
/// tag contributes its canonical name and display rendering, in tag
/// order, with nothing else.
pub open spec fn spec_gps_entries(m: Map<u16, Seq<char>>, n: int) -> Seq<(Seq<char>, Seq<char>)>
    decreases n,
{
    if n <= 0 {
        Seq::empty()
    } else if m.contains_key((n - 1) as u16) {
        spec_gps_entries(m, n - 1).push((spec_gps_tag_name(n - 1), m[(n - 1) as u16]))
    } else {
        spec_gps_entries(m, n - 1)
    }
}

/// Scan the parsed metadata directory for GPS information: a pure
/// existence check over the GPS tag set.
pub fn has_gps_information(exif_data: &exif::Exif) -> (r: GpsDetectionResult)
    ensures
        (r == GpsDetectionResult::Found) == spec_has_gps(exif_gps_fields(*exif_data)),
{
    let mut code: u16 = 0;
    while code < GPS_TAG_COUNT
        invariant
            code <= GPS_TAG_COUNT,
            forall|c: u16| c < code ==> !exif_gps_fields(*exif_data).contains_key(c),
        decreases GPS_TAG_COUNT - code,
    {
        if gps_field_display(exif_data, code).is_some() {
            return GpsDetectionResult::Found;
        }
        code += 1;
    }
    GpsDetectionResult::NotFound
}

/// The present GPS tags of the parsed metadata directory, each with
/// its canonical name and display rendering, in tag order.
pub fn collect_gps_entries(exif_data: &exif::Exif) -> (entries: Vec<(String, String)>)
    ensures
        entries.deep_view() == spec_gps_entries(
            exif_gps_fields(*exif_data),
            GPS_TAG_COUNT as int,
        ),
{
    let ghost m = exif_gps_fields(*exif_data);
    let mut entries: Vec<(String, String)> = Vec::new();
    let mut code: u16 = 0;
    proof {
        assert(entries.deep_view() =~= spec_gps_entries(m, 0));
    }
    while code < GPS_TAG_COUNT
        invariant
            code <= GPS_TAG_COUNT,
            m == exif_gps_fields(*exif_data),
            entries.deep_view() == spec_gps_entries(m, code as int),
        decreases GPS_TAG_COUNT - code,
    {
        let ghost old_dv = entries.deep_view();
        match gps_field_display(exif_data, code) {
            Some(value) => {
                let name = gps_tag_name(code);
                entries.push((name.to_owned(), value));
                proof {
                    assert(entries.deep_view() =~= old_dv.push(
                        (spec_gps_tag_name(code as int), m[code]),
                    ));
                }
            },
            None => {},
        }
        code += 1;
    }
    entries
}

/// The pretty-printed JSON report for a file and its GPS report
/// entries: `{"file": <file>, "gps": {<name>: <rendering>, ...}}`.
pub uninterp spec fn gps_json(file: Seq<char>, entries: Seq<(Seq<char>, Seq<char>)>) -> Seq<char>;

/// Whether serializing that report succeeds.
pub uninterp spec fn gps_json_ok(file: Seq<char>, entries: Seq<(Seq<char>, Seq<char>)>) -> bool;

/// Relies on `serde_json::to_string_pretty` (with `serde_json::Map`
/// and `serde_json::Value` holding the converted entries): the output,
/// and whether serialization succeeds, are functions of the serialized
/// value alone.  On failure the serializer's own message comes back.
#[verifier::external_body]
fn render_gps_report(file: &str, entries: &Vec<(String, String)>) -> (r: Result<String, String>)
    ensures
        match r {
            Ok(s) => gps_json_ok(file@, entries.deep_view()) && s@ == gps_json(
                file@,
                entries.deep_view(),
            ),
            Err(_) => !gps_json_ok(file@, entries.deep_view()),
        },
{
    let mut gps = serde_json::Map::new();
    for (name, value) in entries.iter() {
        gps.insert(name.clone(), serde_json::Value::String(value.clone()));
    }
    let mut root = serde_json::Map::new();
    root.insert("file".to_string(), serde_json::Value::String(file.to_string()));
    root.insert("gps".to_string(), serde_json::Value::Object(gps));
    serde_json::to_string_pretty(&serde_json::Value::Object(root)).map_err(|e| e.to_string())
}

/// Collect the present GPS tags and serialize the JSON report for
/// them; on serialization failure the error message, prefixed
/// `Failed to format GPS data as JSON: `, is returned instead and the
/// caller omits the report.
pub fn collect_gps_data(exif_data: &exif::Exif, source: &str) -> (r: Result<String, String>)
    ensures
        ({
            let entries = spec_gps_entries(exif_gps_fields(*exif_data), GPS_TAG_COUNT as int);
            match r {
                Ok(s) => gps_json_ok(source@, entries) && s@ == gps_json(source@, entries),
                Err(e) => !gps_json_ok(source@, entries) && "Failed to format GPS data as JSON: "@.is_prefix_of(
                    e@,
                ),
            }
        }),
{
    let entries = collect_gps_entries(exif_data);
    match render_gps_report(source, &entries) {
        Ok(report) => Ok(report),
        Err(raw) => {
            let message = String::from_str("Failed to format GPS data as JSON: ").concat(
                raw.as_str(),
            );
            proof {
                assert("Failed to format GPS data as JSON: "@.is_prefix_of(message@)) by {
                    assert("Failed to format GPS data as JSON: "@ =~= message@.subrange(
                        0,
                        "Failed to format GPS data as JSON: "@.len() as int,
                    ));
                }
            }
            Err(message)
        },
    }
}

/// The classifier as a mathematical function of the path and the
/// file's bytes.
pub open spec fn spec_classify(source: Seq<char>, data: Seq<u8>) -> ValidationResultView {
    if spec_should_skip(source) {
        ValidationResultView::Skipped { reason: SkipReason::SkippedExtension }
    } else if exif_parses(data) {
        if spec_has_gps(exif_gps_of(data)) {
            ValidationResultView::Invalid {
                reason: InvalidReasonView::GpsInfoFound,
                gps_data: ({
                    let entries = spec_gps_entries(exif_gps_of(data), GPS_TAG_COUNT as int);
                    if gps_json_ok(source, entries) {
                        Some(gps_json(source, entries))
                    } else {
                        None
                    }
                }),
            }
        } else {
            ValidationResultView::Valid { reason: ValidReason::HasExifNoGps }
        }
    } else {
        spec_map_failure(exif_failure_of(data))
    }
}

/// Classify a media asset from its path and bytes.
///
/// A path matching the skip list is skipped whatever the bytes hold;
/// otherwise the bytes are handed to the metadata parser and the
/// outcome follows the scanner and the error-mapping policy.
pub fn is_valid_data(source: &str, data: &[u8]) -> (r: ValidationResult)
    ensures
        r@ == spec_classify(source@, data@),
{
    if should_skip_validation(source) {
        return ValidationResult::Skipped { reason: SkipReason::SkippedExtension };
    }
    match read_exif(data) {
        Ok(exif_data) => match has_gps_information(&exif_data) {
            GpsDetectionResult::Found => match collect_gps_data(&exif_data, source) {
                Ok(gps_json_text) => ValidationResult::Invalid {
                    reason: InvalidReason::GpsInfoFound,
                    gps_data: Some(gps_json_text),
                },
                Err(_json_error) => ValidationResult::Invalid {
                    reason: InvalidReason::GpsInfoFound,
                    gps_data: None,
                },
            },
            GpsDetectionResult::NotFound => ValidationResult::Valid {
                reason: ValidReason::HasExifNoGps,
            },
        },
        Err(exif_err) => handle_exif_error(exif_err),
    }
}

proof fn lemma_entries_nonempty_iff_gps(m: Map<u16, Seq<char>>, n: int)
    requires
        0 <= n <= GPS_TAG_COUNT,
    ensures
        (spec_gps_entries(m, n).len() > 0) <==> exists|c: u16| (c as int) < n && m.contains_key(c),
    decreases n,
{
    if n > 0 {
        lemma_entries_nonempty_iff_gps(m, n - 1);
        if m.contains_key((n - 1) as u16) {
            assert((((n - 1) as u16) as int) < n && m.contains_key((n - 1) as u16));
        } else {
            assert forall|c: u16| (c as int) < n && m.contains_key(c) implies (c as int) < n - 1
                && m.contains_key(c) by {
                assert(c != (n - 1) as u16);
            }
        }
    }
}

/// The scanner and the report agree: the metadata directory holds a
/// GPS tag exactly when the report mapping has at least one entry.
pub proof fn lemma_gps_report_nonempty(m: Map<u16, Seq<char>>)
    ensures
        spec_has_gps(m) <==> spec_gps_entries(m, GPS_TAG_COUNT as int).len() > 0,
{
    lemma_entries_nonempty_iff_gps(m, GPS_TAG_COUNT as int);
    assert(spec_has_gps(m) <==> exists|c: u16|
        (c as int) < GPS_TAG_COUNT as int && m.contains_key(c)) by {
        if spec_has_gps(m) {
            let c = choose|c: u16| c < GPS_TAG_COUNT && m.contains_key(c);
            assert((c as int) < GPS_TAG_COUNT as int && m.contains_key(c));
        }
        if exists|c: u16| (c as int) < GPS_TAG_COUNT as int && m.contains_key(c) {
            let c = choose|c: u16| (c as int) < GPS_TAG_COUNT as int && m.contains_key(c);
            assert(c < GPS_TAG_COUNT && m.contains_key(c));
        }
    }
}

/// May the asset be published on this outcome?  `Valid` and `Skipped`
/// say yes; `Invalid` blocks.
pub fn is_publishable(result: &ValidationResult) -> (r: bool)
    ensures
        r == !(result@ is Invalid),
{
    match result {
        ValidationResult::Valid { .. } => true,
        ValidationResult::Invalid { .. } => false,
        ValidationResult::Skipped { .. } => true,
    }
}

/// The severity an outcome is reported at: found GPS data and every
/// blocked outcome are errors, camera metadata without GPS and a
/// skipped path are warnings, absence of metadata is debug chatter.
pub fn outcome_severity(result: &ValidationResult) -> (r: crate::logger::LogLevel)
    ensures
        r == match result@ {
            ValidationResultView::Valid { reason } => match reason {
                ValidReason::HasExifNoGps => crate::logger::LogLevel::Warn,
                ValidReason::NoExifData => crate::logger::LogLevel::Debug,
                ValidReason::BlankExifValues => crate::logger::LogLevel::Warn,
            },
            ValidationResultView::Invalid { .. } => crate::logger::LogLevel::Error,
            ValidationResultView::Skipped { .. } => crate::logger::LogLevel::Warn,
        },
{
    match result {
        ValidationResult::Valid { reason } => match reason {
            ValidReason::HasExifNoGps => crate::logger::LogLevel::Warn,
            ValidReason::NoExifData => crate::logger::LogLevel::Debug,
            ValidReason::BlankExifValues => crate::logger::LogLevel::Warn,
        },
        ValidationResult::Invalid { .. } => crate::logger::LogLevel::Error,
        ValidationResult::Skipped { .. } => crate::logger::LogLevel::Warn,
    }
}

/// A parsed metadata directory with at least one GPS tag blocks the
/// asset: the outcome is `Invalid` with `GpsInfoFound`, and the
/// attached report (when serialization succeeds) is the JSON document
/// for exactly the present tags' names and display renderings.
pub proof fn lemma_gps_found_blocks(source: Seq<char>, data: Seq<u8>)
    requires
        !spec_should_skip(source),
        exif_parses(data),
        spec_has_gps(exif_gps_of(data)),
    ensures
        spec_classify(source, data) matches ValidationResultView::Invalid { reason, gps_data }
            && reason == InvalidReasonView::GpsInfoFound && gps_data == ({
            let entries = spec_gps_entries(exif_gps_of(data), GPS_TAG_COUNT as int);
            if gps_json_ok(source, entries) {
                Some(gps_json(source, entries))
            } else {
                None
            }
        }),
{
}

/// A parsed metadata directory without GPS tags is safe: the outcome
/// is `Valid` with `HasExifNoGps`.
pub proof fn lemma_no_gps_is_valid(source: Seq<char>, data: Seq<u8>)
    requires
        !spec_should_skip(source),
        exif_parses(data),
        !spec_has_gps(exif_gps_of(data)),
    ensures
        spec_classify(source, data) == (ValidationResultView::Valid {
            reason: ValidReason::HasExifNoGps,
        }),
{
}

/// A file without any metadata directory is safe: the outcome is
/// `Valid` with `NoExifData`.
pub proof fn lemma_no_metadata_is_valid(source: Seq<char>, data: Seq<u8>)
    requires
        !spec_should_skip(source),
        !exif_parses(data),
        exif_failure_of(data) is NotFound,
    ensures
        spec_classify(source, data) == (ValidationResultView::Valid {
            reason: ValidReason::NoExifData,
        }),
{
}

/// A GPS report is attached only to the `GpsInfoFound` reason: any
/// other outcome carries none.
pub proof fn lemma_report_only_with_gps(source: Seq<char>, data: Seq<u8>)
    ensures
        spec_classify(source, data) matches ValidationResultView::Invalid { reason, gps_data }
            ==> (gps_data is Some ==> reason == InvalidReasonView::GpsInfoFound),
{
}

/// Classification is deterministic: two outcomes for the same path and
/// the same bytes are identical, so repeated calls on an unchanged
/// file agree.
pub proof fn lemma_classify_deterministic(
    source: Seq<char>,
    data: Seq<u8>,
    r1: ValidationResultView,
    r2: ValidationResultView,
)
    requires
        r1 == spec_classify(source, data),
        r2 == spec_classify(source, data),
    ensures
        r1 == r2,
{
}

/// A path matching the skip list is skipped whatever the file holds:
/// the outcome is `Skipped` with `SkippedExtension` for any bytes.
pub proof fn lemma_skip_ignores_data(source: Seq<char>, data: Seq<u8>)
    requires
        spec_should_skip(source),
    ensures
        spec_classify(source, data) == (ValidationResultView::Skipped {
            reason: SkipReason::SkippedExtension,
        }),
{
}

/// Do two outcomes agree, the GPS report aside — same variant and same
/// reason?  The report is left out because it embeds the path itself.
pub open spec fn same_verdict(a: ValidationResultView, b: ValidationResultView) -> bool {
    match (a, b) {
        (
            ValidationResultView::Valid { reason: ra },
            ValidationResultView::Valid { reason: rb },
        ) => ra == rb,
        (
            ValidationResultView::Invalid { reason: ra, .. },
            ValidationResultView::Invalid { reason: rb, .. },
        ) => ra == rb,
        (
            ValidationResultView::Skipped { reason: ra },
            ValidationResultView::Skipped { reason: rb },
        ) => ra == rb,
        _ => false,
    }
}

/// Classification is case-insensitive in the path: two paths that
/// agree up to ASCII case get the same verdict for the same bytes.
pub proof fn lemma_classify_case_insensitive(s1: Seq<char>, s2: Seq<char>, data: Seq<u8>)
    requires
        lower(s1) == lower(s2),
    ensures
        same_verdict(spec_classify(s1, data), spec_classify(s2, data)),
{
    assert(spec_should_skip(s1) == spec_should_skip(s2));
}

} // verus!
