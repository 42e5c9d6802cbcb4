//! Tests for the output parser: progress lines, byte sizes, ETAs, merge
//! detection, and stderr error classification.

use mediagrab::error::DownloadError;
use mediagrab::parser::{
    clean_speed_string, parse_bytes_optional, parse_error_line, parse_eta, parse_percentage,
    parse_progress_line, ErrorCategory, ParsedError, ParsedLine,
};

fn pct(event_percentage: u32) -> f64 {
    event_percentage as f64 / 100.0
}

#[test]
fn test_parse_basic_progress_line() {
    let line = "download:45.2|23.5MiB|52.1MiB|2.5MiB/s|00:12";
    let result = parse_progress_line(line);

    if let ParsedLine::Progress(event) = result {
        assert!((pct(event.percentage) - 45.2).abs() < 0.01);
        assert_eq!(event.speed, "2.5MiB/s");
        assert_eq!(event.eta_seconds, Some(12));
        assert_eq!(event.status, "downloading");
    } else {
        panic!("expected a progress event, got {:?}", result);
    }
}

#[test]
fn test_parse_progress_without_prefix() {
    let line = "45.2|24641536|54525952|2.5MiB/s|00:12";
    let result = parse_progress_line(line);

    if let ParsedLine::Progress(event) = result {
        assert!((pct(event.percentage) - 45.2).abs() < 0.01);
        assert_eq!(event.downloaded_bytes, 24641536);
        assert_eq!(event.total_bytes, Some(54525952));
        assert_eq!(event.speed, "2.5MiB/s");
        assert_eq!(event.eta_seconds, Some(12));
    } else {
        panic!("expected a progress event, got {:?}", result);
    }
}

#[test]
fn test_parse_progress_with_na_percentage() {
    let line = "NA|111672|392544|125.62KiB/s|Unknown";
    let result = parse_progress_line(line);

    if let ParsedLine::Progress(event) = result {
        assert!(pct(event.percentage) > 28.0 && pct(event.percentage) < 29.0);
        assert_eq!(event.downloaded_bytes, 111672);
        assert_eq!(event.total_bytes, Some(392544));
        assert_eq!(event.speed, "125.62KiB/s");
        assert!(event.eta_seconds.is_none());
    } else {
        panic!("expected a progress event, got {:?}", result);
    }
}

#[test]
fn test_parse_progress_with_na_total() {
    let line = "NA|111672|NA|125.62KiB/s|Unknown";
    let result = parse_progress_line(line);

    if let ParsedLine::Progress(event) = result {
        assert_eq!(event.percentage, 0);
        assert_eq!(event.downloaded_bytes, 111672);
        assert!(event.total_bytes.is_none());
    } else {
        panic!("expected a progress event, got {:?}", result);
    }
}

#[test]
fn test_parse_real_ytdlp_output() {
    let line = "NA|1024|NA|   1.48KiB/s|Unknown";
    let result = parse_progress_line(line);

    if let ParsedLine::Progress(event) = result {
        assert_eq!(event.downloaded_bytes, 1024);
        assert!(event.total_bytes.is_none());
        assert_eq!(event.speed, "1.48KiB/s");
        assert!(event.eta_seconds.is_none());
    } else {
        panic!("expected a progress event, got {:?}", result);
    }
}

#[test]
fn test_parse_final_progress_line() {
    let line = "NA|392544|392544|971.05KiB/s|NA";
    let result = parse_progress_line(line);

    if let ParsedLine::Progress(event) = result {
        assert_eq!(event.downloaded_bytes, 392544);
        assert_eq!(event.total_bytes, Some(392544));
        assert!((pct(event.percentage) - 100.0).abs() < 0.01);
    } else {
        panic!("expected a progress event, got {:?}", result);
    }
}

#[test]
fn test_parse_progress_with_raw_bytes() {
    let line = "download:45.2%|24641536|54525952|2.5MiB/s|00:12";
    let result = parse_progress_line(line);

    if let ParsedLine::Progress(event) = result {
        assert!((pct(event.percentage) - 45.2).abs() < 0.01);
        assert_eq!(event.downloaded_bytes, 24641536);
        assert_eq!(event.total_bytes, Some(54525952));
        assert_eq!(event.speed, "2.5MiB/s");
        assert_eq!(event.eta_seconds, Some(12));
        assert_eq!(event.status, "downloading");
    } else {
        panic!("expected a progress event, got {:?}", result);
    }
}

#[test]
fn test_parse_progress_with_none_total() {
    let line = "download:10.0%|5242880|None|1.0MiB/s|N/A";
    let result = parse_progress_line(line);

    if let ParsedLine::Progress(event) = result {
        assert!((pct(event.percentage) - 10.0).abs() < 0.01);
        assert_eq!(event.downloaded_bytes, 5242880);
        assert!(event.total_bytes.is_none());
        assert!(event.eta_seconds.is_none());
    } else {
        panic!("expected a progress event, got {:?}", result);
    }
}

#[test]
fn test_parse_progress_with_na_values() {
    let line = "download:10.0%|5.0MiB|N/A|1.0MiB/s|N/A";
    let result = parse_progress_line(line);

    if let ParsedLine::Progress(event) = result {
        assert!((pct(event.percentage) - 10.0).abs() < 0.01);
        assert!(event.total_bytes.is_none());
        assert!(event.eta_seconds.is_none());
    } else {
        panic!("expected a progress event, got {:?}", result);
    }
}

#[test]
fn test_parse_eta_formats() {
    assert_eq!(parse_eta("01:30"), Some(90));
    assert_eq!(parse_eta("01:30:45"), Some(5445));
    assert_eq!(parse_eta("45"), Some(45));
    assert_eq!(parse_eta("N/A"), None);
}

#[test]
fn test_parse_eta_absent_markers() {
    assert_eq!(parse_eta("Unknown"), None);
    assert_eq!(parse_eta(""), None);
    assert_eq!(parse_eta("not a time"), None);
    assert_eq!(parse_eta("1:2:3:4"), None);
}

#[test]
fn test_parse_bytes() {
    assert_eq!(parse_bytes_optional("100B"), Some(100));
    assert_eq!(parse_bytes_optional("1KiB"), Some(1024));
    assert_eq!(parse_bytes_optional("1MiB"), Some(1024 * 1024));
    assert_eq!(parse_bytes_optional("1GiB"), Some(1024 * 1024 * 1024));
    assert_eq!(parse_bytes_optional("N/A"), None);
}

#[test]
fn test_parse_bytes_round_trip_fixed_values() {
    // A value formatted as digits plus a binary unit parses back exactly.
    for n in [0u64, 1, 7, 23, 999, 4096] {
        assert_eq!(parse_bytes_optional(&format!("{}B", n)), Some(n));
        assert_eq!(parse_bytes_optional(&format!("{}KiB", n)), Some(n * 1024));
        assert_eq!(parse_bytes_optional(&format!("{}MiB", n)), Some(n * 1024 * 1024));
        assert_eq!(
            parse_bytes_optional(&format!("{}GiB", n)),
            Some(n * 1024 * 1024 * 1024)
        );
    }
    // Fractional sizes scale within rounding tolerance.
    assert_eq!(parse_bytes_optional("23.5MiB"), Some(24641536));
    assert_eq!(parse_bytes_optional("0.5KiB"), Some(512));
}

#[test]
fn test_merging_detection() {
    assert!(matches!(
        parse_progress_line("[Merger] Merging formats"),
        ParsedLine::Merging
    ));
    assert!(matches!(
        parse_progress_line("[ffmpeg] Converting"),
        ParsedLine::Merging
    ));
    assert!(matches!(
        parse_progress_line("Merging video and audio"),
        ParsedLine::Merging
    ));
}

#[test]
fn test_merging_detection_with_surrounding_text() {
    assert!(matches!(
        parse_progress_line("xx [Merger] yy"),
        ParsedLine::Merging
    ));
    assert!(matches!(
        parse_progress_line("download:45.2%|1|2|s|3 [ffmpeg]"),
        ParsedLine::Merging
    ));
}

#[test]
fn test_unknown_lines() {
    assert!(matches!(parse_progress_line(""), ParsedLine::Unknown));
    assert!(matches!(parse_progress_line("random text"), ParsedLine::Unknown));
    assert!(matches!(
        parse_progress_line("[info] Downloading"),
        ParsedLine::Unknown
    ));
}

#[test]
fn test_percentage_clamping() {
    let line = "download:150.0%|100MiB|100MiB|0B/s|00:00";
    if let ParsedLine::Progress(event) = parse_progress_line(line) {
        assert!(pct(event.percentage) <= 100.0);
    }

    let line = "download:-10.0%|0MiB|100MiB|1MiB/s|01:00";
    if let ParsedLine::Progress(event) = parse_progress_line(line) {
        assert!(pct(event.percentage) >= 0.0);
    }
}

#[test]
fn test_parse_percentage_values() {
    assert_eq!(parse_percentage("45.2"), 4520);
    assert_eq!(parse_percentage(" 45.2% "), 4520);
    assert_eq!(parse_percentage("150.0"), 10000);
    assert_eq!(parse_percentage("-10.0"), 0);
    assert_eq!(parse_percentage("NA"), 0);
    assert_eq!(parse_percentage("garbage"), 0);
    assert_eq!(parse_percentage("100"), 10000);
}

#[test]
fn test_clean_speed_placeholder() {
    assert_eq!(clean_speed_string("Unknown"), "--");
    assert_eq!(clean_speed_string("  2.5MiB/s "), "2.5MiB/s");
}

#[test]
fn test_legacy_download_format() {
    let line = "[download]  45.2% of  52.3MiB at  2.5MiB/s ETA 00:12";
    if let ParsedLine::Progress(event) = parse_progress_line(line) {
        assert!((pct(event.percentage) - 45.2).abs() < 0.01);
        assert_eq!(event.speed, "2.5MiB/s");
        assert_eq!(event.eta_seconds, Some(12));
        assert_eq!(event.total_bytes, Some(54840524));
    } else {
        panic!("expected a progress event");
    }
}

#[test]
fn test_legacy_informational_lines_are_unknown() {
    assert!(matches!(
        parse_progress_line("[download] Destination: video.mp4 5%"),
        ParsedLine::Unknown
    ));
    assert!(matches!(
        parse_progress_line("[download] video.mp4 has already been downloaded 100%"),
        ParsedLine::Unknown
    ));
}

#[test]
fn test_parse_private_video_error() {
    let line = "ERROR: Video is private";
    let result = parse_error_line(line);
    assert!(result.is_some());
    let parsed = result.unwrap();
    assert_eq!(parsed.category, ErrorCategory::PrivateVideo);
    assert!(!parsed.message.is_empty());
}

#[test]
fn test_parse_age_restricted_error() {
    let line = "ERROR: Sign in to confirm your age";
    let result = parse_error_line(line);
    assert!(result.is_some());
    let parsed = result.unwrap();
    assert_eq!(parsed.category, ErrorCategory::AgeRestricted);
}

#[test]
fn test_parse_region_locked_error() {
    let line = "ERROR: Video not available in your country";
    let result = parse_error_line(line);
    assert!(result.is_some());
    let parsed = result.unwrap();
    assert_eq!(parsed.category, ErrorCategory::RegionLocked);
}

#[test]
fn test_parse_network_error() {
    let line = "ERROR: Unable to download webpage: Connection timed out";
    let result = parse_error_line(line);
    assert!(result.is_some());
    let parsed = result.unwrap();
    assert_eq!(parsed.category, ErrorCategory::NetworkError);
}

#[test]
fn test_parse_not_found_error() {
    let line = "ERROR: Video unavailable";
    let result = parse_error_line(line);
    assert!(result.is_some());
    let parsed = result.unwrap();
    assert_eq!(parsed.category, ErrorCategory::NotFound);
}

#[test]
fn test_parse_generic_error() {
    let line = "ERROR: Some unknown error occurred";
    let result = parse_error_line(line);
    assert!(result.is_some());
    let parsed = result.unwrap();
    assert_eq!(parsed.category, ErrorCategory::GenericError);
    assert!(!parsed.message.is_empty());
}

#[test]
fn test_non_error_lines_return_none() {
    assert!(parse_error_line("").is_none());
    assert!(parse_error_line("random text").is_none());
    assert!(parse_error_line("[info] Downloading").is_none());
    assert!(parse_error_line("WARNING: Something").is_none());
}

#[test]
fn test_error_with_prefix() {
    let line = "[youtube] abc123: ERROR: Video is private";
    let result = parse_error_line(line);
    assert!(result.is_some());
    let parsed = result.unwrap();
    assert_eq!(parsed.category, ErrorCategory::PrivateVideo);
}

#[test]
fn test_error_to_download_error_conversion() {
    let parsed = ParsedError {
        category: ErrorCategory::PrivateVideo,
        message: "Test message".to_string(),
    };
    let download_error: DownloadError = parsed.into();
    assert!(matches!(download_error, DownloadError::PrivateVideo));

    let parsed = ParsedError {
        category: ErrorCategory::NetworkError,
        message: "Network failed".to_string(),
    };
    let download_error: DownloadError = parsed.into();
    assert!(matches!(download_error, DownloadError::NetworkError(_)));
}

#[test]
fn test_private_video_takes_precedence_over_age_markers() {
    // A line carrying both a private-video and an age-restriction marker is
    // categorized by the first family in precedence order.
    let line = "ERROR: Video is private and age-restricted, sign in";
    let parsed = parse_error_line(line).unwrap();
    assert_eq!(parsed.category, ErrorCategory::PrivateVideo);
}
