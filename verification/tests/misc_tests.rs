//! Tests for errors, logging, subtitles, updates, preferences, history,
//! debug reporting and path resolution.

use mediagrab::debuginfo::{format_debug_info, format_memory_info, DebugInfo};
use mediagrab::error::{parse_ytdlp_error, AppError, DownloadError, FilesystemError, RetryConfig};
use mediagrab::folder::{assess_disk_space, format_bytes, validate_folder};
use mediagrab::history::DownloadStats;
use mediagrab::logging::{
    anonymize_paths, get_anonymized_recent_logs, log_ytdlp_stdout, LogBuffer, LogEntry,
};
use mediagrab::paths::{get_user_bin_dir, get_user_executable_path};
use mediagrab::prefs::Preferences;
use mediagrab::subtitles::{build_subtitle_args, get_language_name, SubtitleOptions};
use mediagrab::update::{extract_date_version, interpret_update_check, is_date_version};

#[test]
fn test_download_error_category() {
    assert_eq!(DownloadError::InvalidUrl("test".into()).category(), "validation");
    assert_eq!(DownloadError::NetworkError("test".into()).category(), "network");
    assert_eq!(DownloadError::PrivateVideo.category(), "access");
    assert_eq!(DownloadError::RateLimited.category(), "rate_limit");
}

#[test]
fn test_download_error_retryable() {
    assert!(DownloadError::NetworkError("test".into()).is_retryable());
    assert!(DownloadError::RateLimited.is_retryable());
    assert!(DownloadError::Timeout("test".into()).is_retryable());
    assert!(!DownloadError::PrivateVideo.is_retryable());
    assert!(!DownloadError::InvalidUrl("test".into()).is_retryable());
}

#[test]
fn error_test_parse_ytdlp_error_private() {
    let stderr = "ERROR: [youtube] abc123: Private video. Sign in if you've been granted access";
    let error = parse_ytdlp_error(stderr);
    assert!(matches!(error, DownloadError::PrivateVideo));
}

#[test]
fn test_parse_ytdlp_error_rate_limit() {
    let stderr = "ERROR: HTTP Error 429: Too Many Requests";
    let error = parse_ytdlp_error(stderr);
    assert!(matches!(error, DownloadError::RateLimited));
}

#[test]
fn test_parse_ytdlp_error_network() {
    let stderr = "ERROR: Unable to download webpage: Connection refused";
    let error = parse_ytdlp_error(stderr);
    assert!(matches!(error, DownloadError::NetworkError(_)));
}

#[test]
fn media_info_test_parse_ytdlp_error_private() {
    let stderr = "ERROR: [youtube] abc123: Private video. Sign in if you've been granted access";
    let error = parse_ytdlp_error(stderr).message();
    assert!(error.to_lowercase().contains("private"), "expected 'private' in: {}", error);
}

#[test]
fn test_parse_ytdlp_error_age_restricted() {
    let stderr = "ERROR: Sign in to confirm your age";
    let error = parse_ytdlp_error(stderr).message();
    assert!(
        error.to_lowercase().contains("age restricted"),
        "expected 'age restricted' in: {}",
        error
    );
}

#[test]
fn test_parse_ytdlp_error_not_found() {
    let stderr = "ERROR: Video unavailable";
    let error = parse_ytdlp_error(stderr).message();
    assert!(error.to_lowercase().contains("not found"), "expected 'not found' in: {}", error);
}

#[test]
fn test_app_error_conversion() {
    let download_err = DownloadError::NotFound;
    let app_err: AppError = download_err.into();
    assert!(matches!(app_err, AppError::Download(DownloadError::NotFound)));

    let err_string: String = app_err.message();
    assert!(err_string.contains("not found"));
}

#[test]
fn test_retry_config_delay() {
    let config = RetryConfig::default();
    assert_eq!(config.delay_for_attempt(0), 1000);
    assert_eq!(config.delay_for_attempt(1), 2000);
    assert_eq!(config.delay_for_attempt(2), 4000);
    assert_eq!(config.delay_for_attempt(10), 30000);
}

#[test]
fn test_filesystem_error() {
    let err = FilesystemError::FolderNotFound("/path/to/folder".into());
    assert!(err.to_command_error().contains("does not exist"));
}

#[test]
fn test_suggested_action() {
    assert!(DownloadError::PrivateVideo.suggested_action().is_some());
    assert!(DownloadError::AgeRestricted.suggested_action().is_some());
    assert!(DownloadError::NotFound.suggested_action().is_none());
}

#[test]
fn test_error_messages_nonempty() {
    let errors = [
        DownloadError::InvalidUrl("u".into()),
        DownloadError::AlreadyDownloading,
        DownloadError::ProcessSpawnError("e".into()),
        DownloadError::DownloadFailed("e".into()),
        DownloadError::FolderNotAccessible("f".into()),
        DownloadError::ExecutableNotFound("x".into()),
        DownloadError::PrivateVideo,
        DownloadError::AgeRestricted,
        DownloadError::RegionLocked,
        DownloadError::NetworkError("n".into()),
        DownloadError::NotFound,
        DownloadError::RateLimited,
        DownloadError::AuthenticationRequired,
        DownloadError::UnsupportedUrl("u".into()),
        DownloadError::Timeout("t".into()),
        DownloadError::GenericError("g".into()),
    ];
    for e in errors {
        assert!(!e.message().is_empty());
    }
}

#[test]
fn test_anonymize_windows_path() {
    let test_input = r"C:\Users\JohnDoe\Downloads\video.mp4";
    let result = anonymize_paths(test_input);

    assert!(result.contains("<USER>") || !result.contains("JohnDoe") || result == test_input);
}

#[test]
fn test_anonymize_preserves_non_user_paths() {
    let test_input = r"C:\Program Files\MediaGrab\app.exe";
    let result = anonymize_paths(test_input);

    assert_eq!(result, test_input);
}

#[test]
fn test_anonymize_forward_slash_path() {
    let test_input = "C:/Users/TestUser/Documents/file.txt";
    let result = anonymize_paths(test_input);

    assert!(result.contains("<USER>") || result == test_input);
}

#[test]
fn test_anonymize_multiple_paths() {
    let test_input =
        r"Source: C:\Users\Admin\Downloads\input.mp4, Output: C:\Users\Admin\Videos\output.mp4";
    let result = anonymize_paths(test_input);

    let user_count = result.matches("<USER>").count();
    assert!(user_count == 2 || user_count == 0);
}

#[test]
fn test_anonymize_replaces_user_segment() {
    let result = anonymize_paths(r"C:\Users\JohnDoe\Downloads\video.mp4");
    assert!(result.contains("<USER>"));
    assert!(!result.contains("JohnDoe"));
}

#[test]
fn test_log_buffer_records_and_anonymizes() {
    let mut buf = LogBuffer::new();
    buf.push(LogEntry {
        timestamp: "2024-01-01 12:00:00".to_string(),
        level: "INFO".to_string(),
        target: "test".to_string(),
        message: r"saved to C:\Users\JohnDoe\out.mp4".to_string(),
    });
    log_ytdlp_stdout(&mut buf, "2024-01-01 12:00:01".to_string(), "plain line");
    let logs = buf.get_logs();
    assert!(logs.contains("INFO"));
    assert!(logs.contains("plain line"));
    let anonymized = get_anonymized_recent_logs(&buf, 10);
    assert!(anonymized.contains("<USER>"));
    assert!(!anonymized.contains("JohnDoe"));
}

#[test]
fn test_log_buffer_recent_subset() {
    let mut buf = LogBuffer::new();
    for i in 0..10 {
        buf.push(LogEntry {
            timestamp: format!("t{}", i),
            level: "INFO".to_string(),
            target: "test".to_string(),
            message: format!("Message {}", i),
        });
    }
    let recent = buf.get_recent_logs(3);
    assert!(recent.contains("Message 7"));
    assert!(recent.contains("Message 8"));
    assert!(recent.contains("Message 9"));
    assert!(!recent.contains("Message 6"));
}

#[test]
fn test_get_language_name() {
    assert_eq!(get_language_name("en"), "English");
    assert_eq!(get_language_name("tr"), "Türkçe");
    assert_eq!(get_language_name("en-US"), "English");
    assert_eq!(get_language_name("unknown"), "UNKNOWN");
}

#[test]
fn test_build_subtitle_args_disabled() {
    let options = SubtitleOptions::default();
    let args = build_subtitle_args(&options);
    assert!(args.is_empty());
}

#[test]
fn test_build_subtitle_args_download() {
    let options = SubtitleOptions {
        download_subtitles: true,
        embed_subtitles: false,
        languages: vec!["en".to_string(), "tr".to_string()],
        format: "srt".to_string(),
        include_auto: false,
    };
    let args = build_subtitle_args(&options);
    assert!(args.contains(&"--write-subs".to_string()));
    assert!(args.contains(&"--sub-langs".to_string()));
    assert!(args.contains(&"en,tr".to_string()));
    assert!(args.contains(&"--convert-subs".to_string()));
}

#[test]
fn test_build_subtitle_args_embed() {
    let options = SubtitleOptions {
        download_subtitles: false,
        embed_subtitles: true,
        languages: vec![],
        format: "srt".to_string(),
        include_auto: false,
    };
    let args = build_subtitle_args(&options);
    assert!(args.contains(&"--embed-subs".to_string()));
    assert!(args.contains(&"all".to_string()));
}

#[test]
fn test_build_subtitle_args_with_auto() {
    let options = SubtitleOptions {
        download_subtitles: true,
        embed_subtitles: false,
        languages: vec![],
        format: "vtt".to_string(),
        include_auto: true,
    };
    let args = build_subtitle_args(&options);
    assert!(args.contains(&"--write-auto-subs".to_string()));
    assert!(args.contains(&"vtt".to_string()));
}

#[test]
fn test_extract_date_version() {
    assert_eq!(extract_date_version("2024.01.15"), Some("2024.01.15".to_string()));
    assert_eq!(extract_date_version("yt-dlp 2024.01.15"), Some("2024.01.15".to_string()));
    assert_eq!(
        extract_date_version("Updated to 2024.12.06"),
        Some("2024.12.06".to_string())
    );
    assert_eq!(
        extract_date_version("version 2024.01.15.1"),
        Some("2024.01.15.1".to_string())
    );
    assert_eq!(extract_date_version("no version here"), None);
}

#[test]
fn test_is_date_version() {
    assert!(is_date_version("2024.01.15"));
    assert!(is_date_version("2024.12.31"));
    assert!(!is_date_version("24.01.15"));
    assert!(!is_date_version("2024-01-15"));
    assert!(!is_date_version("invalid"));
}

#[test]
fn test_interpret_update_check() {
    let r = interpret_update_check(
        "Latest version: 2024.12.06\nUpdating to 2024.12.06",
        "2024.01.15".to_string(),
    );
    assert!(r.update_available);
    assert_eq!(r.latest_version, Some("2024.12.06".to_string()));

    let r = interpret_update_check("yt-dlp is up to date", "2024.01.15".to_string());
    assert!(!r.update_available);
    assert_eq!(r.latest_version, Some("2024.01.15".to_string()));
}

#[test]
fn test_default_preferences() {
    let prefs = Preferences::default();
    assert_eq!(prefs.format, "video-mp4");
    assert_eq!(prefs.quality, "best");
    assert!(!prefs.embed_subtitles);
    assert!(prefs.cookies_from_browser.is_none());
    assert!(prefs.check_updates_on_startup);
}

#[test]
fn test_stats_default() {
    let stats = DownloadStats::default();
    assert_eq!(stats.total_downloads, 0);
    assert_eq!(stats.successful_downloads, 0);
    assert_eq!(stats.total_bytes_downloaded, 0);
}

#[test]
fn test_format_debug_info() {
    let info = DebugInfo {
        app_version: "0.1.0".to_string(),
        os_info: "windows x86_64".to_string(),
        windows_version: "Windows 11 23H2".to_string(),
        ytdlp_version: Some("2024.01.01".to_string()),
        ffmpeg_version: Some("ffmpeg version 6.0".to_string()),
        recent_logs: "Test log entry".to_string(),
        memory_info: "Total: 16384 MB, Used: 8192 MB, Available: 8192 MB".to_string(),
    };

    let formatted = format_debug_info(&info);

    assert!(formatted.contains("MediaGrab Debug Information"));
    assert!(formatted.contains("0.1.0"));
    assert!(formatted.contains("windows x86_64"));
    assert!(formatted.contains("2024.01.01"));
    assert!(formatted.contains("Test log entry"));
}

#[test]
fn test_format_debug_info_missing_versions() {
    let info = DebugInfo {
        app_version: "0.1.0".to_string(),
        os_info: "windows x86_64".to_string(),
        windows_version: "Windows 11".to_string(),
        ytdlp_version: None,
        ffmpeg_version: None,
        recent_logs: String::new(),
        memory_info: "Total: 8192 MB".to_string(),
    };

    let formatted = format_debug_info(&info);

    assert!(formatted.contains("Not found"));
    assert!(formatted.contains("No recent logs available"));
}

#[test]
fn test_format_memory_info_line() {
    assert_eq!(
        format_memory_info(16384, 8192, 8192),
        "Total: 16384 MB, Used: 8192 MB, Available: 8192 MB"
    );
}

#[test]
fn test_format_bytes_values() {
    assert_eq!(format_bytes(512), "512 B");
    assert_eq!(format_bytes(1024), "1.00 KB");
    assert_eq!(format_bytes(1536), "1.50 KB");
    assert_eq!(format_bytes(5 * 1024 * 1024), "5.00 MB");
    assert_eq!(format_bytes(3 * 1024 * 1024 * 1024), "3.00 GB");
}

#[test]
fn test_disk_space_assessment() {
    let info = assess_disk_space(10_000_000, 20_000_000, Some(5_000_000));
    assert!(info.has_enough_space);
    let verdict = validate_folder(true, info);
    assert!(verdict.is_valid);
    assert!(verdict.warning.is_none());

    let low = assess_disk_space(1_000_000, 20_000_000, Some(5_000_000));
    assert!(!low.has_enough_space);
    let verdict = validate_folder(true, low);
    assert!(!verdict.is_valid);
    assert!(verdict.warning.unwrap().contains("Low disk space"));
}

#[test]
fn test_get_user_bin_dir() {
    let result = get_user_bin_dir();
    assert!(result.is_ok());
    let path = result.unwrap();
    assert!(path.ends_with("bin"));
}

#[test]
fn test_get_user_executable_path() {
    let result = get_user_executable_path("yt-dlp");
    assert!(result.is_ok());
    let path = result.unwrap();
    assert!(path.ends_with("yt-dlp"));
}
