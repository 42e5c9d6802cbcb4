//! Tests for process-output classification, retry bookkeeping, and the
//! smaller reporting helpers.

use mediagrab::error::{
    parse_ytdlp_error, DownloadError, MediaInfoError, PreferencesError, QueueError, UpdateError,
};
use mediagrab::executables::summarize_executable_check;
use mediagrab::logging::{get_anonymized_logs, log_error, log_error_with_context, LogBuffer};
use mediagrab::manager::DownloadManager;
use mediagrab::outcome::{
    classify_exit, classify_stderr_line, classify_stdout_line, extract_output_path,
    is_valid_filepath, ProcessOutput, SpawnConfig,
};
use mediagrab::queue::{DownloadQueue, QueueItemStatus};
use mediagrab::state::DownloadState;
use mediagrab::update::interpret_update_output;

#[test]
fn test_classify_stdout_progress_merge_and_filepath() {
    let progress = classify_stdout_line("download:45.2%|100|200|1MiB/s|00:10");
    assert!(matches!(progress, Some(ProcessOutput::Progress(_))));

    let merging = classify_stdout_line("[Merger] Merging formats into \"/d/v.mp4\"");
    assert!(matches!(merging, Some(ProcessOutput::Merging)));

    let path = classify_stdout_line("/downloads/video.mp4");
    match path {
        Some(ProcessOutput::FilePath(p)) => assert_eq!(p, "/downloads/video.mp4"),
        other => panic!("expected a detected file path, got {:?}", other),
    }

    assert!(classify_stdout_line("[info] Downloading").is_none());
}

#[test]
fn test_classify_stderr_error_and_progress() {
    let err = classify_stderr_line("ERROR: Video is private");
    match err {
        Some(ProcessOutput::Error(e)) => assert!(matches!(e, DownloadError::PrivateVideo)),
        other => panic!("expected an error event, got {:?}", other),
    }

    let progress = classify_stderr_line("download:10.0%|1|2|1MiB/s|00:10");
    assert!(matches!(progress, Some(ProcessOutput::Progress(_))));

    assert!(classify_stderr_line("WARNING: something").is_none());
}

#[test]
fn test_classify_exit_codes() {
    assert!(matches!(classify_exit(true, Some(0)), ProcessOutput::Completed(_)));
    assert!(matches!(classify_exit(false, None), ProcessOutput::Terminated));
    assert!(matches!(classify_exit(false, Some(137)), ProcessOutput::Terminated));
    assert!(matches!(classify_exit(false, Some(9)), ProcessOutput::Terminated));
    match classify_exit(false, Some(2)) {
        ProcessOutput::ExitError(code) => assert_eq!(code, 2),
        other => panic!("expected an exit error, got {:?}", other),
    }
}

#[test]
fn test_is_valid_filepath_heuristic() {
    assert!(is_valid_filepath("/downloads/video.mp4"));
    assert!(is_valid_filepath("C:\\Downloads\\video.MKV"));
    assert!(!is_valid_filepath("relative/video.mp4"));
    assert!(!is_valid_filepath("/downloads/notes.txt"));
    assert!(!is_valid_filepath("[download] /downloads/video.mp4"));
    assert!(!is_valid_filepath("/downloads/video"));
}

#[test]
fn test_extract_output_path_destination() {
    let line = "[download] Destination: C:\\Downloads\\video.mp4";
    let path = extract_output_path(line);
    assert_eq!(path, Some("C:\\Downloads\\video.mp4".to_string()));
}

#[test]
fn test_extract_output_path_merger() {
    let line = "[Merger] Merging formats into \"C:\\Downloads\\video.mp4\"";
    let path = extract_output_path(line);
    assert_eq!(path, Some("C:\\Downloads\\video.mp4".to_string()));
}

#[test]
fn test_extract_output_path_no_match() {
    let line = "[info] Downloading video";
    let path = extract_output_path(line);
    assert!(path.is_none());
}

#[test]
fn test_spawn_config_default() {
    let config = SpawnConfig::default();
    assert_eq!(config.ytdlp_path, "yt-dlp");
    assert!(config.ffmpeg_location.is_none());
}

#[test]
fn test_interpret_update_output_cases() {
    let r = interpret_update_output(
        true,
        "yt-dlp is up to date",
        Some("2024.01.15".to_string()),
        Some("2024.01.15".to_string()),
    );
    assert!(r.success);
    assert!(!r.updated);
    assert_eq!(r.message, "yt-dlp is already up to date (2024.01.15)");
    assert_eq!(r.version, Some("2024.01.15".to_string()));

    let r = interpret_update_output(
        true,
        "Updating to 2024.12.06\ndone",
        Some("2024.01.15".to_string()),
        None,
    );
    assert!(r.success);
    assert!(r.updated);
    assert_eq!(r.version, Some("2024.12.06".to_string()));

    let r = interpret_update_output(
        false,
        "line one\nsomething broke",
        Some("2024.01.15".to_string()),
        None,
    );
    assert!(!r.success);
    assert_eq!(r.message, "Update failed: something broke");
    assert_eq!(r.version, Some("2024.01.15".to_string()));

    let r = interpret_update_output(false, "", None, None);
    assert_eq!(r.message, "Update failed with unknown error");
}

#[test]
fn test_summarize_executable_check() {
    let all = summarize_executable_check(true, true, true, Some("2024.01.15".to_string()), None);
    assert!(all.all_available);
    assert!(all.error.is_none());

    let some = summarize_executable_check(true, false, false, None, None);
    assert!(!some.all_available);
    let message = some.error.unwrap();
    assert!(message.contains("Missing required executables: ffmpeg, ffprobe"));
}

#[test]
fn test_log_error_entries_and_anonymized_dump() {
    let mut buf = LogBuffer::new();
    log_error(&mut buf, "t1".to_string(), r"failed for C:\Users\JohnDoe\a.mp4");
    log_error_with_context(&mut buf, "t2".to_string(), "spawn failed", "yt-dlp");
    let logs = get_anonymized_logs(&buf);
    assert!(logs.contains("<USER>"));
    assert!(!logs.contains("JohnDoe"));
    assert!(logs.contains("spawn failed (context: yt-dlp)"));
}

#[test]
fn test_manager_retry_bookkeeping() {
    let mut manager = DownloadManager::new();
    let config = mediagrab::config::DownloadConfig {
        url: "https://example.com/v".to_string(),
        format: "video-mp4".to_string(),
        quality: "best".to_string(),
        output_folder: "/downloads".to_string(),
        embed_subtitles: false,
        cookies_from_browser: None,
        filename_template: None,
        proxy_url: None,
        cookies_file_path: None,
    };
    manager.start_download(config).unwrap();
    assert_eq!(manager.get_retry_attempt(), 0);

    manager.start_downloading().unwrap();
    manager.fail(DownloadError::Timeout("timed out".to_string()));
    assert_eq!(
        manager.get_last_error(),
        Some("Timeout: timed out".to_string())
    );

    manager.increment_retry(&DownloadError::Timeout("timed out".to_string()));
    assert_eq!(manager.get_retry_attempt(), 1);

    manager.prepare_retry().unwrap();
    assert_eq!(manager.get_state(), DownloadState::Starting);
    assert!(manager.get_progress().is_none());
}

#[test]
fn test_queue_media_info_and_move_down() {
    let mut queue = DownloadQueue::new(3);
    let mk = |u: &str| mediagrab::config::DownloadConfig {
        url: u.to_string(),
        format: "video-mp4".to_string(),
        quality: "best".to_string(),
        output_folder: "/downloads".to_string(),
        embed_subtitles: false,
        cookies_from_browser: None,
        filename_template: None,
        proxy_url: None,
        cookies_file_path: None,
    };
    let a = queue.add(mk("https://example.com/a"));
    let b = queue.add(mk("https://example.com/b"));

    queue.set_media_info(a.id, "Title A".to_string(), Some("thumb".to_string()));
    let item = queue.get(a.id).unwrap();
    assert_eq!(item.title, Some("Title A".to_string()));
    assert_eq!(item.thumbnail, Some("thumb".to_string()));
    assert_eq!(item.status, QueueItemStatus::Pending);

    queue.move_down(a.id);
    assert_eq!(queue.pop_next().unwrap().id, b.id);
    assert_eq!(queue.pop_next().unwrap().id, a.id);
}

#[test]
fn test_error_to_command_strings() {
    assert_eq!(
        QueueError::ItemNotFound(42).to_command_error(),
        "Queue item not found: 42"
    );
    assert_eq!(
        QueueError::QueueFull(10).to_command_error(),
        "Queue is full (max 10 items)"
    );
    assert_eq!(
        PreferencesError::SaveError("disk".to_string()).to_command_error(),
        "Failed to save preferences: disk"
    );
    assert_eq!(
        UpdateError::UpdaterNotConfigured.to_command_error(),
        "App updater is not configured"
    );
    assert_eq!(
        MediaInfoError::EmptyUrl.to_command_error(),
        "URL cannot be empty"
    );
    let wrapped = MediaInfoError::from_download_error(DownloadError::NotFound);
    assert_eq!(wrapped.to_command_error(), "Video not found");
}

#[test]
fn test_parse_ytdlp_error_remaining_variants() {
    assert!(matches!(
        parse_ytdlp_error("ERROR: Sign in to confirm your age, restricted"),
        DownloadError::AgeRestricted
    ));
    assert!(matches!(
        parse_ytdlp_error("ERROR: not available in your country"),
        DownloadError::RegionLocked
    ));
    assert!(matches!(
        parse_ytdlp_error("ERROR: Video unavailable"),
        DownloadError::NotFound
    ));
    assert!(matches!(
        parse_ytdlp_error("ERROR: login required"),
        DownloadError::AuthenticationRequired
    ));
    match parse_ytdlp_error("ERROR: Unsupported URL: https://example.com/x") {
        DownloadError::UnsupportedUrl(u) => {
            assert_eq!(u, "ERROR: Unsupported URL: https://example.com/x")
        }
        other => panic!("expected an unsupported-URL error, got {:?}", other),
    }
    match parse_ytdlp_error("ERROR: request timed out") {
        DownloadError::Timeout(m) => assert_eq!(m, "ERROR: request timed out"),
        other => panic!("expected a timeout error, got {:?}", other),
    }
    match parse_ytdlp_error("some odd failure") {
        DownloadError::GenericError(m) => assert_eq!(m, "some odd failure"),
        other => panic!("expected a generic error, got {:?}", other),
    }
}
