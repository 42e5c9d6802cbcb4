//! Tests for the single-job download manager.

use mediagrab::config::DownloadConfig;
use mediagrab::error::DownloadError;
use mediagrab::manager::DownloadManager;
use mediagrab::progress::ProgressEvent;
use mediagrab::state::DownloadState;

fn create_test_config() -> DownloadConfig {
    DownloadConfig {
        url: "https://youtube.com/watch?v=test".to_string(),
        format: "video-mp4".to_string(),
        quality: "best".to_string(),
        output_folder: "C:\\Downloads".to_string(),
        embed_subtitles: false,
        cookies_from_browser: None,
        filename_template: None,
        proxy_url: None,
        cookies_file_path: None,
    }
}

#[test]
fn test_new_manager_is_idle() {
    let manager = DownloadManager::new();
    assert_eq!(manager.get_state(), DownloadState::Idle);
    assert!(!manager.is_active());
}

#[test]
fn test_start_download_transitions_to_starting() {
    let mut manager = DownloadManager::new();
    let config = create_test_config();

    manager.start_download(config).unwrap();
    assert_eq!(manager.get_state(), DownloadState::Starting);
    assert!(manager.is_active());
}

#[test]
fn test_cannot_start_while_active() {
    let mut manager = DownloadManager::new();
    let config1 = create_test_config();
    let mut config2 = create_test_config();
    config2.url = "https://youtube.com/watch?v=test2".to_string();
    config2.format = "audio-mp3".to_string();

    manager.start_download(config1).unwrap();
    let result = manager.start_download(config2);

    assert!(matches!(result, Err(DownloadError::AlreadyDownloading)));
}

#[test]
fn test_first_job_config_unaffected_by_second_start() {
    let mut manager = DownloadManager::new();
    let config1 = create_test_config();
    let mut config2 = create_test_config();
    config2.url = "https://youtube.com/watch?v=other".to_string();

    manager.start_download(config1).unwrap();
    let result = manager.start_download(config2);
    assert!(matches!(result, Err(DownloadError::AlreadyDownloading)));

    let kept = manager.get_active_download().unwrap();
    assert_eq!(kept.url, "https://youtube.com/watch?v=test");
}

#[test]
fn test_complete_download_flow() {
    let mut manager = DownloadManager::new();
    let config = create_test_config();

    manager.start_download(config).unwrap();
    assert_eq!(manager.get_state(), DownloadState::Starting);

    manager.start_downloading().unwrap();
    assert_eq!(manager.get_state(), DownloadState::Downloading);

    manager.start_merging().unwrap();
    assert_eq!(manager.get_state(), DownloadState::Merging);

    let result = manager.complete("C:\\Downloads\\video.mp4".to_string()).unwrap();
    assert!(result.success);
    assert_eq!(result.file_path, Some("C:\\Downloads\\video.mp4".to_string()));
    assert_eq!(manager.get_state(), DownloadState::Completed);
}

#[test]
fn test_cancel_download() {
    let mut manager = DownloadManager::new();
    let config = create_test_config();

    manager.start_download(config).unwrap();
    manager.start_downloading().unwrap();

    manager.cancel().unwrap();
    assert_eq!(manager.get_state(), DownloadState::Cancelled);
}

#[test]
fn test_fail_download() {
    let mut manager = DownloadManager::new();
    let config = create_test_config();

    manager.start_download(config).unwrap();
    manager.start_downloading().unwrap();

    let result = manager.fail(DownloadError::NetworkError("Connection failed".to_string()));
    assert!(!result.success);
    assert!(result.error.is_some());
    assert_eq!(manager.get_state(), DownloadState::Failed);
}

#[test]
fn test_reset_after_completion() {
    let mut manager = DownloadManager::new();
    let config = create_test_config();

    manager.start_download(config).unwrap();
    manager.start_downloading().unwrap();
    manager.complete("C:\\Downloads\\video.mp4".to_string()).unwrap();

    manager.reset().unwrap();
    assert_eq!(manager.get_state(), DownloadState::Idle);
    assert!(manager.get_active_download().is_none());
}

#[test]
fn test_cannot_reset_while_active() {
    let mut manager = DownloadManager::new();
    let config = create_test_config();

    manager.start_download(config).unwrap();
    manager.start_downloading().unwrap();

    let result = manager.reset();
    assert!(result.is_err());
}

#[test]
fn test_progress_update() {
    let mut manager = DownloadManager::new();

    let progress = ProgressEvent {
        percentage: 5000,
        downloaded_bytes: 1024 * 1024,
        total_bytes: Some(2 * 1024 * 1024),
        speed: "1.0MiB/s".to_string(),
        eta_seconds: Some(60),
        status: "downloading".to_string(),
    };

    manager.update_progress(progress.clone());

    let retrieved = manager.get_progress();
    assert!(retrieved.is_some());
    assert_eq!(retrieved.unwrap(), progress);
}
