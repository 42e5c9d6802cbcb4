//! Tests for the bounded-concurrency download queue, including an end-to-end
//! scenario through the parser and the fallback file pick.

use mediagrab::config::DownloadConfig;
use mediagrab::error::DownloadError;
use mediagrab::outcome::{find_latest_file, FileEntry};
use mediagrab::parser::{parse_progress_line, ParsedLine};
use mediagrab::queue::{DownloadQueue, QueueItemStatus};

fn config_for(url: &str) -> DownloadConfig {
    DownloadConfig {
        url: url.to_string(),
        format: "video-mp4".to_string(),
        quality: "best".to_string(),
        output_folder: "/downloads".to_string(),
        embed_subtitles: false,
        cookies_from_browser: None,
        filename_template: None,
        proxy_url: None,
        cookies_file_path: None,
    }
}

fn downloading_count(queue: &DownloadQueue) -> usize {
    queue
        .get_all()
        .iter()
        .filter(|it| matches!(it.status, QueueItemStatus::Downloading | QueueItemStatus::Merging))
        .count()
}

#[test]
fn test_queue_ids_are_monotonic_and_unique() {
    let mut queue = DownloadQueue::new(3);
    let a = queue.add(config_for("https://example.com/a"));
    let b = queue.add(config_for("https://example.com/b"));
    let c = queue.add(config_for("https://example.com/c"));
    assert_eq!(a.id, 1);
    assert_eq!(b.id, 2);
    assert_eq!(c.id, 3);
    assert_eq!(queue.pending_count(), 3);
}

#[test]
fn test_queue_concurrency_bound() {
    // Enqueuing more jobs than the limit never yields more running jobs than
    // the limit.
    let mut queue = DownloadQueue::new(2);
    for i in 0..6 {
        queue.add(config_for(&format!("https://example.com/v{}", i)));
    }
    let first = queue.pop_next();
    assert!(first.is_some());
    let second = queue.pop_next();
    assert!(second.is_some());
    // Both slots taken: nothing more is handed out.
    let third = queue.pop_next();
    assert!(third.is_none());
    assert_eq!(downloading_count(&queue), 2);
    assert_eq!(queue.active_count(), 2);

    // Finishing one job frees a slot.
    queue.complete(first.unwrap().id, "/downloads/a.mp4".to_string());
    assert!(downloading_count(&queue) <= 2);
    let fourth = queue.pop_next();
    assert!(fourth.is_some());
    assert_eq!(downloading_count(&queue), 2);
}

#[test]
fn test_terminal_only_removal() {
    let mut queue = DownloadQueue::new(3);
    let a = queue.add(config_for("https://example.com/a"));
    let popped = queue.pop_next().unwrap();
    assert_eq!(popped.id, a.id);
    assert_eq!(popped.status, QueueItemStatus::Downloading);

    // Removing a downloading item fails and leaves it listed.
    assert!(queue.remove(a.id).is_err());
    assert_eq!(queue.get_all().len(), 1);

    // Once completed, removal succeeds and the item disappears.
    queue.complete(a.id, "/downloads/a.mp4".to_string());
    assert!(queue.remove(a.id).is_ok());
    assert!(queue.get_all().is_empty());
    assert!(queue.get(a.id).is_none());
}

#[test]
fn test_cancel_pending_item() {
    let mut queue = DownloadQueue::new(3);
    let a = queue.add(config_for("https://example.com/a"));
    assert!(queue.cancel(a.id).is_ok());
    assert_eq!(queue.pending_count(), 0);
    assert_eq!(queue.get(a.id).unwrap().status, QueueItemStatus::Cancelled);
}

#[test]
fn test_cancel_active_item_releases_slot() {
    let mut queue = DownloadQueue::new(1);
    let a = queue.add(config_for("https://example.com/a"));
    queue.add(config_for("https://example.com/b"));
    queue.pop_next().unwrap();
    assert!(queue.pop_next().is_none());

    queue.cancel(a.id).unwrap();
    assert_eq!(queue.get(a.id).unwrap().status, QueueItemStatus::Cancelled);
    // The slot is free again for the next pending job.
    let b = queue.pop_next().unwrap();
    assert_eq!(b.status, QueueItemStatus::Downloading);
}

#[test]
fn test_fail_records_message() {
    let mut queue = DownloadQueue::new(3);
    let a = queue.add(config_for("https://example.com/a"));
    queue.pop_next().unwrap();
    queue.fail(a.id, DownloadError::NotFound);
    let item = queue.get(a.id).unwrap();
    assert_eq!(item.status, QueueItemStatus::Failed);
    assert_eq!(item.error, Some("Video not found".to_string()));
}

#[test]
fn test_clear_completed_sweeps_terminal_items() {
    let mut queue = DownloadQueue::new(3);
    let a = queue.add(config_for("https://example.com/a"));
    let b = queue.add(config_for("https://example.com/b"));
    let c = queue.add(config_for("https://example.com/c"));
    queue.pop_next().unwrap();
    queue.complete(a.id, "/downloads/a.mp4".to_string());
    queue.cancel(b.id).unwrap();

    queue.clear_completed();
    let remaining = queue.get_all();
    assert_eq!(remaining.len(), 1);
    assert_eq!(remaining[0].id, c.id);
}

#[test]
fn test_move_and_reorder_pending() {
    let mut queue = DownloadQueue::new(3);
    let a = queue.add(config_for("https://example.com/a"));
    let b = queue.add(config_for("https://example.com/b"));
    let c = queue.add(config_for("https://example.com/c"));

    queue.move_up(b.id);
    assert_eq!(queue.pop_next().unwrap().id, b.id);

    // Reorder keeps omitted pending ids after the listed ones.
    queue.reorder(vec![c.id]);
    assert_eq!(queue.pop_next().unwrap().id, c.id);
    assert_eq!(queue.pop_next().unwrap().id, a.id);
}

#[test]
fn test_pause_and_resume() {
    let mut queue = DownloadQueue::new(3);
    let a = queue.add(config_for("https://example.com/a"));
    queue.add(config_for("https://example.com/b"));

    queue.pause_all();
    assert!(!queue.has_pending());
    assert!(queue.pop_next().is_none());
    // The items stay listed as pending.
    assert_eq!(queue.get(a.id).unwrap().status, QueueItemStatus::Pending);

    queue.resume_all();
    assert_eq!(queue.pending_count(), 2);
    assert_eq!(queue.pop_next().unwrap().id, a.id);
}

#[test]
fn test_end_to_end_queue_scenario() {
    let mut queue = DownloadQueue::new(3);
    let a = queue.add(config_for("https://example.com/v1"));

    let popped = queue.pop_next().expect("a pending job must be handed out");
    assert_eq!(popped.id, a.id);
    assert_eq!(popped.status, QueueItemStatus::Downloading);

    // A pipe-delimited progress line drives the item's progress fields.
    let parsed = parse_progress_line("download:45.2%|24641536|54525952|2.5MiB/s|00:12");
    let event = match parsed {
        ParsedLine::Progress(e) => e,
        other => panic!("expected a progress event, got {:?}", other),
    };
    queue.update_progress(a.id, &event);
    let item = queue.get(a.id).unwrap();
    assert!((item.progress as f64 / 100.0 - 45.2).abs() < 0.01);
    assert_eq!(item.speed, "2.5MiB/s");
    assert_eq!(item.eta_seconds, Some(12));

    // A merge line moves the item to the merging phase.
    assert!(matches!(
        parse_progress_line("[Merger] Merging formats into \"/downloads/v1.mp4\""),
        ParsedLine::Merging
    ));
    queue.update_status(a.id, QueueItemStatus::Merging);
    assert_eq!(queue.get(a.id).unwrap().status, QueueItemStatus::Merging);

    // Exit code zero with no captured path: fall back to the newest
    // non-partial media file in the output folder.
    let entries = vec![
        FileEntry {
            path: "/downloads/v1.mp4.part".to_string(),
            modified_at: 300,
            is_file: true,
        },
        FileEntry { path: "/downloads/v1.mp4".to_string(), modified_at: 200, is_file: true },
        FileEntry { path: "/downloads".to_string(), modified_at: 400, is_file: false },
    ];
    let fallback = find_latest_file(&entries).expect("one eligible file must be found");
    assert_eq!(fallback, "/downloads/v1.mp4");

    queue.complete(a.id, fallback);
    let done = queue.get(a.id).unwrap();
    assert_eq!(done.status, QueueItemStatus::Completed);
    assert_eq!(done.file_path, Some("/downloads/v1.mp4".to_string()));
    assert_eq!(done.progress, 10000);
}
