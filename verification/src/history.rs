//! Download history records and statistics.
//!
//! Persistence itself is the caller's concern; here live the record types
//! and the bounded-insertion rule.

use vstd::prelude::*;

verus! {

/// Most history entries kept.
pub const MAX_HISTORY_ITEMS: usize = 500;

/// A single download history entry.
#[derive(Debug)]
pub struct HistoryItem {
    /// Unique identifier.
    pub id: String,
    /// Source URL.
    pub url: String,
    /// Media title.
    pub title: String,
    /// Thumbnail URL.
    pub thumbnail: Option<String>,
    /// Output format.
    pub format: String,
    /// Quality setting.
    pub quality: String,
    /// Output file path, when completed.
    pub file_path: Option<String>,
    /// File size in bytes, when known.
    pub file_size: Option<u64>,
    /// Duration in seconds, when known.
    pub duration: Option<u64>,
    /// Completion time, as seconds since the epoch.
    pub downloaded_at: i64,
    /// "completed" or "failed".
    pub status: String,
    /// Error message, when failed.
    pub error: Option<String>,
}

impl Clone for HistoryItem {
    /// Clones are equal to the original.
    fn clone(&self) -> (r: Self)
        ensures
            r == *self,
    {
        HistoryItem {
            id: self.id.clone(),
            url: self.url.clone(),
            title: self.title.clone(),
            thumbnail: self.thumbnail.clone(),
            format: self.format.clone(),
            quality: self.quality.clone(),
            file_path: self.file_path.clone(),
            file_size: self.file_size,
            duration: self.duration,
            downloaded_at: self.downloaded_at,
            status: self.status.clone(),
            error: self.error.clone(),
        }
    }
}

/// Aggregate download statistics.
#[derive(Debug, Clone)]
pub struct DownloadStats {
    /// Number of downloads recorded.
    pub total_downloads: u64,
    /// Number that completed.
    pub successful_downloads: u64,
    /// Number that failed.
    pub failed_downloads: u64,
    /// Total bytes downloaded.
    pub total_bytes_downloaded: u64,
    /// Total duration of downloaded media, in seconds.
    pub total_duration_seconds: u64,
}

impl Default for DownloadStats {
    /// Everything at zero.
    fn default() -> (r: Self)
        ensures
            r.total_downloads == 0,
            r.successful_downloads == 0,
            r.failed_downloads == 0,
            r.total_bytes_downloaded == 0,
            r.total_duration_seconds == 0,
    {
        DownloadStats {
            total_downloads: 0,
            successful_downloads: 0,
            failed_downloads: 0,
            total_bytes_downloaded: 0,
            total_duration_seconds: 0,
        }
    }
}

/// Insert a new entry at the front of the history and trim it to the bound.
pub fn history_insert(history: &mut Vec<HistoryItem>, item: HistoryItem)
    ensures
        final(history)@ == seq![item].add(old(history)@).take(
            if old(history)@.len() + 1 > MAX_HISTORY_ITEMS {
                MAX_HISTORY_ITEMS as int
            } else {
                old(history)@.len() + 1int
            },
        ),
{
    history.insert(0, item);
    if history.len() > MAX_HISTORY_ITEMS {
        history.truncate(MAX_HISTORY_ITEMS);
    }
    proof {
        assert(final(history)@ =~= seq![item].add(old(history)@).take(
            if old(history)@.len() + 1 > MAX_HISTORY_ITEMS {
                MAX_HISTORY_ITEMS as int
            } else {
                old(history)@.len() + 1int
            },
        ));
    }
}

} // verus!
