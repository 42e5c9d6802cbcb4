//! Download job configuration and result types.

use vstd::prelude::*;

verus! {

/// Configuration of one download job, immutable once the job is created.
#[derive(Debug)]
pub struct DownloadConfig {
    /// The URL to download from.
    pub url: String,
    /// Output format (video-mp4, audio-mp3, audio-best, ...).
    pub format: String,
    /// Quality setting (best, 1080p, 720p).
    pub quality: String,
    /// Output folder path.
    pub output_folder: String,
    /// Whether to embed subtitles.
    pub embed_subtitles: bool,
    /// Browser to import cookies from (chrome, firefox, edge, ...).
    pub cookies_from_browser: Option<String>,
    /// Custom filename template (e.g. "{title} - {uploader}").
    pub filename_template: Option<String>,
    /// Proxy URL (e.g. "http://127.0.0.1:8080").
    pub proxy_url: Option<String>,
    /// Path to a cookies file in Netscape format.
    pub cookies_file_path: Option<String>,
}

impl Clone for DownloadConfig {
    /// Clones are equal to the original.
    fn clone(&self) -> (r: Self)
        ensures
            r == *self,
    {
        DownloadConfig {
            url: self.url.clone(),
            format: self.format.clone(),
            quality: self.quality.clone(),
            output_folder: self.output_folder.clone(),
            embed_subtitles: self.embed_subtitles,
            cookies_from_browser: self.cookies_from_browser.clone(),
            filename_template: self.filename_template.clone(),
            proxy_url: self.proxy_url.clone(),
            cookies_file_path: self.cookies_file_path.clone(),
        }
    }
}

/// Result of a download operation.
#[derive(Debug)]
pub struct DownloadResult {
    /// Whether the download succeeded.
    pub success: bool,
    /// Path to the downloaded file, when successful.
    pub file_path: Option<String>,
    /// Error message, when failed.
    pub error: Option<String>,
}

impl Clone for DownloadResult {
    /// Clones are equal to the original.
    fn clone(&self) -> (r: Self)
        ensures
            r == *self,
    {
        DownloadResult {
            success: self.success,
            file_path: self.file_path.clone(),
            error: self.error.clone(),
        }
    }
}

} // verus!
