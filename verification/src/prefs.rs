//! User preferences.

use vstd::prelude::*;

verus! {

use vstd::string::StrSliceExecFns;
use vstd::string::StringExecFns;

/// Persisted user preferences.
#[derive(Debug)]
pub struct Preferences {
    /// Output folder path for downloads.
    pub output_folder: String,
    /// Output format (video-mp4, audio-mp3, audio-best).
    pub format: String,
    /// Quality setting (best, 1080p, 720p).
    pub quality: String,
    /// Whether to embed subtitles.
    pub embed_subtitles: bool,
    /// Browser to import cookies from.
    pub cookies_from_browser: Option<String>,
    /// Whether to check for downloader updates on startup.
    pub check_updates_on_startup: bool,
    /// Whether a proxy is enabled.
    pub proxy_enabled: bool,
    /// Proxy URL.
    pub proxy_url: Option<String>,
}

impl Clone for Preferences {
    /// Clones are equal to the original.
    fn clone(&self) -> (r: Self)
        ensures
            r == *self,
    {
        Preferences {
            output_folder: self.output_folder.clone(),
            format: self.format.clone(),
            quality: self.quality.clone(),
            embed_subtitles: self.embed_subtitles,
            cookies_from_browser: self.cookies_from_browser.clone(),
            check_updates_on_startup: self.check_updates_on_startup,
            proxy_enabled: self.proxy_enabled,
            proxy_url: self.proxy_url.clone(),
        }
    }
}

/// Whether update checks default to on.
pub fn default_check_updates() -> (r: bool)
    ensures
        r,
{
    true
}

/// Relies on dirs::download_dir: the platform download directory, when the
/// environment names one.
#[verifier::external_body]
fn download_dir_string() -> Option<String> {
    dirs::download_dir().map(|p| p.to_string_lossy().into_owned())
}

/// Relies on dirs::home_dir: the user's home directory, when the environment
/// names one.
#[verifier::external_body]
fn home_dir_string() -> Option<String> {
    dirs::home_dir().map(|p| p.to_string_lossy().into_owned())
}

/// The default downloads folder: the platform download directory, else a
/// folder under the home directory, else a fixed fallback.
pub fn get_default_downloads_folder() -> String {
    match download_dir_string() {
        Some(p) => p,
        None => {
            match home_dir_string() {
                Some(mut h) => {
                    h.append("/Downloads");
                    h
                },
                None => String::from_str("C:\\Downloads"),
            }
        },
    }
}

impl Default for Preferences {
    /// Video output at best quality into the default downloads folder, with
    /// update checks on and everything else off.
    fn default() -> (r: Self)
        ensures
            r.format@ == "video-mp4"@,
            r.quality@ == "best"@,
            !r.embed_subtitles,
            r.cookies_from_browser is None,
            r.check_updates_on_startup,
            !r.proxy_enabled,
            r.proxy_url is None,
    {
        Preferences {
            output_folder: get_default_downloads_folder(),
            format: String::from_str("video-mp4"),
            quality: String::from_str("best"),
            embed_subtitles: false,
            cookies_from_browser: None,
            check_updates_on_startup: true,
            proxy_enabled: false,
            proxy_url: None,
        }
    }
}

} // verus!
