//! Executable availability reporting.
//!
//! Probing the filesystem and the search path stays with the caller; here
//! lives the summary it reports.

use vstd::prelude::*;

use crate::text::join_with;

verus! {

use vstd::string::StrSliceExecFns;
use vstd::string::StringExecFns;

/// Result of checking the external executables.
#[derive(Debug)]
pub struct ExecutableCheckResult {
    /// Whether every executable is available.
    pub all_available: bool,
    /// Downloader availability.
    pub ytdlp_available: bool,
    /// Media toolchain availability.
    pub ffmpeg_available: bool,
    /// Media prober availability.
    pub ffprobe_available: bool,
    /// Error message when something is missing.
    pub error: Option<String>,
    /// Downloader version, when available.
    pub ytdlp_version: Option<String>,
    /// Toolchain version, when available.
    pub ffmpeg_version: Option<String>,
}

/// Resolved executable paths as reported to the interface.
#[derive(Debug)]
pub struct ExecutablePathsResponse {
    /// Path to the downloader.
    pub ytdlp: String,
    /// Path to the media toolchain.
    pub ffmpeg: String,
    /// Path to the media prober.
    pub ffprobe: String,
    /// Directory containing the toolchain.
    pub ffmpeg_dir: String,
}

/// The names of the missing executables, in their fixed order.
pub open spec fn missing_names(ytdlp: bool, ffmpeg: bool, ffprobe: bool) -> Seq<Seq<char>> {
    (if !ytdlp {
        seq!["yt-dlp"@]
    } else {
        Seq::empty()
    }).add(
        if !ffmpeg {
            seq!["ffmpeg"@]
        } else {
            Seq::empty()
        },
    ).add(
        if !ffprobe {
            seq!["ffprobe"@]
        } else {
            Seq::empty()
        },
    )
}

/// Summarize an executable probe: availability flags, versions, and a
/// message naming whatever is missing.
pub fn summarize_executable_check(
    ytdlp_available: bool,
    ffmpeg_available: bool,
    ffprobe_available: bool,
    ytdlp_version: Option<String>,
    ffmpeg_version: Option<String>,
) -> (r: ExecutableCheckResult)
    ensures
        r.all_available == (ytdlp_available && ffmpeg_available && ffprobe_available),
        r.ytdlp_available == ytdlp_available,
        r.ffmpeg_available == ffmpeg_available,
        r.ffprobe_available == ffprobe_available,
        r.ytdlp_version == ytdlp_version,
        r.ffmpeg_version == ffmpeg_version,
        r.all_available ==> r.error is None,
        !r.all_available ==> (r.error matches Some(m) && m@
            == "Missing required executables: "@.add(
            join_with(missing_names(ytdlp_available, ffmpeg_available, ffprobe_available), ", "@),
        ).add(". Please ensure they are installed or bundled with the application."@)),
{
    let all_available = ytdlp_available && ffmpeg_available && ffprobe_available;
    let error: Option<String> = if all_available {
        None
    } else {
        let mut missing: Vec<String> = Vec::new();
        if !ytdlp_available {
            missing.push(String::from_str("yt-dlp"));
        }
        if !ffmpeg_available {
            missing.push(String::from_str("ffmpeg"));
        }
        if !ffprobe_available {
            missing.push(String::from_str("ffprobe"));
        }
        proof {
            assert(crate::text::views_of(missing@) =~= missing_names(
                ytdlp_available,
                ffmpeg_available,
                ffprobe_available,
            ));
        }
        let mut m = String::from_str("Missing required executables: ");
        let joined = crate::text::join_strings(&missing, ", ");
        m.append(joined.as_str());
        m.append(". Please ensure they are installed or bundled with the application.");
        Some(m)
    };
    ExecutableCheckResult {
        all_available,
        ytdlp_available,
        ffmpeg_available,
        ffprobe_available,
        error,
        ytdlp_version,
        ffmpeg_version,
    }
}

} // verus!
