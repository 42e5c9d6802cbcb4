//! Debug-information assembly.
//!
//! Collecting versions and system numbers is the caller's concern; here
//! lives the report text built from them.

use vstd::prelude::*;

use crate::logging::{anon_spec, anonymize_paths};
use crate::text::{dec_str, u64_to_string};

verus! {

use vstd::string::StrSliceExecFns;
use vstd::string::StringExecFns;

/// Collected debug information.
#[derive(Debug)]
pub struct DebugInfo {
    /// Application version.
    pub app_version: String,
    /// Operating system information.
    pub os_info: String,
    /// System version description.
    pub windows_version: String,
    /// Downloader version, when available.
    pub ytdlp_version: Option<String>,
    /// Media toolchain version, when available.
    pub ffmpeg_version: Option<String>,
    /// Recent logs, anonymized.
    pub recent_logs: String,
    /// System memory summary.
    pub memory_info: String,
}

/// The memory summary line for the given megabyte counts.
pub open spec fn memory_info_spec(total_mb: u64, used_mb: u64, available_mb: u64) -> Seq<char> {
    "Total: "@.add(dec_str(total_mb as int)).add(" MB, Used: "@).add(dec_str(used_mb as int)).add(
        " MB, Available: "@,
    ).add(dec_str(available_mb as int)).add(" MB"@)
}

/// Render the system memory summary.
pub fn format_memory_info(total_mb: u64, used_mb: u64, available_mb: u64) -> (r: String)
    ensures
        r@ == memory_info_spec(total_mb, used_mb, available_mb),
{
    let mut m = String::from_str("Total: ");
    let t = u64_to_string(total_mb);
    m.append(t.as_str());
    m.append(" MB, Used: ");
    let u = u64_to_string(used_mb);
    m.append(u.as_str());
    m.append(" MB, Available: ");
    let a = u64_to_string(available_mb);
    m.append(a.as_str());
    m.append(" MB");
    m
}

/// The report text before anonymization.
pub open spec fn debug_text_spec(info: DebugInfo) -> Seq<char> {
    "=== MediaGrab Debug Information ===\n\n"@.add("App Version: "@).add(info.app_version@).add(
        "\n"@,
    ).add("OS: "@).add(info.os_info@).add("\n"@).add("Windows Version: "@).add(
        info.windows_version@,
    ).add("\n"@).add("Memory: "@).add(info.memory_info@).add("\n"@).add("yt-dlp Version: "@).add(
        match info.ytdlp_version {
            Some(v) => v@,
            None => "Not found"@,
        },
    ).add("\n"@).add("ffmpeg Version: "@).add(
        match info.ffmpeg_version {
            Some(v) => v@,
            None => "Not found"@,
        },
    ).add("\n"@).add("\n=== Recent Logs ===\n\n"@).add(
        if info.recent_logs@.len() == 0 {
            "No recent logs available.\n"@
        } else {
            info.recent_logs@
        },
    ).add("\n\n=== End of Debug Information ===\n"@)
}

/// Render the debug information as a readable report, anonymized once more
/// to catch any missed paths.
pub fn format_debug_info(info: &DebugInfo) -> (r: String)
    ensures
        r@ == anon_spec(debug_text_spec(*info)),
{
    let mut out = String::from_str("=== MediaGrab Debug Information ===\n\n");
    out.append("App Version: ");
    out.append(info.app_version.as_str());
    out.append("\n");
    out.append("OS: ");
    out.append(info.os_info.as_str());
    out.append("\n");
    out.append("Windows Version: ");
    out.append(info.windows_version.as_str());
    out.append("\n");
    out.append("Memory: ");
    out.append(info.memory_info.as_str());
    out.append("\n");
    out.append("yt-dlp Version: ");
    match &info.ytdlp_version {
        Some(v) => out.append(v.as_str()),
        None => out.append("Not found"),
    }
    out.append("\n");
    out.append("ffmpeg Version: ");
    match &info.ffmpeg_version {
        Some(v) => out.append(v.as_str()),
        None => out.append("Not found"),
    }
    out.append("\n");
    out.append("\n=== Recent Logs ===\n\n");
    if info.recent_logs.as_str().unicode_len() == 0 {
        out.append("No recent logs available.\n");
    } else {
        out.append(info.recent_logs.as_str());
    }
    out.append("\n\n=== End of Debug Information ===\n");
    proof {
        assert(out@ =~= debug_text_spec(*info));
    }
    anonymize_paths(out.as_str())
}

} // verus!
