//! Resolution of the application's data directories.
//!
//! Locating and copying the bundled executables needs the filesystem and
//! stays with the caller; here live the directory names the caller builds
//! on.

use vstd::prelude::*;

use crate::error::DownloadError;
use crate::text::match_at;

verus! {

use vstd::string::StrSliceExecFns;
use vstd::string::StringExecFns;

/// Name of the downloader executable, without extension.
pub const YTDLP_NAME: &'static str = "yt-dlp";

/// Name of the media toolchain executable, without extension.
pub const FFMPEG_NAME: &'static str = "ffmpeg";

/// Name of the media prober executable, without extension.
pub const FFPROBE_NAME: &'static str = "ffprobe";

/// Resolved paths of the external executables.
#[derive(Debug)]
pub struct ExecutablePaths {
    /// Path to the downloader executable.
    pub ytdlp: String,
    /// Path to the media toolchain executable.
    pub ffmpeg: String,
    /// Path to the media prober executable.
    pub ffprobe: String,
    /// Directory containing the toolchain, for the location flag.
    pub ffmpeg_dir: String,
}

/// Relies on dirs::data_dir: the platform data directory, when the
/// environment names one.
#[verifier::external_body]
fn data_dir_string() -> Option<String> {
    dirs::data_dir().map(|p| p.to_string_lossy().into_owned())
}

/// The application's data directory under the platform data directory.
pub fn get_app_data_dir() -> (r: Result<String, DownloadError>)
    ensures
        r matches Ok(p) ==> p@.len() >= 14 && match_at(p@, "com.mediagrab"@, p@.len() - 13),
        r matches Err(e) ==> e matches DownloadError::GenericError(m) && m@
            == "Could not determine application data directory"@,
{
    match data_dir_string() {
        Some(mut p) => {
            proof {
                reveal_strlit("/com.mediagrab");
                reveal_strlit("com.mediagrab");
            }
            p.append("/com.mediagrab");
            proof {
                assert(p@.subrange(p@.len() - 13, p@.len() as int) =~= "com.mediagrab"@) by {
                    assert("/com.mediagrab"@.skip(1) =~= "com.mediagrab"@);
                    assert(p@.subrange(p@.len() - 13, p@.len() as int) =~= "/com.mediagrab"@.skip(
                        1,
                    ));
                }
            }
            Ok(p)
        },
        None => Err(
            DownloadError::GenericError(
                String::from_str("Could not determine application data directory"),
            ),
        ),
    }
}

/// The user-writable directory for the managed executables.
pub fn get_user_bin_dir() -> (r: Result<String, DownloadError>)
    ensures
        r matches Ok(p) ==> p@.len() >= 4 && match_at(p@, "bin"@, p@.len() - 3),
        r matches Err(e) ==> e matches DownloadError::GenericError(m) && m@
            == "Could not determine application data directory"@,
{
    match get_app_data_dir() {
        Ok(mut p) => {
            proof {
                reveal_strlit("/bin");
                reveal_strlit("bin");
            }
            p.append("/bin");
            proof {
                assert(p@.subrange(p@.len() - 3, p@.len() as int) =~= "bin"@) by {
                    assert("/bin"@.skip(1) =~= "bin"@);
                    assert(p@.subrange(p@.len() - 3, p@.len() as int) =~= "/bin"@.skip(1));
                }
            }
            Ok(p)
        },
        Err(e) => Err(e),
    }
}

/// The expected path of a managed executable in the user bin directory.
pub fn get_user_executable_path(name: &str) -> (r: Result<String, DownloadError>)
    ensures
        r matches Ok(p) ==> p@.len() > name@.len() && p@.skip(p@.len() - name@.len()) == name@,
        r matches Err(e) ==> e matches DownloadError::GenericError(m) && m@
            == "Could not determine application data directory"@,
{
    match get_user_bin_dir() {
        Ok(mut p) => {
            p.append("/");
            p.append(name);
            proof {
                assert(p@.skip(p@.len() - name@.len()) =~= name@);
            }
            Ok(p)
        },
        Err(e) => Err(e),
    }
}

} // verus!
