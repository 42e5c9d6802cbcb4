//! Classification of the external process's output and exit.
//!
//! The caller spawns the downloader and reads its streams; these functions
//! decide what each line and the final exit status mean. Killing or awaiting
//! the process stays with the caller.

use vstd::prelude::*;

use crate::error::{download_error_of_parsed, DownloadError};
use crate::parser::{
    error_line_post, parse_error_line, parse_progress_line, progress_line_post, ParsedLine,
};
use crate::progress::ProgressEvent;
use crate::text::{
    contains_sub, contains_str, eq_ci, find_sub_at, match_at, str_eq_ci, sub_idx, trim, trim_spec,
};

verus! {

use vstd::string::StrSliceExecFns;
use vstd::string::StringExecFns;

/// Output event from the external downloader process.
#[derive(Debug)]
pub enum ProcessOutput {
    /// A progress update.
    Progress(ProgressEvent),
    /// The merging phase was detected.
    Merging,
    /// A categorized error appeared on stderr.
    Error(DownloadError),
    /// The final file path, printed by the downloader.
    FilePath(String),
    /// The process exited successfully.
    Completed(String),
    /// The process exited with an error code.
    ExitError(i32),
    /// The process was terminated by a signal.
    Terminated,
}

/// Configuration for spawning the downloader.
#[derive(Debug)]
pub struct SpawnConfig {
    /// Path to the downloader executable.
    pub ytdlp_path: String,
    /// Directory holding the media toolchain, when known.
    pub ffmpeg_location: Option<String>,
}

impl Default for SpawnConfig {
    /// The downloader is looked up by name; no toolchain location.
    fn default() -> (r: Self)
        ensures
            r.ytdlp_path@ == "yt-dlp"@,
            r.ffmpeg_location is None,
    {
        SpawnConfig { ytdlp_path: String::from_str("yt-dlp"), ffmpeg_location: None }
    }
}

/// A path separator.
pub open spec fn is_path_sep(c: char) -> bool {
    c == '/' || c == '\\'
}

/// An absolute path: rooted at a separator or at a drive letter.
pub open spec fn is_absolute_path(s: Seq<char>) -> bool {
    (s.len() > 0 && is_path_sep(s[0])) || (s.len() >= 3 && is_ascii_letter(s[0]) && s[1] == ':'
        && is_path_sep(s[2]))
}

/// An ASCII letter.
pub open spec fn is_ascii_letter(c: char) -> bool {
    (65 <= c as u32 && c as u32 <= 90) || (97 <= c as u32 && c as u32 <= 122)
}

/// Index of the last occurrence of a character, or -1.
pub open spec fn char_last_idx(s: Seq<char>, c: char) -> int
    decreases s.len(),
{
    if s.len() == 0 {
        -1
    } else if s.last() == c {
        s.len() - 1
    } else {
        char_last_idx(s.drop_last(), c)
    }
}

proof fn lemma_char_last_idx_unique(s: Seq<char>, c: char, p: int)
    requires
        p == -1 ==> forall|k: int| 0 <= k < s.len() ==> s[k] != c,
        p >= 0 ==> 0 <= p < s.len() && s[p] == c && forall|k: int| p < k < s.len() ==> s[k] != c,
        p >= -1,
    ensures
        char_last_idx(s, c) == p,
    decreases s.len(),
{
    if s.len() == 0 {
    } else if s.last() == c {
        assert(p == s.len() - 1) by {
            if p == -1 {
                assert(s[s.len() - 1] != c);
            }
        }
    } else {
        let t = s.drop_last();
        assert(p < s.len() - 1) by {
            if p == s.len() - 1 {
                assert(s[p] == c);
            }
        }
        if p == -1 {
            assert forall|k: int| 0 <= k < t.len() implies t[k] != c by {
                assert(t[k] == s[k]);
            }
            lemma_char_last_idx_unique(t, c, -1);
        } else {
            assert(t[p] == s[p]);
            assert forall|k: int| p < k < t.len() implies t[k] != c by {
                assert(t[k] == s[k]);
            }
            lemma_char_last_idx_unique(t, c, p);
        }
    }
}

/// The file extension of a path: the text after the last dot, provided the
/// dot neither opens the file name nor precedes a separator.
pub open spec fn path_ext(s: Seq<char>) -> Seq<char> {
    let d = char_last_idx(s, '.');
    if d <= 0 || is_path_sep(s[d - 1]) || (exists|k: int|
        d < k < s.len() && is_path_sep(#[trigger] s[k])) {
        Seq::empty()
    } else {
        s.skip(d + 1)
    }
}

/// The media file extensions that the final path may carry.
pub open spec fn is_media_ext(e: Seq<char>) -> bool {
    eq_ci(e, "mp4"@) || eq_ci(e, "mkv"@) || eq_ci(e, "webm"@) || eq_ci(e, "avi"@) || eq_ci(
        e,
        "mov"@,
    ) || eq_ci(e, "flv"@) || eq_ci(e, "mp3"@) || eq_ci(e, "m4a"@) || eq_ci(e, "opus"@) || eq_ci(
        e,
        "ogg"@,
    ) || eq_ci(e, "wav"@) || eq_ci(e, "flac"@) || eq_ci(e, "aac"@)
}

/// Whether a line is the printed final file path: an absolute path with a
/// recognized media extension and no output-format artifacts.
pub open spec fn valid_filepath(s: Seq<char>) -> bool {
    &&& is_absolute_path(s)
    &&& is_media_ext(path_ext(s))
    &&& !contains_sub(s, "["@)
    &&& !contains_sub(s, "]"@)
    &&& !contains_sub(s, "download:"@)
}

/// Check whether a line looks like the final downloaded file's path.
pub fn is_valid_filepath(line: &str) -> (r: bool)
    ensures
        r == valid_filepath(line@),
{
    proof {
        reveal_strlit("mp4");
        reveal_strlit("mkv");
        reveal_strlit("webm");
        reveal_strlit("avi");
        reveal_strlit("mov");
        reveal_strlit("flv");
        reveal_strlit("mp3");
        reveal_strlit("m4a");
        reveal_strlit("opus");
        reveal_strlit("ogg");
        reveal_strlit("wav");
        reveal_strlit("flac");
        reveal_strlit("aac");
    }
    let n = line.unicode_len();
    let absolute = if n > 0 && is_sep_char(line.get_char(0)) {
        true
    } else if n >= 3 {
        let c0 = line.get_char(0);
        let u0 = c0 as u32;
        ((65 <= u0 && u0 <= 90) || (97 <= u0 && u0 <= 122)) && line.get_char(1) == ':'
            && is_sep_char(line.get_char(2))
    } else {
        false
    };
    if !absolute {
        return false;
    }
    // Find the last dot and check nothing after it is a separator.
    let mut d: usize = n;
    let mut found = false;
    while d > 0 && !found
        invariant
            0 <= d <= n,
            n == line@.len(),
            !found ==> forall|k: int| d <= k < n ==> line@[k] != '.',
            found ==> d < n && line@[d as int] == '.' && forall|k: int|
                d < k < n ==> line@[k] != '.',
        decreases d + (if found { 0int } else { 1int }),
    {
        if line.get_char(d - 1) == '.' {
            d = d - 1;
            found = true;
        } else {
            d = d - 1;
        }
    }
    proof {
        if found {
            lemma_char_last_idx_unique(line@, '.', d as int);
        } else {
            lemma_char_last_idx_unique(line@, '.', -1);
        }
    }
    if !found || d == 0 {
        return false;
    }
    if is_sep_char(line.get_char(d - 1)) {
        return false;
    }
    let mut k: usize = d + 1;
    while k < n
        invariant
            d + 1 <= k <= n,
            n == line@.len(),
            0 < d < n,
            char_last_idx(line@, '.') == d,
            forall|j: int| d < j < k ==> !is_path_sep(line@[j]),
        decreases n - k,
    {
        if is_sep_char(line.get_char(k)) {
            proof {
                reveal_strlit("mp4");
                reveal_strlit("mkv");
                reveal_strlit("webm");
                reveal_strlit("avi");
                reveal_strlit("mov");
                reveal_strlit("flv");
                reveal_strlit("mp3");
                reveal_strlit("m4a");
                reveal_strlit("opus");
                reveal_strlit("ogg");
                reveal_strlit("wav");
                reveal_strlit("flac");
                reveal_strlit("aac");
                assert(is_path_sep(line@[k as int]));
                assert(path_ext(line@) =~= Seq::<char>::empty());
            }
            return false;
        }
        k = k + 1;
    }
    let ext = line.substring_char(d + 1, n);
    proof {
        assert(ext@ =~= line@.skip(d + 1));
        assert(ext@ == path_ext(line@)) by {
            assert(forall|j: int| (d as int) < j < n ==> !is_path_sep(#[trigger] line@[j]));
        }
    }
    let ext_ok = str_eq_ci(ext, "mp4") || str_eq_ci(ext, "mkv") || str_eq_ci(ext, "webm")
        || str_eq_ci(ext, "avi") || str_eq_ci(ext, "mov") || str_eq_ci(ext, "flv") || str_eq_ci(
        ext,
        "mp3",
    ) || str_eq_ci(ext, "m4a") || str_eq_ci(ext, "opus") || str_eq_ci(ext, "ogg") || str_eq_ci(
        ext,
        "wav",
    ) || str_eq_ci(ext, "flac") || str_eq_ci(ext, "aac");
    if !ext_ok {
        return false;
    }
    if contains_str(line, "[") || contains_str(line, "]") || contains_str(line, "download:") {
        return false;
    }
    true
}

fn is_sep_char(c: char) -> (r: bool)
    ensures
        r == is_path_sep(c),
{
    c == '/' || c == '\\'
}

/// What classifying one stdout line yields: progress and merge events pass
/// through; an unclassified line is surfaced as the detected file path when
/// it looks like one, and dropped otherwise.
pub open spec fn stdout_signal_post(line: Seq<char>, r: Option<ProcessOutput>) -> bool {
    match r {
        Some(ProcessOutput::Progress(e)) => progress_line_post(line, ParsedLine::Progress(e)),
        Some(ProcessOutput::Merging) => progress_line_post(line, ParsedLine::Merging),
        Some(ProcessOutput::FilePath(p)) => progress_line_post(line, ParsedLine::Unknown) && p@
            == trim_spec(line) && valid_filepath(trim_spec(line)),
        None => progress_line_post(line, ParsedLine::Unknown) && !valid_filepath(trim_spec(line)),
        _ => false,
    }
}

/// Classify one stdout line of the downloader.
pub fn classify_stdout_line(line: &str) -> (r: Option<ProcessOutput>)
    ensures
        stdout_signal_post(line@, r),
{
    let t = trim(line);
    match parse_progress_line(line) {
        ParsedLine::Progress(e) => Some(ProcessOutput::Progress(e)),
        ParsedLine::Merging => Some(ProcessOutput::Merging),
        ParsedLine::Unknown => {
            if is_valid_filepath(t) {
                Some(ProcessOutput::FilePath(t.to_owned()))
            } else {
                None
            }
        },
    }
}

/// What classifying one stderr line yields: progress formats are tried
/// first (some downloader versions report progress there), then the error
/// marker; anything else is dropped.
pub open spec fn stderr_signal_post(line: Seq<char>, r: Option<ProcessOutput>) -> bool {
    match r {
        Some(ProcessOutput::Progress(e)) => progress_line_post(line, ParsedLine::Progress(e)),
        Some(ProcessOutput::Merging) => progress_line_post(line, ParsedLine::Merging),
        Some(ProcessOutput::Error(err)) => progress_line_post(line, ParsedLine::Unknown) && exists|
            p: crate::parser::ParsedError,
        |
            error_line_post(line, Some(p)) && err == download_error_of_parsed(p),
        None => progress_line_post(line, ParsedLine::Unknown) && error_line_post(line, None),
        _ => false,
    }
}

/// Classify one stderr line of the downloader.
pub fn classify_stderr_line(line: &str) -> (r: Option<ProcessOutput>)
    ensures
        stderr_signal_post(line@, r),
{
    match parse_progress_line(line) {
        ParsedLine::Progress(e) => Some(ProcessOutput::Progress(e)),
        ParsedLine::Merging => Some(ProcessOutput::Merging),
        ParsedLine::Unknown => {
            match parse_error_line(line) {
                Some(parsed) => {
                    let ghost p = parsed;
                    let err = DownloadError::from(parsed);
                    proof {
                        assert(error_line_post(line@, Some(p)) && err
                            == download_error_of_parsed(p));
                    }
                    Some(ProcessOutput::Error(err))
                },
                None => None,
            }
        },
    }
}

/// What the process exit means: success completes the job; the signal-like
/// codes mean the process was killed; anything else is an error exit.
pub open spec fn exit_outcome_post(success: bool, code: Option<i32>, r: ProcessOutput) -> bool {
    if success {
        r matches ProcessOutput::Completed(p) && p@ == Seq::<char>::empty()
    } else {
        match code {
            Some(c) => {
                if c == -1 || c == 137 || c == 9 {
                    r is Terminated
                } else {
                    r matches ProcessOutput::ExitError(e) && e == c
                }
            },
            None => r is Terminated,
        }
    }
}

/// Classify the downloader's exit status.
pub fn classify_exit(success: bool, code: Option<i32>) -> (r: ProcessOutput)
    ensures
        exit_outcome_post(success, code, r),
{
    if success {
        return ProcessOutput::Completed(String::new());
    }
    let c: i32 = match code {
        Some(c) => c,
        None => -1,
    };
    if c == -1 || c == 137 || c == 9 {
        ProcessOutput::Terminated
    } else {
        ProcessOutput::ExitError(c)
    }
}

/// One directory entry handed in by the caller.
#[derive(Debug)]
pub struct FileEntry {
    /// Full path of the entry.
    pub path: String,
    /// Modification time, in seconds since the epoch.
    pub modified_at: u64,
    /// Whether the entry is a regular file.
    pub is_file: bool,
}

/// An entry that may be the finished download: a regular file that is not a
/// partial-download artifact.
pub open spec fn eligible_entry(e: FileEntry) -> bool {
    e.is_file && !(e.path@.len() >= 5 && e.path@.skip(e.path@.len() - 5) == ".part"@) && !(
    e.path@.len() >= 5 && e.path@.skip(e.path@.len() - 5) == ".ytdl"@)
}

/// The latest eligible entry, scanning in order and keeping the first of any
/// ties.
pub open spec fn latest_entry(entries: Seq<FileEntry>) -> Option<FileEntry>
    decreases entries.len(),
{
    if entries.len() == 0 {
        None
    } else {
        let prev = latest_entry(entries.drop_last());
        let e = entries.last();
        if !eligible_entry(e) {
            prev
        } else {
            match prev {
                None => Some(e),
                Some(p) => {
                    if e.modified_at > p.modified_at {
                        Some(e)
                    } else {
                        prev
                    }
                },
            }
        }
    }
}

/// Pick the newest non-partial file among directory entries; the fallback
/// used when the downloader printed no final path.
pub fn find_latest_file(entries: &Vec<FileEntry>) -> (r: Option<String>)
    ensures
        match (r, latest_entry(entries@)) {
            (Some(p), Some(e)) => p == e.path,
            (None, None) => true,
            _ => false,
        },
{
    let n = entries.len();
    let mut best: Option<(u64, String)> = None;
    let mut i: usize = 0;
    while i < n
        invariant
            0 <= i <= n,
            n == entries@.len(),
            match (best, latest_entry(entries@.take(i as int))) {
                (Some((m, p)), Some(e)) => p == e.path && m == e.modified_at,
                (None, None) => true,
                _ => false,
            },
        decreases n - i,
    {
        proof {
            assert(entries@.take(i + 1).drop_last() =~= entries@.take(i as int));
            assert(entries@.take(i + 1).last() == entries@[i as int]);
        }
        let e = &entries[i];
        let pl = e.path.as_str().unicode_len();
        let part_suffix = if pl >= 5 {
            let tail = e.path.as_str().substring_char(pl - 5, pl);
            proof {
                assert(tail@ =~= e.path@.skip(e.path@.len() - 5));
            }
            crate::text::str_eq(tail, ".part") || crate::text::str_eq(tail, ".ytdl")
        } else {
            false
        };
        let keep = e.is_file && !part_suffix;
        if keep {
            let replace = match &best {
                None => true,
                Some((m, _)) => e.modified_at > *m,
            };
            if replace {
                best = Some((e.modified_at, e.path.clone()));
            }
        }
        i = i + 1;
    }
    proof {
        assert(entries@.take(n as int) =~= entries@);
    }
    match best {
        Some((_, p)) => Some(p),
        None => None,
    }
}

/// The raw message region after a marker, cut before a second occurrence of
/// the separator word, as the downloader's informational lines carry it.
pub open spec fn after_marker(t: Seq<char>, marker: Seq<char>) -> Seq<char> {
    let i = sub_idx(t, marker);
    if i == -1 {
        Seq::empty()
    } else {
        t.skip(i + marker.len())
    }
}

/// The output path named by an informational line: the text after the
/// destination marker, or the quoted target of the merge notice.
pub open spec fn output_path_post(line: Seq<char>, r: Option<String>) -> bool {
    if contains_sub(line, "[download] Destination:"@) {
        match r {
            Some(p) => p@ == trim_spec(after_marker(line, "Destination:"@)),
            None => false,
        }
    } else if contains_sub(line, "[Merger] Merging formats into"@) {
        match r {
            Some(p) => {
                let cut = trim_spec(after_marker(line, "into"@));
                p@ == strip_quotes(cut)
            },
            None => false,
        }
    } else {
        r is None
    }
}

/// The sequence with every leading and trailing double quote removed.
pub open spec fn strip_quotes(s: Seq<char>) -> Seq<char> {
    let a = quote_prefix_len(s);
    if a == s.len() {
        Seq::empty()
    } else {
        s.subrange(a, s.len() - quote_suffix_len(s))
    }
}

/// Number of leading double quotes.
pub open spec fn quote_prefix_len(s: Seq<char>) -> int
    decreases s.len(),
{
    if s.len() == 0 {
        0
    } else if s[0] == '"' {
        1 + quote_prefix_len(s.subrange(1, s.len() as int))
    } else {
        0
    }
}

/// Number of trailing double quotes.
pub open spec fn quote_suffix_len(s: Seq<char>) -> int
    decreases s.len(),
{
    if s.len() == 0 {
        0
    } else if s[s.len() - 1] == '"' {
        1 + quote_suffix_len(s.subrange(0, s.len() - 1))
    } else {
        0
    }
}

proof fn lemma_quote_prefix_unique(s: Seq<char>, p: int)
    requires
        0 <= p <= s.len(),
        forall|k: int| 0 <= k < p ==> s[k] == '"',
        p < s.len() ==> s[p] != '"',
    ensures
        quote_prefix_len(s) == p,
    decreases s.len(),
{
    if s.len() == 0 {
    } else if s[0] == '"' {
        assert(p >= 1) by {
            if p == 0 {
                assert(s[0] != '"');
            }
        }
        let t = s.subrange(1, s.len() as int);
        assert forall|k: int| 0 <= k < p - 1 implies t[k] == '"' by {
            assert(t[k] == s[k + 1]);
        }
        if p - 1 < t.len() {
            assert(t[p - 1] == s[p]);
        }
        lemma_quote_prefix_unique(t, p - 1);
    } else {
        assert(p == 0) by {
            if p > 0 {
                assert(s[0] == '"');
            }
        }
    }
}

proof fn lemma_quote_suffix_unique(s: Seq<char>, q: int)
    requires
        0 <= q <= s.len(),
        forall|k: int| s.len() - q <= k < s.len() ==> s[k] == '"',
        q < s.len() ==> s[s.len() - q - 1] != '"',
    ensures
        quote_suffix_len(s) == q,
    decreases s.len(),
{
    if s.len() == 0 {
    } else if s[s.len() - 1] == '"' {
        assert(q >= 1) by {
            if q == 0 {
                assert(s[s.len() - 1] != '"');
            }
        }
        let t = s.subrange(0, s.len() - 1);
        assert forall|k: int| t.len() - (q - 1) <= k < t.len() implies t[k] == '"' by {
            assert(t[k] == s[k]);
        }
        if q - 1 < t.len() {
            assert(t[t.len() - (q - 1) - 1] == s[s.len() - q - 1]);
        }
        lemma_quote_suffix_unique(t, q - 1);
    } else {
        assert(q == 0) by {
            if q > 0 {
                assert(s[s.len() - 1] == '"');
            }
        }
    }
}

/// Strip leading and trailing double quotes.
fn trim_quotes(s: &str) -> (r: &str)
    ensures
        r@ == strip_quotes(s@),
{
    let n = s.unicode_len();
    let mut a: usize = 0;
    while a < n && s.get_char(a) == '"'
        invariant
            0 <= a <= n,
            n == s@.len(),
            forall|k: int| 0 <= k < a ==> s@[k] == '"',
        decreases n - a,
    {
        a = a + 1;
    }
    proof {
        lemma_quote_prefix_unique(s@, a as int);
    }
    if a == n {
        let r = s.substring_char(n, n);
        proof {
            assert(r@ =~= strip_quotes(s@));
        }
        return r;
    }
    let mut b: usize = n;
    while b > a && s.get_char(b - 1) == '"'
        invariant
            a <= b <= n,
            n == s@.len(),
            forall|k: int| b <= k < n ==> s@[k] == '"',
        decreases b,
    {
        b = b - 1;
    }
    proof {
        assert(s@[a as int] != '"');
        assert(b > a) by {
            if b == a {
                assert(s@[a as int] == '"');
            }
        }
        assert(s@[b - 1] != '"');
        lemma_quote_suffix_unique(s@, n - b);
    }
    let r = s.substring_char(a, b);
    proof {
        assert(r@ =~= strip_quotes(s@));
    }
    r
}

/// Extract the output file path from an informational line.
pub fn extract_output_path(line: &str) -> (r: Option<String>)
    ensures
        output_path_post(line@, r),
{
    let n = line.unicode_len();
    if contains_str(line, "[download] Destination:") {
        match find_sub_at(line, "Destination:") {
            Some(i) => {
                proof {
                    reveal_strlit("Destination:");
                }
                let rest = line.substring_char(i + 12, n);
                proof {
                    assert(rest@ =~= after_marker(line@, "Destination:"@));
                }
                return Some(trim(rest).to_owned());
            },
            None => {
                proof {
                    // A line containing the full marker contains its suffix.
                    let j = choose|j: int| match_at(line@, "[download] Destination:"@, j);
                    reveal_strlit("[download] Destination:");
                    reveal_strlit("Destination:");
                    assert(match_at(line@, "Destination:"@, j + 11)) by {
                        assert(line@.subrange(j + 11, j + 23) =~= line@.subrange(j, j + 23).skip(
                            11,
                        ));
                        assert("[download] Destination:"@.skip(11) =~= "Destination:"@);
                    }
                    assert(false);
                }
                return None;
            },
        }
    }
    if contains_str(line, "[Merger] Merging formats into") {
        match find_sub_at(line, "into") {
            Some(i) => {
                proof {
                    reveal_strlit("into");
                }
                let rest = line.substring_char(i + 4, n);
                proof {
                    assert(rest@ =~= after_marker(line@, "into"@));
                }
                let t = trim(rest);
                return Some(trim_quotes(t).to_owned());
            },
            None => {
                proof {
                    let j = choose|j: int| match_at(line@, "[Merger] Merging formats into"@, j);
                    reveal_strlit("[Merger] Merging formats into");
                    reveal_strlit("into");
                    assert(match_at(line@, "into"@, j + 25)) by {
                        assert(line@.subrange(j + 25, j + 29) =~= line@.subrange(j, j + 29).skip(
                            25,
                        ));
                        assert("[Merger] Merging formats into"@.skip(25) =~= "into"@);
                    }
                    assert(false);
                }
                return None;
            },
        }
    }
    None
}

} // verus!
