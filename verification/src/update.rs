//! Interpretation of the downloader's self-update output.

use vstd::prelude::*;

use crate::text::{
    all_digits, char_suffix_len, contains_str, contains_sub, is_digit, lines_of, lines_vec,
    match_at, split_char, split_spec, strip_trailing, views_of,
};

verus! {

use vstd::string::StrSliceExecFns;
use vstd::string::StringExecFns;

/// Result of a self-update run.
#[derive(Debug)]
pub struct UpdateResult {
    /// Whether the update run succeeded.
    pub success: bool,
    /// Message describing the result.
    pub message: String,
    /// Whether an update was actually performed.
    pub updated: bool,
    /// The new version, or the current one when already up to date.
    pub version: Option<String>,
}

/// Result of checking for an update without performing it.
#[derive(Debug)]
pub struct UpdateCheckResult {
    /// Currently installed version.
    pub current_version: String,
    /// Whether an update is available.
    pub update_available: bool,
    /// Latest version available, when the check succeeded.
    pub latest_version: Option<String>,
    /// Error message, when the check failed.
    pub error: Option<String>,
}

/// A date-shaped version: a year opening with "20", a two-digit month, and a
/// day field opening with two digits, separated by dots.
pub open spec fn date_version_spec(s: Seq<char>) -> bool {
    let parts = split_spec(s, '.');
    &&& parts.len() >= 3
    &&& parts[0].len() == 4
    &&& match_at(parts[0], "20"@, 0)
    &&& all_digits(parts[0])
    &&& parts[1].len() == 2
    &&& all_digits(parts[1])
    &&& parts[2].len() >= 2
    &&& is_digit(parts[2][0])
    &&& is_digit(parts[2][1])
}

/// Check whether a string is a date-shaped version.
pub fn is_date_version(s: &str) -> (r: bool)
    ensures
        r == date_version_spec(s@),
{
    let parts = split_char(s, '.');
    proof {
        assert(views_of(parts@) == split_spec(s@, '.'));
    }
    if parts.len() < 3 {
        return false;
    }
    proof {
        assert(parts@[0]@ == split_spec(s@, '.')[0]);
        assert(parts@[1]@ == split_spec(s@, '.')[1]);
        assert(parts@[2]@ == split_spec(s@, '.')[2]);
    }
    let p0 = parts[0].as_str();
    if p0.unicode_len() != 4 || !crate::text::starts_with(p0, "20") || !all_digits_exec(p0) {
        return false;
    }
    let p1 = parts[1].as_str();
    if p1.unicode_len() != 2 || !all_digits_exec(p1) {
        return false;
    }
    let p2 = parts[2].as_str();
    if p2.unicode_len() < 2 {
        return false;
    }
    let c0 = p2.get_char(0) as u32;
    let c1 = p2.get_char(1) as u32;
    if c0 < 48 || c0 > 57 || c1 < 48 || c1 > 57 {
        return false;
    }
    true
}

/// Check that every character is a decimal digit.
fn all_digits_exec(s: &str) -> (r: bool)
    ensures
        r == all_digits(s@),
{
    let n = s.unicode_len();
    let mut i: usize = 0;
    while i < n
        invariant
            0 <= i <= n,
            n == s@.len(),
            forall|k: int| 0 <= k < i ==> is_digit(s@[k]),
        decreases n - i,
    {
        let u = s.get_char(i) as u32;
        if u < 48 || u > 57 {
            proof {
                assert(!is_digit(s@[i as int]));
            }
            return false;
        }
        i = i + 1;
    }
    true
}

/// A version digit or a dot.
pub open spec fn is_ver_char(c: char) -> bool {
    is_digit(c) || c == '.'
}

/// Length of the version-character prefix.
pub open spec fn ver_prefix_len(s: Seq<char>) -> int
    decreases s.len(),
{
    if s.len() == 0 {
        0
    } else if is_ver_char(s[0]) {
        1 + ver_prefix_len(s.subrange(1, s.len() as int))
    } else {
        0
    }
}

proof fn lemma_ver_prefix_unique(s: Seq<char>, p: int)
    requires
        0 <= p <= s.len(),
        forall|k: int| 0 <= k < p ==> is_ver_char(s[k]),
        p < s.len() ==> !is_ver_char(s[p]),
    ensures
        ver_prefix_len(s) == p,
    decreases s.len(),
{
    if s.len() == 0 {
    } else if is_ver_char(s[0]) {
        assert(p >= 1) by {
            if p == 0 {
                assert(!is_ver_char(s[0]));
            }
        }
        let t = s.subrange(1, s.len() as int);
        assert forall|k: int| 0 <= k < p - 1 implies is_ver_char(t[k]) by {
            assert(t[k] == s[k + 1]);
        }
        if p - 1 < t.len() {
            assert(t[p - 1] == s[p]);
        }
        lemma_ver_prefix_unique(t, p - 1);
    } else {
        assert(p == 0) by {
            if p > 0 {
                assert(is_ver_char(s[0]));
            }
        }
    }
}

/// A date-shaped version starts at this position.
pub open spec fn date_at(s: Seq<char>, i: int) -> bool {
    0 <= i && i + 10 <= s.len() && date_version_spec(s.subrange(i, i + 10))
}

/// Index of the first date-shaped version, or -1.
pub open spec fn date_idx(s: Seq<char>) -> int
    decreases s.len(),
{
    if s.len() < 10 {
        -1
    } else if date_at(s, 0) {
        0
    } else if date_idx(s.skip(1)) == -1 {
        -1
    } else {
        1 + date_idx(s.skip(1))
    }
}

proof fn lemma_date_at_skip(s: Seq<char>, j: int)
    requires
        s.len() > 0,
        0 <= j,
    ensures
        date_at(s.skip(1), j) == date_at(s, j + 1),
{
    if j + 10 <= s.len() - 1 {
        assert(s.skip(1).subrange(j, j + 10) =~= s.subrange(j + 1, j + 11));
    }
}

proof fn lemma_date_idx_unique(s: Seq<char>, p: int)
    requires
        p == -1 ==> forall|j: int| !date_at(s, j),
        p >= 0 ==> date_at(s, p) && forall|j: int| 0 <= j < p ==> !date_at(s, j),
        p >= -1,
    ensures
        date_idx(s) == p,
    decreases s.len(),
{
    if s.len() < 10 {
        assert(p != 0 || date_at(s, 0));
        if p > 0 {
            assert(date_at(s, p));
            assert(false);
        }
        if p == 0 {
            assert(date_at(s, 0));
            assert(false);
        }
    } else if date_at(s, 0) {
        assert(p == 0) by {
            if p == -1 {
                assert(!date_at(s, 0));
            }
        }
    } else {
        let t = s.skip(1);
        if p == -1 {
            assert forall|j: int| !date_at(t, j) by {
                if 0 <= j {
                    lemma_date_at_skip(s, j);
                    assert(!date_at(s, j + 1));
                }
            }
            lemma_date_idx_unique(t, -1);
        } else {
            assert(p >= 1);
            lemma_date_at_skip(s, p - 1);
            assert(date_at(t, p - 1));
            assert forall|j: int| 0 <= j < p - 1 implies !date_at(t, j) by {
                lemma_date_at_skip(s, j);
                assert(!date_at(s, j + 1));
            }
            lemma_date_idx_unique(t, p - 1);
        }
    }
}

/// The date-shaped version found in the text: ten characters extended by any
/// following digits and dots, with trailing dots stripped.
pub open spec fn extract_date_spec(s: Seq<char>) -> Option<Seq<char>> {
    let i = date_idx(s);
    if i == -1 {
        None
    } else {
        let e = i + 10 + ver_prefix_len(s.skip(i + 10));
        let v = s.subrange(i, e);
        Some(v.take(v.len() - char_suffix_len(v, '.')))
    }
}

/// Extract a date-shaped version from free text.
pub fn extract_date_version(text: &str) -> (r: Option<String>)
    ensures
        match (r, extract_date_spec(text@)) {
            (Some(v), Some(w)) => v@ == w,
            (None, None) => true,
            _ => false,
        },
{
    let n = text.unicode_len();
    if n < 10 {
        proof {
            assert forall|j: int| !date_at(text@, j) by {}
            lemma_date_idx_unique(text@, -1);
        }
        return None;
    }
    let mut i: usize = 0;
    while i <= n - 10
        invariant
            0 <= i <= n,
            n == text@.len(),
            n >= 10,
            forall|j: int| 0 <= j < i ==> !date_at(text@, j),
        decreases n - i,
    {
        let potential = text.substring_char(i, i + 10);
        proof {
            assert(potential@ =~= text@.subrange(i as int, i + 10));
        }
        if is_date_version(potential) {
            proof {
                lemma_date_idx_unique(text@, i as int);
            }
            let mut end: usize = i + 10;
            while end < n && is_ver_char_exec(text.get_char(end))
                invariant
                    i + 10 <= end <= n,
                    n == text@.len(),
                    forall|k: int| i + 10 <= k < end ==> is_ver_char(text@[k]),
                decreases n - end,
            {
                end = end + 1;
            }
            proof {
                let tail = text@.skip(i + 10);
                assert forall|k: int| 0 <= k < end - i - 10 implies is_ver_char(tail[k]) by {
                    assert(tail[k] == text@[k + i + 10]);
                }
                if end < n {
                    assert(tail[end - i - 10] == text@[end as int]);
                }
                lemma_ver_prefix_unique(tail, end - i - 10);
            }
            let v = text.substring_char(i, end);
            proof {
                assert(v@ =~= text@.subrange(i as int, end as int));
            }
            let stripped = strip_trailing(v, '.');
            return Some(stripped.to_owned());
        }
        proof {
            assert(!date_at(text@, i as int));
        }
        i = i + 1;
    }
    proof {
        assert forall|j: int| !date_at(text@, j) by {
            if 0 <= j && j + 10 <= text@.len() {
                assert(j < i);
            }
        }
        lemma_date_idx_unique(text@, -1);
    }
    None
}

fn is_ver_char_exec(c: char) -> (r: bool)
    ensures
        r == is_ver_char(c),
{
    let u = c as u32;
    (48 <= u && u <= 57) || c == '.'
}

/// The first date-shaped version among the lines of a text.
pub open spec fn version_in_lines(ls: Seq<Seq<char>>) -> Option<Seq<char>>
    decreases ls.len(),
{
    if ls.len() == 0 {
        None
    } else if extract_date_spec(ls[0]) is Some {
        extract_date_spec(ls[0])
    } else {
        version_in_lines(ls.skip(1))
    }
}

proof fn lemma_version_in_lines_skip(ls: Seq<Seq<char>>, i: int)
    requires
        0 <= i <= ls.len(),
        forall|k: int| 0 <= k < i ==> extract_date_spec(#[trigger] ls[k]) is None,
    ensures
        version_in_lines(ls) == version_in_lines(ls.skip(i)),
    decreases i,
{
    if i > 0 {
        assert(ls.len() > 0);
        assert(extract_date_spec(ls[0]) is None);
        let t = ls.skip(1);
        assert forall|k: int| 0 <= k < i - 1 implies extract_date_spec(#[trigger] t[k]) is None by {
            assert(t[k] == ls[k + 1]);
        }
        lemma_version_in_lines_skip(t, i - 1);
        assert(t.skip(i - 1) =~= ls.skip(i));
    } else {
        assert(ls.skip(0) =~= ls);
    }
}

/// Extract a version from the downloader's multi-line output.
pub fn extract_version_from_output(output: &str) -> (r: Option<String>)
    ensures
        match (r, version_in_lines(lines_of(output@))) {
            (Some(v), Some(w)) => v@ == w,
            (None, None) => true,
            _ => false,
        },
{
    let lines = lines_vec(output);
    let ghost ls = lines_of(output@);
    let n = lines.len();
    let mut i: usize = 0;
    while i < n
        invariant
            0 <= i <= n,
            n == lines@.len(),
            ls == lines_of(output@),
            views_of(lines@) == ls,
            forall|k: int| 0 <= k < i ==> extract_date_spec(#[trigger] ls[k]) is None,
        decreases n - i,
    {
        proof {
            assert(lines@[i as int]@ == ls[i as int]);
        }
        match extract_date_version(lines[i].as_str()) {
            Some(v) => {
                proof {
                    lemma_version_in_lines_skip(ls, i as int);
                    let tail = ls.skip(i as int);
                    assert(tail.len() > 0);
                    assert(tail[0] == ls[i as int]);
                    assert(extract_date_spec(tail[0]) is Some);
                    assert(version_in_lines(tail) == extract_date_spec(tail[0]));
                }
                return Some(v);
            },
            None => {},
        }
        i = i + 1;
    }
    proof {
        lemma_version_in_lines_skip(ls, n as int);
        assert(ls.skip(n as int) =~= Seq::<Seq<char>>::empty());
    }
    None
}

/// What interpreting a finished self-update run yields.
pub open spec fn update_outcome_post(
    status_success: bool,
    output: Seq<char>,
    current_version: Option<String>,
    new_version: Option<String>,
    r: UpdateResult,
) -> bool {
    if status_success {
        let up_to_date = contains_sub(output, "yt-dlp is up to date"@) || contains_sub(
            output,
            "is up to date"@,
        );
        if up_to_date {
            &&& r.success
            &&& !r.updated
            &&& r.version == new_version
            &&& r.message@ == "yt-dlp is already up to date ("@.add(
                match new_version {
                    Some(v) => v@,
                    None => "unknown"@,
                },
            ).add(")"@)
        } else {
            &&& r.success
            &&& r.updated
            &&& match new_version {
                Some(v) => r.version == new_version && r.message@
                    == "Successfully updated yt-dlp to version "@.add(v@),
                None => {
                    match version_in_lines(lines_of(output)) {
                        Some(w) => (r.version matches Some(v2) && v2@ == w) && r.message@
                            == "Successfully updated yt-dlp to version "@.add(w),
                        None => r.version is None && r.message@ == "Successfully updated yt-dlp"@,
                    }
                },
            }
        }
    } else {
        &&& !r.success
        &&& !r.updated
        &&& r.version == current_version
        &&& r.message@ == (if output.len() == 0 {
            "Update failed with unknown error"@
        } else {
            let ls = lines_of(output);
            "Update failed: "@.add(
                if ls.len() > 0 {
                    ls[ls.len() - 1]
                } else {
                    output
                },
            )
        })
    }
}

/// Interpret a finished self-update run: its exit status, combined output,
/// and the versions read before and after.
pub fn interpret_update_output(
    status_success: bool,
    output_text: &str,
    current_version: Option<String>,
    new_version: Option<String>,
) -> (r: UpdateResult)
    ensures
        update_outcome_post(status_success, output_text@, current_version, new_version, r),
{
    if status_success {
        let up_to_date = contains_str(output_text, "yt-dlp is up to date") || contains_str(
            output_text,
            "is up to date",
        );
        if up_to_date {
            let mut m = String::from_str("yt-dlp is already up to date (");
            let version: Option<String> = match new_version {
                Some(v) => {
                    m.append(v.as_str());
                    Some(v)
                },
                None => {
                    m.append("unknown");
                    None
                },
            };
            m.append(")");
            UpdateResult { success: true, message: m, updated: false, version }
        } else {
            match new_version {
                Some(v) => {
                    let mut m = String::from_str("Successfully updated yt-dlp to version ");
                    m.append(v.as_str());
                    UpdateResult { success: true, message: m, updated: true, version: Some(v) }
                },
                None => {
                    match extract_version_from_output(output_text) {
                        Some(w) => {
                            let mut m = String::from_str(
                                "Successfully updated yt-dlp to version ",
                            );
                            m.append(w.as_str());
                            UpdateResult {
                                success: true,
                                message: m,
                                updated: true,
                                version: Some(w),
                            }
                        },
                        None => UpdateResult {
                            success: true,
                            message: String::from_str("Successfully updated yt-dlp"),
                            updated: true,
                            version: None,
                        },
                    }
                },
            }
        }
    } else {
        let n = output_text.unicode_len();
        let message: String = if n == 0 {
            String::from_str("Update failed with unknown error")
        } else {
            let mut m = String::from_str("Update failed: ");
            let lines = lines_vec(output_text);
            if lines.len() > 0 {
                proof {
                    assert(lines@[lines@.len() - 1]@ == views_of(lines@)[lines@.len() - 1]);
                }
                m.append(lines[lines.len() - 1].as_str());
            } else {
                m.append(output_text);
            }
            m
        };
        UpdateResult { success: false, message, updated: false, version: current_version }
    }
}

/// What interpreting an update check yields: the availability markers decide,
/// and the latest version comes from the output or defaults to the current
/// one.
pub open spec fn update_check_post(
    combined: Seq<char>,
    current_version: String,
    r: UpdateCheckResult,
) -> bool {
    let available = contains_sub(combined, "Updating to"@) || contains_sub(
        combined,
        "A new version"@,
    ) || contains_sub(combined, "available"@);
    &&& r.current_version == current_version
    &&& r.update_available == available
    &&& r.error is None
    &&& if available {
        match version_in_lines(lines_of(combined)) {
            Some(w) => r.latest_version matches Some(v) && v@ == w,
            None => r.latest_version is None,
        }
    } else {
        r.latest_version matches Some(v) && v == current_version
    }
}

/// Interpret the output of an update check.
pub fn interpret_update_check(combined: &str, current_version: String) -> (r: UpdateCheckResult)
    ensures
        update_check_post(combined@, current_version, r),
{
    let available = contains_str(combined, "Updating to") || contains_str(combined, "A new version")
        || contains_str(combined, "available");
    let latest_version: Option<String> = if available {
        extract_version_from_output(combined)
    } else {
        Some(current_version.clone())
    };
    UpdateCheckResult { current_version, update_available: available, latest_version, error: None }
}

} // verus!
