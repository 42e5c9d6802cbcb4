//! Bounded in-memory log storage and log-text anonymization.
//!
//! The buffer is an explicitly owned value handed to whoever records
//! history; it keeps a fixed number of entries and drops the oldest on
//! overflow. Timestamps are supplied by the caller, which owns the clock.

use vstd::prelude::*;

use crate::text::{match_at_ci, replace_all, replace_spec, string_push};

verus! {

use vstd::string::StrSliceExecFns;
use vstd::string::StringExecFns;

/// Maximum number of entries the buffer keeps.
pub const MAX_LOG_ENTRIES: usize = 500;

/// A single log entry.
#[derive(Debug)]
pub struct LogEntry {
    /// Timestamp display string, supplied by the caller.
    pub timestamp: String,
    /// Severity label.
    pub level: String,
    /// Component that produced the entry.
    pub target: String,
    /// The message text.
    pub message: String,
}

impl Clone for LogEntry {
    /// Clones are equal to the original.
    fn clone(&self) -> (r: Self)
        ensures
            r == *self,
    {
        LogEntry {
            timestamp: self.timestamp.clone(),
            level: self.level.clone(),
            target: self.target.clone(),
            message: self.message.clone(),
        }
    }
}

/// The rendered form of one entry.
pub open spec fn entry_line(e: LogEntry) -> Seq<char> {
    "["@.add(e.timestamp@).add("] "@).add(e.level@).add(" "@).add(e.target@).add(" - "@).add(
        e.message@,
    )
}

/// The rendered form of a run of entries, one per line.
pub open spec fn logs_text(entries: Seq<LogEntry>) -> Seq<char>
    decreases entries.len(),
{
    if entries.len() == 0 {
        Seq::empty()
    } else if entries.len() == 1 {
        entry_line(entries[0])
    } else {
        logs_text(entries.drop_last()).add("\n"@).add(entry_line(entries.last()))
    }
}

/// Bounded in-memory log storage, oldest entries dropped on overflow.
#[derive(Debug)]
pub struct LogBuffer {
    /// The stored entries, oldest first.
    pub entries: Vec<LogEntry>,
    /// Capacity bound.
    pub max_entries: usize,
}

impl LogBuffer {
    /// The buffer respects its positive capacity.
    pub open spec fn wf(&self) -> bool {
        self.entries@.len() <= self.max_entries && self.max_entries >= 1
    }

    /// A fresh, empty buffer with the default capacity.
    pub fn new() -> (r: Self)
        ensures
            r.wf(),
            r.entries@.len() == 0,
            r.max_entries == MAX_LOG_ENTRIES,
    {
        LogBuffer { entries: Vec::new(), max_entries: MAX_LOG_ENTRIES }
    }

    /// Append an entry, dropping the oldest when full.
    pub fn push(&mut self, entry: LogEntry)
        requires
            old(self).wf(),
        ensures
            final(self).wf(),
            final(self).max_entries == old(self).max_entries,
            old(self).entries@.len() < old(self).max_entries ==> final(self).entries@ == old(
                self,
            ).entries@.push(entry),
            old(self).entries@.len() >= old(self).max_entries ==> final(self).entries@ == old(
                self,
            ).entries@.skip(1).push(entry),
    {
        if self.entries.len() >= self.max_entries {
            self.entries.remove(0);
            proof {
                assert(self.entries@ =~= old(self).entries@.skip(1));
            }
        }
        self.entries.push(entry);
    }

    /// All entries rendered as one text, one line per entry.
    pub fn get_logs(&self) -> (r: String)
        ensures
            r@ == logs_text(self.entries@),
    {
        let r = render_entries(&self.entries, 0);
        proof {
            assert(self.entries@.skip(0) =~= self.entries@);
        }
        r
    }

    /// The most recent entries rendered as one text.
    pub fn get_recent_logs(&self, count: usize) -> (r: String)
        ensures
            r@ == logs_text(
                self.entries@.skip(
                    if self.entries@.len() > count {
                        self.entries@.len() - count
                    } else {
                        0
                    },
                ),
            ),
    {
        let len = self.entries.len();
        let start: usize = if len > count {
            len - count
        } else {
            0
        };
        render_entries(&self.entries, start)
    }

    /// Drop every entry.
    pub fn clear(&mut self)
        ensures
            final(self).entries@.len() == 0,
            final(self).max_entries == old(self).max_entries,
    {
        self.entries.clear();
    }
}

impl Default for LogBuffer {
    /// A fresh, empty buffer.
    fn default() -> (r: Self)
        ensures
            r.wf(),
            r.entries@.len() == 0,
            r.max_entries == MAX_LOG_ENTRIES,
    {
        LogBuffer::new()
    }
}

/// Render one entry into the output.
fn append_entry_line(out: &mut String, e: &LogEntry)
    ensures
        final(out)@ == old(out)@.add(entry_line(*e)),
{
    out.append("[");
    out.append(e.timestamp.as_str());
    out.append("] ");
    out.append(e.level.as_str());
    out.append(" ");
    out.append(e.target.as_str());
    out.append(" - ");
    out.append(e.message.as_str());
}

/// Render the entries from a starting position.
fn render_entries(entries: &Vec<LogEntry>, start: usize) -> (r: String)
    requires
        start <= entries@.len(),
    ensures
        r@ == logs_text(entries@.skip(start as int)),
{
    let n = entries.len();
    let mut out = String::new();
    let mut i: usize = start;
    proof {
        assert(entries@.skip(start as int).take(0) =~= Seq::<LogEntry>::empty());
    }
    while i < n
        invariant
            start <= i <= n,
            n == entries@.len(),
            out@ == logs_text(entries@.skip(start as int).take(i - start)),
        decreases n - i,
    {
        proof {
            let tail = entries@.skip(start as int);
            assert(tail.take(i - start + 1).drop_last() =~= tail.take(i - start));
            assert(tail.take(i - start + 1).last() == entries@[i as int]);
        }
        if i > start {
            out.append("\n");
        }
        append_entry_line(&mut out, &entries[i]);
        i = i + 1;
    }
    proof {
        assert(entries@.skip(start as int).take(n - start) =~= entries@.skip(start as int));
    }
    out
}

/// Record that the downloader was started.
pub fn log_ytdlp_command(buf: &mut LogBuffer, timestamp: String)
    requires
        old(buf).wf(),
    ensures
        final(buf).wf(),
        final(buf).entries@.len() > 0,
        ({
            let e = final(buf).entries@.last();
            e.timestamp == timestamp && e.level@ == "INFO"@ && e.target@ == "mediagrab::ytdlp"@
                && e.message@ == "Starting yt-dlp download"@
        }),
{
    buf.push(
        LogEntry {
            timestamp,
            level: String::from_str("INFO"),
            target: String::from_str("mediagrab::ytdlp"),
            message: String::from_str("Starting yt-dlp download"),
        },
    );
}

/// Record one stdout line of the downloader.
pub fn log_ytdlp_stdout(buf: &mut LogBuffer, timestamp: String, line: &str)
    requires
        old(buf).wf(),
    ensures
        final(buf).wf(),
        final(buf).entries@.len() > 0,
        ({
            let e = final(buf).entries@.last();
            e.timestamp == timestamp && e.level@ == "DEBUG"@ && e.target@
                == "mediagrab::ytdlp::stdout"@ && e.message@ == line@
        }),
{
    buf.push(
        LogEntry {
            timestamp,
            level: String::from_str("DEBUG"),
            target: String::from_str("mediagrab::ytdlp::stdout"),
            message: line.to_owned(),
        },
    );
}

/// Record one stderr line of the downloader.
pub fn log_ytdlp_stderr(buf: &mut LogBuffer, timestamp: String, line: &str)
    requires
        old(buf).wf(),
    ensures
        final(buf).wf(),
        final(buf).entries@.len() > 0,
        ({
            let e = final(buf).entries@.last();
            e.timestamp == timestamp && e.level@ == "WARN"@ && e.target@
                == "mediagrab::ytdlp::stderr"@ && e.message@ == line@
        }),
{
    buf.push(
        LogEntry {
            timestamp,
            level: String::from_str("WARN"),
            target: String::from_str("mediagrab::ytdlp::stderr"),
            message: line.to_owned(),
        },
    );
}

/// Record an error message.
pub fn log_error(buf: &mut LogBuffer, timestamp: String, message: &str)
    requires
        old(buf).wf(),
    ensures
        final(buf).wf(),
        final(buf).entries@.len() > 0,
        ({
            let e = final(buf).entries@.last();
            e.timestamp == timestamp && e.level@ == "ERROR"@ && e.target@ == "mediagrab"@
                && e.message@ == message@
        }),
{
    buf.push(
        LogEntry {
            timestamp,
            level: String::from_str("ERROR"),
            target: String::from_str("mediagrab"),
            message: message.to_owned(),
        },
    );
}

/// Record an error message with its context; the message text is stored.
pub fn log_error_with_context(buf: &mut LogBuffer, timestamp: String, message: &str, context: &str)
    requires
        old(buf).wf(),
    ensures
        final(buf).wf(),
        final(buf).entries@.len() > 0,
        ({
            let e = final(buf).entries@.last();
            e.timestamp == timestamp && e.level@ == "ERROR"@ && e.target@ == "mediagrab"@
                && e.message@ == message@.add(" (context: "@).add(context@).add(")"@)
        }),
{
    let mut m = message.to_owned();
    m.append(" (context: ");
    m.append(context);
    m.append(")");
    buf.push(
        LogEntry {
            timestamp,
            level: String::from_str("ERROR"),
            target: String::from_str("mediagrab"),
            message: m,
        },
    );
}

// ---------------------------------------------------------------------------
// Path anonymization
// ---------------------------------------------------------------------------
/// Index of the first path separator, or -1.
pub open spec fn sep_idx(s: Seq<char>) -> int
    decreases s.len(),
{
    if s.len() == 0 {
        -1
    } else if s[0] == '\\' || s[0] == '/' {
        0
    } else if sep_idx(s.skip(1)) == -1 {
        -1
    } else {
        1 + sep_idx(s.skip(1))
    }
}

proof fn lemma_sep_idx_unique(s: Seq<char>, p: int)
    requires
        p == -1 ==> forall|k: int| 0 <= k < s.len() ==> s[k] != '\\' && s[k] != '/',
        p >= 0 ==> 0 <= p < s.len() && (s[p] == '\\' || s[p] == '/') && forall|k: int|
            0 <= k < p ==> s[k] != '\\' && s[k] != '/',
        p >= -1,
    ensures
        sep_idx(s) == p,
    decreases s.len(),
{
    if s.len() == 0 {
    } else if s[0] == '\\' || s[0] == '/' {
        assert(p == 0) by {
            if p == -1 {
                assert(s[0] != '\\' && s[0] != '/');
            }
        }
    } else {
        let t = s.skip(1);
        if p == -1 {
            assert forall|k: int| 0 <= k < t.len() implies t[k] != '\\' && t[k] != '/' by {
                assert(t[k] == s[k + 1]);
            }
            lemma_sep_idx_unique(t, -1);
        } else {
            assert(p >= 1);
            assert(t[p - 1] == s[p]);
            assert forall|k: int| 0 <= k < p - 1 implies t[k] != '\\' && t[k] != '/' by {
                assert(t[k] == s[k + 1]);
            }
            lemma_sep_idx_unique(t, p - 1);
        }
    }
}

/// Whether a user-directory prefix opens the text (case-insensitive), with a
/// later separator ending the user-name segment.
pub open spec fn user_dir_at(s: Seq<char>) -> bool {
    &&& s.len() >= 9
    &&& (match_at_ci(s, "c:\\users\\"@, 0) || match_at_ci(s, "c:/users/"@, 0))
    &&& sep_idx(s.skip(9)) >= 0
    &&& 10 + sep_idx(s.skip(9)) <= s.len()
}

/// The text with every user-directory segment replaced by a placeholder:
/// whatever stands between the user-directory prefix and the next separator
/// becomes `<USER>`.
pub open spec fn anon_spec(s: Seq<char>) -> Seq<char>
    decreases s.len(),
{
    if s.len() == 0 {
        Seq::empty()
    } else if user_dir_at(s) {
        let sep: char = if s[2] == ':' && s[8] == '\\' {
            '\\'
        } else {
            '/'
        };
        let e = sep_idx(s.skip(9));
        s.take(9).add("<USER>"@).push(sep).add(anon_spec(s.skip(10 + e)))
    } else {
        seq![s[0]].add(anon_spec(s.skip(1)))
    }
}

/// Replace the user-name segment of every user-directory path with a
/// placeholder, to keep private names out of exported logs.
pub fn anonymize_paths(input: &str) -> (r: String)
    ensures
        r@ == anon_spec(input@),
{
    let n = input.unicode_len();
    let mut out = String::new();
    let mut i: usize = 0;
    proof {
        assert(input@.skip(0) =~= input@);
        assert(Seq::<char>::empty().add(anon_spec(input@)) =~= anon_spec(input@));
    }
    while i < n
        invariant
            0 <= i <= n,
            n == input@.len(),
            anon_spec(input@) == out@.add(anon_spec(input@.skip(i as int))),
        decreases n - i,
    {
        let rem = input.substring_char(i, n);
        proof {
            assert(rem@ =~= input@.skip(i as int));
        }
        let rl = n - i;
        let mut matched = false;
        if rl >= 9 {
            let pre9 = rem.substring_char(0, 9);
            proof {
                assert(pre9@ =~= rem@.take(9));
                reveal_strlit("c:\\users\\");
                reveal_strlit("c:/users/");
            }
            let is_user = crate::text::str_eq_ci(pre9, "c:\\users\\") || crate::text::str_eq_ci(
                pre9,
                "c:/users/",
            );
            proof {
                assert(is_user == (match_at_ci(rem@, "c:\\users\\"@, 0) || match_at_ci(
                    rem@,
                    "c:/users/"@,
                    0,
                ))) by {
                    assert forall|k: int| 0 <= k < 9 implies pre9@[k] == rem@[k] by {}
                }
            }
            if is_user {
                // Look for the separator ending the user-name segment.
                let mut j: usize = 9;
                let mut sep_found = false;
                while j < rl && !sep_found
                    invariant
                        9 <= j <= rl,
                        rl == rem@.len(),
                        !sep_found ==> forall|k: int|
                            9 <= k < j ==> rem@[k] != '\\' && rem@[k] != '/',
                        sep_found ==> j < rl && (rem@[j as int] == '\\' || rem@[j as int] == '/')
                            && forall|k: int| 9 <= k < j ==> rem@[k] != '\\' && rem@[k] != '/',
                    decreases rl - j + (if sep_found { 0int } else { 1int }),
                {
                    let c = rem.get_char(j);
                    if c == '\\' || c == '/' {
                        sep_found = true;
                    } else {
                        j = j + 1;
                    }
                }
                proof {
                    let tail = rem@.skip(9);
                    if sep_found {
                        assert(tail[j - 9] == rem@[j as int]);
                        assert forall|k: int| 0 <= k < j - 9 implies tail[k] != '\\' && tail[k]
                            != '/' by {
                            assert(tail[k] == rem@[k + 9]);
                        }
                        lemma_sep_idx_unique(tail, j - 9);
                    } else {
                        assert forall|k: int| 0 <= k < tail.len() implies tail[k] != '\\' && tail[k]
                            != '/' by {
                            assert(tail[k] == rem@[k + 9]);
                        }
                        lemma_sep_idx_unique(tail, -1);
                    }
                }
                if sep_found {
                    let sep: char = if rem.get_char(2) == ':' && rem.get_char(8) == '\\' {
                        '\\'
                    } else {
                        '/'
                    };
                    out.append(pre9);
                    out.append("<USER>");
                    string_push(&mut out, sep);
                    proof {
                        assert(user_dir_at(rem@));
                        assert(anon_spec(rem@) == rem@.take(9).add("<USER>"@).push(sep).add(
                            anon_spec(rem@.skip(10 + (j - 9))),
                        ));
                        assert(input@.skip(i + (j + 1)) =~= rem@.skip(10 + (j - 9)));
                        assert(anon_spec(input@) =~= out@.add(
                            anon_spec(input@.skip(i + (j + 1))),
                        ));
                    }
                    i = i + (j + 1);
                    matched = true;
                }
            }
        }
        if !matched {
            proof {
                assert(!user_dir_at(rem@));
                assert(anon_spec(rem@) == seq![rem@[0]].add(anon_spec(rem@.skip(1))));
            }
            string_push(&mut out, input.get_char(i));
            proof {
                assert(rem@[0] == input@[i as int]);
                assert(input@.skip(i + 1) =~= rem@.skip(1));
                assert(anon_spec(input@) =~= out@.add(anon_spec(input@.skip(i + 1))));
            }
            i = i + 1;
        }
    }
    proof {
        assert(input@.skip(n as int) =~= Seq::<char>::empty());
        assert(anon_spec(input@) =~= out@);
    }
    out
}

/// Escape the characters that pattern languages treat specially, so a
/// literal path can be matched verbatim.
pub fn regex_lite_escape(s: &str) -> (r: String)
    ensures
        r@ == replace_spec(
            replace_spec(
                replace_spec(
                    replace_spec(
                        replace_spec(
                            replace_spec(
                                replace_spec(
                                    replace_spec(
                                        replace_spec(
                                            replace_spec(
                                                replace_spec(
                                                    replace_spec(
                                                        replace_spec(
                                                            replace_spec(s@, "\\"@, "\\\\"@),
                                                            "."@,
                                                            "\\."@,
                                                        ),
                                                        "*"@,
                                                        "\\*"@,
                                                    ),
                                                    "+"@,
                                                    "\\+"@,
                                                ),
                                                "?"@,
                                                "\\?"@,
                                            ),
                                            "["@,
                                            "\\["@,
                                        ),
                                        "]"@,
                                        "\\]"@,
                                    ),
                                    "("@,
                                    "\\("@,
                                ),
                                ")"@,
                                "\\)"@,
                            ),
                            "{"@,
                            "\\{"@,
                        ),
                        "}"@,
                        "\\}"@,
                    ),
                    "|"@,
                    "\\|"@,
                ),
                "^"@,
                "\\^"@,
            ),
            "$"@,
            "\\$"@,
        ),
{
    let r1 = replace_all(s, "\\", "\\\\");
    let r2 = replace_all(r1.as_str(), ".", "\\.");
    let r3 = replace_all(r2.as_str(), "*", "\\*");
    let r4 = replace_all(r3.as_str(), "+", "\\+");
    let r5 = replace_all(r4.as_str(), "?", "\\?");
    let r6 = replace_all(r5.as_str(), "[", "\\[");
    let r7 = replace_all(r6.as_str(), "]", "\\]");
    let r8 = replace_all(r7.as_str(), "(", "\\(");
    let r9 = replace_all(r8.as_str(), ")", "\\)");
    let r10 = replace_all(r9.as_str(), "{", "\\{");
    let r11 = replace_all(r10.as_str(), "}", "\\}");
    let r12 = replace_all(r11.as_str(), "|", "\\|");
    let r13 = replace_all(r12.as_str(), "^", "\\^");
    replace_all(r13.as_str(), "$", "\\$")
}

/// All stored logs with user paths anonymized.
pub fn get_anonymized_logs(buf: &LogBuffer) -> (r: String)
    ensures
        r@ == anon_spec(logs_text(buf.entries@)),
{
    let logs = buf.get_logs();
    anonymize_paths(logs.as_str())
}

/// The most recent logs with user paths anonymized.
pub fn get_anonymized_recent_logs(buf: &LogBuffer, count: usize) -> (r: String)
    ensures
        r@ == anon_spec(
            logs_text(
                buf.entries@.skip(
                    if buf.entries@.len() > count {
                        buf.entries@.len() - count
                    } else {
                        0
                    },
                ),
            ),
        ),
{
    let logs = buf.get_recent_logs(count);
    anonymize_paths(logs.as_str())
}

} // verus!
