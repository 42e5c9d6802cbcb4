//! Command-line argument builder for the external downloader.
//!
//! Maps a job configuration to the deterministic argument list handed to the
//! external process.

use vstd::prelude::*;

use crate::config::DownloadConfig;
use crate::text::{replace_all, replace_spec, str_eq, views_of};

verus! {

use vstd::string::StrSliceExecFns;
use vstd::string::StringExecFns;

/// Default filename template in the user-facing placeholder syntax.
pub const DEFAULT_FILENAME_TEMPLATE: &'static str = "{title}";

/// The template after rewriting the user-facing placeholders into the
/// downloader's own syntax, with the extension appended when missing.
pub open spec fn template_spec(t: Seq<char>) -> Seq<char> {
    let r = replace_spec(
        replace_spec(
            replace_spec(
                replace_spec(
                    replace_spec(
                        replace_spec(
                            replace_spec(
                                replace_spec(
                                    replace_spec(
                                        replace_spec(t, "{title}"@, "%(title)s"@),
                                        "{uploader}"@,
                                        "%(uploader)s"@,
                                    ),
                                    "{channel}"@,
                                    "%(channel)s"@,
                                ),
                                "{date}"@,
                                "%(upload_date)s"@,
                            ),
                            "{quality}"@,
                            "%(height)sp"@,
                        ),
                        "{resolution}"@,
                        "%(resolution)s"@,
                    ),
                    "{duration}"@,
                    "%(duration)s"@,
                ),
                "{id}"@,
                "%(id)s"@,
            ),
            "{playlist_index}"@,
            "%(playlist_index)s"@,
        ),
        "{ext}"@,
        "%(ext)s"@,
    );
    if crate::text::contains_sub(r, "%(ext)s"@) {
        r
    } else {
        r.add(".%(ext)s"@)
    }
}

/// Convert a user-friendly filename template to the downloader's syntax.
pub fn convert_template_to_ytdlp(template: &str) -> (r: String)
    ensures
        r@ == template_spec(template@),
{
    let r1 = replace_all(template, "{title}", "%(title)s");
    let r2 = replace_all(r1.as_str(), "{uploader}", "%(uploader)s");
    let r3 = replace_all(r2.as_str(), "{channel}", "%(channel)s");
    let r4 = replace_all(r3.as_str(), "{date}", "%(upload_date)s");
    let r5 = replace_all(r4.as_str(), "{quality}", "%(height)sp");
    let r6 = replace_all(r5.as_str(), "{resolution}", "%(resolution)s");
    let r7 = replace_all(r6.as_str(), "{duration}", "%(duration)s");
    let r8 = replace_all(r7.as_str(), "{id}", "%(id)s");
    let r9 = replace_all(r8.as_str(), "{playlist_index}", "%(playlist_index)s");
    let mut r10 = replace_all(r9.as_str(), "{ext}", "%(ext)s");
    if !crate::text::contains_str(r10.as_str(), "%(ext)s") {
        r10.append(".%(ext)s");
    }
    r10
}

/// The audio-extraction formats.
pub open spec fn is_audio_format(f: Seq<char>) -> bool {
    f == "audio-mp3"@ || f == "audio-aac"@ || f == "audio-opus"@ || f == "audio-flac"@ || f
        == "audio-wav"@ || f == "audio-best"@
}

/// The format selector string for a format and quality pair: audio formats
/// take the best audio stream; video formats bound the height by the chosen
/// quality, with fallbacks.
pub open spec fn format_selector_spec(format: Seq<char>, quality: Seq<char>) -> Seq<char> {
    if is_audio_format(format) {
        "bestaudio/best"@
    } else if quality == "1080p"@ {
        "bestvideo[height<=1080]+bestaudio/best[height<=1080]/best"@
    } else if quality == "720p"@ {
        "bestvideo[height<=720]+bestaudio/best[height<=720]/best"@
    } else {
        "bestvideo+bestaudio/best"@
    }
}

/// The filename template handed to the downloader: the configured template
/// converted, or the default when none is set.
pub open spec fn filename_template_spec(c: DownloadConfig) -> Seq<char> {
    match c.filename_template {
        Some(t) => {
            if t@.len() > 0 {
                template_spec(t@)
            } else {
                "%(title)s.%(ext)s"@
            }
        },
        None => "%(title)s.%(ext)s"@,
    }
}

/// Audio-extraction arguments per format.
pub open spec fn audio_args_spec(f: Seq<char>) -> Seq<Seq<char>> {
    if f == "audio-mp3"@ {
        seq!["-x"@, "--audio-format"@, "mp3"@, "--audio-quality"@, "0"@]
    } else if f == "audio-aac"@ {
        seq!["-x"@, "--audio-format"@, "m4a"@, "--audio-quality"@, "0"@]
    } else if f == "audio-opus"@ {
        seq!["-x"@, "--audio-format"@, "opus"@, "--audio-quality"@, "0"@]
    } else if f == "audio-flac"@ {
        seq!["-x"@, "--audio-format"@, "flac"@]
    } else if f == "audio-wav"@ {
        seq!["-x"@, "--audio-format"@, "wav"@]
    } else if f == "audio-best"@ {
        seq!["-x"@]
    } else {
        Seq::empty()
    }
}

/// Subtitle-embedding arguments.
pub open spec fn subs_args_spec(embed: bool) -> Seq<Seq<char>> {
    if embed {
        seq!["--embed-subs"@, "--sub-langs"@, "all"@]
    } else {
        Seq::empty()
    }
}

/// Browser cookie-import arguments.
pub open spec fn cookies_args_spec(c: Option<String>) -> Seq<Seq<char>> {
    match c {
        Some(b) => {
            if b@.len() > 0 {
                seq!["--cookies-from-browser"@, b@]
            } else {
                Seq::empty()
            }
        },
        None => Seq::empty(),
    }
}

/// Merge-container arguments per video format.
pub open spec fn merge_args_spec(f: Seq<char>) -> Seq<Seq<char>> {
    if f == "video-mp4"@ {
        seq!["--merge-output-format"@, "mp4"@]
    } else if f == "video-webm"@ {
        seq!["--merge-output-format"@, "webm"@]
    } else if f == "video-mkv"@ {
        seq!["--merge-output-format"@, "mkv"@]
    } else {
        Seq::empty()
    }
}

/// The fixed trailing arguments: progress template, file-path printing,
/// single-video mode, safe filenames, encoding, warning suppression, resume
/// support and retry counts.
pub open spec fn tail_args_spec() -> Seq<Seq<char>> {
    seq![
        "--progress-template"@,
        "download:%(progress._percent_str)s|%(progress._downloaded_bytes_str)s|%(progress._total_bytes_str)s|%(progress._speed_str)s|%(progress._eta_str)s"@,
        "--print"@,
        "after_move:filepath"@,
        "--no-playlist"@,
        "--windows-filenames"@,
        "--encoding"@,
        "utf-8"@,
        "--no-warnings"@,
        "--continue"@,
        "--keep-fragments"@,
        "--fragment-retries"@,
        "10"@,
        "--retries"@,
        "10"@,
    ]
}

/// The complete argument list for a builder state.
pub open spec fn build_args_spec(
    c: DownloadConfig,
    ffmpeg_location: Option<String>,
    proxy_url: Option<String>,
) -> Seq<Seq<char>> {
    seq![c.url@, "-f"@, format_selector_spec(c.format@, c.quality@), "-o"@, filename_template_spec(c)].add(
        audio_args_spec(c.format@),
    ).add(seq!["--embed-thumbnail"@, "--add-metadata"@]).add(
        subs_args_spec(c.embed_subtitles),
    ).add(cookies_args_spec(c.cookies_from_browser)).add(
        match ffmpeg_location {
            Some(p) => seq!["--ffmpeg-location"@, p@],
            None => Seq::empty(),
        },
    ).add(
        match proxy_url {
            Some(p) => {
                if p@.len() > 0 {
                    seq!["--proxy"@, p@]
                } else {
                    Seq::empty()
                }
            },
            None => Seq::empty(),
        },
    ).add(merge_args_spec(c.format@)).add(tail_args_spec())
}

/// Builds the downloader's command-line arguments from a job configuration.
#[derive(Debug)]
pub struct ArgumentBuilder {
    /// The job configuration.
    pub config: DownloadConfig,
    /// Directory holding the media toolchain, for the location flag.
    pub ffmpeg_location: Option<String>,
    /// Proxy URL to route traffic through.
    pub proxy_url: Option<String>,
}

/// Push one borrowed argument onto the list.
fn push_arg(v: &mut Vec<String>, s: &str)
    ensures
        views_of(final(v)@) == views_of(old(v)@).push(s@),
{
    v.push(s.to_owned());
    proof {
        assert(views_of(final(v)@) =~= views_of(old(v)@).push(s@));
    }
}

/// Push one owned argument onto the list.
fn push_arg_string(v: &mut Vec<String>, s: String)
    ensures
        views_of(final(v)@) == views_of(old(v)@).push(s@),
{
    v.push(s);
    proof {
        assert(views_of(final(v)@) =~= views_of(old(v)@).push(s@));
    }
}

/// Views distribute over concatenation.
proof fn lemma_views_add(a: Seq<String>, b: Seq<String>)
    ensures
        views_of(a.add(b)) == views_of(a).add(views_of(b)),
{
    assert(views_of(a.add(b)) =~= views_of(a).add(views_of(b)));
}

impl ArgumentBuilder {
    /// Create a builder for a configuration.
    pub fn new(config: DownloadConfig) -> (r: Self)
        ensures
            r.config == config,
            r.ffmpeg_location is None,
            r.proxy_url is None,
    {
        ArgumentBuilder { config, ffmpeg_location: None, proxy_url: None }
    }

    /// Set the proxy URL.
    pub fn with_proxy(self, proxy_url: Option<String>) -> (r: Self)
        ensures
            r.config == self.config,
            r.ffmpeg_location == self.ffmpeg_location,
            r.proxy_url == proxy_url,
    {
        ArgumentBuilder { proxy_url, ..self }
    }

    /// Set the media-toolchain location.
    pub fn with_ffmpeg_location(self, path: String) -> (r: Self)
        ensures
            r.config == self.config,
            r.ffmpeg_location matches Some(p) && p == path,
            r.proxy_url == self.proxy_url,
    {
        ArgumentBuilder { ffmpeg_location: Some(path), ..self }
    }

    /// The filename template handed to the downloader.
    fn get_filename_template(&self) -> (r: String)
        ensures
            r@ == filename_template_spec(self.config),
    {
        match &self.config.filename_template {
            Some(template) => {
                if template.unicode_len() > 0 {
                    convert_template_to_ytdlp(template.as_str())
                } else {
                    String::from_str("%(title)s.%(ext)s")
                }
            },
            None => String::from_str("%(title)s.%(ext)s"),
        }
    }

    /// The format selector for the configured format and quality.
    fn build_format_selector(&self) -> (r: String)
        ensures
            r@ == format_selector_spec(self.config.format@, self.config.quality@),
    {
        let f = self.config.format.as_str();
        if str_eq(f, "audio-mp3") || str_eq(f, "audio-aac") || str_eq(f, "audio-opus") || str_eq(
            f,
            "audio-flac",
        ) || str_eq(f, "audio-wav") || str_eq(f, "audio-best") {
            String::from_str("bestaudio/best")
        } else {
            let q = self.config.quality.as_str();
            if str_eq(q, "1080p") {
                String::from_str("bestvideo[height<=1080]+bestaudio/best[height<=1080]/best")
            } else if str_eq(q, "720p") {
                String::from_str("bestvideo[height<=720]+bestaudio/best[height<=720]/best")
            } else {
                String::from_str("bestvideo+bestaudio/best")
            }
        }
    }

    /// Head of the argument list: URL, format selector, output template.
    fn head_args(&self) -> (r: Vec<String>)
        ensures
            views_of(r@) == seq![
                self.config.url@,
                "-f"@,
                format_selector_spec(self.config.format@, self.config.quality@),
                "-o"@,
                filename_template_spec(self.config),
            ],
    {
        let mut args: Vec<String> = Vec::new();
        push_arg(&mut args, self.config.url.as_str());
        push_arg(&mut args, "-f");
        push_arg_string(&mut args, self.build_format_selector());
        push_arg(&mut args, "-o");
        push_arg_string(&mut args, self.get_filename_template());
        proof {
            assert(views_of(args@) =~= seq![
                self.config.url@,
                "-f"@,
                format_selector_spec(self.config.format@, self.config.quality@),
                "-o"@,
                filename_template_spec(self.config),
            ]);
        }
        args
    }

    /// Audio extraction and conversion arguments.
    fn audio_args(&self) -> (r: Vec<String>)
        ensures
            views_of(r@) == audio_args_spec(self.config.format@),
    {
        let mut args: Vec<String> = Vec::new();
        let f = self.config.format.as_str();
        if str_eq(f, "audio-mp3") {
            push_arg(&mut args, "-x");
            push_arg(&mut args, "--audio-format");
            push_arg(&mut args, "mp3");
            push_arg(&mut args, "--audio-quality");
            push_arg(&mut args, "0");
        } else if str_eq(f, "audio-aac") {
            push_arg(&mut args, "-x");
            push_arg(&mut args, "--audio-format");
            push_arg(&mut args, "m4a");
            push_arg(&mut args, "--audio-quality");
            push_arg(&mut args, "0");
        } else if str_eq(f, "audio-opus") {
            push_arg(&mut args, "-x");
            push_arg(&mut args, "--audio-format");
            push_arg(&mut args, "opus");
            push_arg(&mut args, "--audio-quality");
            push_arg(&mut args, "0");
        } else if str_eq(f, "audio-flac") {
            push_arg(&mut args, "-x");
            push_arg(&mut args, "--audio-format");
            push_arg(&mut args, "flac");
        } else if str_eq(f, "audio-wav") {
            push_arg(&mut args, "-x");
            push_arg(&mut args, "--audio-format");
            push_arg(&mut args, "wav");
        } else if str_eq(f, "audio-best") {
            push_arg(&mut args, "-x");
        }
        proof {
            assert(views_of(args@) =~= audio_args_spec(self.config.format@));
        }
        args
    }

    /// Metadata-embedding and subtitle arguments.
    fn metadata_args(&self) -> (r: Vec<String>)
        ensures
            views_of(r@) == seq!["--embed-thumbnail"@, "--add-metadata"@].add(
                subs_args_spec(self.config.embed_subtitles),
            ),
    {
        let mut args: Vec<String> = Vec::new();
        push_arg(&mut args, "--embed-thumbnail");
        push_arg(&mut args, "--add-metadata");
        if self.config.embed_subtitles {
            push_arg(&mut args, "--embed-subs");
            push_arg(&mut args, "--sub-langs");
            push_arg(&mut args, "all");
        }
        proof {
            assert(views_of(args@) =~= seq!["--embed-thumbnail"@, "--add-metadata"@].add(
                subs_args_spec(self.config.embed_subtitles),
            ));
        }
        args
    }

    /// Cookie-import, toolchain-location and proxy arguments.
    fn network_args(&self) -> (r: Vec<String>)
        ensures
            views_of(r@) == cookies_args_spec(self.config.cookies_from_browser).add(
                match self.ffmpeg_location {
                    Some(p) => seq!["--ffmpeg-location"@, p@],
                    None => Seq::<Seq<char>>::empty(),
                },
            ).add(
                match self.proxy_url {
                    Some(p) => {
                        if p@.len() > 0 {
                            seq!["--proxy"@, p@]
                        } else {
                            Seq::<Seq<char>>::empty()
                        }
                    },
                    None => Seq::<Seq<char>>::empty(),
                },
            ),
    {
        let mut args: Vec<String> = Vec::new();
        match &self.config.cookies_from_browser {
            Some(browser) => {
                if browser.unicode_len() > 0 {
                    push_arg(&mut args, "--cookies-from-browser");
                    push_arg(&mut args, browser.as_str());
                }
            },
            None => {},
        }
        match &self.ffmpeg_location {
            Some(path) => {
                push_arg(&mut args, "--ffmpeg-location");
                push_arg(&mut args, path.as_str());
            },
            None => {},
        }
        match &self.proxy_url {
            Some(proxy) => {
                if proxy.unicode_len() > 0 {
                    push_arg(&mut args, "--proxy");
                    push_arg(&mut args, proxy.as_str());
                }
            },
            None => {},
        }
        proof {
            assert(views_of(args@) =~= cookies_args_spec(self.config.cookies_from_browser).add(
                match self.ffmpeg_location {
                    Some(p) => seq!["--ffmpeg-location"@, p@],
                    None => Seq::<Seq<char>>::empty(),
                },
            ).add(
                match self.proxy_url {
                    Some(p) => {
                        if p@.len() > 0 {
                            seq!["--proxy"@, p@]
                        } else {
                            Seq::<Seq<char>>::empty()
                        }
                    },
                    None => Seq::<Seq<char>>::empty(),
                },
            ));
        }
        args
    }

    /// Merge-container and fixed trailing arguments.
    fn tail_args(&self) -> (r: Vec<String>)
        ensures
            views_of(r@) == merge_args_spec(self.config.format@).add(tail_args_spec()),
    {
        let mut args: Vec<String> = Vec::new();
        let f = self.config.format.as_str();
        if str_eq(f, "video-mp4") {
            push_arg(&mut args, "--merge-output-format");
            push_arg(&mut args, "mp4");
        } else if str_eq(f, "video-webm") {
            push_arg(&mut args, "--merge-output-format");
            push_arg(&mut args, "webm");
        } else if str_eq(f, "video-mkv") {
            push_arg(&mut args, "--merge-output-format");
            push_arg(&mut args, "mkv");
        }
        push_arg(&mut args, "--progress-template");
        push_arg(
            &mut args,
            "download:%(progress._percent_str)s|%(progress._downloaded_bytes_str)s|%(progress._total_bytes_str)s|%(progress._speed_str)s|%(progress._eta_str)s",
        );
        push_arg(&mut args, "--print");
        push_arg(&mut args, "after_move:filepath");
        push_arg(&mut args, "--no-playlist");
        push_arg(&mut args, "--windows-filenames");
        push_arg(&mut args, "--encoding");
        push_arg(&mut args, "utf-8");
        push_arg(&mut args, "--no-warnings");
        push_arg(&mut args, "--continue");
        push_arg(&mut args, "--keep-fragments");
        push_arg(&mut args, "--fragment-retries");
        push_arg(&mut args, "10");
        push_arg(&mut args, "--retries");
        push_arg(&mut args, "10");
        proof {
            assert(views_of(args@) =~= merge_args_spec(self.config.format@).add(tail_args_spec()));
        }
        args
    }

    /// Build the complete argument list.
    pub fn build(&self) -> (r: Vec<String>)
        ensures
            views_of(r@) == build_args_spec(self.config, self.ffmpeg_location, self.proxy_url),
    {
        let mut args = self.head_args();
        let mut audio = self.audio_args();
        let mut metadata = self.metadata_args();
        let mut network = self.network_args();
        let mut tail = self.tail_args();
        let ghost g_head = args@;
        let ghost g_audio = audio@;
        let ghost g_meta = metadata@;
        let ghost g_net = network@;
        let ghost g_tail = tail@;
        args.append(&mut audio);
        proof {
            lemma_views_add(g_head, g_audio);
        }
        let ghost s1 = args@;
        args.append(&mut metadata);
        proof {
            lemma_views_add(s1, g_meta);
        }
        let ghost s2 = args@;
        args.append(&mut network);
        proof {
            lemma_views_add(s2, g_net);
        }
        let ghost s3 = args@;
        args.append(&mut tail);
        proof {
            lemma_views_add(s3, g_tail);
            assert(views_of(args@) =~= build_args_spec(
                self.config,
                self.ffmpeg_location,
                self.proxy_url,
            ));
        }
        args
    }

    /// The format selector string alone.
    pub fn get_format_selector(&self) -> (r: String)
        ensures
            r@ == format_selector_spec(self.config.format@, self.config.quality@),
    {
        self.build_format_selector()
    }

    /// Whether the configured format extracts audio.
    pub fn is_audio_extraction(&self) -> (r: bool)
        ensures
            r == is_audio_format(self.config.format@),
    {
        let f = self.config.format.as_str();
        str_eq(f, "audio-mp3") || str_eq(f, "audio-best") || str_eq(f, "audio-flac") || str_eq(
            f,
            "audio-wav",
        ) || str_eq(f, "audio-aac") || str_eq(f, "audio-opus")
    }
}

} // verus!
