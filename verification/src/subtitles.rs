//! Subtitle options and argument construction.

use vstd::prelude::*;

use crate::text::{
    ascii_upper, char_idx, find_char, join_strings, join_with, str_eq, to_ascii_upper, views_of,
};

verus! {

use vstd::string::StrSliceExecFns;
use vstd::string::StringExecFns;

/// A single subtitle track.
#[derive(Debug)]
pub struct SubtitleTrack {
    /// Language code (e.g. "en", "tr", "de").
    pub lang_code: String,
    /// Language name (e.g. "English").
    pub lang_name: String,
    /// Whether the track is auto-generated.
    pub is_automatic: bool,
    /// Available formats for this track.
    pub formats: Vec<String>,
}

/// Subtitle information for a video.
#[derive(Debug)]
pub struct SubtitleInfo {
    /// Available manual subtitles.
    pub subtitles: Vec<SubtitleTrack>,
    /// Available auto-generated captions.
    pub automatic_captions: Vec<SubtitleTrack>,
    /// Whether any subtitles are available.
    pub has_subtitles: bool,
}

/// Subtitle download options.
#[derive(Debug)]
pub struct SubtitleOptions {
    /// Whether to download subtitles to files.
    pub download_subtitles: bool,
    /// Whether to embed subtitles in the video.
    pub embed_subtitles: bool,
    /// Selected language codes; empty selects all.
    pub languages: Vec<String>,
    /// Output format: "srt", "vtt", "ass", or "best".
    pub format: String,
    /// Whether to include auto-generated captions.
    pub include_auto: bool,
}

impl Default for SubtitleOptions {
    /// Subtitles off, subrip format, no auto captions.
    fn default() -> (r: Self)
        ensures
            !r.download_subtitles,
            !r.embed_subtitles,
            r.languages@.len() == 0,
            r.format@ == "srt"@,
            !r.include_auto,
    {
        SubtitleOptions {
            download_subtitles: false,
            embed_subtitles: false,
            languages: Vec::new(),
            format: String::from_str("srt"),
            include_auto: false,
        }
    }
}

/// The language-code stem: the part before any regional suffix.
pub open spec fn lang_base(code: Seq<char>) -> Seq<char> {
    if char_idx(code, '-') == -1 {
        code
    } else {
        code.take(char_idx(code, '-'))
    }
}

/// The display name of a language code: a fixed table over the stem, falling
/// back to the upper-cased code.
pub open spec fn lang_name_spec(code: Seq<char>) -> Seq<char> {
    let base = lang_base(code);
    if base == "en"@ {
        "English"@
    } else if base == "tr"@ {
        "Türkçe"@
    } else if base == "de"@ {
        "Deutsch"@
    } else if base == "fr"@ {
        "Français"@
    } else if base == "es"@ {
        "Español"@
    } else if base == "it"@ {
        "Italiano"@
    } else if base == "pt"@ {
        "Português"@
    } else if base == "ru"@ {
        "Русский"@
    } else if base == "ja"@ {
        "日本語"@
    } else if base == "ko"@ {
        "한국어"@
    } else if base == "zh"@ {
        "中文"@
    } else if base == "ar"@ {
        "العربية"@
    } else if base == "hi"@ {
        "हिन्दी"@
    } else if base == "nl"@ {
        "Nederlands"@
    } else if base == "pl"@ {
        "Polski"@
    } else if base == "sv"@ {
        "Svenska"@
    } else if base == "no"@ {
        "Norsk"@
    } else if base == "da"@ {
        "Dansk"@
    } else if base == "fi"@ {
        "Suomi"@
    } else if base == "cs"@ {
        "Čeština"@
    } else if base == "el"@ {
        "Ελληνικά"@
    } else if base == "he"@ {
        "עברית"@
    } else if base == "th"@ {
        "ไทย"@
    } else if base == "vi"@ {
        "Tiếng Việt"@
    } else if base == "id"@ {
        "Bahasa Indonesia"@
    } else if base == "ms"@ {
        "Bahasa Melayu"@
    } else if base == "uk"@ {
        "Українська"@
    } else if base == "ro"@ {
        "Română"@
    } else if base == "hu"@ {
        "Magyar"@
    } else if base == "bg"@ {
        "Български"@
    } else if base == "hr"@ {
        "Hrvatski"@
    } else if base == "sk"@ {
        "Slovenčina"@
    } else if base == "sl"@ {
        "Slovenščina"@
    } else if base == "sr"@ {
        "Српски"@
    } else if base == "lt"@ {
        "Lietuvių"@
    } else if base == "lv"@ {
        "Latviešu"@
    } else if base == "et"@ {
        "Eesti"@
    } else {
        ascii_upper(code)
    }
}

/// Human-readable language name for a code.
pub fn get_language_name(code: &str) -> (r: String)
    ensures
        r@ == lang_name_spec(code@),
{
    let n = code.unicode_len();
    let base: &str = match find_char(code, '-') {
        Some(d) => {
            let b = code.substring_char(0, d);
            proof {
                assert(b@ =~= lang_base(code@));
            }
            b
        },
        None => code,
    };
    if str_eq(base, "en") {
        String::from_str("English")
    } else if str_eq(base, "tr") {
        String::from_str("Türkçe")
    } else if str_eq(base, "de") {
        String::from_str("Deutsch")
    } else if str_eq(base, "fr") {
        String::from_str("Français")
    } else if str_eq(base, "es") {
        String::from_str("Español")
    } else if str_eq(base, "it") {
        String::from_str("Italiano")
    } else if str_eq(base, "pt") {
        String::from_str("Português")
    } else if str_eq(base, "ru") {
        String::from_str("Русский")
    } else if str_eq(base, "ja") {
        String::from_str("日本語")
    } else if str_eq(base, "ko") {
        String::from_str("한국어")
    } else if str_eq(base, "zh") {
        String::from_str("中文")
    } else if str_eq(base, "ar") {
        String::from_str("العربية")
    } else if str_eq(base, "hi") {
        String::from_str("हिन्दी")
    } else if str_eq(base, "nl") {
        String::from_str("Nederlands")
    } else if str_eq(base, "pl") {
        String::from_str("Polski")
    } else if str_eq(base, "sv") {
        String::from_str("Svenska")
    } else if str_eq(base, "no") {
        String::from_str("Norsk")
    } else if str_eq(base, "da") {
        String::from_str("Dansk")
    } else if str_eq(base, "fi") {
        String::from_str("Suomi")
    } else if str_eq(base, "cs") {
        String::from_str("Čeština")
    } else if str_eq(base, "el") {
        String::from_str("Ελληνικά")
    } else if str_eq(base, "he") {
        String::from_str("עברית")
    } else if str_eq(base, "th") {
        String::from_str("ไทย")
    } else if str_eq(base, "vi") {
        String::from_str("Tiếng Việt")
    } else if str_eq(base, "id") {
        String::from_str("Bahasa Indonesia")
    } else if str_eq(base, "ms") {
        String::from_str("Bahasa Melayu")
    } else if str_eq(base, "uk") {
        String::from_str("Українська")
    } else if str_eq(base, "ro") {
        String::from_str("Română")
    } else if str_eq(base, "hu") {
        String::from_str("Magyar")
    } else if str_eq(base, "bg") {
        String::from_str("Български")
    } else if str_eq(base, "hr") {
        String::from_str("Hrvatski")
    } else if str_eq(base, "sk") {
        String::from_str("Slovenčina")
    } else if str_eq(base, "sl") {
        String::from_str("Slovenščina")
    } else if str_eq(base, "sr") {
        String::from_str("Српски")
    } else if str_eq(base, "lt") {
        String::from_str("Lietuvių")
    } else if str_eq(base, "lv") {
        String::from_str("Latviešu")
    } else if str_eq(base, "et") {
        String::from_str("Eesti")
    } else {
        to_ascii_upper(code)
    }
}

/// The subtitle arguments for the chosen options: nothing when subtitles are
/// off; otherwise write/embed flags, the language selection, and for file
/// output the format conversion.
pub open spec fn subtitle_args_spec(
    download: bool,
    embed: bool,
    languages: Seq<Seq<char>>,
    format: Seq<char>,
    include_auto: bool,
) -> Seq<Seq<char>> {
    if !download && !embed {
        Seq::empty()
    } else {
        let write_part: Seq<Seq<char>> = if download {
            if include_auto {
                seq!["--write-subs"@, "--write-auto-subs"@]
            } else {
                seq!["--write-subs"@]
            }
        } else {
            Seq::empty()
        };
        let embed_part: Seq<Seq<char>> = if embed {
            seq!["--embed-subs"@]
        } else {
            Seq::empty()
        };
        let lang_part: Seq<Seq<char>> = if languages.len() > 0 {
            seq!["--sub-langs"@, join_with(languages, ","@)]
        } else {
            seq!["--sub-langs"@, "all"@]
        };
        let format_part: Seq<Seq<char>> = if download {
            let fmt: Seq<char> = if format == "srt"@ {
                "srt/best"@
            } else if format == "vtt"@ {
                "vtt/best"@
            } else if format == "ass"@ {
                "ass/best"@
            } else {
                "srt/best"@
            };
            seq!["--sub-format"@, fmt, "--convert-subs"@, format]
        } else {
            Seq::empty()
        };
        write_part.add(embed_part).add(lang_part).add(format_part)
    }
}

/// Build the downloader arguments for the subtitle options.
pub fn build_subtitle_args(options: &SubtitleOptions) -> (r: Vec<String>)
    ensures
        views_of(r@) == subtitle_args_spec(
            options.download_subtitles,
            options.embed_subtitles,
            views_of(options.languages@),
            options.format@,
            options.include_auto,
        ),
{
    let mut args: Vec<String> = Vec::new();
    if !options.download_subtitles && !options.embed_subtitles {
        proof {
            assert(views_of(args@) =~= Seq::<Seq<char>>::empty());
        }
        return args;
    }
    if options.download_subtitles {
        args.push(String::from_str("--write-subs"));
        if options.include_auto {
            args.push(String::from_str("--write-auto-subs"));
        }
    }
    if options.embed_subtitles {
        args.push(String::from_str("--embed-subs"));
    }
    if options.languages.len() > 0 {
        args.push(String::from_str("--sub-langs"));
        args.push(join_strings(&options.languages, ","));
    } else {
        args.push(String::from_str("--sub-langs"));
        args.push(String::from_str("all"));
    }
    if options.download_subtitles {
        args.push(String::from_str("--sub-format"));
        let f = options.format.as_str();
        if str_eq(f, "srt") {
            args.push(String::from_str("srt/best"));
        } else if str_eq(f, "vtt") {
            args.push(String::from_str("vtt/best"));
        } else if str_eq(f, "ass") {
            args.push(String::from_str("ass/best"));
        } else {
            args.push(String::from_str("srt/best"));
        }
        args.push(String::from_str("--convert-subs"));
        args.push(options.format.clone());
    }
    proof {
        assert(views_of(args@) =~= subtitle_args_spec(
            options.download_subtitles,
            options.embed_subtitles,
            views_of(options.languages@),
            options.format@,
            options.include_auto,
        ));
    }
    args
}

} // verus!
