//! Tests for the downloader argument builder.

use mediagrab::args::{convert_template_to_ytdlp, ArgumentBuilder};
use mediagrab::config::DownloadConfig;

fn config(format: &str, quality: &str) -> DownloadConfig {
    DownloadConfig {
        url: "https://youtube.com/watch?v=test123".to_string(),
        format: format.to_string(),
        quality: quality.to_string(),
        output_folder: "C:\\Downloads".to_string(),
        embed_subtitles: false,
        cookies_from_browser: None,
        filename_template: None,
        proxy_url: None,
        cookies_file_path: None,
    }
}

#[test]
fn test_basic_video_download_args() {
    let builder = ArgumentBuilder::new(config("video-mp4", "best"));
    let args = builder.build();

    assert!(args.contains(&"https://youtube.com/watch?v=test123".to_string()));
    assert!(args.contains(&"-f".to_string()));
    assert!(args.contains(&"--embed-thumbnail".to_string()));
    assert!(args.contains(&"--add-metadata".to_string()));
    assert!(args.contains(&"--no-playlist".to_string()));
}

#[test]
fn test_audio_mp3_extraction() {
    let builder = ArgumentBuilder::new(config("audio-mp3", "best"));
    let args = builder.build();

    assert!(args.contains(&"-x".to_string()));
    assert!(args.windows(2).any(|w| w == ["--audio-format", "mp3"]));
}

#[test]
fn test_audio_best_no_reencode() {
    let builder = ArgumentBuilder::new(config("audio-best", "best"));
    let args = builder.build();

    assert!(args.contains(&"-x".to_string()));
    assert!(!args.windows(2).any(|w| w == ["--audio-format", "mp3"]));
}

#[test]
fn test_quality_1080p_format_selector() {
    let builder = ArgumentBuilder::new(config("video-mp4", "1080p"));
    let format_selector = builder.get_format_selector();

    assert!(format_selector.contains("height<=1080"));
    assert!(format_selector.contains("bestvideo"));
    assert!(format_selector.contains("bestaudio"));
}

#[test]
fn test_quality_720p_format_selector() {
    let builder = ArgumentBuilder::new(config("video-mp4", "720p"));
    let format_selector = builder.get_format_selector();

    assert!(format_selector.contains("height<=720"));
}

#[test]
fn test_cookies_from_browser() {
    let mut c = config("video-mp4", "best");
    c.cookies_from_browser = Some("chrome".to_string());
    let builder = ArgumentBuilder::new(c);
    let args = builder.build();

    assert!(args.windows(2).any(|w| w == ["--cookies-from-browser", "chrome"]));
}

#[test]
fn test_embed_subtitles() {
    let mut c = config("video-mp4", "best");
    c.embed_subtitles = true;
    let builder = ArgumentBuilder::new(c);
    let args = builder.build();

    assert!(args.contains(&"--embed-subs".to_string()));
    assert!(args.windows(2).any(|w| w == ["--sub-langs", "all"]));
}

#[test]
fn test_ffmpeg_location() {
    let builder = ArgumentBuilder::new(config("video-mp4", "best"))
        .with_ffmpeg_location("C:\\ffmpeg\\bin".to_string());
    let args = builder.build();

    assert!(args.windows(2).any(|w| w == ["--ffmpeg-location", "C:\\ffmpeg\\bin"]));
}

#[test]
fn test_proxy_argument() {
    let builder = ArgumentBuilder::new(config("video-mp4", "best"))
        .with_proxy(Some("http://127.0.0.1:8080".to_string()));
    let args = builder.build();

    assert!(args.windows(2).any(|w| w == ["--proxy", "http://127.0.0.1:8080"]));
}

#[test]
fn test_merge_output_format_for_video() {
    let builder = ArgumentBuilder::new(config("video-mp4", "best"));
    let args = builder.build();
    assert!(args.windows(2).any(|w| w == ["--merge-output-format", "mp4"]));

    let builder = ArgumentBuilder::new(config("audio-mp3", "best"));
    let args = builder.build();
    assert!(!args.contains(&"--merge-output-format".to_string()));
}

#[test]
fn test_filename_templates() {
    let mut c = config("video-mp4", "best");
    c.filename_template = Some("{title}".to_string());
    let args = ArgumentBuilder::new(c).build();
    assert!(args.windows(2).any(|w| w == ["-o", "%(title)s.%(ext)s"]));

    let mut c = config("video-mp4", "best");
    c.filename_template = Some("{uploader} - {title}".to_string());
    let args = ArgumentBuilder::new(c).build();
    assert!(args.windows(2).any(|w| w == ["-o", "%(uploader)s - %(title)s.%(ext)s"]));

    let c = config("video-mp4", "best");
    let args = ArgumentBuilder::new(c).build();
    assert!(args.windows(2).any(|w| w == ["-o", "%(title)s.%(ext)s"]));
}

#[test]
fn test_convert_template_placeholders() {
    assert_eq!(convert_template_to_ytdlp("{title}"), "%(title)s.%(ext)s");
    assert_eq!(
        convert_template_to_ytdlp("{date} - {title}.{ext}"),
        "%(upload_date)s - %(title)s.%(ext)s"
    );
    assert_eq!(convert_template_to_ytdlp("{quality}"), "%(height)sp.%(ext)s");
}

#[test]
fn test_is_audio_extraction() {
    assert!(ArgumentBuilder::new(config("audio-mp3", "best")).is_audio_extraction());
    assert!(ArgumentBuilder::new(config("audio-best", "best")).is_audio_extraction());
    assert!(!ArgumentBuilder::new(config("video-mp4", "best")).is_audio_extraction());
}
