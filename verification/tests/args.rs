use ams_yt_dw::args::{build_args, DownloadOptions, ToolSetup};
use ams_yt_dw::platform::TargetOs;

fn setup(os: TargetOs, runtime: Option<&str>, flag: bool) -> ToolSetup {
    ToolSetup {
        os,
        ffmpeg: "ffmpeg".to_string(),
        js_runtime: runtime.map(|r| r.to_string()),
        js_runtimes_flag: flag,
    }
}

fn options(folder: &str) -> DownloadOptions {
    DownloadOptions {
        url: "https://youtu.be/abc".to_string(),
        output_folder: folder.to_string(),
        quality_index: 0,
        format_index: 0,
        audio_only: false,
        audio_format_index: 0,
        use_time_range: false,
        start_time: String::new(),
        end_time: String::new(),
        download_subtitles: false,
        embed_thumbnail: false,
        sponsorblock: false,
        playlist_mode: false,
    }
}

#[test]
fn plain_video_download() {
    let a = build_args(&setup(TargetOs::Unix, None, false), &options("/home/u/Downloads"));
    assert_eq!(
        a,
        vec![
            "--ffmpeg-location",
            "ffmpeg",
            "-o",
            "/home/u/Downloads/%(title)s.%(ext)s",
            "--no-playlist",
            "-f",
            "bestvideo+bestaudio/best",
            "--newline",
            "--no-colors",
            "https://youtu.be/abc",
        ]
    );
}

#[test]
fn js_runtime_only_when_flag_supported() {
    let a = build_args(&setup(TargetOs::Unix, Some("node"), true), &options("d"));
    assert_eq!(&a[..4], &["--js-runtimes", "node", "--ffmpeg-location", "ffmpeg"]);
    let b = build_args(&setup(TargetOs::Unix, Some("node"), false), &options("d"));
    assert_eq!(b[0], "--ffmpeg-location");
    assert!(!b.contains(&"--js-runtimes".to_string()));
    let c = build_args(&setup(TargetOs::Unix, None, true), &options("d"));
    assert_eq!(c[0], "--ffmpeg-location");
}

#[test]
fn blank_folder_becomes_current_folder() {
    let a = build_args(&setup(TargetOs::Unix, None, false), &options("   "));
    assert_eq!(a[3], "./%(title)s.%(ext)s");
    let b = build_args(&setup(TargetOs::Windows, None, false), &options(""));
    assert_eq!(b[3], "./%(title)s.%(ext)s");
}

#[test]
fn backslashes_turn_into_slashes_only_on_windows() {
    let a = build_args(&setup(TargetOs::Windows, None, false), &options("C:\\Users\\a\\Vídeos"));
    assert_eq!(a[3], "C:/Users/a/Vídeos/%(title)s.%(ext)s");
    let b = build_args(&setup(TargetOs::Unix, None, false), &options("/tmp/a\\b"));
    assert_eq!(b[3], "/tmp/a\\b/%(title)s.%(ext)s");
}

#[test]
fn folder_is_used_untrimmed_when_not_blank() {
    let a = build_args(&setup(TargetOs::Unix, None, false), &options(" x "));
    assert_eq!(a[3], " x /%(title)s.%(ext)s");
}

#[test]
fn playlist_mode_numbers_files() {
    let mut o = options("out");
    o.playlist_mode = true;
    let a = build_args(&setup(TargetOs::Unix, None, false), &o);
    assert_eq!(a[3], "out/%(playlist_index)02d - %(title)s.%(ext)s");
    assert!(!a.contains(&"--no-playlist".to_string()));
}

#[test]
fn audio_only_formats() {
    let mut o = options("d");
    o.audio_only = true;
    o.audio_format_index = 3;
    o.quality_index = 2;
    o.format_index = 1;
    let a = build_args(&setup(TargetOs::Unix, None, false), &o);
    assert_eq!(&a[5..10], &["-x", "--audio-format", "wav", "--audio-quality", "0"]);
    assert!(!a.contains(&"-f".to_string()));
    for idx in [-1, 5, 100] {
        o.audio_format_index = idx;
        let b = build_args(&setup(TargetOs::Unix, None, false), &o);
        assert_eq!(b[7], "mp3");
    }
    o.audio_format_index = 4;
    assert_eq!(build_args(&setup(TargetOs::Unix, None, false), &o)[7], "flac");
}

#[test]
fn quality_and_container() {
    let mut o = options("d");
    o.quality_index = 2;
    o.format_index = 1;
    let a = build_args(&setup(TargetOs::Unix, None, false), &o);
    assert_eq!(
        &a[5..9],
        &["-f", "bestvideo[height<=1080]+bestaudio/best[height<=1080]", "--merge-output-format", "mp4"]
    );
    o.quality_index = 6;
    o.format_index = -1;
    let b = build_args(&setup(TargetOs::Unix, None, false), &o);
    assert_eq!(&b[5..8], &["-f", "worstvideo+worstaudio/worst", "--newline"]);
    o.quality_index = 7;
    o.format_index = 3;
    let c = build_args(&setup(TargetOs::Unix, None, false), &o);
    assert_eq!(&c[5..9], &["-f", "bestvideo+bestaudio/best", "--merge-output-format", "webm"]);
    o.quality_index = 5;
    o.format_index = 4;
    let d = build_args(&setup(TargetOs::Unix, None, false), &o);
    assert_eq!(&d[5..8], &["-f", "bestvideo[height<=360]+bestaudio/best[height<=360]", "--newline"]);
}

#[test]
fn time_range_needs_both_ends() {
    let mut o = options("d");
    o.use_time_range = true;
    o.start_time = "00:01:00".to_string();
    o.end_time = "00:02:30".to_string();
    let a = build_args(&setup(TargetOs::Unix, None, false), &o);
    assert_eq!(
        &a[7..10],
        &["--download-sections", "*00:01:00-00:02:30", "--force-keyframes-at-cuts"]
    );
    o.end_time = String::new();
    let b = build_args(&setup(TargetOs::Unix, None, false), &o);
    assert!(!b.contains(&"--download-sections".to_string()));
    o.end_time = "1".to_string();
    o.use_time_range = false;
    let c = build_args(&setup(TargetOs::Unix, None, false), &o);
    assert!(!c.contains(&"--download-sections".to_string()));
}

#[test]
fn subtitles_thumbnail_sponsorblock() {
    let mut o = options("d");
    o.download_subtitles = true;
    o.embed_thumbnail = true;
    o.sponsorblock = true;
    let a = build_args(&setup(TargetOs::Unix, None, false), &o);
    assert_eq!(
        &a[7..],
        &[
            "--write-subs",
            "--write-auto-subs",
            "--sub-langs",
            "pt,en",
            "--embed-subs",
            "--embed-thumbnail",
            "--sponsorblock-remove",
            "sponsor,intro,outro,selfpromo",
            "--newline",
            "--no-colors",
            "https://youtu.be/abc",
        ]
    );
}

#[test]
fn url_is_always_last() {
    let mut o = options("d");
    o.url = "--not-an-option".to_string();
    o.sponsorblock = true;
    let a = build_args(&setup(TargetOs::MacOs, Some("deno"), true), &o);
    assert_eq!(a.last().unwrap(), "--not-an-option");
}
