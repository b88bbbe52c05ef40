//! The yt-dlp command line for a download, built from the options chosen in
//! the window.
use vstd::prelude::*;
use vstd::string::StringExecFns;

use crate::pix::{decimal, digit_char};
use crate::platform::TargetOs;
use crate::text::{is_blank, push_string, replace_char, replace_char_in, string_views, trim};

verus! {

broadcast use vstd::string::group_string_axioms;

/// What the argument list needs to know of the machine it runs on.
pub struct ToolSetup {
    /// The platform the program was built for.
    pub os: TargetOs,
    /// Where ffmpeg was found (`find_tool` of the ffmpeg binary).
    pub ffmpeg: String,
    /// The JavaScript runtime found on the machine (`node` or `deno`), if any.
    pub js_runtime: Option<String>,
    /// Whether the installed yt-dlp accepts `--js-runtimes`; only consulted
    /// when a runtime was found.
    pub js_runtimes_flag: bool,
}

/// The options of one download, as chosen in the window.
pub struct DownloadOptions {
    /// The video or playlist address.
    pub url: String,
    /// The folder the files go to.
    pub output_folder: String,
    /// 0 best, 1 4K, 2 1080p, 3 720p, 4 480p, 5 360p, 6 smallest.
    pub quality_index: i32,
    /// 0 automatic, 1 MP4, 2 MKV, 3 WebM.
    pub format_index: i32,
    /// Extract the audio only.
    pub audio_only: bool,
    /// 0 MP3, 1 M4A, 2 OGG, 3 WAV, 4 FLAC.
    pub audio_format_index: i32,
    /// Download only the part between `start_time` and `end_time`.
    pub use_time_range: bool,
    /// Start of the part (HH:MM:SS).
    pub start_time: String,
    /// End of the part (HH:MM:SS).
    pub end_time: String,
    /// Download and embed Portuguese and English subtitles.
    pub download_subtitles: bool,
    /// Embed the thumbnail as cover.
    pub embed_thumbnail: bool,
    /// Remove sponsor segments, intros, outros and self-promotion.
    pub sponsorblock: bool,
    /// Download the whole playlist, numbering the files.
    pub playlist_mode: bool,
}

// ─── The specification of the argument list ────────────────────────────────

/// `--js-runtimes <runtime>` when a runtime was found and yt-dlp knows the flag.
pub open spec fn js_runtime_args(setup: ToolSetup) -> Seq<Seq<char>> {
    match setup.js_runtime {
        Some(r) => if setup.js_runtimes_flag {
            seq!["--js-runtimes"@, r@]
        } else {
            seq![]
        },
        None => seq![],
    }
}

/// The folder used in the output template: `.` for a blank folder, and on
/// Windows every `\` turned into `/`.
pub open spec fn template_folder(os: TargetOs, folder: Seq<char>) -> Seq<char> {
    let f = if is_blank(folder) {
        "."@
    } else {
        folder
    };
    if os == TargetOs::Windows {
        replace_char(f, '\\', '/')
    } else {
        f
    }
}

/// The `-o` output template.
pub open spec fn output_template(os: TargetOs, folder: Seq<char>, playlist_mode: bool) -> Seq<
    char,
> {
    template_folder(os, folder) + if playlist_mode {
        "/%(playlist_index)02d - %(title)s.%(ext)s"@
    } else {
        "/%(title)s.%(ext)s"@
    }
}

/// The audio format for an index of the audio format list; MP3 for an index
/// outside it.
pub open spec fn audio_format_name(index: i32) -> Seq<char> {
    if index == 1 {
        "m4a"@
    } else if index == 2 {
        "ogg"@
    } else if index == 3 {
        "wav"@
    } else if index == 4 {
        "flac"@
    } else {
        "mp3"@
    }
}

/// The height limit for a quality index; none for the others.
pub open spec fn height_filter(quality_index: i32) -> Seq<char> {
    if quality_index == 1 {
        "[height<=2160]"@
    } else if quality_index == 2 {
        "[height<=1080]"@
    } else if quality_index == 3 {
        "[height<=720]"@
    } else if quality_index == 4 {
        "[height<=480]"@
    } else if quality_index == 5 {
        "[height<=360]"@
    } else {
        ""@
    }
}

/// The `-f` format selection for a quality index.
pub open spec fn format_selection(quality_index: i32) -> Seq<char> {
    if quality_index == 6 {
        "worstvideo+worstaudio/worst"@
    } else {
        "bestvideo"@ + height_filter(quality_index) + "+bestaudio/best"@ + height_filter(
            quality_index,
        )
    }
}

/// The container for a format index; empty (let yt-dlp decide) for the others.
pub open spec fn container_name(format_index: i32) -> Seq<char> {
    if format_index == 1 {
        "mp4"@
    } else if format_index == 2 {
        "mkv"@
    } else if format_index == 3 {
        "webm"@
    } else {
        ""@
    }
}

/// The arguments choosing what is downloaded: audio extraction, or video
/// format and container.
pub open spec fn format_args(o: DownloadOptions) -> Seq<Seq<char>> {
    if o.audio_only {
        seq!["-x"@, "--audio-format"@, audio_format_name(o.audio_format_index), "--audio-quality"@, "0"@]
    } else {
        seq!["-f"@, format_selection(o.quality_index)] + if container_name(o.format_index).len()
            > 0 {
            seq!["--merge-output-format"@, container_name(o.format_index)]
        } else {
            seq![]
        }
    }
}

/// The section arguments when a time range is asked for and both ends are given.
pub open spec fn time_range_args(o: DownloadOptions) -> Seq<Seq<char>> {
    if o.use_time_range && o.start_time@.len() > 0 && o.end_time@.len() > 0 {
        seq![
            "--download-sections"@,
            "*"@ + o.start_time@ + "-"@ + o.end_time@,
            "--force-keyframes-at-cuts"@,
        ]
    } else {
        seq![]
    }
}

/// The subtitle arguments.
pub open spec fn subtitle_args(o: DownloadOptions) -> Seq<Seq<char>> {
    if o.download_subtitles {
        seq!["--write-subs"@, "--write-auto-subs"@, "--sub-langs"@, "pt,en"@, "--embed-subs"@]
    } else {
        seq![]
    }
}

/// The thumbnail argument.
pub open spec fn thumbnail_args(o: DownloadOptions) -> Seq<Seq<char>> {
    if o.embed_thumbnail {
        seq!["--embed-thumbnail"@]
    } else {
        seq![]
    }
}

/// The SponsorBlock arguments.
pub open spec fn sponsorblock_args(o: DownloadOptions) -> Seq<Seq<char>> {
    if o.sponsorblock {
        seq!["--sponsorblock-remove"@, "sponsor,intro,outro,selfpromo"@]
    } else {
        seq![]
    }
}

/// The playlist argument.
pub open spec fn playlist_args(o: DownloadOptions) -> Seq<Seq<char>> {
    if o.playlist_mode {
        seq![]
    } else {
        seq!["--no-playlist"@]
    }
}

/// The whole yt-dlp argument list for a download.
pub open spec fn download_args(setup: ToolSetup, o: DownloadOptions) -> Seq<Seq<char>> {
    js_runtime_args(setup) + seq!["--ffmpeg-location"@, setup.ffmpeg@] + seq![
        "-o"@,
        output_template(setup.os, o.output_folder@, o.playlist_mode),
    ] + playlist_args(o) + format_args(o) + time_range_args(o) + subtitle_args(o)
        + thumbnail_args(o) + sponsorblock_args(o) + seq!["--newline"@, "--no-colors"@, o.url@]
}

// ─── Building it ────────────────────────────────────────────────────────────

/// The output template for a download.
fn build_output_template(os: TargetOs, folder: &str, playlist_mode: bool) -> (t: String)
    ensures
        t@ == output_template(os, folder@, playlist_mode),
{
    let trimmed_folder = trim(folder);
    let base: String = if trimmed_folder.as_str().is_empty() {
        ".".to_owned()
    } else {
        folder.to_owned()
    };
    let mut t = match os {
        TargetOs::Windows => replace_char_in(base.as_str(), '\\', '/'),
        _ => base,
    };
    if playlist_mode {
        t.append("/%(playlist_index)02d - %(title)s.%(ext)s");
    } else {
        t.append("/%(title)s.%(ext)s");
    }
    t
}

/// The audio format name for an index.
fn audio_format_of(index: i32) -> (s: &'static str)
    ensures
        s@ == audio_format_name(index),
{
    if index == 1 {
        "m4a"
    } else if index == 2 {
        "ogg"
    } else if index == 3 {
        "wav"
    } else if index == 4 {
        "flac"
    } else {
        "mp3"
    }
}

/// The height filter for a quality index.
fn height_filter_of(quality_index: i32) -> (s: &'static str)
    ensures
        s@ == height_filter(quality_index),
{
    match quality_index {
        1 => "[height<=2160]",
        2 => "[height<=1080]",
        3 => "[height<=720]",
        4 => "[height<=480]",
        5 => "[height<=360]",
        _ => "",
    }
}

/// The container name for a format index.
fn container_of(format_index: i32) -> (s: &'static str)
    ensures
        s@ == container_name(format_index),
{
    if format_index == 1 {
        "mp4"
    } else if format_index == 2 {
        "mkv"
    } else if format_index == 3 {
        "webm"
    } else {
        ""
    }
}

/// Appends the JavaScript runtime arguments.
fn push_js_runtime_args(a: &mut Vec<String>, setup: &ToolSetup)
    ensures
        string_views(final(a)@) == string_views(old(a)@) + js_runtime_args(*setup),
{
    let ghost before = string_views(a@);
    match &setup.js_runtime {
        Some(runtime) => {
            if setup.js_runtimes_flag {
                push_string(a, "--js-runtimes".to_owned());
                push_string(a, runtime.clone());
            }
        },
        None => {},
    }
    assert(string_views(a@) =~= before + js_runtime_args(*setup));
}

/// Appends the arguments choosing audio or video format.
fn push_format_args(a: &mut Vec<String>, o: &DownloadOptions)
    ensures
        string_views(final(a)@) == string_views(old(a)@) + format_args(*o),
{
    let ghost before = string_views(a@);
    if o.audio_only {
        push_string(a, "-x".to_owned());
        push_string(a, "--audio-format".to_owned());
        push_string(a, audio_format_of(o.audio_format_index).to_owned());
        push_string(a, "--audio-quality".to_owned());
        push_string(a, "0".to_owned());
    } else {
        let hf = height_filter_of(o.quality_index);
        let fmt_spec: String = if o.quality_index == 6 {
            "worstvideo+worstaudio/worst".to_owned()
        } else {
            let mut f = "bestvideo".to_owned();
            f.append(hf);
            f.append("+bestaudio/best");
            f.append(hf);
            f
        };
        push_string(a, "-f".to_owned());
        push_string(a, fmt_spec);
        let container = container_of(o.format_index);
        if !container.is_empty() {
            push_string(a, "--merge-output-format".to_owned());
            push_string(a, container.to_owned());
        }
    }
    assert(string_views(a@) =~= before + format_args(*o));
}

/// Appends the time range arguments.
fn push_time_range_args(a: &mut Vec<String>, o: &DownloadOptions)
    ensures
        string_views(final(a)@) == string_views(old(a)@) + time_range_args(*o),
{
    let ghost before = string_views(a@);
    if o.use_time_range && !o.start_time.as_str().is_empty() && !o.end_time.as_str().is_empty() {
        push_string(a, "--download-sections".to_owned());
        let mut section = "*".to_owned();
        section.append(o.start_time.as_str());
        section.append("-");
        section.append(o.end_time.as_str());
        push_string(a, section);
        push_string(a, "--force-keyframes-at-cuts".to_owned());
    }
    assert(string_views(a@) =~= before + time_range_args(*o));
}

/// Appends the subtitle, thumbnail and SponsorBlock arguments.
fn push_extras_args(a: &mut Vec<String>, o: &DownloadOptions)
    ensures
        string_views(final(a)@) == string_views(old(a)@) + subtitle_args(*o) + thumbnail_args(*o)
            + sponsorblock_args(*o),
{
    let ghost before = string_views(a@);
    if o.download_subtitles {
        push_string(a, "--write-subs".to_owned());
        push_string(a, "--write-auto-subs".to_owned());
        push_string(a, "--sub-langs".to_owned());
        push_string(a, "pt,en".to_owned());
        push_string(a, "--embed-subs".to_owned());
    }
    let ghost mid1 = string_views(a@);
    assert(mid1 =~= before + subtitle_args(*o));
    if o.embed_thumbnail {
        push_string(a, "--embed-thumbnail".to_owned());
    }
    let ghost mid2 = string_views(a@);
    assert(mid2 =~= mid1 + thumbnail_args(*o));
    if o.sponsorblock {
        push_string(a, "--sponsorblock-remove".to_owned());
        push_string(a, "sponsor,intro,outro,selfpromo".to_owned());
    }
    assert(string_views(a@) =~= mid2 + sponsorblock_args(*o));
}

/// The yt-dlp arguments for a download with options `o` on the machine
/// described by `setup`; the address comes last.
pub fn build_args(setup: &ToolSetup, o: &DownloadOptions) -> (a: Vec<String>)
    ensures
        string_views(a@) == download_args(*setup, *o),
{
    let mut a: Vec<String> = Vec::new();
    assert(string_views(a@) =~= seq![]);
    push_js_runtime_args(&mut a, setup);
    let ghost s1 = string_views(a@);
    push_string(&mut a, "--ffmpeg-location".to_owned());
    push_string(&mut a, setup.ffmpeg.clone());
    push_string(&mut a, "-o".to_owned());
    push_string(&mut a, build_output_template(setup.os, o.output_folder.as_str(), o.playlist_mode));
    let ghost s2 = string_views(a@);
    assert(s2 =~= s1 + seq!["--ffmpeg-location"@, setup.ffmpeg@] + seq![
        "-o"@,
        output_template(setup.os, o.output_folder@, o.playlist_mode),
    ]);
    if !o.playlist_mode {
        push_string(&mut a, "--no-playlist".to_owned());
    }
    let ghost s3 = string_views(a@);
    assert(s3 =~= s2 + playlist_args(*o));
    push_format_args(&mut a, o);
    push_time_range_args(&mut a, o);
    push_extras_args(&mut a, o);
    let ghost s4 = string_views(a@);
    push_string(&mut a, "--newline".to_owned());
    push_string(&mut a, "--no-colors".to_owned());
    push_string(&mut a, o.url.clone());
    assert(string_views(a@) =~= s4 + seq!["--newline"@, "--no-colors"@, o.url@]);
    assert(string_views(a@) =~= download_args(*setup, *o));
    a
}

// ─── Laws ───────────────────────────────────────────────────────────────────

/// The greatest video height each quality choice of the window stands for:
/// 4K, 1080p, 720p, 480p and 360p.
pub open spec fn quality_height(quality_index: i32) -> nat {
    if quality_index == 1 {
        2160
    } else if quality_index == 2 {
        1080
    } else if quality_index == 3 {
        720
    } else if quality_index == 4 {
        480
    } else {
        360
    }
}

/// The height limit of yt-dlp's format selection for height `h`.
pub open spec fn height_limit(h: nat) -> Seq<char> {
    "[height<="@ + decimal(h) + "]"@
}

/// Each quality choice from 4K down to 360p asks for the best video and audio
/// no taller than its height, falling back to the best single file no taller;
/// and the heights fall strictly from one choice to the next.
pub proof fn law_quality_limits_height(quality_index: i32)
    requires
        1 <= quality_index <= 5,
    ensures
        format_selection(quality_index) == "bestvideo"@ + height_limit(quality_height(quality_index))
            + "+bestaudio/best"@ + height_limit(quality_height(quality_index)),
        quality_index < 5 ==> quality_height(quality_index) > quality_height(
            (quality_index + 1) as i32,
        ),
{
    reveal_strlit("[height<=");
    reveal_strlit("]");
    reveal_strlit("[height<=2160]");
    reveal_strlit("[height<=1080]");
    reveal_strlit("[height<=720]");
    reveal_strlit("[height<=480]");
    reveal_strlit("[height<=360]");
    reveal_with_fuel(decimal, 5);
    let h = quality_height(quality_index);
    assert(digit_char(0) == '0' && digit_char(1) == '1' && digit_char(2) == '2' && digit_char(3)
        == '3' && digit_char(4) == '4' && digit_char(6) == '6' && digit_char(7) == '7'
        && digit_char(8) == '8');
    assert(height_filter(quality_index) =~= height_limit(h));
}

/// The audio formats of the window's list, in order: MP3, M4A, OGG, WAV and
/// FLAC; any index outside the list extracts MP3.
pub proof fn law_audio_format_choices(index: i32)
    ensures
        0 <= index < 5 ==> audio_format_name(index) == seq!["mp3"@, "m4a"@, "ogg"@, "wav"@, "flac"@][index as int],
        !(0 <= index < 5) ==> audio_format_name(index) == "mp3"@,
{
}

/// The containers of the window's list, in order: automatic (no merge
/// format), MP4, MKV and WebM; any index outside the list leaves the choice
/// to yt-dlp.
pub proof fn law_container_choices(index: i32)
    ensures
        0 <= index < 4 ==> container_name(index) == seq![""@, "mp4"@, "mkv"@, "webm"@][index as int],
        !(0 <= index < 4) ==> container_name(index) == ""@,
{
}

/// A blank output folder sends the files to the current folder, never to the
/// root of the file system: the template starts with `./`.
pub proof fn law_blank_folder_writes_to_current_folder(
    os: TargetOs,
    folder: Seq<char>,
    playlist_mode: bool,
)
    requires
        is_blank(folder),
    ensures
        output_template(os, folder, playlist_mode).take(2) == "./"@,
{
    reveal_strlit(".");
    reveal_strlit("./");
    reveal_strlit("/%(playlist_index)02d - %(title)s.%(ext)s");
    reveal_strlit("/%(title)s.%(ext)s");
    let f = template_folder(os, folder);
    assert(f =~= "."@);
    assert(output_template(os, folder, playlist_mode).take(2) =~= "./"@);
}

/// Off Windows a backslash is an ordinary character of a folder name: a
/// non-blank folder is used exactly as given.
pub proof fn law_folder_kept_off_windows(os: TargetOs, folder: Seq<char>)
    requires
        os != TargetOs::Windows,
        !is_blank(folder),
    ensures
        template_folder(os, folder) == folder,
{
}

/// On Windows the folder of the template holds no backslash.
pub proof fn law_windows_folder_has_no_backslash(folder: Seq<char>)
    ensures
        !template_folder(TargetOs::Windows, folder).contains('\\'),
{
    let f = if is_blank(folder) {
        "."@
    } else {
        folder
    };
    let g = template_folder(TargetOs::Windows, folder);
    assert(g == replace_char(f, '\\', '/'));
    assert forall|i: int| 0 <= i < g.len() implies g[i] != '\\' by {
        assert(g[i] == (if f[i] == '\\' { '/' } else { f[i] }));
    }
}

/// The address is always the last argument.
pub proof fn law_url_is_last(setup: ToolSetup, o: DownloadOptions)
    ensures
        download_args(setup, o).len() > 0,
        download_args(setup, o).last() == o.url@,
{
}

/// The argument list opens with `--js-runtimes` exactly when a runtime was
/// found and the installed yt-dlp knows the flag; otherwise it opens with the
/// ffmpeg location.
pub proof fn law_js_runtimes_only_when_supported(setup: ToolSetup, o: DownloadOptions)
    ensures
        (download_args(setup, o)[0] == "--js-runtimes"@) <==> (setup.js_runtime is Some
            && setup.js_runtimes_flag),
        !(setup.js_runtime is Some && setup.js_runtimes_flag) ==> download_args(setup, o)[0]
            == "--ffmpeg-location"@,
{
    reveal_strlit("--js-runtimes");
    reveal_strlit("--ffmpeg-location");
    let a = download_args(setup, o);
    let j = js_runtime_args(setup);
    if setup.js_runtime is Some && setup.js_runtimes_flag {
        assert(a[0] == j[0]);
    } else {
        assert(j.len() == 0);
        assert(a[0] == "--ffmpeg-location"@);
        assert("--ffmpeg-location"@[2] != "--js-runtimes"@[2]);
    }
}

/// The ffmpeg found on the machine is always passed to yt-dlp, right after the
/// runtime arguments.
pub proof fn law_ffmpeg_location_passed(setup: ToolSetup, o: DownloadOptions)
    ensures
        ({
            let a = download_args(setup, o);
            let k = js_runtime_args(setup).len() as int;
            a[k] == "--ffmpeg-location"@ && a[k + 1] == setup.ffmpeg@
        }),
{
}

} // verus!
