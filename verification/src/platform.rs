//! What differs between the platforms the program runs on, and the decisions
//! taken on what the machine answered: which font, which tools, which
//! runtime, how to open a page or a folder.
use vstd::prelude::*;
use vstd::utf8::{decode_utf8, valid_utf8};

use crate::text::{
    contains_str, has_substring, push_string, string_views, strip_suffixes, strip_suffixes_of, trim,
    trimmed,
};

verus! {

broadcast use vstd::string::group_string_axioms;

/// The operating system family the program was built for.
#[derive(Clone, Copy, Debug, PartialEq, Eq, Structural)]
pub enum TargetOs {
    /// Windows: tools carry `.exe`, folders use `\`.
    Windows,
    /// macOS.
    MacOs,
    /// Any other Unix desktop (Linux, BSD), where fonts come from fontconfig.
    Unix,
}

// ─── Text printed by other programs ─────────────────────────────────────────

/// The text `String::from_utf8_lossy` makes of `bytes`: their UTF-8 decoding,
/// with U+FFFD in place of each invalid sequence.
pub uninterp spec fn utf8_lossy(bytes: Seq<u8>) -> Seq<char>;

/// `String::from_utf8_lossy`, made into an owned `String`.
///
/// Claimed of it: the result is `utf8_lossy(bytes)`, and for valid UTF-8 it is
/// the plain decoding of the bytes (the documentation: valid input is returned
/// as it is). How invalid sequences are replaced is left unsaid.
#[verifier::external_body]
fn lossy_text(bytes: &[u8]) -> (s: String)
    ensures
        s@ == utf8_lossy(bytes@),
        valid_utf8(bytes@) ==> s@ == decode_utf8(bytes@),
{
    String::from_utf8_lossy(bytes).into_owned()
}

// ─── Monospaced font of the log ─────────────────────────────────────────────

/// What `fc-match -f %{family[0]} monospace` answered.
pub struct FcMatchOutput {
    /// Whether it exited successfully.
    pub success: bool,
    /// What it printed.
    pub stdout: Vec<u8>,
}

/// The family named by fontconfig, from whether `fc-match` succeeded and the
/// text it printed: that text trimmed, or Liberation Mono when it failed or
/// printed nothing but whitespace.
pub open spec fn fontconfig_family_of(success: bool, printed: Seq<char>) -> Seq<char> {
    if success && trimmed(printed).len() > 0 {
        trimmed(printed)
    } else {
        "Liberation Mono"@
    }
}

/// The font family of the log: Consolas on Windows, Menlo on macOS, and
/// elsewhere the family fontconfig names for `monospace`, or Liberation Mono
/// when fc-match could not be run.
pub open spec fn mono_font_of(os: TargetOs, fc_match: Option<FcMatchOutput>) -> Seq<char> {
    match os {
        TargetOs::Windows => "Consolas"@,
        TargetOs::MacOs => "Menlo"@,
        TargetOs::Unix => match fc_match {
            Some(out) => fontconfig_family_of(out.success, utf8_lossy(out.stdout@)),
            None => "Liberation Mono"@,
        },
    }
}

/// The family named by fontconfig, given whether `fc-match` succeeded and the
/// text it printed.
pub fn fontconfig_family(success: bool, printed: &str) -> (f: String)
    ensures
        f@ == fontconfig_family_of(success, printed@),
{
    if success {
        let name = trim(printed);
        if !name.as_str().is_empty() {
            return name;
        }
    }
    "Liberation Mono".to_owned()
}

/// The font family of the log, given the platform and, on a Unix desktop, what
/// fc-match answered (`None` when it could not be started).
pub fn mono_font(os: TargetOs, fc_match: Option<FcMatchOutput>) -> (f: String)
    ensures
        f@ == mono_font_of(os, fc_match),
{
    match os {
        TargetOs::Windows => "Consolas".to_owned(),
        TargetOs::MacOs => "Menlo".to_owned(),
        TargetOs::Unix => {
            match &fc_match {
                Some(out) => fontconfig_family(out.success, lossy_text(out.stdout.as_slice()).as_str()),
                None => "Liberation Mono".to_owned(),
            }
        },
    }
}

// ─── External tools ─────────────────────────────────────────────────────────

/// The file name of yt-dlp.
pub fn ytdlp_program(os: TargetOs) -> (name: &'static str)
    ensures
        name@ == (if os == TargetOs::Windows {
            "yt-dlp.exe"@
        } else {
            "yt-dlp"@
        }),
{
    match os {
        TargetOs::Windows => "yt-dlp.exe",
        _ => "yt-dlp",
    }
}

/// The file name of ffmpeg.
pub fn ffmpeg_program(os: TargetOs) -> (name: &'static str)
    ensures
        name@ == (if os == TargetOs::Windows {
            "ffmpeg.exe"@
        } else {
            "ffmpeg"@
        }),
{
    match os {
        TargetOs::Windows => "ffmpeg.exe",
        _ => "ffmpeg",
    }
}

/// How to run the tool `name`: the copy beside the program's own executable
/// when there is one (`beside_executable`); otherwise the bare name, which
/// finds a copy in the current folder or on the `PATH`.
pub fn find_tool(name: &str, beside_executable: Option<String>) -> (path: String)
    ensures
        path@ == match beside_executable {
            Some(p) => p@,
            None => name@,
        },
{
    match beside_executable {
        Some(p) => p,
        None => name.to_owned(),
    }
}

// ─── JavaScript runtime ─────────────────────────────────────────────────────

/// The JavaScript runtimes yt-dlp can use, in the order they are tried.
pub open spec fn js_runtime_candidates_of(os: TargetOs) -> Seq<Seq<char>> {
    if os == TargetOs::Windows {
        seq!["node.exe"@, "deno.exe"@]
    } else {
        seq!["node"@, "deno"@]
    }
}

/// The JavaScript runtimes to probe (by running each with `--version`), in order.
pub fn js_runtime_candidates(os: TargetOs) -> (c: Vec<String>)
    ensures
        string_views(c@) == js_runtime_candidates_of(os),
{
    let mut c: Vec<String> = Vec::new();
    let ghost empty = string_views(c@);
    assert(empty =~= seq![]);
    match os {
        TargetOs::Windows => {
            push_string(&mut c, "node.exe".to_owned());
            push_string(&mut c, "deno.exe".to_owned());
        },
        _ => {
            push_string(&mut c, "node".to_owned());
            push_string(&mut c, "deno".to_owned());
        },
    }
    assert(string_views(c@) =~= js_runtime_candidates_of(os));
    c
}

/// The name yt-dlp is given for a runtime: the candidate without `.exe`.
pub open spec fn runtime_name(candidate: Seq<char>) -> Seq<char> {
    strip_suffixes(candidate, ".exe"@)
}

/// The runtime to hand to yt-dlp: the first candidate whose probe ran,
/// without `.exe`. `probe_ok[i]` tells whether candidate `i` could be run;
/// probing stops at the first success, so `probe_ok` may be shorter than the
/// list of candidates.
pub fn find_js_runtime(os: TargetOs, probe_ok: &Vec<bool>) -> (r: Option<String>)
    ensures
        ({
            let cands = js_runtime_candidates_of(os);
            match r {
                Some(name) => exists|i: int|
                    0 <= i < cands.len() && i < probe_ok@.len() && #[trigger] probe_ok@[i]
                        && (forall|j: int| 0 <= j < i ==> !probe_ok@[j]) && name@ == runtime_name(
                        cands[i],
                    ),
                None => forall|i: int|
                    0 <= i < cands.len() && i < probe_ok@.len() ==> !#[trigger] probe_ok@[i],
            }
        }),
{
    let cands = js_runtime_candidates(os);
    let n = cands.len();
    for i in 0..n
        invariant
            n == cands@.len(),
            string_views(cands@) == js_runtime_candidates_of(os),
            forall|j: int| 0 <= j < i && j < probe_ok@.len() ==> !probe_ok@[j],
    {
        if i < probe_ok.len() && probe_ok[i] {
            let name = strip_suffixes_of(cands[i].as_str(), ".exe");
            assert(string_views(cands@)[i as int] == cands@[i as int]@);
            return Some(name);
        }
    }
    None
}

/// Whether the help text of yt-dlp mentions `--js-runtimes`.
pub open spec fn help_lists_js_runtimes(help: Seq<u8>) -> bool {
    has_substring(utf8_lossy(help), "--js-runtimes"@)
}

/// Whether the help text of yt-dlp, as text, mentions `--js-runtimes`.
pub fn help_text_lists_js_runtimes(help: &str) -> (b: bool)
    ensures
        b == has_substring(help@, "--js-runtimes"@),
{
    contains_str(help, "--js-runtimes")
}

/// Whether the installed yt-dlp accepts `--js-runtimes` (older versions abort on
/// it), judged from what `yt-dlp --help` printed, or `None` when it could not
/// be run.
pub fn ytdlp_supports_js_runtimes(help_output: Option<Vec<u8>>) -> (b: bool)
    ensures
        b == match help_output {
            Some(out) => help_lists_js_runtimes(out@),
            None => false,
        },
{
    match help_output {
        Some(out) => help_text_lists_js_runtimes(lossy_text(out.as_slice()).as_str()),
        None => false,
    }
}

// ─── Opening pages and folders ──────────────────────────────────────────────

/// A program to start, with its arguments.
pub struct LaunchCommand {
    /// The program.
    pub program: String,
    /// Its arguments.
    pub args: Vec<String>,
    /// Whether to start it without a console window (Windows only).
    pub hide_console: bool,
}

/// The command that opens `url` in the default browser.
pub open spec fn url_opener(os: TargetOs, url: Seq<char>) -> (Seq<char>, Seq<Seq<char>>, bool) {
    match os {
        TargetOs::Windows => ("cmd"@, seq!["/c"@, "start"@, ""@, url], true),
        TargetOs::MacOs => ("open"@, seq![url], false),
        TargetOs::Unix => ("xdg-open"@, seq![url], false),
    }
}

/// The command that opens `url` in the default browser.
pub fn open_url(os: TargetOs, url: &str) -> (c: LaunchCommand)
    ensures
        (c.program@, string_views(c.args@), c.hide_console) == url_opener(os, url@),
{
    let mut args: Vec<String> = Vec::new();
    let ghost empty = string_views(args@);
    assert(empty =~= seq![]);
    match os {
        TargetOs::Windows => {
            push_string(&mut args, "/c".to_owned());
            push_string(&mut args, "start".to_owned());
            push_string(&mut args, "".to_owned());
            push_string(&mut args, url.to_owned());
            assert(string_views(args@) =~= seq!["/c"@, "start"@, ""@, url@]);
            LaunchCommand { program: "cmd".to_owned(), args, hide_console: true }
        },
        TargetOs::MacOs => {
            push_string(&mut args, url.to_owned());
            assert(string_views(args@) =~= seq![url@]);
            LaunchCommand { program: "open".to_owned(), args, hide_console: false }
        },
        TargetOs::Unix => {
            push_string(&mut args, url.to_owned());
            assert(string_views(args@) =~= seq![url@]);
            LaunchCommand { program: "xdg-open".to_owned(), args, hide_console: false }
        },
    }
}

/// The page is always named: on every platform the address is the last
/// argument of the opener, and on macOS and Unix desktops it is the only one.
pub proof fn law_url_opener_names_the_page(os: TargetOs, url: Seq<char>)
    ensures
        url_opener(os, url).1.len() >= 1,
        url_opener(os, url).1.last() == url,
        os != TargetOs::Windows ==> url_opener(os, url).1 == seq![url],
{
}

/// The command that opens `path` in the file manager. The path is handed over
/// as a single argument, never through a shell.
pub open spec fn folder_opener(os: TargetOs, path: Seq<char>) -> (Seq<char>, Seq<Seq<char>>, bool) {
    match os {
        TargetOs::Windows => ("explorer"@, seq![path], false),
        TargetOs::MacOs => ("open"@, seq![path], false),
        TargetOs::Unix => ("xdg-open"@, seq![path], false),
    }
}

/// The command that opens the folder `path` in the file manager; nothing for
/// an empty path.
pub fn open_folder(os: TargetOs, path: &str) -> (c: Option<LaunchCommand>)
    ensures
        match c {
            Some(c) => path@.len() > 0 && (c.program@, string_views(c.args@), c.hide_console)
                == folder_opener(os, path@),
            None => path@.len() == 0,
        },
{
    if path.is_empty() {
        return None;
    }
    let mut args: Vec<String> = Vec::new();
    let ghost empty = string_views(args@);
    assert(empty =~= seq![]);
    push_string(&mut args, path.to_owned());
    assert(string_views(args@) =~= seq![path@]);
    let program = match os {
        TargetOs::Windows => "explorer".to_owned(),
        TargetOs::MacOs => "open".to_owned(),
        TargetOs::Unix => "xdg-open".to_owned(),
    };
    Some(LaunchCommand { program, args, hide_console: false })
}

/// A folder path never goes through a shell: on no platform is the folder
/// opener the command interpreter, and the path is its one argument, as given.
pub proof fn law_folder_never_through_shell(os: TargetOs, path: Seq<char>)
    ensures
        folder_opener(os, path).0 != "cmd"@,
        folder_opener(os, path).1 == seq![path],
{
    reveal_strlit("cmd");
    reveal_strlit("explorer");
    reveal_strlit("open");
    reveal_strlit("xdg-open");
    let p = folder_opener(os, path).0;
    assert(p.len() != 3 || p[0] != 'c');
}

// ─── Default output folder ──────────────────────────────────────────────────

/// The folder downloads go to at start: the user's Downloads folder, else
/// `Downloads` in the home folder, else the home folder, else the current
/// folder — never empty, so that nothing is written to the root.
pub fn default_output_folder(
    download_dir: Option<String>,
    home_downloads: Option<String>,
    home_dir: Option<String>,
) -> (f: String)
    ensures
        f@ == match download_dir {
            Some(d) => d@,
            None => match home_downloads {
                Some(h) => h@,
                None => match home_dir {
                    Some(h) => h@,
                    None => "."@,
                },
            },
        },
{
    match download_dir {
        Some(d) => d,
        None => match home_downloads {
            Some(h) => h,
            None => match home_dir {
                Some(h) => h,
                None => ".".to_owned(),
            },
        },
    }
}

} // verus!
