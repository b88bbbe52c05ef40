use ams_yt_dw::platform::{
    default_output_folder, ffmpeg_program, fontconfig_family, help_text_lists_js_runtimes, find_js_runtime, find_tool, js_runtime_candidates,
    mono_font, open_folder, open_url, ytdlp_program, ytdlp_supports_js_runtimes, FcMatchOutput,
    TargetOs,
};

fn fc(success: bool, out: &[u8]) -> Option<FcMatchOutput> {
    Some(FcMatchOutput { success, stdout: out.to_vec() })
}

#[test]
fn mono_font_by_platform() {
    assert_eq!(mono_font(TargetOs::Windows, None), "Consolas");
    assert_eq!(mono_font(TargetOs::MacOs, fc(true, b"Ignored")), "Menlo");
    assert_eq!(mono_font(TargetOs::Unix, fc(true, b"  Noto Sans Mono\n")), "Noto Sans Mono");
}

#[test]
fn mono_font_falls_back_to_liberation_mono() {
    assert_eq!(mono_font(TargetOs::Unix, None), "Liberation Mono");
    assert_eq!(mono_font(TargetOs::Unix, fc(false, b"DejaVu Sans Mono")), "Liberation Mono");
    assert_eq!(mono_font(TargetOs::Unix, fc(true, b" \n\t")), "Liberation Mono");
    assert_eq!(mono_font(TargetOs::Unix, fc(true, b"")), "Liberation Mono");
}

#[test]
fn mono_font_reads_invalid_utf8_lossily() {
    assert_eq!(mono_font(TargetOs::Unix, fc(true, b"Mono\xff Sans")), "Mono\u{FFFD} Sans");
}

#[test]
fn tool_names() {
    assert_eq!(ytdlp_program(TargetOs::Windows), "yt-dlp.exe");
    assert_eq!(ytdlp_program(TargetOs::Unix), "yt-dlp");
    assert_eq!(ffmpeg_program(TargetOs::Windows), "ffmpeg.exe");
    assert_eq!(ffmpeg_program(TargetOs::MacOs), "ffmpeg");
}

#[test]
fn tool_beside_executable_wins() {
    assert_eq!(find_tool("yt-dlp", Some("/opt/app/yt-dlp".to_string())), "/opt/app/yt-dlp");
    assert_eq!(find_tool("yt-dlp", None), "yt-dlp");
}

#[test]
fn js_runtime_first_that_runs() {
    assert_eq!(js_runtime_candidates(TargetOs::Windows), vec!["node.exe", "deno.exe"]);
    assert_eq!(js_runtime_candidates(TargetOs::Unix), vec!["node", "deno"]);
    assert_eq!(find_js_runtime(TargetOs::Windows, &vec![true]), Some("node".to_string()));
    assert_eq!(find_js_runtime(TargetOs::Windows, &vec![false, true]), Some("deno".to_string()));
    assert_eq!(find_js_runtime(TargetOs::Unix, &vec![false, true]), Some("deno".to_string()));
    assert_eq!(find_js_runtime(TargetOs::Unix, &vec![false, false]), None);
    assert_eq!(find_js_runtime(TargetOs::Unix, &vec![]), None);
}

#[test]
fn js_runtimes_flag_detected_in_help() {
    let help = b"Options:\n  --js-runtimes RUNTIMES  ...\n".to_vec();
    assert!(ytdlp_supports_js_runtimes(Some(help)));
    assert!(!ytdlp_supports_js_runtimes(Some(b"  --js-runtime x".to_vec())));
    assert!(!ytdlp_supports_js_runtimes(None));
    assert!(ytdlp_supports_js_runtimes(Some(b"\xff\xfe --js-runtimes".to_vec())));
}

#[test]
fn openers() {
    let c = open_url(TargetOs::Windows, "https://github.com/x");
    assert_eq!(c.program, "cmd");
    assert_eq!(c.args, vec!["/c", "start", "", "https://github.com/x"]);
    assert!(c.hide_console);
    let m = open_url(TargetOs::MacOs, "u");
    assert_eq!((m.program.as_str(), m.args.clone(), m.hide_console), ("open", vec!["u".to_string()], false));
    let l = open_url(TargetOs::Unix, "u");
    assert_eq!(l.program, "xdg-open");
    assert!(open_folder(TargetOs::Windows, "").is_none());
    let f = open_folder(TargetOs::Windows, "C:\\a & b").unwrap();
    assert_eq!(f.program, "explorer");
    assert_eq!(f.args, vec!["C:\\a & b"]);
    assert!(!f.hide_console);
    assert_eq!(open_folder(TargetOs::Unix, "/x").unwrap().program, "xdg-open");
    assert_eq!(open_folder(TargetOs::MacOs, "/x").unwrap().program, "open");
}

#[test]
fn default_folder_order() {
    let s = |x: &str| Some(x.to_string());
    assert_eq!(default_output_folder(s("/d"), s("/h/Downloads"), s("/h")), "/d");
    assert_eq!(default_output_folder(None, s("/h/Downloads"), s("/h")), "/h/Downloads");
    assert_eq!(default_output_folder(None, None, s("/h")), "/h");
    assert_eq!(default_output_folder(None, None, None), ".");
}

#[test]
fn fontconfig_family_from_text() {
    assert_eq!(fontconfig_family(true, "Noto Sans Mono"), "Noto Sans Mono");
    assert_eq!(fontconfig_family(true, "\u{3000}Hack\n"), "Hack");
    assert_eq!(fontconfig_family(false, "Hack"), "Liberation Mono");
    assert_eq!(fontconfig_family(true, "\u{85}"), "Liberation Mono");
}

#[test]
fn help_text_mentions_flag() {
    assert!(help_text_lists_js_runtimes("x --js-runtimes y"));
    assert!(!help_text_lists_js_runtimes("--js-runtime"));
}
