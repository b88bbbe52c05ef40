use ams_yt_dw::download::{
    download_end, download_line_action, download_start_message, fetch_formats_args,
    formats_report, launch_error_message, log_line, progress_candidates, LineAction,
};

#[test]
fn progress_of_a_download_line() {
    let c = progress_candidates("[download]  47.0% of 10.52MiB at  1.35MiB/s ETA 00:04");
    assert_eq!(c, vec!["47.0".to_string()]);
}

#[test]
fn progress_of_other_lines_is_none() {
    assert!(progress_candidates("[info] 47.0% done").is_empty());
    assert!(progress_candidates("[download] Destination: video.mp4").is_empty());
}

#[test]
fn progress_candidates_strip_every_percent_sign() {
    let c = progress_candidates("[download] 100%% of ~ 5% x");
    assert_eq!(c, vec!["100".to_string(), "5".to_string()]);
}

#[test]
fn progress_candidates_keep_unparsable_words_in_order() {
    let c = progress_candidates("[download]\tabc%  12.5%");
    assert_eq!(c, vec!["abc".to_string(), "12.5".to_string()]);
}

#[test]
fn progress_split_on_unicode_whitespace() {
    let c = progress_candidates("[download]\u{3000}33.3%\u{A0}of");
    assert_eq!(c, vec!["33.3".to_string()]);
}

#[test]
fn cancel_stops_reading() {
    assert!(matches!(download_line_action(true, "[download] 10.0%"), LineAction::Stop));
}

#[test]
fn line_action_shows_progress_and_log() {
    match download_line_action(false, "[download]  5.0% of 1MiB") {
        LineAction::Show { progress, log } => {
            assert_eq!(progress, vec!["5.0".to_string()]);
            assert_eq!(log, Some("[download]  5.0% of 1MiB".to_string()));
        }
        LineAction::Stop => panic!("should keep reading"),
    }
}

#[test]
fn blank_lines_stay_out_of_the_log() {
    assert_eq!(log_line("   \t"), None);
    assert_eq!(log_line(""), None);
    assert_eq!(log_line("  x "), Some("  x ".to_string()));
}

#[test]
fn end_of_download_messages() {
    let c = download_end(true);
    assert!(!c.progress_full);
    assert_eq!(c.message, "⛔ Download cancelado pelo usuário.");
    let d = download_end(false);
    assert!(d.progress_full);
    assert_eq!(d.message, "✅ Download concluído com sucesso!");
}

#[test]
fn start_and_error_messages() {
    assert_eq!(download_start_message("https://y.tt/a"), "🚀 Iniciando: https://y.tt/a\n");
    assert_eq!(launch_error_message("not found"), "❌ Erro ao iniciar yt-dlp: not found");
}

#[test]
fn formats_listing() {
    assert_eq!(
        fetch_formats_args("https://y.tt/a"),
        vec!["-F", "--no-playlist", "--no-colors", "https://y.tt/a"]
    );
    let r = formats_report(&vec!["ID EXT".to_string(), "18 mp4".to_string()]);
    assert_eq!(r, "=== Formatos disponíveis ===\n\nID EXT\n18 mp4\n");
    assert_eq!(formats_report(&vec![]), "=== Formatos disponíveis ===\n\n");
}
