use std::path::PathBuf;

use mod_updater::resolve::{RemoteSource, ResolveStatus, ResolvedMod};
use mod_updater::scan::ScannedMod;
use mod_updater::tui::{
    centered_margin, default_footer_text, default_note, ellipsize, header_text, match_hint,
    pick_spinner_frames, progress_text, row_shade, row_text, short_hash, shows_empty_hint,
    spinner_text, status_label, toggle_help, RefreshOutcome, RowShade, UiAction, UiKey, UiState,
};

#[test]
fn spinner_prefers_ascii_when_forced() {
    let frames = pick_spinner_frames(true, false);
    assert_eq!(frames, ['|', '/', '-', '\\']);
}

#[test]
fn spinner_prefers_ascii_on_windows() {
    let frames = pick_spinner_frames(false, true);
    assert_eq!(frames, ['|', '/', '-', '\\']);
}

#[test]
fn help_toggle_switches_state() {
    let mut show_help = false;
    toggle_help(&mut show_help);
    assert!(show_help);
    toggle_help(&mut show_help);
    assert!(!show_help);
}

#[test]
fn footer_has_action_labels() {
    let footer = default_footer_text();
    assert!(footer.contains("? Help"));
    assert!(footer.contains("Download selected update"));
}

#[test]
fn spinner_uses_braille_elsewhere() {
    let frames = pick_spinner_frames(false, false);
    assert_eq!(frames.len(), 10);
    assert_eq!(frames[0], '⠋');
    assert_eq!(spinner_text(true, &frames, 1), "⠙ ");
    assert_eq!(spinner_text(false, &frames, 0), "✓ ");
}

#[test]
fn ellipsize_cuts_to_width() {
    assert_eq!(ellipsize("  short  ", 10), "short");
    assert_eq!(ellipsize("abcdefghij", 5), "abcd…");
    assert_eq!(ellipsize("abcdefghij", 10), "abcdefghij");
    assert_eq!(ellipsize("abc", 0), "…");
    assert_eq!(ellipsize("äöüäöü", 4), "äöü…");
    let once = ellipsize("a rather long mod name here", 12);
    assert_eq!(ellipsize(&once, 12), once);
}

#[test]
fn short_hash_takes_six_bytes() {
    assert_eq!(short_hash("abcdef0123"), "abcdef");
    assert_eq!(short_hash("abc"), "abc");
    assert_eq!(short_hash("abcdef"), "abcdef");
    assert_eq!(short_hash("ééé"), "ééé");
    assert_eq!(short_hash("aéééé"), "aéééé");
    assert_eq!(short_hash("abcdé1"), "abcdé");
}

#[test]
fn status_labels_and_notes() {
    assert_eq!(status_label(ResolveStatus::Unknown), "needs review");
    assert_eq!(status_label(ResolveStatus::UpdateAvailable), "update available");
    assert_eq!(default_note(ResolveStatus::Pending), "Resolving metadata...");
    assert_eq!(default_note(ResolveStatus::UpToDate), "No newer file found for the selected target.");
    assert_eq!(progress_text(false), "Ready. Press ? for help.");
}

fn row(name: &str, status: ResolveStatus, url: Option<&str>, identity: Option<bool>) -> ResolvedMod {
    ResolvedMod {
        scan: ScannedMod {
            path: PathBuf::from(format!("/mods/{name}.jar")),
            file_name: format!("{name}.jar"),
            sha512_hex: "00".repeat(64),
            metadata: None,
        },
        display_name: name.to_string(),
        local_version: "1.0".to_string(),
        remote_version: None,
        source: None,
        status,
        download_url: url.map(String::from),
        download_filename: None,
        detail: None,
        project_label: None,
        remote_file_sha512: Some("0123456789abcdef".to_string()),
        identity_match: identity,
    }
}

#[test]
fn row_texts() {
    let mut r = row("A very long display name for a mod", ResolveStatus::UpdateAvailable, Some("u"), Some(false));
    r.source = Some(RemoteSource::CurseForge);
    r.project_label = Some("Label (slug)".to_string());
    let t = row_text(&r);
    assert_eq!(t.name, "A very long display name fo…");
    assert_eq!(t.remote, "—");
    assert_eq!(t.source, "CurseForge");
    assert_eq!(t.hint, "≠ 012345");
    assert_eq!(t.status, "update available");
    assert_eq!(t.note, "Label (slug)");
    assert_eq!(match_hint(&row("x", ResolveStatus::UpToDate, None, Some(true))), "=");
    assert_eq!(match_hint(&row("x", ResolveStatus::Unknown, None, None)), "?");
    let mut no_sha = row("x", ResolveStatus::UpdateAvailable, None, Some(false));
    no_sha.remote_file_sha512 = None;
    assert_eq!(match_hint(&no_sha), "≠ ≠");
    let plain = row_text(&row("x", ResolveStatus::Unknown, None, None));
    assert_eq!(plain.note, "No compatible candidate found for this lo…");
}

#[test]
fn header_and_layout_helpers() {
    let loaders = vec!["fabric".to_string(), "quilt".to_string()];
    assert_eq!(
        header_text("0.1.0", "1.21.1", &loaders, "/home/me/mods"),
        " mod-updater v0.1.0  │  MC 1.21.1  │  loaders: fabric, quilt  │  /home/me/mods"
    );
    assert_eq!(row_shade(2, Some(2)), RowShade::Selected);
    assert_eq!(row_shade(3, Some(2)), RowShade::Dim);
    assert_eq!(row_shade(4, None), RowShade::Plain);
    assert!(shows_empty_hint(0, false));
    assert!(!shows_empty_hint(0, true));
    assert_eq!(centered_margin(56), 22);
}

#[test]
fn ui_keys_drive_the_table() {
    let mut ui = UiState::new();
    assert_eq!(ui.on_key(UiKey::Char('r')), UiAction::Continue);
    assert_eq!(ui.on_key(UiKey::Down), UiAction::Continue);
    assert_eq!(ui.selected, None);
    ui.on_tick(4);
    ui.on_tick(4);
    assert_eq!(ui.spinner, 2);
    ui.on_loaded(vec![
        row("a", ResolveStatus::UpToDate, None, Some(true)),
        row("b", ResolveStatus::UpdateAvailable, None, Some(false)),
        row("c", ResolveStatus::UpdateAvailable, Some("https://x/c.jar"), Some(false)),
    ]);
    assert!(!ui.loading);
    assert_eq!(ui.selected, Some(0));
    ui.on_tick(4);
    assert_eq!(ui.spinner, 2);
    assert_eq!(ui.on_key(UiKey::Char('d')), UiAction::Continue);
    assert_eq!(ui.status_msg.as_deref(), Some("No update for this row (or unknown)."));
    assert_eq!(ui.on_key(UiKey::Char('j')), UiAction::Continue);
    assert_eq!(ui.on_key(UiKey::Char('d')), UiAction::Continue);
    assert_eq!(ui.status_msg.as_deref(), Some("No download URL (third-party restriction?)."));
    ui.on_key(UiKey::Down);
    ui.on_key(UiKey::Down);
    assert_eq!(ui.selected, Some(2));
    assert_eq!(ui.on_key(UiKey::Char('d')), UiAction::Download(2));
    ui.on_download(2, Ok(()));
    assert_eq!(ui.status_msg.as_deref(), Some("Updated c.jar."));
    ui.on_download(2, Err("timeout".to_string()));
    assert_eq!(ui.status_msg.as_deref(), Some("Download failed: timeout"));
    ui.on_key(UiKey::Up);
    ui.on_key(UiKey::Char('k'));
    ui.on_key(UiKey::Up);
    assert_eq!(ui.selected, Some(0));
    assert_eq!(ui.on_key(UiKey::Char('?')), UiAction::Continue);
    assert!(ui.show_help);
    assert_eq!(ui.on_key(UiKey::Char('r')), UiAction::Refresh);
    ui.on_refresh(RefreshOutcome::Rows(vec![]));
    assert_eq!(ui.selected, None);
    assert_eq!(ui.status_msg.as_deref(), Some("Refreshed."));
    ui.on_refresh(RefreshOutcome::ScanFailed("io error".to_string()));
    assert_eq!(ui.status_msg.as_deref(), Some("Scan error: io error"));
    ui.on_refresh(RefreshOutcome::Cancelled);
    assert_eq!(ui.status_msg.as_deref(), Some("Refresh cancelled."));
    assert_eq!(ui.on_key(UiKey::Esc), UiAction::Quit);
    assert_eq!(ui.on_key(UiKey::Char('q')), UiAction::Quit);
    assert_eq!(ui.on_key(UiKey::Other), UiAction::Continue);
}
