use gigatype::desktop::{
    hotkey_command, is_playing, keeps_microphone_fallback, keyboard_grant, media_players,
    native_shortcuts_enabled, paste, portal_key_events, portal_shortcuts_enabled, recorder_kind,
    retry_on_default, shortcut_command, sound_route, RecorderKind, SoundCue, SoundRoute,
};
use gigatype::history::history_line;
use gigatype::keys::PasteChord;
use gigatype::paths::{join_path, model_dir, recording_path, runtime_dir, socket_path, token_path, transcribing_path};
use gigatype::session::{screen_saver_active, SuspendDetector};

#[test]
fn only_media_players_are_paused() {
    let listing = "org.freedesktop.DBus\n org.mpris.MediaPlayer2.vlc \r\norg.mpris.MediaPlayer2.spotify\norg.kde.klipper";
    assert_eq!(
        media_players(listing),
        vec!["org.mpris.MediaPlayer2.vlc", "org.mpris.MediaPlayer2.spotify"]
    );
    assert!(is_playing(true, "(<'Playing'>,)"));
    assert!(!is_playing(false, "(<'Playing'>,)"));
    assert!(!is_playing(true, "(<'Paused'>,)"));
}

#[test]
fn sound_cues_and_routes() {
    assert_eq!(SoundCue::Listening.setting(), "GIGATYPE_START_SOUND");
    assert_eq!(
        SoundCue::Transcribing.fallback(),
        "/usr/share/sounds/freedesktop/stereo/device-removed.oga"
    );
    assert_eq!(sound_route(true, true, true, true), SoundRoute::Silent);
    assert_eq!(sound_route(false, true, true, true), SoundRoute::Log);
    assert_eq!(sound_route(false, false, true, true), SoundRoute::CustomFile);
    assert_eq!(sound_route(false, false, true, false), SoundRoute::Synthesized);
}

#[test]
fn shortcuts_are_forwarded_to_the_daemon() {
    assert_eq!(shortcut_command("toggle"), Some("toggle"));
    assert_eq!(shortcut_command("cancel"), Some("cancel"));
    assert_eq!(shortcut_command("other"), None);
    assert_eq!(hotkey_command(true, 4, 4, 5), Some("toggle"));
    assert_eq!(hotkey_command(true, 5, 4, 5), Some("cancel"));
    assert_eq!(hotkey_command(false, 4, 4, 5), None);
    assert!(portal_shortcuts_enabled(true, false, Some("GNOME"), false));
    assert!(!portal_shortcuts_enabled(true, false, Some("KDE"), false));
    assert!(portal_shortcuts_enabled(true, false, Some("KDE"), true));
    assert!(!portal_shortcuts_enabled(false, false, None, false));
    assert!(native_shortcuts_enabled(false, false));
    assert!(!native_shortcuts_enabled(false, true));
}

#[test]
fn portal_paste_needs_permission_only_for_probes() {
    assert_eq!(
        paste(PasteChord::CtrlV, true, false).unwrap_err(),
        "portal input permission has not been granted"
    );
    assert_eq!(paste(PasteChord::CtrlV, true, true).unwrap(), None);
    assert_eq!(paste(PasteChord::CtrlV, false, false).unwrap(), Some(PasteChord::CtrlV));
    assert_eq!(
        portal_key_events(PasteChord::ShiftInsert),
        vec![(42, true), (110, true), (110, false), (42, false)]
    );
}

#[test]
fn files_live_in_the_runtime_and_data_directories() {
    assert_eq!(runtime_dir(Some("/run/user/1000"), 1000), "/run/user/1000");
    assert_eq!(runtime_dir(None, 1000), "/tmp/gigatype-1000");
    assert_eq!(runtime_dir(None, 0), "/tmp/gigatype-0");
    assert_eq!(socket_path("/run/user/1000"), "/run/user/1000/gigatype.sock");
    assert_eq!(transcribing_path("/run/x/"), "/run/x/gigatype-transcribing");
    assert_eq!(recording_path(""), "gigatype-recording.wav");
    assert_eq!(join_path("a", "b"), "a/b");
    assert_eq!(
        model_dir(None, Some("/home/u")),
        "/home/u/.local/share/gigatype/models/gigaam-v3-e2e-rnnt"
    );
    assert_eq!(model_dir(Some("/models/x"), Some("/home/u")), "/models/x");
    assert_eq!(token_path(None), "./.local/share/gigatype/portal-input-token");
}

#[test]
fn history_lines_are_json_objects() {
    assert_eq!(
        history_line(1_700_000_000, "Это \"тест\".\n"),
        "{\"text\":\"Это \\\"тест\\\".\\n\",\"timestamp\":1700000000}\n"
    );
    assert_eq!(history_line(0, "\u{1}"), "{\"text\":\"\\u0001\",\"timestamp\":0}\n");
}

#[test]
fn a_suspend_shows_as_a_gap_between_the_clocks() {
    let mut detector = SuspendDetector::new(1_000_000_000, 5_000_000_000);
    assert!(!detector.resumed(2_000_000_000, 6_000_000_000));
    assert!(!detector.resumed(3_000_000_000, 7_400_000_000));
    assert!(detector.resumed(4_000_000_000, 9_000_000_000));
}

#[test]
fn the_screen_saver_answer_is_read_exactly() {
    assert!(screen_saver_active(true, "true\n"));
    assert!(!screen_saver_active(true, "false\n"));
    assert!(!screen_saver_active(false, "true"));
}

#[test]
fn recorders_and_microphone_fallback() {
    assert_eq!(recorder_kind(true, true), RecorderKind::Fake);
    assert_eq!(recorder_kind(false, false), RecorderKind::Native);
    assert_eq!(recorder_kind(false, true), RecorderKind::Process);
    assert!(retry_on_default(true, true));
    assert!(!retry_on_default(false, true));
    assert!(!retry_on_default(true, false));
    assert!(keeps_microphone_fallback(true, false));
    assert!(!keeps_microphone_fallback(true, true));
    assert!(!keeps_microphone_fallback(false, false));
}

#[test]
fn keyboard_grants_keep_the_restore_token() {
    assert_eq!(keyboard_grant(false, Some("t")), Err("keyboard access was not granted".to_string()));
    assert_eq!(keyboard_grant(true, Some("abc")), Ok(Some("abc".to_string())));
    assert_eq!(keyboard_grant(true, None), Ok(None));
}

#[test]
fn a_history_entry_is_a_single_line() {
    let line = history_line(42, "первая\nвторая\r\nтретья\n");
    assert_eq!(line.matches('\n').count(), 1);
    assert!(line.ends_with('\n'));
}
