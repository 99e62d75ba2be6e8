use gigatype::daemon::{
    answer_while_transcribing, interpret_reply, reply_line, Action, Daemon, Dictation,
    Housekeeping, DEFAULT_DEBOUNCE_MS, DEFAULT_MAX_RECORDING_MS,
};
use gigatype::desktop::{dictation_text, recorder_args, rejected_as_silence, SoundCue};

fn reply(action: Action) -> String {
    match action {
        Action::Reply(message) | Action::Discard(message) | Action::Quit(message) => message,
        Action::Fail(error) => format!("error: {error}"),
        Action::StartRecording => "start".to_string(),
        Action::FinishDictation => "finish".to_string(),
    }
}

#[test]
fn toggle_starts_and_stops_one_recording() {
    let mut daemon = Daemon::new(1_000, DEFAULT_MAX_RECORDING_MS, 0);
    assert!(matches!(daemon.command("toggle\n", 1_000), Action::StartRecording));
    daemon.recording_started(1_000, false);
    assert_eq!(reply(daemon.command("status", 1_001)), "recording");
    assert!(matches!(daemon.command("toggle", 1_002), Action::FinishDictation));
    assert_eq!(dictation_text("это тест").unwrap(), "Это тест.");
    assert_eq!(reply(daemon.command("status", 1_003)), "idle");
    assert_eq!(SoundCue::Listening.label(), "listening");
    assert_eq!(SoundCue::Transcribing.label(), "transcribing");
}

#[test]
fn silent_recording_still_confirms_stop_and_logs_the_rejection() {
    let mut daemon = Daemon::new(0, DEFAULT_MAX_RECORDING_MS, 0);
    assert!(matches!(daemon.command("toggle", 0), Action::StartRecording));
    daemon.recording_started(0, false);
    assert!(matches!(daemon.command("toggle", 5), Action::FinishDictation));
    assert!(rejected_as_silence(true, true, true));
    assert_eq!(
        reply_line(Err("no speech was detected".to_string())),
        "error: no speech was detected"
    );
}

#[test]
fn toggle_during_transcription_is_rejected_instead_of_queued() {
    assert_eq!(
        answer_while_transcribing("toggle", true).as_deref(),
        Some("transcribing")
    );
    assert_eq!(
        answer_while_transcribing("status", true).as_deref(),
        Some("transcribing")
    );
    assert_eq!(answer_while_transcribing("quit", true), None);
    assert_eq!(answer_while_transcribing("toggle", false), None);
}

#[test]
fn ignores_accidental_double_press_then_allows_cancel() {
    let mut daemon = Daemon::new(0, DEFAULT_MAX_RECORDING_MS, 300);
    assert!(matches!(daemon.command("toggle", 0), Action::StartRecording));
    daemon.recording_started(10, false);
    assert_eq!(reply(daemon.command("toggle", 100)), "recording");
    assert_eq!(reply(daemon.command("cancel", 150)), "cancelled");
    assert!(matches!(daemon.state, Dictation::Idle));
}

#[test]
fn maximum_duration_stops_and_transcribes_instead_of_discarding() {
    let mut daemon = Daemon::new(0, 80, 0);
    assert!(matches!(daemon.command("toggle", 0), Action::StartRecording));
    daemon.recording_started(0, false);
    assert_eq!(daemon.housekeeping(40, false, false), Housekeeping::Nothing);
    assert_eq!(daemon.housekeeping(80, false, false), Housekeeping::FinishDictation);
    assert_eq!(reply(daemon.command("status", 81)), "idle");
    assert_eq!(dictation_text("это тест").unwrap(), "Это тест.");
}

#[test]
fn locking_the_session_cancels_private_audio_without_transcribing() {
    let mut daemon = Daemon::new(10_000, DEFAULT_MAX_RECORDING_MS, DEFAULT_DEBOUNCE_MS);
    assert!(!daemon.lock_check_due(10_000));
    daemon.recording_started(10_000, false);
    assert!(daemon.lock_check_due(10_000));
    assert_eq!(daemon.housekeeping(10_000, false, false), Housekeeping::Nothing);
    // the next poll is only due 250 ms later
    assert!(!daemon.lock_check_due(10_100));
    assert_eq!(daemon.housekeeping(10_100, false, true), Housekeeping::Nothing);
    assert!(daemon.lock_check_due(10_250));
    assert_eq!(
        daemon.housekeeping(10_250, false, true),
        Housekeeping::DiscardRecording
    );
    assert_eq!(reply(daemon.command("status", 10_260)), "idle");
}

#[test]
fn resuming_from_suspend_discards_the_recording() {
    let mut daemon = Daemon::new(0, DEFAULT_MAX_RECORDING_MS, DEFAULT_DEBOUNCE_MS);
    daemon.recording_started(0, true);
    assert_eq!(
        daemon.housekeeping(10, true, false),
        Housekeeping::DiscardRecording
    );
    assert_eq!(daemon.housekeeping(20, true, false), Housekeeping::Nothing);
}

#[test]
fn unavailable_preferred_microphone_falls_back_to_the_system_default() {
    let first = recorder_args("/run/gigatype-recording.wav", Some("missing-mic"));
    assert!(first.join(" ").contains("--target missing-mic"));
    let retry = recorder_args("/run/gigatype-recording.wav", None);
    assert!(!retry.join(" ").contains("--target"));
    assert_eq!(
        retry,
        vec!["--rate", "16000", "--channels", "1", "--format", "s16", "/run/gigatype-recording.wav"]
    );
    let mut daemon = Daemon::new(0, DEFAULT_MAX_RECORDING_MS, DEFAULT_DEBOUNCE_MS);
    daemon.recording_started(0, true);
    assert!(daemon.can_fallback_microphone());
    daemon.microphone_fell_back();
    assert!(!daemon.can_fallback_microphone());
    assert!(matches!(daemon.state, Dictation::Recording { .. }));
    assert_eq!(reply(daemon.command("cancel", 500)), "cancelled");
}

#[test]
fn cancel_when_idle_and_unknown_commands() {
    let mut daemon = Daemon::new(0, DEFAULT_MAX_RECORDING_MS, DEFAULT_DEBOUNCE_MS);
    assert_eq!(reply(daemon.command("cancel", 0)), "idle");
    assert_eq!(
        reply(daemon.command("  dance \n", 0)),
        "error: unknown daemon command: dance"
    );
    assert_eq!(reply(daemon.command("quit", 0)), "bye");
}

#[test]
fn replies_are_read_back_as_results() {
    assert_eq!(interpret_reply("recording\n"), Ok("recording".to_string()));
    assert_eq!(
        interpret_reply("error: no speech was detected\n"),
        Err("no speech was detected".to_string())
    );
    assert_eq!(interpret_reply("Это тест. \n"), Ok("Это тест.".to_string()));
    assert_eq!(reply_line(Ok("idle".to_string())), "idle");
}
