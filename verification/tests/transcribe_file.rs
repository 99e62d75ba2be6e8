use gigatype::desktop::dictation_text;
use gigatype::text::postprocess;

#[test]
fn transcribe_file_uses_the_native_model_protocol() {
    assert_eq!(postprocess("это работает"), "Это работает.");
}

#[test]
fn transcribe_file_does_not_need_python() {
    assert_eq!(
        postprocess("нативная модель работает"),
        "Нативная модель работает."
    );
}

#[test]
fn an_empty_transcript_is_not_inserted() {
    assert_eq!(dictation_text("  ").unwrap_err(), "no speech was recognized");
    assert_eq!(dictation_text("это тест").unwrap(), "Это тест.");
}
