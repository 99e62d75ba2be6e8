use gigatype::clipboard::{
    accept_chunk, clipboard_timeout_ms, mime_list, mime_types, pipe_wait, plain_text_entry,
    poll_timeout_ms, restore_delay_ms, snapshot_of_mime_types, ClipboardEntry, ClipboardSnapshot,
    PipeWait, MAX_CLIPBOARD_BYTES,
};

#[test]
fn insert_preserves_every_clipboard_mime_type() {
    let snapshot = snapshot_of_mime_types("text/plain,image/png,text/uri-list");
    assert_eq!(snapshot.entries.len(), 3);
    assert_eq!(mime_list(&snapshot), "text/plain,image/png,text/uri-list");
    assert_eq!(restore_delay_ms(None), 120);
}

#[test]
fn empty_mime_names_are_skipped() {
    assert_eq!(mime_types(",text/plain,,image/png,"), vec!["text/plain", "image/png"]);
    assert!(mime_types("").is_empty());
}

#[test]
fn timings_are_clamped() {
    assert_eq!(clipboard_timeout_ms(None), 1000);
    assert_eq!(clipboard_timeout_ms(Some("50")), 50);
    assert_eq!(clipboard_timeout_ms(Some("1")), 10);
    assert_eq!(clipboard_timeout_ms(Some("99999")), 5000);
    assert_eq!(clipboard_timeout_ms(Some("soon")), 1000);
    assert_eq!(restore_delay_ms(Some("0")), 0);
    assert_eq!(restore_delay_ms(Some("60000")), 5000);
}

#[test]
fn text_only_clipboards_restore_the_first_plain_text() {
    let snapshot = ClipboardSnapshot {
        entries: vec![
            ClipboardEntry { mime_type: "image/png".into(), data: vec![1] },
            ClipboardEntry { mime_type: "text/plain;charset=utf-8".into(), data: b"hi".to_vec() },
            ClipboardEntry { mime_type: "text/plain".into(), data: vec![] },
        ],
    };
    assert_eq!(plain_text_entry(&snapshot), Some(1));
    let images = ClipboardSnapshot {
        entries: vec![ClipboardEntry { mime_type: "image/png".into(), data: vec![] }],
    };
    assert_eq!(plain_text_entry(&images), None);
}

#[test]
fn pipe_waits_are_bounded() {
    assert_eq!(poll_timeout_ms(0), 1);
    assert_eq!(poll_timeout_ms(250), 250);
    assert_eq!(poll_timeout_ms(u128::MAX), i32::MAX);
}

#[test]
fn pipe_wait_outcomes() {
    assert_eq!(pipe_wait(-1, true, false, false), PipeWait::Retry);
    assert_eq!(pipe_wait(-1, false, false, false), PipeWait::WaitFailed);
    assert_eq!(pipe_wait(0, false, false, true), PipeWait::TimedOut);
    assert_eq!(pipe_wait(1, false, true, true), PipeWait::Invalid);
    assert_eq!(pipe_wait(1, false, false, false), PipeWait::Failed);
    assert_eq!(pipe_wait(1, false, false, true), PipeWait::Readable);
}

#[test]
fn clipboard_chunks_accumulate_up_to_the_limit() {
    let mut data = vec![1u8, 2];
    assert!(accept_chunk(&mut data, &[3, 4, 5]));
    assert_eq!(data, vec![1, 2, 3, 4, 5]);
    assert!(accept_chunk(&mut data, &[]));
    assert_eq!(data.len(), 5);

    let mut full = vec![0u8; MAX_CLIPBOARD_BYTES];
    assert!(accept_chunk(&mut full, &[]));
    assert!(!accept_chunk(&mut full, &[9]));
    assert_eq!(full.len(), MAX_CLIPBOARD_BYTES + 1);
    assert_eq!(full[MAX_CLIPBOARD_BYTES], 9);
}
