use gigatype::model::{
    feature_frames, join_transcripts, model_is_complete, transcription_pieces, RnntGreedy,
};

#[test]
fn a_model_directory_needs_all_four_files() {
    let mut files = vec![
        "v3_e2e_rnnt_encoder.onnx".to_string(),
        "v3_e2e_rnnt_decoder.onnx".to_string(),
        "README.md".to_string(),
        "v3_e2e_rnnt_joint.onnx".to_string(),
    ];
    assert!(!model_is_complete(&files));
    files.push("tokenizer.model".to_string());
    assert!(model_is_complete(&files));
}

#[test]
fn short_audio_is_one_piece() {
    assert_eq!(transcription_pieces(400_000), vec![(0, 400_000)]);
    assert_eq!(transcription_pieces(100), vec![(0, 100)]);
}

#[test]
fn long_audio_is_cut_into_22_second_pieces() {
    assert_eq!(
        transcription_pieces(800_000),
        vec![(0, 352_000), (352_000, 704_000), (704_000, 800_000)]
    );
    // a final piece shorter than one analysis window is dropped
    assert_eq!(
        transcription_pieces(704_100),
        vec![(0, 352_000), (352_000, 704_000)]
    );
}

#[test]
fn transcripts_of_pieces_are_joined_by_spaces() {
    let parts = vec!["привет".to_string(), "  ".to_string(), "мир".to_string()];
    assert_eq!(join_transcripts(&parts), "привет мир");
    assert_eq!(join_transcripts(&Vec::new()), "");
}

#[test]
fn feature_frames_follow_the_hop() {
    assert_eq!(feature_frames(640), Some(3));
    assert_eq!(feature_frames(320), Some(1));
    assert_eq!(feature_frames(319), None);
}

#[test]
fn greedy_decoding_moves_on_at_blank_or_after_three_tokens() {
    let blank = 1024;
    let mut decoder = RnntGreedy::new(blank, 5, 2);
    assert_eq!(decoder.frames, 2);
    assert_eq!(decoder.label(), blank);
    assert!(decoder.observe(7));
    assert_eq!(decoder.label(), 7);
    assert!(!decoder.observe(blank));
    assert_eq!(decoder.frame, 1);
    assert!(decoder.observe(8));
    assert!(decoder.observe(9));
    assert!(decoder.observe(10));
    assert!(decoder.is_done());
    assert_eq!(decoder.into_tokens(), vec![7, 8, 9, 10]);
}

#[test]
fn a_negative_active_length_decodes_nothing() {
    let decoder = RnntGreedy::new(1024, 5, -3);
    assert!(decoder.is_done());
}
