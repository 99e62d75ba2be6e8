use gigatype::capture::{
    capture_buffer_frames, decoder_silence_frames, finalize_capture, preferred_input_config,
    stream_time_at, BufferSizeRange, CaptureChunk, CaptureState, InputRange, SampleFormat,
    OUTPUT_RATE,
};

#[test]
fn capture_negotiation_prefers_asr_native_pcm() {
    let ranges = vec![
        InputRange {
            channels: 2,
            min_sample_rate: 44_100,
            max_sample_rate: 48_000,
            buffer_size: BufferSizeRange::Unknown,
            sample_format: SampleFormat::F32,
        },
        InputRange {
            channels: 1,
            min_sample_rate: 8_000,
            max_sample_rate: 48_000,
            buffer_size: BufferSizeRange::Unknown,
            sample_format: SampleFormat::I16,
        },
    ];
    let selected = preferred_input_config(&ranges).unwrap();
    assert_eq!(selected.channels, 1);
    assert_eq!(selected.sample_rate, OUTPUT_RATE);
    assert_eq!(selected.sample_format, SampleFormat::I16);
}

#[test]
fn no_native_range_means_no_preference() {
    let ranges = vec![InputRange {
        channels: 1,
        min_sample_rate: 44_100,
        max_sample_rate: 48_000,
        buffer_size: BufferSizeRange::Unknown,
        sample_format: SampleFormat::I16,
    }];
    assert!(preferred_input_config(&ranges).is_none());
    assert!(preferred_input_config(&Vec::new()).is_none());
}

#[test]
fn timestamped_capture_trims_at_stop_and_adds_only_synthetic_silence() {
    let chunks = vec![CaptureChunk {
        capture_start_nanos: 0,
        samples: vec![0.5_f32; 100],
    }];
    let audio = finalize_capture(&chunks, 75_000_000, 1_000, 1, 20, 0.0_f32);
    assert_eq!(audio.len(), 95);
    assert!(audio[..75].iter().all(|sample| *sample == 0.5));
    assert!(audio[75..].iter().all(|sample| *sample == 0.0));
}

#[test]
fn blocks_starting_after_the_cutoff_are_dropped() {
    let chunks = vec![
        CaptureChunk {
            capture_start_nanos: 0,
            samples: vec![1_i16; 10],
        },
        CaptureChunk {
            capture_start_nanos: 100,
            samples: vec![2_i16; 10],
        },
    ];
    // stereo: 5 frames per block; the cutoff at 100 ns keeps the first block only
    let audio = finalize_capture(&chunks, 100, 1_000_000_000, 2, 1, 0_i16);
    assert_eq!(audio, vec![1, 1, 1, 1, 1, 1, 1, 1, 1, 1, 0, 0]);
}

#[test]
fn a_partly_elapsed_frame_is_kept() {
    // 1 kHz: a cutoff 1.5 ms after the start keeps two frames
    let chunks = vec![CaptureChunk {
        capture_start_nanos: 1_000,
        samples: vec![7_u8; 10],
    }];
    let audio = finalize_capture(&chunks, 1_501_000, 1_000, 1, 0, 0_u8);
    assert_eq!(audio, vec![7, 7]);
}

#[test]
fn f9_cutoff_is_mapped_onto_the_audio_stream_clock() {
    let callback: u128 = 5_000_000_000;
    let cutoff = callback + 7_000_000;
    assert_eq!(stream_time_at(100_000_000, callback, cutoff), 107_000_000);
}

#[test]
fn callback_arriving_after_f9_maps_back_to_the_exact_cutoff() {
    let cutoff: u128 = 5_000_000_000;
    let callback = cutoff + 7_000_000;
    assert_eq!(stream_time_at(100_000_000, callback, cutoff), 93_000_000);
}

#[test]
fn stream_time_saturates_at_both_ends() {
    assert_eq!(stream_time_at(5, 100, 0), 0);
    assert_eq!(stream_time_at(u128::MAX - 1, 0, 10), u128::MAX);
}

#[test]
fn capture_uses_small_supported_buffers_instead_of_one_second_blocks() {
    assert_eq!(
        capture_buffer_frames(16_000, BufferSizeRange::Range { min: 64, max: 4096 }),
        Some(320)
    );
}

#[test]
fn buffer_request_stays_within_the_supported_range() {
    assert_eq!(
        capture_buffer_frames(48_000, BufferSizeRange::Range { min: 1024, max: 4096 }),
        Some(1024)
    );
    assert_eq!(
        capture_buffer_frames(48_000, BufferSizeRange::Range { min: 64, max: 512 }),
        Some(512)
    );
    assert_eq!(capture_buffer_frames(48_000, BufferSizeRange::Unknown), None);
}

#[test]
fn decoder_silence_is_a_quarter_second() {
    assert_eq!(decoder_silence_frames(16_000), 4_000);
    assert_eq!(decoder_silence_frames(44_100), 11_025);
}

#[test]
fn capture_state_tracks_anchor_end_and_blocks() {
    let mut state: CaptureState<i16> = CaptureState::new();
    assert!(state.cutoff_for(10).is_none());
    // 320 frames at 16 kHz last 20 ms
    state.record_callback(1_000, 2_000, 50_000_000, vec![0; 320], 16_000, 1);
    assert_eq!(state.latest_capture_end_nanos, 20_001_000);
    assert_eq!(state.last_callback_anchor, Some((2_000, 50_000_000)));
    assert!(state.awaiting_audio_before(30_000_000));
    assert!(!state.awaiting_audio_before(20_001_000));
    // a stop 10 ms after the callback maps 10 ms past the callback's stream time
    assert_eq!(state.cutoff_for(60_000_000), Some(10_002_000));
    let audio = state.finish(30_000_000, 16_000, 1, 0).unwrap();
    assert_eq!(audio.len(), 320 + 4_000);
    assert!(state.chunks.is_empty());
    assert!(state.finish(30_000_000, 16_000, 1, 0).is_none());
}
