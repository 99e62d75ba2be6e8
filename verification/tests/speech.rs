use gigatype::speech::{audio_has_speech, DEFAULT_SILENCE_RMS_MILLI};

fn wav(samples: &[i16]) -> Vec<u8> {
    let data_len = (samples.len() * 2) as u32;
    let mut bytes = Vec::new();
    bytes.extend_from_slice(b"RIFF");
    bytes.extend_from_slice(&(36 + data_len).to_le_bytes());
    bytes.extend_from_slice(b"WAVEfmt ");
    bytes.extend_from_slice(&16_u32.to_le_bytes());
    bytes.extend_from_slice(&1_u16.to_le_bytes());
    bytes.extend_from_slice(&1_u16.to_le_bytes());
    bytes.extend_from_slice(&16_000_u32.to_le_bytes());
    bytes.extend_from_slice(&32_000_u32.to_le_bytes());
    bytes.extend_from_slice(&2_u16.to_le_bytes());
    bytes.extend_from_slice(&16_u16.to_le_bytes());
    bytes.extend_from_slice(b"data");
    bytes.extend_from_slice(&data_len.to_le_bytes());
    for sample in samples {
        bytes.extend_from_slice(&sample.to_le_bytes());
    }
    bytes
}

fn speech(bytes: &[u8]) -> bool {
    audio_has_speech(bytes, DEFAULT_SILENCE_RMS_MILLI)
}

#[test]
fn silent_audio_is_not_sent_to_the_model() {
    assert!(!speech(&wav(&vec![0; 16_000])));
}

#[test]
fn audible_audio_is_sent_to_the_model() {
    let samples = (0..16_000)
        .map(|index| if index % 2 == 0 { 1200 } else { -1200 })
        .collect::<Vec<_>>();
    assert!(speech(&wav(&samples)));
}

#[test]
fn quiet_speech_with_long_pauses_is_sent_to_the_model() {
    let mut samples = vec![0; 16_000 * 16];
    for (index, sample) in samples[80_000..84_800].iter_mut().enumerate() {
        *sample = if index % 2 == 0 { 400 } else { -400 };
    }
    assert!(speech(&wav(&samples)));
}

#[test]
fn an_isolated_click_is_not_sent_to_the_model() {
    let mut samples = vec![0; 16_000];
    samples[8_000] = 10_000;
    assert!(!speech(&wav(&samples)));
}

#[test]
fn separated_noise_bursts_are_not_sent_to_the_model() {
    let mut samples = vec![0; 16_000];
    for start in [8_000, 12_800] {
        for (index, sample) in samples[start..start + 80].iter_mut().enumerate() {
            *sample = if index % 2 == 0 { 2_000 } else { -2_000 };
        }
    }
    assert!(!speech(&wav(&samples)));
}

#[test]
fn audio_that_is_not_a_wav_file_is_always_sent() {
    assert!(speech(b"fake audio"));
    assert!(speech(b""));
    assert!(speech(b"RIFF\0\0\0\0AVI LIST"));
}

#[test]
fn wav_without_data_or_with_other_formats_is_sent() {
    let mut no_data = wav(&[0; 4000]);
    no_data.truncate(36);
    assert!(speech(&no_data));
    let mut float = wav(&[0; 4000]);
    float[20] = 3; // IEEE float format tag
    assert!(speech(&float));
}

#[test]
fn one_voiced_frame_is_not_speech_but_two_are() {
    let mut samples = vec![0_i16; 16_000];
    for sample in samples[1_600..3_200].iter_mut() {
        *sample = 1_000;
    }
    assert!(!speech(&wav(&samples)));
    for sample in samples[3_200..4_800].iter_mut() {
        *sample = 1_000;
    }
    assert!(speech(&wav(&samples)));
}

#[test]
fn the_threshold_is_given_in_thousandths() {
    // RMS exactly 100: voiced at a threshold of 100.000, not at 100.001
    let samples = vec![100_i16; 3_200];
    assert!(audio_has_speech(&wav(&samples), 25_000));
    assert!(audio_has_speech(&wav(&samples), 100_000) == false); // loud needs 4x threshold
    let loud = vec![400_i16; 3_200];
    assert!(audio_has_speech(&wav(&loud), 100_000));
    assert!(!audio_has_speech(&wav(&loud), 100_001));
}

#[test]
fn a_data_chunk_after_other_chunks_is_found() {
    let samples = vec![1_500_i16; 3_200];
    let plain = wav(&samples);
    let mut with_list = Vec::new();
    with_list.extend_from_slice(&plain[..36]);
    with_list.extend_from_slice(b"LIST");
    with_list.extend_from_slice(&3_u32.to_le_bytes());
    with_list.extend_from_slice(b"abc\0"); // odd size, padded
    with_list.extend_from_slice(&plain[36..]);
    assert!(speech(&with_list));
}
