//! Deciding whether a recorded WAV file holds speech worth transcribing.
//!
//! The RIFF container is walked chunk by chunk; 16-bit PCM sample data is cut
//! into frames of 1600 samples (0.1 s at 16 kHz), and the recording counts as
//! speech when two consecutive frames are voiced: loud enough on average and
//! with enough individually loud samples. Input that is not a recognisable
//! 16-bit PCM WAV is always handed on to the model.
//!
//! The RMS threshold is given in thousandths, so that the decision is made in
//! exact integer arithmetic: a frame with energy `E` (sum of squared samples)
//! over `n` samples has RMS at least `t / 1000` exactly when
//! `E * 1_000_000 >= t * t * n`.
use vstd::prelude::*;

verus! {

/// Samples per analysis frame.
pub const FRAME_SAMPLES: usize = 1600;

/// The default RMS threshold (80.0), in thousandths.
pub const DEFAULT_SILENCE_RMS_MILLI: u64 = 80_000;

/// A little-endian unsigned 16-bit value.
pub open spec fn le_u16(b0: u8, b1: u8) -> int {
    b0 as int + 256 * (b1 as int)
}

/// A little-endian unsigned 32-bit value.
pub open spec fn le_u32(b0: u8, b1: u8, b2: u8, b3: u8) -> int {
    b0 as int + 256 * (b1 as int) + 65536 * (b2 as int) + 16777216 * (b3 as int)
}

/// A little-endian two's-complement 16-bit value.
pub open spec fn le_i16(b0: u8, b1: u8) -> int {
    let u = le_u16(b0, b1);
    if u >= 32768 {
        u - 65536
    } else {
        u
    }
}

/// Whether the four bytes at `at` spell the given tag.
pub open spec fn tag_at(bytes: Seq<u8>, at: int, tag: Seq<u8>) -> bool {
    at + 4 <= bytes.len() && bytes.subrange(at, at + 4) == tag
}

pub open spec fn tag_riff() -> Seq<u8> {
    seq![0x52u8, 0x49u8, 0x46u8, 0x46u8]
}

pub open spec fn tag_wave() -> Seq<u8> {
    seq![0x57u8, 0x41u8, 0x56u8, 0x45u8]
}

pub open spec fn tag_fmt() -> Seq<u8> {
    seq![0x66u8, 0x6du8, 0x74u8, 0x20u8]
}

pub open spec fn tag_data() -> Seq<u8> {
    seq![0x64u8, 0x61u8, 0x74u8, 0x61u8]
}

/// The size field of the chunk header at `at`.
pub open spec fn chunk_size(bytes: Seq<u8>, at: int) -> int {
    le_u32(bytes[at + 4], bytes[at + 5], bytes[at + 6], bytes[at + 7])
}

/// Where the body of the chunk at `at` ends, cut off at the end of the input.
pub open spec fn chunk_end(bytes: Seq<u8>, at: int) -> int {
    let end = at + 8 + chunk_size(bytes, at);
    if end < bytes.len() {
        end
    } else {
        bytes.len() as int
    }
}

/// Where the chunk after the one at `at` starts (bodies are padded to an
/// even length).
pub open spec fn next_chunk(bytes: Seq<u8>, at: int) -> int {
    let size = chunk_size(bytes, at);
    at + 8 + size + size % 2
}

/// What the chunks from `at` onwards say, given what the chunks before said:
/// whether the format is 16-bit PCM (the last `fmt ` chunk with a complete
/// 16-byte body decides), and where the body of the last `data` chunk lies.
pub open spec fn scan_chunks(
    bytes: Seq<u8>,
    at: int,
    pcm16: bool,
    data: Option<(int, int)>,
) -> (bool, Option<(int, int)>)
    decreases bytes.len() - at,
{
    if at < 0 || at + 8 > bytes.len() {
        (pcm16, data)
    } else {
        let start = at + 8;
        let end = chunk_end(bytes, at);
        let (pcm2, data2) = if tag_at(bytes, at, tag_fmt()) && end >= start + 16 {
            (
                le_u16(bytes[start], bytes[start + 1]) == 1 && le_u16(
                    bytes[start + 14],
                    bytes[start + 15],
                ) == 16,
                data,
            )
        } else if tag_at(bytes, at, tag_data()) {
            (pcm16, Some((start, end)))
        } else {
            (pcm16, data)
        };
        let next = next_chunk(bytes, at);
        if next <= bytes.len() {
            scan_chunks(bytes, next, pcm2, data2)
        } else {
            (pcm2, data2)
        }
    }
}

/// The `i`-th 16-bit sample of little-endian PCM data.
pub open spec fn sample_at(data: Seq<u8>, i: int) -> int {
    le_i16(data[2 * i], data[2 * i + 1])
}

/// Sum of squared samples `from .. from + n`.
pub open spec fn energy(data: Seq<u8>, from: int, n: nat) -> int
    decreases n,
{
    if n == 0 {
        0
    } else {
        energy(data, from, (n - 1) as nat) + sample_at(data, from + n - 1) * sample_at(
            data,
            from + n - 1,
        )
    }
}

/// Absolute value.
pub open spec fn abs(x: int) -> int {
    if x < 0 {
        -x
    } else {
        x
    }
}

/// A sample is loud when its magnitude is at least four times the RMS
/// threshold.
pub open spec fn is_loud(v: int, threshold_milli: int) -> bool {
    1000 * abs(v) >= 4 * threshold_milli
}

/// How many of the samples `from .. from + n` are loud.
pub open spec fn loud_count(data: Seq<u8>, from: int, n: nat, threshold_milli: int) -> int
    decreases n,
{
    if n == 0 {
        0
    } else {
        loud_count(data, from, (n - 1) as nat, threshold_milli) + if is_loud(
            sample_at(data, from + n - 1),
            threshold_milli,
        ) {
            1int
        } else {
            0int
        }
    }
}

/// Frame `k` is voiced: its RMS reaches the threshold and at least one in
/// twenty of its samples is loud.
pub open spec fn frame_voiced(data: Seq<u8>, k: int, threshold_milli: int) -> bool {
    let from = k * FRAME_SAMPLES as int;
    &&& energy(data, from, FRAME_SAMPLES as nat) * 1_000_000 >= threshold_milli
        * threshold_milli * FRAME_SAMPLES as int
    &&& loud_count(data, from, FRAME_SAMPLES as nat, threshold_milli) * 20
        >= FRAME_SAMPLES as int
}

/// The number of complete frames in the PCM data.
pub open spec fn frame_count(data: Seq<u8>) -> int {
    (data.len() as int / 2) / FRAME_SAMPLES as int
}

/// PCM data holds speech when two consecutive complete frames are voiced.
pub open spec fn pcm_has_speech(data: Seq<u8>, threshold_milli: int) -> bool {
    exists|k: int|
        0 <= k && k + 2 <= frame_count(data) && #[trigger] frame_voiced(data, k, threshold_milli)
            && frame_voiced(data, k + 1, threshold_milli)
}

/// Whether recorded audio is sent to the model: always, unless it is a RIFF
/// WAVE file whose format is 16-bit PCM and whose sample data (at least one
/// sample) does not hold speech.
pub open spec fn sends_to_model(bytes: Seq<u8>, threshold_milli: int) -> bool {
    if bytes.len() < 12 || !tag_at(bytes, 0, tag_riff()) || !tag_at(bytes, 8, tag_wave()) {
        true
    } else {
        let (pcm16, data) = scan_chunks(bytes, 12, false, None);
        match data {
            None => true,
            Some((start, end)) => {
                let body = bytes.subrange(start, end);
                if !pcm16 || body.len() < 2 {
                    true
                } else {
                    pcm_has_speech(body, threshold_milli)
                }
            },
        }
    }
}

fn has_tag(bytes: &[u8], at: usize, t0: u8, t1: u8, t2: u8, t3: u8) -> (r: bool)
    requires
        at + 4 <= bytes@.len(),
    ensures
        r == (bytes@.subrange(at as int, at + 4) == seq![t0, t1, t2, t3]),
{
    let r = bytes[at] == t0 && bytes[at + 1] == t1 && bytes[at + 2] == t2 && bytes[at + 3] == t3;
    if r {
        assert(bytes@.subrange(at as int, at + 4) =~= seq![t0, t1, t2, t3]);
    } else {
        assert(bytes@.subrange(at as int, at + 4)[0] == bytes@[at as int]);
        assert(bytes@.subrange(at as int, at + 4)[1] == bytes@[at + 1]);
        assert(bytes@.subrange(at as int, at + 4)[2] == bytes@[at + 2]);
        assert(bytes@.subrange(at as int, at + 4)[3] == bytes@[at + 3]);
    }
    r
}

fn read_i16(data: &[u8], i: usize) -> (v: i32)
    requires
        2 * i + 1 < data@.len(),
    ensures
        v == sample_at(data@, i as int),
{
    let n = data.len();
    assert(2 * i + 1 < n);
    let u: i32 = data[2 * i] as i32 + 256 * (data[2 * i + 1] as i32);
    if u >= 32768 {
        u - 65536
    } else {
        u
    }
}

proof fn lemma_energy_bound(data: Seq<u8>, from: int, n: nat)
    requires
        0 <= from,
        2 * (from + n) <= data.len(),
    ensures
        0 <= energy(data, from, n) <= n * 1073741824,
    decreases n,
{
    if n > 0 {
        lemma_energy_bound(data, from, (n - 1) as nat);
        let v = sample_at(data, from + n - 1);
        assert(-32768 <= v <= 32767);
        assert(0 <= v * v <= 1073741824) by (nonlinear_arith)
            requires
                -32768 <= v <= 32767,
        ;
    }
}

/// Decides whether frame `k` is voiced.
fn voiced_frame(data: &[u8], k: usize, threshold_milli: u64) -> (r: bool)
    requires
        (k + 1) * FRAME_SAMPLES <= data@.len() / 2,
    ensures
        r == frame_voiced(data@, k as int, threshold_milli as int),
{
    let n = data.len();
    proof {
        assert(k * FRAME_SAMPLES + FRAME_SAMPLES <= n / 2) by (nonlinear_arith)
            requires
                (k + 1) * FRAME_SAMPLES <= n / 2,
        ;
    }
    let from = k * FRAME_SAMPLES;
    let mut sum: u64 = 0;
    let mut loud: u64 = 0;
    let mut j: usize = 0;
    let limit: u128 = 4 * (threshold_milli as u128);
    while j < FRAME_SAMPLES
        invariant
            from == k * FRAME_SAMPLES,
            (k + 1) * FRAME_SAMPLES <= data@.len() / 2,
            j <= FRAME_SAMPLES,
            limit == 4 * threshold_milli,
            sum == energy(data@, from as int, j as nat),
            from + FRAME_SAMPLES <= data@.len() / 2,
            n == data@.len(),
            loud == loud_count(data@, from as int, j as nat, threshold_milli as int),
            loud <= j,
        decreases FRAME_SAMPLES - j,
    {
        let v = read_i16(data, from + j);
        proof {
            lemma_energy_bound(data@, from as int, j as nat);
            assert(v * v <= 1073741824) by (nonlinear_arith)
                requires
                    -32768 <= v <= 32767,
            ;
            assert(v * v >= 0) by (nonlinear_arith);
        }
        sum = sum + (v as i64 * v as i64) as u64;
        let mag: u128 = if v < 0 {
            (-v) as u128
        } else {
            v as u128
        };
        if 1000 * mag >= limit {
            loud = loud + 1;
        }
        j = j + 1;
    }
    proof {
        lemma_energy_bound(data@, from as int, FRAME_SAMPLES as nat);
    }
    let loud_enough = loud * 20 >= FRAME_SAMPLES as u64;
    if threshold_milli > 0x100_0000_0000 {
        proof {
            let t = threshold_milli as int;
            let e = energy(data@, from as int, FRAME_SAMPLES as nat);
            assert(t * t * 1600 > e * 1_000_000) by (nonlinear_arith)
                requires
                    t > 0x100_0000_0000,
                    0 <= e <= 1600 * 1073741824,
            ;
        }
        return false;
    }
    let t: u128 = threshold_milli as u128;
    proof {
        assert(t * t * 1600 <= 0x100_0000_0000 * 0x100_0000_0000 * 1600) by (nonlinear_arith)
            requires
                t <= 0x100_0000_0000,
        ;
    }
    let energetic = (sum as u128) * 1_000_000 >= t * t * (FRAME_SAMPLES as u128);
    energetic && loud_enough
}

/// Whether little-endian 16-bit PCM data holds speech.
pub fn pcm_speech(data: &[u8], threshold_milli: u64) -> (r: bool)
    ensures
        r == pcm_has_speech(data@, threshold_milli as int),
{
    let frames = (data.len() / 2) / FRAME_SAMPLES;
    let mut k: usize = 0;
    let mut previous_voiced = false;
    let ghost t = threshold_milli as int;
    while k < frames
        invariant
            frames == frame_count(data@),
            k <= frames,
            k > 0 ==> previous_voiced == frame_voiced(data@, k - 1, t),
            k == 0 ==> !previous_voiced,
            t == threshold_milli as int,
            forall|j: int|
                0 <= j && j + 1 < k ==> !(#[trigger] frame_voiced(data@, j, t) && frame_voiced(
                    data@,
                    j + 1,
                    t,
                )),
        decreases frames - k,
    {
        proof {
            assert((k + 1) * FRAME_SAMPLES <= frames * FRAME_SAMPLES) by (nonlinear_arith)
                requires
                    k < frames,
            ;
        }
        let voiced = voiced_frame(data, k, threshold_milli);
        if voiced && previous_voiced {
            assert(frame_voiced(data@, k - 1, t) && frame_voiced(data@, (k - 1) + 1, t));
            return true;
        }
        previous_voiced = voiced;
        k = k + 1;
    }
    assert forall|j: int|
        0 <= j && j + 2 <= frame_count(data@) implies !(#[trigger] frame_voiced(data@, j, t)
        && frame_voiced(data@, j + 1, t)) by {}
    false
}

/// Whether recorded audio (the bytes of the recording) is sent to the model;
/// `threshold_milli` is the RMS threshold in thousandths.
pub fn audio_has_speech(bytes: &[u8], threshold_milli: u64) -> (r: bool)
    ensures
        r == sends_to_model(bytes@, threshold_milli as int),
{
    let len = bytes.len();
    if len < 12 || !has_tag(bytes, 0, 0x52, 0x49, 0x46, 0x46) || !has_tag(
        bytes,
        8,
        0x57,
        0x41,
        0x56,
        0x45,
    ) {
        return true;
    }
    let mut cursor: usize = 12;
    let mut pcm16 = false;
    let mut data_start: usize = 0;
    let mut data_end: usize = 0;
    let mut has_data = false;
    while cursor <= len && len - cursor >= 8
        invariant
            len == bytes@.len(),
            12 <= cursor,
            has_data ==> data_start <= data_end <= len,
            scan_chunks(bytes@, 12, false, None) == scan_chunks(
                bytes@,
                cursor as int,
                pcm16,
                if has_data {
                    Some((data_start as int, data_end as int))
                } else {
                    None
                },
            ),
        decreases len - cursor,
    {
        let ghost before = if has_data {
            Some((data_start as int, data_end as int))
        } else {
            None::<(int, int)>
        };
        let size: u64 = bytes[cursor + 4] as u64 + 256 * (bytes[cursor + 5] as u64) + 65536 * (
        bytes[cursor + 6] as u64) + 16777216 * (bytes[cursor + 7] as u64);
        let start: usize = cursor + 8;
        let end: usize = if (size as u128) < (len - start) as u128 {
            start + size as usize
        } else {
            len
        };
        assert(end == chunk_end(bytes@, cursor as int));
        if has_tag(bytes, cursor, 0x66, 0x6d, 0x74, 0x20) && end - start >= 16 {
            let format = bytes[start] as u32 + 256 * (bytes[start + 1] as u32);
            let bits = bytes[start + 14] as u32 + 256 * (bytes[start + 15] as u32);
            pcm16 = format == 1 && bits == 16;
        } else if has_tag(bytes, cursor, 0x64, 0x61, 0x74, 0x61) {
            data_start = start;
            data_end = end;
            has_data = true;
        }
        let next: u128 = start as u128 + size as u128 + (size % 2) as u128;
        assert(next == next_chunk(bytes@, cursor as int));
        if next > len as u128 {
            assert(scan_chunks(bytes@, cursor as int, pcm16, before) == (
                pcm16,
                if has_data {
                    Some((data_start as int, data_end as int))
                } else {
                    None
                },
            ));
            cursor = len;
        } else {
            cursor = next as usize;
        }
    }
    if !has_data {
        return true;
    }
    let body = &bytes[data_start..data_end];
    if !pcm16 || body.len() < 2 {
        return true;
    }
    pcm_speech(body, threshold_milli)
}


/// A stretch of PCM data made only of zero bytes is silence.
pub open spec fn all_zero(data: Seq<u8>) -> bool {
    forall|i: int| 0 <= i < data.len() ==> #[trigger] data[i] == 0u8
}

proof fn lemma_energy_of_zeros(data: Seq<u8>, from: int, n: nat)
    requires
        all_zero(data),
        0 <= from,
        2 * (from + n) <= data.len(),
    ensures
        energy(data, from, n) == 0,
    decreases n,
{
    if n > 0 {
        lemma_energy_of_zeros(data, from, (n - 1) as nat);
        let i = from + n - 1;
        assert(data[2 * i] == 0u8 && data[2 * i + 1] == 0u8);
        assert(sample_at(data, i) == 0);
        assert(sample_at(data, i) * sample_at(data, i) == 0);
    }
}

/// Digital silence is never speech, whatever the sample count, as long as
/// the threshold is above zero.
pub proof fn law_silence_is_not_speech(data: Seq<u8>, threshold_milli: int)
    requires
        all_zero(data),
        threshold_milli > 0,
    ensures
        !pcm_has_speech(data, threshold_milli),
{
    assert forall|k: int|
        0 <= k && k + 2 <= frame_count(data) implies !#[trigger] frame_voiced(
        data,
        k,
        threshold_milli,
    ) by {
        assert(k * 1600 + 1600 <= frame_count(data) * 1600) by (nonlinear_arith)
            requires
                k + 2 <= frame_count(data),
        ;
        assert(frame_count(data) * 1600 <= data.len() / 2) by (nonlinear_arith)
            requires
                frame_count(data) == (data.len() as int / 2) / 1600,
                data.len() >= 0,
        ;
        lemma_energy_of_zeros(data, k * 1600, 1600);
        assert(threshold_milli * threshold_milli * 1600 > 0) by (nonlinear_arith)
            requires
                threshold_milli > 0,
        ;
    }
}

/// Speech needs two whole consecutive frames: PCM data shorter than 3200
/// samples (0.2 s at 16 kHz) is never speech.
pub proof fn law_short_audio_is_not_speech(data: Seq<u8>, threshold_milli: int)
    requires
        data.len() < 2 * 2 * FRAME_SAMPLES,
    ensures
        !pcm_has_speech(data, threshold_milli),
{
    assert(frame_count(data) < 2);
}

proof fn lemma_loud_count_monotone(data: Seq<u8>, from: int, n: nat, low: int, high: int)
    requires
        low <= high,
    ensures
        loud_count(data, from, n, low) >= loud_count(data, from, n, high),
    decreases n,
{
    if n > 0 {
        lemma_loud_count_monotone(data, from, (n - 1) as nat, low, high);
    }
}

/// Lowering the threshold never turns speech into silence: whatever is
/// speech at one threshold is speech at every lower, non-negative one.
pub proof fn law_lower_threshold_keeps_speech(data: Seq<u8>, low: int, high: int)
    requires
        0 <= low <= high,
        pcm_has_speech(data, high),
    ensures
        pcm_has_speech(data, low),
{
    let k = choose|k: int|
        0 <= k && k + 2 <= frame_count(data) && #[trigger] frame_voiced(data, k, high)
            && frame_voiced(data, k + 1, high);
    assert forall|j: int| #[trigger] frame_voiced(data, j, high) implies frame_voiced(
        data,
        j,
        low,
    ) by {
        lemma_loud_count_monotone(data, j * 1600, 1600, low, high);
        assert(low * low * 1600 <= high * high * 1600) by (nonlinear_arith)
            requires
                0 <= low <= high,
        ;
    }
    assert(frame_voiced(data, k, low) && frame_voiced(data, k + 1, low));
}


/// `other` holds the samples of `data` with their signs flipped.
pub open spec fn negated_samples(data: Seq<u8>, other: Seq<u8>) -> bool {
    &&& other.len() == data.len()
    &&& forall|i: int|
        0 <= i < data.len() / 2 ==> #[trigger] sample_at(other, i) == -sample_at(data, i)
}

proof fn lemma_negation_keeps_frame_measures(
    data: Seq<u8>,
    other: Seq<u8>,
    from: int,
    n: nat,
    threshold_milli: int,
)
    requires
        negated_samples(data, other),
        0 <= from,
        from + n <= data.len() / 2,
    ensures
        energy(other, from, n) == energy(data, from, n),
        loud_count(other, from, n, threshold_milli) == loud_count(data, from, n, threshold_milli),
    decreases n,
{
    if n > 0 {
        lemma_negation_keeps_frame_measures(data, other, from, (n - 1) as nat, threshold_milli);
        let i = from + n - 1;
        let a = sample_at(data, i);
        let b = sample_at(other, i);
        assert(b == -a);
        assert(b * b == a * a) by (nonlinear_arith)
            requires
                b == -a,
        ;
        assert(abs(b) == abs(a));
    }
}

/// Speech detection does not depend on polarity: a recording and the same
/// recording with every sample negated are judged alike, so quiet stretches
/// of negative samples count as loud as positive ones.
pub proof fn law_polarity_does_not_matter(data: Seq<u8>, other: Seq<u8>, threshold_milli: int)
    requires
        negated_samples(data, other),
    ensures
        pcm_has_speech(other, threshold_milli) == pcm_has_speech(data, threshold_milli),
{
    assert(frame_count(other) == frame_count(data));
    assert forall|k: int| 0 <= k && k + 1 <= frame_count(data) implies #[trigger] frame_voiced(
        other,
        k,
        threshold_milli,
    ) == frame_voiced(data, k, threshold_milli) by {
        assert(k * 1600 + 1600 <= frame_count(data) * 1600) by (nonlinear_arith)
            requires
                k + 1 <= frame_count(data),
        ;
        assert(frame_count(data) * 1600 <= data.len() / 2) by (nonlinear_arith)
            requires
                frame_count(data) == (data.len() as int / 2) / 1600,
                data.len() >= 0,
        ;
        lemma_negation_keeps_frame_measures(data, other, k * 1600, 1600, threshold_milli);
    }
    if pcm_has_speech(data, threshold_milli) {
        let k = choose|k: int|
            0 <= k && k + 2 <= frame_count(data) && #[trigger] frame_voiced(data, k, threshold_milli)
                && frame_voiced(data, k + 1, threshold_milli);
        assert(frame_voiced(other, k, threshold_milli) && frame_voiced(other, k + 1, threshold_milli));
    }
    if pcm_has_speech(other, threshold_milli) {
        let k = choose|k: int|
            0 <= k && k + 2 <= frame_count(other) && #[trigger] frame_voiced(other, k, threshold_milli)
                && frame_voiced(other, k + 1, threshold_milli);
        assert(frame_voiced(data, k, threshold_milli) && frame_voiced(data, k + 1, threshold_milli));
    }
}

} // verus!
