//! Microphone capture bookkeeping: which input configuration to ask for,
//! how the stop shortcut is mapped onto the audio stream's clock, and which
//! captured samples are kept once recording stops.
//!
//! Samples are of any copyable type `T`; the capture logic never looks at
//! their values. Times are nanoseconds: stream times on the audio device's
//! clock, host times on the host's monotonic clock.
use vstd::prelude::*;

verus! {

/// The sample rate the speech model expects.
pub const OUTPUT_RATE: u32 = 16_000;

/// Synthetic silence appended after the recording so that the decoder sees
/// the end of the last word, in milliseconds.
pub const DECODER_SILENCE_MS: u32 = 250;

/// Nanoseconds per second.
pub const NANOS_PER_SECOND: u128 = 1_000_000_000;

// ---------------------------------------------------------------------------
// Clock mapping
// ---------------------------------------------------------------------------

/// The stream time that corresponds to `target_host_nanos`, given that the
/// stream time `anchor_stream_nanos` was observed at host time
/// `anchor_host_nanos`; saturates at both ends of the `u128` range.
pub open spec fn stream_time(
    anchor_stream_nanos: u128,
    anchor_host_nanos: u128,
    target_host_nanos: u128,
) -> int {
    if target_host_nanos >= anchor_host_nanos {
        let t = anchor_stream_nanos + (target_host_nanos - anchor_host_nanos);
        if t > u128::MAX {
            u128::MAX as int
        } else {
            t
        }
    } else {
        let t = anchor_stream_nanos - (anchor_host_nanos - target_host_nanos);
        if t < 0 {
            0
        } else {
            t
        }
    }
}

/// Maps a host time onto the audio stream's clock.
pub fn stream_time_at(anchor_stream_nanos: u128, anchor_host_nanos: u128, target_host_nanos: u128) -> (r:
    u128)
    ensures
        r == stream_time(anchor_stream_nanos, anchor_host_nanos, target_host_nanos),
{
    if target_host_nanos >= anchor_host_nanos {
        let elapsed = target_host_nanos - anchor_host_nanos;
        if anchor_stream_nanos > u128::MAX - elapsed {
            u128::MAX
        } else {
            anchor_stream_nanos + elapsed
        }
    } else {
        let before = anchor_host_nanos - target_host_nanos;
        if anchor_stream_nanos < before {
            0
        } else {
            anchor_stream_nanos - before
        }
    }
}

/// Mapping a host time onto the stream clock and the resulting stream time
/// back again returns to where it started, as long as neither mapping
/// saturates.
pub proof fn law_stream_time_round_trip(stream: u128, host_a: u128, host_b: u128)
    requires
        0 <= stream_time(stream, host_a, host_b) <= u128::MAX,
        host_b >= host_a ==> stream + (host_b - host_a) <= u128::MAX,
        host_b < host_a ==> stream >= host_a - host_b,
    ensures
        stream_time(stream_time(stream, host_a, host_b) as u128, host_b, host_a) == stream,
{
}

// ---------------------------------------------------------------------------
// Trimming the capture at the cutoff
// ---------------------------------------------------------------------------

/// A block of interleaved samples delivered by one capture callback.
pub struct CaptureChunk<T> {
    /// When the first frame of the block was captured, on the stream clock.
    pub capture_start_nanos: u128,
    /// Interleaved samples.
    pub samples: Vec<T>,
}

/// `ceil(a / b)` for positive `b`.
pub open spec fn ceil_div(a: int, b: int) -> int {
    (a + b - 1) / b
}

/// How many frames of a block captured from `start` lie before `cutoff` at
/// `rate` frames per second: the duration times the rate (saturating at
/// `u128::MAX`), divided by a second and rounded up, taken as a `usize`.
pub open spec fn frames_before(start: u128, cutoff: u128, rate: u32) -> usize {
    let product = (cutoff - start) * rate;
    let saturated = if product > u128::MAX {
        u128::MAX as int
    } else {
        product
    };
    ceil_div(saturated, NANOS_PER_SECOND as int) as usize
}

/// The number of samples kept from a block: none when it starts at or after
/// the cutoff, otherwise the whole frames it holds that lie before the
/// cutoff.
pub open spec fn kept_samples(
    start: u128,
    len: nat,
    cutoff: u128,
    rate: u32,
    channels: usize,
) -> int {
    if start >= cutoff {
        0
    } else {
        let available = len as int / channels as int;
        let before = frames_before(start, cutoff, rate) as int;
        (if available < before {
            available
        } else {
            before
        }) * channels
    }
}

/// The samples of the blocks that lie before the cutoff, in order.
pub open spec fn captured<T>(
    chunks: Seq<CaptureChunk<T>>,
    cutoff: u128,
    rate: u32,
    channels: usize,
) -> Seq<T>
    decreases chunks.len(),
{
    if chunks.len() == 0 {
        seq![]
    } else {
        let c = chunks.last();
        captured(chunks.drop_last(), cutoff, rate, channels) + c.samples@.take(
            kept_samples(c.capture_start_nanos, c.samples@.len(), cutoff, rate, channels),
        )
    }
}

fn frames_before_cutoff(start: u128, cutoff: u128, rate: u32) -> (r: usize)
    requires
        start < cutoff,
    ensures
        r == frames_before(start, cutoff, rate),
{
    let duration = cutoff - start;
    let r128 = rate as u128;
    let product: u128 = if r128 > 0 && duration > u128::MAX / r128 {
        proof {
            assert(duration * r128 > u128::MAX) by (nonlinear_arith)
                requires
                    r128 > 0,
                    duration > u128::MAX / r128,
            ;
        }
        u128::MAX
    } else {
        proof {
            assert(duration * r128 <= u128::MAX) by (nonlinear_arith)
                requires
                    r128 == 0 || duration <= u128::MAX / r128,
            ;
        }
        duration * r128
    };
    let q = product / NANOS_PER_SECOND;
    let c = if product % NANOS_PER_SECOND != 0 {
        q + 1
    } else {
        q
    };
    proof {
        assert(c == ceil_div(product as int, NANOS_PER_SECOND as int));
    }
    c as usize
}

/// The samples captured before the cutoff, followed by
/// `synthetic_silence_frames` frames of `silence`.
pub fn finalize_capture<T: Copy>(
    chunks: &Vec<CaptureChunk<T>>,
    cutoff_nanos: u128,
    sample_rate: u32,
    channels: usize,
    synthetic_silence_frames: usize,
    silence: T,
) -> (r: Vec<T>)
    requires
        channels > 0,
        captured(chunks@, cutoff_nanos, sample_rate, channels).len() + synthetic_silence_frames
            * channels <= usize::MAX,
    ensures
        r@ == captured(chunks@, cutoff_nanos, sample_rate, channels) + Seq::new(
            (synthetic_silence_frames * channels) as nat,
            |i: int| silence,
        ),
{
    let mut samples: Vec<T> = Vec::new();
    let mut k: usize = 0;
    while k < chunks.len()
        invariant
            k <= chunks.len(),
            channels > 0,
            samples@ == captured(chunks@.take(k as int), cutoff_nanos, sample_rate, channels),
        decreases chunks.len() - k,
    {
        let chunk = &chunks[k];
        let ghost pre = chunks@.take(k as int);
        proof {
            assert(chunks@.take(k + 1).drop_last() =~= pre);
            assert(chunks@.take(k + 1).last() == chunks@[k as int]);
        }
        if chunk.capture_start_nanos < cutoff_nanos {
            let available = chunk.samples.len() / channels;
            let before = frames_before_cutoff(chunk.capture_start_nanos, cutoff_nanos, sample_rate);
            let frames = if available < before {
                available
            } else {
                before
            };
            proof {
                assert(frames * channels <= available * channels) by (nonlinear_arith)
                    requires
                        frames <= available,
                ;
                assert(available * channels <= chunk.samples.len()) by (nonlinear_arith)
                    requires
                        available == chunk.samples.len() / channels,
                        channels > 0,
                ;
            }
            let keep = frames * channels;
            let mut i: usize = 0;
            let ghost before_push = samples@;
            while i < keep
                invariant
                    i <= keep <= chunk.samples@.len(),
                    samples@ == before_push + chunk.samples@.take(i as int),
                decreases keep - i,
            {
                samples.push(chunk.samples[i]);
                i = i + 1;
                assert(chunk.samples@.take(i as int) == chunk.samples@.take(i - 1).push(
                    chunk.samples@[i - 1],
                ));
            }
        } else {
            assert(chunk.samples@.take(0) =~= Seq::<T>::empty());
            assert(samples@ + chunk.samples@.take(0) =~= samples@);
        }
        k = k + 1;
    }
    assert(chunks@.take(chunks.len() as int) =~= chunks@);
    let ghost kept = samples@;
    let extra = synthetic_silence_frames * channels;
    let mut j: usize = 0;
    while j < extra
        invariant
            j <= extra,
            extra == synthetic_silence_frames * channels,
            kept.len() + extra <= usize::MAX,
            samples@ == kept + Seq::new(j as nat, |i: int| silence),
        decreases extra - j,
    {
        samples.push(silence);
        j = j + 1;
        assert(Seq::new(j as nat, |i: int| silence) =~= Seq::new((j - 1) as nat, |i: int| silence).push(
            silence,
        ));
    }
    samples
}

/// A kept frame of a block started before the cutoff; every frame the block
/// holds that starts before the cutoff is kept (when the products involved
/// do not saturate).
pub proof fn law_kept_frames_start_before_cutoff(start: u128, cutoff: u128, rate: u32, frame: int)
    requires
        start < cutoff,
        rate > 0,
        (cutoff - start) * rate <= u128::MAX,
        ceil_div((cutoff - start) * rate, NANOS_PER_SECOND as int) <= usize::MAX,
        0 <= frame,
    ensures
        (frame < frames_before(start, cutoff, rate)) <==> (frame * NANOS_PER_SECOND < (cutoff
            - start) * rate),
{
    let x = (cutoff - start) * rate;
    let b = NANOS_PER_SECOND as int;
    let c = ceil_div(x, b);
    assert(0 <= c);
    assert(frames_before(start, cutoff, rate) == c);
    assert((frame < c) <==> (frame * b < x)) by (nonlinear_arith)
        requires
            c == (x + b - 1) / b,
            b > 0,
            x >= 0,
            frame >= 0,
    ;
}

/// The synthetic silence frames appended after the decoder pause, for a
/// sample rate: a quarter of a second.
pub fn decoder_silence_frames(input_rate: u32) -> (r: usize)
    ensures
        r == input_rate as int * DECODER_SILENCE_MS as int / 1000,
{
    let rate: u64 = input_rate as u64;
    assert(rate <= 0xffff_ffff);
    let product: u64 = rate * 250;
    let frames: u64 = product / 1000;
    assert(frames <= 0xffff_ffff);
    frames as usize
}

// ---------------------------------------------------------------------------
// Capture state shared with the audio callback
// ---------------------------------------------------------------------------

/// What the audio callback has delivered so far.
pub struct CaptureState<T> {
    /// Blocks in delivery order.
    pub chunks: Vec<CaptureChunk<T>>,
    /// The stream time of the last callback and the host time it ran at.
    pub last_callback_anchor: Option<(u128, u128)>,
    /// The latest stream time up to which audio has been captured.
    pub latest_capture_end_nanos: u128,
}

/// `a + b`, saturating at `u128::MAX`.
pub open spec fn saturating_add(a: u128, b: int) -> int {
    if a + b > u128::MAX {
        u128::MAX as int
    } else {
        a + b
    }
}

/// How long `frames` frames last at `rate`, rounded up to a nanosecond.
pub open spec fn block_duration(frames: int, rate: u32) -> int {
    ceil_div(frames * NANOS_PER_SECOND, rate as int)
}

impl<T> CaptureState<T> {
    /// Nothing captured yet.
    pub fn new() -> (r: Self)
        ensures
            r.chunks@.len() == 0,
            r.last_callback_anchor is None,
            r.latest_capture_end_nanos == 0,
    {
        CaptureState { chunks: Vec::new(), last_callback_anchor: None, latest_capture_end_nanos: 0 }
    }

    /// Records one callback: its block is appended, the callback becomes the
    /// clock anchor, and the capture end advances to the end of the block if
    /// that is later.
    pub fn record_callback(
        &mut self,
        capture_start_nanos: u128,
        callback_stream_nanos: u128,
        host_now_nanos: u128,
        samples: Vec<T>,
        sample_rate: u32,
        channels: usize,
    )
        requires
            sample_rate > 0,
            channels > 0,
        ensures
            final(self).chunks@ == old(self).chunks@.push(
                CaptureChunk { capture_start_nanos, samples },
            ),
            final(self).last_callback_anchor == Some((callback_stream_nanos, host_now_nanos)),
            final(self).latest_capture_end_nanos == ({
                let end = saturating_add(
                    capture_start_nanos,
                    block_duration(samples@.len() as int / channels as int, sample_rate),
                );
                if end > old(self).latest_capture_end_nanos {
                    end
                } else {
                    old(self).latest_capture_end_nanos as int
                }
            }),
    {
        let frames = samples.len() / channels;
        let rate = sample_rate as u128;
        proof {
            assert(frames as u128 * NANOS_PER_SECOND <= 0x1_0000_0000_0000_0000u128 * NANOS_PER_SECOND)
                by (nonlinear_arith)
                requires
                    frames <= usize::MAX,
                    usize::MAX < 0x1_0000_0000_0000_0000u128,
            ;
        }
        let total = frames as u128 * NANOS_PER_SECOND;
        let duration = if total % rate != 0 {
            total / rate + 1
        } else {
            total / rate
        };
        proof {
            let t = total as int;
            let d = rate as int;
            assert(duration == ceil_div(t, d)) by (nonlinear_arith)
                requires
                    d > 0,
                    t >= 0,
                    duration == if t % d != 0 {
                        t / d + 1
                    } else {
                        t / d
                    },
            ;
        }
        let end = if capture_start_nanos > u128::MAX - duration {
            u128::MAX
        } else {
            capture_start_nanos + duration
        };
        if end > self.latest_capture_end_nanos {
            self.latest_capture_end_nanos = end;
        }
        self.last_callback_anchor = Some((callback_stream_nanos, host_now_nanos));
        self.chunks.push(CaptureChunk { capture_start_nanos, samples });
    }

    /// The cutoff on the stream clock for a stop requested at host time
    /// `cutoff_host_nanos`, or `None` when no callback has run yet.
    pub fn cutoff_for(&self, cutoff_host_nanos: u128) -> (r: Option<u128>)
        ensures
            r == match self.last_callback_anchor {
                None => None,
                Some((stream, host)) => Some(stream_time(stream, host, cutoff_host_nanos) as u128),
            },
    {
        match self.last_callback_anchor {
            None => None,
            Some((stream, host)) => Some(stream_time_at(stream, host, cutoff_host_nanos)),
        }
    }

    /// Whether the capture has not yet reached the cutoff, so that stopping
    /// should wait for more audio.
    pub fn awaiting_audio_before(&self, cutoff_nanos: u128) -> (r: bool)
        ensures
            r == (self.latest_capture_end_nanos < cutoff_nanos),
    {
        self.latest_capture_end_nanos < cutoff_nanos
    }
}

impl<T: Copy> CaptureState<T> {
    /// Takes all captured blocks out of the state and assembles the
    /// recording: `None` when nothing was captured, otherwise the samples
    /// before the cutoff followed by a quarter of a second of `silence`.
    pub fn finish(
        &mut self,
        cutoff_nanos: u128,
        sample_rate: u32,
        channels: usize,
        silence: T,
    ) -> (r: Option<Vec<T>>)
        requires
            channels > 0,
            captured(old(self).chunks@, cutoff_nanos, sample_rate, channels).len() + (
            sample_rate as int * DECODER_SILENCE_MS as int / 1000) * channels <= usize::MAX,
        ensures
            final(self).chunks@.len() == 0,
            final(self).last_callback_anchor == old(self).last_callback_anchor,
            final(self).latest_capture_end_nanos == old(self).latest_capture_end_nanos,
            old(self).chunks@.len() == 0 ==> r is None,
            old(self).chunks@.len() > 0 ==> (r matches Some(v) && v@ == captured(
                old(self).chunks@,
                cutoff_nanos,
                sample_rate,
                channels,
            ) + Seq::new(
                ((sample_rate as int * DECODER_SILENCE_MS as int / 1000) * channels) as nat,
                |i: int| silence,
            )),
    {
        let mut chunks: Vec<CaptureChunk<T>> = Vec::new();
        std::mem::swap(&mut chunks, &mut self.chunks);
        if chunks.len() == 0 {
            return None;
        }
        let silence_frames = decoder_silence_frames(sample_rate);
        Some(finalize_capture(&chunks, cutoff_nanos, sample_rate, channels, silence_frames, silence))
    }
}

// ---------------------------------------------------------------------------
// Negotiating the input configuration
// ---------------------------------------------------------------------------

/// Sample formats an audio device can deliver.
#[derive(Clone, Copy, Debug, PartialEq, Eq, Structural)]
pub enum SampleFormat {
    I8,
    I16,
    I24,
    I32,
    I64,
    U8,
    U16,
    U24,
    U32,
    U64,
    F32,
    F64,
    /// A format this program does not read.
    Other,
}

/// The buffer sizes a device supports, in frames.
#[derive(Clone, Copy, Debug, PartialEq, Eq, Structural)]
pub enum BufferSizeRange {
    Range { min: u32, max: u32 },
    Unknown,
}

/// One range of configurations a device supports.
#[derive(Clone, Copy, Debug, PartialEq, Eq, Structural)]
pub struct InputRange {
    pub channels: u16,
    pub min_sample_rate: u32,
    pub max_sample_rate: u32,
    pub buffer_size: BufferSizeRange,
    pub sample_format: SampleFormat,
}

/// A configuration a device supports.
#[derive(Clone, Copy, Debug, PartialEq, Eq, Structural)]
pub struct InputConfig {
    pub channels: u16,
    pub sample_rate: u32,
    pub buffer_size: BufferSizeRange,
    pub sample_format: SampleFormat,
}

/// A range is what the model wants natively: mono 16-bit PCM that can run
/// at the model's sample rate.
pub open spec fn is_native(r: InputRange) -> bool {
    r.channels == 1 && r.sample_format == SampleFormat::I16 && r.min_sample_rate <= OUTPUT_RATE
        && OUTPUT_RATE <= r.max_sample_rate
}

/// The range at the model's sample rate.
pub open spec fn at_output_rate(r: InputRange) -> InputConfig {
    InputConfig {
        channels: r.channels,
        sample_rate: OUTPUT_RATE,
        buffer_size: r.buffer_size,
        sample_format: r.sample_format,
    }
}

/// The first native range, run at the model's sample rate, if any.
pub fn preferred_input_config(ranges: &Vec<InputRange>) -> (r: Option<InputConfig>)
    ensures
        r is None <==> forall|i: int| 0 <= i < ranges@.len() ==> !is_native(#[trigger] ranges@[i]),
        r matches Some(c) ==> exists|i: int|
            0 <= i < ranges@.len() && is_native(#[trigger] ranges@[i]) && c == at_output_rate(
                ranges@[i],
            ) && forall|j: int| 0 <= j < i ==> !is_native(#[trigger] ranges@[j]),
{
    let mut i: usize = 0;
    while i < ranges.len()
        invariant
            i <= ranges.len(),
            forall|j: int| 0 <= j < i ==> !is_native(#[trigger] ranges@[j]),
        decreases ranges.len() - i,
    {
        let r = ranges[i];
        if r.channels == 1 && r.sample_format == SampleFormat::I16 && r.min_sample_rate
            <= OUTPUT_RATE && OUTPUT_RATE <= r.max_sample_rate {
            return Some(
                InputConfig {
                    channels: r.channels,
                    sample_rate: OUTPUT_RATE,
                    buffer_size: r.buffer_size,
                    sample_format: r.sample_format,
                },
            );
        }
        i = i + 1;
    }
    None
}

/// The buffer size to request: 20 ms of audio, kept within the supported
/// range; `None` (leave the device's default) when the range is unknown.
pub fn capture_buffer_frames(sample_rate: u32, buffer_size: BufferSizeRange) -> (r: Option<u32>)
    requires
        buffer_size matches BufferSizeRange::Range { min, max } ==> min <= max,
    ensures
        r == match buffer_size {
            BufferSizeRange::Unknown => None,
            BufferSizeRange::Range { min, max } => {
                let want = sample_rate / 50;
                Some(
                    if want < min {
                        min
                    } else if want > max {
                        max
                    } else {
                        want
                    },
                )
            },
        },
{
    match buffer_size {
        BufferSizeRange::Unknown => None,
        BufferSizeRange::Range { min, max } => {
            let want = sample_rate / 50;
            Some(
                if want < min {
                    min
                } else if want > max {
                    max
                } else {
                    want
                },
            )
        },
    }
}

// ---------------------------------------------------------------------------
// Listing microphones
// ---------------------------------------------------------------------------

/// One line per microphone, the system default marked with `*`.
pub open spec fn device_lines(devices: Seq<String>, default: Option<Seq<char>>) -> Seq<char>
    decreases devices.len(),
{
    if devices.len() == 0 {
        seq![]
    } else {
        let name = devices.last()@;
        let marker = if default == Some(name) {
            '*'
        } else {
            ' '
        };
        device_lines(devices.drop_last(), default) + seq![marker, ' '] + name + seq!['\n']
    }
}

/// The microphone listing: the audio host, then one line per input device
/// with the system default marked.
pub fn microphone_report(host: &str, devices: &Vec<String>, default: Option<&str>) -> (r: String)
    ensures
        r@ == "audio host: "@ + host@ + seq!['\n'] + device_lines(
            devices@,
            match default {
                Some(d) => Some(d@),
                None => None,
            },
        ),
{
    let ghost dflt = match default {
        Some(d) => Some(d@),
        None => None::<Seq<char>>,
    };
    let mut out = crate::text::chars_of("audio host: ");
    crate::text::push_all(&mut out, &crate::text::chars_of(host));
    out.push('\n');
    let ghost head = out@;
    let default_chars = match default {
        Some(d) => Some(crate::text::chars_of(d)),
        None => None,
    };
    let mut i: usize = 0;
    while i < devices.len()
        invariant
            i <= devices.len(),
            out@ == head + device_lines(devices@.take(i as int), dflt),
            dflt == match default {
                Some(d) => Some(d@),
                None => None::<Seq<char>>,
            },
            match default_chars {
                Some(c) => dflt == Some(c@),
                None => dflt is None,
            },
        decreases devices.len() - i,
    {
        let name = crate::text::chars_of(devices[i].as_str());
        let is_default = match &default_chars {
            Some(d) => crate::text::chars_equal(d, &name),
            None => false,
        };
        proof {
            assert(devices@.take(i + 1).drop_last() =~= devices@.take(i as int));
            assert(devices@.take(i + 1).last() == devices@[i as int]);
        }
        out.push(if is_default {
            '*'
        } else {
            ' '
        });
        out.push(' ');
        crate::text::push_all(&mut out, &name);
        out.push('\n');
        i = i + 1;
        assert(out@ =~= head + device_lines(devices@.take(i as int), dflt));
    }
    assert(devices@.take(devices.len() as int) =~= devices@);
    crate::text::string_from_chars(&out)
}


/// Capturing one more block adds exactly what that block holds before the
/// cutoff after what the earlier blocks gave: no block is dropped and the
/// order is kept.
pub proof fn law_each_block_adds_its_samples<T>(
    chunks: Seq<CaptureChunk<T>>,
    c: CaptureChunk<T>,
    cutoff: u128,
    rate: u32,
    channels: usize,
)
    ensures
        captured(chunks.push(c), cutoff, rate, channels) == captured(chunks, cutoff, rate, channels)
            + c.samples@.take(
            kept_samples(c.capture_start_nanos, c.samples@.len(), cutoff, rate, channels),
        ),
{
    assert(chunks.push(c).drop_last() =~= chunks);
}

/// Every sample of the blocks, in order.
pub open spec fn all_samples<T>(chunks: Seq<CaptureChunk<T>>) -> Seq<T>
    decreases chunks.len(),
{
    if chunks.len() == 0 {
        seq![]
    } else {
        all_samples(chunks.drop_last()) + chunks.last().samples@
    }
}

/// A block lies wholly before the cutoff: it starts before it, holds whole
/// frames only, and its last frame starts before the cutoff
/// (`frames * 1e9 <= (cutoff - start) * rate`, with that product and its
/// rounded-up quotient in range).
pub open spec fn wholly_before<T>(c: CaptureChunk<T>, cutoff: u128, rate: u32, channels: usize) -> bool {
    let frames = c.samples@.len() as int / channels as int;
    let span = (cutoff - c.capture_start_nanos) * rate;
    &&& c.capture_start_nanos < cutoff
    &&& c.samples@.len() as int % channels as int == 0
    &&& span <= u128::MAX
    &&& ceil_div(span, NANOS_PER_SECOND as int) <= usize::MAX
    &&& frames * NANOS_PER_SECOND <= span
}

/// When every block lies wholly before the cutoff, the capture is all of
/// their samples, in order.
pub proof fn law_blocks_before_the_cutoff_are_kept_whole<T>(
    chunks: Seq<CaptureChunk<T>>,
    cutoff: u128,
    rate: u32,
    channels: usize,
)
    requires
        channels > 0,
        forall|k: int| 0 <= k < chunks.len() ==> wholly_before(#[trigger] chunks[k], cutoff, rate, channels),
    ensures
        captured(chunks, cutoff, rate, channels) == all_samples(chunks),
    decreases chunks.len(),
{
    if chunks.len() > 0 {
        let front = chunks.drop_last();
        assert forall|k: int| 0 <= k < front.len() implies wholly_before(
            #[trigger] front[k],
            cutoff,
            rate,
            channels,
        ) by {
            assert(front[k] == chunks[k]);
        }
        law_blocks_before_the_cutoff_are_kept_whole(front, cutoff, rate, channels);
        let c = chunks.last();
        assert(wholly_before(chunks[chunks.len() - 1], cutoff, rate, channels));
        let len = c.samples@.len() as int;
        let frames = len / channels as int;
        let span = (cutoff - c.capture_start_nanos) * rate;
        let b = NANOS_PER_SECOND as int;
        let before = ceil_div(span, b);
        assert(frames_before(c.capture_start_nanos, cutoff, rate) == before);
        assert(frames <= before) by (nonlinear_arith)
            requires
                frames * b <= span,
                before == (span + b - 1) / b,
                b > 0,
                span >= 0,
        ;
        assert(frames * channels == len) by (nonlinear_arith)
            requires
                len % (channels as int) == 0,
                frames == len / (channels as int),
                channels > 0,
        ;
        assert(kept_samples(c.capture_start_nanos, c.samples@.len(), cutoff, rate, channels) == len);
        assert(c.samples@.take(len) =~= c.samples@);
    }
}

} // verus!
