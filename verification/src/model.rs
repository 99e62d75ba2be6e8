//! The integer side of speech recognition: which model files must be
//! present, how long audio is cut into pieces, how many feature frames a
//! piece yields, how the transcripts of the pieces are put together, and the
//! greedy decoding loop of the transducer (the networks themselves and their
//! floating-point scores are evaluated by the caller).
use vstd::prelude::*;
use crate::text::{chars_of, chars_equal, join, push_all, string_from_chars, trim, trim_chars};

verus! {

/// The model's sample rate.
pub const SAMPLE_RATE: usize = 16_000;

/// The analysis window, in samples.
pub const WIN_LENGTH: usize = 320;

/// The step between analysis windows, in samples.
pub const HOP_LENGTH: usize = 160;

/// Audio longer than this (25 s) is transcribed in pieces.
pub const LONG_AUDIO_SAMPLES: usize = 400_000;

/// The length of a piece of long audio (22 s).
pub const CHUNK_SAMPLES: usize = 352_000;

/// At most this many tokens are emitted per encoder frame.
pub const MAX_SYMBOLS_PER_FRAME: usize = 3;

// ---------------------------------------------------------------------------
// Model files
// ---------------------------------------------------------------------------

/// The files a complete model directory holds.
pub open spec fn required_model_files() -> Seq<Seq<char>> {
    seq![
        "v3_e2e_rnnt_encoder.onnx"@,
        "v3_e2e_rnnt_decoder.onnx"@,
        "v3_e2e_rnnt_joint.onnx"@,
        "tokenizer.model"@,
    ]
}

/// Whether `name` is among `files`.
pub open spec fn listed(files: Seq<String>, name: Seq<char>) -> bool {
    exists|i: int| 0 <= i < files.len() && (#[trigger] files[i])@ == name
}

fn is_listed(files: &Vec<String>, name: &str) -> (r: bool)
    ensures
        r == listed(files@, name@),
{
    let wanted = chars_of(name);
    let mut i: usize = 0;
    while i < files.len()
        invariant
            i <= files.len(),
            wanted@ == name@,
            forall|j: int| 0 <= j < i ==> (#[trigger] files@[j])@ != name@,
        decreases files.len() - i,
    {
        let candidate = chars_of(files[i].as_str());
        if chars_equal(&candidate, &wanted) {
            return true;
        }
        i = i + 1;
    }
    false
}

/// Whether a model directory is complete, given the names of the regular
/// files in it: each of the encoder, decoder, joint network and tokenizer
/// must be there.
pub fn model_is_complete(files: &Vec<String>) -> (r: bool)
    ensures
        r == forall|k: int|
            0 <= k < required_model_files().len() ==> listed(
                files@,
                #[trigger] required_model_files()[k],
            ),
{
    let a = is_listed(files, "v3_e2e_rnnt_encoder.onnx");
    let b = is_listed(files, "v3_e2e_rnnt_decoder.onnx");
    let c = is_listed(files, "v3_e2e_rnnt_joint.onnx");
    let d = is_listed(files, "tokenizer.model");
    proof {
        let req = required_model_files();
        assert(req[0] == "v3_e2e_rnnt_encoder.onnx"@);
        assert(req[1] == "v3_e2e_rnnt_decoder.onnx"@);
        assert(req[2] == "v3_e2e_rnnt_joint.onnx"@);
        assert(req[3] == "tokenizer.model"@);
    }
    a && b && c && d
}

// ---------------------------------------------------------------------------
// Pieces of long audio
// ---------------------------------------------------------------------------

/// The sample ranges that are transcribed: short audio in one piece; long
/// audio in pieces of 22 s, where a final piece shorter than one analysis
/// window is dropped.
pub open spec fn piece_ranges(n: int) -> Seq<(int, int)> {
    if n > LONG_AUDIO_SAMPLES {
        let full = n / CHUNK_SAMPLES as int;
        let rest = n % CHUNK_SAMPLES as int;
        Seq::new(
            full as nat,
            |k: int| (k * CHUNK_SAMPLES as int, (k + 1) * CHUNK_SAMPLES as int),
        ) + if rest >= WIN_LENGTH {
            seq![(full * CHUNK_SAMPLES as int, n)]
        } else {
            seq![]
        }
    } else {
        seq![(0, n)]
    }
}

/// The sample ranges to transcribe, for audio of `sample_count` samples.
pub fn transcription_pieces(sample_count: usize) -> (r: Vec<(usize, usize)>)
    ensures
        r@.len() == piece_ranges(sample_count as int).len(),
        forall|i: int|
            0 <= i < r@.len() ==> (#[trigger] r@[i]).0 as int == piece_ranges(
                sample_count as int,
            )[i].0 && r@[i].1 as int == piece_ranges(sample_count as int)[i].1,
{
    let mut out: Vec<(usize, usize)> = Vec::new();
    if sample_count <= LONG_AUDIO_SAMPLES {
        out.push((0, sample_count));
        return out;
    }
    let full = sample_count / CHUNK_SAMPLES;
    let rest = sample_count % CHUNK_SAMPLES;
    let ghost n = sample_count as int;
    let mut k: usize = 0;
    while k < full
        invariant
            k <= full,
            full == n / CHUNK_SAMPLES as int,
            n == sample_count,
            out@.len() == k,
            forall|i: int|
                0 <= i < k ==> (#[trigger] out@[i]).0 as int == i * CHUNK_SAMPLES as int
                    && out@[i].1 as int == (i + 1) * CHUNK_SAMPLES as int,
        decreases full - k,
    {
        proof {
            assert((k + 1) * CHUNK_SAMPLES <= full * CHUNK_SAMPLES) by (nonlinear_arith)
                requires
                    k < full,
            ;
            assert(full * CHUNK_SAMPLES <= n) by (nonlinear_arith)
                requires
                    full == n / CHUNK_SAMPLES as int,
                    n >= 0,
            ;
        }
        out.push((k * CHUNK_SAMPLES, (k + 1) * CHUNK_SAMPLES));
        k = k + 1;
    }
    if rest >= WIN_LENGTH {
        proof {
            assert(full * CHUNK_SAMPLES <= n) by (nonlinear_arith)
                requires
                    full == n / CHUNK_SAMPLES as int,
                    n >= 0,
            ;
        }
        out.push((full * CHUNK_SAMPLES, sample_count));
    }
    out
}

/// The pieces cover the audio in order without overlap, every piece of
/// long audio is at most 22 s long and at least one analysis window long,
/// and only the end of long audio shorter than a window is left out.
pub proof fn law_pieces_tile_the_audio(n: int, i: int)
    requires
        n > LONG_AUDIO_SAMPLES,
        0 <= i < piece_ranges(n).len(),
    ensures
        piece_ranges(n)[i].0 == i * CHUNK_SAMPLES as int,
        piece_ranges(n)[i].0 < piece_ranges(n)[i].1 <= n,
        piece_ranges(n)[i].1 - piece_ranges(n)[i].0 <= CHUNK_SAMPLES,
        piece_ranges(n)[i].1 - piece_ranges(n)[i].0 >= WIN_LENGTH,
        i + 1 < piece_ranges(n).len() ==> piece_ranges(n)[i + 1].0 == piece_ranges(n)[i].1,
        n - piece_ranges(n).last().1 < WIN_LENGTH,
{
    let c = CHUNK_SAMPLES as int;
    let full = n / c;
    let rest = n % c;
    assert(n == full * c + rest);
    assert(full >= 1);
    let full_part = Seq::new(full as nat, |k: int| (k * c, (k + 1) * c));
    if i < full {
        assert(piece_ranges(n)[i] == full_part[i]);
        assert((i + 1) * c <= full * c) by (nonlinear_arith)
            requires
                i < full,
                c > 0,
        ;
        if i + 1 < full {
            assert(piece_ranges(n)[i + 1] == full_part[i + 1]);
        }
    }
    if rest >= WIN_LENGTH {
        assert(piece_ranges(n).last() == (full * c, n));
    } else {
        assert(piece_ranges(n).last() == full_part[full - 1]);
        assert((full - 1 + 1) * c == full * c);
    }
}

/// The pieces of transcript that carry text (not only whitespace).
pub open spec fn spoken_parts(parts: Seq<String>) -> Seq<Seq<char>>
    decreases parts.len(),
{
    if parts.len() == 0 {
        seq![]
    } else {
        let rest = spoken_parts(parts.drop_last());
        if trim(parts.last()@).len() > 0 {
            rest.push(parts.last()@)
        } else {
            rest
        }
    }
}

/// The transcripts of the pieces that carry text, joined by single spaces.
pub fn join_transcripts(parts: &Vec<String>) -> (r: String)
    ensures
        r@ == join(spoken_parts(parts@), seq![' ']),
{
    let mut out: Vec<char> = Vec::new();
    let mut any = false;
    let mut i: usize = 0;
    while i < parts.len()
        invariant
            i <= parts.len(),
            out@ == join(spoken_parts(parts@.take(i as int)), seq![' ']),
            any <==> spoken_parts(parts@.take(i as int)).len() > 0,
        decreases parts.len() - i,
    {
        let text = chars_of(parts[i].as_str());
        let ghost pre = parts@.take(i as int);
        proof {
            assert(parts@.take(i + 1).drop_last() =~= pre);
            assert(parts@.take(i + 1).last() == parts@[i as int]);
        }
        let trimmed = trim_chars(&text);
        if trimmed.len() > 0 {
            proof {
                crate::text::lemma_join_push(spoken_parts(pre), seq![' '], text@);
            }
            if any {
                out.push(' ');
            }
            push_all(&mut out, &text);
            any = true;
        }
        i = i + 1;
    }
    assert(parts@.take(parts.len() as int) =~= parts@);
    string_from_chars(&out)
}

/// The number of feature frames for `n` samples, or `None` when the audio
/// is shorter than one analysis window.
pub open spec fn frame_count_of(n: int) -> Option<int> {
    if n < WIN_LENGTH {
        None
    } else {
        Some((n - WIN_LENGTH) / HOP_LENGTH as int + 1)
    }
}

/// How many feature frames `sample_count` samples give.
pub fn feature_frames(sample_count: usize) -> (r: Option<usize>)
    ensures
        match (r, frame_count_of(sample_count as int)) {
            (Some(a), Some(b)) => a == b,
            (None, None) => true,
            _ => false,
        },
{
    if sample_count < WIN_LENGTH {
        None
    } else {
        Some((sample_count - WIN_LENGTH) / HOP_LENGTH + 1)
    }
}

// ---------------------------------------------------------------------------
// Greedy transducer decoding
// ---------------------------------------------------------------------------

/// The state of greedy decoding over the encoder frames. For the current
/// frame the caller runs the prediction network on `label()` and the joint
/// network on the frame, takes the best-scoring token and reports it with
/// `observe`; a blank token moves on to the next frame, any other token is
/// emitted, and after three tokens in one frame decoding moves on as well.
pub struct RnntGreedy {
    /// The blank token.
    pub blank: i64,
    /// How many encoder frames are decoded.
    pub frames: usize,
    /// The frame being decoded.
    pub frame: usize,
    /// Tokens emitted in the current frame.
    pub emitted_in_frame: usize,
    /// The tokens emitted so far.
    pub tokens: Vec<u32>,
    /// The label fed to the prediction network.
    pub last_label: i64,
}

impl RnntGreedy {
    /// The state is consistent: the frame is within range, fewer than three
    /// tokens were emitted in it, and no more than three tokens per finished
    /// frame were emitted overall.
    pub open spec fn wf(&self) -> bool {
        &&& self.frame <= self.frames
        &&& self.emitted_in_frame < MAX_SYMBOLS_PER_FRAME
        &&& self.frame == self.frames ==> self.emitted_in_frame == 0
        &&& self.tokens@.len() <= MAX_SYMBOLS_PER_FRAME * self.frame + self.emitted_in_frame
    }

    /// Decoding of `min(active, encoded_frames)` frames (a negative active
    /// length counts as zero), starting from the blank label.
    pub fn new(blank: i64, encoded_frames: usize, active_length: i32) -> (r: Self)
        ensures
            r.wf(),
            r.blank == blank,
            r.frames == if active_length < 0 {
                0
            } else if (active_length as int) < encoded_frames {
                active_length as int
            } else {
                encoded_frames as int
            },
            r.frame == 0,
            r.emitted_in_frame == 0,
            r.tokens@.len() == 0,
            r.last_label == blank,
    {
        let active: usize = if active_length < 0 {
            0
        } else {
            active_length as usize
        };
        let frames = if active < encoded_frames {
            active
        } else {
            encoded_frames
        };
        RnntGreedy {
            blank,
            frames,
            frame: 0,
            emitted_in_frame: 0,
            tokens: Vec::new(),
            last_label: blank,
        }
    }

    /// Whether all frames are decoded.
    pub fn is_done(&self) -> (r: bool)
        ensures
            r == (self.frame >= self.frames),
    {
        self.frame >= self.frames
    }

    /// The label to feed to the prediction network: the last emitted token,
    /// or blank before any token.
    pub fn label(&self) -> (r: i64)
        ensures
            r == self.last_label,
    {
        self.last_label
    }

    /// Reports the best-scoring token for the current frame; returns
    /// whether it was emitted (so that the caller keeps the prediction
    /// network's new state).
    pub fn observe(&mut self, token: i64) -> (r: bool)
        requires
            old(self).wf(),
            old(self).frame < old(self).frames,
        ensures
            final(self).wf(),
            final(self).blank == old(self).blank,
            final(self).frames == old(self).frames,
            r == (token != old(self).blank),
            (MAX_SYMBOLS_PER_FRAME + 1) * final(self).frame + final(self).emitted_in_frame > (
            MAX_SYMBOLS_PER_FRAME + 1) * old(self).frame + old(self).emitted_in_frame,
            token == old(self).blank ==> {
                &&& final(self).tokens@ == old(self).tokens@
                &&& final(self).last_label == old(self).last_label
                &&& final(self).frame == old(self).frame + 1
                &&& final(self).emitted_in_frame == 0
            },
            token != old(self).blank ==> {
                &&& final(self).tokens@ == old(self).tokens@.push(token as u32)
                &&& final(self).last_label == token
                &&& if old(self).emitted_in_frame + 1 == MAX_SYMBOLS_PER_FRAME {
                    final(self).frame == old(self).frame + 1 && final(self).emitted_in_frame == 0
                } else {
                    final(self).frame == old(self).frame && final(self).emitted_in_frame
                        == old(self).emitted_in_frame + 1
                }
            },
    {
        if token == self.blank {
            self.frame = self.frame + 1;
            self.emitted_in_frame = 0;
            false
        } else {
            self.tokens.push(token as u32);
            self.last_label = token;
            if self.emitted_in_frame + 1 == MAX_SYMBOLS_PER_FRAME {
                self.frame = self.frame + 1;
                self.emitted_in_frame = 0;
            } else {
                self.emitted_in_frame = self.emitted_in_frame + 1;
            }
            true
        }
    }

    /// The emitted tokens, as the tokenizer takes them.
    pub fn into_tokens(self) -> (r: Vec<i32>)
        ensures
            r@.len() == self.tokens@.len(),
            forall|i: int| 0 <= i < r@.len() ==> r@[i] == (#[trigger] self.tokens@[i]) as i32,
    {
        let mut out: Vec<i32> = Vec::new();
        let mut i: usize = 0;
        while i < self.tokens.len()
            invariant
                i <= self.tokens.len(),
                out@.len() == i,
                forall|j: int| 0 <= j < i ==> out@[j] == (#[trigger] self.tokens@[j]) as i32,
            decreases self.tokens.len() - i,
        {
            out.push(self.tokens[i] as i32);
            i = i + 1;
        }
        out
    }
}

/// Decoding never emits more than three tokens per encoder frame: a
/// consistent decoder that has finished holds at most `3 * frames` tokens.
pub proof fn law_at_most_three_tokens_per_frame(d: RnntGreedy)
    requires
        d.wf(),
        d.frame >= d.frames,
    ensures
        d.tokens@.len() <= MAX_SYMBOLS_PER_FRAME * d.frames,
{
}

} // verus!
