//! The decisions of the dictation daemon.
//!
//! The daemon holds one dictation at a time. Commands arrive as lines on its
//! socket; between commands it does housekeeping: a recording is discarded
//! when the machine resumed from suspend or the session got locked, and it is
//! stopped and transcribed when it reached the maximum duration. This module
//! decides what happens; the caller performs it (starting and stopping the
//! recorder, transcribing, answering on the socket) and reports back.
//!
//! Times are milliseconds on a monotonic clock.
use vstd::prelude::*;
use crate::text::{chars_of, chars_equal, trim, trim_chars, push_all, string_from_chars,
    starts_with_chars, skip_chars, trim_end};

verus! {

/// How often the session lock is polled while recording.
pub const LOCK_CHECK_INTERVAL_MS: u64 = 250;

/// The default maximum length of a recording.
pub const DEFAULT_MAX_RECORDING_MS: u64 = 120_000;

/// The default window in which a second toggle is taken for an accidental
/// double press.
pub const DEFAULT_DEBOUNCE_MS: u64 = 300;

/// What the daemon is doing.
#[derive(Clone, Copy, Debug, PartialEq, Eq, Structural)]
pub enum Dictation {
    Idle,
    Recording {
        /// When the recording started.
        started_at_ms: u64,
        /// Whether the recorder may still fall back from the preferred
        /// microphone to the system default.
        can_fallback_microphone: bool,
    },
}

/// The daemon's state.
pub struct Daemon {
    pub state: Dictation,
    /// When the session lock was last polled.
    pub last_lock_check_ms: u64,
    pub max_recording_ms: u64,
    pub debounce_ms: u64,
}

/// What housekeeping asks the caller to do.
#[derive(Clone, Copy, Debug, PartialEq, Eq, Structural)]
pub enum Housekeeping {
    Nothing,
    /// Throw the recording away without transcribing it: the session became
    /// inactive.
    DiscardRecording,
    /// Stop the recording and transcribe it: it reached the maximum length.
    FinishDictation,
}

/// What a command asks the caller to do.
pub enum Action {
    /// Answer with this line.
    Reply(String),
    /// Start a recording; report the outcome with `recording_started`, or
    /// answer with the error.
    StartRecording,
    /// Stop the recording, transcribe and insert it; answer with the
    /// transcript or the error.
    FinishDictation,
    /// Throw the recording away, then answer with this line.
    Discard(String),
    /// Answer with this line and stop serving.
    Quit(String),
    /// Report this error and answer with it.
    Fail(String),
}

/// An `Action` with its texts as character sequences.
pub enum ActionView {
    Reply(Seq<char>),
    StartRecording,
    FinishDictation,
    Discard(Seq<char>),
    Quit(Seq<char>),
    Fail(Seq<char>),
}

impl View for Action {
    type V = ActionView;

    open spec fn view(&self) -> ActionView {
        match self {
            Action::Reply(m) => ActionView::Reply(m@),
            Action::StartRecording => ActionView::StartRecording,
            Action::FinishDictation => ActionView::FinishDictation,
            Action::Discard(m) => ActionView::Discard(m@),
            Action::Quit(m) => ActionView::Quit(m@),
            Action::Fail(m) => ActionView::Fail(m@),
        }
    }
}

/// Time since `since`, never negative (as `Instant::elapsed`).
pub open spec fn elapsed(now_ms: u64, since_ms: u64) -> int {
    if now_ms >= since_ms {
        now_ms - since_ms
    } else {
        0
    }
}

/// The command word of a line: the line without surrounding whitespace.
pub open spec fn command_word(line: Seq<char>) -> Seq<char> {
    trim(line)
}

/// How a command word changes the dictation and what it asks for.
pub open spec fn command_step(state: Dictation, debounce_ms: u64, word: Seq<char>, now_ms: u64) -> (
    Dictation,
    ActionView,
) {
    if word == "status"@ {
        (
            state,
            ActionView::Reply(
                if state is Idle {
                    "idle"@
                } else {
                    "recording"@
                },
            ),
        )
    } else if word == "cancel"@ {
        (
            Dictation::Idle,
            if state is Idle {
                ActionView::Reply("idle"@)
            } else {
                ActionView::Discard("cancelled"@)
            },
        )
    } else if word == "toggle"@ {
        match state {
            Dictation::Idle => (Dictation::Idle, ActionView::StartRecording),
            Dictation::Recording { started_at_ms, .. } => if elapsed(now_ms, started_at_ms)
                < debounce_ms {
                (state, ActionView::Reply("recording"@))
            } else {
                (Dictation::Idle, ActionView::FinishDictation)
            },
        }
    } else if word == "quit"@ {
        (state, ActionView::Quit("bye"@))
    } else {
        (state, ActionView::Fail("unknown daemon command: "@ + word))
    }
}

/// Whether the session lock is polled at `now_ms`: only while recording,
/// and at most every `LOCK_CHECK_INTERVAL_MS`.
pub open spec fn lock_check_is_due(state: Dictation, last_lock_check_ms: u64, now_ms: u64) -> bool {
    state is Recording && elapsed(now_ms, last_lock_check_ms) >= LOCK_CHECK_INTERVAL_MS
}

/// How housekeeping changes the dictation and what it asks for: a recording
/// of a session that became inactive (resumed from suspend, or locked at a
/// due lock check) is discarded; a recording that reached the maximum length
/// is finished.
pub open spec fn housekeeping_step(
    state: Dictation,
    last_lock_check_ms: u64,
    max_recording_ms: u64,
    now_ms: u64,
    resumed: bool,
    locked: bool,
) -> (Dictation, Housekeeping) {
    let inactive = resumed || (lock_check_is_due(state, last_lock_check_ms, now_ms) && locked);
    match state {
        Dictation::Idle => (Dictation::Idle, Housekeeping::Nothing),
        Dictation::Recording { started_at_ms, .. } => if inactive {
            (Dictation::Idle, Housekeeping::DiscardRecording)
        } else if elapsed(now_ms, started_at_ms) >= max_recording_ms {
            (Dictation::Idle, Housekeeping::FinishDictation)
        } else {
            (state, Housekeeping::Nothing)
        },
    }
}

fn elapsed_ms(now_ms: u64, since_ms: u64) -> (r: u64)
    ensures
        r == elapsed(now_ms, since_ms),
{
    if now_ms >= since_ms {
        now_ms - since_ms
    } else {
        0
    }
}

fn literal(s: &str) -> (r: String)
    ensures
        r@ == s@,
{
    let c = chars_of(s);
    string_from_chars(&c)
}

impl Daemon {
    /// A daemon that is idle and will poll the session lock as soon as a
    /// recording starts.
    pub fn new(now_ms: u64, max_recording_ms: u64, debounce_ms: u64) -> (r: Self)
        ensures
            r.state == Dictation::Idle,
            r.last_lock_check_ms == if now_ms >= 1000 {
                now_ms - 1000
            } else {
                0
            },
            r.max_recording_ms == max_recording_ms,
            r.debounce_ms == debounce_ms,
    {
        Daemon {
            state: Dictation::Idle,
            last_lock_check_ms: if now_ms >= 1000 {
                now_ms - 1000
            } else {
                0
            },
            max_recording_ms,
            debounce_ms,
        }
    }

    /// Whether the session lock should be polled now.
    pub fn lock_check_due(&self, now_ms: u64) -> (r: bool)
        ensures
            r == lock_check_is_due(self.state, self.last_lock_check_ms, now_ms),
    {
        match self.state {
            Dictation::Recording { .. } => elapsed_ms(now_ms, self.last_lock_check_ms)
                >= LOCK_CHECK_INTERVAL_MS,
            Dictation::Idle => false,
        }
    }

    /// Housekeeping between commands. `resumed` tells whether the machine
    /// came back from suspend; `locked` whether the session is locked, which
    /// only counts when the lock check was due.
    pub fn housekeeping(&mut self, now_ms: u64, resumed: bool, locked: bool) -> (r: Housekeeping)
        ensures
            (final(self).state, r) == housekeeping_step(
                old(self).state,
                old(self).last_lock_check_ms,
                old(self).max_recording_ms,
                now_ms,
                resumed,
                locked,
            ),
            final(self).last_lock_check_ms == if lock_check_is_due(
                old(self).state,
                old(self).last_lock_check_ms,
                now_ms,
            ) {
                now_ms
            } else {
                old(self).last_lock_check_ms
            },
            final(self).max_recording_ms == old(self).max_recording_ms,
            final(self).debounce_ms == old(self).debounce_ms,
    {
        let due = self.lock_check_due(now_ms);
        let locked = due && locked;
        if due {
            self.last_lock_check_ms = now_ms;
        }
        match self.state {
            Dictation::Idle => Housekeeping::Nothing,
            Dictation::Recording { started_at_ms, .. } => {
                if resumed || locked {
                    self.state = Dictation::Idle;
                    Housekeeping::DiscardRecording
                } else if elapsed_ms(now_ms, started_at_ms) >= self.max_recording_ms {
                    self.state = Dictation::Idle;
                    Housekeeping::FinishDictation
                } else {
                    Housekeeping::Nothing
                }
            },
        }
    }

    /// Handles one command line.
    pub fn command(&mut self, line: &str, now_ms: u64) -> (r: Action)
        ensures
            (final(self).state, r@) == command_step(
                old(self).state,
                old(self).debounce_ms,
                command_word(line@),
                now_ms,
            ),
            final(self).last_lock_check_ms == old(self).last_lock_check_ms,
            final(self).max_recording_ms == old(self).max_recording_ms,
            final(self).debounce_ms == old(self).debounce_ms,
    {
        let raw = chars_of(line);
        let word = trim_chars(&raw);
        if chars_equal(&word, &chars_of("status")) {
            match self.state {
                Dictation::Idle => Action::Reply(literal("idle")),
                Dictation::Recording { .. } => Action::Reply(literal("recording")),
            }
        } else if chars_equal(&word, &chars_of("cancel")) {
            match self.state {
                Dictation::Idle => Action::Reply(literal("idle")),
                Dictation::Recording { .. } => {
                    self.state = Dictation::Idle;
                    Action::Discard(literal("cancelled"))
                },
            }
        } else if chars_equal(&word, &chars_of("toggle")) {
            match self.state {
                Dictation::Idle => Action::StartRecording,
                Dictation::Recording { started_at_ms, .. } => {
                    if elapsed_ms(now_ms, started_at_ms) < self.debounce_ms {
                        Action::Reply(literal("recording"))
                    } else {
                        self.state = Dictation::Idle;
                        Action::FinishDictation
                    }
                },
            }
        } else if chars_equal(&word, &chars_of("quit")) {
            Action::Quit(literal("bye"))
        } else {
            let mut message = chars_of("unknown daemon command: ");
            push_all(&mut message, &word);
            Action::Fail(string_from_chars(&message))
        }
    }

    /// A recording started at `now_ms`.
    pub fn recording_started(&mut self, now_ms: u64, can_fallback_microphone: bool)
        ensures
            final(self).state == (Dictation::Recording {
                started_at_ms: now_ms,
                can_fallback_microphone,
            }),
            final(self).last_lock_check_ms == old(self).last_lock_check_ms,
            final(self).max_recording_ms == old(self).max_recording_ms,
            final(self).debounce_ms == old(self).debounce_ms,
    {
        self.state = Dictation::Recording { started_at_ms: now_ms, can_fallback_microphone };
    }

    /// Whether the running recording may still fall back to the default
    /// microphone if its preferred one disconnects.
    pub fn can_fallback_microphone(&self) -> (r: bool)
        ensures
            r == (self.state matches Dictation::Recording { can_fallback_microphone, .. }
                && can_fallback_microphone),
    {
        match self.state {
            Dictation::Recording { can_fallback_microphone, .. } => can_fallback_microphone,
            Dictation::Idle => false,
        }
    }

    /// The preferred microphone disconnected and the recording moved to the
    /// default one; it does not fall back again.
    pub fn microphone_fell_back(&mut self)
        ensures
            final(self).state == match old(self).state {
                Dictation::Idle => Dictation::Idle,
                Dictation::Recording { started_at_ms, .. } => Dictation::Recording {
                    started_at_ms,
                    can_fallback_microphone: false,
                },
            },
            final(self).last_lock_check_ms == old(self).last_lock_check_ms,
            final(self).max_recording_ms == old(self).max_recording_ms,
            final(self).debounce_ms == old(self).debounce_ms,
    {
        match self.state {
            Dictation::Recording { started_at_ms, .. } => {
                self.state = Dictation::Recording {
                    started_at_ms,
                    can_fallback_microphone: false,
                };
            },
            Dictation::Idle => {},
        }
    }
}

/// The line the daemon answers with: the message, or `error: ` and the
/// error.
pub fn reply_line(result: Result<String, String>) -> (r: String)
    ensures
        r@ == match result {
            Ok(m) => m@,
            Err(e) => "error: "@ + e@,
        },
{
    match result {
        Ok(m) => m,
        Err(e) => {
            let mut line = chars_of("error: ");
            let rest = chars_of(e.as_str());
            push_all(&mut line, &rest);
            string_from_chars(&line)
        },
    }
}

// ---------------------------------------------------------------------------
// The client side
// ---------------------------------------------------------------------------

/// Commands that are answered locally while a transcription runs, so that
/// they are not queued behind it.
pub open spec fn held_while_transcribing(command: Seq<char>) -> bool {
    command == "toggle"@ || command == "cancel"@ || command == "status"@
}

/// The local answer to a command while a transcription runs, if any:
/// `transcribing` for toggle, cancel and status.
pub fn answer_while_transcribing(command: &str, transcribing: bool) -> (r: Option<String>)
    ensures
        r is Some <==> (transcribing && held_while_transcribing(command@)),
        r matches Some(m) ==> m@ == "transcribing"@,
{
    if !transcribing {
        return None;
    }
    let c = chars_of(command);
    if chars_equal(&c, &chars_of("toggle")) || chars_equal(&c, &chars_of("cancel")) || chars_equal(
        &c,
        &chars_of("status"),
    ) {
        Some(literal("transcribing"))
    } else {
        None
    }
}

/// The daemon's answer without trailing whitespace: an error when it starts
/// with `error: `, otherwise the answer itself.
pub open spec fn interpreted_reply(line: Seq<char>) -> Result<Seq<char>, Seq<char>> {
    let t = trim_end(line);
    let p = "error: "@;
    if p.len() <= t.len() && t.take(p.len() as int) == p {
        Err(t.skip(p.len() as int))
    } else {
        Ok(t)
    }
}

/// Reads the daemon's answer line.
pub fn interpret_reply(line: &str) -> (r: Result<String, String>)
    ensures
        match (r, interpreted_reply(line@)) {
            (Ok(a), Ok(b)) => a@ == b,
            (Err(a), Err(b)) => a@ == b,
            _ => false,
        },
{
    let chars = chars_of(line);
    let mut n = chars.len();
    assert(chars@.take(n as int) =~= chars@);
    while n > 0 && crate::text::is_whitespace(chars[n - 1])
        invariant
            n <= chars.len(),
            chars@ == line@,
            trim_end(chars@) == trim_end(chars@.take(n as int)),
        decreases n,
    {
        proof {
            let t = chars@.take(n as int);
            assert(t.drop_last() =~= chars@.take(n - 1));
            assert(t.last() == chars@[n - 1]);
        }
        n = n - 1;
    }
    proof {
        let t = chars@.take(n as int);
        if n > 0 {
            assert(t.last() == chars@[n - 1]);
        }
    }
    let mut trimmed: Vec<char> = Vec::new();
    let mut i: usize = 0;
    while i < n
        invariant
            i <= n <= chars.len(),
            trimmed@ == chars@.take(i as int),
        decreases n - i,
    {
        trimmed.push(chars[i]);
        i = i + 1;
        assert(chars@.take(i as int) == chars@.take(i - 1).push(chars@[i - 1]));
    }
    let prefix = chars_of("error: ");
    if starts_with_chars(&trimmed, &prefix) {
        let rest = skip_chars(&trimmed, prefix.len());
        Err(string_from_chars(&rest))
    } else {
        Ok(string_from_chars(&trimmed))
    }
}

// ---------------------------------------------------------------------------
// Laws of the daemon
// ---------------------------------------------------------------------------

/// One toggle starts a recording and the next toggle, once the double-press
/// window has passed, stops it and hands it to transcription; the daemon is
/// idle again afterwards.
pub proof fn law_toggle_starts_and_stops_one_recording(
    debounce_ms: u64,
    t_start: u64,
    t_stop: u64,
    can_fallback: bool,
)
    requires
        t_stop >= t_start + debounce_ms,
    ensures
        command_step(Dictation::Idle, debounce_ms, "toggle"@, t_start) == (
            Dictation::Idle,
            ActionView::StartRecording,
        ),
        command_step(
            Dictation::Recording { started_at_ms: t_start, can_fallback_microphone: can_fallback },
            debounce_ms,
            "toggle"@,
            t_stop,
        ) == (Dictation::Idle, ActionView::FinishDictation),
{
    lemma_command_words_differ();
}

proof fn lemma_command_words_differ()
    ensures
        "toggle"@ != "status"@,
        "toggle"@ != "cancel"@,
        "cancel"@ != "status"@,
        "quit"@ != "status"@,
        "quit"@ != "cancel"@,
        "quit"@ != "toggle"@,
{
    reveal_strlit("toggle");
    reveal_strlit("status");
    reveal_strlit("cancel");
    reveal_strlit("quit");
    assert("toggle"@[0] != "status"@[0]);
    assert("toggle"@[0] != "cancel"@[0]);
    assert("cancel"@[0] != "status"@[0]);
    assert("quit"@[0] != "status"@[0]);
    assert("quit"@[0] != "cancel"@[0]);
    assert("quit"@[0] != "toggle"@[0]);
}

/// An accidental double press is ignored: a toggle inside the double-press
/// window keeps the recording running and answers `recording`, and a cancel
/// afterwards still discards it.
pub proof fn law_double_press_is_ignored_and_cancel_still_works(
    debounce_ms: u64,
    t_start: u64,
    t_press: u64,
    t_cancel: u64,
    can_fallback: bool,
)
    requires
        t_start <= t_press < t_start + debounce_ms,
    ensures
        ({
            let recording = Dictation::Recording {
                started_at_ms: t_start,
                can_fallback_microphone: can_fallback,
            };
            &&& command_step(recording, debounce_ms, "toggle"@, t_press) == (
                recording,
                ActionView::Reply("recording"@),
            )
            &&& command_step(recording, debounce_ms, "cancel"@, t_cancel) == (
                Dictation::Idle,
                ActionView::Discard("cancelled"@),
            )
        }),
{
    lemma_command_words_differ();
}

/// `status` reports the dictation and never changes it.
pub proof fn law_status_changes_nothing(state: Dictation, debounce_ms: u64, now_ms: u64)
    ensures
        command_step(state, debounce_ms, "status"@, now_ms).0 == state,
        command_step(state, debounce_ms, "status"@, now_ms).1 == ActionView::Reply(
            if state is Idle {
                "idle"@
            } else {
                "recording"@
            },
        ),
{
}

/// Cancelling when nothing is recorded answers `idle` and changes nothing.
pub proof fn law_cancel_when_idle(debounce_ms: u64, now_ms: u64)
    ensures
        command_step(Dictation::Idle, debounce_ms, "cancel"@, now_ms) == (
            Dictation::Idle,
            ActionView::Reply("idle"@),
        ),
{
    lemma_command_words_differ();
}

/// Private audio of a session that became inactive is never transcribed:
/// when the machine resumed from suspend, or the session is locked at a due
/// lock check, housekeeping discards the recording.
pub proof fn law_inactive_session_discards_without_transcribing(
    state: Dictation,
    last_lock_check_ms: u64,
    max_recording_ms: u64,
    now_ms: u64,
    resumed: bool,
    locked: bool,
)
    requires
        state is Recording,
        resumed || (lock_check_is_due(state, last_lock_check_ms, now_ms) && locked),
    ensures
        housekeeping_step(state, last_lock_check_ms, max_recording_ms, now_ms, resumed, locked)
            == (Dictation::Idle, Housekeeping::DiscardRecording),
{
}

/// A recording that reaches the maximum length (in an active session) is
/// stopped and transcribed, not discarded.
pub proof fn law_maximum_duration_finishes_the_dictation(
    started_at_ms: u64,
    can_fallback: bool,
    last_lock_check_ms: u64,
    max_recording_ms: u64,
    now_ms: u64,
)
    requires
        now_ms >= started_at_ms + max_recording_ms,
    ensures
        housekeeping_step(
            Dictation::Recording { started_at_ms, can_fallback_microphone: can_fallback },
            last_lock_check_ms,
            max_recording_ms,
            now_ms,
            false,
            false,
        ) == (Dictation::Idle, Housekeeping::FinishDictation),
{
}

/// While a transcription runs, toggle, cancel and status are answered
/// `transcribing` on the spot instead of being queued.
pub proof fn law_commands_are_not_queued_behind_a_transcription()
    ensures
        held_while_transcribing("toggle"@),
        held_while_transcribing("cancel"@),
        held_while_transcribing("status"@),
{
}


/// `quit` answers `bye` and asks the caller to stop serving, in every state,
/// and leaves the dictation as it was.
pub proof fn law_quit_stops_serving(state: Dictation, debounce_ms: u64, now_ms: u64)
    ensures
        command_step(state, debounce_ms, "quit"@, now_ms) == (state, ActionView::Quit("bye"@)),
{
    reveal_strlit("quit");
    reveal_strlit("status");
    reveal_strlit("cancel");
    reveal_strlit("toggle");
    assert("quit"@ != "status"@ && "quit"@ != "cancel"@ && "quit"@ != "toggle"@) by {
        assert("quit"@[0] != "status"@[0]);
        assert("quit"@[0] != "cancel"@[0]);
        assert("quit"@[0] != "toggle"@[0]);
    }
}

} // verus!
