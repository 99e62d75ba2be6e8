//! Decisions about the desktop around a dictation: which media players to
//! pause, which sound to play, how the recorder process is started, which
//! shortcuts to listen to, and how the portal types the paste chord.
use vstd::prelude::*;
use crate::keys::{PasteChord, chord_events};
use crate::text::{chars_of, chars_equal, contains_chars, contains_seq, lines, names_kde,
    mentions_kde, postprocessed, postprocess, split_nl, strip_cr, trim, trim_chars,
    starts_with_chars, string_from_chars, lemma_split_nl_len};

verus! {

// ---------------------------------------------------------------------------
// Media players
// ---------------------------------------------------------------------------

/// The prefix of MPRIS media player bus names.
pub open spec fn mpris_prefix() -> Seq<char> {
    "org.mpris.MediaPlayer2."@
}

/// Whether a trimmed bus name belongs to a media player.
pub open spec fn is_player(name: Seq<char>) -> bool {
    mpris_prefix().len() <= name.len() && name.take(mpris_prefix().len() as int) == mpris_prefix()
}

/// The media players among the trimmed lines of a bus listing, in order.
pub open spec fn players_in(lines_: Seq<Seq<char>>) -> Seq<Seq<char>>
    decreases lines_.len(),
{
    if lines_.len() == 0 {
        seq![]
    } else {
        let rest = players_in(lines_.drop_last());
        let t = trim(lines_.last());
        if is_player(t) {
            rest.push(t)
        } else {
            rest
        }
    }
}

fn player_of_line(line: &Vec<char>) -> (r: Option<Vec<char>>)
    ensures
        match r {
            Some(t) => is_player(trim(line@)) && t@ == trim(line@),
            None => !is_player(trim(line@)),
        },
{
    let t = trim_chars(line);
    if starts_with_chars(&t, &chars_of("org.mpris.MediaPlayer2.")) {
        Some(t)
    } else {
        None
    }
}

fn strip_cr_vec(l: Vec<char>) -> (r: Vec<char>)
    ensures
        r@ == strip_cr(l@),
{
    let ghost original = l@;
    let mut l = l;
    let n = l.len();
    if n > 0 && l[n - 1] == '\r' {
        l.pop();
        assert(l@ =~= original.drop_last());
    }
    l
}

/// The media players named in a bus listing (one name per line).
pub fn media_players(listing: &str) -> (r: Vec<String>)
    ensures
        r@.len() == players_in(lines(listing@)).len(),
        forall|i: int| 0 <= i < r@.len() ==> (#[trigger] r@[i])@ == players_in(lines(listing@))[i],
{
    let all = collect_lines(listing);
    let mut out: Vec<String> = Vec::new();
    let mut i: usize = 0;
    while i < all.len()
        invariant
            i <= all.len(),
            all@.len() == lines(listing@).len(),
            forall|j: int| 0 <= j < all@.len() ==> (#[trigger] all@[j])@ == lines(listing@)[j],
            out@.len() == players_in(lines(listing@).take(i as int)).len(),
            forall|j: int|
                0 <= j < out@.len() ==> (#[trigger] out@[j])@ == players_in(
                    lines(listing@).take(i as int),
                )[j],
        decreases all.len() - i,
    {
        let ghost pre = lines(listing@).take(i as int);
        proof {
            assert(lines(listing@).take(i + 1).drop_last() =~= pre);
            assert(lines(listing@).take(i + 1).last() == lines(listing@)[i as int]);
        }
        match player_of_line(&all[i]) {
            Some(t) => {
                let ghost before = out@;
                out.push(string_from_chars(&t));
                proof {
                    assert forall|j: int| 0 <= j < out@.len() implies (#[trigger] out@[j])@
                        == players_in(lines(listing@).take(i + 1))[j] by {
                        if j < before.len() {
                            assert(out@[j] == before[j]);
                        }
                    }
                }
            },
            None => {},
        }
        i = i + 1;
    }
    assert(lines(listing@).take(all.len() as int) =~= lines(listing@));
    out
}

/// The lines of a text (`str::lines`).
pub fn collect_lines(text: &str) -> (r: Vec<Vec<char>>)
    ensures
        r@.len() == lines(text@).len(),
        forall|i: int| 0 <= i < r@.len() ==> (#[trigger] r@[i])@ == lines(text@)[i],
{
    let s = chars_of(text);
    let mut out: Vec<Vec<char>> = Vec::new();
    let mut cur: Vec<char> = Vec::new();
    let mut i: usize = 0;
    proof {
        assert(s@.take(0) =~= Seq::<char>::empty());
    }
    while i < s.len()
        invariant
            i <= s.len(),
            s@ == text@,
            cur@ == split_nl(s@.take(i as int)).last(),
            out@.len() == split_nl(s@.take(i as int)).len() - 1,
            forall|j: int|
                0 <= j < out@.len() ==> (#[trigger] out@[j])@ == strip_cr(
                    split_nl(s@.take(i as int))[j],
                ),
        decreases s.len() - i,
    {
        let c = s[i];
        let ghost pre = s@.take(i as int);
        let ghost p = split_nl(pre);
        proof {
            assert(s@.take(i + 1) =~= pre.push(c));
            assert(pre.push(c).drop_last() =~= pre);
            lemma_split_nl_len(pre);
        }
        if c == '\n' {
            let ghost before = out@;
            let mut finished: Vec<char> = Vec::new();
            std::mem::swap(&mut finished, &mut cur);
            out.push(strip_cr_vec(finished));
            proof {
                assert(split_nl(pre.push(c)) == p.push(seq![]));
                assert forall|j: int| 0 <= j < out@.len() implies (#[trigger] out@[j])@
                    == strip_cr(split_nl(pre.push(c))[j]) by {
                    if j < before.len() {
                        assert(out@[j] == before[j]);
                    }
                }
            }
        } else {
            proof {
                assert(split_nl(pre.push(c)) == p.update(p.len() - 1, p.last().push(c)));
            }
            cur.push(c);
        }
        i = i + 1;
    }
    assert(s@.take(s.len() as int) =~= s@);
    proof {
        lemma_split_nl_len(s@);
    }
    if s.len() > 0 && s[s.len() - 1] != '\n' {
        out.push(cur);
    }
    proof {
        if s@.len() > 0 {
            let p = split_nl(s@);
            assert(lines(s@).len() == out@.len());
            assert forall|j: int| 0 <= j < out@.len() implies (#[trigger] out@[j])@ == lines(
                s@,
            )[j] by {
                if j < p.len() - 1 {
                    assert(lines(s@)[j] == strip_cr(p.drop_last()[j]));
                }
            }
        }
    }
    out
}

/// Whether a player reported that it is playing: the query succeeded and
/// its answer mentions `Playing`.
pub open spec fn reports_playing(success: bool, stdout: Seq<char>) -> bool {
    success && contains_seq(stdout, "Playing"@)
}

/// Reads a player's answer to the playback-status query.
pub fn is_playing(success: bool, stdout: &str) -> (r: bool)
    ensures
        r == reports_playing(success, stdout@),
{
    success && contains_chars(&chars_of(stdout), &chars_of("Playing"))
}

// ---------------------------------------------------------------------------
// Sound cues
// ---------------------------------------------------------------------------

/// The two moments a sound marks.
#[derive(Clone, Copy, Debug, PartialEq, Eq, Structural)]
pub enum SoundCue {
    Listening,
    Transcribing,
}

/// How a cue is played.
#[derive(Clone, Copy, Debug, PartialEq, Eq, Structural)]
pub enum SoundRoute {
    /// Sounds are switched off.
    Silent,
    /// The cue's name is appended to the sound log.
    Log,
    /// The configured sound file is played by the system's player.
    CustomFile,
    /// The built-in tone is synthesized.
    Synthesized,
}

impl SoundCue {
    /// The cue's name in logs.
    pub fn label(self) -> (r: &'static str)
        ensures
            r@ == match self {
                SoundCue::Listening => "listening"@,
                SoundCue::Transcribing => "transcribing"@,
            },
    {
        match self {
            SoundCue::Listening => "listening",
            SoundCue::Transcribing => "transcribing",
        }
    }

    /// The setting that names a sound file for the cue.
    pub fn setting(self) -> (r: &'static str)
        ensures
            r@ == match self {
                SoundCue::Listening => "GIGATYPE_START_SOUND"@,
                SoundCue::Transcribing => "GIGATYPE_STOP_SOUND"@,
            },
    {
        match self {
            SoundCue::Listening => "GIGATYPE_START_SOUND",
            SoundCue::Transcribing => "GIGATYPE_STOP_SOUND",
        }
    }

    /// The freedesktop sound used when none is configured.
    pub fn fallback(self) -> (r: &'static str)
        ensures
            r@ == match self {
                SoundCue::Listening => "/usr/share/sounds/freedesktop/stereo/device-added.oga"@,
                SoundCue::Transcribing =>
                    "/usr/share/sounds/freedesktop/stereo/device-removed.oga"@,
            },
    {
        match self {
            SoundCue::Listening => "/usr/share/sounds/freedesktop/stereo/device-added.oga",
            SoundCue::Transcribing => "/usr/share/sounds/freedesktop/stereo/device-removed.oga",
        }
    }
}

/// How a cue is played: not at all when sounds are off; into the log when
/// one is set; a configured sound file when it exists; the built-in tone
/// otherwise.
pub fn sound_route(sounds_off: bool, log_set: bool, custom_set: bool, custom_is_file: bool) -> (r:
    SoundRoute)
    ensures
        r == if sounds_off {
            SoundRoute::Silent
        } else if log_set {
            SoundRoute::Log
        } else if custom_set && custom_is_file {
            SoundRoute::CustomFile
        } else {
            SoundRoute::Synthesized
        },
{
    if sounds_off {
        SoundRoute::Silent
    } else if log_set {
        SoundRoute::Log
    } else if custom_set && custom_is_file {
        SoundRoute::CustomFile
    } else {
        SoundRoute::Synthesized
    }
}

// ---------------------------------------------------------------------------
// The recorder process
// ---------------------------------------------------------------------------

/// The arguments of the external recorder: 16 kHz mono 16-bit, the target
/// microphone when one is preferred, then the output file.
pub open spec fn recorder_args_of(audio_path: Seq<char>, target: Option<Seq<char>>) -> Seq<
    Seq<char>,
> {
    seq!["--rate"@, "16000"@, "--channels"@, "1"@, "--format"@, "s16"@] + match target {
        Some(t) => seq!["--target"@, t],
        None => seq![],
    } + seq![audio_path]
}

fn owned(s: &str) -> (r: String)
    ensures
        r@ == s@,
{
    string_from_chars(&chars_of(s))
}

/// The arguments of the external recorder.
pub fn recorder_args(audio_path: &str, target: Option<&str>) -> (r: Vec<String>)
    ensures
        r@.map_values(|a: String| a@) == recorder_args_of(
            audio_path@,
            match target {
                Some(t) => Some(t@),
                None => None,
            },
        ),
{
    let mut v: Vec<String> = Vec::new();
    v.push(owned("--rate"));
    v.push(owned("16000"));
    v.push(owned("--channels"));
    v.push(owned("1"));
    v.push(owned("--format"));
    v.push(owned("s16"));
    match target {
        Some(t) => {
            v.push(owned("--target"));
            v.push(owned(t));
        },
        None => {},
    }
    v.push(owned(audio_path));
    assert(v@.map_values(|a: String| a@) =~= recorder_args_of(
        audio_path@,
        match target {
            Some(t) => Some(t@),
            None => None,
        },
    ));
    v
}

// ---------------------------------------------------------------------------
// Shortcuts
// ---------------------------------------------------------------------------

/// Whether the desktop portal's global shortcuts are used: under Wayland,
/// unless switched off, and not on KDE (which binds its own) unless forced.
pub fn portal_shortcuts_enabled(
    wayland: bool,
    switched_off: bool,
    desktop: Option<&str>,
    forced: bool,
) -> (r: bool)
    ensures
        r == (wayland && !switched_off && !(match desktop {
            Some(d) => names_kde(d@),
            None => false,
        } && !forced)),
{
    let kde = match desktop {
        Some(d) => mentions_kde(d),
        None => false,
    };
    wayland && !switched_off && !(kde && !forced)
}

/// Whether the native global hotkeys are registered: not when switched off,
/// and not under Wayland, where the portal or the desktop provides them.
pub fn native_shortcuts_enabled(switched_off: bool, linux_wayland: bool) -> (r: bool)
    ensures
        r == (!switched_off && !linux_wayland),
{
    !switched_off && !linux_wayland
}

/// The daemon command for an activated portal shortcut: `toggle` and
/// `cancel` are forwarded, other shortcuts ignored.
pub fn shortcut_command(id: &str) -> (r: Option<&'static str>)
    ensures
        id@ == "toggle"@ ==> (r matches Some(c) && c@ == "toggle"@),
        id@ == "cancel"@ ==> (r matches Some(c) && c@ == "cancel"@),
        id@ != "toggle"@ && id@ != "cancel"@ ==> r is None,
{
    let c = chars_of(id);
    if chars_equal(&c, &chars_of("toggle")) {
        Some("toggle")
    } else if chars_equal(&c, &chars_of("cancel")) {
        Some("cancel")
    } else {
        None
    }
}

/// The daemon command for a native hotkey event: presses of the toggle key
/// toggle, presses of the cancel key cancel, releases do nothing.
pub fn hotkey_command(pressed: bool, id: u32, toggle_id: u32, cancel_id: u32) -> (r: Option<
    &'static str,
>)
    ensures
        !pressed ==> r is None,
        pressed && id == toggle_id ==> (r matches Some(c) && c@ == "toggle"@),
        pressed && id != toggle_id && id == cancel_id ==> (r matches Some(c) && c@ == "cancel"@),
        pressed && id != toggle_id && id != cancel_id ==> r is None,
{
    if !pressed {
        None
    } else if id == toggle_id {
        Some("toggle")
    } else if id == cancel_id {
        Some("cancel")
    } else {
        None
    }
}

// ---------------------------------------------------------------------------
// Typing through the desktop portal
// ---------------------------------------------------------------------------

/// What a paste through the portal asks of the portal session: an error
/// when only probing and the keyboard permission was never granted;
/// otherwise a session that types the chord, or (when probing) types
/// nothing.
pub fn paste(chord: PasteChord, probe_only: bool, permission_granted: bool) -> (r: Result<
    Option<PasteChord>,
    String,
>)
    ensures
        probe_only && !permission_granted ==> (r matches Err(e) && e@
            == "portal input permission has not been granted"@),
        probe_only && permission_granted ==> r == Ok::<Option<PasteChord>, String>(None),
        !probe_only ==> r == Ok::<Option<PasteChord>, String>(Some(chord)),
{
    if probe_only && !permission_granted {
        return Err(owned("portal input permission has not been granted"));
    }
    if probe_only {
        Ok(None)
    } else {
        Ok(Some(chord))
    }
}

/// What the portal's answer to a keyboard request leads to: an error when
/// the keyboard was not among the granted devices, else the restore token
/// to keep for later sessions, if the portal handed one out.
pub fn keyboard_grant(keyboard_granted: bool, restore_token: Option<&str>) -> (r: Result<
    Option<String>,
    String,
>)
    ensures
        !keyboard_granted ==> (r matches Err(e) && e@ == "keyboard access was not granted"@),
        keyboard_granted ==> (r matches Ok(t) && match restore_token {
            Some(token) => t matches Some(s) && s@ == token@,
            None => t is None,
        }),
{
    if !keyboard_granted {
        return Err(owned("keyboard access was not granted"));
    }
    match restore_token {
        Some(token) => Ok(Some(string_from_chars(&chars_of(token)))),
        None => Ok(None),
    }
}

/// The portal's key notifications for a chord: each key code with whether
/// it is pressed (any non-zero value) or released.
pub fn portal_key_events(chord: PasteChord) -> (r: Vec<(i32, bool)>)
    ensures
        r@.len() == chord_events(chord).len(),
        forall|i: int|
            0 <= i < r@.len() ==> (#[trigger] r@[i]).0 == chord_events(chord)[i].0 as i32
                && r@[i].1 == (chord_events(chord)[i].1 != 0),
{
    let events = chord.events();
    let mut out: Vec<(i32, bool)> = Vec::new();
    let mut i: usize = 0;
    while i < events.len()
        invariant
            i <= events.len(),
            events@ == chord_events(chord),
            out@.len() == i,
            forall|j: int|
                0 <= j < i ==> (#[trigger] out@[j]).0 == events@[j].0 as i32 && out@[j].1 == (
                events@[j].1 != 0),
        decreases events.len() - i,
    {
        let (code, value) = events[i];
        out.push((code as i32, value != 0));
        i = i + 1;
    }
    out
}

// ---------------------------------------------------------------------------
// The end of a dictation
// ---------------------------------------------------------------------------

/// The text a dictation inserts: the formatted transcript, or an error when
/// nothing was recognized.
pub fn dictation_text(transcript: &str) -> (r: Result<String, String>)
    ensures
        postprocessed(transcript@).len() > 0 ==> (r matches Ok(t) && t@ == postprocessed(
            transcript@,
        )),
        postprocessed(transcript@).len() == 0 ==> (r matches Err(e) && e@
            == "no speech was recognized"@),
{
    let text = postprocess(transcript);
    let n = chars_of(text.as_str()).len();
    if n == 0 {
        Err(owned("no speech was recognized"))
    } else {
        Ok(text)
    }
}

/// Whether the recording is rejected as silence before transcription: when
/// forced, or when real audio was recorded and holds no speech.
pub fn rejected_as_silence(forced: bool, placeholder_audio: bool, has_speech: bool) -> (r: bool)
    ensures
        r == (forced || (!placeholder_audio && !has_speech)),
{
    forced || (!placeholder_audio && !has_speech)
}

/// Where the audio of a recording comes from.
#[derive(Clone, Copy, Debug, PartialEq, Eq, Structural)]
pub enum RecorderKind {
    /// A placeholder file, for tests of the surrounding flow.
    Fake,
    /// The built-in capture of the input device.
    Native,
    /// An external recorder program.
    Process,
}

/// The recorder a dictation starts: the placeholder when one is asked for,
/// else the built-in capture unless an external recorder is configured.
pub fn recorder_kind(fake_recording: bool, external_recorder: bool) -> (r: RecorderKind)
    ensures
        fake_recording ==> r == RecorderKind::Fake,
        !fake_recording && !external_recorder ==> r == RecorderKind::Native,
        !fake_recording && external_recorder ==> r == RecorderKind::Process,
{
    if fake_recording {
        RecorderKind::Fake
    } else if external_recorder {
        RecorderKind::Process
    } else {
        RecorderKind::Native
    }
}

/// Whether a failed first start is tried again on the system default
/// microphone: only when the first start used a preferred one.
pub fn retry_on_default(preferred_set: bool, first_start_failed: bool) -> (r: bool)
    ensures
        r == (preferred_set && first_start_failed),
{
    preferred_set && first_start_failed
}

/// Whether a started recording may still fall back to the default
/// microphone when its device goes away: only while it records from the
/// preferred one.
pub fn keeps_microphone_fallback(preferred_set: bool, retried_on_default: bool) -> (r: bool)
    ensures
        r == (preferred_set && !retried_on_default),
{
    preferred_set && !retried_on_default
}

} // verus!
