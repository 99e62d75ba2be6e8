//! The key chord that pastes the transcript, and the route by which key
//! presses reach the focused application on Linux.
use vstd::prelude::*;
use crate::text::{ascii_lowercase, ascii_lowercase_chars, chars_equal, chars_of, mentions_kde,
    names_kde, push_all, string_from_chars};

verus! {

/// Linux input event codes of the keys used.
pub const KEY_LEFTCTRL: u16 = 29;
pub const KEY_LEFTSHIFT: u16 = 42;
pub const KEY_V: u16 = 47;
pub const KEY_INSERT: u16 = 110;

/// The chord that pastes the clipboard into the focused application.
#[derive(Clone, Copy, Debug, PartialEq, Eq, Structural)]
pub enum PasteChord {
    CtrlV,
    CtrlShiftV,
    ShiftInsert,
}

/// How key presses reach applications on Linux.
#[derive(Clone, Copy, Debug, PartialEq, Eq, Structural)]
pub enum LinuxKeyboardRoute {
    /// The desktop portal's remote-desktop keyboard.
    Portal,
    /// X11 test events.
    Enigo,
    /// A virtual keyboard created through `/dev/uinput`.
    Uinput,
}

/// The keyboard route: Wayland desktops other than KDE use the portal unless
/// it is disabled, KDE under Wayland and consoles use a virtual keyboard, and
/// X11 uses test events.
pub open spec fn keyboard_route(
    wayland: bool,
    display: bool,
    desktop: Seq<char>,
    no_portal: bool,
) -> LinuxKeyboardRoute {
    if wayland {
        if !no_portal && !names_kde(desktop) {
            LinuxKeyboardRoute::Portal
        } else {
            LinuxKeyboardRoute::Uinput
        }
    } else if display {
        LinuxKeyboardRoute::Enigo
    } else {
        LinuxKeyboardRoute::Uinput
    }
}

/// Chooses how key presses reach applications on Linux.
pub fn linux_keyboard_route(wayland: bool, display: bool, desktop: &str, no_portal: bool) -> (r:
    LinuxKeyboardRoute)
    ensures
        r == keyboard_route(wayland, display, desktop@, no_portal),
{
    if wayland {
        if !no_portal && !mentions_kde(desktop) {
            LinuxKeyboardRoute::Portal
        } else {
            LinuxKeyboardRoute::Uinput
        }
    } else if display {
        LinuxKeyboardRoute::Enigo
    } else {
        LinuxKeyboardRoute::Uinput
    }
}

/// KDE under Wayland always types through the virtual keyboard, even when
/// Xwayland also provides an X11 display.
pub proof fn law_kde_wayland_uses_uinput(display: bool, desktop: Seq<char>, no_portal: bool)
    requires
        names_kde(desktop),
    ensures
        keyboard_route(true, display, desktop, no_portal) == LinuxKeyboardRoute::Uinput,
{
}

/// How `{:?}` writes a string: quoted, with escapes (std's `Debug` for
/// `str`).
pub uninterp spec fn debug_quoted(s: Seq<char>) -> Seq<char>;

/// Formats a string with `{:?}`. The result starts and ends with a double
/// quote; what lies between is left to the name `debug_quoted`.
#[verifier::external_body]
pub(crate) fn debug_string(s: &str) -> (r: String)
    ensures
        r@ == debug_quoted(s@),
        r@.len() >= 2,
        r@[0] == '"',
        r@.last() == '"',
{
    format!("{:?}", s)
}

/// The chord named by a setting, compared ignoring ASCII case.
pub open spec fn chord_named(name: Seq<char>) -> Option<PasteChord> {
    let lower = ascii_lowercase(name);
    if lower == "ctrl+v"@ {
        Some(PasteChord::CtrlV)
    } else if lower == "ctrl+shift+v"@ {
        Some(PasteChord::CtrlShiftV)
    } else if lower == "shift+insert"@ {
        Some(PasteChord::ShiftInsert)
    } else {
        None
    }
}

/// The key events of a chord: `(code, 1)` presses and `(code, 0)` releases,
/// modifiers first and released last.
pub open spec fn chord_events(chord: PasteChord) -> Seq<(u16, i32)> {
    match chord {
        PasteChord::CtrlV => seq![
            (KEY_LEFTCTRL, 1i32),
            (KEY_V, 1i32),
            (KEY_V, 0i32),
            (KEY_LEFTCTRL, 0i32),
        ],
        PasteChord::CtrlShiftV => seq![
            (KEY_LEFTCTRL, 1i32),
            (KEY_LEFTSHIFT, 1i32),
            (KEY_V, 1i32),
            (KEY_V, 0i32),
            (KEY_LEFTSHIFT, 0i32),
            (KEY_LEFTCTRL, 0i32),
        ],
        PasteChord::ShiftInsert => seq![
            (KEY_LEFTSHIFT, 1i32),
            (KEY_INSERT, 1i32),
            (KEY_INSERT, 0i32),
            (KEY_LEFTSHIFT, 0i32),
        ],
    }
}

impl PasteChord {
    /// The chord configured by the paste-keys setting: `ctrl+v` when unset,
    /// otherwise the named chord (ignoring ASCII case), or an error naming
    /// the unsupported value.
    pub fn from_setting(value: Option<&str>) -> (r: Result<Self, String>)
        ensures
            ({
                let name = match value {
                    Some(v) => v@,
                    None => "ctrl+v"@,
                };
                match chord_named(name) {
                    Some(c) => r == Ok::<PasteChord, String>(c),
                    None => r matches Err(e) && e@ == "unsupported paste keys "@ + debug_quoted(
                        ascii_lowercase(name),
                    ) + "; use ctrl+v, ctrl+shift+v, or shift+insert"@,
                }
            }),
    {
        let raw = match value {
            Some(v) => chars_of(v),
            None => chars_of("ctrl+v"),
        };
        let lower = ascii_lowercase_chars(&raw);
        if chars_equal(&lower, &chars_of("ctrl+v")) {
            Ok(PasteChord::CtrlV)
        } else if chars_equal(&lower, &chars_of("ctrl+shift+v")) {
            Ok(PasteChord::CtrlShiftV)
        } else if chars_equal(&lower, &chars_of("shift+insert")) {
            Ok(PasteChord::ShiftInsert)
        } else {
            let lowered = string_from_chars(&lower);
            let quoted = debug_string(lowered.as_str());
            let mut message = chars_of("unsupported paste keys ");
            push_all(&mut message, &chars_of(quoted.as_str()));
            push_all(&mut message, &chars_of("; use ctrl+v, ctrl+shift+v, or shift+insert"));
            Err(string_from_chars(&message))
        }
    }

    /// The chord's name as written in the setting.
    pub fn name(self) -> (r: &'static str)
        ensures
            r@ == match self {
                PasteChord::CtrlV => "ctrl+v"@,
                PasteChord::CtrlShiftV => "ctrl+shift+v"@,
                PasteChord::ShiftInsert => "shift+insert"@,
            },
    {
        match self {
            PasteChord::CtrlV => "ctrl+v",
            PasteChord::CtrlShiftV => "ctrl+shift+v",
            PasteChord::ShiftInsert => "shift+insert",
        }
    }

    /// The key events that type the chord.
    pub fn events(self) -> (r: Vec<(u16, i32)>)
        ensures
            r@ == chord_events(self),
    {
        let mut v: Vec<(u16, i32)> = Vec::new();
        match self {
            PasteChord::CtrlV => {
                v.push((KEY_LEFTCTRL, 1));
                v.push((KEY_V, 1));
                v.push((KEY_V, 0));
                v.push((KEY_LEFTCTRL, 0));
            },
            PasteChord::CtrlShiftV => {
                v.push((KEY_LEFTCTRL, 1));
                v.push((KEY_LEFTSHIFT, 1));
                v.push((KEY_V, 1));
                v.push((KEY_V, 0));
                v.push((KEY_LEFTSHIFT, 0));
                v.push((KEY_LEFTCTRL, 0));
            },
            PasteChord::ShiftInsert => {
                v.push((KEY_LEFTSHIFT, 1));
                v.push((KEY_INSERT, 1));
                v.push((KEY_INSERT, 0));
                v.push((KEY_LEFTSHIFT, 0));
            },
        }
        assert(v@ =~= chord_events(self));
        v
    }
}

/// Every key a chord presses is released again, in reverse order: the
/// events form a press sequence followed by its mirror-image releases.
pub proof fn law_chord_releases_what_it_presses(chord: PasteChord)
    ensures
        chord_events(chord).len() % 2 == 0,
        forall|i: int|
            0 <= i < chord_events(chord).len() / 2 ==> {
                let n = chord_events(chord).len() as int;
                &&& (#[trigger] chord_events(chord)[i]).1 == 1
                &&& chord_events(chord)[n - 1 - i].1 == 0
                &&& chord_events(chord)[n - 1 - i].0 == chord_events(chord)[i].0
            },
{
}

/// Keys of the native keyboard adapter.
#[derive(Clone, Copy, Debug, PartialEq, Eq, Structural)]
pub enum NativeKey {
    Control,
    Meta,
    Shift,
    Insert,
    LetterV,
}

/// What is done with a key.
#[derive(Clone, Copy, Debug, PartialEq, Eq, Structural)]
pub enum KeyAction {
    Press,
    Click,
    Release,
}

/// The keystrokes that type a chord through the native keyboard adapter:
/// the primary modifier is Command on macOS and Control elsewhere, and
/// macOS has no Insert key, so Shift+Insert becomes Command+V there.
pub open spec fn native_strokes(chord: PasteChord, macos: bool) -> Seq<(NativeKey, KeyAction)> {
    let primary = if macos {
        NativeKey::Meta
    } else {
        NativeKey::Control
    };
    match chord {
        PasteChord::CtrlV => seq![
            (primary, KeyAction::Press),
            (NativeKey::LetterV, KeyAction::Click),
            (primary, KeyAction::Release),
        ],
        PasteChord::CtrlShiftV => seq![
            (primary, KeyAction::Press),
            (NativeKey::Shift, KeyAction::Press),
            (NativeKey::LetterV, KeyAction::Click),
            (NativeKey::Shift, KeyAction::Release),
            (primary, KeyAction::Release),
        ],
        PasteChord::ShiftInsert => if macos {
            seq![
                (NativeKey::Meta, KeyAction::Press),
                (NativeKey::LetterV, KeyAction::Click),
                (NativeKey::Meta, KeyAction::Release),
            ]
        } else {
            seq![
                (NativeKey::Shift, KeyAction::Press),
                (NativeKey::Insert, KeyAction::Click),
                (NativeKey::Shift, KeyAction::Release),
            ]
        },
    }
}

/// The keystrokes that type a chord through the native keyboard adapter,
/// to be sent in order until one fails.
pub fn native_key_plan(chord: PasteChord, macos: bool) -> (r: Vec<(NativeKey, KeyAction)>)
    ensures
        r@ == native_strokes(chord, macos),
{
    let primary = if macos {
        NativeKey::Meta
    } else {
        NativeKey::Control
    };
    let mut v: Vec<(NativeKey, KeyAction)> = Vec::new();
    match chord {
        PasteChord::CtrlV => {
            v.push((primary, KeyAction::Press));
            v.push((NativeKey::LetterV, KeyAction::Click));
            v.push((primary, KeyAction::Release));
        },
        PasteChord::CtrlShiftV => {
            v.push((primary, KeyAction::Press));
            v.push((NativeKey::Shift, KeyAction::Press));
            v.push((NativeKey::LetterV, KeyAction::Click));
            v.push((NativeKey::Shift, KeyAction::Release));
            v.push((primary, KeyAction::Release));
        },
        PasteChord::ShiftInsert => {
            if macos {
                v.push((NativeKey::Meta, KeyAction::Press));
                v.push((NativeKey::LetterV, KeyAction::Click));
                v.push((NativeKey::Meta, KeyAction::Release));
            } else {
                v.push((NativeKey::Shift, KeyAction::Press));
                v.push((NativeKey::Insert, KeyAction::Click));
                v.push((NativeKey::Shift, KeyAction::Release));
            }
        },
    }
    assert(v@ =~= native_strokes(chord, macos));
    v
}

/// The keys the virtual keyboard is allowed to send.
pub fn virtual_keyboard_keys() -> (r: Vec<u16>)
    ensures
        r@ == seq![KEY_LEFTCTRL, KEY_LEFTSHIFT, KEY_V, KEY_INSERT],
{
    let mut v: Vec<u16> = Vec::new();
    v.push(KEY_LEFTCTRL);
    v.push(KEY_LEFTSHIFT);
    v.push(KEY_V);
    v.push(KEY_INSERT);
    assert(v@ =~= seq![KEY_LEFTCTRL, KEY_LEFTSHIFT, KEY_V, KEY_INSERT]);
    v
}

/// The virtual keyboard can type every chord: each key a chord presses is
/// one it was set up with.
pub proof fn law_virtual_keyboard_covers_every_chord(chord: PasteChord, i: int)
    requires
        0 <= i < chord_events(chord).len(),
    ensures
        seq![KEY_LEFTCTRL, KEY_LEFTSHIFT, KEY_V, KEY_INSERT].contains(chord_events(chord)[i].0),
{
    let keys = seq![KEY_LEFTCTRL, KEY_LEFTSHIFT, KEY_V, KEY_INSERT];
    assert(keys[0] == KEY_LEFTCTRL && keys[1] == KEY_LEFTSHIFT && keys[2] == KEY_V && keys[3]
        == KEY_INSERT);
}


/// On macOS the native plan pastes with Command: it never presses Control
/// or Insert, starts by pressing Command, ends by releasing it and clicks
/// V; the default chord is exactly Command+V.
pub proof fn law_macos_pastes_with_command(chord: PasteChord)
    ensures
        forall|i: int|
            0 <= i < native_strokes(chord, true).len() ==> (#[trigger] native_strokes(chord, true)[i]).0
                != NativeKey::Control && native_strokes(chord, true)[i].0 != NativeKey::Insert,
        native_strokes(chord, true)[0] == (NativeKey::Meta, KeyAction::Press),
        native_strokes(chord, true).last() == (NativeKey::Meta, KeyAction::Release),
        native_strokes(chord, true).contains((NativeKey::LetterV, KeyAction::Click)),
        native_strokes(PasteChord::CtrlV, true) == seq![
            (NativeKey::Meta, KeyAction::Press),
            (NativeKey::LetterV, KeyAction::Click),
            (NativeKey::Meta, KeyAction::Release),
        ],
{
    let s = native_strokes(chord, true);
    if chord is CtrlShiftV {
        assert(s[2] == (NativeKey::LetterV, KeyAction::Click));
    } else {
        assert(s[1] == (NativeKey::LetterV, KeyAction::Click));
    }
}

/// Elsewhere the native plan never presses Command, and the default chord
/// is exactly Control+V.
pub proof fn law_other_systems_paste_without_command(chord: PasteChord)
    ensures
        forall|i: int|
            0 <= i < native_strokes(chord, false).len() ==> (#[trigger] native_strokes(
                chord,
                false,
            )[i]).0 != NativeKey::Meta,
        native_strokes(PasteChord::CtrlV, false) == seq![
            (NativeKey::Control, KeyAction::Press),
            (NativeKey::LetterV, KeyAction::Click),
            (NativeKey::Control, KeyAction::Release),
        ],
{
}

} // verus!
