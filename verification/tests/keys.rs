use gigatype::clipboard::restore_delay_ms;
use gigatype::keys::{linux_keyboard_route, LinuxKeyboardRoute, PasteChord};

#[test]
fn kde_wayland_uses_uinput_even_when_xwayland_sets_display() {
    assert_eq!(
        linux_keyboard_route(true, true, "KDE", false),
        LinuxKeyboardRoute::Uinput
    );
}

#[test]
fn keyboard_routes_follow_the_display_server() {
    assert_eq!(linux_keyboard_route(true, true, "GNOME", false), LinuxKeyboardRoute::Portal);
    assert_eq!(linux_keyboard_route(true, false, "GNOME", true), LinuxKeyboardRoute::Uinput);
    assert_eq!(linux_keyboard_route(false, true, "KDE", false), LinuxKeyboardRoute::Enigo);
    assert_eq!(linux_keyboard_route(false, false, "", false), LinuxKeyboardRoute::Uinput);
    assert_eq!(linux_keyboard_route(true, false, "plasma:kde", false), LinuxKeyboardRoute::Uinput);
}

#[test]
fn insertion_delay_and_terminal_paste_chord_are_configurable() {
    let chord = PasteChord::from_setting(Some("ctrl+shift+v")).unwrap();
    assert_eq!(chord.name(), "ctrl+shift+v");
    assert_eq!(restore_delay_ms(Some("7")), 7);
}

#[test]
fn paste_chord_defaults_to_ctrl_v_and_ignores_case() {
    assert_eq!(PasteChord::from_setting(None).unwrap(), PasteChord::CtrlV);
    assert_eq!(PasteChord::from_setting(Some("Shift+Insert")).unwrap(), PasteChord::ShiftInsert);
}

#[test]
fn unsupported_paste_chord_is_named_in_the_error() {
    assert_eq!(
        PasteChord::from_setting(Some("Alt+V")).unwrap_err(),
        "unsupported paste keys \"alt+v\"; use ctrl+v, ctrl+shift+v, or shift+insert"
    );
}

#[test]
fn chords_press_then_release_in_reverse() {
    assert_eq!(PasteChord::CtrlV.events(), vec![(29, 1), (47, 1), (47, 0), (29, 0)]);
    assert_eq!(
        PasteChord::CtrlShiftV.events(),
        vec![(29, 1), (42, 1), (47, 1), (47, 0), (42, 0), (29, 0)]
    );
    assert_eq!(PasteChord::ShiftInsert.events(), vec![(42, 1), (110, 1), (110, 0), (42, 0)]);
}
