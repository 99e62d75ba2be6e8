use gigatype::platform::{Platform, TargetOs};

#[test]
fn platform_report_exposes_every_portable_adapter() {
    let report = Platform::detect(Some("linux-wayland"), TargetOs::Linux, false, false, None).report();
    assert!(report.contains("platform: linux-wayland"));
    assert!(report.contains("audio: cpal"));
    assert!(report.contains("shortcuts: xdg-desktop-portal"));
    assert!(report.contains("insertion: xdg-desktop-portal"));
    assert!(report.contains("autostart: systemd-user"));
}

#[test]
fn kde_wayland_uses_its_own_adapters() {
    let platform = Platform::detect(None, TargetOs::Linux, true, true, Some("KDE"));
    assert_eq!(platform.name, "linux-wayland");
    assert_eq!(platform.shortcuts, "kde-globalaccel");
    assert_eq!(platform.insertion, "linux-uinput");
}

#[test]
fn platform_follows_the_display_server_and_system() {
    assert_eq!(Platform::detect(None, TargetOs::Linux, false, true, None), Platform::linux_x11());
    assert_eq!(Platform::detect(None, TargetOs::Linux, false, false, None), Platform::generic_unix());
    assert_eq!(Platform::detect(None, TargetOs::MacOs, true, true, None), Platform::macos());
    assert_eq!(Platform::detect(None, TargetOs::Bsd, false, true, None), Platform::bsd());
    assert_eq!(Platform::detect(Some("haiku"), TargetOs::Linux, true, true, None), Platform::generic_unix());
}

#[test]
fn report_lists_every_adapter_in_order() {
    assert_eq!(
        Platform::macos().report(),
        "platform: macos\naudio: cpal\nshortcuts: macos-event-tap\ninsertion: macos-cgevent\nautostart: launchd\n"
    );
}

#[test]
fn every_platform_records_through_cpal() {
    let forced = [None, Some("linux-wayland"), Some("linux-x11"), Some("macos"), Some("bsd"), Some("beos")];
    let systems = [TargetOs::Linux, TargetOs::MacOs, TargetOs::Bsd, TargetOs::Other];
    for name in forced {
        for os in systems {
            for (wayland, display) in [(false, false), (true, false), (false, true), (true, true)] {
                for desktop in [None, Some("KDE"), Some("GNOME")] {
                    assert_eq!(Platform::detect(name, os, wayland, display, desktop).audio, "cpal");
                }
            }
        }
    }
}
