//! Which desktop adapters serve the platform the program runs on.
use vstd::prelude::*;
use crate::text::{chars_of, mentions_kde, names_kde, push_all, string_from_chars};

verus! {

/// The operating system the program was built for.
#[derive(Clone, Copy, Debug, PartialEq, Eq, Structural)]
pub enum TargetOs {
    Linux,
    MacOs,
    Bsd,
    Other,
}

/// The adapters used for each part of the program on one platform.
#[derive(Debug, Clone, PartialEq, Eq)]
pub struct Platform {
    pub name: &'static str,
    pub audio: &'static str,
    pub shortcuts: &'static str,
    pub insertion: &'static str,
    pub autostart: &'static str,
}

/// A platform given by the views of its five adapter names.
pub open spec fn is_platform(
    p: Platform,
    name: Seq<char>,
    audio: Seq<char>,
    shortcuts: Seq<char>,
    insertion: Seq<char>,
    autostart: Seq<char>,
) -> bool {
    &&& p.name@ == name
    &&& p.audio@ == audio
    &&& p.shortcuts@ == shortcuts
    &&& p.insertion@ == insertion
    &&& p.autostart@ == autostart
}

/// Linux under Wayland: KDE takes its own global shortcuts and virtual
/// keyboard, other desktops the desktop portal.
pub open spec fn is_linux_wayland(p: Platform, kde: bool) -> bool {
    is_platform(
        p,
        "linux-wayland"@,
        "cpal"@,
        if kde {
            "kde-globalaccel"@
        } else {
            "xdg-desktop-portal"@
        },
        if kde {
            "linux-uinput"@
        } else {
            "xdg-desktop-portal"@
        },
        "systemd-user"@,
    )
}

pub open spec fn is_linux_x11(p: Platform) -> bool {
    is_platform(p, "linux-x11"@, "cpal"@, "x11-grab-key"@, "x11-xtest"@, "systemd-user"@)
}

pub open spec fn is_macos(p: Platform) -> bool {
    is_platform(p, "macos"@, "cpal"@, "macos-event-tap"@, "macos-cgevent"@, "launchd"@)
}

pub open spec fn is_bsd(p: Platform) -> bool {
    is_platform(p, "bsd"@, "cpal"@, "x11-grab-key"@, "x11-xtest"@, "xdg-autostart"@)
}

pub open spec fn is_generic_unix(p: Platform) -> bool {
    is_platform(p, "unix"@, "cpal"@, "desktop-adapter"@, "clipboard"@, "xdg-autostart"@)
}

/// Whether the desktop (the value of `XDG_CURRENT_DESKTOP`, if set) is KDE.
pub open spec fn desktop_is_kde(desktop: Option<Seq<char>>) -> bool {
    match desktop {
        Some(d) => names_kde(d),
        None => false,
    }
}

/// The view of an optional text.
pub open spec fn opt_view(s: Option<&str>) -> Option<Seq<char>> {
    match s {
        Some(v) => Some(v@),
        None => None,
    }
}

/// The platform chosen for a forced name (if any), the operating system,
/// whether a Wayland or an X11 display is running and whether the desktop
/// is KDE: a forced name wins (an unknown one gives the generic Unix
/// adapters); otherwise the operating system and, on Linux, the display
/// server decide.
pub open spec fn detected(
    forced: Option<Seq<char>>,
    os: TargetOs,
    wayland: bool,
    display: bool,
    kde: bool,
    p: Platform,
) -> bool {
    match forced {
        Some(f) => if f == "linux-wayland"@ {
            is_linux_wayland(p, kde)
        } else if f == "linux-x11"@ {
            is_linux_x11(p)
        } else if f == "macos"@ {
            is_macos(p)
        } else if f == "bsd"@ {
            is_bsd(p)
        } else {
            is_generic_unix(p)
        },
        None => match os {
            TargetOs::MacOs => is_macos(p),
            TargetOs::Bsd => is_bsd(p),
            TargetOs::Linux => if wayland {
                is_linux_wayland(p, kde)
            } else if display {
                is_linux_x11(p)
            } else {
                is_generic_unix(p)
            },
            TargetOs::Other => is_generic_unix(p),
        },
    }
}

/// Whatever the platform, audio is captured through cpal.
pub proof fn law_every_platform_records_through_cpal(
    forced: Option<Seq<char>>,
    os: TargetOs,
    wayland: bool,
    display: bool,
    kde: bool,
    p: Platform,
)
    requires
        detected(forced, os, wayland, display, kde, p),
    ensures
        p.audio@ == "cpal"@,
{
}

impl Platform {
    /// The platform to use: a named platform when one is forced (an unknown
    /// name gives the generic Unix adapters), otherwise by the operating
    /// system and, on Linux, by the display server that is running.
    pub fn detect(
        forced: Option<&str>,
        os: TargetOs,
        wayland: bool,
        display: bool,
        desktop: Option<&str>,
    ) -> (r: Self)
        ensures
            detected(opt_view(forced), os, wayland, display, desktop_is_kde(opt_view(desktop)), r),
    {
        match forced {
            Some(f) => {
                let name = chars_of(f);
                if crate::text::chars_equal(&name, &chars_of("linux-wayland")) {
                    Self::linux_wayland(desktop)
                } else if crate::text::chars_equal(&name, &chars_of("linux-x11")) {
                    Self::linux_x11()
                } else if crate::text::chars_equal(&name, &chars_of("macos")) {
                    Self::macos()
                } else if crate::text::chars_equal(&name, &chars_of("bsd")) {
                    Self::bsd()
                } else {
                    Self::generic_unix()
                }
            },
            None => match os {
                TargetOs::MacOs => Self::macos(),
                TargetOs::Bsd => Self::bsd(),
                TargetOs::Linux => {
                    if wayland {
                        Self::linux_wayland(desktop)
                    } else if display {
                        Self::linux_x11()
                    } else {
                        Self::generic_unix()
                    }
                },
                TargetOs::Other => Self::generic_unix(),
            },
        }
    }

    /// Linux under Wayland, on the given desktop.
    pub fn linux_wayland(desktop: Option<&str>) -> (r: Self)
        ensures
            is_linux_wayland(r, desktop_is_kde(opt_view(desktop))),
    {
        let kde = match desktop {
            Some(d) => mentions_kde(d),
            None => false,
        };
        Platform {
            name: "linux-wayland",
            audio: "cpal",
            shortcuts: if kde {
                "kde-globalaccel"
            } else {
                "xdg-desktop-portal"
            },
            insertion: if kde {
                "linux-uinput"
            } else {
                "xdg-desktop-portal"
            },
            autostart: "systemd-user",
        }
    }

    /// Linux under X11.
    pub fn linux_x11() -> (r: Self)
        ensures
            is_linux_x11(r),
    {
        Platform {
            name: "linux-x11",
            audio: "cpal",
            shortcuts: "x11-grab-key",
            insertion: "x11-xtest",
            autostart: "systemd-user",
        }
    }

    /// macOS.
    pub fn macos() -> (r: Self)
        ensures
            is_macos(r),
    {
        Platform {
            name: "macos",
            audio: "cpal",
            shortcuts: "macos-event-tap",
            insertion: "macos-cgevent",
            autostart: "launchd",
        }
    }

    /// The BSDs.
    pub fn bsd() -> (r: Self)
        ensures
            is_bsd(r),
    {
        Platform {
            name: "bsd",
            audio: "cpal",
            shortcuts: "x11-grab-key",
            insertion: "x11-xtest",
            autostart: "xdg-autostart",
        }
    }

    /// Any other Unix.
    pub fn generic_unix() -> (r: Self)
        ensures
            is_generic_unix(r),
    {
        Platform {
            name: "unix",
            audio: "cpal",
            shortcuts: "desktop-adapter",
            insertion: "clipboard",
            autostart: "xdg-autostart",
        }
    }

    /// The report printed by `gigatype platform`: one `key: adapter` line per
    /// part.
    pub open spec fn report_text(&self) -> Seq<char> {
        "platform: "@ + self.name@ + "\naudio: "@ + self.audio@ + "\nshortcuts: "@
            + self.shortcuts@ + "\ninsertion: "@ + self.insertion@ + "\nautostart: "@
            + self.autostart@ + "\n"@
    }

    /// The report printed by `gigatype platform`.
    pub fn report(&self) -> (r: String)
        ensures
            r@ == self.report_text(),
    {
        let mut out = chars_of("platform: ");
        push_all(&mut out, &chars_of(self.name));
        push_all(&mut out, &chars_of("\naudio: "));
        push_all(&mut out, &chars_of(self.audio));
        push_all(&mut out, &chars_of("\nshortcuts: "));
        push_all(&mut out, &chars_of(self.shortcuts));
        push_all(&mut out, &chars_of("\ninsertion: "));
        push_all(&mut out, &chars_of(self.insertion));
        push_all(&mut out, &chars_of("\nautostart: "));
        push_all(&mut out, &chars_of(self.autostart));
        push_all(&mut out, &chars_of("\n"));
        string_from_chars(&out)
    }
}

} // verus!
