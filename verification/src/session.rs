//! Noticing that the session stopped being the user's: a suspend and resume
//! of the machine, or a locked screen.
use vstd::prelude::*;
use crate::text::{chars_of, chars_equal, trim, trim_chars};

verus! {

/// A gap between the boot clock and the monotonic clock larger than this is
/// taken for a suspend.
pub const SUSPEND_GAP_NANOS: u128 = 500_000_000;

/// Compares the monotonic clock, which stops while the machine sleeps, with
/// the boot clock, which keeps running.
pub struct SuspendDetector {
    /// The monotonic clock at the last poll, in nanoseconds.
    pub instant_nanos: u128,
    /// The boot clock at the last poll, in nanoseconds.
    pub boottime_nanos: u128,
}

/// `a - b`, or zero when `b` is larger.
pub open spec fn saturating_sub(a: u128, b: u128) -> int {
    if a >= b {
        a - b
    } else {
        0
    }
}

/// Whether the boot clock ran more than the suspend gap ahead of the
/// monotonic clock between two polls.
pub open spec fn slept_between(
    instant_before: u128,
    boottime_before: u128,
    instant_now: u128,
    boottime_now: u128,
) -> bool {
    let awake = saturating_sub(instant_now, instant_before);
    let boot = saturating_sub(boottime_now, boottime_before);
    (if boot >= awake {
        boot - awake
    } else {
        0
    }) > SUSPEND_GAP_NANOS
}

impl SuspendDetector {
    /// A detector whose last poll was at the given clock readings.
    pub fn new(instant_nanos: u128, boottime_nanos: u128) -> (r: Self)
        ensures
            r.instant_nanos == instant_nanos,
            r.boottime_nanos == boottime_nanos,
    {
        SuspendDetector { instant_nanos, boottime_nanos }
    }

    /// Polls the clocks: whether the machine slept since the last poll.
    pub fn resumed(&mut self, instant_now: u128, boottime_now: u128) -> (r: bool)
        ensures
            r == slept_between(
                old(self).instant_nanos,
                old(self).boottime_nanos,
                instant_now,
                boottime_now,
            ),
            final(self).instant_nanos == instant_now,
            final(self).boottime_nanos == boottime_now,
    {
        let awake = if instant_now >= self.instant_nanos {
            instant_now - self.instant_nanos
        } else {
            0
        };
        let boot = if boottime_now >= self.boottime_nanos {
            boottime_now - self.boottime_nanos
        } else {
            0
        };
        self.instant_nanos = instant_now;
        self.boottime_nanos = boottime_now;
        let gap = if boot >= awake {
            boot - awake
        } else {
            0
        };
        gap > SUSPEND_GAP_NANOS
    }
}

/// When both clocks advance together (no more than the suspend gap apart),
/// no suspend is reported.
pub proof fn law_running_clocks_are_not_a_suspend(
    instant_before: u128,
    boottime_before: u128,
    instant_now: u128,
    boottime_now: u128,
)
    requires
        instant_before <= instant_now,
        boottime_before <= boottime_now,
        boottime_now - boottime_before <= instant_now - instant_before + SUSPEND_GAP_NANOS,
    ensures
        !slept_between(instant_before, boottime_before, instant_now, boottime_now),
{
}

/// Whether the screen saver answered that it is active: the query
/// succeeded and printed `true` (surrounding whitespace aside).
pub open spec fn screen_locked(success: bool, stdout: Seq<char>) -> bool {
    success && trim(stdout) == "true"@
}

/// Reads the screen saver's answer to the active query.
pub fn screen_saver_active(success: bool, stdout: &str) -> (r: bool)
    ensures
        r == screen_locked(success, stdout@),
{
    if !success {
        return false;
    }
    let out = trim_chars(&chars_of(stdout));
    chars_equal(&out, &chars_of("true"))
}

} // verus!
