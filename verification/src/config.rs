//! The user settings that the timer and the overlays read, with their
//! defaults and the bounds that every loaded or edited value is held to.
//!
//! The fractional animation settings (size, speeds, probability, movement)
//! are floating-point values and live with the animation in the application.

use vstd::prelude::*;

verus! {

/// Bounds of the work interval, in minutes.
pub const INTERVAL_MINUTES_MIN: u32 = 1;
pub const INTERVAL_MINUTES_MAX: u32 = 120;
/// Bounds of the break duration, in seconds.
pub const DURATION_SECONDS_MIN: u32 = 3;
pub const DURATION_SECONDS_MAX: u32 = 120;
/// Bounds of the number of cockroaches per display.
pub const COCKROACH_COUNT_MIN: u32 = 1;
pub const COCKROACH_COUNT_MAX: u32 = 50;

/// User-configurable settings.
#[derive(Debug, Clone, Copy)]
pub struct Settings {
    pub interval_minutes: u32,
    pub duration_seconds: u32,
    pub cockroach_count: u32,
    pub auto_start: bool,
    pub launch_at_login: bool,
    pub show_notifications: bool,
    pub sound_enabled: bool,
}

/// `v` held to `lo..=hi` (`lo <= hi`), as `u32::clamp` does.
pub open spec fn clamped(v: u32, lo: u32, hi: u32) -> u32 {
    if v < lo {
        lo
    } else if v > hi {
        hi
    } else {
        v
    }
}

/// The default settings.
pub open spec fn default_settings() -> Settings {
    Settings {
        interval_minutes: 25,
        duration_seconds: 15,
        cockroach_count: 10,
        auto_start: true,
        launch_at_login: false,
        show_notifications: true,
        sound_enabled: false,
    }
}

impl Settings {
    /// Every bounded field lies within its bounds.
    pub open spec fn in_bounds(&self) -> bool {
        &&& INTERVAL_MINUTES_MIN <= self.interval_minutes <= INTERVAL_MINUTES_MAX
        &&& DURATION_SECONDS_MIN <= self.duration_seconds <= DURATION_SECONDS_MAX
        &&& COCKROACH_COUNT_MIN <= self.cockroach_count <= COCKROACH_COUNT_MAX
    }

    /// The settings with every bounded field clamped to its bounds.
    pub open spec fn clamped(self) -> Settings {
        Settings {
            interval_minutes: clamped(
                self.interval_minutes,
                INTERVAL_MINUTES_MIN,
                INTERVAL_MINUTES_MAX,
            ),
            duration_seconds: clamped(
                self.duration_seconds,
                DURATION_SECONDS_MIN,
                DURATION_SECONDS_MAX,
            ),
            cockroach_count: clamped(self.cockroach_count, COCKROACH_COUNT_MIN, COCKROACH_COUNT_MAX),
            ..self
        }
    }

    /// Clamp every bounded field to its bounds; the flags are kept.
    pub fn clamp(&mut self)
        ensures
            *final(self) == old(self).clamped(),
    {
        self.interval_minutes = clamp_u32(
            self.interval_minutes,
            INTERVAL_MINUTES_MIN,
            INTERVAL_MINUTES_MAX,
        );
        self.duration_seconds = clamp_u32(
            self.duration_seconds,
            DURATION_SECONDS_MIN,
            DURATION_SECONDS_MAX,
        );
        self.cockroach_count = clamp_u32(
            self.cockroach_count,
            COCKROACH_COUNT_MIN,
            COCKROACH_COUNT_MAX,
        );
    }
}

fn clamp_u32(v: u32, lo: u32, hi: u32) -> (r: u32)
    requires
        lo <= hi,
    ensures
        r == clamped(v, lo, hi),
{
    if v < lo {
        lo
    } else if v > hi {
        hi
    } else {
        v
    }
}

impl Default for Settings {
    fn default() -> (s: Self)
        ensures
            s == default_settings(),
    {
        Settings {
            interval_minutes: 25,
            duration_seconds: 15,
            cockroach_count: 10,
            auto_start: true,
            launch_at_login: false,
            show_notifications: true,
            sound_enabled: false,
        }
    }
}

/// Law: clamping always yields settings within bounds, and leaves the flags alone.
pub proof fn law_clamp_in_bounds(s: Settings)
    ensures
        s.clamped().in_bounds(),
        s.clamped().auto_start == s.auto_start,
        s.clamped().launch_at_login == s.launch_at_login,
        s.clamped().show_notifications == s.show_notifications,
        s.clamped().sound_enabled == s.sound_enabled,
{
}

/// Law: settings within bounds are left unchanged by clamping; in particular
/// clamping twice is the same as clamping once.
pub proof fn law_clamp_keeps_valid(s: Settings)
    ensures
        s.in_bounds() ==> s.clamped() == s,
        s.clamped().clamped() == s.clamped(),
{
}

/// Law: the defaults are within bounds, so clamping leaves them unchanged.
pub proof fn law_default_in_bounds()
    ensures
        default_settings().in_bounds(),
        default_settings().clamped() == default_settings(),
{
}

} // verus!
