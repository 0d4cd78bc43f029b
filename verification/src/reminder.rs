//! The decisions of the application: what each event (a timer tick, a tray
//! command, a settings edit, the animation frames becoming ready) does to the
//! settings, the timer and the pending break, and which effects the
//! application has to carry out in response, in order.

use crate::config::Settings;
use crate::overlay_manager::{
    has_active, hidden_overlays, synced_overlays, windows_to_open, Overlay, OverlayManager,
};
use crate::timer::{can_tick, in_break, started, ticked, with_phase, Phase, Timer, Transition};
use vstd::prelude::*;

verus! {

/// Something that happened, as reported by the application.
#[derive(Debug, Clone, Copy, PartialEq, Eq, Structural)]
pub enum Event {
    /// One second elapsed.
    Tick,
    /// The animation frames have been decoded.
    FramesLoaded,
    /// Pause a running timer, resume a paused one, start a stopped one.
    TogglePause,
    /// Start a break now.
    TestBreak,
    /// Open (or focus) the settings window.
    OpenSettings,
    /// Quit the application.
    Quit,
    IntervalChanged(u32),
    DurationChanged(u32),
    CountChanged(u32),
    AutoStartToggled(bool),
    LaunchAtLoginToggled(bool),
    ShowNotificationsToggled(bool),
}

/// Something the application has to do.
#[derive(Debug, Clone, Copy, PartialEq, Eq, Structural)]
pub enum Effect {
    /// Show the "break time" system notification.
    Notify,
    /// Show the overlays on every display: sync them, active, with
    /// `settings.cockroach_count` cockroaches each.
    ShowOverlays,
    /// Hide every overlay (`close_overlays_at`).
    HideOverlays,
    /// Keep the overlay windows ready (`maintain_overlays`).
    MaintainOverlays,
    /// Persist the settings.
    SaveSettings,
    /// Refresh the tray texts.
    RefreshTray,
    /// Open or focus the settings window.
    OpenSettingsWindow,
    /// Stop the application.
    Exit,
}

/// The state the decisions are made on.
pub struct Reminder<W> {
    pub settings: Settings,
    pub timer: Timer,
    pub overlays: OverlayManager<W>,
    /// The animation frames have been decoded.
    pub frames_ready: bool,
}

/// The part of a [`Reminder`] that its decisions read and change.
pub struct ReminderState {
    pub settings: Settings,
    pub timer: Timer,
    pub pending_break: bool,
    pub frames_ready: bool,
}

impl<W> Reminder<W> {
    pub open spec fn state(&self) -> ReminderState {
        ReminderState {
            settings: self.settings,
            timer: self.timer,
            pending_break: self.overlays.pending_break,
            frames_ready: self.frames_ready,
        }
    }
}

/// The state with the pending flag replaced.
pub open spec fn with_pending(s: ReminderState, pending_break: bool) -> ReminderState {
    ReminderState { pending_break, ..s }
}

/// Showing a break: when the frames are ready, notify (if enabled) and show
/// the overlays; otherwise the break becomes pending.
pub open spec fn spawn(s: ReminderState) -> (ReminderState, Seq<Effect>) {
    if s.frames_ready {
        (
            with_pending(s, false),
            if s.settings.show_notifications {
                seq![Effect::Notify, Effect::ShowOverlays]
            } else {
                seq![Effect::ShowOverlays]
            },
        )
    } else {
        (with_pending(s, true), Seq::empty())
    }
}

/// The state with new settings, clamped to their bounds.
pub open spec fn with_settings(s: ReminderState, settings: Settings) -> ReminderState {
    ReminderState { settings: settings.clamped(), ..s }
}

/// A settings edit that the timer does not follow: clamp, save, refresh.
pub open spec fn edited(s: ReminderState, settings: Settings) -> (ReminderState, Seq<Effect>) {
    (with_settings(s, settings), seq![Effect::SaveSettings, Effect::RefreshTray])
}

/// The timer after the pause/resume command.
pub open spec fn toggled(t: Timer) -> Timer {
    match t.phase {
        Phase::Running => with_phase(t, Phase::Paused),
        Phase::Paused => with_phase(t, Phase::Running),
        Phase::Idle => started(t),
        Phase::Break => t,
    }
}

/// The timer after a change of its interval.
pub open spec fn with_interval(t: Timer, minutes: u32) -> Timer {
    if t.phase == Phase::Running {
        started(Timer { interval_minutes: minutes, ..t })
    } else {
        Timer { interval_minutes: minutes, ..t }
    }
}

/// The decision for `e` in state `s`: the next state and the effects to
/// carry out, in order.
pub open spec fn next(s: ReminderState, e: Event) -> (ReminderState, Seq<Effect>) {
    match e {
        Event::Tick => {
            let (t, transition) = ticked(s.timer);
            let s1 = ReminderState { timer: t, ..s };
            let (s2, effects) = match transition {
                Some(Transition::EnteredBreak) => spawn(s1),
                Some(Transition::EnteredRunning) => (s1, seq![Effect::HideOverlays]),
                None => (s1, Seq::empty()),
            };
            (s2, effects + seq![Effect::MaintainOverlays, Effect::RefreshTray])
        },
        Event::FramesLoaded => {
            let s1 = ReminderState { frames_ready: true, ..s };
            if s.pending_break && s.timer.phase == Phase::Break {
                let (s2, effects) = spawn(s1);
                (s2, effects.push(Effect::RefreshTray))
            } else {
                (s1, Seq::empty())
            }
        },
        Event::TogglePause => (
            ReminderState { timer: toggled(s.timer), ..s },
            seq![Effect::RefreshTray],
        ),
        Event::TestBreak => {
            let (s1, effects) = spawn(ReminderState { timer: in_break(s.timer), ..s });
            (s1, effects.push(Effect::RefreshTray))
        },
        Event::OpenSettings => (s, seq![Effect::OpenSettingsWindow]),
        Event::Quit => (
            ReminderState { timer: Timer { phase: Phase::Idle, remaining_ms: 0, ..s.timer }, ..s },
            seq![Effect::Exit],
        ),
        Event::IntervalChanged(v) => {
            let s1 = with_settings(s, Settings { interval_minutes: v, ..s.settings });
            (
                ReminderState {
                    timer: with_interval(s.timer, s1.settings.interval_minutes),
                    ..s1
                },
                seq![Effect::SaveSettings, Effect::RefreshTray],
            )
        },
        Event::DurationChanged(v) => {
            let s1 = with_settings(s, Settings { duration_seconds: v, ..s.settings });
            (
                ReminderState {
                    timer: Timer { duration_seconds: s1.settings.duration_seconds, ..s.timer },
                    ..s1
                },
                seq![Effect::SaveSettings, Effect::RefreshTray],
            )
        },
        Event::CountChanged(v) => edited(s, Settings { cockroach_count: v, ..s.settings }),
        Event::AutoStartToggled(v) => edited(s, Settings { auto_start: v, ..s.settings }),
        Event::LaunchAtLoginToggled(v) => edited(s, Settings { launch_at_login: v, ..s.settings }),
        Event::ShowNotificationsToggled(v) => edited(
            s,
            Settings { show_notifications: v, ..s.settings },
        ),
    }
}

/// The state at launch with the loaded `settings`: the timer follows the
/// settings and runs right away when `auto_start` is set.
pub open spec fn launched(settings: Settings) -> ReminderState {
    let t = Timer {
        phase: Phase::Idle,
        remaining_ms: 0,
        interval_minutes: settings.interval_minutes,
        duration_seconds: settings.duration_seconds,
    };
    ReminderState {
        settings,
        timer: if settings.auto_start {
            started(t)
        } else {
            t
        },
        pending_break: false,
        frames_ready: false,
    }
}

impl<W: Copy> Reminder<W> {
    /// The state at launch with the loaded `settings`.
    pub fn new(settings: Settings) -> (r: Self)
        ensures
            r.state() == launched(settings),
            r.overlays.overlays@.len() == 0,
    {
        let mut timer = Timer::new(settings.interval_minutes, settings.duration_seconds);
        if settings.auto_start {
            timer.start();
        }
        Reminder { settings, timer, overlays: OverlayManager::new(), frames_ready: false }
    }

    fn spawn_overlays(&mut self) -> (effects: Vec<Effect>)
        ensures
            (final(self).state(), effects@) == spawn(old(self).state()),
            final(self).overlays.overlays@ == old(self).overlays.overlays@,
            final(self).settings == old(self).settings,
    {
        let mut effects: Vec<Effect> = Vec::new();
        if self.overlays.spawn_overlays(self.frames_ready) {
            if self.settings.show_notifications {
                effects.push(Effect::Notify);
            }
            effects.push(Effect::ShowOverlays);
        }
        proof {
            if self.frames_ready && old(self).settings.show_notifications {
                assert(effects@ =~= seq![Effect::Notify, Effect::ShowOverlays]);
            } else if self.frames_ready {
                assert(effects@ =~= seq![Effect::ShowOverlays]);
            } else {
                assert(effects@ =~= Seq::<Effect>::empty());
            }
        }
        effects
    }

    fn persist(&mut self) -> (effects: Vec<Effect>)
        ensures
            final(self).state() == with_settings(old(self).state(), old(self).settings),
            final(self).overlays.overlays@ == old(self).overlays.overlays@,
            effects@ == seq![Effect::SaveSettings, Effect::RefreshTray],
    {
        self.settings.clamp();
        let mut effects: Vec<Effect> = Vec::new();
        effects.push(Effect::SaveSettings);
        effects.push(Effect::RefreshTray);
        proof {
            assert(effects@ =~= seq![Effect::SaveSettings, Effect::RefreshTray]);
        }
        effects
    }

    /// Decide what `event` does. The state changes as [`next`] says and the
    /// returned effects are to be carried out in order. Only the pending flag
    /// of the overlays may change; the overlays themselves are changed by the
    /// effects.
    pub fn handle(&mut self, event: Event) -> (effects: Vec<Effect>)
        requires
            event == Event::Tick ==> can_tick(old(self).timer),
        ensures
            (final(self).state(), effects@) == next(old(self).state(), event),
            final(self).overlays.overlays@ == old(self).overlays.overlays@,
    {
        match event {
            Event::Tick => {
                let transition = self.timer.tick();
                let mut effects = match transition {
                    Some(Transition::EnteredBreak) => self.spawn_overlays(),
                    Some(Transition::EnteredRunning) => {
                        let mut e: Vec<Effect> = Vec::new();
                        e.push(Effect::HideOverlays);
                        e
                    },
                    None => Vec::new(),
                };
                let ghost before = effects@;
                effects.push(Effect::MaintainOverlays);
                effects.push(Effect::RefreshTray);
                proof {
                    assert(effects@ =~= before + seq![Effect::MaintainOverlays, Effect::RefreshTray]);
                    if transition == Some(Transition::EnteredRunning) {
                        assert(before =~= seq![Effect::HideOverlays]);
                    }
                }
                effects
            },
            Event::FramesLoaded => {
                self.frames_ready = true;
                if self.overlays.pending_break && self.timer.phase == Phase::Break {
                    self.overlays.pending_break = false;
                    let mut effects = self.spawn_overlays();
                    effects.push(Effect::RefreshTray);
                    effects
                } else {
                    Vec::new()
                }
            },
            Event::TogglePause => {
                match self.timer.phase {
                    Phase::Running => self.timer.pause(),
                    Phase::Paused => self.timer.resume(),
                    Phase::Idle => self.timer.start(),
                    Phase::Break => {},
                }
                let mut effects: Vec<Effect> = Vec::new();
                effects.push(Effect::RefreshTray);
                proof {
                    assert(effects@ =~= seq![Effect::RefreshTray]);
                }
                effects
            },
            Event::TestBreak => {
                self.timer.trigger_break();
                let mut effects = self.spawn_overlays();
                effects.push(Effect::RefreshTray);
                effects
            },
            Event::OpenSettings => {
                let mut effects: Vec<Effect> = Vec::new();
                effects.push(Effect::OpenSettingsWindow);
                proof {
                    assert(effects@ =~= seq![Effect::OpenSettingsWindow]);
                }
                effects
            },
            Event::Quit => {
                self.timer.stop();
                let mut effects: Vec<Effect> = Vec::new();
                effects.push(Effect::Exit);
                proof {
                    assert(effects@ =~= seq![Effect::Exit]);
                }
                effects
            },
            Event::IntervalChanged(v) => {
                self.settings.interval_minutes = v;
                self.settings.clamp();
                self.timer.update_interval(self.settings.interval_minutes);
                let mut effects: Vec<Effect> = Vec::new();
                effects.push(Effect::SaveSettings);
                effects.push(Effect::RefreshTray);
                proof {
                    assert(effects@ =~= seq![Effect::SaveSettings, Effect::RefreshTray]);
                }
                effects
            },
            Event::DurationChanged(v) => {
                self.settings.duration_seconds = v;
                self.settings.clamp();
                self.timer.update_duration(self.settings.duration_seconds);
                let mut effects: Vec<Effect> = Vec::new();
                effects.push(Effect::SaveSettings);
                effects.push(Effect::RefreshTray);
                proof {
                    assert(effects@ =~= seq![Effect::SaveSettings, Effect::RefreshTray]);
                }
                effects
            },
            Event::CountChanged(v) => {
                self.settings.cockroach_count = v;
                self.persist()
            },
            Event::AutoStartToggled(v) => {
                self.settings.auto_start = v;
                self.persist()
            },
            Event::LaunchAtLoginToggled(v) => {
                self.settings.launch_at_login = v;
                self.persist()
            },
            Event::ShowNotificationsToggled(v) => {
                self.settings.show_notifications = v;
                self.persist()
            },
        }
    }
}

/// The state is consistent: the settings are within bounds, the timer uses
/// the interval and duration of the settings, and the remaining time is not
/// negative (so a tick can always be taken).
pub open spec fn consistent(s: ReminderState) -> bool {
    &&& s.settings.in_bounds()
    &&& s.timer.interval_minutes == s.settings.interval_minutes
    &&& s.timer.duration_seconds == s.settings.duration_seconds
    &&& s.timer.remaining_ms >= 0
}

/// Law: the application starts consistent with settings that are within
/// bounds (as loaded settings are, once clamped), and every event keeps it
/// consistent: settings edits are clamped, the timer follows the interval and
/// duration of the settings, and the remaining time never goes negative, so
/// every tick can be taken.
pub proof fn law_events_keep_state_consistent(settings: Settings, s: ReminderState, e: Event)
    ensures
        settings.in_bounds() ==> consistent(launched(settings)),
        consistent(s) ==> can_tick(s.timer) && consistent(next(s, e).0),
{
}

/// Law: a break that begins before the animation frames are ready is not
/// lost. It is remembered as pending, and as soon as the frames are loaded
/// the overlays are shown, with the break still running.
pub proof fn law_pending_break_shown_once_frames_load(s: ReminderState)
    requires
        !s.frames_ready,
    ensures
        ({
            let (s1, e1) = next(s, Event::TestBreak);
            let (s2, e2) = next(s1, Event::FramesLoaded);
            &&& s1.pending_break && s1.timer.phase == Phase::Break
            &&& !e1.contains(Effect::ShowOverlays)
            &&& !s2.pending_break && s2.frames_ready && s2.timer == s1.timer
            &&& e2.contains(Effect::ShowOverlays)
        }),
{
    let (s1, e1) = next(s, Event::TestBreak);
    let (s2, e2) = next(s1, Event::FramesLoaded);
    assert(e1 =~= seq![Effect::RefreshTray]);
    if s.settings.show_notifications {
        assert(e2[1] == Effect::ShowOverlays);
    } else {
        assert(e2[0] == Effect::ShowOverlays);
    }
}

/// Law: when the frames are ready, a break shows the overlays right away
/// (after the notification, when notifications are enabled), and the end of
/// a break hides them.
pub proof fn law_breaks_show_and_hide_overlays(s: ReminderState)
    requires
        s.frames_ready,
        can_tick(s.timer),
    ensures
        next(s, Event::TestBreak).1 == if s.settings.show_notifications {
            seq![Effect::Notify, Effect::ShowOverlays, Effect::RefreshTray]
        } else {
            seq![Effect::ShowOverlays, Effect::RefreshTray]
        },
        ticked(s.timer).1 == Some(Transition::EnteredBreak) ==> next(s, Event::Tick).1.contains(
            Effect::ShowOverlays,
        ),
        ticked(s.timer).1 == Some(Transition::EnteredRunning) ==> next(s, Event::Tick).1 == seq![
            Effect::HideOverlays,
            Effect::MaintainOverlays,
            Effect::RefreshTray,
        ],
{
    if ticked(s.timer).1 == Some(Transition::EnteredBreak) {
        let e = next(s, Event::Tick).1;
        if s.settings.show_notifications {
            assert(e[1] == Effect::ShowOverlays);
        } else {
            assert(e[0] == Effect::ShowOverlays);
        }
    }
}

/// Law: quitting always stops the timer and exits, whatever the state.
pub proof fn law_quit_stops_and_exits(s: ReminderState)
    ensures
        next(s, Event::Quit).0.timer.phase == Phase::Idle,
        next(s, Event::Quit).0.timer.remaining_ms == 0,
        next(s, Event::Quit).1 == seq![Effect::Exit],
{
}

/// Law: carried out on the overlays, the effects of a tick do what a tick
/// does to the break on screen. When the tick starts a break and the frames
/// are ready, the overlays are shown, and showing them on `n >= 1` displays
/// leaves every display's overlay active with the configured number of
/// cockroaches; when the frames are not ready, the break is pending and
/// nothing is shown. When the tick ends a break, the overlays are hidden,
/// and hiding leaves none active and none with cockroaches.
pub proof fn law_tick_effects_on_overlays<W>(
    s: ReminderState,
    overlays: Seq<Overlay<W>>,
    n: nat,
    opened: Seq<W>,
    now: u64,
)
    requires
        can_tick(s.timer),
        opened.len() == windows_to_open(overlays, n),
        n >= 1,
    ensures
        ({
            let (s1, effects) = next(s, Event::Tick);
            let shown = synced_overlays(
                overlays,
                n,
                opened,
                s.settings.cockroach_count,
                true,
                now,
            );
            let hidden = hidden_overlays(overlays, now);
            &&& ticked(s.timer).1 == Some(Transition::EnteredBreak) && s.frames_ready ==> {
                &&& effects.contains(Effect::ShowOverlays)
                &&& !s1.pending_break
                &&& has_active(shown)
                &&& forall|i: int| 0 <= i < n ==> (#[trigger] shown[i]).active
                    && shown[i].cockroach_count == s.settings.cockroach_count
            }
            &&& ticked(s.timer).1 == Some(Transition::EnteredBreak) && !s.frames_ready ==> {
                &&& s1.pending_break
                &&& !effects.contains(Effect::ShowOverlays)
            }
            &&& ticked(s.timer).1 == Some(Transition::EnteredRunning) ==> {
                &&& effects[0] == Effect::HideOverlays
                &&& !has_active(hidden)
                &&& forall|i: int| 0 <= i < hidden.len() ==> (#[trigger] hidden[i]).cockroach_count
                    == 0
            }
        }),
{
    let (s1, effects) = next(s, Event::Tick);
    let shown = synced_overlays(overlays, n, opened, s.settings.cockroach_count, true, now);
    assert(shown[0].active);
    if ticked(s.timer).1 == Some(Transition::EnteredBreak) {
        if s.frames_ready {
            if s.settings.show_notifications {
                assert(effects[1] == Effect::ShowOverlays);
            } else {
                assert(effects[0] == Effect::ShowOverlays);
            }
        } else {
            assert(effects =~= seq![Effect::MaintainOverlays, Effect::RefreshTray]);
        }
    }
}

/// Law: when the frames load during a pending break, the overlays are shown,
/// and showing them on `n >= 1` displays leaves every display's overlay
/// active with the configured number of cockroaches; otherwise loading the
/// frames changes neither the pending flag nor the timer and has no effect.
pub proof fn law_frames_loaded_effects_on_overlays<W>(
    s: ReminderState,
    overlays: Seq<Overlay<W>>,
    n: nat,
    opened: Seq<W>,
    now: u64,
)
    requires
        opened.len() == windows_to_open(overlays, n),
        n >= 1,
    ensures
        ({
            let (s1, effects) = next(s, Event::FramesLoaded);
            let shown = synced_overlays(
                overlays,
                n,
                opened,
                s.settings.cockroach_count,
                true,
                now,
            );
            &&& s1.frames_ready && s1.timer == s.timer && s1.settings == s.settings
            &&& s.pending_break && s.timer.phase == Phase::Break ==> {
                &&& !s1.pending_break
                &&& effects.contains(Effect::ShowOverlays)
                &&& has_active(shown)
                &&& forall|i: int| 0 <= i < n ==> (#[trigger] shown[i]).active
                    && shown[i].cockroach_count == s.settings.cockroach_count
            }
            &&& !(s.pending_break && s.timer.phase == Phase::Break) ==> {
                &&& s1.pending_break == s.pending_break
                &&& effects == Seq::<Effect>::empty()
            }
        }),
{
    let (s1, effects) = next(s, Event::FramesLoaded);
    let shown = synced_overlays(overlays, n, opened, s.settings.cockroach_count, true, now);
    assert(shown[0].active);
    if s.pending_break && s.timer.phase == Phase::Break {
        if s.settings.show_notifications {
            assert(effects[1] == Effect::ShowOverlays);
        } else {
            assert(effects[0] == Effect::ShowOverlays);
        }
    }
}

/// Law: prewarming (a sync with every overlay hidden) leaves no overlay
/// active, none with cockroaches, and every one hidden since `now`.
pub proof fn law_prewarm_leaves_overlays_hidden<W>(
    overlays: Seq<Overlay<W>>,
    n: nat,
    opened: Seq<W>,
    count: u32,
    now: u64,
)
    requires
        opened.len() == windows_to_open(overlays, n),
    ensures
        ({
            let warm = synced_overlays(overlays, n, opened, count, false, now);
            &&& warm.len() == n
            &&& !has_active(warm)
            &&& forall|i: int| 0 <= i < n ==> (#[trigger] warm[i]).cockroach_count == 0
                && warm[i].hidden_since == Some(now)
        }),
{
}

/// Law: a tick that ends the work interval of a running timer (one second
/// or less left) starts a break. With the frames ready, its effects are the
/// notification (when notifications are on) before showing the overlays,
/// then the upkeep of the overlays and the tray; that is, the effects of
/// starting the break by hand, without their closing tray refresh, followed
/// by the upkeep. Without the frames, the break waits and only the upkeep
/// happens.
pub proof fn law_break_from_tick_notifies_then_shows(s: ReminderState)
    requires
        s.timer.phase == Phase::Running,
        i64::MIN + 1000 <= s.timer.remaining_ms <= 1000,
    ensures
        next(s, Event::Tick).0.timer.phase == Phase::Break,
        next(s, Event::Tick).0.timer.remaining_ms == s.timer.duration_seconds * 1000,
        s.frames_ready && s.settings.show_notifications ==> next(s, Event::Tick).1 == seq![
            Effect::Notify,
            Effect::ShowOverlays,
            Effect::MaintainOverlays,
            Effect::RefreshTray,
        ],
        s.frames_ready && !s.settings.show_notifications ==> next(s, Event::Tick).1 == seq![
            Effect::ShowOverlays,
            Effect::MaintainOverlays,
            Effect::RefreshTray,
        ],
        s.frames_ready ==> next(s, Event::Tick).1 == next(s, Event::TestBreak).1.drop_last() + seq![
            Effect::MaintainOverlays,
            Effect::RefreshTray,
        ],
        !s.frames_ready ==> next(s, Event::Tick).0.pending_break && next(s, Event::Tick).1 == seq![
            Effect::MaintainOverlays,
            Effect::RefreshTray,
        ],
{
    let e = next(s, Event::Tick).1;
    let b = next(s, Event::TestBreak).1;
    if s.frames_ready {
        if s.settings.show_notifications {
            assert(e =~= seq![
                Effect::Notify,
                Effect::ShowOverlays,
                Effect::MaintainOverlays,
                Effect::RefreshTray,
            ]);
            assert(b.drop_last() =~= seq![Effect::Notify, Effect::ShowOverlays]);
        } else {
            assert(e =~= seq![Effect::ShowOverlays, Effect::MaintainOverlays, Effect::RefreshTray]);
            assert(b.drop_last() =~= seq![Effect::ShowOverlays]);
        }
    } else {
        assert(e =~= seq![Effect::MaintainOverlays, Effect::RefreshTray]);
    }
}

/// Law: the pause/resume command. A paused timer resumes exactly where it
/// was paused: only its phase becomes `Running`. A running timer is paused
/// with its remaining time kept, and toggling twice gives back the running
/// timer unchanged. A stopped timer starts a full work interval; a break is
/// left alone. Every toggle refreshes the tray and nothing else.
pub proof fn law_toggle_pauses_and_resumes_in_place(s: ReminderState)
    ensures
        next(s, Event::TogglePause).1 == seq![Effect::RefreshTray],
        s.timer.phase == Phase::Paused ==> next(s, Event::TogglePause).0.timer == (Timer {
            phase: Phase::Running,
            remaining_ms: s.timer.remaining_ms,
            interval_minutes: s.timer.interval_minutes,
            duration_seconds: s.timer.duration_seconds,
        }),
        s.timer.phase == Phase::Running ==> {
            &&& next(s, Event::TogglePause).0.timer == (Timer {
                phase: Phase::Paused,
                remaining_ms: s.timer.remaining_ms,
                interval_minutes: s.timer.interval_minutes,
                duration_seconds: s.timer.duration_seconds,
            })
            &&& next(next(s, Event::TogglePause).0, Event::TogglePause).0.timer == s.timer
        },
        s.timer.phase == Phase::Idle ==> next(s, Event::TogglePause).0.timer == (Timer {
            phase: Phase::Running,
            remaining_ms: (s.timer.interval_minutes * 60000) as i64,
            interval_minutes: s.timer.interval_minutes,
            duration_seconds: s.timer.duration_seconds,
        }),
        s.timer.phase == Phase::Break ==> next(s, Event::TogglePause).0.timer == s.timer,
        next(s, Event::TogglePause).0.settings == s.settings,
{
}

/// `v` held to the bounds of the work interval, 1 to 120 minutes.
pub open spec fn interval_in_bounds(v: u32) -> u32 {
    if v < 1 {
        1
    } else if v > 120 {
        120
    } else {
        v
    }
}

/// Law: editing the work interval sets it, held to 1..=120 minutes, in the
/// settings and in the timer. Only a running timer restarts, with a full
/// interval of the new length; a timer in any other phase (paused, in a
/// break, stopped) keeps its phase and its remaining time.
pub proof fn law_interval_edit_restarts_only_running(s: ReminderState, v: u32)
    ensures
        ({
            let (s1, effects) = next(s, Event::IntervalChanged(v));
            &&& s1.settings.interval_minutes == interval_in_bounds(v)
            &&& s1.timer.interval_minutes == interval_in_bounds(v)
            &&& s1.timer.duration_seconds == s.timer.duration_seconds
            &&& effects == seq![Effect::SaveSettings, Effect::RefreshTray]
            &&& s.timer.phase == Phase::Running ==> s1.timer.phase == Phase::Running
                && s1.timer.remaining_ms == interval_in_bounds(v) * 60000
            &&& s.timer.phase != Phase::Running ==> s1.timer.phase == s.timer.phase
                && s1.timer.remaining_ms == s.timer.remaining_ms
        }),
{
}

/// Law: every settings edit from the settings window is saved and then the
/// tray is refreshed, and nothing else; the edited field takes the new value
/// (held to its bounds) and the other fields are kept. No other event saves
/// the settings.
pub proof fn law_settings_edits_are_saved(s: ReminderState, e: Event)
    ensures
        (match e {
            Event::IntervalChanged(_) | Event::DurationChanged(_) | Event::CountChanged(_)
            | Event::AutoStartToggled(_) | Event::LaunchAtLoginToggled(_)
            | Event::ShowNotificationsToggled(_) => next(s, e).1 == seq![
                Effect::SaveSettings,
                Effect::RefreshTray,
            ],
            _ => !next(s, e).1.contains(Effect::SaveSettings),
        }),
        e matches Event::AutoStartToggled(v) ==> next(s, e).0.settings.auto_start == v,
        e matches Event::LaunchAtLoginToggled(v) ==> next(s, e).0.settings.launch_at_login == v,
        e matches Event::ShowNotificationsToggled(v) ==> next(s, e).0.settings.show_notifications
            == v,
        e matches Event::CountChanged(v) ==> next(s, e).0.settings.cockroach_count == if v < 1 {
            1
        } else if v > 50 {
            50
        } else {
            v
        },
        e matches Event::DurationChanged(v) ==> next(s, e).0.settings.duration_seconds == if v < 3 {
            3
        } else if v > 120 {
            120
        } else {
            v
        },
        (e matches Event::AutoStartToggled(_) || e matches Event::LaunchAtLoginToggled(_)
            || e matches Event::ShowNotificationsToggled(_) || e matches Event::CountChanged(_))
            ==> next(s, e).0.timer == s.timer,
{
    match e {
        Event::Tick => {
            let (t, tr) = ticked(s.timer);
            let eff = next(s, e).1;
            if eff.contains(Effect::SaveSettings) {
                let i = choose|i: int| 0 <= i < eff.len() && eff[i] == Effect::SaveSettings;
                assert(eff[i] == Effect::SaveSettings);
            }
        },
        Event::FramesLoaded => {
            let eff = next(s, e).1;
            if eff.contains(Effect::SaveSettings) {
                let i = choose|i: int| 0 <= i < eff.len() && eff[i] == Effect::SaveSettings;
                assert(eff[i] == Effect::SaveSettings);
            }
        },
        Event::TestBreak => {
            let eff = next(s, e).1;
            if eff.contains(Effect::SaveSettings) {
                let i = choose|i: int| 0 <= i < eff.len() && eff[i] == Effect::SaveSettings;
                assert(eff[i] == Effect::SaveSettings);
            }
        },
        Event::TogglePause | Event::OpenSettings | Event::Quit => {
            let eff = next(s, e).1;
            if eff.contains(Effect::SaveSettings) {
                let i = choose|i: int| 0 <= i < eff.len() && eff[i] == Effect::SaveSettings;
                assert(eff[i] == Effect::SaveSettings);
            }
        },
        _ => {},
    }
}

} // verus!
