use cockroach_reminder::config::Settings;
use cockroach_reminder::reminder::{Effect, Event, Reminder};
use cockroach_reminder::timer::Phase;

fn settings(show_notifications: bool) -> Settings {
    Settings {
        cockroach_count: 3,
        show_notifications,
        ..Settings::default()
    }
}

#[test]
fn launch_auto_starts_timer() {
    let r = Reminder::<u64>::new(settings(false));
    assert_eq!(r.timer.phase, Phase::Running);
    assert_eq!(r.timer.remaining_ms, 25 * 60_000);
    let r = Reminder::<u64>::new(Settings {
        auto_start: false,
        ..Settings::default()
    });
    assert_eq!(r.timer.phase, Phase::Idle);
}

#[test]
fn test_break_before_frames_is_pending_then_shown() {
    let mut r = Reminder::<u64>::new(settings(true));
    let e = r.handle(Event::TestBreak);
    assert_eq!(e, vec![Effect::RefreshTray]);
    assert!(r.overlays.pending_break);
    assert_eq!(r.timer.phase, Phase::Break);
    let e = r.handle(Event::FramesLoaded);
    assert_eq!(
        e,
        vec![Effect::Notify, Effect::ShowOverlays, Effect::RefreshTray]
    );
    assert!(!r.overlays.pending_break);
    assert!(r.frames_ready);
}

#[test]
fn frames_loaded_without_pending_break_does_nothing() {
    let mut r = Reminder::<u64>::new(settings(true));
    assert!(r.handle(Event::FramesLoaded).is_empty());
    assert!(r.frames_ready);
}

#[test]
fn tick_into_break_shows_overlays() {
    let mut r = Reminder::<u64>::new(settings(false));
    r.handle(Event::FramesLoaded);
    r.timer.remaining_ms = 1_000;
    let e = r.handle(Event::Tick);
    assert_eq!(
        e,
        vec![Effect::ShowOverlays, Effect::MaintainOverlays, Effect::RefreshTray]
    );
    assert_eq!(r.timer.phase, Phase::Break);
    assert_eq!(r.timer.remaining_ms, 15_000);
}

#[test]
fn tick_out_of_break_hides_overlays() {
    let mut r = Reminder::<u64>::new(settings(false));
    r.handle(Event::FramesLoaded);
    r.handle(Event::TestBreak);
    r.timer.remaining_ms = 1_000;
    let e = r.handle(Event::Tick);
    assert_eq!(
        e,
        vec![Effect::HideOverlays, Effect::MaintainOverlays, Effect::RefreshTray]
    );
    assert_eq!(r.timer.phase, Phase::Running);
}

#[test]
fn plain_tick_maintains_and_refreshes() {
    let mut r = Reminder::<u64>::new(settings(false));
    let e = r.handle(Event::Tick);
    assert_eq!(e, vec![Effect::MaintainOverlays, Effect::RefreshTray]);
    assert_eq!(r.timer.remaining_ms, 25 * 60_000 - 1_000);
}

#[test]
fn toggle_pause_cycles_phases() {
    let mut r = Reminder::<u64>::new(Settings {
        auto_start: false,
        ..Settings::default()
    });
    assert_eq!(r.handle(Event::TogglePause), vec![Effect::RefreshTray]);
    assert_eq!(r.timer.phase, Phase::Running);
    r.handle(Event::TogglePause);
    assert_eq!(r.timer.phase, Phase::Paused);
    r.handle(Event::TogglePause);
    assert_eq!(r.timer.phase, Phase::Running);
    r.handle(Event::TestBreak);
    r.handle(Event::TogglePause);
    assert_eq!(r.timer.phase, Phase::Break);
}

#[test]
fn interval_change_is_clamped_and_restarts_running_timer() {
    let mut r = Reminder::<u64>::new(settings(false));
    r.timer.remaining_ms = 60_000;
    let e = r.handle(Event::IntervalChanged(500));
    assert_eq!(e, vec![Effect::SaveSettings, Effect::RefreshTray]);
    assert_eq!(r.settings.interval_minutes, 120);
    assert_eq!(r.timer.interval_minutes, 120);
    assert_eq!(r.timer.remaining_ms, 120 * 60_000);
}

#[test]
fn duration_change_is_clamped_and_followed_by_timer() {
    let mut r = Reminder::<u64>::new(settings(false));
    r.handle(Event::DurationChanged(1));
    assert_eq!(r.settings.duration_seconds, 3);
    assert_eq!(r.timer.duration_seconds, 3);
}

#[test]
fn other_edits_are_saved() {
    let mut r = Reminder::<u64>::new(settings(false));
    assert_eq!(
        r.handle(Event::CountChanged(0)),
        vec![Effect::SaveSettings, Effect::RefreshTray]
    );
    assert_eq!(r.settings.cockroach_count, 1);
    r.handle(Event::AutoStartToggled(false));
    assert!(!r.settings.auto_start);
    r.handle(Event::LaunchAtLoginToggled(true));
    assert!(r.settings.launch_at_login);
    r.handle(Event::ShowNotificationsToggled(true));
    assert!(r.settings.show_notifications);
}

#[test]
fn quit_stops_and_exits() {
    let mut r = Reminder::<u64>::new(settings(false));
    assert_eq!(r.handle(Event::Quit), vec![Effect::Exit]);
    assert_eq!(r.timer.phase, Phase::Idle);
    assert_eq!(r.timer.remaining_ms, 0);
    assert_eq!(r.handle(Event::OpenSettings), vec![Effect::OpenSettingsWindow]);
}
