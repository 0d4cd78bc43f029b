# Cockroach Reminder

A menu-bar break reminder: when a work interval elapses, cockroaches crawl
across every display for the configured break, then the work timer restarts.

- `src/` is the verified library (Verus):
  - `timer.rs` — the work/break timer state machine and its `MM:SS` text;
  - `config.rs` — the bounded settings, their defaults and clamping;
  - `tray.rs`, `settings_ui.rs` — menu ids and commands, tray and settings texts;
  - `overlay_manager.rs` — which overlay window serves which display, when
    windows are shown, hidden, prewarmed and released;
  - `sprite.rs` — decoding the walk-cycle frames (PNG), their common crop
    rectangle and the cropped frames;
  - `reminder.rs` — what each application event does, as state and effects.
- `app/` is the GUI program around it (iced windows, tray icon, platform
  integration, settings file, and the floating-point cockroach animation).
- `tests/` exercises the library.
