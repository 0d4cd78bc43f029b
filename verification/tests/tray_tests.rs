use cockroach_reminder::settings_ui::{
    count_label, minutes_label, pause_button_label, percent_label, phase_badge_text, seconds_label,
    status_line,
};
use cockroach_reminder::timer::{Phase, Timer};
use cockroach_reminder::tray::{
    command_for_menu_id, str_equal, tray_labels, TrayCommand, ID_BREAK, ID_QUIT, ID_SETTINGS,
    ID_STATUS, ID_TOGGLE, LABEL_BREAK, LABEL_QUIT, LABEL_SETTINGS,
};

#[test]
fn menu_ids_map_to_commands() {
    assert_eq!(command_for_menu_id(ID_TOGGLE), Some(TrayCommand::ToggleTimer));
    assert_eq!(command_for_menu_id(ID_BREAK), Some(TrayCommand::TriggerBreak));
    assert_eq!(command_for_menu_id(ID_SETTINGS), Some(TrayCommand::OpenSettings));
    assert_eq!(command_for_menu_id(ID_QUIT), Some(TrayCommand::Quit));
    assert_eq!(command_for_menu_id("toggle"), Some(TrayCommand::ToggleTimer));
    assert_eq!(command_for_menu_id("trigger-break"), Some(TrayCommand::TriggerBreak));
}

#[test]
fn unknown_menu_ids_issue_no_command() {
    assert_eq!(command_for_menu_id(ID_STATUS), None);
    assert_eq!(command_for_menu_id(""), None);
    assert_eq!(command_for_menu_id("togglex"), None);
    assert_eq!(command_for_menu_id("Quit"), None);
    assert_eq!(command_for_menu_id("quit "), None);
}

#[test]
fn str_equal_compares_characters() {
    assert!(str_equal("蟑螂", "蟑螂"));
    assert!(!str_equal("蟑螂", "蟑"));
    assert!(str_equal("", ""));
    assert!(!str_equal("ab", "ba"));
}

#[test]
fn tray_labels_running() {
    let mut t = Timer::new(25, 15);
    t.start();
    let l = tray_labels(&t);
    assert_eq!(l.status, "⏱ 下次休息还有 25:00");
    assert_eq!(l.tooltip, "🪳 下次休息还有 25:00");
    assert_eq!(l.toggle_label, "⏸  暂停计时");
    assert!(l.toggle_enabled);
}

#[test]
fn tray_labels_break_paused_idle() {
    let mut t = Timer::new(25, 15);
    t.trigger_break();
    let l = tray_labels(&t);
    assert_eq!(l.status, "🪳 休息中！还剩 00:15");
    assert_eq!(l.tooltip, "🪳 休息时间！还剩 00:15");
    assert_eq!(l.toggle_label, "▶  恢复计时");
    assert!(!l.toggle_enabled);

    let mut t = Timer::new(25, 15);
    t.start();
    t.remaining_ms = 61_000;
    t.pause();
    let l = tray_labels(&t);
    assert_eq!(l.status, "⏸ 已暂停 — 剩余 01:01");
    assert_eq!(l.tooltip, "🪳 已暂停 — 剩余 01:01");
    assert_eq!(l.toggle_label, "▶  恢复计时");
    assert!(l.toggle_enabled);

    let t = Timer::new(25, 15);
    let l = tray_labels(&t);
    assert_eq!(l.status, "⏹ 计时器已停止");
    assert_eq!(l.tooltip, "🪳 蟑螂提醒 (已停止)");
    assert!(!l.toggle_enabled);
}

#[test]
fn status_line_per_phase() {
    assert_eq!(status_line(Phase::Running, "12:34"), "下次休息还有 12:34");
    assert_eq!(status_line(Phase::Break, "00:05"), "休息时间，还剩 00:05");
    assert_eq!(status_line(Phase::Paused, "03:00"), "计时已暂停，剩余 03:00");
    assert_eq!(status_line(Phase::Idle, "03:00"), "计时器尚未开始");
}

#[test]
fn badges_and_pause_button() {
    assert_eq!(phase_badge_text(Phase::Running), "计时中");
    assert_eq!(phase_badge_text(Phase::Break), "休息中");
    assert_eq!(phase_badge_text(Phase::Paused), "已暂停");
    assert_eq!(phase_badge_text(Phase::Idle), "未开始");
    assert_eq!(pause_button_label(Phase::Running), "暂停计时");
    assert_eq!(pause_button_label(Phase::Paused), "继续计时");
    assert_eq!(pause_button_label(Phase::Idle), "继续计时");
}

#[test]
fn slider_value_labels() {
    assert_eq!(minutes_label(25), "25 分钟");
    assert_eq!(minutes_label(120), "120 分钟");
    assert_eq!(seconds_label(3), "3 秒");
    assert_eq!(count_label(10), "10 只");
    assert_eq!(percent_label(0), "0%");
    assert_eq!(percent_label(65), "65%");
}

#[test]
fn static_menu_labels() {
    assert_eq!(LABEL_BREAK, "🪳  立即开始休息 (召唤蟑螂)");
    assert_eq!(LABEL_SETTINGS, "⚙  设置…");
    assert_eq!(LABEL_QUIT, "❌  退出");
}
