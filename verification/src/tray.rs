//! What the tray (menu bar) menu shows and what its clicks mean.
//!
//! The menu items carry string ids; a click reports the id of its item, which
//! [`command_for_menu_id`] turns into a [`TrayCommand`]. The dynamic labels of
//! the menu and of the tooltip are computed from the timer by [`tray_labels`].

use crate::timer::{mm_ss, remaining_total, Phase, Timer};
use vstd::prelude::*;

verus! {

/// Commands the tray menu can issue back to the app.
#[derive(Debug, Clone, Copy, PartialEq, Eq, Structural)]
pub enum TrayCommand {
    ToggleTimer,
    TriggerBreak,
    OpenSettings,
    Quit,
}

/// Id of the (disabled) status line of the menu.
pub const ID_STATUS: &'static str = "status";
/// Id of the pause/resume item.
pub const ID_TOGGLE: &'static str = "toggle";
/// Id of the "break now" item.
pub const ID_BREAK: &'static str = "trigger-break";
/// Id of the settings item.
pub const ID_SETTINGS: &'static str = "settings";
/// Id of the quit item.
pub const ID_QUIT: &'static str = "quit";

/// Label of the "break now" item.
pub const LABEL_BREAK: &'static str = "🪳  立即开始休息 (召唤蟑螂)";
/// Label of the settings item.
pub const LABEL_SETTINGS: &'static str = "⚙  设置…";
/// Label of the quit item.
pub const LABEL_QUIT: &'static str = "❌  退出";

/// Whether two strings hold the same characters.
pub fn str_equal(a: &str, b: &str) -> (r: bool)
    ensures
        r == (a@ == b@),
{
    let n: usize = a.unicode_len();
    if n != b.unicode_len() {
        return false;
    }
    let mut i: usize = 0;
    while i < n
        invariant
            n == a@.len(),
            n == b@.len(),
            i <= n,
            forall|j: int| 0 <= j < i ==> a@[j] == b@[j],
        decreases n - i,
    {
        if a.get_char(i) != b.get_char(i) {
            return false;
        }
        i = i + 1;
    }
    assert(a@ =~= b@);
    true
}

/// The command of the menu item with id `id`.
pub open spec fn command_of(id: Seq<char>) -> Option<TrayCommand> {
    if id == ID_TOGGLE@ {
        Some(TrayCommand::ToggleTimer)
    } else if id == ID_BREAK@ {
        Some(TrayCommand::TriggerBreak)
    } else if id == ID_SETTINGS@ {
        Some(TrayCommand::OpenSettings)
    } else if id == ID_QUIT@ {
        Some(TrayCommand::Quit)
    } else {
        None
    }
}

/// The command issued by a click on the menu item with id `id`; `None` for
/// items that issue none (such as the status line).
pub fn command_for_menu_id(id: &str) -> (r: Option<TrayCommand>)
    ensures
        r == command_of(id@),
{
    if str_equal(id, ID_TOGGLE) {
        Some(TrayCommand::ToggleTimer)
    } else if str_equal(id, ID_BREAK) {
        Some(TrayCommand::TriggerBreak)
    } else if str_equal(id, ID_SETTINGS) {
        Some(TrayCommand::OpenSettings)
    } else if str_equal(id, ID_QUIT) {
        Some(TrayCommand::Quit)
    } else {
        None
    }
}

/// The dynamic texts of the tray: the status line, the pause/resume item
/// (its label and whether it is enabled) and the tooltip of the icon.
pub struct TrayLabels {
    pub status: String,
    pub toggle_label: String,
    pub toggle_enabled: bool,
    pub tooltip: String,
}

/// The status line shown for `phase`, with `f` the remaining time as `MM:SS`.
pub open spec fn tray_status_text(phase: Phase, f: Seq<char>) -> Seq<char> {
    match phase {
        Phase::Running => "⏱ 下次休息还有 "@ + f,
        Phase::Break => "🪳 休息中！还剩 "@ + f,
        Phase::Paused => "⏸ 已暂停 — 剩余 "@ + f,
        Phase::Idle => "⏹ 计时器已停止"@,
    }
}

/// The tooltip shown for `phase`, with `f` the remaining time as `MM:SS`.
pub open spec fn tray_tooltip_text(phase: Phase, f: Seq<char>) -> Seq<char> {
    match phase {
        Phase::Running => "🪳 下次休息还有 "@ + f,
        Phase::Break => "🪳 休息时间！还剩 "@ + f,
        Phase::Paused => "🪳 已暂停 — 剩余 "@ + f,
        Phase::Idle => "🪳 蟑螂提醒 (已停止)"@,
    }
}

/// The label of the pause/resume item for `phase`.
pub open spec fn tray_toggle_text(phase: Phase) -> Seq<char> {
    if phase == Phase::Running {
        "⏸  暂停计时"@
    } else {
        "▶  恢复计时"@
    }
}

fn prefixed(prefix: &str, f: &str) -> (s: String)
    ensures
        s@ == prefix@ + f@,
{
    String::from_str(prefix).concat(f)
}

/// The tray texts for the current state of `timer`.
pub fn tray_labels(timer: &Timer) -> (r: TrayLabels)
    ensures
        r.status@ == tray_status_text(timer.phase, mm_ss(remaining_total(*timer) as nat)),
        r.tooltip@ == tray_tooltip_text(timer.phase, mm_ss(remaining_total(*timer) as nat)),
        r.toggle_label@ == tray_toggle_text(timer.phase),
        r.toggle_enabled == (timer.phase == Phase::Running || timer.phase == Phase::Paused),
{
    let f = timer.formatted();
    let (status, tooltip) = match timer.phase {
        Phase::Running => (
            prefixed("⏱ 下次休息还有 ", f.as_str()),
            prefixed("🪳 下次休息还有 ", f.as_str()),
        ),
        Phase::Break => (
            prefixed("🪳 休息中！还剩 ", f.as_str()),
            prefixed("🪳 休息时间！还剩 ", f.as_str()),
        ),
        Phase::Paused => (
            prefixed("⏸ 已暂停 — 剩余 ", f.as_str()),
            prefixed("🪳 已暂停 — 剩余 ", f.as_str()),
        ),
        Phase::Idle => (String::from_str("⏹ 计时器已停止"), String::from_str("🪳 蟑螂提醒 (已停止)")),
    };
    let is_running = timer.phase == Phase::Running;
    let is_paused = timer.phase == Phase::Paused;
    let toggle_label = if is_running {
        String::from_str("⏸  暂停计时")
    } else {
        String::from_str("▶  恢复计时")
    };
    TrayLabels { status, toggle_label, toggle_enabled: is_running || is_paused, tooltip }
}

} // verus!
