//! The texts of the settings window that depend on the timer: the status
//! line, the phase badge and the label of the pause/resume button.

use crate::timer::{append_decimal, decimal, Phase};
use vstd::prelude::*;

verus! {

/// The status line of the settings window for `phase`, with `f` the remaining
/// time as `MM:SS`.
pub open spec fn status_line_text(phase: Phase, f: Seq<char>) -> Seq<char> {
    match phase {
        Phase::Running => "下次休息还有 "@ + f,
        Phase::Break => "休息时间，还剩 "@ + f,
        Phase::Paused => "计时已暂停，剩余 "@ + f,
        Phase::Idle => "计时器尚未开始"@,
    }
}

/// The status line of the settings window.
pub fn status_line(phase: Phase, formatted: &str) -> (s: String)
    ensures
        s@ == status_line_text(phase, formatted@),
{
    match phase {
        Phase::Running => String::from_str("下次休息还有 ").concat(formatted),
        Phase::Break => String::from_str("休息时间，还剩 ").concat(formatted),
        Phase::Paused => String::from_str("计时已暂停，剩余 ").concat(formatted),
        Phase::Idle => String::from_str("计时器尚未开始"),
    }
}

/// The text of the phase badge of the status card.
pub fn phase_badge_text(phase: Phase) -> (s: &'static str)
    ensures
        s@ == match phase {
            Phase::Running => "计时中"@,
            Phase::Break => "休息中"@,
            Phase::Paused => "已暂停"@,
            Phase::Idle => "未开始"@,
        },
{
    match phase {
        Phase::Running => "计时中",
        Phase::Break => "休息中",
        Phase::Paused => "已暂停",
        Phase::Idle => "未开始",
    }
}

/// The label of the pause/resume button: "pause" while running, "continue"
/// otherwise.
pub fn pause_button_label(phase: Phase) -> (s: &'static str)
    ensures
        s@ == if phase == Phase::Running {
            "暂停计时"@
        } else {
            "继续计时"@
        },
{
    if phase == Phase::Running {
        "暂停计时"
    } else {
        "继续计时"
    }
}

/// `v` in decimal followed by `unit`.
fn number_with_unit(v: u32, unit: &str) -> (s: String)
    ensures
        s@ == decimal(v as nat) + unit@,
{
    let mut out = String::new();
    append_decimal(&mut out, v as u64);
    out.append(unit);
    out
}

/// The value badge of the interval slider: `"{} 分钟"`.
pub fn minutes_label(minutes: u32) -> (s: String)
    ensures
        s@ == decimal(minutes as nat) + " 分钟"@,
{
    number_with_unit(minutes, " 分钟")
}

/// The value badge of the break-duration slider: `"{} 秒"`.
pub fn seconds_label(seconds: u32) -> (s: String)
    ensures
        s@ == decimal(seconds as nat) + " 秒"@,
{
    number_with_unit(seconds, " 秒")
}

/// The value badge of the cockroach-count slider: `"{} 只"`.
pub fn count_label(count: u32) -> (s: String)
    ensures
        s@ == decimal(count as nat) + " 只"@,
{
    number_with_unit(count, " 只")
}

/// The value badge of a whole-percent slider: `"{}%"`.
pub fn percent_label(percent: u32) -> (s: String)
    ensures
        s@ == decimal(percent as nat) + "%"@,
{
    number_with_unit(percent, "%")
}

} // verus!
