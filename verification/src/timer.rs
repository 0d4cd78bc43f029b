//! The break timer state machine.
//!
//! `tick()` is called once per second by the application and returns a
//! [`Transition`] whenever a phase boundary is crossed.

use vstd::prelude::*;

verus! {

/// The phase the timer is in.
#[derive(Debug, Clone, Copy, PartialEq, Eq, Structural)]
pub enum Phase {
    Idle,
    Running,
    Break,
    Paused,
}

/// What happened on a `tick()` that the application needs to react to.
#[derive(Debug, Clone, Copy, PartialEq, Eq, Structural)]
pub enum Transition {
    /// Work time elapsed: a break just started.
    EnteredBreak,
    /// Break time elapsed: the work timer restarted.
    EnteredRunning,
}

pub struct Timer {
    pub phase: Phase,
    pub remaining_ms: i64,
    pub interval_minutes: u32,
    pub duration_seconds: u32,
}

/// Length of a work interval of `minutes` minutes, in milliseconds.
pub open spec fn work_ms(minutes: u32) -> int {
    minutes * 60000
}

/// Length of a break of `seconds` seconds, in milliseconds.
pub open spec fn break_ms(seconds: u32) -> int {
    seconds * 1000
}

/// The timer after `start()`: running with a full work interval.
pub open spec fn started(t: Timer) -> Timer {
    Timer {
        phase: Phase::Running,
        remaining_ms: work_ms(t.interval_minutes) as i64,
        interval_minutes: t.interval_minutes,
        duration_seconds: t.duration_seconds,
    }
}

/// The timer after `trigger_break()`: in a break with the full break duration.
pub open spec fn in_break(t: Timer) -> Timer {
    Timer {
        phase: Phase::Break,
        remaining_ms: break_ms(t.duration_seconds) as i64,
        interval_minutes: t.interval_minutes,
        duration_seconds: t.duration_seconds,
    }
}

/// The timer with only its phase replaced.
pub open spec fn with_phase(t: Timer, phase: Phase) -> Timer {
    Timer {
        phase,
        remaining_ms: t.remaining_ms,
        interval_minutes: t.interval_minutes,
        duration_seconds: t.duration_seconds,
    }
}

/// Whether `tick()` counts down in this phase.
pub open spec fn is_counting(phase: Phase) -> bool {
    phase == Phase::Running || phase == Phase::Break
}

/// Whether `tick()` can subtract one second from `t` without leaving `i64`.
pub open spec fn can_tick(t: Timer) -> bool {
    is_counting(t.phase) ==> t.remaining_ms >= i64::MIN + 1000
}

/// The state after one tick and the transition it reports.
pub open spec fn ticked(t: Timer) -> (Timer, Option<Transition>) {
    if !is_counting(t.phase) {
        (t, None)
    } else if t.remaining_ms - 1000 <= 0 {
        if t.phase == Phase::Running {
            (in_break(t), Some(Transition::EnteredBreak))
        } else {
            (started(t), Some(Transition::EnteredRunning))
        }
    } else {
        (
            Timer {
                phase: t.phase,
                remaining_ms: (t.remaining_ms - 1000) as i64,
                interval_minutes: t.interval_minutes,
                duration_seconds: t.duration_seconds,
            },
            None,
        )
    }
}

/// The remaining time clamped at zero, in milliseconds.
pub open spec fn remaining_total(t: Timer) -> int {
    if t.remaining_ms < 0 {
        0
    } else {
        t.remaining_ms as int
    }
}

/// The character of a decimal digit.
pub open spec fn digit_char(d: int) -> char {
    if d == 0 {
        '0'
    } else if d == 1 {
        '1'
    } else if d == 2 {
        '2'
    } else if d == 3 {
        '3'
    } else if d == 4 {
        '4'
    } else if d == 5 {
        '5'
    } else if d == 6 {
        '6'
    } else if d == 7 {
        '7'
    } else if d == 8 {
        '8'
    } else {
        '9'
    }
}

/// The decimal digits of `n`, most significant first, without leading zeros.
pub open spec fn decimal(n: nat) -> Seq<char>
    decreases n,
{
    if n < 10 {
        seq![digit_char(n as int)]
    } else {
        decimal(n / 10).push(digit_char((n % 10) as int))
    }
}

/// `n` in decimal, padded with a leading zero to at least two digits (`{:02}`).
pub open spec fn two_digits(n: nat) -> Seq<char> {
    if n < 10 {
        seq!['0', digit_char(n as int)]
    } else {
        decimal(n)
    }
}

/// The `MM:SS` text of a remaining time of `total` milliseconds.
pub open spec fn mm_ss(total: nat) -> Seq<char> {
    two_digits(total / 60000) + seq![':'] + two_digits((total % 60000) / 1000)
}

fn digit_str(d: u64) -> (s: &'static str)
    requires
        d < 10,
    ensures
        s@ == seq![digit_char(d as int)],
{
    proof {
        reveal_strlit("0");
        reveal_strlit("1");
        reveal_strlit("2");
        reveal_strlit("3");
        reveal_strlit("4");
        reveal_strlit("5");
        reveal_strlit("6");
        reveal_strlit("7");
        reveal_strlit("8");
        reveal_strlit("9");
    }
    if d == 0 {
        "0"
    } else if d == 1 {
        "1"
    } else if d == 2 {
        "2"
    } else if d == 3 {
        "3"
    } else if d == 4 {
        "4"
    } else if d == 5 {
        "5"
    } else if d == 6 {
        "6"
    } else if d == 7 {
        "7"
    } else if d == 8 {
        "8"
    } else {
        "9"
    }
}

pub(crate) fn append_decimal(out: &mut String, n: u64)
    ensures
        final(out)@ == old(out)@ + decimal(n as nat),
    decreases n,
{
    if n >= 10 {
        append_decimal(out, n / 10);
    }
    out.append(digit_str(n % 10));
}

fn append_two_digits(out: &mut String, n: u64)
    ensures
        final(out)@ == old(out)@ + two_digits(n as nat),
{
    if n < 10 {
        out.append(digit_str(0));
    }
    append_decimal(out, n);
}

/// The timer after `n` ticks.
pub open spec fn after_ticks(t: Timer, n: nat) -> Timer
    decreases n,
{
    if n == 0 {
        t
    } else {
        after_ticks(ticked(t).0, (n - 1) as nat)
    }
}

proof fn lemma_after_ticks_split(t: Timer, a: nat, b: nat)
    ensures
        after_ticks(t, a + b) == after_ticks(after_ticks(t, a), b),
    decreases a,
{
    if a > 0 {
        lemma_after_ticks_split(ticked(t).0, (a - 1) as nat, b);
        assert((a + b - 1) as nat == (a - 1) as nat + b);
    }
}

/// A counting timer with `k` whole seconds left counts down one second per
/// tick and reports nothing during its first `k - 1` ticks.
proof fn lemma_countdown(t: Timer, k: nat, n: nat)
    requires
        is_counting(t.phase),
        t.remaining_ms == 1000 * k,
        n < k,
    ensures
        after_ticks(t, n) == (Timer { remaining_ms: (1000 * (k - n)) as i64, ..t }),
        forall|j: nat| j < n ==> (#[trigger] ticked(after_ticks(t, j))).1 is None,
    decreases n,
{
    if n > 0 {
        let t1 = ticked(t).0;
        assert(t1 == (Timer { remaining_ms: (1000 * (k - 1)) as i64, ..t }));
        lemma_countdown(t1, (k - 1) as nat, (n - 1) as nat);
        assert forall|j: nat| j < n implies (#[trigger] ticked(after_ticks(t, j))).1 is None by {
            if j > 0 {
                assert(after_ticks(t, j) == after_ticks(t1, (j - 1) as nat));
            }
        }
    }
}

/// Law: a running timer with `k >= 1` whole seconds left stays running and
/// silent for `k - 1` ticks, and its `k`-th tick starts a full break.
pub proof fn law_work_interval_counts_down(t: Timer, k: nat)
    requires
        t.phase == Phase::Running,
        t.remaining_ms == 1000 * k,
        k >= 1,
    ensures
        forall|n: nat|
            n < k ==> after_ticks(t, n) == (Timer { remaining_ms: (1000 * (k - n)) as i64, ..t }),
        forall|n: nat| n + 1 < k ==> (#[trigger] ticked(after_ticks(t, n))).1 is None,
        ticked(after_ticks(t, (k - 1) as nat)) == (in_break(t), Some(Transition::EnteredBreak)),
        after_ticks(t, k) == in_break(t),
{
    assert forall|n: nat| n < k implies after_ticks(t, n) == (Timer {
        remaining_ms: (1000 * (k - n)) as i64,
        ..t
    }) by {
        lemma_countdown(t, k, n);
    }
    lemma_countdown(t, k, (k - 1) as nat);
    lemma_after_ticks_split(t, (k - 1) as nat, 1);
    let last = after_ticks(t, (k - 1) as nat);
    assert(after_ticks(last, 1) == after_ticks(ticked(last).0, 0));
}

/// Law: a break with `k >= 1` whole seconds left stays silent for `k - 1`
/// ticks, and its `k`-th tick restarts a full work interval.
pub proof fn law_break_counts_down(t: Timer, k: nat)
    requires
        t.phase == Phase::Break,
        t.remaining_ms == 1000 * k,
        k >= 1,
    ensures
        forall|n: nat|
            n < k ==> after_ticks(t, n) == (Timer { remaining_ms: (1000 * (k - n)) as i64, ..t }),
        forall|n: nat| n + 1 < k ==> (#[trigger] ticked(after_ticks(t, n))).1 is None,
        ticked(after_ticks(t, (k - 1) as nat)) == (started(t), Some(Transition::EnteredRunning)),
        after_ticks(t, k) == started(t),
{
    assert forall|n: nat| n < k implies after_ticks(t, n) == (Timer {
        remaining_ms: (1000 * (k - n)) as i64,
        ..t
    }) by {
        lemma_countdown(t, k, n);
    }
    lemma_countdown(t, k, (k - 1) as nat);
    lemma_after_ticks_split(t, (k - 1) as nat, 1);
    let last = after_ticks(t, (k - 1) as nat);
    assert(after_ticks(last, 1) == after_ticks(ticked(last).0, 0));
}

/// Law: work and break alternate forever. After `start()`, a timer with an
/// interval of at least one minute and a break of at least one second is
/// back in the started state after exactly `60 * interval + duration` ticks:
/// the break begins after `60 * interval` ticks and the work interval
/// restarts on its own when the break is over.
pub proof fn law_work_break_cycle(t: Timer)
    requires
        t.interval_minutes >= 1,
        t.duration_seconds >= 1,
    ensures
        after_ticks(started(t), (60 * t.interval_minutes) as nat) == in_break(t),
        after_ticks(started(t), (60 * t.interval_minutes + t.duration_seconds) as nat) == started(t),
{
    let s = started(t);
    let k1 = (60 * t.interval_minutes) as nat;
    let k2 = t.duration_seconds as nat;
    law_work_interval_counts_down(s, k1);
    assert(in_break(s) == in_break(t));
    law_break_counts_down(in_break(t), k2);
    assert(started(in_break(t)) == s);
    lemma_after_ticks_split(s, k1, k2);
}

/// Law: a stopped, idle or paused timer does not count down; a tick leaves
/// it unchanged and reports nothing.
pub proof fn law_tick_without_counting_is_inert(t: Timer)
    requires
        !is_counting(t.phase),
    ensures
        ticked(t) == (t, None::<Transition>),
{
}

/// Law: pausing a running timer and resuming it gives back the same timer,
/// with the same remaining time.
pub proof fn law_pause_resume_round_trip(t: Timer)
    requires
        t.phase == Phase::Running,
    ensures
        with_phase(t, Phase::Paused).phase == Phase::Paused,
        with_phase(with_phase(t, Phase::Paused), Phase::Running) == t,
{
}

/// Law: `remaining()` splits the remaining time into whole minutes and the
/// whole seconds below one minute.
pub proof fn law_remaining_decomposes(t: Timer)
    ensures
        0 <= (remaining_total(t) % 60000) / 1000 < 60,
        (remaining_total(t) / 60000) * 60000 + ((remaining_total(t) % 60000) / 1000) * 1000
            <= remaining_total(t)
            < (remaining_total(t) / 60000) * 60000 + ((remaining_total(t) % 60000) / 1000) * 1000
            + 1000,
{
    let total: int = remaining_total(t);
    assert(0 <= total);
    assert(total == (total / 60000) * 60000 + total % 60000) by (nonlinear_arith)
        requires
            total >= 0,
    ;
    let r: int = total % 60000;
    assert(0 <= r < 60000);
    assert(r == (r / 1000) * 1000 + r % 1000) by (nonlinear_arith)
        requires
            r >= 0,
    ;
    assert(0 <= r % 1000 < 1000);
}

/// The character is an ASCII decimal digit.
pub open spec fn is_ascii_digit(c: char) -> bool {
    '0' as int <= c as int <= '9' as int
}

/// The number that a string of decimal digits denotes, read in base ten,
/// most significant digit first.
pub open spec fn digits_value(s: Seq<char>) -> int
    decreases s.len(),
{
    if s.len() == 0 {
        0
    } else {
        digits_value(s.drop_last()) * 10 + (s.last() as int - '0' as int)
    }
}

proof fn lemma_digit_char_value(d: int)
    requires
        0 <= d < 10,
    ensures
        digit_char(d) as int == '0' as int + d,
        is_ascii_digit(digit_char(d)),
{
    assert('0' as int == 48);
    assert('1' as int == 49);
    assert('2' as int == 50);
    assert('3' as int == 51);
    assert('4' as int == 52);
    assert('5' as int == 53);
    assert('6' as int == 54);
    assert('7' as int == 55);
    assert('8' as int == 56);
    assert('9' as int == 57);
}

/// Law: `decimal(n)` is a non-empty string of ASCII digits that reads back
/// as `n` in base ten; its first digit is `0` only for `n == 0`.
pub proof fn law_decimal_reads_back(n: nat)
    ensures
        decimal(n).len() >= 1,
        forall|i: int| 0 <= i < decimal(n).len() ==> is_ascii_digit(#[trigger] decimal(n)[i]),
        digits_value(decimal(n)) == n,
        n > 0 ==> decimal(n)[0] != '0',
    decreases n,
{
    if n < 10 {
        lemma_digit_char_value(n as int);
        let d = decimal(n);
        assert(d.drop_last() =~= Seq::<char>::empty());
        assert(digits_value(d.drop_last()) == 0);
        assert(d.last() == digit_char(n as int));
        assert(digits_value(d) == digits_value(d.drop_last()) * 10 + (d.last() as int - '0' as int));
    } else {
        lemma_digit_char_value((n % 10) as int);
        law_decimal_reads_back(n / 10);
        let d = decimal(n);
        assert(d.drop_last() =~= decimal(n / 10));
        assert(d.last() == digit_char((n % 10) as int));
        assert(digits_value(d) == digits_value(d.drop_last()) * 10 + (d.last() as int - '0' as int));
        assert(d[0] == decimal(n / 10)[0]);
        assert forall|i: int| 0 <= i < d.len() implies is_ascii_digit(#[trigger] d[i]) by {
            if i < d.len() - 1 {
                assert(d[i] == decimal(n / 10)[i]);
            }
        }
    }
}

/// Law: `two_digits(n)` (the `{:02}` text) is a string of at least two ASCII
/// digits that reads back as `n`.
pub proof fn law_two_digits_reads_back(n: nat)
    ensures
        two_digits(n).len() >= 2,
        forall|i: int| 0 <= i < two_digits(n).len() ==> is_ascii_digit(#[trigger] two_digits(n)[i]),
        digits_value(two_digits(n)) == n,
{
    law_decimal_reads_back(n);
    if n < 10 {
        lemma_digit_char_value(n as int);
        lemma_digit_char_value(0);
        let t = two_digits(n);
        let z = seq!['0'];
        assert(t.drop_last() =~= z);
        assert(z.drop_last() =~= Seq::<char>::empty());
        assert(digits_value(z) == digits_value(z.drop_last()) * 10 + (z.last() as int - '0' as int));
        assert(digits_value(z) == 0);
        assert(t.last() == digit_char(n as int));
        assert(digits_value(t) == digits_value(t.drop_last()) * 10 + (t.last() as int - '0' as int));
    } else {
        assert(decimal(n) =~= decimal(n / 10).push(digit_char((n % 10) as int)));
        law_decimal_reads_back(n / 10);
    }
}

/// Law: the `MM:SS` text of a remaining time is two strings of at least two
/// ASCII digits around a `:`; the first reads back as the whole minutes and
/// the second as the whole seconds below one minute.
pub proof fn law_mm_ss_reads_back(total: nat)
    ensures
        exists|m: Seq<char>, sec: Seq<char>|
            {
                &&& #[trigger] mm_ss(total) == m + seq![':'] + sec
                &&& m.len() >= 2 && sec.len() >= 2
                &&& forall|i: int| 0 <= i < m.len() ==> is_ascii_digit(#[trigger] m[i])
                &&& forall|i: int| 0 <= i < sec.len() ==> is_ascii_digit(#[trigger] sec[i])
                &&& digits_value(m) == total / 60000
                &&& digits_value(sec) == (total % 60000) / 1000
                &&& digits_value(sec) < 60
            },
{
    let m = two_digits(total / 60000);
    let sec = two_digits((total % 60000) / 1000);
    law_two_digits_reads_back(total / 60000);
    law_two_digits_reads_back((total % 60000) / 1000);
    assert(mm_ss(total) == m + seq![':'] + sec);
}

impl Timer {
    pub fn new(interval_minutes: u32, duration_seconds: u32) -> (t: Self)
        ensures
            t == (Timer { phase: Phase::Idle, remaining_ms: 0, interval_minutes, duration_seconds }),
    {
        Self { phase: Phase::Idle, remaining_ms: 0, interval_minutes, duration_seconds }
    }

    /// Begin a full work interval.
    pub fn start(&mut self)
        ensures
            *final(self) == started(*old(self)),
    {
        self.remaining_ms = self.interval_minutes as i64 * 60 * 1000;
        self.phase = Phase::Running;
    }

    /// Pause a running timer; any other phase is left as it is.
    pub fn pause(&mut self)
        ensures
            *final(self) == if old(self).phase == Phase::Running {
                with_phase(*old(self), Phase::Paused)
            } else {
                *old(self)
            },
    {
        if self.phase == Phase::Running {
            self.phase = Phase::Paused;
        }
    }

    /// Resume a paused timer; any other phase is left as it is.
    pub fn resume(&mut self)
        ensures
            *final(self) == if old(self).phase == Phase::Paused {
                with_phase(*old(self), Phase::Running)
            } else {
                *old(self)
            },
    {
        if self.phase == Phase::Paused {
            self.phase = Phase::Running;
        }
    }

    /// Begin a full break, whatever the current phase.
    pub fn trigger_break(&mut self)
        ensures
            *final(self) == in_break(*old(self)),
    {
        self.phase = Phase::Break;
        self.remaining_ms = self.duration_seconds as i64 * 1000;
    }

    /// Stop the timer.
    pub fn stop(&mut self)
        ensures
            *final(self) == (Timer { phase: Phase::Idle, remaining_ms: 0, ..*old(self) }),
    {
        self.phase = Phase::Idle;
        self.remaining_ms = 0;
    }

    /// Advance the timer by one second. Returns a [`Transition`] when a phase
    /// boundary is crossed.
    pub fn tick(&mut self) -> (r: Option<Transition>)
        requires
            can_tick(*old(self)),
        ensures
            (*final(self), r) == ticked(*old(self)),
    {
        if self.phase != Phase::Running && self.phase != Phase::Break {
            return None;
        }
        self.remaining_ms = self.remaining_ms - 1000;
        if self.remaining_ms <= 0 {
            match self.phase {
                Phase::Running => {
                    self.trigger_break();
                    Some(Transition::EnteredBreak)
                },
                Phase::Break => {
                    self.start();
                    Some(Transition::EnteredRunning)
                },
                _ => None,
            }
        } else {
            None
        }
    }

    /// Remaining time as `(minutes, seconds)`; a negative remaining time reads as zero.
    pub fn remaining(&self) -> (r: (i64, i64))
        ensures
            r.0 == remaining_total(*self) / 60000,
            r.1 == (remaining_total(*self) % 60000) / 1000,
    {
        let total: i64 = if self.remaining_ms < 0 {
            0
        } else {
            self.remaining_ms
        };
        (total / 60000, (total % 60000) / 1000)
    }

    /// Remaining time formatted as `MM:SS`.
    pub fn formatted(&self) -> (s: String)
        ensures
            s@ == mm_ss(remaining_total(*self) as nat),
    {
        let (m, s) = self.remaining();
        let mut out = String::new();
        append_two_digits(&mut out, m as u64);
        proof {
            reveal_strlit(":");
        }
        out.append(":");
        append_two_digits(&mut out, s as u64);
        out
    }

    /// Change the work interval; a running timer restarts with the new interval.
    pub fn update_interval(&mut self, minutes: u32)
        ensures
            *final(self) == if old(self).phase == Phase::Running {
                started(Timer { interval_minutes: minutes, ..*old(self) })
            } else {
                Timer { interval_minutes: minutes, ..*old(self) }
            },
    {
        self.interval_minutes = minutes;
        if self.phase == Phase::Running {
            self.start();
        }
    }

    /// Change the break duration; the current phase is not affected.
    pub fn update_duration(&mut self, seconds: u32)
        ensures
            *final(self) == (Timer { duration_seconds: seconds, ..*old(self) }),
    {
        self.duration_seconds = seconds;
    }
}

} // verus!
