//! The lifecycle of the overlay windows, one per display.
//!
//! Overlay windows are expensive to create, so they are kept between breaks:
//! a break shows the existing windows again (and opens windows only for
//! displays that have none yet), the end of a break hides them, and a window
//! that has stayed hidden for [`OVERLAY_HOT_CACHE_TTL_MS`] is released. A few
//! seconds before a break the windows are opened hidden ("prewarmed").
//!
//! `W` is the window id of the GUI toolkit; this module only carries it.
//! Times are milliseconds on a monotonic clock chosen by the caller.

use crate::timer::{Phase, Timer};
use vstd::std_specs::cmp::PartialEqSpec;
use vstd::prelude::*;

verus! {

/// How long a hidden overlay window is kept before it is released.
pub const OVERLAY_HOT_CACHE_TTL_MS: u64 = 90_000;

/// How long before a break the overlay windows are prewarmed.
pub const OVERLAY_PREWARM_BEFORE_BREAK_MS: i64 = 5_000;

/// State of a single display's overlay window.
pub struct Overlay<W> {
    pub id: W,
    /// Shown with cockroaches crawling (during a break).
    pub active: bool,
    /// When the window was hidden, if it is hidden.
    pub hidden_since: Option<u64>,
    /// How many cockroaches crawl on this display.
    pub cockroach_count: u32,
}

/// Manages all overlay windows.
pub struct OverlayManager<W> {
    pub overlays: Vec<Overlay<W>>,
    /// A break began before the animation frames were ready; the overlays
    /// are to be shown once they are.
    pub pending_break: bool,
}

/// What `maintain_overlays` decided.
pub enum Maintenance<W> {
    /// A break is on screen: nothing to do.
    Nothing,
    /// A break is near: open (or refresh) the overlay windows, hidden.
    Prewarm,
    /// These windows stayed hidden too long and were released: close them.
    Released(Vec<W>),
}

/// The overlay with window `id` after a sync with the given parameters.
pub open spec fn synced<W>(id: W, count: u32, active: bool, now: u64) -> Overlay<W> {
    Overlay {
        id,
        active,
        hidden_since: if active {
            None
        } else {
            Some(now)
        },
        cockroach_count: if active {
            count
        } else {
            0
        },
    }
}

/// The overlay hidden at `now`.
pub open spec fn hidden<W>(o: Overlay<W>, now: u64) -> Overlay<W> {
    Overlay { id: o.id, active: false, hidden_since: Some(now), cockroach_count: 0 }
}

/// The overlay has been hidden for at least the cache time at `now`. A
/// hiding time after `now` counts as no time at all.
pub open spec fn is_expired<W>(o: Overlay<W>, now: u64) -> bool {
    match o.hidden_since {
        Some(h) => h <= now && now - h >= OVERLAY_HOT_CACHE_TTL_MS,
        None => false,
    }
}

pub open spec fn expired_at<W>(now: u64) -> spec_fn(Overlay<W>) -> bool {
    |o: Overlay<W>| is_expired(o, now)
}

pub open spec fn kept_at<W>(now: u64) -> spec_fn(Overlay<W>) -> bool {
    |o: Overlay<W>| !is_expired(o, now)
}

/// The window ids of `s`, in order.
pub open spec fn ids<W>(s: Seq<Overlay<W>>) -> Seq<W> {
    s.map_values(|o: Overlay<W>| o.id)
}

/// The overlays `s` after a sync to `screen_count` displays, with `opened`
/// the windows opened for the displays beyond the existing overlays.
pub open spec fn synced_overlays<W>(
    s: Seq<Overlay<W>>,
    screen_count: nat,
    opened: Seq<W>,
    count: u32,
    active: bool,
    now: u64,
) -> Seq<Overlay<W>> {
    Seq::new(
        screen_count,
        |i: int|
            synced(
                if i < s.len() {
                    s[i].id
                } else {
                    opened[i - s.len()]
                },
                count,
                active,
                now,
            ),
    )
}

/// The windows to open for a sync of `s` to `screen_count` displays.
pub open spec fn windows_to_open<W>(s: Seq<Overlay<W>>, screen_count: nat) -> nat {
    if screen_count > s.len() {
        (screen_count - s.len()) as nat
    } else {
        0
    }
}

/// The windows closed by a sync of `s` to `screen_count` displays.
pub open spec fn windows_to_close<W>(s: Seq<Overlay<W>>, screen_count: nat) -> Seq<W> {
    if screen_count < s.len() {
        ids(s.subrange(screen_count as int, s.len() as int))
    } else {
        Seq::<W>::empty()
    }
}

/// The overlays `s` all hidden at `now`.
pub open spec fn hidden_overlays<W>(s: Seq<Overlay<W>>, now: u64) -> Seq<Overlay<W>> {
    s.map_values(|o: Overlay<W>| hidden(o, now))
}

/// Some overlay is shown.
pub open spec fn has_active<W>(s: Seq<Overlay<W>>) -> bool {
    exists|i: int| 0 <= i < s.len() && (#[trigger] s[i]).active
}

/// The window ids of `v`, in order.
fn take_ids<W>(v: Vec<Overlay<W>>) -> (r: Vec<W>)
    ensures
        r@ == ids(v@),
{
    let ghost orig = v@;
    let mut rest = v;
    let mut r: Vec<W> = Vec::new();
    while rest.len() > 0
        invariant
            r@.len() + rest@.len() == orig.len(),
            rest@ == orig.subrange(r@.len() as int, orig.len() as int),
            r@ == ids(orig.subrange(0, r@.len() as int)),
        decreases rest@.len(),
    {
        let o = rest.remove(0);
        proof {
            assert(orig.subrange(0, r@.len() + 1int) =~= orig.subrange(0, r@.len() as int).push(o));
        }
        r.push(o.id);
        proof {
            assert(ids(orig.subrange(0, r@.len() as int)) =~= r@);
        }
    }
    proof {
        assert(orig.subrange(0, orig.len() as int) =~= orig);
    }
    r
}

impl<W: Copy> OverlayManager<W> {
    pub fn new() -> (m: Self)
        ensures
            m.overlays@.len() == 0,
            !m.pending_break,
    {
        OverlayManager { overlays: Vec::new(), pending_break: false }
    }

    /// Whether some overlay is shown (a break is on screen).
    pub fn any_active_overlay(&self) -> (r: bool)
        ensures
            r == has_active(self.overlays@),
    {
        let n: usize = self.overlays.len();
        let mut i: usize = 0;
        while i < n
            invariant
                n == self.overlays@.len(),
                i <= n,
                forall|j: int| 0 <= j < i ==> !(#[trigger] self.overlays@[j]).active,
            decreases n - i,
        {
            if self.overlays[i].active {
                return true;
            }
            i = i + 1;
        }
        false
    }

    /// A break is to be shown. It can be only once the animation frames are
    /// ready; until then it is remembered as pending. Returns whether the
    /// overlays are to be shown now (the caller then notifies, when enabled,
    /// and shows the overlays on every display).
    pub fn spawn_overlays(&mut self, frames_ready: bool) -> (r: bool)
        ensures
            r == frames_ready,
            final(self).pending_break == !frames_ready,
            final(self).overlays@ == old(self).overlays@,
    {
        self.pending_break = !frames_ready;
        frames_ready
    }

    /// Make the overlays match `screen_count` displays: the window of display
    /// `i` is the existing window `i` if there is one, else the next of the
    /// newly `opened` windows. Every overlay becomes shown with `count`
    /// cockroaches (`active`) or hidden since `now` without any. Returns the
    /// windows of displays that no longer exist, to be closed.
    pub fn sync_overlays(
        &mut self,
        screen_count: usize,
        opened: Vec<W>,
        count: u32,
        active: bool,
        now: u64,
    ) -> (closed: Vec<W>)
        requires
            opened@.len() == windows_to_open(old(self).overlays@, screen_count as nat),
        ensures
            final(self).pending_break == old(self).pending_break,
            final(self).overlays@ == synced_overlays(
                old(self).overlays@,
                screen_count as nat,
                opened@,
                count,
                active,
                now,
            ),
            closed@ == windows_to_close(old(self).overlays@, screen_count as nat),
    {
        let ghost old_overlays = self.overlays@;
        let old_len: usize = self.overlays.len();
        let keep: usize = if screen_count < old_len {
            screen_count
        } else {
            old_len
        };
        let mut current: Vec<Overlay<W>> = Vec::new();
        std::mem::swap(&mut current, &mut self.overlays);
        let excess = current.split_off(keep);
        let mut result: Vec<Overlay<W>> = Vec::new();
        while current.len() > 0
            invariant
                keep <= old_overlays.len(),
                result@.len() + current@.len() == keep,
                current@ == old_overlays.subrange(result@.len() as int, keep as int),
                forall|i: int|
                    0 <= i < result@.len() ==> #[trigger] result@[i] == synced(
                        old_overlays[i].id,
                        count,
                        active,
                        now,
                    ),
            decreases current@.len(),
        {
            let o = current.remove(0);
            let hidden_since = if active {
                None
            } else {
                Some(now)
            };
            let cockroach_count: u32 = if active {
                count
            } else {
                0
            };
            result.push(Overlay { id: o.id, active, hidden_since, cockroach_count });
        }
        let mut fresh = opened;
        let ghost opened_ids = fresh@;
        while fresh.len() > 0
            invariant
                keep <= old_overlays.len(),
                keep <= result@.len(),
                result@.len() + fresh@.len() == keep + opened_ids.len(),
                fresh@ == opened_ids.subrange(result@.len() - keep, opened_ids.len() as int),
                forall|i: int|
                    0 <= i < keep ==> #[trigger] result@[i] == synced(
                        old_overlays[i].id,
                        count,
                        active,
                        now,
                    ),
                forall|i: int|
                    keep <= i < result@.len() ==> #[trigger] result@[i] == synced(
                        opened_ids[i - keep],
                        count,
                        active,
                        now,
                    ),
            decreases fresh@.len(),
        {
            let id = fresh.remove(0);
            let hidden_since = if active {
                None
            } else {
                Some(now)
            };
            let cockroach_count: u32 = if active {
                count
            } else {
                0
            };
            result.push(Overlay { id, active, hidden_since, cockroach_count });
        }
        proof {
            assert(result@ =~= synced_overlays(
                old_overlays,
                screen_count as nat,
                opened_ids,
                count,
                active,
                now,
            ));
        }
        self.overlays = result;
        let closed = take_ids(excess);
        closed
    }

    /// Show the overlays on `screen_count` displays with `count` cockroaches
    /// each: a sync with every overlay active.
    pub fn show_overlays(&mut self, screen_count: usize, opened: Vec<W>, count: u32, now: u64) -> (closed: Vec<W>)
        requires
            opened@.len() == windows_to_open(old(self).overlays@, screen_count as nat),
        ensures
            final(self).pending_break == old(self).pending_break,
            final(self).overlays@ == synced_overlays(
                old(self).overlays@,
                screen_count as nat,
                opened@,
                count,
                true,
                now,
            ),
            closed@ == windows_to_close(old(self).overlays@, screen_count as nat),
    {
        self.sync_overlays(screen_count, opened, count, true, now)
    }

    /// Hide every overlay at `now` and drop its cockroaches. Returns the
    /// windows to hide, in order.
    pub fn close_overlays_at(&mut self, now: u64) -> (hidden_ids: Vec<W>)
        ensures
            final(self).pending_break == old(self).pending_break,
            final(self).overlays@ == hidden_overlays(old(self).overlays@, now),
            hidden_ids@ == ids(old(self).overlays@),
    {
        let ghost old_overlays = self.overlays@;
        let mut current: Vec<Overlay<W>> = Vec::new();
        std::mem::swap(&mut current, &mut self.overlays);
        let mut result: Vec<Overlay<W>> = Vec::new();
        let mut to_hide: Vec<W> = Vec::new();
        while current.len() > 0
            invariant
                result@.len() + current@.len() == old_overlays.len(),
                to_hide@.len() == result@.len(),
                current@ == old_overlays.subrange(result@.len() as int, old_overlays.len() as int),
                forall|i: int|
                    0 <= i < result@.len() ==> #[trigger] result@[i] == hidden(old_overlays[i], now),
                to_hide@ == ids(old_overlays.subrange(0, result@.len() as int)),
            decreases current@.len(),
        {
            let o = current.remove(0);
            proof {
                assert(old_overlays.subrange(0, result@.len() + 1int) =~= old_overlays.subrange(
                    0,
                    result@.len() as int,
                ).push(o));
            }
            to_hide.push(o.id);
            result.push(Overlay { id: o.id, active: false, hidden_since: Some(now), cockroach_count: 0 });
            proof {
                assert(ids(old_overlays.subrange(0, result@.len() as int)) =~= to_hide@);
            }
        }
        proof {
            assert(old_overlays.subrange(0, old_overlays.len() as int) =~= old_overlays);
            assert(result@ =~= hidden_overlays(old_overlays, now));
        }
        self.overlays = result;
        to_hide
    }

    /// Release the overlays that have stayed hidden for the cache time at
    /// `now`. The others are kept, in order. Returns the windows of the
    /// released overlays, to be closed, in order.
    pub fn release_idle_overlays(&mut self, now: u64) -> (closed: Vec<W>)
        ensures
            final(self).pending_break == old(self).pending_break,
            final(self).overlays@ == old(self).overlays@.filter(kept_at(now)),
            closed@ == ids(old(self).overlays@.filter(expired_at(now))),
    {
        let ghost old_overlays = self.overlays@;
        let mut current: Vec<Overlay<W>> = Vec::new();
        std::mem::swap(&mut current, &mut self.overlays);
        let mut kept: Vec<Overlay<W>> = Vec::new();
        let mut released: Vec<Overlay<W>> = Vec::new();
        let ghost mut k: int = 0;
        proof {
            reveal(Seq::filter);
            assert(old_overlays.subrange(0, 0).filter(kept_at(now)) =~= Seq::<Overlay<W>>::empty());
            assert(old_overlays.subrange(0, 0).filter(expired_at(now)) =~= Seq::<
                Overlay<W>,
            >::empty());
        }
        while current.len() > 0
            invariant
                0 <= k <= old_overlays.len(),
                current@ == old_overlays.subrange(k, old_overlays.len() as int),
                kept@ == old_overlays.subrange(0, k).filter(kept_at(now)),
                released@ == old_overlays.subrange(0, k).filter(expired_at(now)),
            decreases current@.len(),
        {
            let o = current.remove(0);
            let expired = match o.hidden_since {
                Some(h) => h <= now && now - h >= OVERLAY_HOT_CACHE_TTL_MS,
                None => false,
            };
            proof {
                reveal(Seq::filter);
                let prefix = old_overlays.subrange(0, k + 1);
                assert(prefix.drop_last() =~= old_overlays.subrange(0, k));
                assert(prefix.last() == o);
            }
            if expired {
                released.push(o);
            } else {
                kept.push(o);
            }
            proof {
                k = k + 1;
            }
        }
        proof {
            assert(old_overlays.subrange(0, k) =~= old_overlays);
        }
        self.overlays = kept;
        take_ids(released)
    }

    /// Between breaks, keep the overlay windows ready: nothing to do while a
    /// break is on screen; prewarm them when a running timer is at most
    /// [`OVERLAY_PREWARM_BEFORE_BREAK_MS`] from its break; otherwise release
    /// the windows that stayed hidden too long.
    pub fn maintain_overlays(&mut self, timer: &Timer, now: u64) -> (r: Maintenance<W>)
        ensures
            has_active(old(self).overlays@) ==> r is Nothing && *final(self) == *old(self),
            !has_active(old(self).overlays@) && timer.phase == Phase::Running && timer.remaining_ms
                <= OVERLAY_PREWARM_BEFORE_BREAK_MS ==> r is Prewarm && *final(self) == *old(self),
            !has_active(old(self).overlays@) && !(timer.phase == Phase::Running
                && timer.remaining_ms <= OVERLAY_PREWARM_BEFORE_BREAK_MS) ==> {
                &&& r matches Maintenance::Released(closed)
                &&& closed@ == ids(old(self).overlays@.filter(expired_at(now)))
                &&& final(self).overlays@ == old(self).overlays@.filter(kept_at(now))
                &&& final(self).pending_break == old(self).pending_break
            },
    {
        if self.any_active_overlay() {
            return Maintenance::Nothing;
        }
        if timer.phase == Phase::Running && timer.remaining_ms <= OVERLAY_PREWARM_BEFORE_BREAK_MS {
            return Maintenance::Prewarm;
        }
        Maintenance::Released(self.release_idle_overlays(now))
    }
}

/// Keeps the overlays whose window is not `id`, by `W`'s `==`.
pub open spec fn other_window<W: PartialEq>(id: W) -> spec_fn(Overlay<W>) -> bool {
    |o: Overlay<W>| !o.id.eq_spec(&id)
}

impl<W: Copy + PartialEq> OverlayManager<W> {
    /// The window `id` was closed (by the user or the system): forget its
    /// overlay. The other overlays are kept, in order. Where `W`'s `==`
    /// follows its specification (as for integers), exactly the overlays
    /// whose id equals `id` are removed.
    pub fn remove_window(&mut self, id: W)
        ensures
            final(self).pending_break == old(self).pending_break,
            W::obeys_eq_spec() ==> final(self).overlays@ == old(self).overlays@.filter(
                other_window(id),
            ),
    {
        let ghost old_overlays = self.overlays@;
        let mut current: Vec<Overlay<W>> = Vec::new();
        std::mem::swap(&mut current, &mut self.overlays);
        let mut kept: Vec<Overlay<W>> = Vec::new();
        let ghost mut k: int = 0;
        proof {
            reveal(Seq::filter);
            assert(old_overlays.subrange(0, 0).filter(other_window(id)) =~= Seq::<
                Overlay<W>,
            >::empty());
        }
        while current.len() > 0
            invariant
                0 <= k <= old_overlays.len(),
                current@ == old_overlays.subrange(k, old_overlays.len() as int),
                W::obeys_eq_spec() ==> kept@ == old_overlays.subrange(0, k).filter(
                    other_window(id),
                ),
            decreases current@.len(),
        {
            let o = current.remove(0);
            proof {
                reveal(Seq::filter);
                let prefix = old_overlays.subrange(0, k + 1);
                assert(prefix.drop_last() =~= old_overlays.subrange(0, k));
                assert(prefix.last() == o);
            }
            if !(o.id == id) {
                kept.push(o);
            }
            proof {
                k = k + 1;
            }
        }
        proof {
            assert(old_overlays.subrange(0, k) =~= old_overlays);
        }
        self.overlays = kept;
    }
}

/// No two overlays share a window.
pub open spec fn windows_distinct<W>(s: Seq<Overlay<W>>) -> bool {
    ids(s).no_duplicates()
}

/// Law: a sync keeps the windows of the overlays distinct, and never closes
/// a window that still serves a display, provided the existing windows are
/// distinct and the newly opened windows are distinct and new.
pub proof fn law_sync_keeps_windows_distinct<W>(
    s: Seq<Overlay<W>>,
    n: nat,
    opened: Seq<W>,
    count: u32,
    active: bool,
    now: u64,
)
    requires
        opened.len() == windows_to_open(s, n),
        windows_distinct(s),
        opened.no_duplicates(),
        forall|i: int, j: int| 0 <= i < opened.len() && 0 <= j < s.len() ==> opened[i] != s[j].id,
    ensures
        ({
            let synced = synced_overlays(s, n, opened, count, active, now);
            &&& windows_distinct(synced)
            &&& forall|w: W| #[trigger] windows_to_close(s, n).contains(w) ==> !ids(synced).contains(w)
        }),
{
    let synced = synced_overlays(s, n, opened, count, active, now);
    let id_of = |i: int| if i < s.len() { s[i].id } else { opened[i - s.len()] };
    assert forall|i: int, j: int|
        0 <= i < ids(synced).len() && 0 <= j < ids(synced).len() && i != j implies ids(synced)[i]
        != ids(synced)[j] by {
        assert(ids(synced)[i] == id_of(i));
        assert(ids(synced)[j] == id_of(j));
        if i < s.len() && j < s.len() {
            assert(ids(s)[i] == s[i].id);
            assert(ids(s)[j] == s[j].id);
        }
    }
    assert forall|w: W| #[trigger] windows_to_close(s, n).contains(w) implies !ids(
        synced,
    ).contains(w) by {
        let c = windows_to_close(s, n);
        let a = choose|a: int| 0 <= a < c.len() && c[a] == w;
        let ai = n + a;
        assert(s.subrange(n as int, s.len() as int)[a] == s[ai]);
        assert(w == s[ai].id);
        if ids(synced).contains(w) {
            let b = choose|b: int| 0 <= b < ids(synced).len() && ids(synced)[b] == w;
            assert(ids(synced)[b] == id_of(b));
            assert(b < s.len());
            assert(ids(s)[b] == s[b].id);
            assert(ids(s)[ai] == s[ai].id);
        }
    }
}

proof fn lemma_filter_all<A>(s: Seq<A>, p: spec_fn(A) -> bool)
    requires
        forall|i: int| 0 <= i < s.len() ==> p(#[trigger] s[i]),
    ensures
        s.filter(p) == s,
    decreases s.len(),
{
    reveal(Seq::filter);
    if s.len() > 0 {
        lemma_filter_all(s.drop_last(), p);
        assert(p(s[s.len() - 1]));
        assert(s.drop_last().push(s.last()) =~= s);
    }
}

proof fn lemma_filter_none<A>(s: Seq<A>, p: spec_fn(A) -> bool)
    requires
        forall|i: int| 0 <= i < s.len() ==> !p(#[trigger] s[i]),
    ensures
        s.filter(p) == Seq::<A>::empty(),
    decreases s.len(),
{
    reveal(Seq::filter);
    if s.len() > 0 {
        lemma_filter_none(s.drop_last(), p);
        assert(!p(s[s.len() - 1]));
    } else {
        assert(s =~= Seq::<A>::empty());
    }
}

/// Law: overlay windows are reused between breaks. Showing the overlays on
/// `n` displays, hiding them when the break ends and showing them again on
/// the same displays opens and closes no window, and gives back the very
/// same overlays as the first showing.
pub proof fn law_windows_reused_between_breaks<W>(
    s: Seq<Overlay<W>>,
    n: nat,
    opened: Seq<W>,
    count: u32,
    shown_at: u64,
    hidden_at: u64,
    shown_again_at: u64,
)
    requires
        opened.len() == windows_to_open(s, n),
    ensures
        ({
            let shown = synced_overlays(s, n, opened, count, true, shown_at);
            let closed = hidden_overlays(shown, hidden_at);
            &&& ids(closed) == ids(shown)
            &&& !has_active(closed)
            &&& windows_to_open(closed, n) == 0
            &&& windows_to_close(closed, n) == Seq::<W>::empty()
            &&& synced_overlays(closed, n, Seq::<W>::empty(), count, true, shown_again_at) == shown
        }),
{
    let shown = synced_overlays(s, n, opened, count, true, shown_at);
    let closed = hidden_overlays(shown, hidden_at);
    assert(ids(closed) =~= ids(shown));
    assert(synced_overlays(closed, n, Seq::<W>::empty(), count, true, shown_again_at) =~= shown);
}

/// Law: hidden overlay windows are kept for the cache time and released
/// once it has passed. After hiding the overlays at `hidden_at`, a release
/// before `hidden_at + OVERLAY_HOT_CACHE_TTL_MS` keeps them all, and a
/// release from then on releases them all.
pub proof fn law_hidden_windows_released_after_ttl<W>(
    s: Seq<Overlay<W>>,
    hidden_at: u64,
    now: u64,
)
    ensures
        ({
            let h = hidden_overlays(s, hidden_at);
            &&& now < hidden_at + OVERLAY_HOT_CACHE_TTL_MS ==> h.filter(kept_at(now)) == h
                && h.filter(expired_at(now)) == Seq::<Overlay<W>>::empty()
            &&& now >= hidden_at + OVERLAY_HOT_CACHE_TTL_MS ==> h.filter(kept_at(now))
                == Seq::<Overlay<W>>::empty() && ids(h.filter(expired_at(now))) == ids(s)
        }),
{
    let h = hidden_overlays(s, hidden_at);
    if now < hidden_at + OVERLAY_HOT_CACHE_TTL_MS {
        assert forall|i: int| 0 <= i < h.len() implies #[trigger] kept_at(now)(h[i]) by {}
        assert forall|i: int| 0 <= i < h.len() implies !#[trigger] expired_at(now)(h[i]) by {}
        lemma_filter_all(h, kept_at(now));
        lemma_filter_none(h, expired_at(now));
    } else {
        assert forall|i: int| 0 <= i < h.len() implies !#[trigger] kept_at(now)(h[i]) by {}
        assert forall|i: int| 0 <= i < h.len() implies #[trigger] expired_at(now)(h[i]) by {}
        lemma_filter_none(h, kept_at(now));
        lemma_filter_all(h, expired_at(now));
        assert(ids(h) =~= ids(s));
    }
}

} // verus!
