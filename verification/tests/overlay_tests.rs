use cockroach_reminder::overlay_manager::{
    Maintenance, Overlay, OverlayManager, OVERLAY_HOT_CACHE_TTL_MS,
};
use cockroach_reminder::timer::Timer;

fn overlay(id: u64, active: bool, hidden_since: Option<u64>) -> Overlay<u64> {
    Overlay {
        id,
        active,
        hidden_since,
        cockroach_count: 0,
    }
}

#[test]
fn new_is_empty() {
    let mgr = OverlayManager::<u64>::new();
    assert!(mgr.overlays.is_empty());
    assert!(!mgr.any_active_overlay());
    assert!(!mgr.pending_break);
}

#[test]
fn any_active_overlay_true_when_active_exists() {
    let mut mgr = OverlayManager::<u64>::new();
    mgr.overlays.push(overlay(1, true, None));
    assert!(mgr.any_active_overlay());
}

#[test]
fn any_active_overlay_false_when_all_inactive() {
    let mut mgr = OverlayManager::<u64>::new();
    mgr.overlays.push(overlay(1, false, None));
    assert!(!mgr.any_active_overlay());
}

#[test]
fn close_overlays_at_clears_cockroaches_and_sets_inactive() {
    let mut mgr = OverlayManager::<u64>::new();
    mgr.overlays.push(overlay(1, true, None));

    let now = 5_000_000;
    let hidden = mgr.close_overlays_at(now);

    assert_eq!(hidden, vec![1]);
    assert!(!mgr.overlays[0].active);
    assert_eq!(mgr.overlays[0].cockroach_count, 0);
    assert!(mgr.overlays[0].hidden_since.is_some());
}

#[test]
fn release_idle_overlays_removes_expired_only() {
    let mut mgr = OverlayManager::<u64>::new();
    let now = 5_000_000;

    // One fresh, one expired
    let fresh_id = 7;
    mgr.overlays.push(overlay(fresh_id, false, Some(now)));
    let expired_id = 8;
    mgr.overlays.push(overlay(
        expired_id,
        false,
        Some(now - OVERLAY_HOT_CACHE_TTL_MS - 1_000),
    ));

    let closed = mgr.release_idle_overlays(now);
    assert_eq!(mgr.overlays.len(), 1);
    assert_eq!(mgr.overlays[0].id, fresh_id);
    assert_eq!(closed, vec![expired_id]);
}

#[test]
fn maintain_overlays_does_nothing_when_active() {
    let mut mgr = OverlayManager::<u64>::new();
    mgr.overlays.push(overlay(1, true, None));

    let mut timer = Timer::new(25, 15);
    timer.start();

    let result = mgr.maintain_overlays(&timer, 5_000_000);
    assert!(matches!(result, Maintenance::Nothing));
    assert_eq!(mgr.overlays.len(), 1);
    assert!(mgr.overlays[0].active);
}

#[test]
fn pending_break_set_when_frames_none() {
    let mut mgr = OverlayManager::<u64>::new();
    let proceed = mgr.spawn_overlays(false);
    assert!(!proceed);
    assert!(mgr.pending_break);
}

#[test]
fn pending_break_cleared_when_frames_provided() {
    let mut mgr = OverlayManager::<u64>::new();
    let proceed = mgr.spawn_overlays(true);
    assert!(proceed);
    assert!(!mgr.pending_break);
}

#[test]
fn reuses_overlay_windows_between_breaks() {
    let mut mgr = OverlayManager::<u64>::new();
    let count = 3;

    let closed = mgr.show_overlays(1, vec![41], count, 1_000);
    assert!(closed.is_empty());
    let first_ids: Vec<u64> = mgr.overlays.iter().map(|ov| ov.id).collect();
    assert_eq!(mgr.overlays.len(), 1);
    assert!(mgr.any_active_overlay());

    let _ = mgr.close_overlays_at(2_000);
    assert_eq!(mgr.overlays.len(), 1);
    assert!(!mgr.any_active_overlay());
    assert!(mgr.overlays[0].hidden_since.is_some());
    assert_eq!(mgr.overlays[0].cockroach_count, 0);

    let closed = mgr.show_overlays(1, vec![], count, 3_000);
    assert!(closed.is_empty());
    let second_ids: Vec<u64> = mgr.overlays.iter().map(|ov| ov.id).collect();
    assert_eq!(second_ids, first_ids);
    assert!(mgr.any_active_overlay());
    assert!(mgr.overlays[0].hidden_since.is_none());
    assert_eq!(mgr.overlays[0].cockroach_count, 3);
}

#[test]
fn releases_hidden_overlay_windows_after_hot_cache_ttl() {
    let mut mgr = OverlayManager::<u64>::new();
    let _ = mgr.show_overlays(1, vec![41], 3, 1_000);
    let hidden_at = 10_000;
    let _ = mgr.close_overlays_at(hidden_at);

    let closed = mgr.release_idle_overlays(hidden_at + OVERLAY_HOT_CACHE_TTL_MS - 1_000);
    assert!(closed.is_empty());
    assert_eq!(mgr.overlays.len(), 1);

    let closed = mgr.release_idle_overlays(hidden_at + OVERLAY_HOT_CACHE_TTL_MS);
    assert_eq!(closed, vec![41]);
    assert!(mgr.overlays.is_empty());
}

// ---- further cases ----

#[test]
fn sync_opens_windows_for_new_displays_in_order() {
    let mut mgr = OverlayManager::<u64>::new();
    let _ = mgr.show_overlays(1, vec![10], 4, 0);
    let closed = mgr.sync_overlays(3, vec![11, 12], 4, false, 500);
    assert!(closed.is_empty());
    let ids: Vec<u64> = mgr.overlays.iter().map(|ov| ov.id).collect();
    assert_eq!(ids, vec![10, 11, 12]);
    for ov in &mgr.overlays {
        assert!(!ov.active);
        assert_eq!(ov.hidden_since, Some(500));
        assert_eq!(ov.cockroach_count, 0);
    }
}

#[test]
fn sync_closes_windows_of_removed_displays_in_order() {
    let mut mgr = OverlayManager::<u64>::new();
    let _ = mgr.show_overlays(4, vec![1, 2, 3, 4], 2, 0);
    let closed = mgr.show_overlays(1, vec![], 2, 100);
    assert_eq!(closed, vec![2, 3, 4]);
    assert_eq!(mgr.overlays.len(), 1);
    assert_eq!(mgr.overlays[0].id, 1);
    assert_eq!(mgr.overlays[0].cockroach_count, 2);
}

#[test]
fn maintain_overlays_prewarms_shortly_before_break() {
    let mut mgr = OverlayManager::<u64>::new();
    let mut timer = Timer::new(25, 15);
    timer.start();
    timer.remaining_ms = 5_000;
    assert!(matches!(mgr.maintain_overlays(&timer, 0), Maintenance::Prewarm));
    timer.remaining_ms = 6_000;
    assert!(matches!(
        mgr.maintain_overlays(&timer, 0),
        Maintenance::Released(ref ids) if ids.is_empty()
    ));
}

#[test]
fn maintain_overlays_releases_expired_when_idle() {
    let mut mgr = OverlayManager::<u64>::new();
    mgr.overlays.push(overlay(5, false, Some(0)));
    mgr.overlays.push(overlay(6, false, Some(50_000)));
    let timer = Timer::new(25, 15);
    match mgr.maintain_overlays(&timer, OVERLAY_HOT_CACHE_TTL_MS) {
        Maintenance::Released(ids) => assert_eq!(ids, vec![5]),
        _ => panic!("expected a release"),
    }
    assert_eq!(mgr.overlays.len(), 1);
    assert_eq!(mgr.overlays[0].id, 6);
}

#[test]
fn hidden_in_the_future_is_not_expired() {
    let mut mgr = OverlayManager::<u64>::new();
    mgr.overlays.push(overlay(9, false, Some(1_000_000)));
    let closed = mgr.release_idle_overlays(10);
    assert!(closed.is_empty());
    assert_eq!(mgr.overlays.len(), 1);
}

#[test]
fn remove_window_forgets_only_that_window() {
    let mut mgr = OverlayManager::<u64>::new();
    let _ = mgr.show_overlays(3, vec![1, 2, 3], 2, 0);
    mgr.remove_window(2);
    let ids: Vec<u64> = mgr.overlays.iter().map(|ov| ov.id).collect();
    assert_eq!(ids, vec![1, 3]);
    mgr.remove_window(9);
    assert_eq!(mgr.overlays.len(), 2);
}

#[test]
fn sync_never_closes_a_window_still_in_use() {
    let mut mgr = OverlayManager::<u64>::new();
    let _ = mgr.show_overlays(3, vec![1, 2, 3], 2, 0);
    let closed = mgr.sync_overlays(2, vec![], 2, false, 10);
    let ids: Vec<u64> = mgr.overlays.iter().map(|ov| ov.id).collect();
    assert_eq!(closed, vec![3]);
    assert!(closed.iter().all(|c| !ids.contains(c)));
    assert_eq!(ids, vec![1, 2]);
}
