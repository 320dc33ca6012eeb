use holdem_core::screen::Position;
use holdem_core::visibility::{VisibilityState, WindowIntent};

#[test]
fn show_then_idle_hide() {
    let mut v = VisibilityState::new(0);
    let intent = v.show(Position { x: 10, y: 20 }, 1000);
    assert_eq!(intent, WindowIntent::ShowAt(Position { x: 10, y: 20 }));
    assert!(v.shown);
    // Not yet idle for long enough.
    let t = v.tick(false, 3999, 3000);
    assert!(!t.hide);
    assert!(v.shown);
    // Idle for the full delay: hide.
    let t = v.tick(false, 4000, 3000);
    assert!(t.hide);
    assert!(!t.consume_activity);
    assert!(!v.shown);
}

#[test]
fn hidden_window_ignores_ticks() {
    let mut v = VisibilityState::new(0);
    let t = v.tick(true, 10_000, 3000);
    assert!(!t.hide);
    assert!(!t.consume_activity);
    assert!(!v.shown);
}

#[test]
fn activity_postpones_hide() {
    // The idle timer had already elapsed before the activity arrived; the
    // activity still wins, and no hide may happen for a full delay after it.
    let mut v = VisibilityState::new(0);
    v.show(Position { x: 0, y: 0 }, 1000);
    let t = v.tick(true, 3900, 3000);
    assert!(!t.hide);
    assert!(t.consume_activity);
    assert_eq!(v.last_relevant_time, 3900);
    assert!(!v.tick(false, 4100, 3000).hide);
    assert!(!v.tick(false, 6899, 3000).hide);
    let t = v.tick(false, 6900, 3000);
    assert!(t.hide);
}

#[test]
fn repeated_activity_keeps_window() {
    let mut v = VisibilityState::new(0);
    v.show(Position { x: 0, y: 0 }, 0);
    for k in 1..10u64 {
        let t = v.tick(true, k * 2000, 3000);
        assert!(!t.hide);
        assert!(t.consume_activity);
        assert!(v.shown);
    }
}
