use holdem_core::config::MouseMonitorConfig;
use holdem_core::screen::Position;
use holdem_core::shake::ShakeState;

fn test_config() -> MouseMonitorConfig {
    MouseMonitorConfig {
        required_shakes: 3,
        shake_time_limit: 1500,
        shake_threshold: 50,
        window_close_delay: 3000,
    }
}

#[test]
fn no_fire_when_window_expires() {
    // Samples (t, x): a baseline, two reversals, then a late reversal that
    // must start a fresh count instead of completing the shake.
    let cfg = test_config();
    let mut s = ShakeState::new(0, 0, 0);
    assert_eq!(s.sample(&cfg, 0, 0, true, 0), None);
    assert_eq!(s.shake_count, 0);
    assert_eq!(s.sample(&cfg, 100, 0, true, 100), None); // baseline, Right
    assert_eq!(s.shake_count, 0);
    assert_eq!(s.sample(&cfg, 0, 0, true, 200), None); // reversal 1
    assert_eq!(s.shake_count, 1);
    assert_eq!(s.sample(&cfg, 100, 0, true, 300), None); // reversal 2
    assert_eq!(s.shake_count, 2);
    // 2200 ms since the last counted reversal: stale progress is forgotten
    // and this reversal counts as a fresh first one.
    assert_eq!(s.sample(&cfg, 0, 0, true, 2500), None);
    assert_eq!(s.shake_count, 1);
}

#[test]
fn fire_within_window() {
    let cfg = test_config();
    let mut s = ShakeState::new(0, 0, 0);
    assert_eq!(s.sample(&cfg, 0, 0, true, 0), None);
    assert_eq!(s.sample(&cfg, 100, 0, true, 100), None);
    assert_eq!(s.sample(&cfg, 0, 0, true, 200), None);
    assert_eq!(s.sample(&cfg, 100, 0, true, 300), None);
    assert_eq!(s.shake_count, 2);
    // One more reversal within the window completes the shake.
    let trigger = s.sample(&cfg, 0, 0, true, 600);
    assert_eq!(trigger, Some(Position { x: 0, y: 0 }));
    assert_eq!(s.shake_count, 0);
}

#[test]
fn release_resets_count() {
    let cfg = test_config();
    let mut s = ShakeState::new(0, 0, 0);
    s.sample(&cfg, 100, 0, true, 100);
    s.sample(&cfg, 0, 0, true, 200);
    s.sample(&cfg, 100, 0, true, 300);
    assert_eq!(s.shake_count, 2);
    // Button released: the count resets, whatever it was.
    assert_eq!(s.sample(&cfg, 100, 0, false, 400), None);
    assert_eq!(s.shake_count, 0);
}

#[test]
fn count_never_exceeds_required() {
    let cfg = test_config();
    let mut s = ShakeState::new(0, 0, 0);
    let mut fired = 0;
    let mut x = 0;
    for k in 0..50u64 {
        x = if x == 0 { 100 } else { 0 };
        if s.sample(&cfg, x, 0, true, 100 * (k + 1)).is_some() {
            fired += 1;
            assert_eq!(s.shake_count, 0);
        }
        assert!(s.shake_count <= cfg.required_shakes);
    }
    assert!(fired > 1);
}

#[test]
fn small_movements_do_not_count() {
    let cfg = test_config();
    let mut s = ShakeState::new(0, 0, 0);
    // Displacements of 50 px do not exceed the 50 px threshold.
    assert_eq!(s.sample(&cfg, 50, 0, true, 100), None);
    assert_eq!(s.sample(&cfg, 0, 0, true, 200), None);
    assert_eq!(s.sample(&cfg, 50, 0, true, 300), None);
    assert_eq!(s.shake_count, 0);
}
