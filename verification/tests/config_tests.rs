use holdem_core::config::{AppConfig, MouseMonitorConfig};

#[test]
fn monitor_defaults() {
    let c = MouseMonitorConfig::default();
    assert_eq!(c.required_shakes, 5);
    assert_eq!(c.shake_time_limit, 1500);
    assert_eq!(c.shake_threshold, 100);
    assert_eq!(c.window_close_delay, 3000);
}

#[test]
fn app_defaults() {
    let c = AppConfig::default();
    assert_eq!(c.mouse_monitor.required_shakes, 5);
    assert!(!c.autostart);
    assert!(c.hotkey.is_empty());
}
