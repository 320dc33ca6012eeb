//! Configuration of the shake monitor.
//!
//! All durations are in milliseconds; `window_close_delay` in particular is
//! read as milliseconds (source material disagreed on its unit, and
//! milliseconds is the convention adopted throughout this crate).

use vstd::prelude::*;

verus! {

/// Tuning parameters of the shake detector and the visibility controller.
#[derive(Clone, PartialEq, Eq, Structural, Debug)]
pub struct MouseMonitorConfig {
    /// Number of counted direction reversals that make a shake.
    pub required_shakes: u32,
    /// Maximum interval in milliseconds between consecutive counted
    /// reversals (the debounce window).
    pub shake_time_limit: u64,
    /// Minimum horizontal displacement in pixels, per tick, for a movement
    /// to classify as directed; also used as the screen-edge margin when the
    /// window is placed.
    pub shake_threshold: i32,
    /// Idle time in milliseconds after which a shown window is hidden.
    pub window_close_delay: u64,
}

impl Default for MouseMonitorConfig {
    /// Defaults: five reversals within 1500 ms, a 100 px threshold, and a
    /// 3000 ms idle delay before hiding.
    fn default() -> (c: MouseMonitorConfig)
        ensures
            c.required_shakes == 5,
            c.shake_time_limit == 1500,
            c.shake_threshold == 100,
            c.window_close_delay == 3000,
    {
        MouseMonitorConfig {
            required_shakes: 5,
            shake_time_limit: 1500,
            shake_threshold: 100,
            window_close_delay: 3000,
        }
    }
}

/// Application configuration as persisted by the embedding application.
#[derive(Clone, Debug)]
pub struct AppConfig {
    pub mouse_monitor: MouseMonitorConfig,
    /// Whether the application registers itself to start with the session.
    pub autostart: bool,
    /// Textual global-shortcut description, e.g. `"Ctrl+Shift+N"`; empty
    /// when no shortcut is configured.
    pub hotkey: String,
}

impl Default for AppConfig {
    fn default() -> (c: AppConfig)
        ensures
            c.mouse_monitor.required_shakes == 5,
            c.mouse_monitor.shake_time_limit == 1500,
            c.mouse_monitor.shake_threshold == 100,
            c.mouse_monitor.window_close_delay == 3000,
            !c.autostart,
            c.hotkey@.len() == 0,
    {
        let hotkey = String::new();
        AppConfig {
            mouse_monitor: MouseMonitorConfig {
                required_shakes: 5,
                shake_time_limit: 1500,
                shake_threshold: 100,
                window_close_delay: 3000,
            },
            autostart: false,
            hotkey,
        }
    }
}

} // verus!
