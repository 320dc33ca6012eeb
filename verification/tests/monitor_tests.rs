use holdem_core::config::MouseMonitorConfig;
use holdem_core::monitor::{process_allowed, MonitorState, TickInput};
use holdem_core::screen::{Position, ScreenBounds};

fn cfg() -> MouseMonitorConfig {
    MouseMonitorConfig {
        required_shakes: 3,
        shake_time_limit: 1500,
        shake_threshold: 50,
        window_close_delay: 1000,
    }
}

fn input(x: i32, button_down: bool, now: u64) -> TickInput {
    TickInput {
        x,
        y: 500,
        button_down,
        context_sample: None,
        activity: false,
        screen: ScreenBounds { width: 1920, height: 1080 },
        now,
    }
}

#[test]
fn shake_shows_then_idle_hides() {
    let c = cfg();
    let mut m = MonitorState::new(0, 500, 0);
    assert_eq!(m.tick(&c, input(0, true, 0)).show_at, None);
    assert_eq!(m.tick(&c, input(200, true, 100)).show_at, None); // baseline
    assert_eq!(m.tick(&c, input(0, true, 200)).show_at, None); // 1
    assert_eq!(m.tick(&c, input(200, true, 300)).show_at, None); // 2
    let out = m.tick(&c, input(0, true, 400)); // 3: fires at (0, 500)
    assert_eq!(out.show_at, Some(Position { x: 0, y: 500 }));
    assert!(!out.hide);
    assert!(m.vis.shown);
    // Idle past the close delay: the hide intent comes out.
    let out = m.tick(&c, input(0, false, 1399));
    assert!(!out.hide);
    let out = m.tick(&c, input(0, false, 1400));
    assert!(out.hide);
    assert!(!m.vis.shown);
}

#[test]
fn trigger_near_edge_is_corrected() {
    let c = cfg();
    let mut m = MonitorState::new(1900, 500, 0);
    m.tick(&c, input(1900, true, 0));
    m.tick(&c, input(1700, true, 100)); // baseline Left
    m.tick(&c, input(1900, true, 200)); // 1
    m.tick(&c, input(1700, true, 300)); // 2
    let out = m.tick(&c, input(1900, true, 400)); // fires at x = 1900
    // 1900 + 50 > 1920, so the shown position is pulled left by the margin.
    assert_eq!(out.show_at, Some(Position { x: 1850, y: 500 }));
}

#[test]
fn blocked_context_suppresses_detection() {
    let c = cfg();
    let mut m = MonitorState::new(0, 500, 0);
    let mut inp = input(0, true, 0);
    inp.context_sample = Some(false);
    m.tick(&c, inp);
    assert!(!m.context_active);
    // The same movements that fire in the other test do nothing now.
    m.tick(&c, input(200, true, 100));
    m.tick(&c, input(0, true, 200));
    m.tick(&c, input(200, true, 300));
    let out = m.tick(&c, input(0, true, 400));
    assert_eq!(out.show_at, None);
    assert_eq!(m.shake.shake_count, 0);
}

#[test]
fn context_reopens_on_new_sample() {
    let c = cfg();
    let mut m = MonitorState::new(0, 500, 0);
    let mut inp = input(0, true, 0);
    inp.context_sample = Some(false);
    m.tick(&c, inp);
    let mut inp = input(0, true, 500);
    inp.context_sample = Some(true);
    m.tick(&c, inp);
    assert!(m.context_active);
    assert_eq!(m.last_context_check, 500);
    assert!(!m.context_check_due(999, 500));
    assert!(m.context_check_due(1000, 500));
}

#[test]
fn activity_signal_consumed_and_suppresses_hide() {
    let c = cfg();
    let mut m = MonitorState::new(0, 500, 0);
    m.tick(&c, input(0, true, 0));
    m.tick(&c, input(200, true, 100));
    m.tick(&c, input(0, true, 200));
    m.tick(&c, input(200, true, 300));
    assert!(m.tick(&c, input(0, true, 400)).show_at.is_some());
    // Activity arrives after the idle timer would have elapsed.
    let mut inp = input(0, false, 2000);
    inp.activity = true;
    let out = m.tick(&c, inp);
    assert!(out.consume_activity);
    assert!(!out.hide);
    // The idle timer restarted at 2000.
    assert!(!m.tick(&c, input(0, false, 2999)).hide);
    assert!(m.tick(&c, input(0, false, 3000)).hide);
}

#[test]
fn external_show_request_corrects_and_restarts_timer() {
    let c = cfg();
    let mut m = MonitorState::new(0, 500, 0);
    let intent = m.show_request(Position { x: 1900, y: 1070 }, 200, ScreenBounds { width: 1920, height: 1080 }, 700);
    assert_eq!(
        intent,
        holdem_core::visibility::WindowIntent::ShowAt(Position { x: 1700, y: 870 })
    );
    assert!(m.vis.shown);
    assert_eq!(m.vis.last_relevant_time, 700);
    // The idle timer counts from the show.
    assert!(!m.tick(&c, input(0, false, 1699)).hide);
    assert!(m.tick(&c, input(0, false, 1700)).hide);
}

#[test]
fn process_allowlist_matches_executable_name() {
    let allow = vec!["explorer.exe".to_string()];
    assert!(process_allowed("C:\\Windows\\explorer.exe", &allow));
    assert!(process_allowed("explorer.exe", &allow));
    assert!(!process_allowed("C:\\Games\\fullscreen_game.exe", &allow));
    assert!(!process_allowed("C:\\Windows\\explorer.exe\\", &allow));
    assert!(!process_allowed("anything", &Vec::new()));
}
