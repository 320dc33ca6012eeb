//! Decision core of the monitoring loop.
//!
//! The embedding application runs one tick per sample interval on a
//! dedicated thread: it queries the pointer, the button, occasionally the
//! foreground context and the shared activity signal, hands the readings
//! to [`MonitorState::tick`], and executes the intents that come back.
//! Everything that decides lives here; the queries and the window calls
//! stay outside.

use crate::config::MouseMonitorConfig;
use crate::files::{base_name, spec_base_start};
use crate::screen::{correct_position, spec_corrected, Position, ScreenBounds};
use crate::shake::{spec_step, ShakeState};
use crate::visibility::{spec_vis_tick, VisibilityState};
use vstd::prelude::*;

verus! {

/// Whether the foreground process enables detection: its executable name
/// — the final component of its path — must be on the allowlist.
pub fn process_allowed(process_path: &str, allowlist: &Vec<String>) -> (r: bool)
    ensures
        r == (exists|i: int|
            0 <= i < allowlist@.len() && allowlist@[i]@ == process_path@.subrange(
                spec_base_start(process_path@),
                process_path@.len() as int,
            )),
{
    let name = base_name(process_path);
    let n = allowlist.len();
    let mut i: usize = 0;
    while i < n
        invariant
            i <= n,
            n == allowlist@.len(),
            name@ == process_path@.subrange(
                spec_base_start(process_path@),
                process_path@.len() as int,
            ),
            forall|j: int| 0 <= j < i ==> allowlist@[j]@ != name@,
        decreases n - i,
    {
        if allowlist[i] == name {
            return true;
        }
        i = i + 1;
    }
    false
}

/// State owned by the monitoring loop.
#[derive(Clone, Debug)]
pub struct MonitorState {
    pub shake: ShakeState,
    pub vis: VisibilityState,
    /// Whether the foreground context allowed detection at the last check.
    pub context_active: bool,
    /// Time of the last foreground-context check.
    pub last_context_check: u64,
}

/// Everything one tick of the loop reads from the outside world.
#[derive(Clone, Copy, Debug)]
pub struct TickInput {
    /// Pointer position.
    pub x: i32,
    pub y: i32,
    /// Whether the primary button is currently pressed.
    pub button_down: bool,
    /// Fresh result of the low-frequency foreground-context check, on the
    /// ticks that performed one; `None` keeps the previous value.
    pub context_sample: Option<bool>,
    /// Current value of the shared activity signal.
    pub activity: bool,
    /// Screen dimensions, for edge correction.
    pub screen: ScreenBounds,
    /// Current time in milliseconds.
    pub now: u64,
}

/// Everything one tick of the loop asks the outside world to do.
#[derive(Clone, Copy, PartialEq, Eq, Structural, Debug)]
pub struct TickOutput {
    /// Show the window at this (edge-corrected) position, restoring and
    /// focusing it.
    pub show_at: Option<Position>,
    /// Hide the window.
    pub hide: bool,
    /// Clear the shared activity signal.
    pub consume_activity: bool,
}

/// One tick of the whole monitor as a mathematical function.
///
/// A tick begins by taking over a new foreground reading, when there is
/// one.  While the foreground context allows detection, the reversal
/// counter consumes the pointer reading; when it reports a shake, the
/// position is pulled clear of the screen edges and the window is put up.
/// The visibility controller then runs its idle tick.
pub open spec fn spec_monitor_tick(
    pre: MonitorState,
    cfg: MouseMonitorConfig,
    input: TickInput,
) -> (MonitorState, TickOutput) {
    let active = match input.context_sample {
        Some(active) => active,
        None => pre.context_active,
    };
    let context_check = match input.context_sample {
        Some(active) => input.now,
        None => pre.last_context_check,
    };
    let stepped = spec_step(pre.shake, cfg, input.x, input.y, input.button_down, input.now);
    let shake1 = if active {
        stepped.0
    } else {
        pre.shake
    };
    let fired = active && stepped.1;
    let corrected = (Position {
        x: spec_corrected(input.x as int, cfg.shake_threshold as int, input.screen.width as int) as i32,
        y: spec_corrected(input.y as int, cfg.shake_threshold as int, input.screen.height as int) as i32,
    });
    let vis1 = if fired {
        (VisibilityState { shown: true, last_relevant_time: input.now })
    } else {
        pre.vis
    };
    let ticked = spec_vis_tick(vis1, input.activity, input.now, cfg.window_close_delay);
    (
        (MonitorState { shake: shake1, vis: ticked.0, context_active: active, last_context_check: context_check }),
        (TickOutput {
            show_at: if fired {
                Some(corrected)
            } else {
                None
            },
            hide: ticked.1.hide,
            consume_activity: ticked.1.consume_activity,
        }),
    )
}

/// Law: a tick that observes the activity signal set never asks for the
/// window to be hidden, whatever state the monitor is in.
pub proof fn lemma_activity_blocks_hide(pre: MonitorState, cfg: MouseMonitorConfig, input: TickInput)
    requires
        input.activity,
    ensures
        !spec_monitor_tick(pre, cfg, input).1.hide,
{
}

impl MonitorState {
    /// The times remembered by the state never lie in the future of `now`;
    /// a loop that feeds a monotone clock keeps this across ticks.
    pub open spec fn time_consistent(self, now: u64) -> bool {
        &&& self.shake.last_reversal_time <= now
        &&& (self.vis.shown ==> self.vis.last_relevant_time <= now)
        &&& self.last_context_check <= now
    }

    /// A fresh monitor: idle detector, hidden window, detection allowed,
    /// with the given position and time as baseline.
    pub fn new(x: i32, y: i32, now: u64) -> (s: MonitorState)
        ensures
            s.shake.last_x == x,
            s.shake.last_y == y,
            s.shake.last_direction is None,
            s.shake.shake_count == 0,
            s.shake.last_reversal_time == now,
            s.vis == (VisibilityState { shown: false, last_relevant_time: now }),
            s.context_active,
            s.last_context_check == now,
    {
        MonitorState {
            shake: ShakeState::new(x, y, now),
            vis: VisibilityState::new(now),
            context_active: true,
            last_context_check: now,
        }
    }

    /// Whether the low-frequency foreground-context check is due again.
    pub fn context_check_due(&self, now: u64, interval: u64) -> (r: bool)
        requires
            self.last_context_check <= now,
        ensures
            r == (now - self.last_context_check >= interval),
    {
        now - self.last_context_check >= interval
    }

    /// A show requested by another trigger source — a hotkey press or a
    /// tray click — handled exactly like a detected shake: the position is
    /// pulled clear of the screen edges with the caller's margin, the
    /// window is shown there, and the idle timer restarts.
    pub fn show_request(
        &mut self,
        pos: Position,
        margin: i32,
        screen: ScreenBounds,
        now: u64,
    ) -> (intent: crate::visibility::WindowIntent)
        requires
            0 <= margin,
            i32::MIN + margin <= pos.x,
            i32::MIN + margin <= pos.y,
        ensures
            final(self).vis == (VisibilityState { shown: true, last_relevant_time: now }),
            final(self).shake == old(self).shake,
            final(self).context_active == old(self).context_active,
            final(self).last_context_check == old(self).last_context_check,
            intent == crate::visibility::WindowIntent::ShowAt(
                (Position {
                    x: spec_corrected(pos.x as int, margin as int, screen.width as int) as i32,
                    y: spec_corrected(pos.y as int, margin as int, screen.height as int) as i32,
                }),
            ),
    {
        let corrected = correct_position(pos, margin, screen);
        self.vis.show(corrected, now)
    }

    /// One tick of the monitor, per [`spec_monitor_tick`].
    pub fn tick(&mut self, cfg: &MouseMonitorConfig, input: TickInput) -> (out: TickOutput)
        requires
            old(self).shake.inv(*cfg),
            old(self).time_consistent(input.now),
            0 <= cfg.shake_threshold,
            i32::MIN + cfg.shake_threshold <= input.x,
            i32::MIN + cfg.shake_threshold <= input.y,
        ensures
            *final(self) == spec_monitor_tick(*old(self), *cfg, input).0,
            out == spec_monitor_tick(*old(self), *cfg, input).1,
            final(self).shake.inv(*cfg),
            final(self).time_consistent(input.now),
    {
        if let Some(active) = input.context_sample {
            self.context_active = active;
            self.last_context_check = input.now;
        }
        let mut show_at: Option<Position> = None;
        if self.context_active {
            let trigger = self.shake.sample(cfg, input.x, input.y, input.button_down, input.now);
            if let Some(pos) = trigger {
                let corrected = correct_position(pos, cfg.shake_threshold, input.screen);
                self.vis.show(corrected, input.now);
                show_at = Some(corrected);
            }
        }
        let ticked = self.vis.tick(input.activity, input.now, cfg.window_close_delay);
        TickOutput { show_at, hide: ticked.hide, consume_activity: ticked.consume_activity }
    }
}

} // verus!
