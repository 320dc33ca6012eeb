//! The visibility controller: decides when the auxiliary window is shown
//! and when it is hidden again.
//!
//! The controller never touches a window itself; it answers with intents
//! (`ShowAt`, `Hide`) that the embedding application executes.  A shared
//! activity signal — set by drop-completion handlers on other threads, read
//! once per tick by the monitoring loop — suppresses the idle hide; the
//! controller asks for the signal to be cleared whenever it consumes it.
//!
//! `window_close_delay` is read as milliseconds, like every other duration
//! in this crate.

use crate::screen::Position;
use vstd::prelude::*;

verus! {

/// A window manipulation requested by the controller.
#[derive(Clone, Copy, PartialEq, Eq, Structural, Debug)]
pub enum WindowIntent {
    /// Show the window at the given position, restoring and focusing it.
    ShowAt(Position),
    /// Hide the window.
    Hide,
}

/// State of the visibility controller.
#[derive(Clone, Copy, PartialEq, Eq, Structural, Debug)]
pub struct VisibilityState {
    /// Whether the window is currently believed shown.
    pub shown: bool,
    /// Time of the last event that counts as relevant activity: the last
    /// show, or the last consumed activity signal.
    pub last_relevant_time: u64,
}

/// What one idle tick decides.
#[derive(Clone, Copy, PartialEq, Eq, Structural, Debug)]
pub struct VisTick {
    /// Emit a `Hide` intent this tick.
    pub hide: bool,
    /// Clear the shared activity signal (it was consumed this tick).
    pub consume_activity: bool,
}

/// One idle tick of the controller as a mathematical function: the state
/// after the tick, whether to hide, and whether the activity signal was
/// consumed.
///
/// A hidden window is left alone.  A shown window with the activity signal
/// set consumes the signal and restarts its idle timer.  A shown window
/// whose idle timer has run out is hidden.  Otherwise nothing changes.
pub open spec fn spec_vis_tick(
    pre: VisibilityState,
    activity: bool,
    now: u64,
    close_delay: u64,
) -> (VisibilityState, VisTick) {
    if !pre.shown {
        (pre, VisTick { hide: false, consume_activity: false })
    } else if activity {
        (
            VisibilityState { shown: true, last_relevant_time: now },
            VisTick { hide: false, consume_activity: true },
        )
    } else if now - pre.last_relevant_time >= close_delay {
        (
            VisibilityState { shown: false, last_relevant_time: pre.last_relevant_time },
            VisTick { hide: true, consume_activity: false },
        )
    } else {
        (pre, VisTick { hide: false, consume_activity: false })
    }
}

impl VisibilityState {
    /// A controller for a window that starts hidden.
    pub fn new(now: u64) -> (s: VisibilityState)
        ensures
            s == (VisibilityState { shown: false, last_relevant_time: now }),
    {
        VisibilityState { shown: false, last_relevant_time: now }
    }

    /// Records a show — from a detected shake or from an external request
    /// such as a hotkey — and returns the intent to execute.  The caller
    /// supplies the (already corrected) position.
    pub fn show(&mut self, pos: Position, now: u64) -> (intent: WindowIntent)
        ensures
            *final(self) == (VisibilityState { shown: true, last_relevant_time: now }),
            intent == WindowIntent::ShowAt(pos),
    {
        self.shown = true;
        self.last_relevant_time = now;
        WindowIntent::ShowAt(pos)
    }

    /// One idle tick: consumes the activity signal or decides to hide, per
    /// [`spec_vis_tick`].
    pub fn tick(&mut self, activity: bool, now: u64, close_delay: u64) -> (r: VisTick)
        requires
            old(self).shown ==> old(self).last_relevant_time <= now,
        ensures
            *final(self) == spec_vis_tick(*old(self), activity, now, close_delay).0,
            r == spec_vis_tick(*old(self), activity, now, close_delay).1,
            final(self).shown ==> final(self).last_relevant_time <= now,
            r.hide ==> !final(self).shown,
    {
        if !self.shown {
            VisTick { hide: false, consume_activity: false }
        } else if activity {
            self.last_relevant_time = now;
            VisTick { hide: false, consume_activity: true }
        } else if now - self.last_relevant_time >= close_delay {
            self.shown = false;
            VisTick { hide: true, consume_activity: false }
        } else {
            VisTick { hide: false, consume_activity: false }
        }
    }
}

/// The activity signal and clock reading of one idle tick.
#[derive(Clone, Copy, PartialEq, Eq, Structural, Debug)]
pub struct VisInput {
    pub activity: bool,
    pub now: u64,
}

/// The controller state after a whole sequence of idle ticks, first to
/// last.
pub open spec fn spec_vis_run(
    init: VisibilityState,
    ticks: Seq<VisInput>,
    close_delay: u64,
) -> VisibilityState
    decreases ticks.len(),
{
    if ticks.len() == 0 {
        init
    } else {
        spec_vis_tick(
            spec_vis_run(init, ticks.drop_last(), close_delay),
            ticks.last().activity,
            ticks.last().now,
            close_delay,
        ).0
    }
}

/// Whether the tick at index `k` of the run decides to hide.
pub open spec fn spec_hides_at(
    init: VisibilityState,
    ticks: Seq<VisInput>,
    close_delay: u64,
    k: int,
) -> bool {
    spec_vis_tick(
        spec_vis_run(init, ticks.take(k), close_delay),
        ticks[k].activity,
        ticks[k].now,
        close_delay,
    ).1.hide
}

/// Law (activity suppresses hide): once relevant activity has been
/// recorded at time `t_activity` — the state's `last_relevant_time` is at
/// least `t_activity`, as it is right after an activity signal raised at
/// that time is consumed — no tick that happens before
/// `t_activity + close_delay` hides the window, no matter how long the
/// window had already been idle before the activity.
pub proof fn lemma_activity_suppresses_hide(
    init: VisibilityState,
    ticks: Seq<VisInput>,
    close_delay: u64,
    t_activity: u64,
)
    requires
        init.shown ==> init.last_relevant_time >= t_activity,
        forall|k: int| 0 <= k < ticks.len() ==> t_activity <= #[trigger] ticks[k].now,
        forall|k: int| 0 <= k < ticks.len() ==> #[trigger] ticks[k].now < t_activity + close_delay,
    ensures
        forall|k: int| 0 <= k < ticks.len() ==> !spec_hides_at(init, ticks, close_delay, k),
        spec_vis_run(init, ticks, close_delay).shown ==> spec_vis_run(
            init,
            ticks,
            close_delay,
        ).last_relevant_time >= t_activity,
    decreases ticks.len(),
{
    if ticks.len() > 0 {
        let prefix = ticks.drop_last();
        lemma_activity_suppresses_hide(init, prefix, close_delay, t_activity);
        assert(ticks.take(ticks.len() - 1) =~= prefix);
        assert forall|k: int| 0 <= k < ticks.len() implies !spec_hides_at(
            init,
            ticks,
            close_delay,
            k,
        ) by {
            if k < ticks.len() - 1 {
                assert(ticks.take(k) =~= prefix.take(k));
                assert(!spec_hides_at(init, prefix, close_delay, k));
            }
        }
    }
}

} // verus!
