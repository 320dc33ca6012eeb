//! The shake detector: a debounced reversal counter.
//!
//! Once per tick the detector receives the pointer position, the state of
//! the primary button and the current time.  While the button is held it
//! classifies the horizontal movement since the previous sample as `Left`,
//! `Right` or neither, counts direction reversals that follow each other
//! within the debounce window, and reports a shake when enough reversals
//! have accumulated.
//!
//! Canonical rules (variants of this detector have differed on both):
//! - A reversal is a classified direction that differs from the previous
//!   classified direction, whether or not that one was counted.
//! - A reversal that arrives *later* than `shake_time_limit` after the last
//!   counted (or baseline) reversal starts a fresh count of 1 rather than
//!   extending the stale count.
//! - Releasing the button clears both the count and the direction memory.

use crate::config::MouseMonitorConfig;
use crate::screen::Position;
use vstd::prelude::*;

verus! {

/// Horizontal direction of a classified movement.
#[derive(Clone, Copy, PartialEq, Eq, Structural, Debug)]
pub enum Direction {
    Left,
    Right,
}

/// State of the debounced reversal counter.
#[derive(Clone, Debug)]
pub struct ShakeState {
    /// Pointer position at the previous sample.
    pub last_x: i32,
    pub last_y: i32,
    /// Direction classified at the most recent directed sample, if any.
    pub last_direction: Option<Direction>,
    /// Reversals counted so far in the current burst.
    pub shake_count: u32,
    /// Time of the last counted reversal, or of the baseline sample that
    /// opened the current burst.
    pub last_reversal_time: u64,
}

/// Classifies a horizontal displacement: `Right` beyond `threshold`, `Left`
/// beyond `-threshold`, neither otherwise.
pub open spec fn spec_classify(dx: int, threshold: int) -> Option<Direction> {
    if dx > threshold {
        Some(Direction::Right)
    } else if dx < -threshold {
        Some(Direction::Left)
    } else {
        None
    }
}

/// One tick of the detector as a mathematical function: the state after the
/// tick and whether a shake was detected.
///
/// With the button up, the count and the direction memory are cleared.
/// With the button down: a reversal within the debounce window increments
/// the count, a late reversal restarts it at 1, the first directed movement
/// of a burst only records a baseline, a long pause forgets all progress,
/// and reaching `required_shakes` reports the shake and resets the count.
/// The remembered position is updated on every tick.
pub open spec fn spec_step(
    pre: ShakeState,
    cfg: MouseMonitorConfig,
    x: i32,
    y: i32,
    button_down: bool,
    now: u64,
) -> (ShakeState, bool) {
    if !button_down {
        (
            ShakeState {
                last_x: x,
                last_y: y,
                last_direction: None,
                shake_count: 0,
                last_reversal_time: pre.last_reversal_time,
            },
            false,
        )
    } else {
        let dir = spec_classify(x - pre.last_x, cfg.shake_threshold as int);
        let (count1, reversal_time1, dir1) = match (dir, pre.last_direction) {
            (Some(d), Some(prev)) => if d != prev {
                if now - pre.last_reversal_time <= cfg.shake_time_limit {
                    ((pre.shake_count + 1) as u32, now, Some(d))
                } else {
                    (1u32, now, Some(d))
                }
            } else {
                (pre.shake_count, pre.last_reversal_time, Some(d))
            },
            (Some(d), None) => (pre.shake_count, now, Some(d)),
            (None, _) => (pre.shake_count, pre.last_reversal_time, pre.last_direction),
        };
        let (count2, dir2) = if now - reversal_time1 > cfg.shake_time_limit {
            (0u32, None)
        } else {
            (count1, dir1)
        };
        let fired = count2 >= cfg.required_shakes;
        (
            ShakeState {
                last_x: x,
                last_y: y,
                last_direction: dir2,
                shake_count: if fired {
                    0
                } else {
                    count2
                },
                last_reversal_time: reversal_time1,
            },
            fired,
        )
    }
}

impl ShakeState {
    /// The counter invariant: between ticks the count is zero or strictly
    /// below the firing threshold (a full count fires and resets within the
    /// same tick).
    pub open spec fn inv(self, cfg: MouseMonitorConfig) -> bool {
        self.shake_count == 0 || self.shake_count < cfg.required_shakes
    }

    /// A fresh detector: no direction memory, no counted reversals, with
    /// the given position and time as its baseline.
    pub fn new(x: i32, y: i32, now: u64) -> (s: ShakeState)
        ensures
            s.last_x == x,
            s.last_y == y,
            s.last_direction is None,
            s.shake_count == 0,
            s.last_reversal_time == now,
    {
        ShakeState { last_x: x, last_y: y, last_direction: None, shake_count: 0, last_reversal_time: now }
    }

    /// Feeds one sample to the detector and reports the shake trigger, if
    /// any, at the position of the sample.
    ///
    /// The count never exceeds `required_shakes` and is exactly zero
    /// immediately after a reported shake.
    pub fn sample(
        &mut self,
        cfg: &MouseMonitorConfig,
        x: i32,
        y: i32,
        button_down: bool,
        now: u64,
    ) -> (trigger: Option<Position>)
        requires
            old(self).inv(*cfg),
            old(self).last_reversal_time <= now,
        ensures
            *final(self) == spec_step(*old(self), *cfg, x, y, button_down, now).0,
            trigger == (if spec_step(*old(self), *cfg, x, y, button_down, now).1 {
                Some(Position { x, y })
            } else {
                None::<Position>
            }),
            final(self).inv(*cfg),
            final(self).shake_count <= cfg.required_shakes,
            trigger is Some ==> final(self).shake_count == 0,
            final(self).last_reversal_time <= now,
    {
        if !button_down {
            self.shake_count = 0;
            self.last_direction = None;
            self.last_x = x;
            self.last_y = y;
            return None;
        }
        let dx: i64 = x as i64 - self.last_x as i64;
        let threshold: i64 = cfg.shake_threshold as i64;
        let dir: Option<Direction> = if dx > threshold {
            Some(Direction::Right)
        } else if dx < -threshold {
            Some(Direction::Left)
        } else {
            None
        };
        if let Some(d) = dir {
            match self.last_direction {
                Some(prev) => {
                    if d != prev {
                        if now - self.last_reversal_time <= cfg.shake_time_limit {
                            self.shake_count = self.shake_count + 1;
                        } else {
                            self.shake_count = 1;
                        }
                        self.last_reversal_time = now;
                    }
                },
                None => {
                    self.last_reversal_time = now;
                },
            }
            self.last_direction = Some(d);
        }
        if now - self.last_reversal_time > cfg.shake_time_limit {
            self.shake_count = 0;
            self.last_direction = None;
        }
        let fired = self.shake_count >= cfg.required_shakes;
        if fired {
            self.shake_count = 0;
        }
        self.last_x = x;
        self.last_y = y;
        if fired {
            Some(Position { x, y })
        } else {
            None
        }
    }
}

/// One tick's worth of detector input.
#[derive(Clone, Copy, PartialEq, Eq, Structural, Debug)]
pub struct Sample {
    pub x: i32,
    pub y: i32,
    pub button_down: bool,
    pub now: u64,
}

/// The state after feeding a whole sequence of samples, first to last.
pub open spec fn spec_run(init: ShakeState, cfg: MouseMonitorConfig, samples: Seq<Sample>) -> ShakeState
    decreases samples.len(),
{
    if samples.len() == 0 {
        init
    } else {
        let s = samples.last();
        spec_step(spec_run(init, cfg, samples.drop_last()), cfg, s.x, s.y, s.button_down, s.now).0
    }
}

/// Law: one tick keeps the count within bounds.  From a state whose count
/// is in bounds, the count after the tick is again in bounds, never exceeds
/// `required_shakes`, and is exactly zero when the tick reports a shake.
pub proof fn lemma_step_bounds(
    pre: ShakeState,
    cfg: MouseMonitorConfig,
    x: i32,
    y: i32,
    button_down: bool,
    now: u64,
)
    requires
        pre.inv(cfg),
    ensures
        spec_step(pre, cfg, x, y, button_down, now).0.inv(cfg),
        spec_step(pre, cfg, x, y, button_down, now).0.shake_count <= cfg.required_shakes,
        spec_step(pre, cfg, x, y, button_down, now).1 ==> spec_step(
            pre,
            cfg,
            x,
            y,
            button_down,
            now,
        ).0.shake_count == 0,
{
}

/// Law (bounded count): over any sequence of samples, a detector that
/// starts in bounds stays in bounds — the count never exceeds
/// `required_shakes` at any tick boundary.
pub proof fn lemma_count_bounded(init: ShakeState, cfg: MouseMonitorConfig, samples: Seq<Sample>)
    requires
        init.inv(cfg),
    ensures
        spec_run(init, cfg, samples).inv(cfg),
        spec_run(init, cfg, samples).shake_count <= cfg.required_shakes,
    decreases samples.len(),
{
    if samples.len() > 0 {
        let s = samples.last();
        lemma_count_bounded(init, cfg, samples.drop_last());
        lemma_step_bounds(spec_run(init, cfg, samples.drop_last()), cfg, s.x, s.y, s.button_down, s.now);
    }
}

/// Law (timeout forgets progress): a qualifying reversal that arrives more
/// than `shake_time_limit` after the last counted reversal starts a fresh
/// count of 1 instead of extending the stale count — whatever that count
/// was.  (With `required_shakes <= 1` the fresh count itself fires and is
/// reset within the tick.)
pub proof fn lemma_timeout_forgets_progress(
    pre: ShakeState,
    cfg: MouseMonitorConfig,
    x: i32,
    y: i32,
    now: u64,
)
    requires
        pre.last_direction is Some,
        spec_classify(x - pre.last_x, cfg.shake_threshold as int) is Some,
        spec_classify(x - pre.last_x, cfg.shake_threshold as int) != pre.last_direction,
        now - pre.last_reversal_time > cfg.shake_time_limit,
    ensures
        cfg.required_shakes > 1 ==> spec_step(pre, cfg, x, y, true, now).0.shake_count == 1
            && !spec_step(pre, cfg, x, y, true, now).1,
        cfg.required_shakes <= 1 ==> spec_step(pre, cfg, x, y, true, now).0.shake_count == 0
            && spec_step(pre, cfg, x, y, true, now).1,
{
}

/// Law (release resets): a tick that observes the button released leaves a
/// count of exactly zero and reports no shake, whatever the state was.
pub proof fn lemma_release_resets(pre: ShakeState, cfg: MouseMonitorConfig, x: i32, y: i32, now: u64)
    ensures
        spec_step(pre, cfg, x, y, false, now).0.shake_count == 0,
        !spec_step(pre, cfg, x, y, false, now).1,
{
}

} // verus!
