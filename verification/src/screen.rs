//! Screen coordinates and the screen-edge corrector.

use vstd::prelude::*;

verus! {

/// A point in screen coordinates, in pixels.
#[derive(Clone, Copy, PartialEq, Eq, Structural, Debug)]
pub struct Position {
    pub x: i32,
    pub y: i32,
}

/// Screen dimensions, in pixels.
#[derive(Clone, Copy, PartialEq, Eq, Structural, Debug)]
pub struct ScreenBounds {
    pub width: i32,
    pub height: i32,
}

/// One axis of the corrector: a coordinate is pulled back by `margin`
/// exactly when `coord + margin` would run past `limit`.
pub open spec fn spec_corrected(coord: int, margin: int, limit: int) -> int {
    if coord + margin > limit {
        coord - margin
    } else {
        coord
    }
}

/// Maps a raw trigger position to a position at which a window of margin
/// `margin` stays clear of the right and bottom screen edges.
///
/// The trigger position is returned unchanged when `x + margin <= width`
/// and `y + margin <= height`; each coordinate that would run past its edge
/// is pulled back by `margin`, independently of the other.
pub fn correct_position(trigger: Position, margin: i32, screen: ScreenBounds) -> (r: Position)
    requires
        0 <= margin,
        i32::MIN + margin <= trigger.x,
        i32::MIN + margin <= trigger.y,
    ensures
        r.x == spec_corrected(trigger.x as int, margin as int, screen.width as int),
        r.y == spec_corrected(trigger.y as int, margin as int, screen.height as int),
{
    let x = if trigger.x as i64 + margin as i64 > screen.width as i64 {
        trigger.x - margin
    } else {
        trigger.x
    };
    let y = if trigger.y as i64 + margin as i64 > screen.height as i64 {
        trigger.y - margin
    } else {
        trigger.y
    };
    Position { x, y }
}

} // verus!
