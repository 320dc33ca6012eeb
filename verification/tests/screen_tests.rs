use holdem_core::screen::{correct_position, Position, ScreenBounds};

const SCREEN: ScreenBounds = ScreenBounds { width: 1920, height: 1080 };

#[test]
fn unchanged_away_from_edges() {
    let r = correct_position(Position { x: 500, y: 500 }, 100, SCREEN);
    assert_eq!(r, Position { x: 500, y: 500 });
}

#[test]
fn pulled_left_near_right_edge() {
    // 1850 + 100 > 1920, so x moves back by the margin; y stays.
    let r = correct_position(Position { x: 1850, y: 500 }, 100, SCREEN);
    assert_eq!(r, Position { x: 1750, y: 500 });
}

#[test]
fn pulled_up_near_bottom_edge() {
    // 1050 + 100 > 1080, so y moves back by the margin; x stays.
    let r = correct_position(Position { x: 500, y: 1050 }, 100, SCREEN);
    assert_eq!(r, Position { x: 500, y: 950 });
}

#[test]
fn pulled_both_in_corner() {
    let r = correct_position(Position { x: 1900, y: 1070 }, 100, SCREEN);
    assert_eq!(r, Position { x: 1800, y: 970 });
}

#[test]
fn boundary_is_inclusive() {
    // x + margin == width does not trigger the correction.
    let r = correct_position(Position { x: 1820, y: 980 }, 100, SCREEN);
    assert_eq!(r, Position { x: 1820, y: 980 });
}
