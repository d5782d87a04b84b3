use snake_chase::geom::{Color, Point};
use snake_chase::snake::Snake;

fn lime() -> Color {
    Color { r: 0, g: 255, b: 0, a: 255 }
}

// A head at pixel (500, 500) trails fifty nodes twelve pixels apart along
// the negative x axis (all values in thousandths of a pixel).
#[test]
fn reset_body_positions() {
    let s = Snake::new(Point { x: 500_000, y: 500_000 }, lime());
    assert_eq!(s.body.len(), 50);
    for i in 0..50i64 {
        let node = &s.body[i as usize];
        assert_eq!(node.loc.x, 500_000 - 12_000 * i);
        assert_eq!(node.loc.y, 500_000);
        assert_eq!(node.direction, Point { x: 1000, y: 0 });
    }
}

#[test]
fn reset_body_after_power_change() {
    let mut s = Snake::new(Point { x: 0, y: 0 }, lime());
    s.power = 100;
    s.reset_body(Point { x: 0, y: 0 });
    assert_eq!(s.body.len(), 60);
    assert_eq!(s.body[1].loc.x, -(100 * 100 + 12_000));
}

// A zero target must leave the heading well defined: the snake stands
// still instead of acquiring an undefined direction.
#[test]
fn move_towards_zero_is_defined() {
    let mut s = Snake::new(Point { x: 500_000, y: 500_000 }, lime());
    s.move_towards(Point { x: 0, y: 0 });
    assert_eq!(s.get_head().direction, Point { x: 0, y: 0 });
    s.update_locations();
    assert_eq!(s.get_head().loc, Point { x: 500_000, y: 500_000 });
}

#[test]
fn move_towards_scales_to_speed() {
    let mut s = Snake::new(Point { x: 500_000, y: 500_000 }, lime());
    // |(3000, 4000)| = 5000, the speed at power zero: the direction is kept.
    s.move_towards(Point { x: 3000, y: 4000 });
    assert_eq!(s.get_head().direction, Point { x: 3000, y: 4000 });
    assert_eq!(s.get_head().loc, Point { x: 500_000, y: 500_000 });
}

#[test]
fn update_locations_advances_and_normalises_head() {
    let mut s = Snake::new(Point { x: 500_000, y: 500_000 }, lime());
    s.move_towards(Point { x: 3000, y: 4000 });
    s.update_locations();
    assert_eq!(s.get_head().loc, Point { x: 503_000, y: 504_000 });
    assert_eq!(s.get_head().direction, Point { x: 600, y: 800 });
}

// The body chase re-snaps each node to sit exactly one node length behind
// its parent when nothing is rounded away.
#[test]
fn body_chase_keeps_node_length() {
    let mut s = Snake::new(Point { x: 0, y: 0 }, lime());
    s.move_towards(Point { x: 0, y: 0 });
    s.update_locations();
    for i in 1..50i64 {
        let parent = s.body[(i - 1) as usize];
        let child = s.body[i as usize];
        assert_eq!(child.loc.x, parent.loc.x - 12_000);
        assert_eq!(child.loc.y, parent.loc.y);
        assert_eq!(child.direction, Point { x: -1000, y: 0 });
    }
}

#[test]
fn body_chase_follows_moving_head() {
    let mut s = Snake::new(Point { x: 0, y: 0 }, lime());
    s.move_towards(Point { x: 5000, y: 0 });
    s.update_locations();
    // The head advanced by one speed along x; every node re-snaps behind it.
    assert_eq!(s.body[0].loc, Point { x: 5000, y: 0 });
    assert_eq!(s.body[1].loc, Point { x: 5000 - 12_000, y: 0 });
    assert_eq!(s.body[49].loc, Point { x: 5000 - 49 * 12_000, y: 0 });
}

// After border_collision + update_locations the head lies within the
// shrunk arena, for a heading that would have left it.
#[test]
fn border_clamps_prospective_location() {
    let mut s = Snake::new(Point { x: 500_000, y: 500_000 }, lime());
    s.move_towards(Point { x: 1_000_000, y: 0 });
    assert_eq!(s.get_head().direction, Point { x: 5000, y: 0 });
    // Arena 508 x 520 pixels, border 6: margin = 5 + 6 = 11 pixels, so the
    // reachable x range is [11_000, 497_000] and 505_000 is out.
    s.border_collision(508_000, 520_000, 6000);
    assert_eq!(s.get_head().loc, Point { x: 500_000, y: 500_000 });
    assert_eq!(s.get_head().direction, Point { x: -3000, y: 0 });
    s.update_locations();
    let head = s.get_head().loc;
    assert_eq!(head, Point { x: 497_000, y: 500_000 });
    assert!(11_000 <= head.x && head.x <= 508_000 - 11_000);
    assert!(11_000 <= head.y && head.y <= 520_000 - 11_000);
}

// The diagonal target exercises the integer square root: |(5000, 5000)| is
// 7071 (rounded down), and each component is scaled through it.
#[test]
fn move_towards_diagonal_rounds_down() {
    let mut s = Snake::new(Point { x: 500_000, y: 500_000 }, lime());
    s.move_towards(Point { x: 5000, y: 5000 });
    // 5000 * 5000 / 7071 = 3535, rounded toward zero.
    assert_eq!(s.get_head().direction, Point { x: 3535, y: 3535 });
}

// Coordinates saturate at the far end of their range instead of wrapping.
#[test]
fn coordinates_saturate_at_range_end() {
    let mut s = Snake::new(Point { x: i64::MAX, y: 0 }, lime());
    assert_eq!(s.body[0].loc.x, i64::MAX);
    assert_eq!(s.body[1].loc.x, i64::MAX - 12_000);
    s.move_towards(Point { x: 1, y: 0 });
    assert_eq!(s.get_head().direction, Point { x: 5000, y: 0 });
    s.update_locations();
    assert_eq!(s.get_head().loc.x, i64::MAX);
}

#[test]
fn border_no_op_inside_bounds() {
    let mut s = Snake::new(Point { x: 500_000, y: 500_000 }, lime());
    s.move_towards(Point { x: 1_000_000, y: 0 });
    s.border_collision(1_500_000, 1_500_000, 6000);
    assert_eq!(s.get_head().direction, Point { x: 5000, y: 0 });
}
