use snake_chase::food::Food;
use snake_chase::game::{Button, ButtonState, MouseButton, SnakeGameLayer};
use snake_chase::geom::Point;

fn types() -> Vec<String> {
    vec!["apple".to_string(), "grapes".to_string(), "banana".to_string()]
}

#[test]
fn new_layer_initial_state() {
    let layer = SnakeGameLayer::new(Point { x: 1_500_000, y: 1_500_000 }, types());
    assert_eq!(layer.map.width, 1_500_000);
    assert_eq!(layer.map.height, 1_500_000);
    assert_eq!(layer.map.border_width, 6000);
    assert_eq!(layer.tick, 0);
    assert!(layer.apples.is_empty());
    assert_eq!(layer.snake.power, 0);
    assert_eq!(layer.snake.get_head().loc, Point { x: 750_000, y: 750_000 });
    assert!(layer.mouse_pressed.is_none());
}

#[test]
fn mouse_click_tracks_held_button() {
    let mut layer = SnakeGameLayer::new(Point { x: 1_500_000, y: 1_500_000 }, types());
    layer.mouse_click(Button::Mouse(MouseButton::Left), ButtonState::Press);
    assert!(matches!(layer.mouse_pressed, Some(MouseButton::Left)));
    layer.mouse_click(Button::Other, ButtonState::Press);
    assert!(matches!(layer.mouse_pressed, Some(MouseButton::Left)));
    layer.mouse_click(Button::Mouse(MouseButton::Left), ButtonState::Release);
    assert!(layer.mouse_pressed.is_none());
}

#[test]
fn mouse_update_measures_from_centre() {
    let mut layer = SnakeGameLayer::new(Point { x: 1_500_000, y: 1_500_000 }, types());
    layer.resolution_update(1_000_000, 500_000);
    layer.mouse_update(Point { x: 600_000, y: 260_000 });
    assert_eq!(layer.mouse_offset, Point { x: 100_000, y: 10_000 });
}

// Right-click decrements the power, but never below zero.
#[test]
fn right_click_floors_power_at_zero() {
    let mut layer = SnakeGameLayer::new(Point { x: 1_500_000, y: 1_500_000 }, types());
    layer.tick = 5;
    layer.mouse_click(Button::Mouse(MouseButton::Right), ButtonState::Press);
    layer.game_logic();
    assert_eq!(layer.snake.power, 0);

    layer.snake.power = 2;
    layer.game_logic();
    layer.game_logic();
    layer.game_logic();
    assert_eq!(layer.snake.power, 0);
}

#[test]
fn left_click_gains_power() {
    let mut layer = SnakeGameLayer::new(Point { x: 1_500_000, y: 1_500_000 }, types());
    layer.tick = 5;
    layer.mouse_click(Button::Mouse(MouseButton::Left), ButtonState::Press);
    layer.game_logic();
    layer.game_logic();
    assert_eq!(layer.snake.power, 2);
}

// One spawn per 300 ticks, starting at tick 0.  The arena is kept tiny so
// the snake can never reach the spawn region and eat anything.
#[test]
fn spawn_timer_fires_every_three_hundred_ticks() {
    let mut layer = SnakeGameLayer::new(Point { x: 30_000, y: 30_000 }, vec!["apple".to_string()]);
    layer.resolution_update(1_000_000_000, 1_000_000_000);
    let mut spawn_steps: Vec<u64> = Vec::new();
    for step in 0..601u64 {
        let before = layer.apples.len();
        layer.game_logic();
        if layer.apples.len() > before {
            spawn_steps.push(step);
        }
    }
    assert_eq!(spawn_steps, vec![0, 300, 600]);
    assert_eq!(layer.apples.len(), 3);
}

#[test]
fn spawned_food_is_well_formed() {
    let mut layer = SnakeGameLayer::new(Point { x: 30_000, y: 30_000 }, vec!["apple".to_string()]);
    layer.resolution_update(1_000_000_000, 1_000_000_000);
    layer.game_logic();
    assert_eq!(layer.apples.len(), 1);
    let food = &layer.apples[0];
    assert_eq!(food.texture, "apple");
    assert!(70_000 <= food.size && food.size < 100_000);
    assert!(food.amount == 80 || food.amount == 100 || food.amount == 120);
    assert!(food.size <= food.point.x && food.point.x < 1_000_000_000 - food.size);
    assert!(food.size <= food.point.y && food.point.y < 1_000_000_000 - food.size);
}

#[test]
fn spawn_skipped_when_resolution_too_small() {
    let mut layer = SnakeGameLayer::new(Point { x: 1_500_000, y: 1_500_000 }, types());
    // Resolution stays (0, 0): the sampling range would be empty.
    layer.game_logic();
    assert!(layer.apples.is_empty());
}

#[test]
fn spawn_skipped_without_food_types() {
    let mut layer = SnakeGameLayer::new(Point { x: 1_500_000, y: 1_500_000 }, Vec::new());
    layer.resolution_update(1_000_000_000, 1_000_000_000);
    layer.game_logic();
    assert!(layer.apples.is_empty());
}

fn food_at(x: i64, y: i64, size: i64, amount: u32) -> Food {
    Food { texture: "apple".to_string(), size, amount, point: Point { x, y } }
}

// All overlapping items are consumed in one tick; the non-overlapping one
// survives; the power grows by the sum of the consumed rewards.
#[test]
fn collision_consumes_all_overlapping_food() {
    let mut layer = SnakeGameLayer::new(Point { x: 1_500_000, y: 1_500_000 }, types());
    layer.tick = 5;
    layer.apples.push(food_at(750_000, 750_000, 80_000, 100));
    layer.apples.push(food_at(752_000, 751_000, 80_000, 80));
    layer.apples.push(food_at(10_000, 10_000, 80_000, 120));
    layer.game_logic();
    assert_eq!(layer.snake.power, 180);
    assert_eq!(layer.apples.len(), 1);
    assert_eq!(layer.apples[0].point, Point { x: 10_000, y: 10_000 });
}

// The total consumed is the same whatever order the food list holds the
// same items in.
#[test]
fn collision_outcome_is_order_independent() {
    let items = [
        food_at(750_000, 750_000, 80_000, 100),
        food_at(752_000, 751_000, 80_000, 80),
        food_at(10_000, 10_000, 80_000, 120),
        food_at(748_000, 749_000, 90_000, 120),
    ];
    let orders: [[usize; 4]; 3] = [[0, 1, 2, 3], [3, 2, 1, 0], [2, 0, 3, 1]];
    for order in orders {
        let mut layer = SnakeGameLayer::new(Point { x: 1_500_000, y: 1_500_000 }, types());
        layer.tick = 5;
        for i in order {
            layer.apples.push(items[i].clone());
        }
        layer.game_logic();
        assert_eq!(layer.snake.power, 300);
        assert_eq!(layer.apples.len(), 1);
        assert_eq!(layer.apples[0].point, Point { x: 10_000, y: 10_000 });
    }
}

// The held button applies on every tick, and the tick counter wraps.
#[test]
fn tick_counter_wraps_at_period() {
    let mut layer = SnakeGameLayer::new(Point { x: 1_500_000, y: 1_500_000 }, Vec::new());
    for _ in 0..299 {
        layer.game_logic();
    }
    assert_eq!(layer.tick, 299);
    layer.game_logic();
    assert_eq!(layer.tick, 0);
}
