use snake_chase::geom::{Color, Point};
use snake_chase::snake::Snake;

fn lime() -> Color {
    Color { r: 0, g: 255, b: 0, a: 255 }
}

#[test]
fn stats_at_power_zero() {
    let s = Snake::new(Point { x: 0, y: 0 }, lime());
    assert_eq!(s.power, 0);
    assert_eq!(s.get_speed(), 5000);
    assert_eq!(s.get_nodes(), 50);
    assert_eq!(s.get_node_length(), 12000);
    assert_eq!(s.get_size(), 10000);
    assert_eq!(s.get_scale(), 10000);
}

#[test]
fn stats_follow_formulas() {
    let mut s = Snake::new(Point { x: 0, y: 0 }, lime());
    s.power = 100;
    assert_eq!(s.get_speed(), 35 * 100 + 5000);
    assert_eq!(s.get_nodes(), 100 / 10 + 50);
    assert_eq!(s.get_node_length(), 100 * 100 + 12000);
    assert_eq!(s.get_size(), 100 * 100 + 10000);
    assert_eq!(s.get_scale(), 15 * 100 + 10000);

    s.power = 1234;
    assert_eq!(s.get_speed(), 35 * 1234 + 5000);
    assert_eq!(s.get_nodes(), 1234 / 10 + 50);
    assert_eq!(s.get_node_length(), 100 * 1234 + 12000);
    assert_eq!(s.get_size(), 100 * 1234 + 10000);
    assert_eq!(s.get_scale(), 15 * 1234 + 10000);
}

#[test]
fn stats_monotone_in_power() {
    let mut s = Snake::new(Point { x: 0, y: 0 }, lime());
    let mut prev = (s.get_nodes(), s.get_speed(), s.get_node_length(), s.get_size(), s.get_scale());
    for p in [1u32, 7, 9, 10, 11, 100, 1000, 65535, 1_000_000] {
        s.power = p;
        let cur = (s.get_nodes(), s.get_speed(), s.get_node_length(), s.get_size(), s.get_scale());
        assert!(prev.0 <= cur.0);
        assert!(prev.1 <= cur.1);
        assert!(prev.2 <= cur.2);
        assert!(prev.3 <= cur.3);
        assert!(prev.4 <= cur.4);
        prev = cur;
    }
}

#[test]
fn geometry_constructors() {
    let pd = snake_chase::geom::PointDirection::new(
        Point { x: 3, y: 4 },
        Point { x: 1000, y: 0 },
    );
    assert_eq!(pd.loc, Point { x: 3, y: 4 });
    assert_eq!(pd.direction, Point { x: 1000, y: 0 });

    let arena = snake_chase::arena::Arena::new(1_500_000, 1_200_000, 6000);
    assert_eq!(arena.width, 1_500_000);
    assert_eq!(arena.height, 1_200_000);
    assert_eq!(arena.border_width, 6000);
}

#[test]
fn color_and_body_accessors() {
    let s = Snake::new(Point { x: 7, y: 9 }, lime());
    assert_eq!(s.get_color(), lime());
    let body = s.get_body();
    assert_eq!(body.len(), 50);
    assert_eq!(body[0].loc, s.get_head().loc);
}
