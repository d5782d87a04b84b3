//! The game-round controller: it owns the arena, the snake, the active food
//! and the spawn timer, and applies one full logic step per tick.

use vstd::prelude::*;
use vstd::arithmetic::mul::{lemma_mul_inequality, lemma_mul_is_distributive_add_other_way};
use vstd::multiset::Multiset;
use crate::arena::Arena;
use crate::food::{Food, FoodTypes};
use crate::geom::{sat64, sub_sat, Color, Point, UNIT};
use crate::rng::{clone_string, rand_in_range};
use crate::snake::{
    border_rel,
    head_margin,
    move_rel,
    spec_size,
    update_rel,
    Snake,
};

verus! {

/// A spawn happens every this many ticks.
pub const SPAWN_PERIOD: u64 = 300;

/// The smallest resolution (per axis) at which food can be placed without
/// the sampling range degenerating.
pub const SPAWN_MIN_RES: i64 = 200 * UNIT;

/// Spawned food sizes are drawn uniformly from this half-open range.
pub const FOOD_SIZE_MIN: i64 = 70 * UNIT;

pub const FOOD_SIZE_MAX: i64 = 100 * UNIT;

/// The mouse buttons the game distinguishes.
#[derive(Clone, Copy, PartialEq, Eq, Structural, Debug)]
pub enum MouseButton {
    Left,
    Right,
    Other,
}

#[derive(Clone, Copy, PartialEq, Eq, Structural, Debug)]
pub enum ButtonState {
    Press,
    Release,
}

/// An input button: a mouse button, or anything else (ignored).
#[derive(Clone, Copy, PartialEq, Eq, Structural, Debug)]
pub enum Button {
    Mouse(MouseButton),
    Other,
}

/// `v` brought into the representable range of a `u32` power value.
pub open spec fn sat_u32(v: int) -> int {
    if v > u32::MAX {
        u32::MAX as int
    } else if v < 0 {
        0
    } else {
        v
    }
}

/// What a held mouse button does to the power: Left gains one, Right loses
/// one but never drops below zero, anything else is a no-op.
pub open spec fn power_after_click(p: u32, pressed: Option<MouseButton>) -> int {
    match pressed {
        Some(MouseButton::Left) => sat_u32(p + 1),
        Some(MouseButton::Right) => if p > 0 {
            p - 1
        } else {
            0
        },
        _ => p as int,
    }
}

/// Halving rounded toward zero, as the food hit box side is computed.
pub open spec fn half_toward_zero(v: int) -> int {
    if v >= 0 {
        v / 2
    } else {
        -((-v) / 2)
    }
}

/// The non-strict axis-aligned overlap test between the snake's hit box
/// (corner at `head`, side `size`) and a food item's hit box (corner at its
/// point, side half its size).
pub open spec fn food_overlap(head: Point, size: int, f: Food) -> bool {
    &&& head.x <= f.point.x + half_toward_zero(f.size as int)
    &&& f.point.x <= head.x + size
    &&& head.y <= f.point.y + half_toward_zero(f.size as int)
    &&& f.point.y <= head.y + size
}

/// The total reward of the food items in `s` that overlap the head.
pub open spec fn eaten_total(s: Seq<Food>, head: Point, size: int) -> int
    decreases s.len(),
{
    if s.len() == 0 {
        0
    } else {
        (if food_overlap(head, size, s[0]) {
            s[0].amount as int
        } else {
            0
        }) + eaten_total(s.drop_first(), head, size)
    }
}

/// The food items of `s` that do not overlap the head, in their order.
pub open spec fn surviving(s: Seq<Food>, head: Point, size: int) -> Seq<Food>
    decreases s.len(),
{
    if s.len() == 0 {
        Seq::empty()
    } else if food_overlap(head, size, s[0]) {
        surviving(s.drop_first(), head, size)
    } else {
        seq![s[0]] + surviving(s.drop_first(), head, size)
    }
}

/// What every spawned food item satisfies: a configured texture, a size in
/// the configured range, a reward of four to six times twenty, and a
/// position that keeps its extent inside the resolution.
pub open spec fn wf_spawned_food(f: Food, types: Seq<String>, res: Point) -> bool {
    &&& exists|i: int| 0 <= i < types.len() && f.texture@ == #[trigger] types[i]@
    &&& FOOD_SIZE_MIN <= f.size < FOOD_SIZE_MAX
    &&& exists|u: int| 4 <= u < 7 && f.amount == #[trigger] (u * 20)
    &&& f.size <= f.point.x < res.x - f.size
    &&& f.size <= f.point.y < res.y - f.size
}

/// The controller of one game round.
pub struct SnakeGameLayer {
    pub mouse_pressed: Option<MouseButton>,
    pub mouse_offset: Point,
    pub resolution: Point,
    pub map: Arena,
    pub snake: Snake,
    pub food_types: FoodTypes,
    pub apples: Vec<Food>,
    pub tick: u64,
}

/// Whether a spawn can be placed: at least one configured food type, and a
/// resolution large enough for the sampling ranges on both axes.
pub open spec fn can_spawn(l: SnakeGameLayer) -> bool {
    &&& l.food_types@.len() >= 1
    &&& l.resolution.x >= SPAWN_MIN_RES
    &&& l.resolution.y >= SPAWN_MIN_RES
}

/// The snake's movement pipeline for one tick, in its fixed order: heading
/// change, border clamp, location update.
pub open spec fn pipeline(
    s1: Snake,
    s2: Snake,
    s3: Snake,
    s4: Snake,
    target: Point,
    w: int,
    h: int,
    bw: int,
) -> bool {
    &&& move_rel(s1, s2, target)
    &&& border_rel(s2, s3, w, h, bw)
    &&& update_rel(s3, s4)
}

/// What one `game_logic` step does.  The food list after the (possibly
/// skipped) spawn and the intermediate snake states are existentially
/// quantified: the spawn draws random values, and the movement stages are
/// pinned down by their own relations.
pub open spec fn step_rel(pre: SnakeGameLayer, post: SnakeGameLayer) -> bool {
    &&& post.map == pre.map
    &&& post.food_types@ == pre.food_types@
    &&& post.resolution == pre.resolution
    &&& post.mouse_offset == pre.mouse_offset
    &&& post.mouse_pressed == pre.mouse_pressed
    &&& post.tick == ((pre.tick + 1) % (SPAWN_PERIOD as int))
    &&& exists|s1: Snake, s2: Snake, s3: Snake, s4: Snake, mid: Seq<Food>|
        #![trigger pipeline(
            s1,
            s2,
            s3,
            s4,
            pre.mouse_offset,
            pre.map.width as int,
            pre.map.height as int,
            pre.map.border_width as int,
        ), mid.len()]
        {
            &&& s1.body@ == pre.snake.body@
            &&& s1.color == pre.snake.color
            &&& s1.power == power_after_click(pre.snake.power, pre.mouse_pressed)
            &&& (if pre.tick == 0 && can_spawn(pre) {
                &&& mid.len() == pre.apples@.len() + 1
                &&& (forall|i: int| 0 <= i < pre.apples@.len() ==> mid[i] == pre.apples@[i])
                &&& wf_spawned_food(mid.last(), pre.food_types@, pre.resolution)
            } else {
                mid == pre.apples@
            })
            &&& pipeline(
                s1,
                s2,
                s3,
                s4,
                pre.mouse_offset,
                pre.map.width as int,
                pre.map.height as int,
                pre.map.border_width as int,
            )
            &&& post.snake.body@ == s4.body@
            &&& post.snake.color == s4.color
            &&& post.apples@ == surviving(mid, s4.body@[0].loc, spec_size(s4.power))
            &&& post.snake.power == sat_u32(
                s4.power + eaten_total(mid, s4.body@[0].loc, spec_size(s4.power)),
            )
        }
}

/// The reward total over a food list never exceeds one maximal reward per
/// item.
proof fn lemma_eaten_total_bounds(s: Seq<Food>, head: Point, size: int)
    ensures
        0 <= eaten_total(s, head, size) <= s.len() * (u32::MAX as int),
    decreases s.len(),
{
    if s.len() > 0 {
        lemma_eaten_total_bounds(s.drop_first(), head, size);
        lemma_mul_is_distributive_add_other_way(u32::MAX as int, s.len() - 1, 1);
    }
}

/// Removing item `j` removes exactly its contribution from the reward
/// total.
proof fn lemma_eaten_total_remove(s: Seq<Food>, j: int, head: Point, size: int)
    requires
        0 <= j < s.len(),
    ensures
        eaten_total(s, head, size) == (if food_overlap(head, size, s[j]) {
            s[j].amount as int
        } else {
            0
        }) + eaten_total(s.remove(j), head, size),
    decreases j,
{
    if j == 0 {
        assert(s.remove(0) =~= s.drop_first());
    } else {
        lemma_eaten_total_remove(s.drop_first(), j - 1, head, size);
        assert(s.remove(j).drop_first() =~= s.drop_first().remove(j - 1));
        assert(s.remove(j)[0] == s[0]);
    }
}

/// The reward collected from a food list does not depend on the order the
/// list is walked in: any two lists holding the same items yield the same
/// total.
pub proof fn lemma_eaten_total_permutation(s1: Seq<Food>, s2: Seq<Food>, head: Point, size: int)
    requires
        s1.to_multiset() == s2.to_multiset(),
    ensures
        eaten_total(s1, head, size) == eaten_total(s2, head, size),
    decreases s1.len(),
{
    broadcast use vstd::seq_lib::group_to_multiset_ensures;

    if s1.len() == 0 {
        assert(s1.to_multiset().len() == s1.len());
        assert(s2.to_multiset().len() == s2.len());
        assert(s2.len() == 0);
    } else {
        let x = s1[0];
        assert(s1.remove(0).to_multiset() =~= s1.to_multiset().remove(x));
        assert(s1.contains(x));
        assert(s2.to_multiset().count(x) > 0);
        assert(s2.contains(x));
        let j = choose|j: int| 0 <= j < s2.len() && s2[j] == x;
        assert(s2.remove(j).to_multiset() =~= s2.to_multiset().remove(x));
        assert(s1.remove(0) =~= s1.drop_first());
        lemma_eaten_total_permutation(s1.drop_first(), s2.remove(j), head, size);
        lemma_eaten_total_remove(s2, j, head, size);
    }
}

/// End to end over one controller step: whatever the head's direction and
/// wherever in the arena it was, after `game_logic` the head lies within
/// the arena shrunk by half the snake's size plus the border width —
/// provided the arena is large enough for the snake and all quantities are
/// far from the ends of the coordinate range.
pub proof fn lemma_step_keeps_head_in_bounds(pre: SnakeGameLayer, post: SnakeGameLayer)
    requires
        step_rel(pre, post),
        pre.snake.body@.len() >= 1,
        0 <= pre.map.border_width <= 1000000000000000000,
        0 < pre.map.width <= 1000000000000000000,
        0 < pre.map.height <= 1000000000000000000,
        -1000000000000000000 <= pre.snake.body@[0].loc.x <= 1000000000000000000,
        -1000000000000000000 <= pre.snake.body@[0].loc.y <= 1000000000000000000,
        head_margin(
            power_after_click(pre.snake.power, pre.mouse_pressed) as u32,
            pre.map.border_width as int,
        ) <= pre.map.width - head_margin(
            power_after_click(pre.snake.power, pre.mouse_pressed) as u32,
            pre.map.border_width as int,
        ),
        head_margin(
            power_after_click(pre.snake.power, pre.mouse_pressed) as u32,
            pre.map.border_width as int,
        ) <= pre.map.height - head_margin(
            power_after_click(pre.snake.power, pre.mouse_pressed) as u32,
            pre.map.border_width as int,
        ),
    ensures
        head_margin(
            power_after_click(pre.snake.power, pre.mouse_pressed) as u32,
            pre.map.border_width as int,
        ) <= post.snake.body@[0].loc.x <= pre.map.width - head_margin(
            power_after_click(pre.snake.power, pre.mouse_pressed) as u32,
            pre.map.border_width as int,
        ),
        head_margin(
            power_after_click(pre.snake.power, pre.mouse_pressed) as u32,
            pre.map.border_width as int,
        ) <= post.snake.body@[0].loc.y <= pre.map.height - head_margin(
            power_after_click(pre.snake.power, pre.mouse_pressed) as u32,
            pre.map.border_width as int,
        ),
{
    let (s1, s2, s3, s4, mid) = choose|s1: Snake, s2: Snake, s3: Snake, s4: Snake, mid: Seq<
        Food,
    >|
        #![trigger pipeline(
            s1,
            s2,
            s3,
            s4,
            pre.mouse_offset,
            pre.map.width as int,
            pre.map.height as int,
            pre.map.border_width as int,
        ), mid.len()]
        {
            &&& s1.body@ == pre.snake.body@
            &&& s1.color == pre.snake.color
            &&& s1.power == power_after_click(pre.snake.power, pre.mouse_pressed)
            &&& (if pre.tick == 0 && can_spawn(pre) {
                &&& mid.len() == pre.apples@.len() + 1
                &&& (forall|i: int| 0 <= i < pre.apples@.len() ==> mid[i] == pre.apples@[i])
                &&& wf_spawned_food(mid.last(), pre.food_types@, pre.resolution)
            } else {
                mid == pre.apples@
            })
            &&& pipeline(
                s1,
                s2,
                s3,
                s4,
                pre.mouse_offset,
                pre.map.width as int,
                pre.map.height as int,
                pre.map.border_width as int,
            )
            &&& post.snake.body@ == s4.body@
            &&& post.snake.color == s4.color
            &&& post.apples@ == surviving(mid, s4.body@[0].loc, spec_size(s4.power))
            &&& post.snake.power == sat_u32(
                s4.power + eaten_total(mid, s4.body@[0].loc, spec_size(s4.power)),
            )
        };
    assert(s2.body@[0].loc == pre.snake.body@[0].loc);
    assert(s2.power == power_after_click(pre.snake.power, pre.mouse_pressed));
    crate::snake::lemma_head_in_bounds(
        s2,
        s3,
        s4,
        pre.map.width as int,
        pre.map.height as int,
        pre.map.border_width as int,
    );
}

/// Removing an overlapping item leaves the survivors unchanged; removing a
/// surviving one removes exactly it.
proof fn lemma_surviving_remove(s: Seq<Food>, j: int, head: Point, size: int)
    requires
        0 <= j < s.len(),
    ensures
        food_overlap(head, size, s[j]) ==> surviving(s.remove(j), head, size) == surviving(
            s,
            head,
            size,
        ),
        !food_overlap(head, size, s[j]) ==> surviving(s, head, size).to_multiset() =~= surviving(
            s.remove(j),
            head,
            size,
        ).to_multiset().insert(s[j]),
    decreases j,
{
    broadcast use vstd::seq_lib::group_to_multiset_ensures;
    broadcast use vstd::seq_lib::lemma_multiset_commutative;
    broadcast use vstd::multiset::group_multiset_axioms;

    if j == 0 {
        assert(s.remove(0) =~= s.drop_first());
        if !food_overlap(head, size, s[0]) {
            assert(seq![s[0]] =~= Seq::empty().push(s[0]));
            assert(seq![s[0]].to_multiset() =~= Multiset::empty().insert(s[0]));
        }
    } else {
        lemma_surviving_remove(s.drop_first(), j - 1, head, size);
        assert(s.remove(j).drop_first() =~= s.drop_first().remove(j - 1));
        assert(s.remove(j)[0] == s[0]);
        let a = surviving(s.drop_first(), head, size);
        let b = surviving(s.drop_first().remove(j - 1), head, size);
        assert(s[j] == s.drop_first()[j - 1]);
        if !food_overlap(head, size, s[0]) {
            assert(surviving(s, head, size) == seq![s[0]] + a);
            assert(surviving(s.remove(j), head, size) == seq![s[0]] + b);
            assert((seq![s[0]] + a).to_multiset() =~= seq![s[0]].to_multiset().add(
                a.to_multiset(),
            ));
            assert((seq![s[0]] + b).to_multiset() =~= seq![s[0]].to_multiset().add(
                b.to_multiset(),
            ));
            if !food_overlap(head, size, s[j]) {
                assert((seq![s[0]] + a).to_multiset() =~= (seq![s[0]]
                    + b).to_multiset().insert(s[j]));
            }
        }
    }
}

/// Which food items survive a collision pass does not depend on the order
/// the list holds them in: any two lists holding the same items keep the
/// same items.
pub proof fn lemma_surviving_permutation(s1: Seq<Food>, s2: Seq<Food>, head: Point, size: int)
    requires
        s1.to_multiset() == s2.to_multiset(),
    ensures
        surviving(s1, head, size).to_multiset() == surviving(s2, head, size).to_multiset(),
    decreases s1.len(),
{
    broadcast use vstd::seq_lib::group_to_multiset_ensures;

    if s1.len() == 0 {
        assert(s1.to_multiset().len() == s1.len());
        assert(s2.to_multiset().len() == s2.len());
        assert(s2.len() == 0);
    } else {
        let x = s1[0];
        assert(s1.remove(0).to_multiset() =~= s1.to_multiset().remove(x));
        assert(s1.contains(x));
        assert(s2.to_multiset().count(x) > 0);
        assert(s2.contains(x));
        let j = choose|j: int| 0 <= j < s2.len() && s2[j] == x;
        assert(s2.remove(j).to_multiset() =~= s2.to_multiset().remove(x));
        assert(s1.remove(0) =~= s1.drop_first());
        lemma_surviving_permutation(s1.drop_first(), s2.remove(j), head, size);
        lemma_surviving_remove(s1, 0, head, size);
        lemma_surviving_remove(s2, j, head, size);
    }
}

/// Whether the controller's step that starts at tick value `t` spawns.
pub open spec fn spawn_fires(t: int) -> bool {
    t == 0
}

/// The tick counter `k` steps after a step that started at counter `t`.
pub open spec fn tick_after(t: int, k: int) -> int {
    (t + k) % (SPAWN_PERIOD as int)
}

/// Starting from any counter value below the period, exactly one of the
/// next `SPAWN_PERIOD` steps spawns: there is a spawning step, and two
/// spawning steps of the window coincide.
pub proof fn lemma_one_spawn_per_cycle(t: int, k1: int, k2: int)
    requires
        0 <= t < SPAWN_PERIOD,
        0 <= k1 < SPAWN_PERIOD,
        0 <= k2 < SPAWN_PERIOD,
        spawn_fires(tick_after(t, k1)),
        spawn_fires(tick_after(t, k2)),
    ensures
        k1 == k2,
        spawn_fires(tick_after(t, if t == 0 { 0int } else { SPAWN_PERIOD - t })),
{
    let p = SPAWN_PERIOD as int;
    assert(p == 300 && 300int % 300int == 0);
    lemma_cycle_hit(t, k1);
    lemma_cycle_hit(t, k2);
}

/// In one period-long window the only step whose counter is zero is the
/// one `SPAWN_PERIOD - t` steps in (or the first, when `t` is zero).
proof fn lemma_cycle_hit(t: int, k: int)
    requires
        0 <= t < SPAWN_PERIOD,
        0 <= k < SPAWN_PERIOD,
        tick_after(t, k) == 0,
    ensures
        k == if t == 0 { 0int } else { SPAWN_PERIOD - t },
{
    let p = SPAWN_PERIOD as int;
    let x = t + k;
    vstd::arithmetic::div_mod::lemma_fundamental_div_mod(x, p);
    let q = x / p;
    assert(x == p * q);
    assert(0 <= x < 2 * p);
    assert(0 <= q < 2) by (nonlinear_arith)
        requires
            x == p * q,
            0 <= x < 2 * p,
            p > 0,
    ;
}

impl SnakeGameLayer {
    /// A fresh round in an arena of the given size with a six-pixel border:
    /// the snake starts at the centre with power zero, no food is active,
    /// and the first tick will spawn.
    pub fn new(size: Point, food_types: FoodTypes) -> (r: SnakeGameLayer)
        requires
            0 <= size.x,
            0 <= size.y,
        ensures
            r.mouse_pressed == None::<MouseButton>,
            r.mouse_offset == (Point { x: 0, y: 0 }),
            r.resolution == (Point { x: 0, y: 0 }),
            r.map.width == size.x,
            r.map.height == size.y,
            r.map.border_width == 6 * UNIT,
            r.food_types@ == food_types@,
            r.apples@ == Seq::<Food>::empty(),
            r.tick == 0,
            r.snake.power == 0,
            r.snake.color == (Color { r: 0, g: 255, b: 0, a: 255 }),
            r.snake.body@.len() == 50,
            forall|i: int|
                0 <= i < 50 ==> (#[trigger] r.snake.body@[i]).loc.x == sat64(
                    size.x / 2 - i * 12000,
                ) && r.snake.body@[i].loc.y == size.y / 2 && r.snake.body@[i].direction == (Point {
                    x: UNIT,
                    y: 0,
                }),
    {
        let half = Point { x: size.x / 2, y: size.y / 2 };
        SnakeGameLayer {
            mouse_pressed: None,
            mouse_offset: Point { x: 0, y: 0 },
            resolution: Point { x: 0, y: 0 },
            map: Arena::new(size.x, size.y, 6 * UNIT),
            food_types,
            snake: Snake::new(half, Color { r: 0, g: 255, b: 0, a: 255 }),
            apples: Vec::new(),
            tick: 0,
        }
    }

    /// Records which mouse button, if any, is currently held: a press sets
    /// it, a release clears it, and non-mouse buttons change nothing.
    pub fn mouse_click(&mut self, button: Button, button_state: ButtonState)
        ensures
            final(self).mouse_pressed == (match button {
                Button::Mouse(m) => if button_state == ButtonState::Press {
                    Some(m)
                } else {
                    None::<MouseButton>
                },
                _ => old(self).mouse_pressed,
            }),
            final(self).mouse_offset == old(self).mouse_offset,
            final(self).resolution == old(self).resolution,
            final(self).map == old(self).map,
            final(self).snake == old(self).snake,
            final(self).food_types@ == old(self).food_types@,
            final(self).apples@ == old(self).apples@,
            final(self).tick == old(self).tick,
    {
        if let Button::Mouse(mouse) = button {
            if button_state == ButtonState::Press {
                self.mouse_pressed = Some(mouse);
            } else {
                self.mouse_pressed = None;
            }
        }
    }

    /// Records the pointer's offset from the centre of the resolution.
    pub fn mouse_update(&mut self, point: Point)
        requires
            old(self).resolution.x >= 0,
            old(self).resolution.y >= 0,
        ensures
            final(self).mouse_offset.x == sat64(point.x - old(self).resolution.x / 2),
            final(self).mouse_offset.y == sat64(point.y - old(self).resolution.y / 2),
            final(self).mouse_pressed == old(self).mouse_pressed,
            final(self).resolution == old(self).resolution,
            final(self).map == old(self).map,
            final(self).snake == old(self).snake,
            final(self).food_types@ == old(self).food_types@,
            final(self).apples@ == old(self).apples@,
            final(self).tick == old(self).tick,
    {
        let cx = self.resolution.x / 2;
        let cy = self.resolution.y / 2;
        self.mouse_offset = Point { x: sub_sat(point.x, cx), y: sub_sat(point.y, cy) };
    }

    /// Records the window resolution the host reports.
    pub fn resolution_update(&mut self, x: i64, y: i64)
        requires
            x >= 0,
            y >= 0,
        ensures
            final(self).resolution == (Point { x, y }),
            final(self).mouse_pressed == old(self).mouse_pressed,
            final(self).mouse_offset == old(self).mouse_offset,
            final(self).map == old(self).map,
            final(self).snake == old(self).snake,
            final(self).food_types@ == old(self).food_types@,
            final(self).apples@ == old(self).apples@,
            final(self).tick == old(self).tick,
    {
        self.resolution = Point { x, y };
    }

    /// Places one food item: a random configured texture, a random size in
    /// `[FOOD_SIZE_MIN, FOOD_SIZE_MAX)`, a reward of twenty times a random
    /// count in `[4, 7)`, and a position that keeps the item's extent
    /// inside the resolution.
    fn spawn_apple(&mut self)
        requires
            can_spawn(*old(self)),
        ensures
            final(self).apples@.len() == old(self).apples@.len() + 1,
            forall|i: int|
                0 <= i < old(self).apples@.len() ==> final(self).apples@[i] == old(
                    self,
                ).apples@[i],
            wf_spawned_food(
                final(self).apples@.last(),
                old(self).food_types@,
                old(self).resolution,
            ),
            final(self).mouse_pressed == old(self).mouse_pressed,
            final(self).mouse_offset == old(self).mouse_offset,
            final(self).resolution == old(self).resolution,
            final(self).map == old(self).map,
            final(self).snake == old(self).snake,
            final(self).food_types@ == old(self).food_types@,
            final(self).tick == old(self).tick,
    {
        let n = self.food_types.len();
        let n64 = n as u64;
        let hi: i64 = if n64 > (i64::MAX as u64) {
            i64::MAX
        } else {
            n64 as i64
        };
        let idx = rand_in_range(0, hi) as usize;
        proof {
            assert(idx < n);
        }
        let texture = clone_string(&self.food_types[idx]);
        let size = rand_in_range(FOOD_SIZE_MIN, FOOD_SIZE_MAX);
        let units = rand_in_range(4, 7);
        let amount: u32 = (units as u32) * 20;
        let x = rand_in_range(size, self.resolution.x - size);
        let y = rand_in_range(size, self.resolution.y - size);

        let apple = Food { texture, size, amount, point: Point { x, y } };
        proof {
            assert(apple.texture@ == self.food_types@[idx as int]@);
            assert(4 <= (units as int) < 7 && apple.amount == (units as int) * 20);
        }
        self.apples.push(apple);
    }

    /// Removes every food item whose hit box overlaps the snake's and adds
    /// their rewards to the power, which saturates at its maximum.  The
    /// outcome is a pure function of the set of overlapping items: exactly
    /// the overlapping items go, and the order of the rest is kept.
    fn apple_collision(&mut self)
        requires
            old(self).snake.body@.len() >= 1,
        ensures
            final(self).apples@ == surviving(
                old(self).apples@,
                old(self).snake.body@[0].loc,
                spec_size(old(self).snake.power),
            ),
            final(self).snake.power == sat_u32(
                old(self).snake.power + eaten_total(
                    old(self).apples@,
                    old(self).snake.body@[0].loc,
                    spec_size(old(self).snake.power),
                ),
            ),
            final(self).snake.body@ == old(self).snake.body@,
            final(self).snake.color == old(self).snake.color,
            final(self).mouse_pressed == old(self).mouse_pressed,
            final(self).mouse_offset == old(self).mouse_offset,
            final(self).resolution == old(self).resolution,
            final(self).map == old(self).map,
            final(self).food_types@ == old(self).food_types@,
            final(self).tick == old(self).tick,
    {
        let head_loc = self.snake.get_head().loc;
        let size = self.snake.get_size();
        let size_i: i64 = size as i64;
        let ghost orig = self.apples@;
        let ghost gsize = spec_size(self.snake.power);

        let mut kept: Vec<Food> = Vec::new();
        let mut gained: u128 = 0;

        let n0 = self.apples.len();
        proof {
            assert(orig.len() == n0);
            lemma_eaten_total_bounds(orig, head_loc, gsize);
            lemma_mul_inequality(orig.len() as int, 18446744073709551615, 4294967295);
        }
        while self.apples.len() > 0
            invariant
                self.snake == old(self).snake,
                self.mouse_pressed == old(self).mouse_pressed,
                self.mouse_offset == old(self).mouse_offset,
                self.resolution == old(self).resolution,
                self.map == old(self).map,
                self.food_types@ == old(self).food_types@,
                self.tick == old(self).tick,
                head_loc == self.snake.body@[0].loc,
                self.snake.body@.len() >= 1,
                size_i as int == gsize,
                gsize == spec_size(self.snake.power),
                surviving(orig, head_loc, gsize) == kept@ + surviving(
                    self.apples@,
                    head_loc,
                    gsize,
                ),
                eaten_total(orig, head_loc, gsize) == gained + eaten_total(
                    self.apples@,
                    head_loc,
                    gsize,
                ),
                0 <= gained <= eaten_total(orig, head_loc, gsize),
                eaten_total(orig, head_loc, gsize) <= orig.len() * (u32::MAX as int),
                orig.len() <= 18446744073709551615,
            decreases self.apples.len(),
        {
            let ghost pre_list = self.apples@;
            proof {
                assert(self.apples@.remove(0) =~= self.apples@.drop_first());
            }
            let f = self.apples.remove(0);
            proof {
                lemma_eaten_total_bounds(self.apples@, head_loc, gsize);
                assert(eaten_total(pre_list, head_loc, gsize) == (if food_overlap(
                    head_loc,
                    gsize,
                    f,
                ) {
                    f.amount as int
                } else {
                    0
                }) + eaten_total(self.apples@, head_loc, gsize));
                lemma_mul_inequality(orig.len() as int, 18446744073709551615, 4294967295);
            }
            let overlap = overlaps(head_loc, size_i, &f);
            if overlap {
                gained = gained + f.amount as u128;
            } else {
                let ghost kept_before = kept@;
                kept.push(f);
                proof {
                    assert(kept_before + (seq![f] + surviving(self.apples@, head_loc, gsize))
                        =~= kept@ + surviving(self.apples@, head_loc, gsize));
                }
            }
        }
        proof {
            assert(kept@ + surviving(self.apples@, head_loc, gsize) =~= kept@);
        }
        self.apples = kept;

        proof {
            lemma_mul_inequality(orig.len() as int, 18446744073709551615, 4294967295);
        }
        let total: u128 = self.snake.power as u128 + gained;
        let new_power: u32 = if total > u32::MAX as u128 {
            u32::MAX
        } else {
            total as u32
        };
        self.snake.power = new_power;
    }

    /// One full game-logic step, in its fixed order: apply the held mouse
    /// button to the power, spawn food when the timer fires and the
    /// resolution allows it, advance the spawn timer, drive the snake
    /// (heading, border clamp, location update), and resolve food
    /// collisions.
    pub fn game_logic(&mut self)
        requires
            old(self).snake.body@.len() >= 1,
            old(self).tick < SPAWN_PERIOD,
        ensures
            step_rel(*old(self), *final(self)),
            final(self).snake.body@.len() == old(self).snake.body@.len(),
            final(self).tick < SPAWN_PERIOD,
    {
        match self.mouse_pressed {
            Some(MouseButton::Left) => {
                let p = self.snake.power;
                self.snake.power = if p == u32::MAX {
                    u32::MAX
                } else {
                    p + 1
                };
            },
            Some(MouseButton::Right) => {
                if self.snake.power != 0 {
                    self.snake.power = self.snake.power - 1;
                }
            },
            _ => {},
        }
        let ghost g1 = self.snake;

        if self.tick == 0 {
            if self.food_types.len() >= 1 && self.resolution.x >= SPAWN_MIN_RES
                && self.resolution.y >= SPAWN_MIN_RES {
                self.spawn_apple();
            }
        }
        let ghost gmid = self.apples@;

        self.tick = (self.tick + 1) % SPAWN_PERIOD;

        let offset = self.mouse_offset;
        self.snake.move_towards(offset);
        let ghost g2 = self.snake;
        let w = self.map.width;
        let h = self.map.height;
        let bw = self.map.border_width;
        self.snake.border_collision(w, h, bw);
        let ghost g3 = self.snake;
        self.snake.update_locations();
        let ghost g4 = self.snake;

        self.apple_collision();

        proof {
            assert(pipeline(
                g1,
                g2,
                g3,
                g4,
                old(self).mouse_offset,
                old(self).map.width as int,
                old(self).map.height as int,
                old(self).map.border_width as int,
            ));
            assert(gmid.len() >= 0);
        }
    }
}

/// The executable overlap test, exact against `food_overlap`.
fn overlaps(head: Point, size: i64, f: &Food) -> (r: bool)
    requires
        size >= 0,
    ensures
        r == food_overlap(head, size as int, *f),
{
    let s: i128 = f.size as i128;
    let half: i128 = if s >= 0 {
        s / 2
    } else {
        -((-s) / 2)
    };
    let hx: i128 = head.x as i128;
    let hy: i128 = head.y as i128;
    let fx: i128 = f.point.x as i128;
    let fy: i128 = f.point.y as i128;
    hx <= fx + half && fx <= hx + size as i128 && hy <= fy + half && fy <= hy + size as i128
}

} // verus!
