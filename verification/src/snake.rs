//! The snake: an ordered chain of location/direction nodes, its power-derived
//! statistics, and the per-tick movement steps (heading change, border clamp,
//! follow-the-leader body update).
//!
//! All quantities are in fixed-point units of `geom::UNIT` per pixel.  The
//! movement steps are specified exactly: each postcondition pins the new body
//! down to the rounding of the integer square root and of the component-wise
//! scaling, with coordinates saturating at the far ends of the `i64` range.

use vstd::prelude::*;
use crate::geom::{
    add_sat,
    lemma_scale_bounds,
    lemma_sqrt_floor_unique,
    lemma_toward_bounds,
    narrow64,
    norm_sq,
    sat64,
    scale_signed,
    scale_to,
    spec_clamp,
    spec_len,
    spec_scale,
    spec_toward_x,
    spec_toward_y,
    sub_sat,
    Color,
    Point,
    PointDirection,
    UNIT,
};
use vstd::arithmetic::div_mod::{
    lemma_div_is_ordered,
    lemma_div_multiples_vanish,
    lemma_div_of0,
    lemma_div_pos_is_pos,
};

verus! {

/// The snake's velocity, in fixed-point units per tick.
pub open spec fn spec_speed(power: u32) -> int {
    35 * power + 5000
}

/// How many nodes `reset_body` builds for a given power.
pub open spec fn spec_nodes(power: u32) -> int {
    power as int / 10 + 50
}

/// The resting distance between adjacent body nodes, in fixed-point units.
pub open spec fn spec_node_length(power: u32) -> int {
    100 * power + 12000
}

/// The side of the snake's (square) hit box, in fixed-point units.
pub open spec fn spec_size(power: u32) -> int {
    100 * power + 10000
}

/// The render zoom factor, in ten-thousandths.
pub open spec fn spec_scale_factor(power: u32) -> int {
    15 * power + 10000
}

/// All the power-derived statistics are monotone in power, and the node
/// count follows its formula exactly.
pub proof fn lemma_stats_monotone(p1: u32, p2: u32)
    requires
        p1 <= p2,
    ensures
        spec_nodes(p1) <= spec_nodes(p2),
        spec_speed(p1) <= spec_speed(p2),
        spec_node_length(p1) <= spec_node_length(p2),
        spec_size(p1) <= spec_size(p2),
        spec_scale_factor(p1) <= spec_scale_factor(p2),
{
    lemma_div_is_ordered(p1 as int, p2 as int, 10);
}

/// The snake: `body[0]` is the head, the last node the tail.  `power` is the
/// accumulated score that all statistics derive from.  The body is sized by
/// `reset_body` alone; changing the power never resizes it.
pub struct Snake {
    pub body: Vec<PointDirection>,
    pub power: u32,
    pub color: Color,
}

/// The saturated difference between a child node's location and its
/// (already moved) parent's.
pub open spec fn chase_delta(parent: PointDirection, child: PointDirection) -> Point {
    Point {
        x: sat64(child.loc.x - parent.loc.x) as i64,
        y: sat64(child.loc.y - parent.loc.y) as i64,
    }
}

/// Where one chase step puts a child node: the child is re-snapped to sit
/// `len` units behind its parent along the parent-to-child axis, and its
/// direction becomes that axis, scaled to magnitude `UNIT`.
pub open spec fn chase_rel(
    parent: PointDirection,
    child_old: PointDirection,
    child_new: PointDirection,
    len: int,
) -> bool {
    let delta = chase_delta(parent, child_old);
    let ux = spec_toward_x(delta, UNIT as int);
    let uy = spec_toward_y(delta, UNIT as int);
    &&& child_new.direction.x == ux
    &&& child_new.direction.y == uy
    &&& child_new.loc.x == sat64(parent.loc.x + spec_scale(ux, len, UNIT as int))
    &&& child_new.loc.y == sat64(parent.loc.y + spec_scale(uy, len, UNIT as int))
}

/// Where one tick moves the head: it advances by its direction, and the
/// direction is renormalised to magnitude `UNIT`.
pub open spec fn head_step(old_h: PointDirection, new_h: PointDirection) -> bool {
    &&& new_h.loc.x == sat64(old_h.loc.x + old_h.direction.x)
    &&& new_h.loc.y == sat64(old_h.loc.y + old_h.direction.y)
    &&& new_h.direction.x == spec_toward_x(old_h.direction, UNIT as int)
    &&& new_h.direction.y == spec_toward_y(old_h.direction, UNIT as int)
}

/// What `move_towards(target)` does to a snake.
pub open spec fn move_rel(pre: Snake, post: Snake, target: Point) -> bool {
    &&& post.body@.len() == pre.body@.len()
    &&& post.body@[0].loc == pre.body@[0].loc
    &&& post.body@[0].direction.x == spec_toward_x(target, spec_speed(pre.power))
    &&& post.body@[0].direction.y == spec_toward_y(target, spec_speed(pre.power))
    &&& forall|i: int| 1 <= i < pre.body@.len() ==> post.body@[i] == pre.body@[i]
    &&& post.power == pre.power
    &&& post.color == pre.color
}

/// The distance the arena bounds are shrunk by on each side: half the
/// snake's hit box plus the border thickness.
pub open spec fn head_margin(power: u32, bw: int) -> int {
    spec_size(power) / 2 + bw
}

/// What `border_collision(w, h, bw)` does to a snake: if the head's
/// prospective location (current location plus direction) leaves the shrunk
/// arena on either axis, the direction is rewritten so that the next
/// location update lands exactly on the clamped point.
pub open spec fn border_rel(pre: Snake, post: Snake, w: int, h: int, bw: int) -> bool {
    let head = pre.body@[0];
    let margin = head_margin(pre.power, bw);
    let px = head.loc.x + head.direction.x;
    let py = head.loc.y + head.direction.y;
    let out = px < margin || px > w - margin || py < margin || py > h - margin;
    &&& post.body@.len() == pre.body@.len()
    &&& forall|i: int| 1 <= i < pre.body@.len() ==> post.body@[i] == pre.body@[i]
    &&& post.body@[0].loc == head.loc
    &&& (if out {
        &&& post.body@[0].direction.x == sat64(spec_clamp(px, margin, w - margin) - head.loc.x)
        &&& post.body@[0].direction.y == sat64(spec_clamp(py, margin, h - margin) - head.loc.y)
    } else {
        post.body@[0].direction == head.direction
    })
    &&& post.power == pre.power
    &&& post.color == pre.color
}

/// What `update_locations` does to a snake: the head advances, then every
/// body node chases the one before it.
pub open spec fn update_rel(pre: Snake, post: Snake) -> bool {
    &&& post.body@.len() == pre.body@.len()
    &&& head_step(pre.body@[0], post.body@[0])
    &&& forall|i: int|
        1 <= i < pre.body@.len() ==> chase_rel(
            post.body@[i - 1],
            pre.body@[i],
            post.body@[i],
            spec_node_length(pre.power),
        )
    &&& post.power == pre.power
    &&& post.color == pre.color
}

/// One chase step never moves a child further than `len` from its parent
/// on either axis.
pub proof fn lemma_chase_step_bounded(
    parent: PointDirection,
    child_old: PointDirection,
    child_new: PointDirection,
    len: int,
)
    requires
        chase_rel(parent, child_old, child_new, len),
        0 <= len,
    ensures
        sat64(parent.loc.x - len) <= child_new.loc.x <= sat64(parent.loc.x + len),
        sat64(parent.loc.y - len) <= child_new.loc.y <= sat64(parent.loc.y + len),
{
    let delta = chase_delta(parent, child_old);
    lemma_toward_bounds(delta, UNIT as int);
    lemma_scale_bounds(spec_toward_x(delta, UNIT as int), len, UNIT as int);
    lemma_scale_bounds(spec_toward_y(delta, UNIT as int), len, UNIT as int);
}

/// When parent and child sit on one horizontal line, the chase step
/// re-snaps the child to exactly `len` units from the parent, on the
/// child's side, and its direction to exactly the unit x axis: the
/// body-chase distance is exact wherever the rescaling rounds nothing
/// away.
pub proof fn lemma_chase_snaps_exact(
    parent: PointDirection,
    child_old: PointDirection,
    child_new: PointDirection,
    len: int,
)
    requires
        chase_rel(parent, child_old, child_new, len),
        0 <= len,
        child_old.loc.y == parent.loc.y,
        child_old.loc.x != parent.loc.x,
        -i64::MAX <= child_old.loc.x - parent.loc.x <= i64::MAX,
        i64::MIN <= parent.loc.x - len,
        parent.loc.x + len <= i64::MAX,
    ensures
        child_new.loc.y == parent.loc.y,
        child_old.loc.x > parent.loc.x ==> child_new.loc.x == parent.loc.x + len
            && child_new.direction == (Point { x: UNIT, y: 0 }),
        child_old.loc.x < parent.loc.x ==> child_new.loc.x == parent.loc.x - len
            && child_new.direction == (Point { x: (-1000) as i64, y: 0 }),
{
    let dx = child_old.loc.x - parent.loc.x;
    let m = if dx >= 0 {
        dx
    } else {
        -dx
    };
    let delta = chase_delta(parent, child_old);
    assert(delta.x == dx && delta.y == 0);
    assert(dx * dx == m * m && m * m >= 0 && m * m < (m + 1) * (m + 1)) by (nonlinear_arith)
        requires
            m >= 1,
            m == dx || m == -dx,
    ;
    assert(norm_sq(delta) == dx * dx);
    lemma_sqrt_floor_unique(m * m, m);
    assert(spec_len(delta) == m);
    lemma_div_multiples_vanish(UNIT as int, m);
    assert(spec_toward_x(delta, UNIT as int) == if dx > 0 {
        UNIT as int
    } else {
        -(UNIT as int)
    });
    lemma_div_of0(m);
    assert(spec_toward_y(delta, UNIT as int) == 0);
    lemma_div_multiples_vanish(len, UNIT as int);
    assert(spec_scale(UNIT as int, len, UNIT as int) == len);
    assert(spec_scale(-(UNIT as int), len, UNIT as int) == -len);
    lemma_div_of0(UNIT as int);
    assert(spec_scale(0, len, UNIT as int) == 0);
}

/// After `border_collision` followed by `update_locations`, the head lies
/// inside the arena shrunk by half the snake's size plus the border width,
/// whatever its location and direction were before — provided the arena is
/// large enough for the snake and all quantities are far from the ends of
/// the coordinate range.
pub proof fn lemma_head_in_bounds(s1: Snake, s2: Snake, s3: Snake, w: int, h: int, bw: int)
    requires
        s1.body@.len() >= 1,
        border_rel(s1, s2, w, h, bw),
        update_rel(s2, s3),
        0 <= bw <= 1000000000000000000,
        0 < w <= 1000000000000000000,
        0 < h <= 1000000000000000000,
        -1000000000000000000 <= s1.body@[0].loc.x <= 1000000000000000000,
        -1000000000000000000 <= s1.body@[0].loc.y <= 1000000000000000000,
        head_margin(s1.power, bw) <= w - head_margin(s1.power, bw),
        head_margin(s1.power, bw) <= h - head_margin(s1.power, bw),
    ensures
        head_margin(s1.power, bw) <= s3.body@[0].loc.x <= w - head_margin(s1.power, bw),
        head_margin(s1.power, bw) <= s3.body@[0].loc.y <= h - head_margin(s1.power, bw),
{
    let head = s1.body@[0];
    let margin = head_margin(s1.power, bw);
    lemma_div_pos_is_pos(spec_size(s1.power), 2);
    assert(margin >= 0);
    let px = head.loc.x + head.direction.x;
    let py = head.loc.y + head.direction.y;
    let out = px < margin || px > w - margin || py < margin || py > h - margin;
    if out {
        let cx = spec_clamp(px, margin, w - margin);
        let cy = spec_clamp(py, margin, h - margin);
        assert(margin <= cx <= w - margin);
        assert(margin <= cy <= h - margin);
        assert(s2.body@[0].direction.x == cx - head.loc.x);
        assert(s2.body@[0].direction.y == cy - head.loc.y);
        assert(s3.body@[0].loc.x == cx);
        assert(s3.body@[0].loc.y == cy);
    } else {
        assert(s3.body@[0].loc.x == px);
        assert(s3.body@[0].loc.y == py);
    }
}

impl Snake {
    /// A new snake of power zero whose body starts at `head` and trails off
    /// along the negative x axis, fifty nodes spaced twelve pixels apart.
    pub fn new(head: Point, color: Color) -> (r: Snake)
        ensures
            r.power == 0,
            r.color == color,
            r.body@.len() == 50,
            forall|i: int|
                0 <= i < 50 ==> (#[trigger] r.body@[i]).loc.x == sat64(head.x - i * 12000)
                    && r.body@[i].loc.y == head.y && r.body@[i].direction == (Point {
                    x: UNIT,
                    y: 0,
                }),
    {
        let mut s = Snake { body: Vec::new(), power: 0, color };
        s.reset_body(head);
        s
    }

    /// The velocity derived from the current power, in units per tick.
    pub fn get_speed(&self) -> (r: u64)
        ensures
            r == spec_speed(self.power),
    {
        (self.power as u64) * 35 + 5000
    }

    /// The number of body nodes a `reset_body` would build.
    pub fn get_nodes(&self) -> (r: u32)
        ensures
            r == spec_nodes(self.power),
    {
        self.power / 10 + 50
    }

    /// The resting distance between adjacent body nodes, in units.
    pub fn get_node_length(&self) -> (r: u64)
        ensures
            r == spec_node_length(self.power),
    {
        (self.power as u64) * 100 + 12000
    }

    /// The side of the snake's hit box, in units.
    pub fn get_size(&self) -> (r: u64)
        ensures
            r == spec_size(self.power),
    {
        (self.power as u64) * 100 + 10000
    }

    /// The render zoom factor, in ten-thousandths.
    pub fn get_scale(&self) -> (r: u64)
        ensures
            r == spec_scale_factor(self.power),
    {
        (self.power as u64) * 15 + 10000
    }

    /// A snapshot of the whole body, head first.
    pub fn get_body(&self) -> (r: Vec<PointDirection>)
        ensures
            r@ == self.body@,
    {
        let r = self.body.clone();
        proof {
            assert(r@ =~= self.body@);
        }
        r
    }

    pub fn get_color(&self) -> (r: Color)
        ensures
            r == self.color,
    {
        self.color
    }

    /// The head node.  The body is never empty in a well-formed snake.
    pub fn get_head(&self) -> (r: PointDirection)
        requires
            self.body@.len() >= 1,
        ensures
            r == self.body@[0],
    {
        self.body[0]
    }

    /// Replaces node `index`, leaving the rest of the body unchanged.
    fn replace_body(&mut self, index: usize, point: PointDirection)
        requires
            index < old(self).body@.len(),
        ensures
            final(self).body@ == old(self).body@.update(index as int, point),
            final(self).power == old(self).power,
            final(self).color == old(self).color,
    {
        let n = self.body.len();
        assert(index < n);
        self.body.insert(index, point);
        self.body.remove(index + 1);
        proof {
            assert(self.body@ =~= old(self).body@.update(index as int, point));
        }
    }

    /// Points the head towards `direction` at the speed the power commands:
    /// the head's direction becomes `direction` rescaled to that speed, and
    /// nothing else changes.  A zero `direction` leaves the snake standing
    /// still rather than producing an undefined heading.
    pub fn move_towards(&mut self, direction: Point)
        requires
            old(self).body@.len() >= 1,
        ensures
            move_rel(*old(self), *final(self), direction),
    {
        let speed = self.get_speed();
        let dir = scale_to(direction, speed as i64);
        let location = self.get_head().loc;
        self.replace_body(0, PointDirection::new(location, dir));
    }

    /// Clamps the head's prospective location to the arena shrunk by half
    /// the snake's size plus the border width, rewriting the head's
    /// direction so the next `update_locations` lands inside.
    pub fn border_collision(&mut self, width: i64, height: i64, border_width: i64)
        requires
            old(self).body@.len() >= 1,
        ensures
            border_rel(*old(self), *final(self), width as int, height as int, border_width as int),
    {
        let head = self.get_head();
        let size = self.get_size();
        let px: i128 = head.loc.x as i128 + head.direction.x as i128;
        let py: i128 = head.loc.y as i128 + head.direction.y as i128;
        let margin: i128 = (size / 2) as i128 + border_width as i128;
        let max_x: i128 = width as i128 - margin;
        let max_y: i128 = height as i128 - margin;

        if px < margin || px > max_x || py < margin || py > max_y {
            let cx: i128 = if px >= margin {
                px
            } else {
                margin
            };
            let cx: i128 = if cx <= max_x {
                cx
            } else {
                max_x
            };
            let cy: i128 = if py >= margin {
                py
            } else {
                margin
            };
            let cy: i128 = if cy <= max_y {
                cy
            } else {
                max_y
            };
            let x = narrow64(cx - head.loc.x as i128);
            let y = narrow64(cy - head.loc.y as i128);
            self.replace_body(0, PointDirection::new(head.loc, Point { x, y }));
        }
    }

    /// Advances the head by its direction, renormalises the head's
    /// direction, and lets the body chase.
    pub fn update_locations(&mut self)
        requires
            old(self).body@.len() >= 1,
        ensures
            update_rel(*old(self), *final(self)),
    {
        let point = self.get_head();
        let new_location = Point {
            x: add_sat(point.loc.x, point.direction.x),
            y: add_sat(point.loc.y, point.direction.y),
        };
        let new_direction = scale_to(point.direction, UNIT);
        self.replace_body(0, PointDirection::new(new_location, new_direction));
        let ghost mid = *self;

        self.update_body();

        proof {
            assert forall|i: int| 1 <= i < old(self).body@.len() implies chase_rel(
                self.body@[i - 1],
                old(self).body@[i],
                self.body@[i],
                spec_node_length(old(self).power),
            ) by {
                assert(mid.body@[i] == old(self).body@[i]);
                assert(chase_rel(
                    self.body@[i - 1],
                    mid.body@[i],
                    self.body@[i],
                    spec_node_length(mid.power),
                ));
            }
        }
    }

    /// One chase pass: node `i` is re-snapped to sit `node_length` behind
    /// node `i - 1` (already moved) along the axis between them.
    fn update_body(&mut self)
        requires
            old(self).body@.len() >= 1,
        ensures
            final(self).body@.len() == old(self).body@.len(),
            final(self).body@[0] == old(self).body@[0],
            forall|i: int|
                1 <= i < old(self).body@.len() ==> chase_rel(
                    final(self).body@[i - 1],
                    old(self).body@[i],
                    final(self).body@[i],
                    spec_node_length(old(self).power),
                ),
            final(self).power == old(self).power,
            final(self).color == old(self).color,
    {
        let length = self.get_node_length();
        let len_i: i64 = length as i64;
        let ghost orig = self.body@;
        let ghost gpower = self.power;
        let ghost gcolor = self.color;

        let mut i: usize = 1;
        let size = self.body.len();
        while i < size
            invariant
                1 <= i <= size,
                size == self.body@.len(),
                orig.len() == size,
                self.power == gpower,
                self.color == gcolor,
                len_i == spec_node_length(gpower),
                self.body@[0] == orig[0],
                forall|j: int| i <= j < size ==> self.body@[j] == orig[j],
                forall|j: int|
                    1 <= j < i ==> chase_rel(
                        self.body@[j - 1],
                        orig[j],
                        self.body@[j],
                        spec_node_length(gpower),
                    ),
            decreases size - i,
        {
            let parent = self.body[i - 1];
            let child = self.body[i];

            let delta = Point {
                x: sub_sat(child.loc.x, parent.loc.x),
                y: sub_sat(child.loc.y, parent.loc.y),
            };
            let direction = scale_to(delta, UNIT);
            let sx = scale_signed(direction.x, len_i, UNIT as u64);
            let sy = scale_signed(direction.y, len_i, UNIT as u64);
            let new_location = Point {
                x: add_sat(parent.loc.x, sx),
                y: add_sat(parent.loc.y, sy),
            };

            proof {
                assert(delta == chase_delta(parent, child));
            }
            self.replace_body(i, PointDirection::new(new_location, direction));
            proof {
                assert(chase_rel(
                    self.body@[i - 1],
                    orig[i as int],
                    self.body@[i as int],
                    spec_node_length(gpower),
                ));
            }

            i += 1;
        }
    }

    /// Clears the body and rebuilds it: `get_nodes()` nodes spaced
    /// `get_node_length()` apart along the negative x axis from `head`,
    /// each pointing along the positive x axis.
    pub fn reset_body(&mut self, head: Point)
        ensures
            final(self).body@.len() == spec_nodes(old(self).power),
            forall|i: int|
                0 <= i < final(self).body@.len() ==> (#[trigger] final(self).body@[i]).loc.x
                    == sat64(head.x - i * spec_node_length(old(self).power))
                    && final(self).body@[i].loc.y == head.y && final(self).body@[i].direction
                    == (Point { x: UNIT, y: 0 }),
            final(self).power == old(self).power,
            final(self).color == old(self).color,
    {
        self.body.clear();

        let ghost gpower = self.power;
        let ghost gcolor = self.color;
        let nodes = self.get_nodes();
        let length = self.get_node_length();

        let mut i: u32 = 0;
        while i < nodes
            invariant
                i <= nodes,
                self.body@.len() == i,
                nodes == spec_nodes(gpower),
                length == spec_node_length(gpower),
                self.power == gpower,
                self.color == gcolor,
                forall|j: int|
                    0 <= j < i ==> (#[trigger] self.body@[j]).loc.x == sat64(
                        head.x - j * spec_node_length(gpower),
                    ) && self.body@[j].loc.y == head.y && self.body@[j].direction == (Point {
                        x: UNIT,
                        y: 0,
                    }),
            decreases nodes - i,
        {
            proof {
                assert((i as int) * (length as int) <= 4294967295 * 18446744073709551615)
                    by (nonlinear_arith)
                    requires
                        0 <= i as int <= 4294967295,
                        0 <= length as int <= 18446744073709551615,
                ;
                assert((i as int) * (length as int) >= 0) by (nonlinear_arith)
                    requires
                        0 <= i as int,
                        0 <= length as int,
                ;
            }
            let offset: i128 = (i as i128) * (length as i128);
            let x = narrow64(head.x as i128 - offset);
            self.body.push(PointDirection::new(Point { x, y: head.y }, Point { x: UNIT, y: 0 }));
            i += 1;
        }
    }
}

} // verus!
