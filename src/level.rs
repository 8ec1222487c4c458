//! The table's own collisions: its side walls and depth limits, and the rims
//! of its holes.
use crate::fixed::{fx_mul, fx_sub, mul_spec, sub_spec, LIMIT, ONE};
use crate::objects::{Ball, BallView, Hole, Table, WALL_DAMPING};
use crate::rod::clamp_spec;
use crate::vector::{
    dot3, extend, length2, length3, minus2, minus3, normalized2, normalized3, plus2, scaled2,
    scaled3, Vec2, Vec3,
};
use vstd::prelude::*;

verus! {

/// Keeps one ball in play within the side walls, where a wall reflects the
/// ball's sideways speed with damping, and within the depth range from
/// three ball radii below the table to one above it, where the ball stops.
pub open spec fn edge_step(b: BallView, t: Table) -> BallView {
    if !b.active {
        b
    } else {
        let br = t.ball_radius as int;
        let (min_x, max_x) = (br, t.width - br);
        let b1 = if b.pos.x < min_x || b.pos.x > max_x {
            BallView {
                pos: Vec3 { x: clamp_spec(b.pos.x as int, min_x, max_x) as i64, ..b.pos },
                impulses: b.impulses.push(
                    Vec3 {
                        x: mul_spec(b.vel.x as int, -(ONE + WALL_DAMPING)) as i64,
                        y: 0,
                        z: 0,
                    },
                ),
                ..b
            }
        } else {
            b
        };
        let (min_z, max_z) = (-3 * br, br);
        if b1.pos.z < min_z || b1.pos.z > max_z {
            BallView {
                pos: Vec3 { z: clamp_spec(b1.pos.z as int, min_z, max_z) as i64, ..b1.pos },
                impulses: b1.impulses.push(
                    Vec3 { x: 0, y: 0, z: sub_spec(0, b1.vel.z as int) as i64 },
                ),
                ..b1
            }
        } else {
            b1
        }
    }
}

fn clamp_i64(x: i64, lo: i64, hi: i64) -> (r: i64)
    requires
        lo <= hi,
    ensures
        r == clamp_spec(x as int, lo as int, hi as int),
{
    if x < lo {
        lo
    } else if x > hi {
        hi
    } else {
        x
    }
}

impl Ball {
    /// Resolves this ball's contact with the table's edges.
    pub fn solve_edges(&mut self, table: &Table)
        requires
            table.wf(),
        ensures
            final(self)@ == edge_step(old(self)@, *table),
    {
        if !self.active {
            return ;
        }
        let br = table.ball_radius;
        let min_x = br;
        let max_x = table.width - br;
        if self.pos.x < min_x || self.pos.x > max_x {
            self.pos.x = clamp_i64(self.pos.x, min_x, max_x);
            let push = fx_mul(self.vel.x, -(ONE + WALL_DAMPING));
            self.impulses.push(Vec3 { x: push, y: 0, z: 0 });
        }
        let min_z = -3 * br;
        let max_z = br;
        if self.pos.z < min_z || self.pos.z > max_z {
            self.pos.z = clamp_i64(self.pos.z, min_z, max_z);
            let push = fx_sub(0, self.vel.z);
            self.impulses.push(Vec3 { x: 0, y: 0, z: push });
        }
    }
}

/// Resolves every ball's contact with the table's edges.
pub fn update_edge_physics(balls: &mut Vec<Ball>, table: &Table)
    requires
        table.wf(),
    ensures
        final(balls)@.len() == old(balls)@.len(),
        forall|i: int|
            0 <= i < old(balls)@.len() ==> (#[trigger] final(balls)@[i])@ == edge_step(
                old(balls)@[i]@,
                *table,
            ),
{
    let ghost start = balls@;
    let mut i: usize = 0;
    while i < balls.len()
        invariant
            table.wf(),
            i <= balls@.len(),
            balls@.len() == start.len(),
            forall|j: int| 0 <= j < i ==> (#[trigger] balls@[j])@ == edge_step(start[j]@, *table),
            forall|j: int| i <= j < balls@.len() ==> #[trigger] balls@[j] == start[j],
        decreases start.len() - i,
    {
        balls[i].solve_edges(table);
        i = i + 1;
    }
}

/// The point of the hole's rim nearest to the ball's place on the table.
pub open spec fn rim_point(p: Vec2, h: Hole) -> Vec2 {
    plus2(h.pos, scaled2(normalized2(minus2(p, h.pos)), h.radius as int))
}

/// Whether the ball's center lies over the hole's opening: either fully
/// inside the hole or on its rim.
pub open spec fn over_hole(p: Vec2, h: Hole) -> bool {
    length2(minus2(h.pos, p)) < h.radius
}

/// Pushes a ball out of a wall point `w` that it overlaps from the side that
/// `facing` points to, and cancels its speed along the contact normal.
pub open spec fn wall_contact(b: BallView, w: Vec3, facing: Vec3, br: int) -> BallView {
    let d = minus3(b.pos, w);
    let n = normalized3(d);
    let dist = length3(d);
    if dist < br && dot3(facing, d) > 0 {
        BallView {
            pos: minus3(b.pos, scaled3(n, sub_spec(dist, br))),
            impulses: b.impulses.push(scaled3(n, -dot3(n, b.vel))),
            ..b
        }
    } else {
        b
    }
}

/// The table surface under a ball, as a wall: the point `(x, y, 0)` below
/// the ball, facing up. A ball resting into it from above, at a height from
/// 0 up to less than one ball radius, is lifted to one ball radius, and an
/// impulse cancels its vertical speed. A ball below the table is not held.
pub open spec fn floor_contact(b: BallView, br: int) -> BallView {
    if 0 <= b.pos.z < br {
        BallView {
            pos: Vec3 { z: br as i64, ..b.pos },
            impulses: b.impulses.push(Vec3 { x: 0, y: 0, z: sub_spec(0, b.vel.z as int) as i64 }),
            ..b
        }
    } else {
        b
    }
}

/// One ball in play against hole `i`. Over the hole, the wall is the rim
/// point nearest the ball, lowered to the ball's depth when the ball is
/// below the table, and the ball is marked as held by the hole. When no
/// earlier hole holds the ball, the last hole of the list brings in the
/// table surface under the ball (`floor_contact`). Otherwise the hole has
/// no part in the ball's motion.
pub open spec fn hole_contact(b: BallView, h: Hole, i: int, is_last: bool, br: int) -> BallView {
    let p = Vec2 { x: b.pos.x, y: b.pos.y };
    let edge = rim_point(p, h);
    let facing = normalized3(extend(minus2(h.pos, edge), 0));
    if over_hole(p, h) {
        let depth = if b.pos.z < 0 {
            b.pos.z as int
        } else {
            0
        };
        wall_contact(
            BallView { in_hole: Some(i as usize), ..b },
            extend(edge, depth),
            facing,
            br,
        )
    } else if is_last && b.in_hole.is_none() {
        floor_contact(b, br)
    } else {
        b
    }
}

/// A ball after the first `n` holes of the list have acted on it.
pub open spec fn holes_upto(b: BallView, holes: Seq<Hole>, br: int, n: nat) -> BallView
    decreases n,
{
    if n == 0 {
        BallView { in_hole: None, ..b }
    } else {
        let k = (n - 1) as nat;
        hole_contact(holes_upto(b, holes, br, k), holes[k as int], k as int, k + 1 == holes.len(), br)
    }
}

/// The hole solver on one ball: its mark is cleared, and a ball in play then
/// meets every hole in order.
pub open spec fn hole_step(b: BallView, holes: Seq<Hole>, br: int) -> BallView {
    if b.active {
        holes_upto(b, holes, br, holes.len())
    } else {
        BallView { in_hole: None, ..b }
    }
}

/// What the holes do to a ball's position and mark depends on its position,
/// its mark and whether it is in play, and on nothing else about it.
pub proof fn lemma_holes_read_position(b: BallView, c: BallView, holes: Seq<Hole>, br: int, n: nat)
    requires
        b.pos == c.pos,
    ensures
        holes_upto(b, holes, br, n).pos == holes_upto(c, holes, br, n).pos,
        holes_upto(b, holes, br, n).in_hole == holes_upto(c, holes, br, n).in_hole,
        holes_upto(b, holes, br, n).active == b.active,
    decreases n,
{
    if n > 0 {
        lemma_holes_read_position(b, c, holes, br, (n - 1) as nat);
    }
}

/// A ball that the hole solver leaves where it is stays there when the
/// solver runs on it again, and keeps the same mark.
pub proof fn law_resolved_ball_stays(b: BallView, holes: Seq<Hole>, br: int)
    requires
        hole_step(b, holes, br).pos == b.pos,
    ensures
        hole_step(hole_step(b, holes, br), holes, br).pos == b.pos,
        hole_step(hole_step(b, holes, br), holes, br).in_hole == hole_step(b, holes, br).in_hole,
{
    let b1 = hole_step(b, holes, br);
    if b.active {
        lemma_holes_read_position(b, b1, holes, br, holes.len());
    }
}

impl Ball {
    fn solve_hole(&mut self, hole: &Hole, i: usize, is_last: bool, table: &Table)
        ensures
            final(self)@ == hole_contact(old(self)@, *hole, i as int, is_last, table.ball_radius as int),
    {
        let p = self.pos.truncate();
        let edge = hole.pos.plus(p.minus(hole.pos).normalized().scaled(hole.radius));
        let facing = hole.pos.minus(edge).extend(0).normalized();
        let wall;
        if hole.pos.minus(p).length() < hole.radius {
            self.in_hole = Some(i);
            let depth = if self.pos.z < 0 {
                self.pos.z
            } else {
                0
            };
            wall = edge.extend(depth);
        } else if is_last && self.in_hole.is_none() {
            let br = table.ball_radius;
            if 0 <= self.pos.z && self.pos.z < br {
                self.pos.z = br;
                self.impulses.push(Vec3 { x: 0, y: 0, z: fx_sub(0, self.vel.z) });
            }
            return ;
        } else {
            return ;
        }
        let br = table.ball_radius;
        let d = self.pos.minus(wall);
        let n = d.normalized();
        let dist = d.length();
        if dist < br && facing.dot(d) > 0 {
            self.pos = self.pos.minus(n.scaled(fx_sub(dist, br)));
            let along = n.dot(self.vel);
            self.impulses.push(n.scaled(-along));
        }
    }

    /// Resolves this ball's contact with every hole, in the order of the list,
    /// and marks the hole that holds it.
    pub fn solve_holes(&mut self, holes: &Vec<Hole>, table: &Table)
        ensures
            final(self)@ == hole_step(old(self)@, holes@, table.ball_radius as int),
    {
        self.in_hole = None;
        if !self.active {
            return ;
        }
        let ghost b0 = old(self)@;
        let mut i: usize = 0;
        while i < holes.len()
            invariant
                i <= holes@.len(),
                b0.active,
                self@ == holes_upto(b0, holes@, table.ball_radius as int, i as nat),
            decreases holes@.len() - i,
        {
            let is_last = i + 1 == holes.len();
            self.solve_hole(&holes[i], i, is_last, table);
            i = i + 1;
        }
    }
}

/// Resolves every ball's contact with the holes.
pub fn update_hole_physics(balls: &mut Vec<Ball>, holes: &Vec<Hole>, table: &Table)
    ensures
        final(balls)@.len() == old(balls)@.len(),
        forall|i: int|
            0 <= i < old(balls)@.len() ==> (#[trigger] final(balls)@[i])@ == hole_step(
                old(balls)@[i]@,
                holes@,
                table.ball_radius as int,
            ),
{
    let ghost start = balls@;
    let mut i: usize = 0;
    while i < balls.len()
        invariant
            i <= balls@.len(),
            balls@.len() == start.len(),
            forall|j: int|
                0 <= j < i ==> (#[trigger] balls@[j])@ == hole_step(
                    start[j]@,
                    holes@,
                    table.ball_radius as int,
                ),
            forall|j: int| i <= j < balls@.len() ==> #[trigger] balls@[j] == start[j],
        decreases start.len() - i,
    {
        balls[i].solve_holes(holes, table);
        i = i + 1;
    }
}

} // verus!

verus! {

/// The table's collisions for one substep: first the edges, then the holes.
pub fn update_level(game: &mut crate::state::GameState, table: &Table)
    requires
        table.wf(),
    ensures
        final(game).objects.balls@.len() == old(game).objects.balls@.len(),
        forall|i: int|
            0 <= i < old(game).objects.balls@.len() ==> (#[trigger] final(game).objects.balls@[i])@
                == hole_step(
                edge_step(old(game).objects.balls@[i]@, *table),
                old(game).level.holes@,
                table.ball_radius as int,
            ),
        final(game).objects.actuators == old(game).objects.actuators,
        final(game).level == old(game).level,
        final(game).progress == old(game).progress,
        final(game).camera == old(game).camera,
{
    update_edge_physics(&mut game.objects.balls, table);
    update_hole_physics(&mut game.objects.balls, &game.level.holes, table);
}

} // verus!

verus! {

/// The holes only append impulses to a ball's list.
pub proof fn lemma_holes_append(b: BallView, holes: Seq<Hole>, br: int, n: nat)
    ensures
        holes_upto(b, holes, br, n).impulses.len() >= b.impulses.len(),
        holes_upto(b, holes, br, n).impulses.subrange(0, b.impulses.len() as int) == b.impulses,
    decreases n,
{
    if n > 0 {
        lemma_holes_append(b, holes, br, (n - 1) as nat);
        let prev = holes_upto(b, holes, br, (n - 1) as nat);
        let next = holes_upto(b, holes, br, n);
        assert(next.impulses == prev.impulses || next.impulses == prev.impulses.push(
            next.impulses.last(),
        ));
        assert(next.impulses.subrange(0, b.impulses.len() as int) =~= b.impulses);
    }
}

} // verus!

verus! {

/// Over open table, the holes before the last one leave a ball as it is,
/// but for its cleared mark.
proof fn lemma_open_table_skips(b: BallView, holes: Seq<Hole>, br: int, n: nat)
    requires
        n < holes.len(),
        forall|i: int|
            0 <= i < holes.len() ==> !over_hole(Vec2 { x: b.pos.x, y: b.pos.y }, #[trigger] holes[i]),
    ensures
        holes_upto(b, holes, br, n) == (BallView { in_hole: None, ..b }),
    decreases n,
{
    if n > 0 {
        lemma_open_table_skips(b, holes, br, (n - 1) as nat);
    }
}

/// A ball in play over open table, resting into the table from above at a
/// height below one ball radius, is lifted to one ball radius with an
/// impulse that cancels its vertical speed; a second run of the hole solver
/// then leaves it where it is.
pub proof fn law_floor_lifts_ball(b: BallView, holes: Seq<Hole>, br: int)
    requires
        b.active,
        holes.len() > 0,
        forall|i: int|
            0 <= i < holes.len() ==> !over_hole(Vec2 { x: b.pos.x, y: b.pos.y }, #[trigger] holes[i]),
        0 <= b.pos.z < br,
        br <= LIMIT,
    ensures
        hole_step(b, holes, br).pos == (Vec3 { z: br as i64, ..b.pos }),
        hole_step(b, holes, br).in_hole.is_none(),
        hole_step(b, holes, br).impulses == b.impulses.push(
            Vec3 { x: 0, y: 0, z: sub_spec(0, b.vel.z as int) as i64 },
        ),
        hole_step(hole_step(b, holes, br), holes, br).pos == hole_step(b, holes, br).pos,
{
    let last = (holes.len() - 1) as nat;
    lemma_open_table_skips(b, holes, br, last);
    let b1 = hole_step(b, holes, br);
    assert(b1.active);
    assert(b1.pos.x == b.pos.x && b1.pos.y == b.pos.y);
    lemma_open_table_skips(b1, holes, br, last);
}

} // verus!

verus! {

/// The ball's center in the table plane.
pub open spec fn plane_point(b: BallView) -> Vec2 {
    Vec2 { x: b.pos.x, y: b.pos.y }
}

/// Whether hole `h`'s rim presses on a ball over the hole: the ball overlaps
/// the nearest rim point (at the ball's depth below the table) from the
/// hole's inner side.
pub open spec fn rim_touches(b: BallView, h: Hole, br: int) -> bool {
    let p = plane_point(b);
    let edge = rim_point(p, h);
    let facing = normalized3(extend(minus2(h.pos, edge), 0));
    let depth = if b.pos.z < 0 {
        b.pos.z as int
    } else {
        0
    };
    let d = minus3(b.pos, extend(edge, depth));
    length3(d) < br && dot3(facing, d) > 0
}

/// A ball that no surface presses on: no rim of a hole it is over touches
/// it, and, over open table, it is not resting into the table surface.
pub open spec fn untouched(b: BallView, holes: Seq<Hole>, br: int) -> bool {
    &&& forall|i: int|
        0 <= i < holes.len() && over_hole(plane_point(b), #[trigger] holes[i]) ==> !rim_touches(
            b,
            holes[i],
            br,
        )
    &&& (forall|i: int| 0 <= i < holes.len() ==> !over_hole(plane_point(b), #[trigger] holes[i]))
        ==> !(0 <= b.pos.z < br)
}

proof fn lemma_untouched_upto(b: BallView, holes: Seq<Hole>, br: int, n: nat)
    requires
        n <= holes.len(),
        untouched(b, holes, br),
    ensures
        holes_upto(b, holes, br, n).pos == b.pos,
        holes_upto(b, holes, br, n).vel == b.vel,
        holes_upto(b, holes, br, n).impulses == b.impulses,
        holes_upto(b, holes, br, n).in_hole.is_none() <==> (forall|i: int|
            0 <= i < n ==> !over_hole(plane_point(b), #[trigger] holes[i])),
    decreases n,
{
    if n > 0 {
        let k = (n - 1) as nat;
        lemma_untouched_upto(b, holes, br, k);
        let prev = holes_upto(b, holes, br, k);
        assert(plane_point(prev) == plane_point(b));
        if over_hole(plane_point(b), holes[k as int]) {
            assert(!rim_touches(b, holes[k as int], br));
        } else if k + 1 == holes.len() && prev.in_hole.is_none() {
            assert forall|i: int| 0 <= i < holes.len() implies !over_hole(
                plane_point(b),
                #[trigger] holes[i],
            ) by {
                if i < k {
                } else {
                    assert(i == k);
                }
            }
        }
        let next = holes_upto(b, holes, br, n);
        if next.in_hole.is_none() {
            assert forall|i: int| 0 <= i < n implies !over_hole(plane_point(b), #[trigger] holes[i]) by {
                if i < k {
                } else {
                    assert(i == k);
                }
            }
        }
    }
}

/// A ball that no rim and no table surface presses on is left exactly as it
/// is by the hole solver: same position, same speed, no new impulse.
pub proof fn law_untouched_ball_unchanged(b: BallView, holes: Seq<Hole>, br: int)
    requires
        untouched(b, holes, br),
    ensures
        hole_step(b, holes, br).pos == b.pos,
        hole_step(b, holes, br).vel == b.vel,
        hole_step(b, holes, br).impulses == b.impulses,
{
    if b.active {
        lemma_untouched_upto(b, holes, br, holes.len());
    }
}

} // verus!
