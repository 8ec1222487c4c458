//! The ball integrator: forces and impulses turn into velocity, velocity into
//! position.
use crate::fixed::{in_range, mul_spec, sat, LIMIT, ONE};
use crate::objects::{Ball, BallView};
use crate::vector::{plus3, scaled3, zero3, Vec3};
use vstd::prelude::*;

verus! {

/// The sum of a list of vectors, added from the first on.
pub open spec fn sum_spec(s: Seq<Vec3>) -> Vec3
    decreases s.len(),
{
    if s.len() == 0 {
        zero3()
    } else {
        plus3(sum_spec(s.drop_last()), s.last())
    }
}

/// One substep of length `dt` for one ball: velocity gains the forces times
/// `dt` and the impulses, position gains velocity times `dt`, and the
/// impulses are spent. A ball out of play does not move.
pub open spec fn integrate_spec(b: BallView, dt: int) -> BallView {
    if !b.active {
        b
    } else {
        let vel = plus3(b.vel, plus3(scaled3(sum_spec(b.forces), dt), sum_spec(b.impulses)));
        BallView { pos: plus3(b.pos, scaled3(vel, dt)), vel, impulses: seq![], ..b }
    }
}

/// `n` substeps of length `dt`.
pub open spec fn integrate_n(b: BallView, dt: int, n: nat) -> BallView
    decreases n,
{
    if n == 0 {
        b
    } else {
        integrate_spec(integrate_n(b, dt, (n - 1) as nat), dt)
    }
}

proof fn lemma_sum_of_zeros(s: Seq<Vec3>)
    requires
        forall|i: int| 0 <= i < s.len() ==> s[i] == zero3(),
    ensures
        sum_spec(s) == zero3(),
    decreases s.len(),
{
    if s.len() > 0 {
        lemma_sum_of_zeros(s.drop_last());
    }
}

/// A ball at rest with no force and no impulse on it stays where it is, and
/// at rest, for any number of substeps.
pub proof fn law_rest_is_kept(b: BallView, dt: int, n: nat)
    requires
        b.pos.wf(),
        b.vel == zero3(),
        forall|i: int| 0 <= i < b.forces.len() ==> b.forces[i] == zero3(),
        b.impulses.len() == 0,
    ensures
        integrate_n(b, dt, n).pos == b.pos,
        integrate_n(b, dt, n).vel == zero3(),
        integrate_n(b, dt, n).forces == b.forces,
        integrate_n(b, dt, n).impulses.len() == 0,
    decreases n,
{
    if n > 0 {
        law_rest_is_kept(b, dt, (n - 1) as nat);
        let p = integrate_n(b, dt, (n - 1) as nat);
        lemma_sum_of_zeros(p.forces);
        lemma_sum_of_zeros(p.impulses);
        assert(mul_spec(0, dt) == 0);
    }
}

pub fn sum_vectors(v: &Vec<Vec3>) -> (r: Vec3)
    ensures
        r == sum_spec(v@),
{
    let mut acc = Vec3::zero();
    let mut i: usize = 0;
    while i < v.len()
        invariant
            i <= v@.len(),
            acc == sum_spec(v@.subrange(0, i as int)),
        decreases v@.len() - i,
    {
        assert(v@.subrange(0, i + 1).drop_last() =~= v@.subrange(0, i as int));
        acc = acc.plus(v[i]);
        i = i + 1;
    }
    assert(v@.subrange(0, v@.len() as int) =~= v@);
    acc
}

impl Ball {
    /// Advances this ball by one substep of length `dt`.
    pub fn integrate(&mut self, dt: i64)
        ensures
            final(self)@ == integrate_spec(old(self)@, dt as int),
    {
        if !self.active {
            return ;
        }
        let forces = sum_vectors(&self.forces);
        let impulses = sum_vectors(&self.impulses);
        self.impulses.clear();
        self.vel = self.vel.plus(forces.scaled(dt).plus(impulses));
        self.pos = self.pos.plus(self.vel.scaled(dt));
        assert(self.impulses@ =~= Seq::<Vec3>::empty());
    }
}

/// Advances every ball in play by one substep of length `dt`.
pub fn update_balls(balls: &mut Vec<Ball>, dt: i64)
    ensures
        final(balls)@.len() == old(balls)@.len(),
        forall|i: int|
            0 <= i < old(balls)@.len() ==> (#[trigger] final(balls)@[i])@ == integrate_spec(
                old(balls)@[i]@,
                dt as int,
            ),
{
    let ghost start = balls@;
    let mut i: usize = 0;
    while i < balls.len()
        invariant
            i <= balls@.len(),
            balls@.len() == start.len(),
            forall|j: int| 0 <= j < i ==> (#[trigger] balls@[j])@ == integrate_spec(start[j]@, dt as int),
            forall|j: int| i <= j < balls@.len() ==> #[trigger] balls@[j] == start[j],
        decreases start.len() - i,
    {
        balls[i].integrate(dt);
        i = i + 1;
    }
}

} // verus!

verus! {

/// One coordinate of a ball under a constant velocity step `a` per substep:
/// position and velocity after `k` substeps of length `dt`.
pub open spec fn coord_after(p: int, v: int, a: int, dt: int, k: nat) -> (int, int)
    decreases k,
{
    if k == 0 {
        (p, v)
    } else {
        let prev = coord_after(p, v, a, dt, (k - 1) as nat);
        let v2 = sat(prev.1 + a);
        (sat(prev.0 + mul_spec(v2, dt)), v2)
    }
}

/// Twice the closed-form position, in millionths of a fixed-point unit,
/// after `n` substeps: `2 * (p + n*v*dt + a*dt*n*(n+1)/2)`.
pub open spec fn closed_form_twice(p: int, v: int, a: int, dt: int, n: int) -> int {
    2 * p * ONE + 2 * n * v * dt + a * dt * n * (n + 1)
}

/// Nothing saturates along the way: each velocity, each position step and
/// the closed form's range stay within the fixed-point range.
pub open spec fn unsaturated(p: int, v: int, a: int, dt: int, n: nat) -> bool {
    forall|k: int|
        0 <= k <= n ==> {
            &&& in_range(#[trigger] (v + k * a))
            &&& in_range((v + k * a) * dt / ONE as int)
            &&& -LIMIT * ONE * 2 <= closed_form_twice(p, v, a, dt, k) - 2 * k * ONE
            &&& closed_form_twice(p, v, a, dt, k) <= LIMIT * ONE * 2
        }
}

proof fn lemma_coord_closed_form(p: int, v: int, a: int, dt: int, n: nat)
    requires
        in_range(p),
        unsaturated(p, v, a, dt, n),
    ensures
        coord_after(p, v, a, dt, n).1 == v + n * a,
        closed_form_twice(p, v, a, dt, n as int) - 2 * n * ONE <= 2 * coord_after(p, v, a, dt, n).0
            * ONE,
        2 * coord_after(p, v, a, dt, n).0 * ONE <= closed_form_twice(p, v, a, dt, n as int),
    decreases n,
{
    if n > 0 {
        let k = (n - 1) as nat;
        assert(unsaturated(p, v, a, dt, k));
        lemma_coord_closed_form(p, v, a, dt, k);
        let prev = coord_after(p, v, a, dt, k);
        let vn = v + n * a;
        assert(in_range(vn));
        assert(prev.1 + a == vn) by (nonlinear_arith)
            requires
                prev.1 == v + k * a,
                vn == v + n * a,
                n == k + 1,
        ;
        let step = vn * dt / ONE as int;
        assert(in_range(step));
        assert(mul_spec(vn, dt) == step);
        let prod = vn * dt;
        vstd::arithmetic::div_mod::lemma_fundamental_div_mod(prod, ONE as int);
        let rem = prod % (ONE as int);
        assert(prod == (ONE as int) * (prod / (ONE as int)) + rem);
        assert(0 <= rem < ONE);
        assert(vn * dt == ONE * step + rem);
        assert(a * dt * n * (n + 1) - a * dt * k * (k + 1) == 2 * (a * dt) * n) by (nonlinear_arith)
            requires
                n == k + 1,
        ;
        assert(2 * n * v * dt - 2 * k * v * dt == 2 * (v * dt)) by (nonlinear_arith)
            requires
                n == k + 1,
        ;
        assert(2 * vn * dt == 2 * (v * dt) + 2 * (a * dt) * n) by (nonlinear_arith)
            requires
                vn == v + n * a,
        ;
        assert(closed_form_twice(p, v, a, dt, n as int) == closed_form_twice(p, v, a, dt, k as int)
            + 2 * vn * dt);
        assert(-LIMIT * ONE * 2 <= closed_form_twice(p, v, a, dt, n as int) - 2 * n * ONE);
        let raw = prev.0 + step;
        assert(2 * raw * ONE == 2 * prev.0 * ONE + 2 * vn * dt - 2 * rem) by (nonlinear_arith)
            requires
                raw == prev.0 + step,
                vn * dt == ONE * step + rem,
        ;
        assert(2 * raw * ONE <= LIMIT * ONE * 2);
        assert(raw <= LIMIT) by (nonlinear_arith)
            requires
                2 * raw * ONE <= LIMIT * ONE * 2,
                ONE > 0,
        ;
        assert(-LIMIT * ONE * 2 < 2 * raw * ONE);
        assert(-LIMIT <= raw) by (nonlinear_arith)
            requires
                -LIMIT * ONE * 2 < 2 * raw * ONE,
                ONE > 0,
        ;
        assert(sat(vn) == vn);
        assert(coord_after(p, v, a, dt, n).1 == vn);
        assert(sat(raw) == raw);
        assert(coord_after(p, v, a, dt, n).0 == raw);
        assert(2 * raw * ONE >= closed_form_twice(p, v, a, dt, n as int) - 2 * n * ONE) by (nonlinear_arith)
            requires
                2 * raw * ONE == 2 * prev.0 * ONE + 2 * vn * dt - 2 * rem,
                rem < ONE,
                closed_form_twice(p, v, a, dt, k as int) - 2 * k * ONE <= 2 * prev.0 * ONE,
                closed_form_twice(p, v, a, dt, n as int) == closed_form_twice(p, v, a, dt, k as int)
                    + 2 * vn * dt,
                n == k + 1,
        ;
    }
}

/// What the integrator does to each coordinate of a ball in play with no
/// impulse on it: the velocity step is the forces' sum times `dt`.
proof fn lemma_integrate_coords(b: BallView, dt: int, n: nat)
    requires
        b.active,
        b.impulses.len() == 0,
        b.pos.wf(),
        b.vel.wf(),
    ensures
        ({
            let a = scaled3(sum_spec(b.forces), dt);
            let r = integrate_n(b, dt, n);
            &&& r.active
            &&& r.forces == b.forces
            &&& r.impulses.len() == 0
            &&& r.pos.x == coord_after(b.pos.x as int, b.vel.x as int, a.x as int, dt, n).0
            &&& r.vel.x == coord_after(b.pos.x as int, b.vel.x as int, a.x as int, dt, n).1
            &&& r.pos.y == coord_after(b.pos.y as int, b.vel.y as int, a.y as int, dt, n).0
            &&& r.vel.y == coord_after(b.pos.y as int, b.vel.y as int, a.y as int, dt, n).1
            &&& r.pos.z == coord_after(b.pos.z as int, b.vel.z as int, a.z as int, dt, n).0
            &&& r.vel.z == coord_after(b.pos.z as int, b.vel.z as int, a.z as int, dt, n).1
        }),
    decreases n,
{
    if n > 0 {
        lemma_integrate_coords(b, dt, (n - 1) as nat);
        let prev = integrate_n(b, dt, (n - 1) as nat);
        assert(sum_spec(prev.impulses) == zero3());
    }
}

/// Under constant forces and with no impulse, a ball in play follows the
/// closed form `p + n*v*dt + a*dt*n*(n+1)/2` of semi-implicit Euler, where
/// `a` is the velocity the forces add per substep: its velocity after `n`
/// substeps is exactly `v + n*a`, and its position lies within `n`
/// millionths below the closed form, the rounding of one step each.
pub proof fn law_constant_forces_closed_form(b: BallView, dt: int, n: nat)
    requires
        b.active,
        b.impulses.len() == 0,
        b.pos.wf(),
        b.vel.wf(),
        unsaturated(b.pos.x as int, b.vel.x as int, scaled3(sum_spec(b.forces), dt).x as int, dt, n),
        unsaturated(b.pos.y as int, b.vel.y as int, scaled3(sum_spec(b.forces), dt).y as int, dt, n),
        unsaturated(b.pos.z as int, b.vel.z as int, scaled3(sum_spec(b.forces), dt).z as int, dt, n),
    ensures
        ({
            let a = scaled3(sum_spec(b.forces), dt);
            let r = integrate_n(b, dt, n);
            &&& r.vel.x == b.vel.x + n * a.x
            &&& r.vel.y == b.vel.y + n * a.y
            &&& r.vel.z == b.vel.z + n * a.z
            &&& closed_form_twice(b.pos.x as int, b.vel.x as int, a.x as int, dt, n as int) - 2 * n * ONE
                <= 2 * r.pos.x * ONE <= closed_form_twice(b.pos.x as int, b.vel.x as int, a.x as int, dt, n as int)
            &&& closed_form_twice(b.pos.y as int, b.vel.y as int, a.y as int, dt, n as int) - 2 * n * ONE
                <= 2 * r.pos.y * ONE <= closed_form_twice(b.pos.y as int, b.vel.y as int, a.y as int, dt, n as int)
            &&& closed_form_twice(b.pos.z as int, b.vel.z as int, a.z as int, dt, n as int) - 2 * n * ONE
                <= 2 * r.pos.z * ONE <= closed_form_twice(b.pos.z as int, b.vel.z as int, a.z as int, dt, n as int)
        }),
{
    let a = scaled3(sum_spec(b.forces), dt);
    lemma_integrate_coords(b, dt, n);
    lemma_coord_closed_form(b.pos.x as int, b.vel.x as int, a.x as int, dt, n);
    lemma_coord_closed_form(b.pos.y as int, b.vel.y as int, a.y as int, dt, n);
    lemma_coord_closed_form(b.pos.z as int, b.vel.z as int, a.z as int, dt, n);
}

} // verus!

verus! {

/// A ball in play held at `at` on the table, resting on it at one ball
/// radius, and still.
pub open spec fn dragged(b: BallView, at: crate::vector::Vec2, ball_radius: int) -> BallView {
    if b.active {
        BallView {
            pos: Vec3 { x: at.x, y: at.y, z: ball_radius as i64 },
            vel: zero3(),
            ..b
        }
    } else {
        b
    }
}

/// Puts every ball in play at `at`, at rest on the table: the player
/// holding the ball with the mouse.
pub fn drag_balls(balls: &mut Vec<Ball>, at: crate::vector::Vec2, table: &crate::objects::Table)
    ensures
        final(balls)@.len() == old(balls)@.len(),
        forall|i: int|
            0 <= i < old(balls)@.len() ==> (#[trigger] final(balls)@[i])@ == dragged(
                old(balls)@[i]@,
                at,
                table.ball_radius as int,
            ),
{
    let ghost start = balls@;
    let mut i: usize = 0;
    while i < balls.len()
        invariant
            i <= balls@.len(),
            balls@.len() == start.len(),
            forall|j: int|
                0 <= j < i ==> (#[trigger] balls@[j])@ == dragged(start[j]@, at, table.ball_radius as int),
            forall|j: int| i <= j < balls@.len() ==> #[trigger] balls@[j] == start[j],
        decreases start.len() - i,
    {
        if balls[i].active {
            balls[i].pos = Vec3 { x: at.x, y: at.y, z: table.ball_radius };
            balls[i].vel = Vec3::zero();
        }
        i = i + 1;
    }
}

} // verus!

verus! {

/// Substeps of the lengths in `dts`, in order.
pub open spec fn integrate_each(b: BallView, dts: Seq<int>) -> BallView
    decreases dts.len(),
{
    if dts.len() == 0 {
        b
    } else {
        integrate_spec(integrate_each(b, dts.drop_last()), dts.last())
    }
}

/// A ball at rest with no force and no impulse on it stays where it is, and
/// at rest, over substeps of any lengths.
pub proof fn law_rest_is_kept_any_steps(b: BallView, dts: Seq<int>)
    requires
        b.pos.wf(),
        b.vel == zero3(),
        forall|i: int| 0 <= i < b.forces.len() ==> b.forces[i] == zero3(),
        b.impulses.len() == 0,
    ensures
        integrate_each(b, dts).pos == b.pos,
        integrate_each(b, dts).vel == zero3(),
        integrate_each(b, dts).forces == b.forces,
        integrate_each(b, dts).impulses.len() == 0,
    decreases dts.len(),
{
    if dts.len() > 0 {
        law_rest_is_kept_any_steps(b, dts.drop_last());
        let p = integrate_each(b, dts.drop_last());
        lemma_sum_of_zeros(p.forces);
        lemma_sum_of_zeros(p.impulses);
        assert(mul_spec(0, dts.last()) == 0);
    }
}

} // verus!
