//! The actuators that carry the rod, and the rod's contact with the balls.
use crate::fixed::{
    add_spec, floor_div, fx_add, fx_mul0, fx_sub, in_range, mul0_spec, sat, sub_spec, LIMIT, ONE,
};
use crate::objects::{Actuator, Ball, BallView, Input, Table, ACTUATOR_Z, ROD_RADIUS};
use crate::vector::{
    dot3, extend, length3, minus3, normalized3, plus3, scaled3, v3, zero3, Vec2, Vec3,
};
use vstd::prelude::*;

verus! {

/// Top speed an actuator is driven toward at full input: 2.0.
pub const ACTUATOR_VEL: i64 = 2_000_000;

/// Spring constant of the actuator drive: 0.9.
pub const ACTUATOR_STIFFNESS: i64 = 900_000;

/// Damping on the actuator's own speed: 8.0.
pub const ACTUATOR_DAMPING: i64 = 8_000_000;

/// How far either actuator may stray from the two actuators' mean height: 0.2.
pub const MAX_TILT: i64 = 200_000;

/// Mean height of the two actuators, rounded down.
pub open spec fn mean_y(a: [Actuator; 2]) -> int {
    (a[0].pos.y + a[1].pos.y) / 2
}

pub open spec fn clamp_spec(x: int, lo: int, hi: int) -> int {
    if x < lo {
        lo
    } else if x > hi {
        hi
    } else {
        x
    }
}

/// One substep of the spring-damper drive of one actuator toward the speed
/// its input axis asks for, with its height then kept within `MAX_TILT` of
/// `mean`. Its products round toward zero, so that rounding never feeds
/// speed into the drive.
pub open spec fn actuator_step(a: Actuator, axis: int, dt: int, mean: int) -> Actuator {
    let target = mul0_spec(axis, ACTUATOR_VEL as int);
    let error = sub_spec(target, a.vel as int);
    let accel = sub_spec(
        mul0_spec(-ACTUATOR_STIFFNESS, error),
        mul0_spec(a.vel as int, ACTUATOR_DAMPING as int),
    );
    let vel = add_spec(a.vel as int, mul0_spec(dt, accel));
    let y = add_spec(a.pos.y as int, mul0_spec(dt, vel));
    Actuator {
        pos: Vec2 { x: a.pos.x, y: clamp_spec(y, mean - MAX_TILT, mean + MAX_TILT) as i64 },
        vel: vel as i64,
    }
}

fn step_actuator(a: Actuator, axis: i64, dt: i64, mean: i64) -> (r: Actuator)
    requires
        in_range(mean as int),
    ensures
        r == actuator_step(a, axis as int, dt as int, mean as int),
        r.pos.x == a.pos.x,
        in_range(r.pos.y as int),
        in_range(r.vel as int),
        mean - MAX_TILT <= r.pos.y <= mean + MAX_TILT,
{
    let target = fx_mul0(axis, ACTUATOR_VEL);
    let error = fx_sub(target, a.vel);
    let accel = fx_sub(fx_mul0(-ACTUATOR_STIFFNESS, error), fx_mul0(a.vel, ACTUATOR_DAMPING));
    let vel = fx_add(a.vel, fx_mul0(dt, accel));
    let y = fx_add(a.pos.y, fx_mul0(dt, vel));
    let lo = mean - MAX_TILT;
    let hi = mean + MAX_TILT;
    let y = if y < lo {
        lo
    } else if y > hi {
        hi
    } else {
        y
    };
    Actuator { pos: Vec2 { x: a.pos.x, y }, vel }
}

/// Advances both actuators by one substep of length `dt` under `input`.
pub fn update_actuators(actuators: &mut [Actuator; 2], input: &Input, dt: i64)
    requires
        old(actuators)[0].wf(),
        old(actuators)[1].wf(),
    ensures
        ({
            let m = mean_y(*old(actuators));
            &&& final(actuators)[0] == actuator_step(old(actuators)[0], input.actuators[0] as int, dt as int, m)
            &&& final(actuators)[1] == actuator_step(old(actuators)[1], input.actuators[1] as int, dt as int, m)
            &&& forall|i: int| 0 <= i < 2 ==> -MAX_TILT <= #[trigger] final(actuators)[i].pos.y - m <= MAX_TILT
        }),
        final(actuators)[0].wf(),
        final(actuators)[1].wf(),
        final(actuators)[0].pos.x == old(actuators)[0].pos.x,
        final(actuators)[1].pos.x == old(actuators)[1].pos.x,
        input.actuators[0] == 0 && input.actuators[1] == 0 && 0 <= dt <= IDLE_DT_MAX ==> forall|i: int|
            0 <= i < 2 ==> -abs_spec(old(actuators)[i].vel as int) <= #[trigger] final(actuators)[i].vel
                <= abs_spec(old(actuators)[i].vel as int),
{
    let mean: i64 = floor_div(actuators[0].pos.y as i128 + actuators[1].pos.y as i128, 2) as i64;
    let a0 = step_actuator(actuators[0], input.actuators[0], dt, mean);
    let a1 = step_actuator(actuators[1], input.actuators[1], dt, mean);
    proof {
        if input.actuators[0] == 0 && input.actuators[1] == 0 && 0 <= dt <= IDLE_DT_MAX {
            law_idle_actuator_slows(actuators[0], dt as int, mean as int);
            law_idle_actuator_slows(actuators[1], dt as int, mean as int);
        }
    }
    *actuators = [a0, a1];
}

/// Direction of the rod, from the left actuator to the right one.
pub open spec fn rod_direction(a: [Actuator; 2]) -> Vec3 {
    normalized3(v3(a[1].pos.x - a[0].pos.x, a[1].pos.y - a[0].pos.y, 0))
}

/// The point of the rod's axis (a line through the left actuator at height
/// `ACTUATOR_Z`) nearest to `p`.
pub open spec fn rod_point(p: Vec3, a: [Actuator; 2]) -> Vec3 {
    let base = extend(a[0].pos, ACTUATOR_Z as int);
    let u = rod_direction(a);
    plus3(base, scaled3(u, dot3(minus3(p, base), u)))
}

/// The downward reference direction of the rod's one-sided contact.
pub open spec fn down() -> Vec3 {
    Vec3 { x: 0, y: -1_000_000i64, z: 0 }
}

/// The rod's contact with one ball in play: a ball that overlaps the rod
/// from the blocking side is moved out along the contact normal, and an
/// impulse cancels its speed along that normal. A rod of no length blocks
/// nothing.
pub open spec fn rod_contact(b: BallView, a: [Actuator; 2], ball_radius: int) -> BallView {
    let r = rod_point(b.pos, a);
    let d = minus3(b.pos, r);
    let n = normalized3(d);
    let dist = length3(d);
    let reach = ball_radius + ROD_RADIUS;
    if rod_direction(a) == zero3() || !(dist < reach && dot3(down(), d) > 0) {
        b
    } else {
        BallView {
            pos: minus3(b.pos, scaled3(n, sub_spec(dist, reach))),
            impulses: b.impulses.push(scaled3(n, -dot3(n, b.vel))),
            ..b
        }
    }
}

/// The rod acts on balls in play only.
pub open spec fn rod_step(b: BallView, a: [Actuator; 2], ball_radius: int) -> BallView {
    if b.active {
        rod_contact(b, a, ball_radius)
    } else {
        b
    }
}

impl Ball {
    /// Resolves this ball's contact with the rod.
    pub fn solve_rod(&mut self, actuators: &[Actuator; 2], table: &Table)
        requires
            table.wf(),
        ensures
            final(self)@ == rod_step(old(self)@, *actuators, table.ball_radius as int),
    {
        if !self.active {
            return ;
        }
        let a0 = actuators[0].pos;
        let a1 = actuators[1].pos;
        let u = Vec3::new(a1.x, a1.y, 0).minus(Vec3::new(a0.x, a0.y, 0));
        let u = u.normalized();
        if u == Vec3::zero() {
            return ;
        }
        let base = a0.extend(ACTUATOR_Z);
        let rod = base.plus(u.scaled(self.pos.minus(base).dot(u)));
        let d = self.pos.minus(rod);
        let n = d.normalized();
        let dist = d.length();
        let reach = table.ball_radius + ROD_RADIUS;
        let side = Vec3::new(0, -ONE, 0).dot(d);
        if !(dist < reach && side > 0) {
            return ;
        }
        self.pos = self.pos.minus(n.scaled(fx_sub(dist, reach)));
        let along = n.dot(self.vel);
        self.impulses.push(n.scaled(-along));
    }
}

/// Resolves every ball's contact with the rod.
pub fn update_rod_physics(balls: &mut Vec<Ball>, actuators: &[Actuator; 2], table: &Table)
    requires
        table.wf(),
    ensures
        final(balls)@.len() == old(balls)@.len(),
        forall|i: int|
            0 <= i < old(balls)@.len() ==> (#[trigger] final(balls)@[i])@ == rod_step(
                old(balls)@[i]@,
                *actuators,
                table.ball_radius as int,
            ),
{
    let ghost start = balls@;
    let mut i: usize = 0;
    while i < balls.len()
        invariant
            table.wf(),
            i <= balls@.len(),
            balls@.len() == start.len(),
            forall|j: int|
                0 <= j < i ==> (#[trigger] balls@[j])@ == rod_step(
                    start[j]@,
                    *actuators,
                    table.ball_radius as int,
                ),
            forall|j: int| i <= j < balls@.len() ==> #[trigger] balls@[j] == start[j],
        decreases start.len() - i,
    {
        balls[i].solve_rod(actuators, table);
        i = i + 1;
    }
}

} // verus!

verus! {

pub open spec fn abs_spec(x: int) -> int {
    if x < 0 {
        -x
    } else {
        x
    }
}

/// The longest substep over which an idle actuator is sure to slow down:
/// 2 / (ACTUATOR_DAMPING - ACTUATOR_STIFFNESS), about 0.28169, rounded down.
pub const IDLE_DT_MAX: i64 = 281_690;

proof fn lemma_floor_bounds(x: int)
    requires
        x >= 0,
    ensures
        0 <= x / (ONE as int),
        (ONE as int) * (x / (ONE as int)) <= x < (ONE as int) * (x / (ONE as int)) + ONE,
{
    vstd::arithmetic::div_mod::lemma_fundamental_div_mod(x, ONE as int);
    vstd::arithmetic::div_mod::lemma_mod_pos_bound(x, ONE as int);
    vstd::arithmetic::div_mod::lemma_div_pos_is_pos(x, ONE as int);
}

/// The braking of a speed of magnitude `w`: with `kw` the spring's rounded
/// share and `dw` the damper's, the change `(dt * (dw - kw)) / ONE` is at
/// most twice `w`.
proof fn lemma_idle_braking(w: int, kw: int, dw: int, dt: int)
    requires
        0 <= w <= LIMIT,
        kw == (ACTUATOR_STIFFNESS * w) / (ONE as int),
        dw == sat(8 * w),
        0 <= dt <= IDLE_DT_MAX,
    ensures
        0 <= dw - kw <= LIMIT,
        0 <= (dt * (dw - kw)) / (ONE as int) <= 2 * w,
{
    lemma_floor_bounds(ACTUATOR_STIFFNESS * w);
    assert(kw <= w) by (nonlinear_arith)
        requires
            (ONE as int) * kw <= ACTUATOR_STIFFNESS * w,
            ACTUATOR_STIFFNESS < ONE,
            0 <= w,
    ;
    let m = dw - kw;
    assert(m * ONE < 7_100_000 * w + ONE) by (nonlinear_arith)
        requires
            m == dw - kw,
            dw <= 8 * w,
            ACTUATOR_STIFFNESS * w < (ONE as int) * kw + ONE,
            ACTUATOR_STIFFNESS == 900_000,
            ONE == 1_000_000,
    ;
    assert(0 <= dt * m) by (nonlinear_arith)
        requires
            0 <= dt,
            0 <= m,
    ;
    assert(dt * m < (2 * w + 1) * ONE) by (nonlinear_arith)
        requires
            0 <= dt <= 281_690,
            0 <= m,
            m * ONE < 7_100_000 * w + ONE,
            ONE == 1_000_000,
            0 <= w,
    ;
    let q = (dt * m) / (ONE as int);
    lemma_floor_bounds(dt * m);
    assert(q <= 2 * w) by (nonlinear_arith)
        requires
            (ONE as int) * q <= dt * m,
            dt * m < (2 * w + 1) * ONE,
            ONE == 1_000_000,
    ;
}

proof fn lemma_times_eight(w: int)
    ensures
        (w * ACTUATOR_DAMPING) / (ONE as int) == 8 * w,
        (-w * ACTUATOR_DAMPING) / (ONE as int) == -8 * w,
{
    assert(w * ACTUATOR_DAMPING == (ONE as int) * (8 * w));
    vstd::arithmetic::div_mod::lemma_div_multiples_vanish(8 * w, ONE as int);
    assert(-w * ACTUATOR_DAMPING == (ONE as int) * (-8 * w));
    vstd::arithmetic::div_mod::lemma_div_multiples_vanish(-8 * w, ONE as int);
}

/// With no input, damping outweighs the spring: over a substep no longer
/// than `IDLE_DT_MAX` an actuator's speed never grows.
pub proof fn law_idle_actuator_slows(a: Actuator, dt: int, mean: int)
    requires
        a.wf(),
        0 <= dt <= IDLE_DT_MAX,
    ensures
        -abs_spec(a.vel as int) <= actuator_step(a, 0, dt, mean).vel <= abs_spec(a.vel as int),
{
    let v = a.vel as int;
    let w = abs_spec(v);
    let r = actuator_step(a, 0, dt, mean);
    assert(mul0_spec(0, ACTUATOR_VEL as int) == 0);
    lemma_times_eight(w);
    if v >= 0 {
        assert(sub_spec(0, v) == -v);
        assert((-ACTUATOR_STIFFNESS) * (-v) == ACTUATOR_STIFFNESS * w);
        let kw = (ACTUATOR_STIFFNESS * w) / (ONE as int);
        lemma_floor_bounds(ACTUATOR_STIFFNESS * w);
        assert(mul0_spec(-ACTUATOR_STIFFNESS, -v) == kw);
        assert(mul0_spec(v, ACTUATOR_DAMPING as int) == sat(8 * w));
        lemma_idle_braking(w, kw, sat(8 * w), dt);
        let m = sat(8 * w) - kw;
        assert(sub_spec(kw, sat(8 * w)) == -m);
        assert(dt * (-m) == -(dt * m)) by (nonlinear_arith);
        assert(dt * m >= 0) by (nonlinear_arith)
            requires
                dt >= 0,
                m >= 0,
        ;
        assert(mul0_spec(dt, -m) == sat(-((dt * m) / (ONE as int))));
    } else {
        assert(sub_spec(0, v) == w);
        assert((-ACTUATOR_STIFFNESS) * w == -(ACTUATOR_STIFFNESS * w));
        let kw = (ACTUATOR_STIFFNESS * w) / (ONE as int);
        lemma_floor_bounds(ACTUATOR_STIFFNESS * w);
        assert(mul0_spec(-ACTUATOR_STIFFNESS, w) == -kw);
        assert(v * ACTUATOR_DAMPING == -(w * ACTUATOR_DAMPING));
        assert(mul0_spec(v, ACTUATOR_DAMPING as int) == -sat(8 * w));
        lemma_idle_braking(w, kw, sat(8 * w), dt);
        let m = sat(8 * w) - kw;
        assert(sub_spec(-kw, -sat(8 * w)) == m);
        assert(dt * m >= 0) by (nonlinear_arith)
            requires
                dt >= 0,
                m >= 0,
        ;
        assert(mul0_spec(dt, m) == sat((dt * m) / (ONE as int)));
    }
}

} // verus!
