//! The simulated objects: balls, the two actuators that carry the rod, the
//! holes of a level, and the table they lie on.
use crate::fixed::{in_range, LIMIT};
use crate::vector::{Vec2, Vec3};
use vstd::prelude::*;

verus! {

/// Radius of a ball: 0.03.
pub const BALL_RADIUS: i64 = 30_000;

/// Radius of the rod: 0.008.
pub const ROD_RADIUS: i64 = 8_000;

/// Height of the rod's axis above the table: 1.2 ball radii.
pub const ACTUATOR_Z: i64 = 36_000;

/// Width of the table: 1.0.
pub const TABLE_WIDTH: i64 = 1_000_000;

/// Share of a ball's speed that a side wall gives back: 0.4.
pub const WALL_DAMPING: i64 = 400_000;

/// Constant acceleration on every ball: 9.81 down the table, 0.1 into it.
pub const GRAVITY_X: i64 = 0;

pub const GRAVITY_Y: i64 = 9_810_000;

pub const GRAVITY_Z: i64 = -100_000;

/// Home position of the left actuator: (0, 1.722222).
pub const LEFT_HOME_X: i64 = 0;

pub const HOME_Y: i64 = 1_722_222;

/// Home position of the right actuator: (0.907407, 1.722222).
pub const RIGHT_HOME_X: i64 = 907_407;

/// Spawn position of a ball: (0.5, 1.666666, one ball radius).
pub const SPAWN_X: i64 = 500_000;

pub const SPAWN_Y: i64 = 1_666_666;

/// The table's geometry as the collision solvers see it.
#[derive(Clone, Copy, Debug, PartialEq, Eq, Structural)]
pub struct Table {
    pub width: i64,
    pub ball_radius: i64,
}

impl Table {
    /// A positive ball radius, and room on the table for one ball.
    pub open spec fn wf(self) -> bool {
        0 < self.ball_radius && 2 * self.ball_radius <= self.width <= LIMIT
    }

    /// The game's own table.
    pub fn standard() -> (r: Table)
        ensures
            r.width == TABLE_WIDTH,
            r.ball_radius == BALL_RADIUS,
            r.wf(),
    {
        Table { width: TABLE_WIDTH, ball_radius: BALL_RADIUS }
    }
}

/// One end of the rod: it moves along `y` only.
#[derive(Clone, Copy, Debug, PartialEq, Eq, Structural)]
pub struct Actuator {
    pub pos: Vec2,
    pub vel: i64,
}

impl Actuator {
    pub open spec fn wf(self) -> bool {
        self.pos.wf() && in_range(self.vel as int)
    }
}

/// The actuators at rest in their home positions.
pub open spec fn home_actuators() -> [Actuator; 2] {
    [
        Actuator { pos: Vec2 { x: LEFT_HOME_X, y: HOME_Y }, vel: 0 },
        Actuator { pos: Vec2 { x: RIGHT_HOME_X, y: HOME_Y }, vel: 0 },
    ]
}

pub fn home() -> (r: [Actuator; 2])
    ensures
        r == home_actuators(),
{
    [
        Actuator { pos: Vec2 { x: LEFT_HOME_X, y: HOME_Y }, vel: 0 },
        Actuator { pos: Vec2 { x: RIGHT_HOME_X, y: HOME_Y }, vel: 0 },
    ]
}

/// A circular hole in the table.
#[derive(Clone, Copy, Debug, PartialEq, Eq, Structural)]
pub struct Hole {
    pub pos: Vec2,
    pub radius: i64,
}

/// A ball: where it is, how it moves, and what acts on it.
#[derive(Debug)]
pub struct Ball {
    pub pos: Vec3,
    pub vel: Vec3,
    /// False once the ball has left play.
    pub active: bool,
    /// Accelerations applied at every substep.
    pub forces: Vec<Vec3>,
    /// Velocity changes from the current substep's collisions.
    pub impulses: Vec<Vec3>,
    /// The hole that holds the ball at this substep, if any.
    pub in_hole: Option<usize>,
}

/// What a ball is, as a mathematical value.
pub struct BallView {
    pub pos: Vec3,
    pub vel: Vec3,
    pub active: bool,
    pub forces: Seq<Vec3>,
    pub impulses: Seq<Vec3>,
    pub in_hole: Option<usize>,
}

impl BallView {
    pub open spec fn wf(self) -> bool {
        self.pos.wf() && self.vel.wf()
    }
}

impl View for Ball {
    type V = BallView;

    open spec fn view(&self) -> BallView {
        BallView {
            pos: self.pos,
            vel: self.vel,
            active: self.active,
            forces: self.forces@,
            impulses: self.impulses@,
            in_hole: self.in_hole,
        }
    }
}

/// A fresh ball at the spawn point, under gravity.
pub open spec fn spawned_ball() -> BallView {
    BallView {
        pos: Vec3 { x: SPAWN_X, y: SPAWN_Y, z: BALL_RADIUS },
        vel: Vec3 { x: 0, y: 0, z: BALL_RADIUS },
        active: true,
        forces: seq![Vec3 { x: GRAVITY_X, y: GRAVITY_Y, z: GRAVITY_Z }],
        impulses: seq![],
        in_hole: None,
    }
}

impl Ball {
    pub fn new() -> (r: Ball)
        ensures
            r@ == spawned_ball(),
    {
        let mut forces: Vec<Vec3> = Vec::new();
        forces.push(Vec3 { x: GRAVITY_X, y: GRAVITY_Y, z: GRAVITY_Z });
        let r = Ball {
            pos: Vec3 { x: SPAWN_X, y: SPAWN_Y, z: BALL_RADIUS },
            vel: Vec3 { x: 0, y: 0, z: BALL_RADIUS },
            active: true,
            forces,
            impulses: Vec::new(),
            in_hole: None,
        };
        assert(r@.forces =~= spawned_ball().forces);
        assert(r@.impulses =~= spawned_ball().impulses);
        r
    }
}

/// The controls as the simulation reads them at one substep.
#[derive(Clone, Copy, Debug)]
pub struct Input {
    /// The two actuator axes, each in `[-ONE, ONE]`.
    pub actuators: [i64; 2],
    pub menu_up: bool,
    pub menu_down: bool,
    pub enter: bool,
    pub escape: bool,
}

} // verus!
