use seesaw::{
    drag_balls,
    update_actuators, update_balls, update_edge_physics, update_hole_physics, update_rod_physics,
    Actuator, Ball, Hole, Input, Table, Vec2, Vec3, BALL_RADIUS, ONE,
};

fn ball_at(x: i64, y: i64, z: i64, vel: Vec3, forces: Vec<Vec3>) -> Ball {
    Ball {
        pos: Vec3::new(x, y, z),
        vel,
        active: true,
        forces,
        impulses: vec![],
        in_hole: None,
    }
}

fn no_input() -> Input {
    Input {
        actuators: [0, 0],
        menu_up: false,
        menu_down: false,
        enter: false,
        escape: false,
    }
}

#[test]
fn ball_at_rest_without_forces_stays() {
    let zero = Vec3::new(0, 0, 0);
    let mut balls = vec![ball_at(ONE / 2, ONE / 2, 0, zero, vec![zero])];
    for _ in 0..500 {
        update_balls(&mut balls, 8_000);
    }
    assert_eq!(balls[0].pos, Vec3::new(ONE / 2, ONE / 2, 0));
    assert_eq!(balls[0].vel, zero);
}

#[test]
fn gravity_follows_closed_form() {
    // g = 9.81 along y, v0 = 0.1 along x, 100 substeps of 0.008
    let g = 9_810_000i64;
    let dt = 8_000i64;
    let n = 100i64;
    let mut balls = vec![ball_at(0, 0, 0, Vec3::new(100_000, 0, 0), vec![Vec3::new(0, g, 0)])];
    for _ in 0..n {
        update_balls(&mut balls, dt);
    }
    let t = (n * dt) as f64 / 1e6;
    let gf = g as f64 / 1e6;
    let y = balls[0].pos.y as f64 / 1e6;
    let x = balls[0].pos.x as f64 / 1e6;
    let closed_y = 0.5 * gf * t * t;
    // semi-implicit Euler runs ahead by g*dt*t/2; rounding adds a millionth per step
    let tolerance = gf * (dt as f64 / 1e6) * t / 2.0 + (n as f64) * 1e-6 + 1e-9;
    assert!((y - closed_y).abs() <= tolerance, "y = {}, closed form = {}", y, closed_y);
    assert!((x - 0.1 * t).abs() <= (n as f64) * 1e-6);
    assert_eq!(balls[0].vel.y, n * (g * dt / ONE));
    assert!(balls[0].impulses.is_empty());
}

#[test]
fn impulses_are_spent_once() {
    let zero = Vec3::new(0, 0, 0);
    let mut b = ball_at(0, 0, 0, zero, vec![]);
    b.impulses.push(Vec3::new(ONE, 0, 0));
    let mut balls = vec![b];
    update_balls(&mut balls, ONE / 10);
    assert_eq!(balls[0].vel, Vec3::new(ONE, 0, 0));
    assert_eq!(balls[0].pos, Vec3::new(ONE / 10, 0, 0));
    assert!(balls[0].impulses.is_empty());
    update_balls(&mut balls, ONE / 10);
    assert_eq!(balls[0].vel, Vec3::new(ONE, 0, 0));
    assert_eq!(balls[0].pos, Vec3::new(2 * ONE / 10, 0, 0));
}

#[test]
fn inactive_ball_does_not_move() {
    let mut b = ball_at(0, 0, 0, Vec3::new(ONE, ONE, 0), vec![Vec3::new(0, ONE, 0)]);
    b.active = false;
    let mut balls = vec![b];
    update_balls(&mut balls, ONE);
    assert_eq!(balls[0].pos, Vec3::new(0, 0, 0));
}

#[test]
fn left_wall_clamps_and_reverses() {
    let table = Table {
        width: 10 * ONE,
        ball_radius: ONE / 10,
    };
    let vin = -2 * ONE;
    let mut balls = vec![ball_at(-ONE, ONE, 0, Vec3::new(vin, 0, 0), vec![])];
    update_edge_physics(&mut balls, &table);
    assert_eq!(balls[0].pos.x, ONE / 10);
    assert_eq!(balls[0].impulses, vec![Vec3::new(2_800_000, 0, 0)]);
    update_balls(&mut balls, 1_000);
    let vout = balls[0].vel.x;
    assert!(vout > 0 && vin < 0);
    assert_eq!(vout, 800_000);
}

#[test]
fn right_wall_clamps() {
    let table = Table {
        width: 10 * ONE,
        ball_radius: ONE / 10,
    };
    let mut balls = vec![ball_at(11 * ONE, ONE, 0, Vec3::new(ONE, 0, 0), vec![])];
    update_edge_physics(&mut balls, &table);
    assert_eq!(balls[0].pos.x, 9_900_000);
    assert_eq!(balls[0].impulses, vec![Vec3::new(-1_400_000, 0, 0)]);
}

#[test]
fn depth_is_clamped_and_stopped() {
    let table = Table::standard();
    let mut balls = vec![ball_at(ONE / 2, ONE / 2, -ONE, Vec3::new(0, 0, -ONE / 2), vec![])];
    update_edge_physics(&mut balls, &table);
    assert_eq!(balls[0].pos.z, -3 * BALL_RADIUS);
    assert_eq!(balls[0].impulses, vec![Vec3::new(0, 0, ONE / 2)]);
    let mut high = vec![ball_at(ONE / 2, ONE / 2, ONE, Vec3::new(0, 0, 0), vec![])];
    update_edge_physics(&mut high, &table);
    assert_eq!(high[0].pos.z, BALL_RADIUS);
}

#[test]
fn ball_inside_edges_is_untouched() {
    let table = Table::standard();
    let mut balls = vec![ball_at(ONE / 2, ONE / 2, 0, Vec3::new(ONE, 0, ONE), vec![])];
    update_edge_physics(&mut balls, &table);
    assert_eq!(balls[0].pos, Vec3::new(ONE / 2, ONE / 2, 0));
    assert!(balls[0].impulses.is_empty());
}

#[test]
fn hole_marks_the_ball_over_it() {
    let table = Table::standard();
    let holes = vec![
        Hole { pos: Vec2::new(200_000, 200_000), radius: 50_000 },
        Hole { pos: Vec2::new(ONE / 2, ONE / 2), radius: 50_000 },
    ];
    let mut balls = vec![ball_at(ONE / 2, ONE / 2, 0, Vec3::new(0, 0, 0), vec![])];
    update_hole_physics(&mut balls, &holes, &table);
    assert_eq!(balls[0].in_hole, Some(1));
    let mut away = vec![ball_at(800_000, 800_000, 0, Vec3::new(0, 0, 0), vec![])];
    update_hole_physics(&mut away, &holes, &table);
    assert_eq!(away[0].in_hole, None);
}

#[test]
fn rim_pushes_ball_toward_center() {
    let table = Table::standard();
    let holes = vec![Hole { pos: Vec2::new(ONE / 2, ONE / 2), radius: 50_000 }];
    // 0.04 from the center, below the table: the rim point is 0.01 away
    let mut balls = vec![ball_at(ONE / 2 + 40_000, ONE / 2, -10_000, Vec3::new(ONE, 0, 0), vec![])];
    update_hole_physics(&mut balls, &holes, &table);
    assert_eq!(balls[0].in_hole, Some(0));
    assert!(balls[0].pos.x < ONE / 2 + 40_000);
    assert_eq!(balls[0].pos.x, ONE / 2 + 20_000);
    assert_eq!(balls[0].impulses, vec![Vec3::new(-ONE, 0, 0)]);
}

#[test]
fn hole_solver_twice_on_resolved_ball() {
    let table = Table::standard();
    let holes = vec![Hole { pos: Vec2::new(ONE / 2, ONE / 2), radius: 50_000 }];
    let mut balls = vec![ball_at(ONE / 2, ONE / 2, -20_000, Vec3::new(0, 0, -ONE), vec![])];
    update_hole_physics(&mut balls, &holes, &table);
    let first = balls[0].pos;
    let mark = balls[0].in_hole;
    update_hole_physics(&mut balls, &holes, &table);
    assert_eq!(balls[0].pos, first);
    assert_eq!(balls[0].in_hole, mark);
    assert_eq!(first, Vec3::new(ONE / 2, ONE / 2, -20_000));
}

#[test]
fn zero_radius_hole_is_harmless() {
    let table = Table::standard();
    let holes = vec![Hole { pos: Vec2::new(ONE / 2, ONE / 2), radius: 0 }];
    let mut balls = vec![ball_at(ONE / 2, ONE / 2, 0, Vec3::new(0, 0, 0), vec![])];
    update_hole_physics(&mut balls, &holes, &table);
    // no hole holds the ball: the table surface lifts it to rest on the table
    assert_eq!(balls[0].pos, Vec3::new(ONE / 2, ONE / 2, BALL_RADIUS));
    assert_eq!(balls[0].in_hole, None);
}

#[test]
fn table_surface_holds_ball_over_open_table() {
    let table = Table::standard();
    let holes = vec![Hole { pos: Vec2::new(ONE / 2, ONE / 2), radius: 50_000 }];
    let mut balls = vec![ball_at(200_000, 200_000, 10_000, Vec3::new(0, ONE, -ONE), vec![])];
    update_hole_physics(&mut balls, &holes, &table);
    assert_eq!(balls[0].pos, Vec3::new(200_000, 200_000, BALL_RADIUS));
    assert_eq!(balls[0].impulses, vec![Vec3::new(0, 0, ONE)]);
    assert_eq!(balls[0].in_hole, None);
    update_hole_physics(&mut balls, &holes, &table);
    assert_eq!(balls[0].pos, Vec3::new(200_000, 200_000, BALL_RADIUS));
    assert_eq!(balls[0].impulses.len(), 1);
}

#[test]
fn table_surface_does_not_hold_ball_below_it() {
    let table = Table::standard();
    let holes = vec![Hole { pos: Vec2::new(ONE / 2, ONE / 2), radius: 50_000 }];
    let mut balls = vec![ball_at(200_000, 200_000, -10_000, Vec3::new(0, 0, -ONE), vec![])];
    update_hole_physics(&mut balls, &holes, &table);
    assert_eq!(balls[0].pos, Vec3::new(200_000, 200_000, -10_000));
    assert!(balls[0].impulses.is_empty());
}

fn level_rod() -> [Actuator; 2] {
    [
        Actuator { pos: Vec2::new(0, ONE), vel: 0 },
        Actuator { pos: Vec2::new(ONE, ONE), vel: 0 },
    ]
}

#[test]
fn rod_pushes_ball_out_from_below() {
    let table = Table::standard();
    // rod axis at y = 1, height 0.036; the ball 0.02 below it along y
    let mut balls = vec![ball_at(ONE / 2, 980_000, 36_000, Vec3::new(0, ONE, 0), vec![])];
    update_rod_physics(&mut balls, &level_rod(), &table);
    assert_eq!(balls[0].pos, Vec3::new(ONE / 2, 962_000, 36_000));
    assert_eq!(balls[0].impulses, vec![Vec3::new(0, -ONE, 0)]);
}

#[test]
fn rod_lets_ball_through_from_above() {
    let table = Table::standard();
    let mut balls = vec![ball_at(ONE / 2, 1_020_000, 36_000, Vec3::new(0, -ONE, 0), vec![])];
    update_rod_physics(&mut balls, &level_rod(), &table);
    assert_eq!(balls[0].pos, Vec3::new(ONE / 2, 1_020_000, 36_000));
    assert!(balls[0].impulses.is_empty());
}

#[test]
fn rod_of_no_length_blocks_nothing() {
    let table = Table::standard();
    let a = [
        Actuator { pos: Vec2::new(ONE / 2, ONE), vel: 0 },
        Actuator { pos: Vec2::new(ONE / 2, ONE), vel: 0 },
    ];
    let mut balls = vec![ball_at(ONE / 2, 990_000, 36_000, Vec3::new(0, 0, 0), vec![])];
    update_rod_physics(&mut balls, &a, &table);
    assert_eq!(balls[0].pos, Vec3::new(ONE / 2, 990_000, 36_000));
}

#[test]
fn actuators_stay_within_tilt_band() {
    let mut a = level_rod();
    let input = Input {
        actuators: [ONE, -ONE],
        ..no_input()
    };
    for _ in 0..2000 {
        let mean = (a[0].pos.y + a[1].pos.y).div_euclid(2);
        update_actuators(&mut a, &input, 8_000);
        assert!((a[0].pos.y - mean).abs() <= 200_000);
        assert!((a[1].pos.y - mean).abs() <= 200_000);
    }
    assert_eq!(a[0].pos.x, 0);
    assert_eq!(a[1].pos.x, ONE);
    assert!(a[0].pos.y != a[1].pos.y);
}

#[test]
fn actuator_spring_damper_step() {
    let mut a = level_rod();
    let input = Input {
        actuators: [ONE, 0],
        ..no_input()
    };
    update_actuators(&mut a, &input, 10_000);
    // target 2.0, error 2.0, accel = -0.9*2 - 0 = -1.8, vel = 0.01*-1.8
    assert_eq!(a[0].vel, -18_000);
    assert_eq!(a[0].pos.y, ONE - 180);
    assert_eq!(a[1].vel, 0);
    assert_eq!(a[1].pos.y, ONE);
}

#[test]
fn idle_actuator_never_speeds_up() {
    let mut a = [
        Actuator { pos: Vec2::new(0, ONE), vel: 1 },
        Actuator { pos: Vec2::new(ONE, ONE), vel: -ONE },
    ];
    // a speed of one millionth over a substep of 0.26 reverses but does not grow
    update_actuators(&mut a, &no_input(), 260_000);
    assert_eq!(a[0].vel, -1);
    // -1.0 gains 7.1 * 0.26 = 1.846 of speed the other way: it ends at 0.846
    assert_eq!(a[1].vel, 846_000);
    let mut b = [
        Actuator { pos: Vec2::new(0, ONE), vel: 123_457 },
        Actuator { pos: Vec2::new(ONE, ONE), vel: -987_651 },
    ];
    for _ in 0..1000 {
        let before = [b[0].vel.abs(), b[1].vel.abs()];
        update_actuators(&mut b, &no_input(), 8_000);
        assert!(b[0].vel.abs() <= before[0]);
        assert!(b[1].vel.abs() <= before[1]);
    }
    // the drive settles where a step's change rounds to nothing
    assert!(b[0].vel.abs() <= 17);
    assert!(b[1].vel.abs() <= 17);
}

#[test]
fn dragged_ball_rests_at_the_cursor() {
    let mut moving = ball_at(ONE / 2, ONE / 2, -ONE / 100, Vec3::new(ONE, ONE, ONE), vec![]);
    moving.impulses.push(Vec3::new(1, 2, 3));
    let mut out = ball_at(0, 0, 0, Vec3::new(ONE, 0, 0), vec![]);
    out.active = false;
    let mut balls = vec![moving, out];
    drag_balls(&mut balls, Vec2::new(300_000, 400_000), &Table::standard());
    assert_eq!(balls[0].pos, Vec3::new(300_000, 400_000, BALL_RADIUS));
    assert_eq!(balls[0].vel, Vec3::new(0, 0, 0));
    assert_eq!(balls[0].impulses, vec![Vec3::new(1, 2, 3)]);
    assert_eq!(balls[1].pos, Vec3::new(0, 0, 0));
    assert_eq!(balls[1].vel, Vec3::new(ONE, 0, 0));
}

#[test]
fn ball_at_rest_stays_over_varying_steps() {
    let zero = Vec3::new(0, 0, 0);
    let mut balls = vec![ball_at(ONE / 3, ONE / 7, 5, zero, vec![zero, zero])];
    for dt in [1i64, 8_000, 333_333, 0, 16_667, ONE] {
        update_balls(&mut balls, dt);
    }
    assert_eq!(balls[0].pos, Vec3::new(ONE / 3, ONE / 7, 5));
    assert_eq!(balls[0].vel, zero);
}

#[test]
fn untouched_ball_is_left_alone_by_holes() {
    let table = Table::standard();
    let holes = vec![Hole { pos: Vec2::new(ONE / 2, ONE / 2), radius: 50_000 }];
    // over open table, resting exactly on it
    let mut balls = vec![ball_at(200_000, 200_000, BALL_RADIUS, Vec3::new(ONE, 0, -ONE), vec![])];
    update_hole_physics(&mut balls, &holes, &table);
    assert_eq!(balls[0].pos, Vec3::new(200_000, 200_000, BALL_RADIUS));
    assert_eq!(balls[0].vel, Vec3::new(ONE, 0, -ONE));
    assert!(balls[0].impulses.is_empty());
}
